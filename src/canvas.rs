use vstd::prelude::*;
use crate::color::{Rgba, same_color};

verus! {

/// One layer of the canvas: a name, a visibility flag and a row-major grid of
/// optional colours (`None` is transparent).
pub struct Layer {
    pub name: String,
    pub data: Vec<Option<Rgba>>,
    pub visible: bool,
}

pub ghost struct LayerView {
    pub name: Seq<char>,
    pub visible: bool,
    pub pixels: Seq<Option<Rgba>>,
}

impl View for Layer {
    type V = LayerView;

    open spec fn view(&self) -> LayerView {
        LayerView { name: self.name@, visible: self.visible, pixels: self.data@ }
    }
}

/// The pixel store: fixed dimensions, an ordered stack of layers (the last one
/// is topmost) and the index of the layer that drawing goes to.
pub struct CanvasState {
    pub width: usize,
    pub height: usize,
    pub layers: Vec<Layer>,
    pub active_layer_index: usize,
}

pub ghost struct CanvasView {
    pub width: nat,
    pub height: nat,
    pub layers: Seq<LayerView>,
    pub active: nat,
}

impl View for CanvasState {
    type V = CanvasView;

    open spec fn view(&self) -> CanvasView {
        CanvasView {
            width: self.width as nat,
            height: self.height as nat,
            layers: self.layers@.map_values(|l: Layer| l@),
            active: self.active_layer_index as nat,
        }
    }
}

/// A transparent grid of `n` cells.
pub open spec fn blank_pixels(n: nat) -> Seq<Option<Rgba>> {
    Seq::new(n, |i: int| None::<Rgba>)
}

impl CanvasView {
    pub open spec fn area(self) -> nat {
        self.width * self.height
    }

    /// At least one layer, the active one among them, every layer covering the
    /// whole canvas, and an area that a `usize` can index.
    pub open spec fn wf(self) -> bool {
        &&& 1 <= self.layers.len() <= usize::MAX
        &&& self.active < self.layers.len()
        &&& self.area() <= usize::MAX
        &&& forall|i: int| 0 <= i < self.layers.len() ==> #[trigger] self.layers[i].pixels.len() == self.area()
    }

    pub open spec fn in_bounds(self, x: int, y: int) -> bool {
        0 <= x < self.width && 0 <= y < self.height
    }

    pub open spec fn index(self, x: int, y: int) -> int {
        y * self.width + x
    }

    /// The colour of one layer at `(x, y)`; transparent outside the canvas or
    /// for a layer that does not exist.
    pub open spec fn pixel_in(self, layer: int, x: int, y: int) -> Option<Rgba> {
        if self.in_bounds(x, y) && 0 <= layer < self.layers.len() {
            self.layers[layer].pixels[self.index(x, y)]
        } else {
            None
        }
    }

    pub open spec fn active_pixel(self, x: int, y: int) -> Option<Rgba> {
        self.pixel_in(self.active as int, x, y)
    }

    /// The first colour met scanning the visible layers among the lowest `n`
    /// from the top down.
    pub open spec fn composite_below(self, n: int, x: int, y: int) -> Option<Rgba>
        decreases n,
    {
        if n <= 0 {
            None
        } else if self.layers[n - 1].visible && self.pixel_in(n - 1, x, y) is Some {
            self.pixel_in(n - 1, x, y)
        } else {
            self.composite_below(n - 1, x, y)
        }
    }

    /// What the canvas shows at `(x, y)`: the topmost visible colour.
    pub open spec fn composite(self, x: int, y: int) -> Option<Rgba> {
        self.composite_below(self.layers.len() as int, x, y)
    }

    /// The canvas with one layer's pixel replaced; unchanged where the pixel or
    /// the layer does not exist.
    pub open spec fn with_pixel(self, layer: int, x: int, y: int, c: Option<Rgba>) -> CanvasView {
        if self.in_bounds(x, y) && 0 <= layer < self.layers.len() {
            CanvasView {
                layers: self.layers.update(
                    layer,
                    LayerView {
                        pixels: self.layers[layer].pixels.update(self.index(x, y), c),
                        ..self.layers[layer]
                    },
                ),
                ..self
            }
        } else {
            self
        }
    }

    /// A fresh canvas: one visible, transparent layer named "Background".
    pub open spec fn blank(width: nat, height: nat) -> CanvasView {
        CanvasView {
            width,
            height,
            layers: seq![LayerView { name: "Background"@, visible: true, pixels: blank_pixels(width * height) }],
            active: 0,
        }
    }
}

pub proof fn lemma_index_bounds(x: int, y: int, w: int, h: int)
    requires
        0 <= x < w,
        0 <= y < h,
    ensures
        0 <= y * w + x < w * h,
{
    assert(y * w + x < w * h) by (nonlinear_arith)
        requires 0 <= x < w, 0 <= y < h;
    assert(0 <= y * w) by (nonlinear_arith)
        requires 0 <= y, 0 <= w;
}

/// Setting a pixel back to the colour it had restores the canvas.
pub proof fn lemma_with_pixel_restore(c: CanvasView, layer: int, x: int, y: int, v: Option<Rgba>)
    requires
        c.wf(),
    ensures
        c.with_pixel(layer, x, y, v).with_pixel(layer, x, y, c.pixel_in(layer, x, y)) == c,
{
    if c.in_bounds(x, y) && 0 <= layer < c.layers.len() {
        lemma_index_bounds(x, y, c.width as int, c.height as int);
        let c1 = c.with_pixel(layer, x, y, v);
        let c2 = c1.with_pixel(layer, x, y, c.pixel_in(layer, x, y));
        assert(c2.layers[layer].pixels =~= c.layers[layer].pixels);
        assert(c2.layers =~= c.layers);
    }
}

/// Setting a pixel keeps the canvas well formed, and reads back what was set.
pub proof fn lemma_with_pixel(c: CanvasView, layer: int, x: int, y: int, v: Option<Rgba>)
    requires
        c.wf(),
    ensures
        c.with_pixel(layer, x, y, v).wf(),
        c.in_bounds(x, y) && 0 <= layer < c.layers.len() ==> c.with_pixel(layer, x, y, v).pixel_in(layer, x, y) == v,
        forall|l: int, px: int, py: int| (l != layer || px != x || py != y)
            ==> #[trigger] c.with_pixel(layer, x, y, v).pixel_in(l, px, py) == c.pixel_in(l, px, py),
{
    let c1 = c.with_pixel(layer, x, y, v);
    if c.in_bounds(x, y) && 0 <= layer < c.layers.len() {
        lemma_index_bounds(x, y, c.width as int, c.height as int);
        assert forall|l: int, px: int, py: int| (l != layer || px != x || py != y)
            implies #[trigger] c1.pixel_in(l, px, py) == c.pixel_in(l, px, py) by {
            if l == layer && c.in_bounds(px, py) {
                lemma_index_bounds(px, py, c.width as int, c.height as int);
                if px != x || py != y {
                    lemma_index_injective(x, y, px, py, c.width as int);
                }
            }
        }
    }
}

/// Outside the canvas every layer is transparent, and so is the composite.
pub proof fn lemma_composite_outside(c: CanvasView, n: int, x: int, y: int)
    requires
        !c.in_bounds(x, y),
    ensures
        c.composite_below(n, x, y) is None,
    decreases n,
{
    if n > 0 {
        lemma_composite_outside(c, n - 1, x, y);
    }
}

pub proof fn lemma_index_injective(x1: int, y1: int, x2: int, y2: int, w: int)
    requires
        0 <= x1 < w,
        0 <= x2 < w,
        0 <= y1,
        0 <= y2,
        x1 != x2 || y1 != y2,
    ensures
        y1 * w + x1 != y2 * w + x2,
{
    if y1 == y2 {
    } else if y1 < y2 {
        assert(y1 * w + w <= y2 * w) by (nonlinear_arith)
            requires y1 < y2, 0 <= w;
    } else {
        assert(y2 * w + w <= y1 * w) by (nonlinear_arith)
            requires y2 < y1, 0 <= w;
    }
}

/// A grid of `n` transparent cells.
pub fn blank_data(n: usize) -> (v: Vec<Option<Rgba>>)
    ensures
        v@ == blank_pixels(n as nat),
{
    let mut v: Vec<Option<Rgba>> = Vec::with_capacity(n);
    let mut i: usize = 0;
    while i < n
        invariant
            i <= n,
            v@ == blank_pixels(i as nat),
        decreases n - i,
    {
        v.push(None);
        i += 1;
        assert(v@ =~= blank_pixels(i as nat));
    }
    v
}

impl CanvasState {
    pub open spec fn wf(&self) -> bool {
        self@.wf()
    }

    pub fn new(width: usize, height: usize) -> (c: CanvasState)
        requires
            width * height <= usize::MAX,
        ensures
            c@ == CanvasView::blank(width as nat, height as nat),
            c.wf(),
    {
        let layer = Layer { name: "Background".to_owned(), data: blank_data(width * height), visible: true };
        let mut layers: Vec<Layer> = Vec::new();
        layers.push(layer);
        let c = CanvasState { width, height, layers, active_layer_index: 0 };
        assert(c@.layers =~= CanvasView::blank(width as nat, height as nat).layers);
        c
    }

    /// The colour the canvas shows at `(x, y)`: the topmost visible layer that
    /// is not transparent there; transparent outside the canvas.
    pub fn get(&self, x: usize, y: usize) -> (r: Option<Rgba>)
        requires
            self.wf(),
        ensures
            r == self@.composite(x as int, y as int),
    {
        if x < self.width && y < self.height {
            proof { lemma_index_bounds(x as int, y as int, self.width as int, self.height as int); }
            let idx = y * self.width + x;
            let mut n = self.layers.len();
            while n > 0
                invariant
                    self.wf(),
                    n <= self.layers.len(),
                    idx == self@.index(x as int, y as int),
                    self@.in_bounds(x as int, y as int),
                    idx < self@.area(),
                    self@.composite(x as int, y as int) == self@.composite_below(n as int, x as int, y as int),
                decreases n,
            {
                let layer = &self.layers[n - 1];
                assert(self@.layers[n - 1] == layer@);
                if layer.visible {
                    let c = layer.data[idx];
                    if c.is_some() {
                        return c;
                    }
                }
                n -= 1;
            }
            None
        } else {
            proof { lemma_composite_outside(self@, self.layers.len() as int, x as int, y as int); }
            None
        }
    }

    /// The colour of the active layer alone at `(x, y)`, whatever its
    /// visibility; transparent outside the canvas.
    pub fn get_from_active_layer(&self, x: usize, y: usize) -> (r: Option<Rgba>)
        requires
            self.wf(),
        ensures
            r == self@.active_pixel(x as int, y as int),
    {
        self.get_in_layer(self.active_layer_index, x, y)
    }

    /// The colour of layer `layer` at `(x, y)`; transparent where either does
    /// not exist.
    pub fn get_in_layer(&self, layer: usize, x: usize, y: usize) -> (r: Option<Rgba>)
        requires
            self.wf(),
        ensures
            r == self@.pixel_in(layer as int, x as int, y as int),
    {
        if x < self.width && y < self.height && layer < self.layers.len() {
            proof { lemma_index_bounds(x as int, y as int, self.width as int, self.height as int); }
            assert(self@.layers[layer as int] == self.layers[layer as int]@);
            self.layers[layer].data[y * self.width + x]
        } else {
            None
        }
    }

    /// Writes into the active layer; a silent no-op outside the canvas.
    pub fn set(&mut self, x: usize, y: usize, color: Option<Rgba>)
        requires
            old(self).wf(),
        ensures
            final(self)@ == old(self)@.with_pixel(old(self)@.active as int, x as int, y as int, color),
            final(self).wf(),
    {
        let a = self.active_layer_index;
        self.set_in_layer(a, x, y, color);
    }

    /// Writes into layer `layer`; a silent no-op where the pixel or the layer
    /// does not exist.
    pub fn set_in_layer(&mut self, layer: usize, x: usize, y: usize, color: Option<Rgba>)
        requires
            old(self).wf(),
        ensures
            final(self)@ == old(self)@.with_pixel(layer as int, x as int, y as int, color),
            final(self).wf(),
    {
        proof { lemma_with_pixel(self@, layer as int, x as int, y as int, color); }
        if x < self.width && y < self.height && layer < self.layers.len() {
            proof { lemma_index_bounds(x as int, y as int, self.width as int, self.height as int); }
            let idx = y * self.width + x;
            let ghost c0 = self@;
            self.layers[layer].data.set(idx, color);
            assert(self@.layers =~= c0.with_pixel(layer as int, x as int, y as int, color).layers);
        }
    }

    /// Whether layer `layer_index` exists and is shown.
    pub fn is_visible(&self, layer_index: usize) -> (r: bool)
        ensures
            r == (layer_index < self.layers.len() && self.layers@[layer_index as int].visible),
    {
        layer_index < self.layers.len() && self.layers[layer_index].visible
    }

    /// Whether the active layer's colour at `(x, y)` is `color`.
    pub fn active_is(&self, x: usize, y: usize, color: Option<Rgba>) -> (r: bool)
        requires
            self.wf(),
        ensures
            r == (self@.active_pixel(x as int, y as int) == color),
    {
        same_color(self.get_from_active_layer(x, y), color)
    }
}

} // verus!
