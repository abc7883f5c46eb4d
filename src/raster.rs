use vstd::prelude::*;
use vstd::arithmetic::div_mod::lemma_fundamental_div_mod_converse;
use crate::color::Rgba;
use crate::canvas::{CanvasState, CanvasView, Layer, LayerView};
use crate::paint::{PaintApp, PaintView};

verus! {

/// Side, in pixels, of the squares of the transparency checkerboard.
pub const CHECKERBOARD_SIZE: usize = 8;

/// Channel `k` (red, green, blue, alpha) of `c`.
pub open spec fn channel(c: Rgba, k: int) -> u8 {
    if k == 0 {
        c.r
    } else if k == 1 {
        c.g
    } else if k == 2 {
        c.b
    } else {
        c.a
    }
}

/// The flattened colour at `(x, y)`: what the canvas shows, fully
/// transparent black where it shows nothing.
pub open spec fn flat_color(c: CanvasView, x: int, y: int) -> Rgba {
    match c.composite(x, y) {
        Some(p) => p,
        None => Rgba { r: 0, g: 0, b: 0, a: 0 },
    }
}

/// The checkerboard's opaque grey at `(x, y)`.
pub open spec fn checker_color(x: int, y: int) -> Rgba {
    let g: u8 = if ((x / CHECKERBOARD_SIZE as int) + (y / CHECKERBOARD_SIZE as int)) % 2 == 0 { 200 } else { 160 };
    Rgba { r: g, g, b: g, a: 255 }
}

/// The displayed colour at `(x, y)`: what the canvas shows, the checkerboard
/// where it shows nothing.
pub open spec fn display_color(c: CanvasView, x: int, y: int) -> Rgba {
    match c.composite(x, y) {
        Some(p) => p,
        None => checker_color(x, y),
    }
}

/// The cell a loaded RGBA byte grid gives at pixel `i`: transparent where its
/// alpha is zero, else that colour.
pub open spec fn cell_of_bytes(b: Seq<u8>, i: int) -> Option<Rgba> {
    if b[4 * i + 3] > 0 {
        Some(Rgba { r: b[4 * i], g: b[4 * i + 1], b: b[4 * i + 2], a: b[4 * i + 3] })
    } else {
        None
    }
}

fn push_rgba(out: &mut Vec<u8>, c: Rgba)
    ensures
        final(out)@ == old(out)@ + seq![c.r, c.g, c.b, c.a],
{
    out.push(c.r);
    out.push(c.g);
    out.push(c.b);
    out.push(c.a);
    assert(out@ =~= old(out)@ + seq![c.r, c.g, c.b, c.a]);
}

impl CanvasState {
    /// The canvas as row-major RGBA bytes, four per pixel: the composited
    /// colour, or the checkerboard (`display`) or transparent black (not
    /// `display`) where the canvas shows nothing.
    fn rgba_bytes(&self, display: bool) -> (out: Vec<u8>)
        requires
            self.wf(),
            4 * self@.area() <= usize::MAX,
        ensures
            out@.len() == 4 * self@.area(),
            forall|i: int, k: int| 0 <= i < self@.area() && 0 <= k < 4 ==> #[trigger] out@[4 * i + k] == channel(
                if display {
                    display_color(self@, i % self.width as int, i / self.width as int)
                } else {
                    flat_color(self@, i % self.width as int, i / self.width as int)
                },
                k,
            ),
    {
        let w = self.width;
        let n = self.width * self.height;
        let mut out: Vec<u8> = Vec::with_capacity(4 * n);
        let mut i: usize = 0;
        let mut x: usize = 0;
        let mut y: usize = 0;
        while i < n
            invariant
                self.wf(),
                w == self.width,
                n == self@.area(),
                4 * n <= usize::MAX,
                i <= n,
                i == y * w + x,
                w > 0 ==> x < w,
                w == 0 ==> i == 0,
                out@.len() == 4 * i,
                forall|j: int, k: int| 0 <= j < i && 0 <= k < 4 ==> #[trigger] out@[4 * j + k] == channel(
                    if display {
                        display_color(self@, j % w as int, j / w as int)
                    } else {
                        flat_color(self@, j % w as int, j / w as int)
                    },
                    k,
                ),
            decreases n - i,
        {
            assert(w > 0) by (nonlinear_arith)
                requires i < n, n == w * self.height, w >= 0, i >= 0;
            assert(y < self.height) by (nonlinear_arith)
                requires i == y * w + x, i < n, n == w * self.height, x >= 0, w > 0;
            proof { lemma_fundamental_div_mod_converse(i as int, w as int, y as int, x as int); }
            let c = match self.get(x, y) {
                Some(p) => p,
                None => if display {
                    let g: u8 = if ((x / CHECKERBOARD_SIZE) + (y / CHECKERBOARD_SIZE)) % 2 == 0 { 200 } else { 160 };
                    Rgba { r: g, g, b: g, a: 255 }
                } else {
                    Rgba { r: 0, g: 0, b: 0, a: 0 }
                },
            };
            let ghost before = out@;
            push_rgba(&mut out, c);
            proof {
                assert forall|j: int, k: int| 0 <= j < i + 1 && 0 <= k < 4 implies #[trigger] out@[4 * j + k] == channel(
                    if display {
                        display_color(self@, j % w as int, j / w as int)
                    } else {
                        flat_color(self@, j % w as int, j / w as int)
                    },
                    k,
                ) by {
                    if j < i {
                        assert(out@[4 * j + k] == before[4 * j + k]);
                    }
                }
            }
            i += 1;
            if x + 1 < w {
                x += 1;
            } else {
                x = 0;
                y += 1;
                assert(i == y * w + x) by (nonlinear_arith)
                    requires i == (y - 1) * w + (w - 1) + 1, x == 0;
            }
        }
        out
    }

    /// The flat image of the canvas: row-major RGBA bytes of what the canvas
    /// shows, fully transparent where it shows nothing.
    pub fn flatten_rgba(&self) -> (out: Vec<u8>)
        requires
            self.wf(),
            4 * self@.area() <= usize::MAX,
        ensures
            out@.len() == 4 * self@.area(),
            forall|i: int, k: int| 0 <= i < self@.area() && 0 <= k < 4 ==> #[trigger] out@[4 * i + k]
                == channel(flat_color(self@, i % self.width as int, i / self.width as int), k),
    {
        self.rgba_bytes(false)
    }

    /// The display buffer: row-major RGBA bytes of what the canvas shows, an
    /// 8-pixel grey checkerboard where it shows nothing.
    pub fn render_rgba(&self) -> (out: Vec<u8>)
        requires
            self.wf(),
            4 * self@.area() <= usize::MAX,
        ensures
            out@.len() == 4 * self@.area(),
            forall|i: int, k: int| 0 <= i < self@.area() && 0 <= k < 4 ==> #[trigger] out@[4 * i + k]
                == channel(display_color(self@, i % self.width as int, i / self.width as int), k),
    {
        self.rgba_bytes(true)
    }
}

impl PaintApp {
    /// A fresh session on a one-layer canvas read from row-major RGBA bytes:
    /// pixels with zero alpha are transparent, the others keep their colour.
    pub fn from_rgba(width: u32, height: u32, rgba: &Vec<u8>) -> (app: PaintApp)
        requires
            width * height <= usize::MAX,
            rgba@.len() == 4 * width * height,
        ensures
            app.wf(),
            app@ == (PaintView {
                canvas: CanvasView {
                    layers: seq![LayerView {
                        name: "Background"@,
                        visible: true,
                        pixels: Seq::new((width * height) as nat, |i: int| cell_of_bytes(rgba@, i)),
                    }],
                    ..CanvasView::blank(width as nat, height as nat)
                },
                ..PaintView::fresh(width as nat, height as nat)
            }),
    {
        let mut app = PaintApp::new(width, height);
        let n = (width as usize) * (height as usize);
        assert(4 * width * height == 4 * (width * height)) by (nonlinear_arith);
        let total = rgba.len();
        let mut data: Vec<Option<Rgba>> = Vec::with_capacity(n);
        let mut i: usize = 0;
        while i < n
            invariant
                i <= n,
                n == width * height,
                rgba@.len() == 4 * n,
                total == rgba@.len(),
                data@ == Seq::new(i as nat, |j: int| cell_of_bytes(rgba@, j)),
            decreases n - i,
        {
            let a = rgba[4 * i + 3];
            let cell = if a > 0 {
                Some(Rgba { r: rgba[4 * i], g: rgba[4 * i + 1], b: rgba[4 * i + 2], a })
            } else {
                None
            };
            data.push(cell);
            i += 1;
            assert(data@ =~= Seq::new(i as nat, |j: int| cell_of_bytes(rgba@, j)));
        }
        let ghost v0 = app@;
        app.current_state.layers = vec![Layer { name: "Background".to_owned(), data, visible: true }];
        assert(app@.canvas.layers =~= seq![LayerView {
            name: "Background"@,
            visible: true,
            pixels: Seq::new((width * height) as nat, |i: int| cell_of_bytes(rgba@, i)),
        }]);
        app
    }
}

} // verus!
