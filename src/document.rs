use vstd::prelude::*;
use crate::color::{Rgba, Tool};
use crate::canvas::{CanvasState, CanvasView, Layer, LayerView};
use crate::paint::{PaintApp, PaintView, MAX_SAVED_COLORS, MAX_BRUSH_SIZE};

verus! {

/// What the native format stores of a session: the canvas with all its
/// layers, the colours, the saved palette and the two radii.
pub struct RustiqueFile {
    pub width: usize,
    pub height: usize,
    pub layers: Vec<Layer>,
    pub active_layer_index: usize,
    pub primary_color: Rgba,
    pub secondary_color: Rgba,
    pub saved_colors: Vec<Rgba>,
    pub brush_size: i32,
    pub eraser_size: i32,
}

pub ghost struct DocumentView {
    pub width: nat,
    pub height: nat,
    pub layers: Seq<LayerView>,
    pub active: nat,
    pub primary: Rgba,
    pub secondary: Rgba,
    pub saved: Seq<Rgba>,
    pub brush_size: int,
    pub eraser_size: int,
}

impl View for RustiqueFile {
    type V = DocumentView;

    open spec fn view(&self) -> DocumentView {
        DocumentView {
            width: self.width as nat,
            height: self.height as nat,
            layers: self.layers@.map_values(|l: Layer| l@),
            active: self.active_layer_index as nat,
            primary: self.primary_color,
            secondary: self.secondary_color,
            saved: self.saved_colors@,
            brush_size: self.brush_size as int,
            eraser_size: self.eraser_size as int,
        }
    }
}

/// Why a native document cannot be loaded.
#[derive(Clone, Copy, PartialEq, Eq, Debug, Structural)]
pub enum DocumentError {
    /// The canvas area does not fit in memory indices.
    AreaTooLarge,
    /// The document holds no layer.
    NoLayers,
    /// A layer's grid does not cover exactly the canvas.
    LayerSizeMismatch,
    /// The active layer index names no layer.
    ActiveLayerOutOfRange,
    /// The saved palette is longer than allowed or repeats a colour.
    InvalidPalette,
    /// A brush or eraser radius lies outside the allowed range.
    BrushSizeOutOfRange,
}

/// The document that saving `v` writes.
pub open spec fn doc_of(v: PaintView) -> DocumentView {
    DocumentView {
        width: v.canvas.width,
        height: v.canvas.height,
        layers: v.canvas.layers,
        active: v.canvas.active,
        primary: v.primary,
        secondary: v.secondary,
        saved: v.saved,
        brush_size: v.brush_size,
        eraser_size: v.eraser_size,
    }
}

/// The first reason, in the order checked, why `d` cannot be loaded.
pub open spec fn doc_error(d: DocumentView) -> Option<DocumentError> {
    if d.width * d.height > usize::MAX {
        Some(DocumentError::AreaTooLarge)
    } else if d.layers.len() == 0 {
        Some(DocumentError::NoLayers)
    } else if exists|i: int| 0 <= i < d.layers.len() && #[trigger] d.layers[i].pixels.len() != d.width * d.height {
        Some(DocumentError::LayerSizeMismatch)
    } else if d.active >= d.layers.len() {
        Some(DocumentError::ActiveLayerOutOfRange)
    } else if d.saved.len() > MAX_SAVED_COLORS || !d.saved.no_duplicates() {
        Some(DocumentError::InvalidPalette)
    } else if !(1 <= d.brush_size <= MAX_BRUSH_SIZE && 1 <= d.eraser_size <= MAX_BRUSH_SIZE) {
        Some(DocumentError::BrushSizeOutOfRange)
    } else {
        None
    }
}

/// The session that loading `d` starts: its canvas, colours, palette and
/// radii, the brush tool, and an empty history.
pub open spec fn app_of(d: DocumentView) -> PaintView {
    PaintView {
        canvas: CanvasView { width: d.width, height: d.height, layers: d.layers, active: d.active },
        pending: Seq::empty(),
        undo: Seq::empty(),
        redo: Seq::empty(),
        tool: Tool::Brush,
        primary: d.primary,
        secondary: d.secondary,
        saved: d.saved,
        brush_size: d.brush_size,
        eraser_size: d.eraser_size,
        dirty: true,
        unsaved: false,
    }
}

/// Saving then loading gives back the same canvas (dimensions, layers with
/// their names, visibility and every pixel, transparency included, and the
/// active layer), colours, palette and radii.
pub proof fn lemma_document_round_trip(v: PaintView)
    requires
        v.wf(),
    ensures
        doc_error(doc_of(v)) is None,
        app_of(doc_of(v)).canvas == v.canvas,
        app_of(doc_of(v)).primary == v.primary,
        app_of(doc_of(v)).secondary == v.secondary,
        app_of(doc_of(v)).saved == v.saved,
        app_of(doc_of(v)).brush_size == v.brush_size,
        app_of(doc_of(v)).eraser_size == v.eraser_size,
{
    let d = doc_of(v);
    assert(!exists|i: int| 0 <= i < d.layers.len() && #[trigger] d.layers[i].pixels.len() != d.width * d.height);
}

/// A copy of `l`.
pub fn copy_layer(l: &Layer) -> (r: Layer)
    ensures
        r@ == l@,
{
    let mut data: Vec<Option<Rgba>> = Vec::with_capacity(l.data.len());
    let mut i: usize = 0;
    while i < l.data.len()
        invariant
            i <= l.data.len(),
            data@ == l.data@.subrange(0, i as int),
        decreases l.data.len() - i,
    {
        data.push(l.data[i]);
        i += 1;
        assert(data@ =~= l.data@.subrange(0, i as int));
    }
    assert(data@ =~= l.data@);
    Layer { name: l.name.clone(), data, visible: l.visible }
}

fn palette_is_valid(saved: &Vec<Rgba>) -> (r: bool)
    ensures
        r == (saved@.len() <= MAX_SAVED_COLORS && saved@.no_duplicates()),
{
    if saved.len() > MAX_SAVED_COLORS {
        return false;
    }
    let mut i: usize = 0;
    while i < saved.len()
        invariant
            i <= saved.len(),
            forall|a: int, b: int| 0 <= a < i && 0 <= b < saved@.len() && a != b ==> saved@[a] != saved@[b],
        decreases saved.len() - i,
    {
        let mut j: usize = 0;
        while j < saved.len()
            invariant
                i < saved.len(),
                j <= saved.len(),
                forall|a: int, b: int| 0 <= a < i && 0 <= b < saved@.len() && a != b ==> saved@[a] != saved@[b],
                forall|b: int| 0 <= b < j && b != i ==> saved@[i as int] != saved@[b],
            decreases saved.len() - j,
        {
            if j != i && saved[i] == saved[j] {
                assert(!saved@.no_duplicates());
                return false;
            }
            j += 1;
        }
        i += 1;
    }
    true
}

impl RustiqueFile {
    /// Whether every layer's grid holds exactly `area` cells.
    fn layers_cover(&self, area: usize) -> (r: bool)
        ensures
            r == !exists|i: int| 0 <= i < self@.layers.len() && #[trigger] self@.layers[i].pixels.len() != area,
    {
        let mut i: usize = 0;
        while i < self.layers.len()
            invariant
                i <= self.layers.len(),
                forall|k: int| 0 <= k < i ==> #[trigger] self@.layers[k].pixels.len() == area,
            decreases self.layers.len() - i,
        {
            if self.layers[i].data.len() != area {
                assert(self@.layers[i as int].pixels.len() != area);
                return false;
            }
            i += 1;
        }
        true
    }
}

impl PaintApp {
    /// The native document of this session.
    pub fn to_document(&self) -> (d: RustiqueFile)
        requires
            self.wf(),
        ensures
            d@ == doc_of(self@),
    {
        let mut layers: Vec<Layer> = Vec::with_capacity(self.current_state.layers.len());
        let mut i: usize = 0;
        while i < self.current_state.layers.len()
            invariant
                i <= self.current_state.layers.len(),
                layers@.map_values(|l: Layer| l@) == self@.canvas.layers.subrange(0, i as int),
            decreases self.current_state.layers.len() - i,
        {
            let l = copy_layer(&self.current_state.layers[i]);
            let ghost before = layers@.map_values(|l: Layer| l@);
            layers.push(l);
            assert(layers@.map_values(|l: Layer| l@) =~= before.push(l@));
            i += 1;
            assert(layers@.map_values(|l: Layer| l@) =~= self@.canvas.layers.subrange(0, i as int));
        }
        assert(self@.canvas.layers.subrange(0, i as int) =~= self@.canvas.layers);
        let mut saved: Vec<Rgba> = Vec::with_capacity(self.saved_colors.len());
        let mut k: usize = 0;
        while k < self.saved_colors.len()
            invariant
                k <= self.saved_colors.len(),
                saved@ == self.saved_colors@.subrange(0, k as int),
            decreases self.saved_colors.len() - k,
        {
            saved.push(self.saved_colors[k]);
            k += 1;
            assert(saved@ =~= self.saved_colors@.subrange(0, k as int));
        }
        assert(saved@ =~= self.saved_colors@);
        RustiqueFile {
            width: self.current_state.width,
            height: self.current_state.height,
            layers,
            active_layer_index: self.current_state.active_layer_index,
            primary_color: self.primary_color,
            secondary_color: self.secondary_color,
            saved_colors: saved,
            brush_size: self.brush_size,
            eraser_size: self.eraser_size,
        }
    }

    /// Loads a native document: the session it describes when it is well
    /// formed, else the first reason it is not.
    pub fn from_document(doc: RustiqueFile) -> (r: Result<PaintApp, DocumentError>)
        ensures
            doc_error(doc@) is None ==> r is Ok && r->Ok_0@ == app_of(doc@) && r->Ok_0.wf(),
            doc_error(doc@) matches Some(e) ==> r == Err::<PaintApp, DocumentError>(e),
    {
        let area = match doc.width.checked_mul(doc.height) {
            Some(a) => a,
            None => {
                return Err(DocumentError::AreaTooLarge);
            },
        };
        if doc.layers.len() == 0 {
            return Err(DocumentError::NoLayers);
        }
        if !doc.layers_cover(area) {
            return Err(DocumentError::LayerSizeMismatch);
        }
        if doc.active_layer_index >= doc.layers.len() {
            return Err(DocumentError::ActiveLayerOutOfRange);
        }
        if !palette_is_valid(&doc.saved_colors) {
            return Err(DocumentError::InvalidPalette);
        }
        if !(1 <= doc.brush_size && doc.brush_size <= MAX_BRUSH_SIZE && 1 <= doc.eraser_size
            && doc.eraser_size <= MAX_BRUSH_SIZE) {
            return Err(DocumentError::BrushSizeOutOfRange);
        }
        let ghost d = doc@;
        let app = PaintApp {
            current_state: CanvasState {
                width: doc.width,
                height: doc.height,
                layers: doc.layers,
                active_layer_index: doc.active_layer_index,
            },
            undo_stack: Vec::new(),
            redo_stack: Vec::new(),
            current_changes: Vec::new(),
            current_tool: Tool::Brush,
            primary_color: doc.primary_color,
            secondary_color: doc.secondary_color,
            saved_colors: doc.saved_colors,
            brush_size: doc.brush_size,
            eraser_size: doc.eraser_size,
            texture_dirty: true,
            has_unsaved_changes: false,
        };
        assert(app@.undo =~= Seq::empty());
        assert(app@.redo =~= Seq::empty());
        assert(app@.pending =~= Seq::empty());
        assert(app@ == app_of(d));
        Ok(app)
    }
}

} // verus!
