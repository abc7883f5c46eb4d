use vstd::prelude::*;
use crate::color::{Rgba, Tool, same_color};
use crate::canvas::{CanvasState, CanvasView};

verus! {

/// Undo steps kept; the oldest is dropped beyond this.
pub const MAX_UNDO_STEPS: usize = 20;

/// Quiet time, in milliseconds, after which pending changes become a stroke.
pub const SAVE_STATE_DELAY_MS: u64 = 300;

/// Colours kept in the saved palette; the oldest is dropped beyond this.
pub const MAX_SAVED_COLORS: usize = 16;

/// Brush and eraser radii lie in `1..=MAX_BRUSH_SIZE`.
pub const MAX_BRUSH_SIZE: i32 = 500;

/// One pixel's change on one layer.
#[derive(Clone, Copy, PartialEq, Eq, Debug, Structural)]
pub struct CanvasChange {
    pub x: usize,
    pub y: usize,
    pub layer_index: usize,
    pub old_color: Option<Rgba>,
    pub new_color: Option<Rgba>,
}

/// An editing session: the canvas, its history and the drawing settings.
pub struct PaintApp {
    pub current_state: CanvasState,
    pub undo_stack: Vec<Vec<CanvasChange>>,
    pub redo_stack: Vec<Vec<CanvasChange>>,
    pub current_changes: Vec<CanvasChange>,
    pub current_tool: Tool,
    pub primary_color: Rgba,
    pub secondary_color: Rgba,
    pub saved_colors: Vec<Rgba>,
    pub brush_size: i32,
    pub eraser_size: i32,
    pub texture_dirty: bool,
    pub has_unsaved_changes: bool,
}

pub ghost struct PaintView {
    pub canvas: CanvasView,
    pub pending: Seq<CanvasChange>,
    pub undo: Seq<Seq<CanvasChange>>,
    pub redo: Seq<Seq<CanvasChange>>,
    pub tool: Tool,
    pub primary: Rgba,
    pub secondary: Rgba,
    pub saved: Seq<Rgba>,
    pub brush_size: int,
    pub eraser_size: int,
    pub dirty: bool,
    pub unsaved: bool,
}

pub open spec fn strokes_view(v: Vec<Vec<CanvasChange>>) -> Seq<Seq<CanvasChange>> {
    v@.map_values(|s: Vec<CanvasChange>| s@)
}

impl View for PaintApp {
    type V = PaintView;

    open spec fn view(&self) -> PaintView {
        PaintView {
            canvas: self.current_state@,
            pending: self.current_changes@,
            undo: strokes_view(self.undo_stack),
            redo: strokes_view(self.redo_stack),
            tool: self.current_tool,
            primary: self.primary_color,
            secondary: self.secondary_color,
            saved: self.saved_colors@,
            brush_size: self.brush_size as int,
            eraser_size: self.eraser_size as int,
            dirty: self.texture_dirty,
            unsaved: self.has_unsaved_changes,
        }
    }
}

/// The canvas after setting, from the last change to the first, each changed
/// pixel back to its old colour.
pub open spec fn revert(c: CanvasView, s: Seq<CanvasChange>) -> CanvasView
    decreases s.len(),
{
    if s.len() == 0 {
        c
    } else {
        let ch = s.last();
        revert(c.with_pixel(ch.layer_index as int, ch.x as int, ch.y as int, ch.old_color), s.drop_last())
    }
}

/// The stroke that reverting `s` on `c` records: one change per step, from the
/// colour found to the colour restored, in the order the steps were taken.
pub open spec fn inverse(c: CanvasView, s: Seq<CanvasChange>) -> Seq<CanvasChange>
    decreases s.len(),
{
    if s.len() == 0 {
        Seq::empty()
    } else {
        let ch = s.last();
        let l = ch.layer_index as int;
        seq![CanvasChange { old_color: c.pixel_in(l, ch.x as int, ch.y as int), new_color: ch.old_color, ..ch }]
            + inverse(c.with_pixel(l, ch.x as int, ch.y as int, ch.old_color), s.drop_last())
    }
}

impl PaintView {
    pub open spec fn wf(self) -> bool {
        &&& self.canvas.wf()
        &&& self.undo.len() + self.redo.len() <= MAX_UNDO_STEPS
        &&& self.saved.len() <= MAX_SAVED_COLORS
        &&& self.saved.no_duplicates()
        &&& 1 <= self.brush_size <= MAX_BRUSH_SIZE
        &&& 1 <= self.eraser_size <= MAX_BRUSH_SIZE
    }

    /// A new session: a blank canvas, the brush tool, black and white, radius 3
    /// for brush and eraser, an empty palette and history.
    pub open spec fn fresh(width: nat, height: nat) -> PaintView {
        PaintView {
            canvas: CanvasView::blank(width, height),
            pending: Seq::empty(),
            undo: Seq::empty(),
            redo: Seq::empty(),
            tool: Tool::Brush,
            primary: Rgba { r: 0, g: 0, b: 0, a: 255 },
            secondary: Rgba { r: 255, g: 255, b: 255, a: 255 },
            saved: Seq::empty(),
            brush_size: 3,
            eraser_size: 3,
            dirty: true,
            unsaved: false,
        }
    }

    /// Recording `c` at `(x, y)`: when the pixel exists and the active layer
    /// holds another colour there, the change is applied at once and appended
    /// to the pending changes; otherwise nothing happens.
    pub open spec fn record(self, x: usize, y: usize, c: Option<Rgba>) -> PaintView {
        let old_c = self.canvas.active_pixel(x as int, y as int);
        if self.canvas.in_bounds(x as int, y as int) && old_c != c {
            PaintView {
                canvas: self.canvas.with_pixel(self.canvas.active as int, x as int, y as int, c),
                pending: self.pending.push(
                    CanvasChange { x, y, layer_index: self.canvas.active as usize, old_color: old_c, new_color: c },
                ),
                unsaved: true,
                ..self
            }
        } else {
            self
        }
    }

    /// Committing the pending changes as one stroke on top of the undo stack,
    /// dropping the oldest stroke beyond the bound, and clearing the redo stack.
    /// Nothing happens when no change is pending.
    pub open spec fn commit(self) -> PaintView {
        if self.pending.len() > 0 {
            let u = self.undo.push(self.pending);
            PaintView {
                undo: if u.len() > MAX_UNDO_STEPS { u.subrange(1, u.len() as int) } else { u },
                redo: Seq::empty(),
                pending: Seq::empty(),
                ..self
            }
        } else {
            self
        }
    }

    /// Reverting the top stroke of the undo stack and pushing its inverse on
    /// the redo stack; nothing happens when the undo stack is empty.
    pub open spec fn undo(self) -> PaintView {
        if self.undo.len() == 0 {
            self
        } else {
            let s = self.undo.last();
            PaintView {
                canvas: revert(self.canvas, s),
                undo: self.undo.drop_last(),
                redo: self.redo.push(inverse(self.canvas, s)),
                dirty: true,
                unsaved: true,
                ..self
            }
        }
    }

    /// Reverting the top stroke of the redo stack and pushing its inverse on
    /// the undo stack; nothing happens when the redo stack is empty.
    pub open spec fn redo(self) -> PaintView {
        if self.redo.len() == 0 {
            self
        } else {
            let s = self.redo.last();
            PaintView {
                canvas: revert(self.canvas, s),
                redo: self.redo.drop_last(),
                undo: self.undo.push(inverse(self.canvas, s)),
                dirty: true,
                unsaved: true,
                ..self
            }
        }
    }

    /// The palette after offering `c`: unchanged when `c` is already there,
    /// else `c` appended, after dropping the oldest colour when full.
    pub open spec fn palette_with(saved: Seq<Rgba>, c: Rgba) -> Seq<Rgba> {
        if saved.contains(c) {
            saved
        } else if saved.len() >= MAX_SAVED_COLORS {
            saved.subrange(1, saved.len() as int).push(c)
        } else {
            saved.push(c)
        }
    }
}

/// Reverts `stroke` on `canvas`, from its last change to its first, and
/// returns the inverse stroke.
fn revert_stroke(canvas: &mut CanvasState, stroke: &Vec<CanvasChange>) -> (inv: Vec<CanvasChange>)
    requires
        old(canvas).wf(),
    ensures
        final(canvas)@ == revert(old(canvas)@, stroke@),
        inv@ == inverse(old(canvas)@, stroke@),
        final(canvas).wf(),
{
    let ghost c0 = canvas@;
    let mut inv: Vec<CanvasChange> = Vec::with_capacity(stroke.len());
    let mut i = stroke.len();
    assert(stroke@.take(i as int) =~= stroke@);
    while i > 0
        invariant
            canvas.wf(),
            i <= stroke.len(),
            revert(c0, stroke@) == revert(canvas@, stroke@.take(i as int)),
            inverse(c0, stroke@) == inv@ + inverse(canvas@, stroke@.take(i as int)),
        decreases i,
    {
        let ch = stroke[i - 1];
        let ghost cur = canvas@;
        let found = canvas.get_in_layer(ch.layer_index, ch.x, ch.y);
        let step = CanvasChange { old_color: found, new_color: ch.old_color, ..ch };
        let ghost prev_inv = inv@;
        inv.push(step);
        canvas.set_in_layer(ch.layer_index, ch.x, ch.y, ch.old_color);
        proof {
            let t = stroke@.take(i as int);
            assert(t.last() == ch);
            assert(t.drop_last() =~= stroke@.take(i - 1));
            assert(inv@ + inverse(canvas@, stroke@.take(i - 1)) =~= prev_inv + inverse(cur, t));
        }
        i -= 1;
    }
    assert(inv@ =~= inv@ + Seq::<CanvasChange>::empty());
    inv
}

impl PaintApp {
    pub open spec fn wf(&self) -> bool {
        self@.wf()
    }

    /// A fresh session on a blank `width` by `height` canvas: brush tool, black
    /// and white colours, radius 3 for brush and eraser, empty history.
    pub fn new(width: u32, height: u32) -> (app: PaintApp)
        requires
            width * height <= usize::MAX,
        ensures
            app.wf(),
            app@ == PaintView::fresh(width as nat, height as nat),
    {
        let app = PaintApp {
            current_state: CanvasState::new(width as usize, height as usize),
            undo_stack: Vec::new(),
            redo_stack: Vec::new(),
            current_changes: Vec::new(),
            current_tool: Tool::Brush,
            primary_color: Rgba::black(),
            secondary_color: Rgba::white(),
            saved_colors: Vec::new(),
            brush_size: 3,
            eraser_size: 3,
            texture_dirty: true,
            has_unsaved_changes: false,
        };
        assert(app@.undo =~= Seq::empty());
        assert(app@.redo =~= Seq::empty());
        assert(app@.pending =~= Seq::empty());
        assert(app@.saved =~= Seq::empty());
        app
    }

    /// Records a change of the active layer at `(x, y)` to `new_color` and
    /// applies it at once; nothing happens when the pixel is outside the canvas
    /// or already has that colour.
    pub fn record_change(&mut self, x: usize, y: usize, new_color: Option<Rgba>)
        requires
            old(self).wf(),
        ensures
            final(self)@ == old(self)@.record(x, y, new_color),
            final(self).wf(),
    {
        if x < self.current_state.width && y < self.current_state.height {
            let old_color = self.current_state.get_from_active_layer(x, y);
            if !same_color(old_color, new_color) {
                let layer_index = self.current_state.active_layer_index;
                self.current_changes.push(CanvasChange { x, y, layer_index, old_color, new_color });
                self.current_state.set(x, y, new_color);
                self.has_unsaved_changes = true;
            }
        }
    }

    /// Turns the pending changes into one stroke on the undo stack (see
    /// `PaintView::commit`).
    pub fn commit_stroke(&mut self)
        requires
            old(self).wf(),
        ensures
            final(self)@ == old(self)@.commit(),
            final(self).wf(),
    {
        if self.current_changes.len() > 0 {
            let ghost v0 = self@;
            let mut pending: Vec<CanvasChange> = Vec::new();
            std::mem::swap(&mut pending, &mut self.current_changes);
            self.undo_stack.push(pending);
            if self.undo_stack.len() > MAX_UNDO_STEPS {
                self.undo_stack.remove(0);
            }
            self.redo_stack.clear();
            assert(self@.pending =~= v0.commit().pending);
            assert(self@.redo =~= v0.commit().redo);
            assert(self@.undo =~= v0.commit().undo);
        }
    }

    /// The debounce: commits the pending changes as a stroke once at least
    /// `SAVE_STATE_DELAY_MS` have passed since the last drawing action.
    pub fn save_state(&mut self, elapsed_ms: u64)
        requires
            old(self).wf(),
        ensures
            final(self)@ == if elapsed_ms >= SAVE_STATE_DELAY_MS { old(self)@.commit() } else { old(self)@ },
            final(self).wf(),
    {
        if elapsed_ms >= SAVE_STATE_DELAY_MS {
            self.commit_stroke();
        }
    }

    /// Undoes the last stroke (see `PaintView::undo`).
    pub fn undo(&mut self)
        requires
            old(self).wf(),
        ensures
            final(self)@ == old(self)@.undo(),
            final(self).wf(),
    {
        let ghost v0 = self@;
        match self.undo_stack.pop() {
            Some(stroke) => {
                assert(stroke@ == v0.undo.last());
                let inv = revert_stroke(&mut self.current_state, &stroke);
                self.redo_stack.push(inv);
                self.texture_dirty = true;
                self.has_unsaved_changes = true;
                assert(self@.undo =~= v0.undo().undo);
                assert(self@.redo =~= v0.undo().redo);
            },
            None => {
                assert(v0.undo =~= Seq::<Seq<CanvasChange>>::empty());
            },
        }
    }

    /// Redoes the last undone stroke (see `PaintView::redo`).
    pub fn redo(&mut self)
        requires
            old(self).wf(),
        ensures
            final(self)@ == old(self)@.redo(),
            final(self).wf(),
    {
        let ghost v0 = self@;
        match self.redo_stack.pop() {
            Some(stroke) => {
                assert(stroke@ == v0.redo.last());
                let inv = revert_stroke(&mut self.current_state, &stroke);
                self.undo_stack.push(inv);
                self.texture_dirty = true;
                self.has_unsaved_changes = true;
                assert(self@.undo =~= v0.redo().undo);
                assert(self@.redo =~= v0.redo().redo);
            },
            None => {
                assert(v0.redo =~= Seq::<Seq<CanvasChange>>::empty());
            },
        }
    }
}

} // verus!
