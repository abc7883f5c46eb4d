use vstd::prelude::*;
use crate::color::{Rgba, Tool};
use crate::paint::{PaintApp, PaintView, MAX_SAVED_COLORS, MAX_BRUSH_SIZE};

verus! {

/// `v` clamped to the allowed brush radii.
pub open spec fn clamp_size(v: int) -> int {
    if v < 1 {
        1
    } else if v > MAX_BRUSH_SIZE {
        MAX_BRUSH_SIZE as int
    } else {
        v
    }
}

/// Whether `saved` holds `c`.
fn palette_contains(saved: &Vec<Rgba>, c: Rgba) -> (r: bool)
    ensures
        r == saved@.contains(c),
{
    let mut i: usize = 0;
    while i < saved.len()
        invariant
            i <= saved.len(),
            forall|k: int| 0 <= k < i ==> saved@[k] != c,
        decreases saved.len() - i,
    {
        if saved[i] == c {
            return true;
        }
        i += 1;
    }
    false
}

impl PaintApp {
    /// Offers `color` to the saved palette: kept once, appended last, the
    /// oldest colour dropped when the palette is full.
    pub fn add_saved_color(&mut self, color: Rgba)
        requires
            old(self).wf(),
        ensures
            final(self).wf(),
            final(self)@ == (PaintView { saved: PaintView::palette_with(old(self)@.saved, color), ..old(self)@ }),
    {
        let ghost s0 = self.saved_colors@;
        if !palette_contains(&self.saved_colors, color) {
            if self.saved_colors.len() >= MAX_SAVED_COLORS {
                self.saved_colors.remove(0);
            }
            self.saved_colors.push(color);
            proof {
                let s1 = self.saved_colors@;
                assert(s1 =~= PaintView::palette_with(s0, color));
                assert forall|i: int, j: int| 0 <= i < s1.len() && 0 <= j < s1.len() && i != j
                    implies s1[i] != s1[j] by {
                    if s0.len() >= MAX_SAVED_COLORS {
                        if i < s1.len() - 1 && j < s1.len() - 1 {
                            assert(s1[i] == s0[i + 1] && s1[j] == s0[j + 1]);
                        } else if i < s1.len() - 1 {
                            assert(s1[i] == s0[i + 1]);
                        } else {
                            assert(s1[j] == s0[j + 1]);
                        }
                    } else if i < s1.len() - 1 && j < s1.len() - 1 {
                        assert(s1[i] == s0[i] && s1[j] == s0[j]);
                    } else if i < s1.len() - 1 {
                        assert(s1[i] == s0[i]);
                    } else {
                        assert(s1[j] == s0[j]);
                    }
                }
            }
        }
    }

    /// Removes saved colour `index`; ignored when it does not exist.
    pub fn remove_saved_color(&mut self, index: usize)
        requires
            old(self).wf(),
        ensures
            final(self).wf(),
            final(self)@ == if index < old(self)@.saved.len() {
                PaintView { saved: old(self)@.saved.remove(index as int), ..old(self)@ }
            } else {
                old(self)@
            },
    {
        let ghost s0 = self.saved_colors@;
        if index < self.saved_colors.len() {
            self.saved_colors.remove(index);
            proof {
                let s1 = self.saved_colors@;
                assert forall|i: int, j: int| 0 <= i < s1.len() && 0 <= j < s1.len() && i != j
                    implies s1[i] != s1[j] by {
                    let oi = if i < index { i } else { i + 1 };
                    let oj = if j < index { j } else { j + 1 };
                    assert(s1[i] == s0[oi] && s1[j] == s0[oj]);
                }
            }
        }
    }

    /// Makes saved colour `index` the primary colour; ignored when it does
    /// not exist.
    pub fn set_primary_color_from_saved(&mut self, index: usize)
        requires
            old(self).wf(),
        ensures
            final(self).wf(),
            final(self)@ == if index < old(self)@.saved.len() {
                PaintView { primary: old(self)@.saved[index as int], ..old(self)@ }
            } else {
                old(self)@
            },
    {
        if index < self.saved_colors.len() {
            self.primary_color = self.saved_colors[index];
        }
    }

    /// Makes saved colour `index` the secondary colour; ignored when it does
    /// not exist.
    pub fn set_secondary_color_from_saved(&mut self, index: usize)
        requires
            old(self).wf(),
        ensures
            final(self).wf(),
            final(self)@ == if index < old(self)@.saved.len() {
                PaintView { secondary: old(self)@.saved[index as int], ..old(self)@ }
            } else {
                old(self)@
            },
    {
        if index < self.saved_colors.len() {
            self.secondary_color = self.saved_colors[index];
        }
    }

    /// Takes the colour the canvas shows at `(x, y)` as the primary (or the
    /// secondary) colour; ignored where the canvas is transparent.
    pub fn pick_color(&mut self, x: usize, y: usize, use_secondary: bool)
        requires
            old(self).wf(),
        ensures
            final(self).wf(),
            final(self)@ == match old(self)@.canvas.composite(x as int, y as int) {
                Some(c) => if use_secondary {
                    PaintView { secondary: c, ..old(self)@ }
                } else {
                    PaintView { primary: c, ..old(self)@ }
                },
                None => old(self)@,
            },
    {
        if let Some(color) = self.current_state.get(x, y) {
            if use_secondary {
                self.secondary_color = color;
            } else {
                self.primary_color = color;
            }
        }
    }

    pub fn set_primary_color(&mut self, color: Rgba)
        requires
            old(self).wf(),
        ensures
            final(self).wf(),
            final(self)@ == (PaintView { primary: color, ..old(self)@ }),
    {
        self.primary_color = color;
    }

    pub fn set_secondary_color(&mut self, color: Rgba)
        requires
            old(self).wf(),
        ensures
            final(self).wf(),
            final(self)@ == (PaintView { secondary: color, ..old(self)@ }),
    {
        self.secondary_color = color;
    }

    pub fn set_active_tool(&mut self, tool: Tool)
        requires
            old(self).wf(),
        ensures
            final(self).wf(),
            final(self)@ == (PaintView { tool, ..old(self)@ }),
    {
        self.current_tool = tool;
    }

    /// Sets the brush radius, clamped to `1..=MAX_BRUSH_SIZE`.
    pub fn set_brush_size(&mut self, size: i32)
        requires
            old(self).wf(),
        ensures
            final(self).wf(),
            final(self)@ == (PaintView { brush_size: clamp_size(size as int), ..old(self)@ }),
    {
        self.brush_size = if size < 1 { 1 } else if size > MAX_BRUSH_SIZE { MAX_BRUSH_SIZE } else { size };
    }

    /// Sets the eraser radius, clamped to `1..=MAX_BRUSH_SIZE`.
    pub fn set_eraser_size(&mut self, size: i32)
        requires
            old(self).wf(),
        ensures
            final(self).wf(),
            final(self)@ == (PaintView { eraser_size: clamp_size(size as int), ..old(self)@ }),
    {
        self.eraser_size = if size < 1 { 1 } else if size > MAX_BRUSH_SIZE { MAX_BRUSH_SIZE } else { size };
    }

    /// Records that the display has taken the latest canvas.
    pub fn mark_texture_clean(&mut self)
        requires
            old(self).wf(),
        ensures
            final(self).wf(),
            final(self)@ == (PaintView { dirty: false, ..old(self)@ }),
    {
        self.texture_dirty = false;
    }

    /// Records that the canvas was written to a file.
    pub fn mark_saved(&mut self)
        requires
            old(self).wf(),
        ensures
            final(self).wf(),
            final(self)@ == (PaintView { unsaved: false, ..old(self)@ }),
    {
        self.has_unsaved_changes = false;
    }
}

} // verus!
