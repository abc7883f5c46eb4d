use vstd::prelude::*;
use crate::canvas::{CanvasView, Layer, LayerView, blank_data, blank_pixels};
use crate::paint::{PaintApp, PaintView};

verus! {

impl PaintView {
    /// The session with a new canvas view, marked for redraw and unsaved.
    pub open spec fn with_layers_edit(self, c: CanvasView) -> PaintView {
        PaintView { canvas: c, dirty: true, unsaved: true, ..self }
    }
}

/// The active index after removing layer `index` from `n` layers: the same
/// layer stays active when it lay above, and the index is clamped to the
/// remaining layers.
pub open spec fn active_after_remove(active: nat, index: nat, n: nat) -> nat {
    if active > index {
        (active - 1) as nat
    } else if active >= n - 1 {
        (n - 2) as nat
    } else {
        active
    }
}

/// The active index after exchanging layers `i` and `j`: it follows the layer
/// it pointed at.
pub open spec fn active_after_swap(active: nat, i: nat, j: nat) -> nat {
    if active == i {
        j
    } else if active == j {
        i
    } else {
        active
    }
}

pub open spec fn swap_layers(s: Seq<LayerView>, i: int, j: int) -> Seq<LayerView> {
    s.update(i, s[j]).update(j, s[i])
}

impl PaintApp {
    /// Appends a visible, transparent layer named `name` on top and makes it
    /// the active one.
    pub fn add_layer(&mut self, name: String)
        requires
            old(self).wf(),
            old(self)@.canvas.layers.len() < usize::MAX,
        ensures
            final(self).wf(),
            final(self)@ == old(self)@.with_layers_edit(CanvasView {
                layers: old(self)@.canvas.layers.push(
                    LayerView { name: name@, visible: true, pixels: blank_pixels(old(self)@.canvas.area()) },
                ),
                active: old(self)@.canvas.layers.len(),
                ..old(self)@.canvas
            }),
    {
        let ghost v0 = self@;
        let n = self.current_state.width * self.current_state.height;
        let layer = Layer { name, data: blank_data(n), visible: true };
        self.current_state.layers.push(layer);
        self.current_state.active_layer_index = self.current_state.layers.len() - 1;
        self.texture_dirty = true;
        self.has_unsaved_changes = true;
        assert(self@.canvas.layers =~= v0.canvas.layers.push(
            LayerView { name: name@, visible: true, pixels: blank_pixels(v0.canvas.area()) },
        ));
    }

    /// Removes layer `index`; ignored when it does not exist or is the last
    /// layer left.
    pub fn remove_layer(&mut self, index: usize)
        requires
            old(self).wf(),
        ensures
            final(self).wf(),
            final(self)@ == if old(self)@.canvas.layers.len() > 1 && index < old(self)@.canvas.layers.len() {
                old(self)@.with_layers_edit(CanvasView {
                    layers: old(self)@.canvas.layers.remove(index as int),
                    active: active_after_remove(
                        old(self)@.canvas.active,
                        index as nat,
                        old(self)@.canvas.layers.len(),
                    ),
                    ..old(self)@.canvas
                })
            } else {
                old(self)@
            },
    {
        let ghost v0 = self@;
        let n = self.current_state.layers.len();
        if n > 1 && index < n {
            self.current_state.layers.remove(index);
            let a = self.current_state.active_layer_index;
            if a > index {
                self.current_state.active_layer_index = a - 1;
            } else if a >= n - 1 {
                self.current_state.active_layer_index = n - 2;
            }
            self.texture_dirty = true;
            self.has_unsaved_changes = true;
            assert(self@.canvas.layers =~= v0.canvas.layers.remove(index as int));
        }
    }

    /// Exchanges layers `i` and `j` (both existing, `i < j`), the active index
    /// following its layer.
    fn swap_layers(&mut self, i: usize, j: usize)
        requires
            old(self).wf(),
            i < j < old(self)@.canvas.layers.len(),
        ensures
            final(self).wf(),
            final(self)@ == old(self)@.with_layers_edit(CanvasView {
                layers: swap_layers(old(self)@.canvas.layers, i as int, j as int),
                active: active_after_swap(old(self)@.canvas.active, i as nat, j as nat),
                ..old(self)@.canvas
            }),
    {
        let ghost v0 = self@;
        let upper = self.current_state.layers.remove(j);
        let lower = self.current_state.layers.remove(i);
        self.current_state.layers.insert(i, upper);
        self.current_state.layers.insert(j, lower);
        let a = self.current_state.active_layer_index;
        if a == i {
            self.current_state.active_layer_index = j;
        } else if a == j {
            self.current_state.active_layer_index = i;
        }
        self.texture_dirty = true;
        self.has_unsaved_changes = true;
        assert(self@.canvas.layers =~= swap_layers(v0.canvas.layers, i as int, j as int));
    }

    /// Moves layer `index` one step down the stack (towards index 0); ignored
    /// for the bottom layer or a layer that does not exist.
    pub fn move_layer_up(&mut self, index: usize)
        requires
            old(self).wf(),
        ensures
            final(self).wf(),
            final(self)@ == if 0 < index < old(self)@.canvas.layers.len() {
                old(self)@.with_layers_edit(CanvasView {
                    layers: swap_layers(old(self)@.canvas.layers, index - 1, index as int),
                    active: active_after_swap(old(self)@.canvas.active, (index - 1) as nat, index as nat),
                    ..old(self)@.canvas
                })
            } else {
                old(self)@
            },
    {
        if index > 0 && index < self.current_state.layers.len() {
            self.swap_layers(index - 1, index);
        }
    }

    /// Moves layer `index` one step up the stack (towards the top); ignored for
    /// the top layer or a layer that does not exist.
    pub fn move_layer_down(&mut self, index: usize)
        requires
            old(self).wf(),
        ensures
            final(self).wf(),
            final(self)@ == if index + 1 < old(self)@.canvas.layers.len() {
                old(self)@.with_layers_edit(CanvasView {
                    layers: swap_layers(old(self)@.canvas.layers, index as int, index + 1),
                    active: active_after_swap(old(self)@.canvas.active, index as nat, (index + 1) as nat),
                    ..old(self)@.canvas
                })
            } else {
                old(self)@
            },
    {
        if index < self.current_state.layers.len() - 1 {
            self.swap_layers(index, index + 1);
        }
    }

    /// Shows a hidden layer or hides a shown one; ignored when it does not
    /// exist.
    pub fn toggle_layer_visibility(&mut self, index: usize)
        requires
            old(self).wf(),
        ensures
            final(self).wf(),
            final(self)@ == if index < old(self)@.canvas.layers.len() {
                old(self)@.with_layers_edit(CanvasView {
                    layers: old(self)@.canvas.layers.update(
                        index as int,
                        LayerView {
                            visible: !old(self)@.canvas.layers[index as int].visible,
                            ..old(self)@.canvas.layers[index as int]
                        },
                    ),
                    ..old(self)@.canvas
                })
            } else {
                old(self)@
            },
    {
        let ghost v0 = self@;
        if index < self.current_state.layers.len() {
            let v = self.current_state.layers[index].visible;
            self.current_state.layers[index].visible = !v;
            self.texture_dirty = true;
            self.has_unsaved_changes = true;
            assert(self@.canvas.layers =~= v0.canvas.layers.update(
                index as int,
                LayerView { visible: !v0.canvas.layers[index as int].visible, ..v0.canvas.layers[index as int] },
            ));
        }
    }

    /// Makes layer `index` the active one; ignored when it does not exist.
    pub fn set_active_layer(&mut self, index: usize)
        requires
            old(self).wf(),
        ensures
            final(self).wf(),
            final(self)@ == if index < old(self)@.canvas.layers.len() {
                old(self)@.with_layers_edit(CanvasView { active: index as nat, ..old(self)@.canvas })
            } else {
                old(self)@
            },
    {
        if index < self.current_state.layers.len() {
            self.current_state.active_layer_index = index;
            self.texture_dirty = true;
            self.has_unsaved_changes = true;
        }
    }

    /// Renames layer `index`; ignored when it does not exist.
    pub fn rename_layer(&mut self, index: usize, name: String)
        requires
            old(self).wf(),
        ensures
            final(self).wf(),
            final(self)@ == if index < old(self)@.canvas.layers.len() {
                old(self)@.with_layers_edit(CanvasView {
                    layers: old(self)@.canvas.layers.update(
                        index as int,
                        LayerView { name: name@, ..old(self)@.canvas.layers[index as int] },
                    ),
                    ..old(self)@.canvas
                })
            } else {
                old(self)@
            },
    {
        let ghost v0 = self@;
        if index < self.current_state.layers.len() {
            self.current_state.layers[index].name = name;
            self.texture_dirty = true;
            self.has_unsaved_changes = true;
            assert(self@.canvas.layers =~= v0.canvas.layers.update(
                index as int,
                LayerView { name: name@, ..v0.canvas.layers[index as int] },
            ));
        }
    }
}

} // verus!
