use vstd::prelude::*;
use vstd::set_lib::{set_int_range, lemma_int_range, lemma_len_subset};
use crate::color::{Rgba, Tool};
use crate::canvas::{CanvasView, lemma_index_bounds, lemma_index_injective, lemma_with_pixel};
use crate::paint::{PaintApp, PaintView};

verus! {

/// Whether `p` and `q` are 4-neighbours.
pub open spec fn adjacent(p: (int, int), q: (int, int)) -> bool {
    (p.0 == q.0 && (p.1 == q.1 + 1 || q.1 == p.1 + 1)) || (p.1 == q.1 && (p.0 == q.0 + 1 || q.0 == p.0 + 1))
}

/// Whether `s` holds, with each of its pixels, every 4-neighbour on the canvas
/// whose active-layer colour is `target`.
pub open spec fn closed_under(c: CanvasView, target: Option<Rgba>, s: Set<(int, int)>) -> bool {
    forall|p: (int, int), q: (int, int)|
        #![trigger s.contains(p), s.contains(q)]
        s.contains(p) && adjacent(p, q) && c.in_bounds(q.0, q.1) && c.active_pixel(q.0, q.1) == target
            ==> s.contains(q)
}

/// The region a fill from `seed` repaints: the smallest set that holds the
/// seed and is closed under 4-neighbours of the seed's active-layer colour.
pub open spec fn fill_region(c: CanvasView, seed: (int, int)) -> Set<(int, int)> {
    let t = c.active_pixel(seed.0, seed.1);
    Set::new(|p: (int, int)| forall|s: Set<(int, int)>| #[trigger] closed_under(c, t, s) && s.contains(seed) ==> s.contains(p))
}

/// The colour a fill or a brush stamp lays down: nothing for the eraser,
/// otherwise the primary or the secondary colour.
pub open spec fn paint_color(v: PaintView, use_secondary: bool) -> Option<Rgba> {
    if v.tool == Tool::Eraser {
        None
    } else if use_secondary {
        Some(v.secondary)
    } else {
        Some(v.primary)
    }
}

/// Whether a fill from `(x, y)` has anything to do: the seed is on the canvas,
/// the active layer is shown, and the seed's colour differs from the fill.
pub open spec fn fill_applies(v: PaintView, x: int, y: int, use_secondary: bool) -> bool {
    &&& v.canvas.in_bounds(x, y)
    &&& v.canvas.layers[v.canvas.active as int].visible
    &&& v.canvas.active_pixel(x, y) != paint_color(v, use_secondary)
}

proof fn lemma_region_step(c: CanvasView, seed: (int, int), p: (int, int), q: (int, int))
    requires
        fill_region(c, seed).contains(p),
        adjacent(p, q),
        c.in_bounds(q.0, q.1),
        c.active_pixel(q.0, q.1) == c.active_pixel(seed.0, seed.1),
    ensures
        fill_region(c, seed).contains(q),
{
    let t = c.active_pixel(seed.0, seed.1);
    assert forall|s: Set<(int, int)>| #[trigger] closed_under(c, t, s) && s.contains(seed) implies s.contains(q) by {
        assert(s.contains(p));
    }
}

proof fn lemma_region_seed(c: CanvasView, seed: (int, int))
    ensures
        fill_region(c, seed).contains(seed),
{
}

impl PaintApp {
    /// The colour the current tool lays down.
    pub fn paint_color(&self, use_secondary: bool) -> (r: Option<Rgba>)
        ensures
            r == paint_color(self@, use_secondary),
    {
        if self.current_tool == Tool::Eraser {
            None
        } else if use_secondary {
            Some(self.secondary_color)
        } else {
            Some(self.primary_color)
        }
    }

    /// Paint bucket: repaints, on the active layer, the 4-connected region of
    /// the seed's colour around `(x, y)` with the tool's colour, one recorded
    /// change per pixel. Nothing happens when the seed is off the canvas, the
    /// active layer is hidden, or the region already has the fill colour.
    pub fn paint_bucket(&mut self, x: usize, y: usize, use_secondary: bool)
        requires
            old(self).wf(),
        ensures
            final(self).wf(),
            !fill_applies(old(self)@, x as int, y as int, use_secondary) ==> final(self)@ == old(self)@,
            fill_applies(old(self)@, x as int, y as int, use_secondary) ==> {
                let c0 = old(self)@.canvas;
                let c1 = final(self)@.canvas;
                let region = fill_region(c0, (x as int, y as int));
                let fill = paint_color(old(self)@, use_secondary);
                &&& final(self)@ == (PaintView { canvas: c1, pending: final(self)@.pending, unsaved: true, dirty: true, ..old(self)@ })
                &&& c1.width == c0.width && c1.height == c0.height && c1.active == c0.active
                &&& c1.layers.len() == c0.layers.len()
                &&& forall|l: int| 0 <= l < c0.layers.len() ==> #[trigger] c1.layers[l].name == c0.layers[l].name
                    && c1.layers[l].visible == c0.layers[l].visible
                &&& forall|l: int, px: int, py: int| c0.in_bounds(px, py) ==> #[trigger] c1.pixel_in(l, px, py)
                    == if l == c0.active && region.contains((px, py)) { fill } else { c0.pixel_in(l, px, py) }
                &&& final(self)@.pending.take(old(self)@.pending.len() as int) == old(self)@.pending
                &&& forall|i: int| old(self)@.pending.len() <= i < final(self)@.pending.len() ==> {
                    let ch = #[trigger] final(self)@.pending[i];
                    &&& ch.layer_index == c0.active
                    &&& ch.old_color == c0.active_pixel(x as int, y as int)
                    &&& ch.new_color == fill
                    &&& region.contains((ch.x as int, ch.y as int))
                }
            },
    {
        let w = self.current_state.width;
        let h = self.current_state.height;
        if x >= w || y >= h {
            return;
        }
        let a = self.current_state.active_layer_index;
        if !self.current_state.layers[a].visible {
            assert(!self@.canvas.layers[a as int].visible);
            return;
        }
        let target = self.current_state.get_from_active_layer(x, y);
        let fill = self.paint_color(use_secondary);
        if crate::color::same_color(target, fill) {
            return;
        }
        let ghost v0 = self@;
        let ghost c0 = self@.canvas;
        let ghost seed = (x as int, y as int);
        let ghost region = fill_region(c0, seed);
        let n = w * h;
        let mut visited: Vec<bool> = Vec::with_capacity(n);
        let mut k: usize = 0;
        while k < n
            invariant
                k <= n,
                visited@ == Seq::new(k as nat, |i: int| false),
            decreases n - k,
        {
            visited.push(false);
            k += 1;
            assert(visited@ =~= Seq::new(k as nat, |i: int| false));
        }
        let mut queue: Vec<(usize, usize)> = Vec::new();
        queue.push((x, y));
        let mut head: usize = 0;
        let ghost mut pos: Map<(int, int), int> = Map::empty().insert(seed, 0);
        let ghost mut vset: Set<int> = Set::empty();
        proof {
            lemma_int_range(0, n as int);
            lemma_region_seed(c0, seed);
            assert forall|px: int, py: int| c0.in_bounds(px, py) implies !visited@[c0.index(px, py)] by {
                lemma_index_bounds(px, py, w as int, h as int);
            }
        }
        while head < queue.len()
            invariant
                self.wf(),
                w == c0.width, h == c0.height, n == c0.area(), a == c0.active,
                visited@.len() == n,
                head <= queue.len(),
                seed == (x as int, y as int),
                c0 == v0.canvas,
                v0.wf(),
                region == fill_region(c0, seed),
                target == c0.active_pixel(seed.0, seed.1),
                fill != target,
                c0.in_bounds(seed.0, seed.1),
                queue@.len() >= 1,
                queue@[0] == (x, y),
                self@ == (PaintView { canvas: self@.canvas, pending: self@.pending, unsaved: self@.unsaved, ..v0 }),
                self@.canvas.width == c0.width && self@.canvas.height == c0.height && self@.canvas.active == c0.active,
                self@.canvas.layers.len() == c0.layers.len(),
                forall|l: int| 0 <= l < c0.layers.len() ==> #[trigger] self@.canvas.layers[l].name == c0.layers[l].name
                    && self@.canvas.layers[l].visible == c0.layers[l].visible,
                head > 0 ==> self@.unsaved,
                head == 0 ==> self@.canvas == c0 && vset == Set::<int>::empty(),
                forall|i: int| 0 <= i < queue@.len() ==> c0.in_bounds(#[trigger] queue@[i].0 as int, queue@[i].1 as int),
                forall|l: int, px: int, py: int| c0.in_bounds(px, py) ==> #[trigger] self@.canvas.pixel_in(l, px, py)
                    == if l == a && visited@[c0.index(px, py)] { fill } else { c0.pixel_in(l, px, py) },
                forall|px: int, py: int| c0.in_bounds(px, py) && #[trigger] visited@[c0.index(px, py)]
                    ==> region.contains((px, py)) && c0.active_pixel(px, py) == target,
                forall|i: int| 0 <= i < head ==> {
                    let q = #[trigger] queue@[i];
                    visited@[c0.index(q.0 as int, q.1 as int)] || c0.active_pixel(q.0 as int, q.1 as int) != target
                },
                forall|i: int| 0 <= i < queue@.len() && c0.active_pixel(queue@[i].0 as int, queue@[i].1 as int) == target
                    ==> region.contains((#[trigger] queue@[i].0 as int, queue@[i].1 as int)),
                forall|q: (int, int)| #[trigger] pos.contains_key(q) ==> 0 <= pos[q] < queue@.len()
                    && queue@[pos[q]].0 == q.0 && queue@[pos[q]].1 == q.1,
                forall|px: int, py: int, q: (int, int)| c0.in_bounds(px, py) && #[trigger] visited@[c0.index(px, py)]
                    && adjacent((px, py), q) && c0.in_bounds(q.0, q.1) ==> #[trigger] pos.contains_key(q),
                forall|i: int| 0 <= i < n ==> (visited@[i] <==> #[trigger] vset.contains(i)),
                vset.subset_of(set_int_range(0, n as int)),
                set_int_range(0, n as int).finite(),
                set_int_range(0, n as int).len() == n,
                self@.pending.take(v0.pending.len() as int) == v0.pending,
                self@.pending.len() >= v0.pending.len(),
                forall|i: int| v0.pending.len() <= i < self@.pending.len() ==> {
                    let ch = #[trigger] self@.pending[i];
                    &&& ch.layer_index == c0.active
                    &&& ch.old_color == target
                    &&& ch.new_color == fill
                    &&& region.contains((ch.x as int, ch.y as int))
                },
            decreases 4 * (n - vset.len()) + (queue@.len() - head),
        {
            proof { lemma_len_subset(vset, set_int_range(0, n as int)); }
            let (cx, cy) = queue[head];
            head += 1;
            proof { lemma_index_bounds(cx as int, cy as int, w as int, h as int); }
            let idx = cy * w + cx;
            assert(self@.canvas.pixel_in(a as int, cx as int, cy as int) == if visited@[c0.index(cx as int, cy as int)] {
                fill
            } else {
                c0.pixel_in(a as int, cx as int, cy as int)
            });
            proof {
                if head == 1 {
                    assert(self@.canvas == c0);
                    assert(cx == x && cy == y);
                    assert(!vset.contains(idx as int));
                    assert(!visited@[idx as int]);
                }
            }
            if visited[idx] || !self.current_state.active_is(cx, cy, target) {
                assert(queue@[head - 1] == (cx, cy));
                continue;
            }
            assert(!vset.contains(idx as int));
            assert(queue@[head - 1] == (cx, cy));
            let ghost s0 = self@;
            let ghost vis0 = visited@;
            let ghost q0 = queue@;
            visited.set(idx, true);
            proof {
                vset = vset.insert(idx as int);
                lemma_len_subset(vset, set_int_range(0, n as int));
                assert(region.contains((cx as int, cy as int)));
                assert forall|px: int, py: int| c0.in_bounds(px, py) && (px != cx || py != cy)
                    implies visited@[c0.index(px, py)] == vis0[c0.index(px, py)] by {
                    lemma_index_bounds(px, py, w as int, h as int);
                    lemma_index_injective(px, py, cx as int, cy as int, w as int);
                }
                lemma_with_pixel(s0.canvas, a as int, cx as int, cy as int, fill);
            }
            self.record_change(cx, cy, fill);
            proof {
                assert(self@.pending.take(v0.pending.len() as int) =~= s0.pending.take(v0.pending.len() as int));
                assert forall|l: int| 0 <= l < c0.layers.len() implies #[trigger] self@.canvas.layers[l].name == c0.layers[l].name
                    && self@.canvas.layers[l].visible == c0.layers[l].visible by {
                    assert(self@.canvas.layers[l].name == s0.canvas.layers[l].name);
                }
            }
            if cx > 0 {
                proof { pos = pos.insert((cx - 1, cy as int), queue@.len() as int); }
                queue.push((cx - 1, cy));
            }
            if cx + 1 < w {
                proof { pos = pos.insert((cx + 1, cy as int), queue@.len() as int); }
                queue.push((cx + 1, cy));
            }
            if cy > 0 {
                proof { pos = pos.insert((cx as int, cy - 1), queue@.len() as int); }
                queue.push((cx, cy - 1));
            }
            if cy + 1 < h {
                proof { pos = pos.insert((cx as int, cy + 1), queue@.len() as int); }
                queue.push((cx, cy + 1));
            }
            proof {
                assert forall|i: int| 0 <= i < queue@.len() && c0.active_pixel(queue@[i].0 as int, queue@[i].1 as int) == target
                    implies region.contains((#[trigger] queue@[i].0 as int, queue@[i].1 as int)) by {
                    if i >= q0.len() {
                        lemma_region_step(c0, seed, (cx as int, cy as int), (queue@[i].0 as int, queue@[i].1 as int));
                    } else {
                        assert(queue@[i] == q0[i]);
                    }
                }
                assert forall|i: int| 0 <= i < head implies {
                    let q = #[trigger] queue@[i];
                    visited@[c0.index(q.0 as int, q.1 as int)] || c0.active_pixel(q.0 as int, q.1 as int) != target
                } by {
                    assert(queue@[i] == q0[i]);
                    let q = q0[i];
                    lemma_index_bounds(q.0 as int, q.1 as int, w as int, h as int);
                    if q.0 != cx || q.1 != cy {
                        lemma_index_injective(q.0 as int, q.1 as int, cx as int, cy as int, w as int);
                    }
                }
                assert forall|px: int, py: int, q: (int, int)| c0.in_bounds(px, py) && #[trigger] visited@[c0.index(px, py)]
                    && adjacent((px, py), q) && c0.in_bounds(q.0, q.1) implies #[trigger] pos.contains_key(q) by {
                    if px != cx || py != cy {
                        assert(vis0[c0.index(px, py)]);
                    }
                }
            }
        }
        proof {
            let vis = visited@;
            let vs = Set::new(|p: (int, int)| c0.in_bounds(p.0, p.1) && vis[c0.index(p.0, p.1)]);
            assert(vs.contains(seed)) by {
                let q = queue@[0];
                assert(vis[c0.index(q.0 as int, q.1 as int)] || c0.active_pixel(q.0 as int, q.1 as int) != target);
            }
            assert(closed_under(c0, target, vs)) by {
                assert forall|p: (int, int), q: (int, int)|
                    #![trigger vs.contains(p), vs.contains(q)]
                    vs.contains(p) && adjacent(p, q) && c0.in_bounds(q.0, q.1) && c0.active_pixel(q.0, q.1) == target
                    implies vs.contains(q) by {
                    assert(vis[c0.index(p.0, p.1)]);
                    assert(pos.contains_key(q));
                    let i = pos[q];
                    assert(queue@[i].0 == q.0 && queue@[i].1 == q.1);
                }
            }
            assert forall|l: int, px: int, py: int| c0.in_bounds(px, py) implies #[trigger] self@.canvas.pixel_in(l, px, py)
                == if l == c0.active && region.contains((px, py)) { fill } else { c0.pixel_in(l, px, py) } by {
                if region.contains((px, py)) {
                    assert(closed_under(c0, target, vs) && vs.contains(seed) ==> vs.contains((px, py)));
                }
            }
        }
        self.texture_dirty = true;
    }
}

} // verus!
