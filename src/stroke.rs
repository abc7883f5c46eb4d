use vstd::prelude::*;
use crate::color::{Rgba, Tool};
use crate::canvas::lemma_with_pixel;
use crate::paint::{PaintApp, PaintView, MAX_BRUSH_SIZE};
use crate::fill::paint_color;

verus! {

/// The radius the current tool draws with.
pub open spec fn tool_size(v: PaintView) -> int {
    if v.tool == Tool::Eraser {
        v.eraser_size
    } else {
        v.brush_size
    }
}

/// Recording `c` at every offset `(dx, dy)` of the square of radius `size`
/// with `dx² + dy² <= size²` that lands on the canvas, row by row, starting at
/// the `k`-th offset of the square.
pub open spec fn disc_from(v: PaintView, x: int, y: int, size: int, c: Option<Rgba>, k: int) -> PaintView
    decreases (2 * size + 1) * (2 * size + 1) - k,
{
    let side = 2 * size + 1;
    if k < 0 || k >= side * side {
        v
    } else {
        let dx = k % side - size;
        let dy = k / side - size;
        let next = if dx * dx + dy * dy <= size * size && v.canvas.in_bounds(x + dx, y + dy) {
            v.record((x + dx) as usize, (y + dy) as usize, c)
        } else {
            v
        };
        disc_from(next, x, y, size, c, k + 1)
    }
}

/// A round stamp of colour `c` centred on `(x, y)` with the tool's radius;
/// nothing is drawn on a hidden active layer.
pub open spec fn round_stamp(v: PaintView, x: int, y: int, c: Option<Rgba>) -> PaintView {
    if !v.canvas.layers[v.canvas.active as int].visible {
        v
    } else {
        PaintView { dirty: true, ..disc_from(v, x, y, tool_size(v), c, 0) }
    }
}

/// Round stamps at each point of `pts` in turn.
pub open spec fn round_stamps(v: PaintView, pts: Seq<(int, int)>, c: Option<Rgba>) -> PaintView
    decreases pts.len(),
{
    if pts.len() == 0 {
        v
    } else {
        round_stamps(round_stamp(v, pts[0].0, pts[0].1, c), pts.subrange(1, pts.len() as int), c)
    }
}

/// The points that integer Bresenham stepping visits from `(x, y)` towards
/// `(x1, y1)` with deltas `dx >= 0`, `dy <= 0`, steps `sx`, `sy` and error
/// term `err`, the current point first; at most `fuel` steps are taken.
pub open spec fn line_walk(
    x: int,
    y: int,
    x1: int,
    y1: int,
    dx: int,
    dy: int,
    sx: int,
    sy: int,
    err: int,
    fuel: nat,
) -> Seq<(int, int)>
    decreases fuel,
{
    if (x == x1 && y == y1) || fuel == 0 {
        seq![(x, y)]
    } else {
        let e2 = 2 * err;
        let nx = if e2 >= dy { x + sx } else { x };
        let err2 = if e2 >= dy { err + dy } else { err };
        let ny = if e2 <= dx { y + sy } else { y };
        let err3 = if e2 <= dx { err2 + dx } else { err2 };
        seq![(x, y)] + line_walk(nx, ny, x1, y1, dx, dy, sx, sy, err3, (fuel - 1) as nat)
    }
}

pub open spec fn abs(v: int) -> int {
    if v < 0 { -v } else { v }
}

/// The pixels of the segment from `(x0, y0)` to `(x1, y1)`, both ends
/// included, in the order Bresenham's algorithm visits them.
pub open spec fn line_points(x0: int, y0: int, x1: int, y1: int) -> Seq<(int, int)> {
    let dx = abs(x1 - x0);
    let dy = -abs(y1 - y0);
    let sx = if x0 < x1 { 1int } else { -1int };
    let sy = if y0 < y1 { 1int } else { -1int };
    line_walk(x0, y0, x1, y1, dx, dy, sx, sy, dx + dy, (dx - dy) as nat)
}

/// A point whose coordinates stay far from the limits of `i64`.
pub open spec fn coord_ok(p: (i64, i64)) -> bool {
    -0x4_0000_0000 <= p.0 <= 0x4_0000_0000 && -0x4_0000_0000 <= p.1 <= 0x4_0000_0000
}

/// Integer points widened to mathematical integers.
pub open spec fn points_of(v: Seq<(i64, i64)>) -> Seq<(int, int)> {
    v.map_values(|p: (i64, i64)| (p.0 as int, p.1 as int))
}

/// The Bresenham points from `start` to `end`, both included.
pub fn line_pixels(start: (i32, i32), end: (i32, i32)) -> (pts: Vec<(i64, i64)>)
    ensures
        points_of(pts@)
            == line_points(start.0 as int, start.1 as int, end.0 as int, end.1 as int),
        forall|i: int| 0 <= i < pts@.len() ==> coord_ok(#[trigger] pts@[i]),
{
    let x0 = start.0 as i64;
    let y0 = start.1 as i64;
    let x1 = end.0 as i64;
    let y1 = end.1 as i64;
    let dx: i64 = if x1 >= x0 { x1 - x0 } else { x0 - x1 };
    let dy: i64 = if y1 >= y0 { y0 - y1 } else { y1 - y0 };
    let sx: i64 = if x0 < x1 { 1 } else { -1 };
    let sy: i64 = if y0 < y1 { 1 } else { -1 };
    let mut err: i64 = dx + dy;
    let mut x = x0;
    let mut y = y0;
    let mut fuel: i64 = dx - dy;
    let mut pts: Vec<(i64, i64)> = Vec::new();
    let ghost whole = line_points(x0 as int, y0 as int, x1 as int, y1 as int);
    loop
        invariant
            0 <= dx <= 0x1_0000_0000,
            -0x1_0000_0000 <= dy <= 0,
            sx == 1 || sx == -1,
            sy == 1 || sy == -1,
            2 * dy <= err <= 2 * dx,
            0 <= fuel <= dx - dy,
            abs(x - x0) <= (dx - dy) - fuel,
            abs(y - y0) <= (dx - dy) - fuel,
            -0x8000_0000 <= x0 < 0x8000_0000,
            -0x8000_0000 <= y0 < 0x8000_0000,
            whole == line_points(x0 as int, y0 as int, x1 as int, y1 as int),
            x0 == start.0 && y0 == start.1 && x1 == end.0 && y1 == end.1,
            whole == points_of(pts@)
                + line_walk(x as int, y as int, x1 as int, y1 as int, dx as int, dy as int, sx as int, sy as int, err as int, fuel as nat),
            forall|i: int| 0 <= i < pts@.len() ==> coord_ok(#[trigger] pts@[i]),
        decreases fuel,
    {
        let ghost before = points_of(pts@);
        let ghost old_pts = pts@;
        pts.push((x, y));
        proof {
            assert(-0x4_0000_0000 <= x <= 0x4_0000_0000 && -0x4_0000_0000 <= y <= 0x4_0000_0000);
            assert forall|i: int| 0 <= i < pts@.len() implies coord_ok(#[trigger] pts@[i]) by {
                if i < old_pts.len() {
                    assert(pts@[i] == old_pts[i]);
                }
            }
            assert(points_of(pts@) =~= before.push((x as int, y as int)));
        }
        if (x == x1 && y == y1) || fuel == 0 {
            proof {
                assert(line_walk(x as int, y as int, x1 as int, y1 as int, dx as int, dy as int, sx as int, sy as int, err as int, fuel as nat)
                    == seq![(x as int, y as int)]);
                assert(whole =~= points_of(pts@));
            }
            return pts;
        }
        let ghost (ox, oy, oerr, ofuel) = (x as int, y as int, err as int, fuel as nat);
        let e2 = 2 * err;
        if e2 >= dy {
            err = err + dy;
            x = x + sx;
        }
        if e2 <= dx {
            err = err + dx;
            y = y + sy;
        }
        fuel = fuel - 1;
        proof {
            let rest = line_walk(x as int, y as int, x1 as int, y1 as int, dx as int, dy as int, sx as int, sy as int, err as int, fuel as nat);
            assert(line_walk(ox, oy, x1 as int, y1 as int, dx as int, dy as int, sx as int, sy as int, oerr, ofuel)
                == seq![(ox, oy)] + rest);
            assert(whole =~= points_of(pts@) + rest);
        }
    }
}

impl PaintApp {
    /// The radius the current tool draws with.
    pub fn tool_size(&self) -> (r: i32)
        ensures
            r as int == tool_size(self@),
    {
        if self.current_tool == Tool::Eraser { self.eraser_size } else { self.brush_size }
    }

    fn stamp_round(&mut self, x: i64, y: i64, fill_color: Option<Rgba>)
        requires
            old(self).wf(),
            -0x4_0000_0000 <= x <= 0x4_0000_0000,
            -0x4_0000_0000 <= y <= 0x4_0000_0000,
        ensures
            final(self).wf(),
            final(self)@ == round_stamp(old(self)@, x as int, y as int, fill_color),
            final(self)@.tool == old(self)@.tool,
    {
        let a = self.current_state.active_layer_index;
        if !self.current_state.layers[a].visible {
            assert(!self@.canvas.layers[a as int].visible);
            return;
        }
        let size = self.tool_size();
        assert(1 <= size <= 500);
        let ghost v0 = self@;
        let w = self.current_state.width;
        let h = self.current_state.height;
        let side: u32 = (2 * size + 1) as u32;
        assert(side * side <= 1002001) by (nonlinear_arith)
            requires side <= 1001;
        let total: u32 = side * side;
        let mut k: u32 = 0;
        while k < total
            invariant
                self.wf(),
                1 <= size <= MAX_BRUSH_SIZE,
                -0x4_0000_0000 <= x <= 0x4_0000_0000,
                -0x4_0000_0000 <= y <= 0x4_0000_0000,
                side == 2 * size + 1,
                total == side * side,
                k <= total,
                w == self@.canvas.width,
                h == self@.canvas.height,
                self@.tool == v0.tool && self@.brush_size == v0.brush_size && self@.eraser_size == v0.eraser_size,
                self@.canvas.layers.len() == v0.canvas.layers.len() && self@.canvas.active == v0.canvas.active,
                self@.canvas.layers[self@.canvas.active as int].visible,
                disc_from(v0, x as int, y as int, size as int, fill_color, 0)
                    == disc_from(self@, x as int, y as int, size as int, fill_color, k as int),
            decreases total - k,
        {
            let dx: i64 = (k % side) as i64 - size as i64;
            let dy: i64 = (k / side) as i64 - size as i64;
            assert(0 <= k / side < side) by (nonlinear_arith)
                requires k < side * side, side > 0;
            assert(-500 <= dx <= 500 && -500 <= dy <= 500);
            assert(0 <= dx * dx <= 250000) by (nonlinear_arith)
                requires -500 <= dx <= 500;
            assert(0 <= dy * dy <= 250000) by (nonlinear_arith)
                requires -500 <= dy <= 500;
            assert(0 <= size * size <= 250000) by (nonlinear_arith)
                requires 1 <= size <= 500;
            let ghost cur = self@;
            if dx * dx + dy * dy <= (size as i64) * (size as i64) {
                let nx = x + dx;
                let ny = y + dy;
                if nx >= 0 && ny >= 0 && (nx as u64) < (w as u64) && (ny as u64) < (h as u64) {
                    proof { lemma_with_pixel(self@.canvas, self@.canvas.active as int, nx as int, ny as int, fill_color); }
                    self.record_change(nx as usize, ny as usize, fill_color);
                }
            }
            k += 1;
        }
        self.texture_dirty = true;
    }

    /// A round stamp of `fill_color` centred on `(x, y)` with the current
    /// tool's radius, one recorded change per pixel that changes; nothing is
    /// drawn on a hidden active layer.
    pub fn draw_point_with_color(&mut self, x: i32, y: i32, fill_color: Option<Rgba>)
        requires
            old(self).wf(),
        ensures
            final(self).wf(),
            final(self)@ == round_stamp(old(self)@, x as int, y as int, fill_color),
    {
        self.stamp_round(x as i64, y as i64, fill_color);
    }

    /// A round stamp at `(x, y)` in the primary (or the secondary) colour, or
    /// transparent with the eraser.
    pub fn draw_point(&mut self, x: i32, y: i32, use_secondary: bool)
        requires
            old(self).wf(),
        ensures
            final(self).wf(),
            final(self)@ == round_stamp(old(self)@, x as int, y as int, paint_color(old(self)@, use_secondary)),
    {
        let fill = self.paint_color(use_secondary);
        self.stamp_round(x as i64, y as i64, fill);
    }

    /// A straight line of round stamps from `start` to `end`, one at each
    /// Bresenham point, in `color` (transparent with the eraser).
    pub fn draw_line(&mut self, start: (i32, i32), end: (i32, i32), color: Rgba)
        requires
            old(self).wf(),
        ensures
            final(self).wf(),
            final(self)@ == (PaintView {
                dirty: true,
                ..round_stamps(
                    old(self)@,
                    line_points(start.0 as int, start.1 as int, end.0 as int, end.1 as int),
                    if old(self)@.tool == Tool::Eraser { None } else { Some(color) },
                )
            }),
    {
        let pts = line_pixels(start, end);
        let fill = if self.current_tool == Tool::Eraser { None } else { Some(color) };
        let ghost v0 = self@;
        let ghost all = points_of(pts@);
        let mut i: usize = 0;
        assert(all.subrange(0, all.len() as int) =~= all);
        while i < pts.len()
            invariant
                self.wf(),
                i <= pts.len(),
                all == points_of(pts@),
                self@.tool == v0.tool,
                fill == (if v0.tool == Tool::Eraser { None } else { Some(color) }),
                forall|j: int| 0 <= j < pts@.len() ==> coord_ok(#[trigger] pts@[j]),
                round_stamps(v0, all, fill) == round_stamps(self@, all.subrange(i as int, all.len() as int), fill),
            decreases pts.len() - i,
        {
            let (px, py) = pts[i];
            proof {
                let rest = all.subrange(i as int, all.len() as int);
                assert(rest[0] == (px as int, py as int));
                assert(rest.subrange(1, rest.len() as int) =~= all.subrange(i + 1, all.len() as int));
            }
            self.stamp_round(px, py, fill);
            i += 1;
        }
        self.texture_dirty = true;
    }
}

} // verus!
