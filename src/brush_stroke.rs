use vstd::prelude::*;
use crate::color::Rgba;
use crate::brush::BrushType;
use crate::mask::{BrushManager, Rotation, mask_on};
use crate::paint::{PaintApp, PaintView};
use crate::stroke::{abs, coord_ok, points_of};

verus! {

/// The colour a mask cell of opacity `m` (out of 255) lays down: the colour
/// with its alpha scaled by `m`, or transparent when that alpha is zero.
pub open spec fn masked_color(c: Rgba, m: int) -> Option<Rgba> {
    let alpha = c.a * m / 255;
    if alpha > 0 {
        Some(Rgba { a: alpha as u8, ..c })
    } else {
        None
    }
}

/// Recording, from the `k`-th cell of the `2 * cs + 1` wide mask of shape `t`
/// on, each covered cell that lands on the canvas, with the mask centred on
/// `(x, y)`.
pub open spec fn brush_stamp_from(
    v: PaintView,
    x: int,
    y: int,
    cs: int,
    t: BrushType,
    r: Rotation,
    c: Rgba,
    k: int,
) -> PaintView
    decreases (2 * cs + 1) * (2 * cs + 1) - k,
{
    let side = 2 * cs + 1;
    if k < 0 || k >= side * side {
        v
    } else {
        let dx = k % side;
        let dy = k / side;
        let px = x + dx - cs;
        let py = y + dy - cs;
        let next = if mask_on(t, side, r, dx, dy) && v.canvas.in_bounds(px, py) {
            v.record(px as usize, py as usize, masked_color(c, 255))
        } else {
            v
        };
        brush_stamp_from(next, x, y, cs, t, r, c, k + 1)
    }
}

/// The stamp points a stroke walks after `(x, y)`: Bresenham stepping towards
/// `(x1, y1)`, adding each step's squared length to `acc`, keeping a point
/// (and starting over from zero) whenever a thousand times `acc` reaches
/// `gap`; at most `fuel` steps.
pub open spec fn spaced_walk(
    x: int,
    y: int,
    x1: int,
    y1: int,
    dx: int,
    dy: int,
    sx: int,
    sy: int,
    err: int,
    acc: int,
    gap: int,
    fuel: nat,
) -> Seq<(int, int)>
    decreases fuel,
{
    let e2 = 2 * err;
    if fuel == 0 || (e2 >= dy && x == x1) {
        Seq::empty()
    } else {
        let nx = if e2 >= dy { x + sx } else { x };
        let err2 = if e2 >= dy { err + dy } else { err };
        if e2 <= dx && y == y1 {
            Seq::empty()
        } else {
            let ny = if e2 <= dx { y + sy } else { y };
            let err3 = if e2 <= dx { err2 + dx } else { err2 };
            let acc2 = acc + (nx - x) * (nx - x) + (ny - y) * (ny - y);
            if 1000 * acc2 >= gap {
                seq![(nx, ny)] + spaced_walk(nx, ny, x1, y1, dx, dy, sx, sy, err3, 0, gap, (fuel - 1) as nat)
            } else {
                spaced_walk(nx, ny, x1, y1, dx, dy, sx, sy, err3, acc2, gap, (fuel - 1) as nat)
            }
        }
    }
}

/// The stamp spacing, in thousandths of a pixel: the brush spacing times the
/// radius, at least one pixel.
pub open spec fn stamp_gap(spacing: int, radius: int) -> int {
    if spacing * radius < 1000 { 1000 } else { spacing * radius }
}

/// The points a brush stroke from `(x0, y0)` to `(x1, y1)` stamps: the start,
/// the spaced points along the way, and the end unless it is already last.
pub open spec fn stroke_points(x0: int, y0: int, x1: int, y1: int, gap: int) -> Seq<(int, int)> {
    let dx = abs(x1 - x0);
    let dy = -abs(y1 - y0);
    let sx = if x0 < x1 { 1int } else { -1int };
    let sy = if y0 < y1 { 1int } else { -1int };
    let pts = seq![(x0, y0)] + spaced_walk(x0, y0, x1, y1, dx, dy, sx, sy, dx + dy, 0, gap, (dx - dy + 1) as nat);
    if pts.last() == (x1, y1) {
        pts
    } else {
        pts.push((x1, y1))
    }
}

proof fn lemma_unit_square(d: int, step: int)
    requires
        d == 1 || d == -1 || d == 0,
        step == (if d != 0 { 1int } else { 0int }),
    ensures
        d * d == step,
{
    if d == 1 {
        assert(d * d == 1) by (nonlinear_arith)
            requires d == 1;
    } else if d == -1 {
        assert(d * d == 1) by (nonlinear_arith)
            requires d == -1;
    }
}

/// Brush stamps at each point of `pts` in turn.
pub open spec fn brush_stamps(
    v: PaintView,
    pts: Seq<(int, int)>,
    cs: int,
    t: BrushType,
    r: Rotation,
    c: Rgba,
) -> PaintView
    decreases pts.len(),
{
    if pts.len() == 0 {
        v
    } else {
        brush_stamps(brush_stamp_from(v, pts[0].0, pts[0].1, cs, t, r, c, 0), pts.subrange(1, pts.len() as int), cs, t, r, c)
    }
}

impl BrushManager {
    /// Stamps the active brush's mask, rotated by `rotation` and centred on
    /// `(x, y)`, into `app`: each covered cell on the canvas records `color`
    /// with its alpha scaled by the mask.
    pub fn draw_point(&self, x: i64, y: i64, color: Rgba, rotation: Rotation, app: &mut PaintApp)
        requires
            self.wf(),
            rotation.wf(),
            old(app).wf(),
            coord_ok((x, y)),
        ensures
            final(app).wf(),
            final(app)@ == brush_stamp_from(
                old(app)@,
                x as int,
                y as int,
                self.current_size as int,
                self.active_spec().brush_type,
                rotation,
                color,
                0,
            ),
    {
        let cs = self.current_size;
        let size: usize = (2 * cs + 1) as usize;
        let mask = self.generate_brush_mask(size, rotation);
        let ghost t = self.active_spec().brush_type;
        let ghost v0 = app@;
        let w = app.current_state.width;
        let h = app.current_state.height;
        assert(size * size <= 1002001) by (nonlinear_arith)
            requires size <= 1001;
        let n = size * size;
        let mut k: usize = 0;
        while k < n
            invariant
                app.wf(),
                self.wf(),
                cs == self.current_size,
                size == 2 * cs + 1,
                n == size * size,
                k <= n,
                coord_ok((x, y)),
                w == app@.canvas.width,
                h == app@.canvas.height,
                mask@.len() == n,
                forall|i: int| 0 <= i < n ==> #[trigger] mask@[i] == if mask_on(t, size as int, rotation, i % size as int, i / size as int) {
                    255u8
                } else {
                    0u8
                },
                brush_stamp_from(v0, x as int, y as int, cs as int, t, rotation, color, 0)
                    == brush_stamp_from(app@, x as int, y as int, cs as int, t, rotation, color, k as int),
            decreases n - k,
        {
            let dx = (k % size) as i64;
            let dy = (k / size) as i64;
            assert(0 <= k / size < size) by (nonlinear_arith)
                requires k < size * size, size > 0;
            let nx = x + dx - cs as i64;
            let ny = y + dy - cs as i64;
            let m = mask[k];
            if m > 0 && nx >= 0 && ny >= 0 && (nx as u64) < (w as u64) && (ny as u64) < (h as u64) {
                let alpha = ((color.a as u32) * (m as u32) / 255) as u8;
                let c = if alpha > 0 { Some(Rgba { a: alpha, ..color }) } else { None };
                app.record_change(nx as usize, ny as usize, c);
            }
            k += 1;
        }
    }

    /// The points a stroke of the active brush from `start` to `end` stamps
    /// (see `stroke_points`), spaced by the brush spacing times the radius.
    pub fn line_stamps(&self, start: (i32, i32), end: (i32, i32)) -> (pts: Vec<(i64, i64)>)
        requires
            self.wf(),
        ensures
            points_of(pts@) == stroke_points(
                start.0 as int,
                start.1 as int,
                end.0 as int,
                end.1 as int,
                stamp_gap(self.active_spec().spacing as int, self.current_size as int),
            ),
            forall|i: int| 0 <= i < pts@.len() ==> coord_ok(#[trigger] pts@[i]),
    {
        let spacing = self.active_brush().spacing as i64;
        assert(0 <= spacing * (self.current_size as i64) <= 0xFFFF_FFFF * 500) by (nonlinear_arith)
            requires 0 <= spacing <= 0xFFFF_FFFF, 0 <= self.current_size <= 500;
        let prod = spacing * (self.current_size as i64);
        let gap: i64 = if prod < 1000 { 1000 } else { prod };
        let x0 = start.0 as i64;
        let y0 = start.1 as i64;
        let x1 = end.0 as i64;
        let y1 = end.1 as i64;
        let dx: i64 = if x1 >= x0 { x1 - x0 } else { x0 - x1 };
        let dy: i64 = if y1 >= y0 { y0 - y1 } else { y1 - y0 };
        let sx: i64 = if x0 < x1 { 1 } else { -1 };
        let sy: i64 = if y0 < y1 { 1 } else { -1 };
        let mut err: i64 = dx + dy;
        let mut x = x0;
        let mut y = y0;
        let mut acc: i64 = 0;
        let mut fuel: i64 = dx - dy + 1;
        let mut pts: Vec<(i64, i64)> = Vec::new();
        pts.push((x0, y0));
        let ghost whole = seq![(x0 as int, y0 as int)] + spaced_walk(
            x0 as int, y0 as int, x1 as int, y1 as int, dx as int, dy as int, sx as int, sy as int, err as int, 0, gap as int,
            fuel as nat);
        assert(points_of(pts@) =~= seq![(x0 as int, y0 as int)]);
        loop
            invariant
                0 <= dx <= 0x1_0000_0000,
                -0x1_0000_0000 <= dy <= 0,
                sx == 1 || sx == -1,
                sy == 1 || sy == -1,
                2 * dy <= err <= 2 * dx,
                0 <= fuel <= dx - dy + 1,
                abs(x - x0) <= (dx - dy + 1) - fuel,
                abs(y - y0) <= (dx - dy + 1) - fuel,
                -0x8000_0000 <= x0 < 0x8000_0000,
                -0x8000_0000 <= y0 < 0x8000_0000,
                x0 == start.0 && y0 == start.1 && x1 == end.0 && y1 == end.1,
                1000 <= gap <= 0x1_0000_0000_0000,
                0 <= acc,
                1000 * acc < gap,
                gap == stamp_gap(self.active_spec().spacing as int, self.current_size as int),
                whole == seq![(x0 as int, y0 as int)] + spaced_walk(
                    x0 as int, y0 as int, x1 as int, y1 as int, dx as int, dy as int, sx as int, sy as int, (dx + dy) as int,
                    0, gap as int, (dx - dy + 1) as nat),
                whole == points_of(pts@) + spaced_walk(
                    x as int, y as int, x1 as int, y1 as int, dx as int, dy as int, sx as int, sy as int, err as int,
                    acc as int, gap as int, fuel as nat),
                pts@.len() >= 1,
                forall|i: int| 0 <= i < pts@.len() ==> coord_ok(#[trigger] pts@[i]),
            ensures
                whole == points_of(pts@),
                pts@.len() >= 1,
                forall|i: int| 0 <= i < pts@.len() ==> coord_ok(#[trigger] pts@[i]),
            decreases fuel,
        {
            let ghost (ox, oy, oerr, oacc, ofuel) = (x as int, y as int, err as int, acc as int, fuel as nat);
            let e2 = 2 * err;
            if fuel == 0 || (e2 >= dy && x == x1) {
                assert(spaced_walk(ox, oy, x1 as int, y1 as int, dx as int, dy as int, sx as int, sy as int, oerr, oacc, gap as int, ofuel)
                    =~= Seq::<(int, int)>::empty());
                break;
            }
            let mut nx = x;
            let mut err2 = err;
            if e2 >= dy {
                nx = x + sx;
                err2 = err + dy;
            }
            if e2 <= dx && y == y1 {
                assert(spaced_walk(ox, oy, x1 as int, y1 as int, dx as int, dy as int, sx as int, sy as int, oerr, oacc, gap as int, ofuel)
                    =~= Seq::<(int, int)>::empty());
                break;
            }
            let mut ny = y;
            let mut err3 = err2;
            if e2 <= dx {
                ny = y + sy;
                err3 = err2 + dx;
            }
            let step_x: i64 = if nx != x { 1 } else { 0 };
            let step_y: i64 = if ny != y { 1 } else { 0 };
            proof {
                lemma_unit_square(nx - x, step_x as int);
                lemma_unit_square(ny - y, step_y as int);
            }
            let acc2 = acc + step_x + step_y;
            x = nx;
            y = ny;
            err = err3;
            fuel = fuel - 1;
            let ghost before = points_of(pts@);
            if 1000 * acc2 >= gap {
                let ghost old_pts = pts@;
                pts.push((x, y));
                acc = 0;
                proof {
                    assert forall|i: int| 0 <= i < pts@.len() implies coord_ok(#[trigger] pts@[i]) by {
                        if i < old_pts.len() {
                            assert(pts@[i] == old_pts[i]);
                        }
                    }
                    assert(points_of(pts@) =~= before.push((x as int, y as int)));
                    assert(whole =~= points_of(pts@) + spaced_walk(
                        x as int, y as int, x1 as int, y1 as int, dx as int, dy as int, sx as int, sy as int, err as int,
                        acc as int, gap as int, fuel as nat));
                }
            } else {
                acc = acc2;
            }
        }
        let last = pts[pts.len() - 1];
        proof {
            assert(whole =~= points_of(pts@));
            assert(points_of(pts@).last() == (last.0 as int, last.1 as int));
        }
        if !(last.0 == x1 && last.1 == y1) {
            let ghost old_pts = pts@;
            pts.push((x1, y1));
            proof {
                assert forall|i: int| 0 <= i < pts@.len() implies coord_ok(#[trigger] pts@[i]) by {
                    if i < old_pts.len() {
                        assert(pts@[i] == old_pts[i]);
                    }
                }
                assert(points_of(pts@) =~= points_of(old_pts).push((x1 as int, y1 as int)));
            }
        }
        pts
    }

    /// Stamps the active brush, rotated by `rotation`, at each point a stroke
    /// from `start` to `end` stamps (see `line_stamps`).
    pub fn draw_line(&self, start: (i32, i32), end: (i32, i32), color: Rgba, rotation: Rotation, app: &mut PaintApp)
        requires
            self.wf(),
            rotation.wf(),
            old(app).wf(),
        ensures
            final(app).wf(),
            final(app)@ == brush_stamps(
                old(app)@,
                stroke_points(
                    start.0 as int,
                    start.1 as int,
                    end.0 as int,
                    end.1 as int,
                    stamp_gap(self.active_spec().spacing as int, self.current_size as int),
                ),
                self.current_size as int,
                self.active_spec().brush_type,
                rotation,
                color,
            ),
    {
        let pts = self.line_stamps(start, end);
        let ghost v0 = app@;
        let ghost all = points_of(pts@);
        let ghost cs = self.current_size as int;
        let ghost t = self.active_spec().brush_type;
        let mut i: usize = 0;
        assert(all.subrange(0, all.len() as int) =~= all);
        while i < pts.len()
            invariant
                app.wf(),
                self.wf(),
                rotation.wf(),
                i <= pts.len(),
                all == points_of(pts@),
                cs == self.current_size as int,
                t == self.active_spec().brush_type,
                forall|j: int| 0 <= j < pts@.len() ==> coord_ok(#[trigger] pts@[j]),
                brush_stamps(v0, all, cs, t, rotation, color) == brush_stamps(
                    app@,
                    all.subrange(i as int, all.len() as int),
                    cs,
                    t,
                    rotation,
                    color,
                ),
            decreases pts.len() - i,
        {
            let (px, py) = pts[i];
            proof {
                let rest = all.subrange(i as int, all.len() as int);
                assert(rest[0] == (px as int, py as int));
                assert(rest.subrange(1, rest.len() as int) =~= all.subrange(i + 1, all.len() as int));
            }
            self.draw_point(px, py, color, rotation, app);
            i += 1;
        }
    }
}

} // verus!
