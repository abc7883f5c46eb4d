use vstd::prelude::*;
use vstd::arithmetic::div_mod::lemma_fundamental_div_mod_converse;
use crate::brush::{BrushType, BrushProperties, preset_of, all_brush_types};
use crate::stroke::abs;

verus! {

/// Fixed-point scale of a `Rotation`: 1024 stands for 1.0.
pub const ROTATION_SCALE: i64 = 1024;

/// Masks are at most this many cells wide.
pub const MAX_MASK_SIZE: usize = 1001;

/// A rotation as its cosine and sine, scaled by `ROTATION_SCALE`.
#[derive(Clone, Copy, PartialEq, Eq, Debug, Structural)]
pub struct Rotation {
    pub cos: i32,
    pub sin: i32,
}

impl Rotation {
    pub open spec fn wf(self) -> bool {
        -1024 <= self.cos <= 1024 && -1024 <= self.sin <= 1024
    }

    /// No rotation.
    pub fn identity() -> (r: Rotation)
        ensures
            r == (Rotation { cos: 1024, sin: 0 }),
    {
        Rotation { cos: 1024, sin: 0 }
    }
}

/// The point `(u, v)` rotated, first coordinate (scaled by `ROTATION_SCALE`).
pub open spec fn rot_x(r: Rotation, u: int, v: int) -> int {
    u * r.cos - v * r.sin
}

/// The point `(u, v)` rotated, second coordinate (scaled by `ROTATION_SCALE`).
pub open spec fn rot_y(r: Rotation, u: int, v: int) -> int {
    u * r.sin + v * r.cos
}

/// The edges of the `i`-th petal of the fan, as directions scaled by 1024:
/// five petals 0.144π wide, 0.18π apart, opening towards positive x.
pub open spec fn fan_edges(i: int) -> (int, int, int, int) {
    if i == 0 {
        (-71, -1022, 383, -950)
    } else if i == 1 {
        (488, -900, 832, -597)
    } else if i == 2 {
        (894, -499, 1022, -58)
    } else if i == 3 {
        (1022, 58, 894, 499)
    } else {
        (832, 597, 488, 900)
    }
}

/// Whether `(u, v)` lies strictly inside the `i`-th petal of the fan.
pub open spec fn in_petal(u: int, v: int, i: int) -> bool {
    let (ax, ay, bx, by) = fan_edges(i);
    ax * v - ay * u > 0 && u * by - v * bx > 0
}

/// Whether shape `t`, drawn in a square of side `s` and rotated by `r`, covers
/// the point `(u, v)`, given in half-cells from the square's centre (so `u`
/// and `v` range over `-s..=s`, and the shape's unit radius is `s`).
pub open spec fn shape_covers(t: BrushType, s: int, r: Rotation, u: int, v: int) -> bool {
    let k = s * ROTATION_SCALE;
    let x = rot_x(r, u, v);
    let y = rot_y(r, u, v);
    match t {
        BrushType::Round | BrushType::Mop => u * u + v * v <= s * s,
        BrushType::Flat => 5 * abs(x) <= k && abs(y) <= k,
        BrushType::Bright => 10 * abs(x) <= 3 * k && 10 * abs(y) <= 8 * k,
        BrushType::Filbert => 100 * x * x + 36 * y * y <= 36 * k * k,
        BrushType::Fan => u * u + v * v <= s * s && (in_petal(u, v, 0) || in_petal(u, v, 1) || in_petal(u, v, 2)
            || in_petal(u, v, 3) || in_petal(u, v, 4)),
        BrushType::Angle => 10 * abs(y) <= 7 * k && -8 * k <= 10 * x <= 4 * k,
        BrushType::Rigger => 100 * abs(x) <= 8 * k && 10 * abs(y) <= 9 * k,
    }
}

/// Whether cell `(x, y)` of a mask of side `s` is on.
pub open spec fn mask_on(t: BrushType, s: int, r: Rotation, x: int, y: int) -> bool {
    shape_covers(t, s, r, 2 * x - s, 2 * y - s)
}

proof fn lemma_product_bound(a: int, b: int, la: int, lb: int)
    requires
        -la <= a <= la,
        -lb <= b <= lb,
    ensures
        -(la * lb) <= a * b <= la * lb,
{
    assert(-(la * lb) <= a * b <= la * lb) by (nonlinear_arith)
        requires -la <= a <= la, -lb <= b <= lb;
}

fn abs64(v: i64) -> (r: i64)
    requires
        v > i64::MIN,
    ensures
        r == abs(v as int),
{
    if v < 0 { -v } else { v }
}

fn in_petal_exec(u: i64, v: i64, i: u32) -> (r: bool)
    requires
        -2002 <= u <= 2002,
        -2002 <= v <= 2002,
        i < 5,
    ensures
        r == in_petal(u as int, v as int, i as int),
{
    let (ax, ay, bx, by): (i64, i64, i64, i64) = if i == 0 {
        (-71, -1022, 383, -950)
    } else if i == 1 {
        (488, -900, 832, -597)
    } else if i == 2 {
        (894, -499, 1022, -58)
    } else if i == 3 {
        (1022, 58, 894, 499)
    } else {
        (832, 597, 488, 900)
    };
    proof {
        lemma_product_bound(ax as int, v as int, 1024, 2002);
        lemma_product_bound(ay as int, u as int, 1024, 2002);
        lemma_product_bound(u as int, by as int, 2002, 1024);
        lemma_product_bound(v as int, bx as int, 2002, 1024);
    }
    ax * v - ay * u > 0 && u * by - v * bx > 0
}

/// Whether shape `t` covers `(u, v)` (see `shape_covers`).
pub fn shape_covers_exec(t: BrushType, s: i64, r: Rotation, u: i64, v: i64) -> (b: bool)
    requires
        1 <= s <= MAX_MASK_SIZE,
        -s <= u <= s,
        -s <= v <= s,
        r.wf(),
    ensures
        b == shape_covers(t, s as int, r, u as int, v as int),
{
    let k = s * ROTATION_SCALE;
    proof {
        lemma_product_bound(u as int, r.cos as int, 1001, 1024);
        lemma_product_bound(v as int, r.sin as int, 1001, 1024);
        lemma_product_bound(u as int, r.sin as int, 1001, 1024);
        lemma_product_bound(v as int, r.cos as int, 1001, 1024);
        lemma_product_bound(u as int, u as int, 1001, 1001);
        lemma_product_bound(v as int, v as int, 1001, 1001);
        lemma_product_bound(s as int, s as int, 1001, 1001);
    }
    let x = u * (r.cos as i64) - v * (r.sin as i64);
    let y = u * (r.sin as i64) + v * (r.cos as i64);
    proof {
        lemma_product_bound(x as int, x as int, 2050048, 2050048);
        lemma_product_bound(y as int, y as int, 2050048, 2050048);
        lemma_product_bound(k as int, k as int, 1025024, 1025024);
    }
    match t {
        BrushType::Round | BrushType::Mop => u * u + v * v <= s * s,
        BrushType::Flat => 5 * abs64(x) <= k && abs64(y) <= k,
        BrushType::Bright => 10 * abs64(x) <= 3 * k && 10 * abs64(y) <= 8 * k,
        BrushType::Filbert => {
            assert(100 * (x * x) == 100 * x * x && 36 * (y * y) == 36 * y * y && 36 * (k * k) == 36 * k * k)
                by (nonlinear_arith);
            100 * (x * x) + 36 * (y * y) <= 36 * (k * k)
        },
        BrushType::Fan => {
            u * u + v * v <= s * s && (in_petal_exec(u, v, 0) || in_petal_exec(u, v, 1) || in_petal_exec(u, v, 2)
                || in_petal_exec(u, v, 3) || in_petal_exec(u, v, 4))
        },
        BrushType::Angle => 10 * abs64(y) <= 7 * k && -(8 * k) <= 10 * x && 10 * x <= 4 * k,
        BrushType::Rigger => 100 * abs64(x) <= 8 * k && 10 * abs64(y) <= 9 * k,
    }
}

/// The brushes on offer, the active one and the current radius.
pub struct BrushManager {
    pub brushes: Vec<BrushProperties>,
    pub active_brush_index: usize,
    /// Radius in pixels; stamps are `2 * current_size + 1` cells wide.
    pub current_size: u32,
}

impl Default for BrushManager {
    fn default() -> (m: BrushManager)
        ensures
            m.wf(),
            m.brushes@ == all_brush_types().map_values(|t: BrushType| preset_of(t)),
            m.active_brush_index == 0,
            m.current_size == 3,
    {
        BrushManager::new()
    }
}

/// The stamp radius in pixels is at most this.
pub const MAX_STAMP_RADIUS: u32 = 500;

impl BrushManager {
    pub open spec fn wf(&self) -> bool {
        &&& self.active_brush_index < self.brushes@.len()
        &&& self.current_size <= MAX_STAMP_RADIUS
    }

    pub open spec fn active_spec(&self) -> BrushProperties {
        self.brushes@[self.active_brush_index as int]
    }

    /// One preset of each shape, in the order of `BrushType::all_types`, the
    /// round one active, radius 3.
    pub fn new() -> (m: BrushManager)
        ensures
            m.wf(),
            m.brushes@ == all_brush_types().map_values(|t: BrushType| preset_of(t)),
            m.active_brush_index == 0,
            m.current_size == 3,
    {
        let types = BrushType::all_types();
        let mut brushes: Vec<BrushProperties> = Vec::new();
        let mut i: usize = 0;
        while i < types.len()
            invariant
                i <= types.len(),
                types@ == all_brush_types(),
                brushes@ == types@.subrange(0, i as int).map_values(|t: BrushType| preset_of(t)),
            decreases types.len() - i,
        {
            brushes.push(BrushProperties::from_type(types[i]));
            i += 1;
            assert(brushes@ =~= types@.subrange(0, i as int).map_values(|t: BrushType| preset_of(t)));
        }
        assert(types@.subrange(0, i as int) =~= types@);
        BrushManager { brushes, active_brush_index: 0, current_size: 3 }
    }

    /// The active brush.
    pub fn active_brush(&self) -> (b: &BrushProperties)
        requires
            self.wf(),
        ensures
            *b == self.active_spec(),
    {
        &self.brushes[self.active_brush_index]
    }

    /// The active brush, to be edited in place.
    pub fn active_brush_mut(&mut self) -> (b: &mut BrushProperties)
        requires
            old(self).wf(),
        ensures
            *b == old(self).active_spec(),
            final(self).brushes@ == old(self).brushes@.update(old(self).active_brush_index as int, *final(b)),
            final(self).active_brush_index == old(self).active_brush_index,
            final(self).current_size == old(self).current_size,
    {
        &mut self.brushes[self.active_brush_index]
    }

    /// Makes brush `index` the active one; ignored when it does not exist.
    pub fn set_active_brush(&mut self, index: usize)
        requires
            old(self).wf(),
        ensures
            final(self).wf(),
            final(self).brushes@ == old(self).brushes@,
            final(self).current_size == old(self).current_size,
            final(self).active_brush_index == if index < old(self).brushes@.len() {
                index
            } else {
                old(self).active_brush_index
            },
    {
        if index < self.brushes.len() {
            self.active_brush_index = index;
        }
    }

    /// Sets the stamp radius, clamped to `MAX_STAMP_RADIUS`.
    pub fn set_current_size(&mut self, size: u32)
        requires
            old(self).wf(),
        ensures
            final(self).wf(),
            final(self).brushes@ == old(self).brushes@,
            final(self).active_brush_index == old(self).active_brush_index,
            final(self).current_size == if size > MAX_STAMP_RADIUS { MAX_STAMP_RADIUS } else { size },
    {
        self.current_size = if size > MAX_STAMP_RADIUS { MAX_STAMP_RADIUS } else { size };
    }

    /// The active brush's mask for a square of side `size` rotated by
    /// `rotation`, row by row: 255 on the cells the shape covers, 0 elsewhere.
    /// Every cell is either fully on or off, so edge hardness leaves it as it is.
    pub fn generate_brush_mask(&self, size: usize, rotation: Rotation) -> (mask: Vec<u8>)
        requires
            self.wf(),
            size <= MAX_MASK_SIZE,
            rotation.wf(),
        ensures
            mask@.len() == size * size,
            forall|i: int| 0 <= i < size * size ==> #[trigger] mask@[i] == if mask_on(
                self.active_spec().brush_type,
                size as int,
                rotation,
                i % size as int,
                i / size as int,
            ) {
                255u8
            } else {
                0u8
            },
    {
        let t = self.active_brush().brush_type;
        assert(size * size <= 1002001) by (nonlinear_arith)
            requires size <= 1001;
        let n = size * size;
        let mut mask: Vec<u8> = Vec::with_capacity(n);
        let mut i: usize = 0;
        let mut x: usize = 0;
        let mut y: usize = 0;
        while i < n
            invariant
                self.wf(),
                t == self.active_spec().brush_type,
                size <= MAX_MASK_SIZE,
                rotation.wf(),
                n == size * size,
                i <= n,
                i == y * size + x,
                size > 0 ==> x < size,
                size == 0 ==> i == 0,
                mask@.len() == i,
                forall|j: int| 0 <= j < i ==> #[trigger] mask@[j] == if mask_on(t, size as int, rotation, j % size as int, j / size as int) {
                    255u8
                } else {
                    0u8
                },
            decreases n - i,
        {
            assert(size > 0) by (nonlinear_arith)
                requires i < n, n == size * size, i >= 0;
            assert(y < size) by (nonlinear_arith)
                requires i == y * size + x, i < n, n == size * size, x >= 0, size > 0;
            proof { lemma_fundamental_div_mod_converse(i as int, size as int, y as int, x as int); }
            let s = size as i64;
            let on = shape_covers_exec(t, s, rotation, 2 * (x as i64) - s, 2 * (y as i64) - s);
            mask.push(if on { 255u8 } else { 0u8 });
            i += 1;
            if x + 1 < size {
                x += 1;
            } else {
                x = 0;
                y += 1;
                assert(i == y * size + x) by (nonlinear_arith)
                    requires i == (y - 1) * size + (size - 1) + 1, x == 0;
            }
        }
        mask
    }
}

} // verus!
