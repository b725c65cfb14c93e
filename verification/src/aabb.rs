//! Axis-aligned bounding boxes: three orthogonal intervals and the
//! ray-slab intersection test over them.

use vstd::prelude::*;
use crate::fixed::{fadd, fadd_s, floor_div, SCALE};
use crate::interval::{contains_s, union_s, Interval};
use crate::ray::Ray;
use crate::vec3::{Point3, Vec3};

verus! {

/// Minimum thickness enforced on a degenerate axis, in fixed-point steps.
pub const PAD_DELTA: i64 = 8;

/// A slab bound wider than any representable ray parameter, standing in
/// for an unconstrained axis.
pub const WIDE: i128 = 0x7fff_ffff_ffff_ffff_ffff;

#[derive(Clone, Copy, Debug, PartialEq, Eq, Structural)]
pub struct Aabb {
    pub x: Interval,
    pub y: Interval,
    pub z: Interval,
}

/// The smallest box containing both arguments.
pub open spec fn union_b(a: Aabb, b: Aabb) -> Aabb {
    Aabb { x: union_s(a.x, b.x), y: union_s(a.y, b.y), z: union_s(a.z, b.z) }
}

/// An interval shifted by `d`.
pub open spec fn shift_s(i: Interval, d: int) -> Interval {
    Interval {
        min: fadd_s(i.min as int, d) as i64,
        max: fadd_s(i.max as int, d) as i64,
    }
}

/// A box translated by `v`.
pub open spec fn shift_b(b: Aabb, v: Vec3) -> Aabb {
    Aabb {
        x: shift_s(b.x, v.x as int),
        y: shift_s(b.y, v.y as int),
        z: shift_s(b.z, v.z as int),
    }
}

/// One axis padded to a minimum thickness when degenerate.
pub open spec fn pad_axis_s(i: Interval) -> Interval {
    if i.max - i.min >= PAD_DELTA as int {
        i
    } else {
        crate::interval::expand_s(i, PAD_DELTA as int)
    }
}

/// Every degenerate axis padded to a minimum thickness.
pub open spec fn pad_s(b: Aabb) -> Aabb {
    Aabb { x: pad_axis_s(b.x), y: pad_axis_s(b.y), z: pad_axis_s(b.z) }
}

/// Per-axis slab parameters `(t0, t1)`: where the ray enters and leaves
/// the slab. A zero direction component leaves the axis unconstrained when
/// the origin lies inside the slab and rules the box out otherwise.
pub open spec fn slab_s(ax: Interval, o: int, d: int) -> (int, int) {
    if d == 0 {
        if ax.min <= o <= ax.max {
            (-(WIDE as int), WIDE as int)
        } else {
            (1, 0)
        }
    } else {
        let lo = floor_div((ax.min - o) * SCALE as int, d);
        let hi = floor_div((ax.max - o) * SCALE as int, d);
        if d > 0 {
            (lo, hi)
        } else {
            (hi, lo)
        }
    }
}

/// A running parameter range tightened by one slab.
pub open spec fn tighten_s(t: (int, int), s: (int, int)) -> (int, int) {
    (if s.0 > t.0 { s.0 } else { t.0 }, if s.1 < t.1 { s.1 } else { t.1 })
}

/// The slab test: the ray parameter range is tightened by each axis in
/// turn and the box is rejected as soon as the range empties.
pub open spec fn hit_b(b: Aabb, r: Ray, ray_t: Interval) -> bool {
    let t0 = (ray_t.min as int, ray_t.max as int);
    let t1 = tighten_s(t0, slab_s(b.x, r.origin.x as int, r.direction.x as int));
    if t1.1 <= t1.0 {
        false
    } else {
        let t2 = tighten_s(t1, slab_s(b.y, r.origin.y as int, r.direction.y as int));
        if t2.1 <= t2.0 {
            false
        } else {
            let t3 = tighten_s(t2, slab_s(b.z, r.origin.z as int, r.direction.z as int));
            !(t3.1 <= t3.0)
        }
    }
}

/// One axis of the slab test, over wide intermediates.
fn slab(ax: Interval, o: i64, d: i64) -> (r: (i128, i128))
    ensures
        r.0 as int == slab_s(ax, o as int, d as int).0,
        r.1 as int == slab_s(ax, o as int, d as int).1,
{
    if d == 0 {
        if ax.min <= o && o <= ax.max {
            (-WIDE, WIDE)
        } else {
            (1, 0)
        }
    } else {
        let dlo: i128 = ax.min as i128 - o as i128;
        let dhi: i128 = ax.max as i128 - o as i128;
        proof {
            crate::fixed::lemma_mul_bound(dlo as int, SCALE as int,
                0x1_0000_0000_0000_0000, 0x1_0000);
            crate::fixed::lemma_mul_bound(dhi as int, SCALE as int,
                0x1_0000_0000_0000_0000, 0x1_0000);
        }
        let lo = crate::fixed::idiv_floor(dlo * (SCALE as i128), d as i128);
        let hi = crate::fixed::idiv_floor(dhi * (SCALE as i128), d as i128);
        if d > 0 {
            (lo, hi)
        } else {
            (hi, lo)
        }
    }
}

impl Aabb {
    /// The default box is empty on every axis.
    pub fn new() -> (r: Aabb)
        ensures
            r.x == (Interval { min: crate::interval::INF, max: crate::interval::NEG_INF }),
            r.y == (Interval { min: crate::interval::INF, max: crate::interval::NEG_INF }),
            r.z == (Interval { min: crate::interval::INF, max: crate::interval::NEG_INF }),
    {
        Aabb { x: Interval::new(), y: Interval::new(), z: Interval::new() }
    }

    /// The box translated by `vec`.
    pub fn from_bbox_vec(bbox: Aabb, vec: Vec3) -> (r: Aabb)
        ensures
            r == shift_b(bbox, vec),
    {
        Aabb {
            x: Interval { min: fadd(bbox.x.min, vec.x), max: fadd(bbox.x.max, vec.x) },
            y: Interval { min: fadd(bbox.y.min, vec.y), max: fadd(bbox.y.max, vec.y) },
            z: Interval { min: fadd(bbox.z.min, vec.z), max: fadd(bbox.z.max, vec.z) },
        }
    }

    /// The box with every degenerate axis thickened, so that planar shapes
    /// still own a box the slab test cannot fall through.
    pub fn pad(&self) -> (r: Aabb)
        ensures
            r == pad_s(*self),
    {
        let x = if self.x.size() >= PAD_DELTA {
            self.x
        } else {
            self.x.expand(PAD_DELTA)
        };
        let y = if self.y.size() >= PAD_DELTA {
            self.y
        } else {
            self.y.expand(PAD_DELTA)
        };
        let z = if self.z.size() >= PAD_DELTA {
            self.z
        } else {
            self.z.expand(PAD_DELTA)
        };
        proof {
            lemma_pad_axis(self.x);
            lemma_pad_axis(self.y);
            lemma_pad_axis(self.z);
        }
        Aabb { x, y, z }
    }

    /// The smallest box with two opposite corners `a` and `b`.
    pub fn from_points(a: Point3, b: Point3) -> (r: Aabb)
        ensures
            r == (Aabb {
                x: Interval {
                    min: if a.x <= b.x { a.x } else { b.x },
                    max: if a.x >= b.x { a.x } else { b.x },
                },
                y: Interval {
                    min: if a.y <= b.y { a.y } else { b.y },
                    max: if a.y >= b.y { a.y } else { b.y },
                },
                z: Interval {
                    min: if a.z <= b.z { a.z } else { b.z },
                    max: if a.z >= b.z { a.z } else { b.z },
                },
            }),
    {
        Aabb {
            x: Interval {
                min: if a.x <= b.x { a.x } else { b.x },
                max: if a.x >= b.x { a.x } else { b.x },
            },
            y: Interval {
                min: if a.y <= b.y { a.y } else { b.y },
                max: if a.y >= b.y { a.y } else { b.y },
            },
            z: Interval {
                min: if a.z <= b.z { a.z } else { b.z },
                max: if a.z >= b.z { a.z } else { b.z },
            },
        }
    }

    /// The union of two boxes.
    pub fn from_bbox(box0: Aabb, box1: Aabb) -> (r: Aabb)
        ensures
            r == union_b(box0, box1),
    {
        Aabb {
            x: Interval::from_intervals(box0.x, box1.x),
            y: Interval::from_intervals(box0.y, box1.y),
            z: Interval::from_intervals(box0.z, box1.z),
        }
    }

    /// The interval of one axis: y for 1, z for 2, x otherwise.
    pub fn axis(&self, n: i32) -> (r: Interval)
        ensures
            r == if n == 1 { self.y } else if n == 2 { self.z } else { self.x },
    {
        match n {
            1 => self.y,
            2 => self.z,
            _ => self.x,
        }
    }

    pub fn x(self) -> (r: Interval)
        ensures
            r == self.x,
    {
        self.x
    }

    pub fn y(self) -> (r: Interval)
        ensures
            r == self.y,
    {
        self.y
    }

    pub fn z(self) -> (r: Interval)
        ensures
            r == self.z,
    {
        self.z
    }

    /// The ray-slab test: whether the ray crosses the box somewhere in the
    /// parameter range `ray_t`, testing axes in turn and rejecting as soon
    /// as the running range empties.
    pub fn hit(&self, r: &Ray, ray_t: Interval) -> (res: bool)
        ensures
            res == hit_b(*self, *r, ray_t),
    {
        let (sx0, sx1) = slab(self.x, r.origin.x, r.direction.x);
        let mut lo: i128 = ray_t.min as i128;
        let mut hi: i128 = ray_t.max as i128;
        if sx0 > lo {
            lo = sx0;
        }
        if sx1 < hi {
            hi = sx1;
        }
        if hi <= lo {
            return false;
        }
        let (sy0, sy1) = slab(self.y, r.origin.y, r.direction.y);
        if sy0 > lo {
            lo = sy0;
        }
        if sy1 < hi {
            hi = sy1;
        }
        if hi <= lo {
            return false;
        }
        let (sz0, sz1) = slab(self.z, r.origin.z, r.direction.z);
        if sz0 > lo {
            lo = sz0;
        }
        if sz1 < hi {
            hi = sz1;
        }
        !(hi <= lo)
    }
}

/// Padding mirrors its spec for each axis.
proof fn lemma_pad_axis(i: Interval)
    ensures
        pad_axis_s(i) == if crate::fixed::fsub_s(i.max as int, i.min as int)
            >= PAD_DELTA as int {
            i
        } else {
            crate::interval::expand_s(i, PAD_DELTA as int)
        },
{
}

/// Box union is commutative.
pub proof fn lemma_box_union_commutes(a: Aabb, b: Aabb)
    ensures
        union_b(a, b) == union_b(b, a),
{
}

/// Box union is associative.
pub proof fn lemma_box_union_associates(a: Aabb, b: Aabb, c: Aabb)
    ensures
        union_b(union_b(a, b), c) == union_b(a, union_b(b, c)),
{
}

/// The union of a box with itself is that box.
pub proof fn lemma_box_union_idempotent(a: Aabb)
    ensures
        union_b(a, a) == a,
{
}

/// A parameter strictly inside every slab of a box, and strictly inside
/// the query range, makes the slab test succeed.
pub open spec fn strictly_inside_s(b: Aabb, r: Ray, t: int) -> bool {
    let sx = slab_s(b.x, r.origin.x as int, r.direction.x as int);
    let sy = slab_s(b.y, r.origin.y as int, r.direction.y as int);
    let sz = slab_s(b.z, r.origin.z as int, r.direction.z as int);
    sx.0 < t < sx.1 && sy.0 < t < sy.1 && sz.0 < t < sz.1
}

/// Slab-test completeness: a box is never rejected while some parameter
/// strictly inside the query range lies strictly inside all three slabs.
pub proof fn lemma_slab_complete(b: Aabb, r: Ray, ray_t: Interval, t: int)
    requires
        strictly_inside_s(b, r, t),
        ray_t.min < t < ray_t.max,
    ensures
        hit_b(b, r, ray_t),
{
}

/// Slabs of a larger box contain the slabs of a smaller one: growing the
/// box on every axis can only widen each slab's parameter range.
pub proof fn lemma_slab_monotone(small: Interval, large: Interval, o: int, d: int)
    requires
        large.min <= small.min,
        small.max <= large.max,
    ensures
        slab_s(large, o, d).0 <= slab_s(small, o, d).0,
        slab_s(small, o, d).1 <= slab_s(large, o, d).1,
{
    if d != 0 {
        let sm = (small.min - o) * SCALE as int;
        let sx = (small.max - o) * SCALE as int;
        let lm = (large.min - o) * SCALE as int;
        let lx = (large.max - o) * SCALE as int;
        if d > 0 {
            vstd::arithmetic::div_mod::lemma_div_is_ordered(lm, sm, d);
            vstd::arithmetic::div_mod::lemma_div_is_ordered(sx, lx, d);
        } else {
            vstd::arithmetic::div_mod::lemma_div_is_ordered(-sm, -lm, -d);
            vstd::arithmetic::div_mod::lemma_div_is_ordered(-lx, -sx, -d);
        }
    }
}

/// A parameter strictly inside the slabs of a box stays strictly inside
/// the slabs of any union that box takes part in.
pub proof fn lemma_strictly_inside_union(a: Aabb, b: Aabb, r: Ray, t: int)
    requires
        strictly_inside_s(a, r, t),
    ensures
        strictly_inside_s(union_b(a, b), r, t),
        strictly_inside_s(union_b(b, a), r, t),
{
    let u = union_b(a, b);
    lemma_slab_monotone(a.x, u.x, r.origin.x as int, r.direction.x as int);
    lemma_slab_monotone(a.y, u.y, r.origin.y as int, r.direction.y as int);
    lemma_slab_monotone(a.z, u.z, r.origin.z as int, r.direction.z as int);
    let v = union_b(b, a);
    lemma_slab_monotone(a.x, v.x, r.origin.x as int, r.direction.x as int);
    lemma_slab_monotone(a.y, v.y, r.origin.y as int, r.direction.y as int);
    lemma_slab_monotone(a.z, v.z, r.origin.z as int, r.direction.z as int);
}

} // verus!
