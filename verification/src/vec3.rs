//! Three-component vectors over fixed-point scalars: points, directions
//! and colors all share this one representation.

use vstd::prelude::*;
use crate::fixed::{
    fabs, fadd, fadd_s, fdiv, fdiv_s, fmul, fmul_s, fneg, fneg_s, fsqrt, fsqrt_s, fsub,
    fsub_s, clip, ONE, FMAX,
};
use crate::rng::Rng;
use crate::rtweekend::random_double_interval;

verus! {

#[derive(Clone, Copy, Debug, PartialEq, Eq, Structural)]
pub struct Vec3 {
    pub x: i64,
    pub y: i64,
    pub z: i64,
}

pub type Point3 = Vec3;

pub type Color = Vec3;

pub open spec fn add_v(a: Vec3, b: Vec3) -> Vec3 {
    Vec3 {
        x: fadd_s(a.x as int, b.x as int) as i64,
        y: fadd_s(a.y as int, b.y as int) as i64,
        z: fadd_s(a.z as int, b.z as int) as i64,
    }
}

pub open spec fn sub_v(a: Vec3, b: Vec3) -> Vec3 {
    Vec3 {
        x: fsub_s(a.x as int, b.x as int) as i64,
        y: fsub_s(a.y as int, b.y as int) as i64,
        z: fsub_s(a.z as int, b.z as int) as i64,
    }
}

/// Componentwise product.
pub open spec fn mul_v(a: Vec3, b: Vec3) -> Vec3 {
    Vec3 {
        x: fmul_s(a.x as int, b.x as int) as i64,
        y: fmul_s(a.y as int, b.y as int) as i64,
        z: fmul_s(a.z as int, b.z as int) as i64,
    }
}

/// Componentwise quotient.
pub open spec fn div_v(a: Vec3, b: Vec3) -> Vec3 {
    Vec3 {
        x: fdiv_s(a.x as int, b.x as int) as i64,
        y: fdiv_s(a.y as int, b.y as int) as i64,
        z: fdiv_s(a.z as int, b.z as int) as i64,
    }
}

/// Every component scaled by `k`.
pub open spec fn scale_v(a: Vec3, k: int) -> Vec3 {
    Vec3 {
        x: fmul_s(a.x as int, k) as i64,
        y: fmul_s(a.y as int, k) as i64,
        z: fmul_s(a.z as int, k) as i64,
    }
}

/// Every component divided by `k`.
pub open spec fn div_scale_v(a: Vec3, k: int) -> Vec3 {
    Vec3 {
        x: fdiv_s(a.x as int, k) as i64,
        y: fdiv_s(a.y as int, k) as i64,
        z: fdiv_s(a.z as int, k) as i64,
    }
}

pub open spec fn dot_v(a: Vec3, b: Vec3) -> int {
    fadd_s(
        fadd_s(fmul_s(a.x as int, b.x as int), fmul_s(a.y as int, b.y as int)),
        fmul_s(a.z as int, b.z as int),
    )
}

pub open spec fn cross_v(a: Vec3, b: Vec3) -> Vec3 {
    Vec3 {
        x: fsub_s(fmul_s(a.y as int, b.z as int), fmul_s(a.z as int, b.y as int)) as i64,
        y: fsub_s(fmul_s(a.z as int, b.x as int), fmul_s(a.x as int, b.z as int)) as i64,
        z: fsub_s(fmul_s(a.x as int, b.y as int), fmul_s(a.y as int, b.x as int)) as i64,
    }
}

pub open spec fn len_sq_v(a: Vec3) -> int {
    dot_v(a, a)
}

pub open spec fn length_v(a: Vec3) -> int {
    fsqrt_s(len_sq_v(a))
}

/// The vector rescaled by its own length.
pub open spec fn unit_v(a: Vec3) -> Vec3 {
    div_scale_v(a, length_v(a))
}

/// What the unit-direction sampler can return: components within one
/// unit, and the value is the normalization of some draw whose squared
/// length reaches at least one unit.
pub open spec fn unit_sample_s(d: Vec3) -> bool {
    &&& -ONE <= d.x <= ONE
    &&& -ONE <= d.y <= ONE
    &&& -ONE <= d.z <= ONE
    &&& exists|v: Vec3| d == unit_v(v) && len_sq_v(v) >= ONE
}

/// Mirror reflection of `v` about the normal `n`.
pub open spec fn reflect_v(v: Vec3, n: Vec3) -> Vec3 {
    sub_v(v, scale_v(scale_v(n, dot_v(v, n)), ONE as int * 2))
}

/// Refraction of the unit direction `uv` at a surface with normal `n` and
/// relative index ratio `ratio`, following Snell's law.
pub open spec fn refract_v(uv: Vec3, n: Vec3, ratio: int) -> Vec3 {
    let d = dot_v(uv, n);
    let m = if d < ONE as int { d } else { ONE as int };
    let cos_theta = fneg_s(m);
    let r_out_perp = scale_v(add_v(uv, scale_v(n, cos_theta)), ratio);
    let par_len = fsqrt_s(clip(
        if fsub_s(ONE as int, len_sq_v(r_out_perp)) < 0 {
            -fsub_s(ONE as int, len_sq_v(r_out_perp))
        } else {
            fsub_s(ONE as int, len_sq_v(r_out_perp))
        },
    ));
    let r_out_parallel = scale_v(scale_v(n, fneg_s(ONE as int)), par_len);
    add_v(r_out_perp, r_out_parallel)
}

impl Vec3 {
    pub fn from(x: i64, y: i64, z: i64) -> (r: Vec3)
        ensures
            r == (Vec3 { x, y, z }),
    {
        Vec3 { x, y, z }
    }

    /// Components drawn uniformly from `[0, ONE)`.
    pub fn random(rng: &mut Rng) -> (r: Vec3)
        ensures
            0 <= r.x < ONE,
            0 <= r.y < ONE,
            0 <= r.z < ONE,
    {
        let x = rng.unit();
        let y = rng.unit();
        let z = rng.unit();
        Vec3 { x, y, z }
    }

    /// Components drawn uniformly from `[min, max]`.
    pub fn random_interval(rng: &mut Rng, min: i64, max: i64) -> (r: Vec3)
        requires
            min <= max,
            -FMAX <= min,
            max <= FMAX,
        ensures
            min <= r.x <= max,
            min <= r.y <= max,
            min <= r.z <= max,
    {
        let x = random_double_interval(rng, min, max);
        let y = random_double_interval(rng, min, max);
        let z = random_double_interval(rng, min, max);
        Vec3 { x, y, z }
    }

    /// A bounded rejection sample: draws are taken from the cube until one
    /// has a squared length of at least one unit; a fixed fallback keeps
    /// the draw count finite.
    pub fn random_in_unit_sphere(rng: &mut Rng) -> (r: Vec3)
        ensures
            -ONE <= r.x <= ONE,
            -ONE <= r.y <= ONE,
            -ONE <= r.z <= ONE,
            len_sq_v(r) >= ONE,
    {
        let mut tries: u64 = 0;
        while tries < 64
            decreases 64 - tries,
        {
            let p = Vec3::random_interval(rng, -ONE, ONE);
            if p.length_squared() >= ONE {
                return p;
            }
            tries = tries + 1;
        }
        let fallback = Vec3 { x: ONE, y: ONE, z: ONE };
        assert(len_sq_v(fallback) == 3 * ONE);
        fallback
    }

    /// A direction of (approximately) unit length, drawn from the sphere
    /// sampler and normalized.
    pub fn random_unit_vector(rng: &mut Rng) -> (r: Vec3)
        ensures
            -ONE <= r.x <= ONE,
            -ONE <= r.y <= ONE,
            -ONE <= r.z <= ONE,
            unit_sample_s(r),
    {
        let p = Vec3::random_in_unit_sphere(rng);
        let r = p.unit_vector();
        proof {
            lemma_unit_component_bounds(p);
            assert(r == unit_v(p) && len_sq_v(p) >= ONE);
        }
        r
    }

    /// A unit-length direction on the hemisphere around `self`, or its
    /// mirror when the draw lands on the far side.
    pub fn random_on_hetmisphere(&self, rng: &mut Rng) -> (r: Vec3)
        ensures
            -ONE <= r.x <= ONE,
            -ONE <= r.y <= ONE,
            -ONE <= r.z <= ONE,
    {
        let on_unit_sphere = Vec3::random_unit_vector(rng);
        if on_unit_sphere.dot(*self) > 0 {
            return on_unit_sphere;
        }
        Vec3 {
            x: fneg(on_unit_sphere.x),
            y: fneg(on_unit_sphere.y),
            z: fneg(on_unit_sphere.z),
        }
    }


    /// A bounded rejection sample in the horizontal plane: draws are taken
    /// from the square until one has a squared length of at least one
    /// unit; a fixed fallback keeps the draw count finite.
    pub fn random_in_unit_disk(rng: &mut Rng) -> (r: Vec3)
        ensures
            -ONE <= r.x <= ONE,
            -ONE <= r.y <= ONE,
            r.z == 0,
    {
        let mut tries: u64 = 0;
        while tries < 64
            decreases 64 - tries,
        {
            let x = random_double_interval(rng, -ONE, ONE);
            let y = random_double_interval(rng, -ONE, ONE);
            let p = Vec3 { x, y, z: 0 };
            if p.length_squared() >= ONE {
                return p;
            }
            tries = tries + 1;
        }
        Vec3 { x: ONE, y: ONE, z: 0 }
    }

    /// The unit vector along the first axis, or its reverse.
    #[allow(non_snake_case)]
    pub fn X(reverse: bool) -> (r: Vec3)
        ensures
            r == (Vec3 { x: if reverse { (-ONE) as i64 } else { ONE }, y: 0i64, z: 0i64 }),
    {
        Vec3 { x: if reverse { -ONE } else { ONE }, y: 0, z: 0 }
    }

    /// The unit vector along the second axis, or its reverse.
    #[allow(non_snake_case)]
    pub fn Y(reverse: bool) -> (r: Vec3)
        ensures
            r == (Vec3 { x: 0i64, y: if reverse { (-ONE) as i64 } else { ONE }, z: 0i64 }),
    {
        Vec3 { x: 0, y: if reverse { -ONE } else { ONE }, z: 0 }
    }

    /// The unit vector along the third axis, or its reverse.
    #[allow(non_snake_case)]
    pub fn Z(reverse: bool) -> (r: Vec3)
        ensures
            r == (Vec3 { x: 0i64, y: 0i64, z: if reverse { (-ONE) as i64 } else { ONE } }),
    {
        Vec3 { x: 0, y: 0, z: if reverse { -ONE } else { ONE } }
    }

    pub fn x(self) -> (r: i64)
        ensures
            r == self.x,
    {
        self.x
    }

    pub fn y(self) -> (r: i64)
        ensures
            r == self.y,
    {
        self.y
    }

    pub fn z(self) -> (r: i64)
        ensures
            r == self.z,
    {
        self.z
    }

    pub fn zeros() -> (r: Vec3)
        ensures
            r == (Vec3 { x: 0i64, y: 0i64, z: 0i64 }),
    {
        Vec3 { x: 0, y: 0, z: 0 }
    }

    pub fn ones() -> (r: Vec3)
        ensures
            r == (Vec3 { x: ONE, y: ONE, z: ONE }),
    {
        Vec3 { x: ONE, y: ONE, z: ONE }
    }

    /// The component at index `n`, counted x, y, z.
    pub fn index(self, n: usize) -> (r: i64)
        requires
            n < 3,
        ensures
            r == if n == 0 { self.x } else if n == 1 { self.y } else { self.z },
    {
        if n == 0 {
            self.x
        } else if n == 1 {
            self.y
        } else {
            self.z
        }
    }

    pub fn add(self, rhs: Vec3) -> (r: Vec3)
        ensures
            r == add_v(self, rhs),
    {
        Vec3 { x: fadd(self.x, rhs.x), y: fadd(self.y, rhs.y), z: fadd(self.z, rhs.z) }
    }

    pub fn sub(self, rhs: Vec3) -> (r: Vec3)
        ensures
            r == sub_v(self, rhs),
    {
        Vec3 { x: fsub(self.x, rhs.x), y: fsub(self.y, rhs.y), z: fsub(self.z, rhs.z) }
    }

    /// Componentwise product.
    pub fn mul(self, rhs: Vec3) -> (r: Vec3)
        ensures
            r == mul_v(self, rhs),
    {
        Vec3 { x: fmul(self.x, rhs.x), y: fmul(self.y, rhs.y), z: fmul(self.z, rhs.z) }
    }

    /// Componentwise quotient.
    pub fn div(self, rhs: Vec3) -> (r: Vec3)
        ensures
            r == div_v(self, rhs),
    {
        Vec3 { x: fdiv(self.x, rhs.x), y: fdiv(self.y, rhs.y), z: fdiv(self.z, rhs.z) }
    }

    /// Every component scaled by `k`.
    pub fn mul_scalar(self, k: i64) -> (r: Vec3)
        ensures
            r == scale_v(self, k as int),
    {
        Vec3 { x: fmul(self.x, k), y: fmul(self.y, k), z: fmul(self.z, k) }
    }

    /// Every component divided by `k`.
    pub fn div_scalar(self, k: i64) -> (r: Vec3)
        ensures
            r == div_scale_v(self, k as int),
    {
        Vec3 { x: fdiv(self.x, k), y: fdiv(self.y, k), z: fdiv(self.z, k) }
    }

    /// The negated vector.
    pub fn neg(self) -> (r: Vec3)
        ensures
            r == (Vec3 {
                x: fneg_s(self.x as int) as i64,
                y: fneg_s(self.y as int) as i64,
                z: fneg_s(self.z as int) as i64,
            }),
    {
        Vec3 { x: fneg(self.x), y: fneg(self.y), z: fneg(self.z) }
    }

    pub fn length_squared(self) -> (r: i64)
        ensures
            r as int == len_sq_v(self),
    {
        fadd(fadd(fmul(self.x, self.x), fmul(self.y, self.y)), fmul(self.z, self.z))
    }

    pub fn length(self) -> (r: i64)
        ensures
            r as int == length_v(self),
    {
        fsqrt(self.length_squared())
    }

    pub fn dot(self, other: Vec3) -> (r: i64)
        ensures
            r as int == dot_v(self, other),
    {
        fadd(fadd(fmul(self.x, other.x), fmul(self.y, other.y)), fmul(self.z, other.z))
    }

    pub fn cross(self, other: Vec3) -> (r: Vec3)
        ensures
            r == cross_v(self, other),
    {
        Vec3 {
            x: fsub(fmul(self.y, other.z), fmul(self.z, other.y)),
            y: fsub(fmul(self.z, other.x), fmul(self.x, other.z)),
            z: fsub(fmul(self.x, other.y), fmul(self.y, other.x)),
        }
    }

    /// The vector rescaled by its own length.
    pub fn unit_vector(self) -> (r: Vec3)
        ensures
            r == unit_v(self),
    {
        let len = self.length();
        Vec3 { x: fdiv(self.x, len), y: fdiv(self.y, len), z: fdiv(self.z, len) }
    }

    /// Whether the vector is too short to name a direction: every
    /// component below one fixed-point step.
    pub fn near_zero(self) -> (r: bool)
        ensures
            r == (self.x == 0 && self.y == 0 && self.z == 0),
    {
        self.x == 0 && self.y == 0 && self.z == 0
    }

    /// Mirror reflection about the normal `n`.
    pub fn reflect(&self, n: &Vec3) -> (r: Vec3)
        ensures
            r == reflect_v(*self, *n),
    {
        let d = self.dot(*n);
        self.sub(n.mul_scalar(d).mul_scalar(2 * ONE))
    }

    /// Refraction at a surface with normal `n` and index ratio
    /// `etai_over_etat`, following Snell's law.
    pub fn refract(&self, n: &Vec3, etai_over_etat: i64) -> (r: Vec3)
        ensures
            r == refract_v(*self, *n, etai_over_etat as int),
    {
        let d = self.dot(*n);
        let m = if d < ONE { d } else { ONE };
        let cos_theta = fneg(m);
        let r_out_perp = self.add(n.mul_scalar(cos_theta)).mul_scalar(etai_over_etat);
        let par_len = fsqrt(fabs(fsub(ONE, r_out_perp.length_squared())));
        let r_out_parallel = n.mul_scalar(fneg(ONE)).mul_scalar(par_len);
        r_out_perp.add(r_out_parallel)
    }
}

/// Components of a normalized vector stay within one unit when the
/// vector's squared length reaches at least one unit and its components
/// are themselves bounded by one unit.
pub proof fn lemma_unit_component_bounds(v: Vec3)
    requires
        -ONE <= v.x <= ONE,
        -ONE <= v.y <= ONE,
        -ONE <= v.z <= ONE,
        len_sq_v(v) >= ONE,
    ensures
        -ONE <= unit_v(v).x as int <= ONE,
        -ONE <= unit_v(v).y as int <= ONE,
        -ONE <= unit_v(v).z as int <= ONE,
{
    let l = length_v(v);
    assert(ONE * ONE <= len_sq_v(v) * ONE) by (nonlinear_arith)
        requires len_sq_v(v) >= ONE
    ;
    crate::fixed::lemma_sqrt_floor_bounds((len_sq_v(v) * ONE) as nat);
    assert(l >= ONE) by {
        if l < ONE {
            assert((l + 1) * (l + 1) <= ONE * ONE) by (nonlinear_arith)
                requires 0 <= l, l + 1 <= ONE
            ;
        }
    }
    lemma_div_unit_bound(v.x as int, l);
    lemma_div_unit_bound(v.y as int, l);
    lemma_div_unit_bound(v.z as int, l);
}

/// Dividing a component no larger than one unit by a length of at least
/// one unit keeps it within one unit.
proof fn lemma_div_unit_bound(x: int, l: int)
    requires
        -ONE <= x <= ONE,
        l >= ONE,
    ensures
        -ONE <= fdiv_s(x, l) <= ONE,
{
    let p = x * (ONE as int);
    assert(-(ONE as int) * l <= x * (ONE as int) <= ONE as int * l) by (nonlinear_arith)
        requires -ONE <= x <= ONE, l >= ONE
    ;
    assert(-(ONE as int) * l <= p <= ONE as int * l);
    vstd::arithmetic::div_mod::lemma_div_is_ordered(-(ONE as int) * l, p, l);
    vstd::arithmetic::div_mod::lemma_div_is_ordered(p, ONE as int * l, l);
    vstd::arithmetic::div_mod::lemma_div_multiples_vanish(-(ONE as int), l);
    vstd::arithmetic::div_mod::lemma_div_multiples_vanish(ONE as int, l);
    assert((l * (ONE as int)) / l == ONE);
    assert((l * (-(ONE as int))) / l == -(ONE as int));
    assert(l * (ONE as int) == (ONE as int) * l);
    vstd::arithmetic::mul::lemma_mul_is_commutative(l, -(ONE as int));
    vstd::arithmetic::mul::lemma_mul_is_commutative(l, ONE as int);
    assert(l * (-(ONE as int)) == -(ONE as int) * l);
    assert(-(ONE as int) <= p / l <= ONE as int);
    assert(fdiv_s(x, l) == clip(p / l));
}

/// Scaling by one unit leaves a representable vector unchanged.
pub proof fn lemma_scale_unit(v: Vec3)
    requires
        -FMAX <= v.x <= FMAX,
        -FMAX <= v.y <= FMAX,
        -FMAX <= v.z <= FMAX,
    ensures
        scale_v(v, ONE as int) == v,
{
    lemma_fmul_unit(v.x as int);
    lemma_fmul_unit(v.y as int);
    lemma_fmul_unit(v.z as int);
}

/// Multiplying by one unit is the identity on representable values, and
/// multiplying by minus one unit is exact negation.
pub proof fn lemma_fmul_unit(x: int)
    requires
        -FMAX <= x <= FMAX,
    ensures
        fmul_s(x, ONE as int) == x,
        fmul_s(ONE as int, x) == x,
        fmul_s(x, -(ONE as int)) == fneg_s(x),
        fmul_s(-(ONE as int), x) == fneg_s(x),
{
    let sc = crate::fixed::SCALE as int;
    vstd::arithmetic::div_mod::lemma_div_multiples_vanish(x, sc);
    vstd::arithmetic::mul::lemma_mul_is_commutative(x, sc);
    vstd::arithmetic::div_mod::lemma_div_multiples_vanish(-x, sc);
    vstd::arithmetic::mul::lemma_mul_is_commutative(-x, sc);
    assert(x * (-sc) == (-x) * sc) by (nonlinear_arith);
    assert((-sc) * x == (-x) * sc) by (nonlinear_arith);
}

} // verus!
