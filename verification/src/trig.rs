//! Fixed-point trigonometric approximations.
//!
//! Angles for the rotation transform are taken in fixed-point degrees, so
//! range reduction is exact integer arithmetic; the half-turn sine uses a
//! classic rational approximation whose result provably stays within one
//! unit. The arc functions serve only texture coordinates.

use vstd::prelude::*;
use crate::fixed::{
    fadd, fadd_s, fdiv, fdiv_s, floor_div, fmul, fmul_s, fneg, fsqrt, fsqrt_s, fsub,
    fsub_s, clip, ONE, SCALE,
};

verus! {

/// A half turn in fixed-point degrees.
pub const HALF_TURN: i64 = 11796480;

/// A full turn in fixed-point degrees.
pub const FULL_TURN: i64 = 23592960;

/// A quarter turn in fixed-point degrees.
pub const QUARTER_TURN: i64 = 5898240;

/// One quarter of pi in fixed-point radians.
pub const QUARTER_PI: i64 = 51472;

/// One half of pi in fixed-point radians.
pub const HALF_PI: i64 = 102944;

/// Pi in fixed-point radians.
pub const PI_F: i64 = 205887;

/// Two pi in fixed-point radians.
pub const TWO_PI_F: i64 = 411774;

/// Tuning constant of the arctangent approximation.
pub const ATAN_K: i64 = 17893;

/// Degrees per radian, in fixed point.
pub const RAD2DEG: i64 = 3754936;

/// The angle reduced into `[0, FULL_TURN)`.
pub open spec fn reduce_turn_s(d: int) -> int {
    d - FULL_TURN as int * floor_div(d, FULL_TURN as int)
}

/// Sine over the first half turn, by the rational approximation
/// `4 a (HALF_TURN - a) / (40500 - a (HALF_TURN - a))` in fixed point.
pub open spec fn sin_half_s(a: int) -> int {
    let t = a * (HALF_TURN as int - a);
    floor_div(4 * t * SCALE as int, 40500 * SCALE as int * SCALE as int - t)
}

/// Full-range sine of a fixed-point degree angle.
pub open spec fn sin_deg_s(d: int) -> int {
    let a = reduce_turn_s(d);
    if a < HALF_TURN as int {
        sin_half_s(a)
    } else {
        -sin_half_s(a - HALF_TURN as int)
    }
}

/// Full-range cosine of a fixed-point degree angle: the sine a quarter
/// turn further along.
pub open spec fn cos_deg_s(d: int) -> int {
    sin_deg_s(d + QUARTER_TURN as int)
}

/// Full-range sine of a fixed-point radian angle, through the degree
/// conversion.
pub open spec fn sin_rad_s(x: int) -> int {
    sin_deg_s(fmul_s(x, RAD2DEG as int))
}

/// Arctangent of a ratio in `[0, ONE]`, in fixed-point radians.
pub open spec fn atan_pos_s(q: int) -> int {
    fmul_s(q, fadd_s(QUARTER_PI as int, fmul_s(ATAN_K as int, fsub_s(ONE as int, q))))
}

/// Arctangent over the first octant fan: `atan(n/d)` for `0 <= n <= d`,
/// or its complement when `n > d`.
pub open spec fn atan_octant_s(n: int, d: int) -> int {
    if n <= d {
        atan_pos_s(fdiv_s(n, d))
    } else {
        fsub_s(HALF_PI as int, atan_pos_s(fdiv_s(d, n)))
    }
}

/// Quadrant-aware arctangent in fixed-point radians, in `(-PI_F, PI_F]`.
pub open spec fn atan2_s(y: int, x: int) -> int {
    let ay = if y < 0 { clip(-y) } else { y };
    let ax = if x < 0 { clip(-x) } else { x };
    if ay == 0 && ax == 0 {
        0
    } else {
        let base = atan_octant_s(ay, ax);
        if x >= 0 {
            if y >= 0 { base } else { -base }
        } else {
            if y >= 0 {
                fsub_s(PI_F as int, base)
            } else {
                -fsub_s(PI_F as int, base)
            }
        }
    }
}

/// Arc cosine in fixed-point radians, in `[0, PI_F]`.
pub open spec fn acos_s(c: int) -> int {
    let cc = if c < -(ONE as int) {
        -(ONE as int)
    } else if c > ONE as int {
        ONE as int
    } else {
        c
    };
    let s = fsqrt_s(fsub_s(ONE as int, fmul_s(cc, cc)));
    atan2_s(s, cc)
}

/// The angle reduced into `[0, FULL_TURN)` by exact integer arithmetic.
fn reduce_turn(d: i64) -> (r: i64)
    ensures
        r as int == reduce_turn_s(d as int),
        0 <= r < FULL_TURN,
{
    let q = crate::fixed::idiv_floor(d as i128, FULL_TURN as i128);
    proof {
        vstd::arithmetic::div_mod::lemma_fundamental_div_mod(d as int, FULL_TURN as int);
        vstd::arithmetic::div_mod::lemma_mod_bound(d as int, FULL_TURN as int);
        assert(floor_div(d as int, FULL_TURN as int) == d as int / FULL_TURN as int);
    }
    (d as i128 - (FULL_TURN as i128) * q) as i64
}

/// Sine over the first half turn; the result provably stays in
/// `[0, ONE]`.
#[verifier::rlimit(30)]
fn sin_half(a: i64) -> (r: i64)
    requires
        0 <= a < HALF_TURN,
    ensures
        r as int == sin_half_s(a as int),
        0 <= r <= ONE,
{
    proof {
        crate::fixed::lemma_mul_bound(a as int, HALF_TURN as int - a as int,
            HALF_TURN as int, HALF_TURN as int);
    }
    let t: i128 = (a as i128) * (HALF_TURN as i128 - a as i128);
    proof {
        assert(t >= 0) by (nonlinear_arith)
            requires 0 <= a as int, a as int <= HALF_TURN as int,
                t == a as int * (HALF_TURN as int - a as int)
        ;
        assert(a as int * (HALF_TURN as int - a as int)
            <= QUARTER_TURN as int * QUARTER_TURN as int
            && QUARTER_TURN as int * QUARTER_TURN as int == 34789235097600)
            by (nonlinear_arith)
            requires 0 <= a as int, (a as int) < HALF_TURN as int
        ;
        assert(t == a as int * (HALF_TURN as int - a as int));
        assert(0 <= t <= 34789235097600);
    }
    let num: i128 = 4 * t * 65536;
    let den: i128 = 173946175488000 - t;
    let r = crate::fixed::idiv_floor(num, den);
    proof {
        let ti = a as int * (HALF_TURN as int - a as int);
        let deni = 40500 * SCALE as int * SCALE as int - ti;
        vstd::arithmetic::div_mod::lemma_div_pos_is_pos(4 * ti * SCALE as int, deni);
        assert(4 * ti * SCALE as int <= deni * SCALE as int
            && 40500 * SCALE as int * SCALE as int == 173946175488000)
            by (nonlinear_arith)
            requires 0 <= ti <= QUARTER_TURN as int * QUARTER_TURN as int,
                QUARTER_TURN as int * QUARTER_TURN as int == 34789235097600,
                deni == 40500 * SCALE as int * SCALE as int - ti
        ;
        vstd::arithmetic::div_mod::lemma_div_is_ordered(4 * ti * SCALE as int,
            deni * SCALE as int, deni);
        vstd::arithmetic::div_mod::lemma_div_multiples_vanish(SCALE as int, deni);
        vstd::arithmetic::mul::lemma_mul_is_commutative(deni, SCALE as int);
    }
    r as i64
}

/// Full-range sine of a fixed-point degree angle; within `[-ONE, ONE]`.
pub fn sin_deg(d: i64) -> (r: i64)
    ensures
        r as int == sin_deg_s(d as int),
        -ONE <= r <= ONE,
{
    let a = reduce_turn(d);
    if a < HALF_TURN {
        sin_half(a)
    } else {
        -sin_half(a - HALF_TURN)
    }
}

/// Full-range cosine of a fixed-point degree angle; within `[-ONE, ONE]`.
pub fn cos_deg(d: i64) -> (r: i64)
    ensures
        r as int == cos_deg_s(d as int),
        -ONE <= r <= ONE,
{
    let shifted = if d <= FULL_TURN { d + QUARTER_TURN } else {
        d - FULL_TURN + QUARTER_TURN
    };
    proof {
        if d > FULL_TURN {
            lemma_reduce_shift(d as int + QUARTER_TURN as int);
        }
    }
    sin_deg(shifted)
}

/// Full-range sine of a fixed-point radian angle; within `[-ONE, ONE]`.
pub fn sin_rad(x: i64) -> (r: i64)
    ensures
        r as int == sin_rad_s(x as int),
        -ONE <= r <= ONE,
{
    sin_deg(fmul(x, RAD2DEG))
}

/// Reduction is periodic: shifting by a full turn leaves it unchanged.
proof fn lemma_reduce_shift(d: int)
    ensures
        reduce_turn_s(d) == reduce_turn_s(d - FULL_TURN as int),
{
    let f = FULL_TURN as int;
    vstd::arithmetic::div_mod::lemma_fundamental_div_mod(d, f);
    vstd::arithmetic::div_mod::lemma_fundamental_div_mod(d - f, f);
    vstd::arithmetic::div_mod::lemma_mod_bound(d, f);
    vstd::arithmetic::div_mod::lemma_mod_bound(d - f, f);
    let q1 = d / f;
    let q2 = (d - f) / f;
    vstd::arithmetic::div_mod::lemma_fundamental_div_mod_converse(
        d - f, f, q1 - 1, d % f);
}

/// Arctangent of a ratio in `[0, ONE]`, clamped tuning polynomial.
fn atan_pos(q: i64) -> (r: i64)
    ensures
        r as int == atan_pos_s(q as int),
{
    fmul(q, fadd(QUARTER_PI, fmul(ATAN_K, fsub(ONE, q))))
}

/// Quadrant-aware arctangent in fixed-point radians.
pub fn atan2_f(y: i64, x: i64) -> (r: i64)
    ensures
        r as int == atan2_s(y as int, x as int),
{
    let ay = if y < 0 { fneg(y) } else { y };
    let ax = if x < 0 { fneg(x) } else { x };
    if ay == 0 && ax == 0 {
        return 0;
    }
    let base = if ay <= ax {
        atan_pos(fdiv(ay, ax))
    } else {
        fsub(HALF_PI, atan_pos(fdiv(ax, ay)))
    };
    if x >= 0 {
        if y >= 0 { base } else { -base }
    } else {
        let supp = fsub(PI_F, base);
        if y >= 0 { supp } else { -supp }
    }
}

/// Arc cosine in fixed-point radians.
pub fn acos_f(c: i64) -> (r: i64)
    ensures
        r as int == acos_s(c as int),
{
    let cc = if c < -ONE {
        -ONE
    } else if c > ONE {
        ONE
    } else {
        c
    };
    let s = fsqrt(fsub(ONE, fmul(cc, cc)));
    atan2_f(s, cc)
}

} // verus!
