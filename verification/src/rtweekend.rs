//! Small shared helpers: angle conversion and uniform random draws.

use vstd::prelude::*;
use crate::fixed::{fadd, fadd_s, fmul, fmul_s, fsub, fsub_s, ONE, FMAX, SCALE};
use crate::rng::Rng;

verus! {

/// One degree in fixed-point radians.
pub const DEG2RAD: i64 = 1144;

/// Fixed-point radians of an angle given in fixed-point degrees.
pub fn degrees2radians(degrees: i64) -> (r: i64)
    ensures
        r as int == fmul_s(degrees as int, DEG2RAD as int),
{
    fmul(degrees, DEG2RAD)
}

/// A uniform draw in `[0, ONE)`.
pub fn random_double(rng: &mut Rng) -> (r: i64)
    ensures
        0 <= r < ONE,
{
    rng.unit()
}

/// A uniform draw in `[min, max]`, scaled from a unit draw.
pub fn random_double_interval(rng: &mut Rng, min: i64, max: i64) -> (r: i64)
    ensures
        min <= max && -FMAX <= min && max <= FMAX ==> min <= r <= max,
{
    let u = random_double(rng);
    let d = fsub(max, min);
    let v = fmul(d, u);
    let r = fadd(min, v);
    proof {
        if min <= max && -FMAX <= min && max <= FMAX {
            let dd = fsub_s(max as int, min as int);
            assert(0 <= dd <= max - min);
            let p = dd * u;
            vstd::arithmetic::mul::lemma_mul_inequality(u as int, SCALE as int, dd);
            vstd::arithmetic::mul::lemma_mul_nonnegative(dd, u as int);
            vstd::arithmetic::div_mod::lemma_div_is_ordered(p, dd * SCALE as int,
                SCALE as int);
            vstd::arithmetic::div_mod::lemma_div_multiples_vanish(dd, SCALE as int);
            vstd::arithmetic::div_mod::lemma_div_pos_is_pos(p, SCALE as int);
            assert(0 <= fmul_s(dd, u as int) <= dd);
        }
    }
    r
}

/// A uniform integer draw in the inclusive range `[min, max]`.
pub fn random_int(rng: &mut Rng, min: i64, max: i64) -> (r: i64)
    requires
        min <= max,
    ensures
        min <= r <= max,
{
    rng.int_range(min, max)
}

} // verus!
