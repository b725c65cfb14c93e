//! Fixed-point scalar arithmetic.
//!
//! Every coordinate, ray parameter and color channel in this crate is a
//! signed fixed-point number: an `i64` holding `SCALE` steps per unit.
//! All operations saturate at `±FMAX` instead of overflowing, and every
//! operation is pinned exactly by a spec-level mirror, so contracts further
//! up can state results as closed formulas over the integers.

use vstd::prelude::*;

verus! {

/// Steps per unit: values are fixed-point with this scale.
pub const SCALE: i64 = 65536;

/// One unit in fixed-point steps.
pub const ONE: i64 = 65536;

/// Saturation bound of every arithmetic result.
pub const FMAX: i64 = 0x3fff_ffff_ffff_ffff;

/// Saturate an unbounded integer into the representable range.
pub open spec fn clip(v: int) -> int {
    if v > FMAX as int {
        FMAX as int
    } else if v < -(FMAX as int) {
        -(FMAX as int)
    } else {
        v
    }
}

/// Division rounding toward negative infinity, for either sign of `b`.
pub open spec fn floor_div(a: int, b: int) -> int {
    if b > 0 {
        a / b
    } else {
        (-a) / (-b)
    }
}

/// Saturating sum.
pub open spec fn fadd_s(a: int, b: int) -> int {
    clip(a + b)
}

/// Saturating difference.
pub open spec fn fsub_s(a: int, b: int) -> int {
    clip(a - b)
}

/// Saturating negation.
pub open spec fn fneg_s(a: int) -> int {
    clip(-a)
}

/// Saturating fixed-point product, rounded toward negative infinity.
pub open spec fn fmul_s(a: int, b: int) -> int {
    clip(floor_div(a * b, SCALE as int))
}

/// Saturating fixed-point quotient, rounded toward negative infinity.
/// A zero divisor saturates to the bound carrying the numerator's sign,
/// the way an infinite float quotient would compare.
pub open spec fn fdiv_s(a: int, b: int) -> int {
    if b == 0 {
        if a == 0 {
            0
        } else if a > 0 {
            FMAX as int
        } else {
            -(FMAX as int)
        }
    } else {
        clip(floor_div(a * SCALE as int, b))
    }
}

/// Floor of the square root, by unfolding one candidate at a time.
pub open spec fn sqrt_floor(n: nat) -> nat
    decreases n,
{
    if n == 0 {
        0
    } else {
        let r = sqrt_floor((n - 1) as nat);
        if (r + 1) * (r + 1) <= n {
            r + 1
        } else {
            r
        }
    }
}

/// Fixed-point square root: zero on any non-positive input.
pub open spec fn fsqrt_s(a: int) -> int {
    if a <= 0 {
        0
    } else {
        sqrt_floor((a * SCALE as int) as nat) as int
    }
}

pub proof fn lemma_sqrt_floor_bounds(n: nat)
    ensures
        sqrt_floor(n) * sqrt_floor(n) <= n,
        n < (sqrt_floor(n) + 1) * (sqrt_floor(n) + 1),
    decreases n,
{
    if n > 0 {
        lemma_sqrt_floor_bounds((n - 1) as nat);
        let r = sqrt_floor((n - 1) as nat);
        assert(r * r <= n - 1 && n - 1 < (r + 1) * (r + 1));
        if (r + 1) * (r + 1) <= n {
            assert(sqrt_floor(n) == r + 1);
            assert(n <= (r + 1) * (r + 1));
            assert((r + 1) * (r + 1) < (r + 2) * (r + 2)) by (nonlinear_arith);
            assert(n < (sqrt_floor(n) + 1) * (sqrt_floor(n) + 1));
        } else {
            assert(sqrt_floor(n) == r);
            assert(n < (r + 1) * (r + 1));
            assert(n < (sqrt_floor(n) + 1) * (sqrt_floor(n) + 1));
        }
    } else {
        assert(sqrt_floor(n) == 0);
        assert(n < (sqrt_floor(n) + 1) * (sqrt_floor(n) + 1)) by (nonlinear_arith)
            requires n == 0, sqrt_floor(n) == 0
        ;
    }
}

pub proof fn lemma_sqrt_floor_unique(n: nat, r: nat)
    requires
        r * r <= n,
        n < (r + 1) * (r + 1),
    ensures
        r == sqrt_floor(n),
{
    lemma_sqrt_floor_bounds(n);
    let s = sqrt_floor(n);
    if r < s {
        assert((r + 1) * (r + 1) <= s * s) by (nonlinear_arith)
            requires r + 1 <= s
        ;
    }
    if s < r {
        assert((s + 1) * (s + 1) <= r * r) by (nonlinear_arith)
            requires s + 1 <= r
        ;
    }
}

/// A product is bounded by the product of bounds on its factors.
pub(crate) proof fn lemma_mul_bound(a: int, b: int, ba: int, bb: int)
    requires
        -ba <= a <= ba,
        -bb <= b <= bb,
        0 <= ba,
        0 <= bb,
    ensures
        -(ba * bb) <= a * b <= ba * bb,
{
    assert(-(ba * bb) <= a * b <= ba * bb) by (nonlinear_arith)
        requires -ba <= a <= ba, -bb <= b <= bb, 0 <= ba, 0 <= bb
    ;
}

/// Saturate a wide intermediate back into the representable range.
fn iclip(v: i128) -> (r: i64)
    ensures
        r as int == clip(v as int),
{
    if v > FMAX as i128 {
        FMAX
    } else if v < -(FMAX as i128) {
        -FMAX
    } else {
        v as i64
    }
}

/// Division of wide intermediates rounding toward negative infinity.
pub(crate) fn idiv_floor(a: i128, b: i128) -> (q: i128)
    requires
        b != 0,
        -0x4000_0000_0000_0000_0000_0000_0000_0000 <= a
            <= 0x4000_0000_0000_0000_0000_0000_0000_0000,
        -0x4000_0000_0000_0000_0000_0000_0000_0000 <= b
            <= 0x4000_0000_0000_0000_0000_0000_0000_0000,
    ensures
        q as int == floor_div(a as int, b as int),
{
    let (ap, bp): (i128, i128) = if b < 0 { (-a, -b) } else { (a, b) };
    assert(floor_div(a as int, b as int) == ap as int / bp as int);
    if ap >= 0 {
        let q = ((ap as u128) / (bp as u128)) as i128;
        proof {
            vstd::arithmetic::div_mod::lemma_div_nonincreasing(ap as int, bp as int);
            vstd::arithmetic::div_mod::lemma_div_is_ordered_by_denominator(
                ap as int, 1, bp as int);
        }
        q
    } else {
        let n = (-ap) as u128;
        let q0 = (n + (bp - 1) as u128) / (bp as u128);
        proof {
            let nn = n as int;
            let bb = bp as int;
            let qq = (nn + bb - 1) / bb;
            vstd::arithmetic::div_mod::lemma_div_nonincreasing(nn + bb - 1, bb);
            vstd::arithmetic::div_mod::lemma_div_is_ordered_by_denominator(
                nn + bb - 1, 1, bb);
            assert(0 <= qq <= nn + bb - 1);
            lemma_neg_ceil_is_floor(nn, bb);
        }
        -(q0 as i128)
    }
}

/// For positive `b`: the floor of `-n / b` is the negated ceiling of `n / b`.
proof fn lemma_neg_ceil_is_floor(n: int, b: int)
    requires
        n >= 0,
        b > 0,
    ensures
        (-n) / b == -((n + b - 1) / b),
{
    let q = n / b;
    let r = n % b;
    vstd::arithmetic::div_mod::lemma_fundamental_div_mod(n, b);
    vstd::arithmetic::div_mod::lemma_mod_pos_bound(n, b);
    if r == 0 {
        assert(n + b - 1 == q * b + (b - 1)) by (nonlinear_arith)
            requires n == b * q + r, r == 0
        ;
        vstd::arithmetic::div_mod::lemma_fundamental_div_mod_converse(
            n + b - 1, b, q, b - 1);
        assert(-n == (-q) * b + 0) by (nonlinear_arith)
            requires n == b * q + r, r == 0
        ;
        vstd::arithmetic::div_mod::lemma_fundamental_div_mod_converse(
            -n, b, -q, 0);
    } else {
        assert(n + b - 1 == (q + 1) * b + (r - 1)) by (nonlinear_arith)
            requires n == b * q + r
        ;
        vstd::arithmetic::div_mod::lemma_fundamental_div_mod_converse(
            n + b - 1, b, q + 1, r - 1);
        assert(-n == (-q - 1) * b + (b - r)) by (nonlinear_arith)
            requires n == b * q + r
        ;
        vstd::arithmetic::div_mod::lemma_fundamental_div_mod_converse(
            -n, b, -q - 1, b - r);
    }
}

/// Saturating sum.
pub fn fadd(a: i64, b: i64) -> (r: i64)
    ensures
        r as int == fadd_s(a as int, b as int),
{
    iclip(a as i128 + b as i128)
}

/// Saturating difference.
pub fn fsub(a: i64, b: i64) -> (r: i64)
    ensures
        r as int == fsub_s(a as int, b as int),
{
    iclip(a as i128 - b as i128)
}

/// Saturating negation.
pub fn fneg(a: i64) -> (r: i64)
    ensures
        r as int == fneg_s(a as int),
{
    iclip(-(a as i128))
}

/// Saturating fixed-point product.
pub fn fmul(a: i64, b: i64) -> (r: i64)
    ensures
        r as int == fmul_s(a as int, b as int),
{
    proof {
        lemma_mul_bound(a as int, b as int, 0x8000_0000_0000_0000, 0x8000_0000_0000_0000);
    }
    let p = (a as i128) * (b as i128);
    iclip(idiv_floor(p, SCALE as i128))
}

/// Saturating fixed-point quotient; a zero divisor saturates.
pub fn fdiv(a: i64, b: i64) -> (r: i64)
    ensures
        r as int == fdiv_s(a as int, b as int),
{
    if b == 0 {
        if a == 0 {
            0
        } else if a > 0 {
            FMAX
        } else {
            -FMAX
        }
    } else {
        proof {
            lemma_mul_bound(a as int, SCALE as int, 0x8000_0000_0000_0000, 0x1_0000);
        }
        let p = (a as i128) * (SCALE as i128);
        iclip(idiv_floor(p, b as i128))
    }
}

/// Absolute value, saturating on the most negative input.
pub fn fabs(a: i64) -> (r: i64)
    ensures
        r as int == clip(if a < 0 { -(a as int) } else { a as int }),
{
    if a < 0 {
        iclip(-(a as i128))
    } else {
        iclip(a as i128)
    }
}

/// Floor of the square root over wide naturals, by bisection.
fn isqrt(n: u128) -> (r: u64)
    requires
        n < 0x1_0000_0000_0000_0000_0000,
    ensures
        r as nat == sqrt_floor(n as nat),
{
    if n == 0 {
        return 0;
    }
    let mut lo: u128 = 0;
    let mut hi: u128 = 0x100_0000_0000;
    assert(hi * hi > n);
    while lo + 1 < hi
        invariant
            lo < hi <= 0x100_0000_0000,
            lo * lo <= n,
            n < hi * hi,
        decreases hi - lo,
    {
        let mid = lo + (hi - lo) / 2;
        proof {
            lemma_mul_bound(mid as int, mid as int, 0x100_0000_0000, 0x100_0000_0000);
        }
        if mid * mid <= n {
            lo = mid;
        } else {
            hi = mid;
        }
    }
    proof {
        lemma_sqrt_floor_unique(n as nat, lo as nat);
    }
    lo as u64
}

/// Fixed-point square root: zero on any non-positive input.
pub fn fsqrt(a: i64) -> (r: i64)
    ensures
        r as int == fsqrt_s(a as int),
{
    if a <= 0 {
        return 0;
    }
    proof {
        lemma_mul_bound(a as int, SCALE as int, 0x8000_0000_0000_0000, 0x1_0000);
    }
    let wide = (a as u128) * (SCALE as u128);
    let r = isqrt(wide);
    proof {
        lemma_sqrt_floor_bounds(wide as nat);
        assert(sqrt_floor(wide as nat) * sqrt_floor(wide as nat) <= wide as nat);
        assert(0x8000_0000_0000 * 0x8000_0000_0000 > wide as nat);
        if sqrt_floor(wide as nat) >= 0x8000_0000_0000 {
            assert(sqrt_floor(wide as nat) * sqrt_floor(wide as nat)
                >= 0x8000_0000_0000 * 0x8000_0000_0000) by (nonlinear_arith)
                requires sqrt_floor(wide as nat) >= 0x8000_0000_0000
            ;
        }
    }
    r as i64
}

/// The smaller of two raw values.
pub fn fmin(a: i64, b: i64) -> (r: i64)
    ensures
        r as int == if (a as int) < (b as int) { a as int } else { b as int },
{
    if a < b { a } else { b }
}

/// The larger of two raw values.
pub fn fmax(a: i64, b: i64) -> (r: i64)
    ensures
        r as int == if (a as int) > (b as int) { a as int } else { b as int },
{
    if a > b { a } else { b }
}

/// The square root of a value at most one unit is at most one unit.
pub proof fn lemma_fsqrt_in_unit(x: int)
    requires
        x <= ONE,
    ensures
        0 <= fsqrt_s(x) <= ONE,
{
    if x > 0 {
        let n = (x * SCALE as int) as nat;
        lemma_sqrt_floor_bounds(n);
        let sf = sqrt_floor(n);
        assert(x * SCALE as int <= ONE as int * SCALE as int) by (nonlinear_arith)
            requires 0 < x <= ONE
        ;
        if sf > ONE {
            assert(sf * sf > (ONE as int) * (ONE as int)) by (nonlinear_arith)
                requires sf > ONE
            ;
        }
    }
}

} // verus!
