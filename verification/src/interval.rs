//! Closed numeric ranges over fixed-point scalars.
//!
//! An interval is a pair of bounds; nothing forces `min <= max`, and an
//! empty interval is represented by `min > max`. The default interval is
//! empty; the universal interval spans the whole representable range, with
//! `INF` standing in for an unbounded end.

use vstd::prelude::*;
use crate::fixed::{fadd, fadd_s, fmul, fmul_s, fsub, fsub_s, FMAX};

verus! {

/// Stand-in for an unbounded interval end.
pub const INF: i64 = FMAX;

/// Stand-in for an unbounded lower end.
pub const NEG_INF: i64 = -FMAX;

/// Half a unit in fixed-point steps, for splitting a padding evenly.
pub const HALF: i64 = 32768;

#[derive(Clone, Copy, Debug, PartialEq, Eq, Structural)]
pub struct Interval {
    pub min: i64,
    pub max: i64,
}

/// The smallest interval containing both arguments.
pub open spec fn union_s(a: Interval, b: Interval) -> Interval {
    Interval {
        min: if a.min <= b.min { a.min } else { b.min },
        max: if a.max >= b.max { a.max } else { b.max },
    }
}

/// Inclusive containment.
pub open spec fn contains_s(i: Interval, x: int) -> bool {
    i.min <= x <= i.max
}

/// Strict containment: both ends excluded.
pub open spec fn surrounds_s(i: Interval, x: int) -> bool {
    i.min < x < i.max
}

/// Both ends moved outward by half of `delta`.
pub open spec fn expand_s(i: Interval, delta: int) -> Interval {
    Interval {
        min: fsub_s(i.min as int, fmul_s(delta, HALF as int)) as i64,
        max: fadd_s(i.max as int, fmul_s(delta, HALF as int)) as i64,
    }
}

impl Interval {
    /// The default interval is empty: its bounds are inverted.
    pub fn new() -> (r: Interval)
        ensures
            r == (Interval { min: INF, max: NEG_INF }),
    {
        Interval { min: INF, max: NEG_INF }
    }

    /// The universal interval contains every representable value.
    pub fn universe() -> (r: Interval)
        ensures
            r == (Interval { min: NEG_INF, max: INF }),
    {
        Interval { min: NEG_INF, max: INF }
    }

    pub fn from(min: i64, max: i64) -> (r: Interval)
        ensures
            r == (Interval { min, max }),
    {
        Interval { min, max }
    }

    /// The union of two intervals: the smallest interval containing both.
    pub fn from_intervals(a: Interval, b: Interval) -> (r: Interval)
        ensures
            r == union_s(a, b),
    {
        Interval {
            min: if a.min <= b.min { a.min } else { b.min },
            max: if a.max >= b.max { a.max } else { b.max },
        }
    }

    /// Inclusive containment of `x`.
    pub fn contains(self, x: i64) -> (r: bool)
        ensures
            r == contains_s(self, x as int),
    {
        self.min <= x && x <= self.max
    }

    /// Strict containment of `x`: values on either end are rejected.
    pub fn surrounds(self, x: i64) -> (r: bool)
        ensures
            r == surrounds_s(self, x as int),
    {
        self.min < x && x < self.max
    }

    /// Clamp `x` into the range: the nearer bound when outside.
    pub fn clamp(self, x: i64) -> (r: i64)
        ensures
            r as int == if (x as int) < self.min as int {
                self.min as int
            } else if (x as int) > self.max as int {
                self.max as int
            } else {
                x as int
            },
    {
        if x < self.min {
            return self.min;
        }
        if x > self.max {
            return self.max;
        }
        x
    }

    pub fn max(self) -> (r: i64)
        ensures
            r == self.max,
    {
        self.max
    }

    pub fn min(self) -> (r: i64)
        ensures
            r == self.min,
    {
        self.min
    }

    /// The (saturating) width of the interval; negative when empty.
    pub fn size(self) -> (r: i64)
        ensures
            r as int == fsub_s(self.max as int, self.min as int),
    {
        fsub(self.max, self.min)
    }

    pub fn modify_min(&mut self, value: i64)
        ensures
            final(self).min == value,
            final(self).max == old(self).max,
    {
        self.min = value;
    }

    pub fn modify_max(&mut self, value: i64)
        ensures
            final(self).min == old(self).min,
            final(self).max == value,
    {
        self.max = value;
    }

    /// Grow the interval by `delta` in total, split evenly on both sides.
    pub fn expand(self, delta: i64) -> (r: Interval)
        ensures
            r == expand_s(self, delta as int),
    {
        let padding = fmul(delta, HALF);
        Interval { min: fsub(self.min, padding), max: fadd(self.max, padding) }
    }
}

/// Interval union is commutative.
pub proof fn lemma_union_commutes(a: Interval, b: Interval)
    ensures
        union_s(a, b) == union_s(b, a),
{
}

/// Interval union is associative.
pub proof fn lemma_union_associates(a: Interval, b: Interval, c: Interval)
    ensures
        union_s(union_s(a, b), c) == union_s(a, union_s(b, c)),
{
}

/// The union of an interval with itself is that interval.
pub proof fn lemma_union_idempotent(a: Interval)
    ensures
        union_s(a, a) == a,
{
}

} // verus!
