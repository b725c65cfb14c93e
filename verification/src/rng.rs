//! The crate's random source: one seedable handle, passed explicitly to
//! every operation that draws randomness, so that hierarchy shapes and
//! scatter outcomes are reproducible from a seed.

use vstd::prelude::*;
use crate::fixed::ONE;

verus! {

#[verifier::external_type_specification]
#[verifier::external_body]
pub struct ExStdRng(rand::rngs::StdRng);

/// A deterministic pseudo-random generator seeded once at construction.
pub struct Rng {
    inner: rand::rngs::StdRng,
}

impl Rng {
    /// Relies on rand::SeedableRng::seed_from_u64: builds a generator whose
    /// stream is a function of the seed alone.
    #[verifier::external_body]
    pub fn from_seed(seed: u64) -> (r: Rng) {
        Rng { inner: <rand::rngs::StdRng as rand::SeedableRng>::seed_from_u64(seed) }
    }

    /// Relies on rand::Rng::gen_range over `0..SCALE`: a draw in that
    /// half-open range, nothing more is promised of its distribution.
    #[verifier::external_body]
    pub fn unit(&mut self) -> (r: i64)
        ensures
            0 <= r < ONE,
    {
        rand::Rng::gen_range(&mut self.inner, 0..65536)
    }

    /// Relies on rand::Rng::gen_range over `lo..=hi`: a draw within the
    /// inclusive bounds. The call panics on an empty range, so the bounds
    /// are ordered by precondition.
    #[verifier::external_body]
    pub fn int_range(&mut self, lo: i64, hi: i64) -> (r: i64)
        requires
            lo <= hi,
        ensures
            lo <= r <= hi,
    {
        rand::Rng::gen_range(&mut self.inner, lo..=hi)
    }
}

} // verus!
