//! The random number generator behind every stochastic decision of the
//! genetic search.  The generator is passed in explicitly, so a run can
//! be made reproducible by seeding it.

use vstd::prelude::*;

verus! {

#[verifier::external_type_specification]
#[verifier::external_body]
pub struct ExStdRng(rand::rngs::StdRng);

/// Relies on rand's SeedableRng::seed_from_u64 for StdRng: builds a
/// generator whose draws are determined by the seed.
#[verifier::external_body]
pub fn rng_from_seed(seed: u64) -> rand::rngs::StdRng {
    <rand::rngs::StdRng as rand::SeedableRng>::seed_from_u64(seed)
}

/// Relies on rand's Rng::gen_range: a draw from the half-open range
/// `[lo, hi)`, which panics only when the range is empty.  Nothing more
/// can be promised of a random value.
#[verifier::external_body]
pub fn gen_range_u64(rng: &mut rand::rngs::StdRng, lo: u64, hi: u64) -> (r: u64)
    requires
        lo < hi,
    ensures
        lo <= r < hi,
{
    rand::Rng::gen_range(rng, lo..hi)
}

} // verus!
