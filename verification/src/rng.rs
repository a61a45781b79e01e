//! The engine's source of randomness: rand's `StdRng` behind trusted
//! wrappers.  Nothing beyond range membership is assumed of any draw.

use vstd::prelude::*;
use rand::rngs::StdRng;

verus! {

#[verifier::external_type_specification]
#[verifier::external_body]
pub struct ExStdRng(StdRng);

/// Relies on rand's `SeedableRng::seed_from_u64`: a generator built from
/// an explicit seed.
#[verifier::external_body]
pub fn rng_from_seed(seed: u64) -> StdRng {
    rand::SeedableRng::seed_from_u64(seed)
}

/// Relies on rand's `Rng::gen` for `bool`: a random boolean.  Nothing is
/// promised of its value.
#[verifier::external_body]
pub fn rng_bool(rng: &mut StdRng) -> bool {
    rand::Rng::gen(rng)
}

/// Relies on rand's `Rng::gen_range` on `0..n`: a value drawn below `n`.
/// The range must be non-empty, or the call would panic.
#[verifier::external_body]
pub fn rng_below(rng: &mut StdRng, n: u64) -> (r: u64)
    requires
        n >= 1,
    ensures
        r < n,
{
    rand::Rng::gen_range(rng, 0..n)
}

} // verus!
