//! The run's random stream.
//!
//! One seeded generator feeds every non-deterministic choice of a run —
//! scheduling, frame salts, address reuse — so a whole run is reproducible
//! from one seed. Nothing is promised of an individual draw: every
//! consumer of a draw is verified for every value the draw could take.

use vstd::prelude::*;

verus! {

#[verifier::external_type_specification]
#[verifier::external_body]
pub struct ExStdRng(rand::rngs::StdRng);

/// Relies on rand's `SeedableRng::seed_from_u64`: builds the run's
/// generator from the configured seed.
#[verifier::external_body]
pub(crate) fn rng_from_seed(seed: u64) -> rand::rngs::StdRng {
    rand::SeedableRng::seed_from_u64(seed)
}

/// Relies on rand's `RngCore::next_u32`. Of a random draw nothing is
/// promised.
#[verifier::external_body]
pub(crate) fn rng_next_u32(rng: &mut rand::rngs::StdRng) -> u32 {
    rand::RngCore::next_u32(rng)
}

/// Relies on rand's `RngCore::next_u64`. Of a random draw nothing is
/// promised.
#[verifier::external_body]
pub(crate) fn rng_next_u64(rng: &mut rand::rngs::StdRng) -> u64 {
    rand::RngCore::next_u64(rng)
}

} // verus!
