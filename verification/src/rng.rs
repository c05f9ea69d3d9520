//! The pseudo-random generator of the randomized techniques (`rand`'s
//! `StdRng`).
use vstd::prelude::*;
use rand::rngs::StdRng;
use rand::{RngExt, SeedableRng};

verus! {

/// `rand::rngs::StdRng`, held opaque.
#[verifier::external_type_specification]
#[verifier::external_body]
pub struct ExStdRng(StdRng);

/// Seeds a generator with `rand_core::SeedableRng::seed_from_u64`. Nothing is
/// stated of the generator it gives back.
#[verifier::external_body]
pub(crate) fn seeded_rng(seed: u64) -> StdRng {
    StdRng::seed_from_u64(seed)
}

/// Draws a number in `low..=high` with `rand::RngExt::random_range`, which
/// panics on an empty range and otherwise returns a number in the range
/// (uniformly); which number it returns is not stated.
#[verifier::external_body]
pub(crate) fn random_in_range(rng: &mut StdRng, low: u64, high: u64) -> (r: u64)
    requires
        low <= high,
    ensures
        low <= r <= high,
{
    rng.random_range(low..=high)
}

} // verus!
