//! The pseudorandom source that generation draws from.

use rand::rngs::SmallRng;
use rand::SeedableRng;
use vstd::prelude::*;

verus! {

/// `rand::rngs::SmallRng`, carried through verified code as an opaque value.
#[verifier::external_type_specification]
#[verifier::external_body]
pub struct ExSmallRng(SmallRng);

/// Calls `SmallRng::from_entropy`, which seeds a new generator from the
/// operating system. Nothing is claimed of the generator that comes back.
/// The outside function aborts with a panic if the operating system cannot
/// supply entropy.
#[verifier::external_body]
pub(crate) fn entropy_rng() -> (rng: SmallRng) {
    SmallRng::from_entropy()
}

/// The generator that `SmallRng::seed_from_u64` builds from `seed`. The
/// outside function expands the seed by arithmetic on the seed alone, so
/// equal seeds give equal generators.
pub uninterp spec fn seeded_generator(seed: u64) -> SmallRng;

/// Calls `SmallRng::seed_from_u64`, which expands the seed into a generator
/// state. The contract claims only that the generator is the one that the
/// seed determines; what it will draw is not stated.
#[verifier::external_body]
pub(crate) fn seeded_rng(seed: u64) -> (rng: SmallRng)
    ensures
        rng == seeded_generator(seed),
{
    SmallRng::seed_from_u64(seed)
}

} // verus!
