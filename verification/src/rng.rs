//! Randomness sources.
//!
//! Map generation draws from rand's `StdRng`, which is a pure function of
//! the seed it was built from, so the whole map is reproducible from its
//! recorded seed. Free-point sampling and default headings draw from the
//! process entropy instead and promise nothing about the value drawn; every
//! caller is verified for every value that can come back.

use rand::rngs::StdRng;
use rand::{RngCore, SeedableRng};
use vstd::prelude::*;

verus! {

#[verifier::external_type_specification]
#[verifier::external_body]
pub struct ExStdRng(StdRng);

/// The draw at a given position of the `u64` stream that rand's `StdRng`
/// produces when seeded from `seed`.
pub uninterp spec fn std_rng_stream(seed: u64, index: nat) -> u64;

/// A seeded generator together with the seed it was built from and the
/// number of draws taken, so contracts can name each draw.
pub struct SeededRng {
    rng: StdRng,
    seed: u64,
    index: Ghost<nat>,
}

impl SeededRng {
    /// The seed this generator was built from.
    pub closed spec fn seed_spec(&self) -> u64 {
        self.seed
    }

    /// How many draws were taken so far.
    pub closed spec fn drawn(&self) -> nat {
        self.index@
    }

    /// Relies on rand's `StdRng::seed_from_u64`, which builds the generator
    /// from the seed alone.
    #[verifier::external_body]
    pub fn new(seed: u64) -> (r: SeededRng)
        ensures
            r.seed_spec() == seed,
            r.drawn() == 0,
    {
        SeededRng { rng: StdRng::seed_from_u64(seed), seed, index: Ghost(0nat) }
    }

    /// Relies on rand's `RngCore::next_u64` for `StdRng`: the generator is
    /// deterministic, so the draw is a function of the seed and of how many
    /// draws were taken before it.
    #[verifier::external_body]
    pub fn next(&mut self) -> (r: u64)
        ensures
            final(self).seed_spec() == old(self).seed_spec(),
            final(self).drawn() == old(self).drawn() + 1,
            r == std_rng_stream(old(self).seed_spec(), old(self).drawn()),
    {
        self.rng.next_u64()
    }
}

/// Relies on rand's `random::<u64>`, a draw from the thread-local entropy
/// source; nothing is promised of the value.
#[verifier::external_body]
pub fn random_u64() -> u64 {
    rand::random::<u64>()
}

} // verus!
