//! A small deterministic random source: a 64-bit linear congruential
//! generator whose every output is a stated function of its state.

use vstd::prelude::*;

verus! {

/// The factor of the generator's step.
pub const MULTIPLIER: u64 = 6364136223846793005;

/// The summand of the generator's step.
pub const INCREMENT: u64 = 1442695040888963407;

/// The state that follows `state`.
pub closed spec fn advance(state: u64) -> u64 {
    state.wrapping_mul(MULTIPLIER).wrapping_add(INCREMENT)
}

/// The number that is handed out when the generator reaches `state`: its
/// upper 48 bits, the lower ones being the weak bits of such a generator.
pub closed spec fn output(state: u64) -> u64 {
    state >> 16
}

/// The random source: nothing but its present state.
#[derive(Clone, Copy, Debug, PartialEq, Eq, Structural)]
pub struct Rng {
    pub state: u64,
}

impl Rng {
    /// A generator that starts from `seed`.
    pub fn new(seed: u64) -> (r: Self)
        ensures
            r.state == seed,
    {
        Rng { state: seed }
    }

    /// Steps the generator once and hands out the upper bits of the new state.
    pub fn next(&mut self) -> (out: u64)
        ensures
            final(self).state == advance(old(self).state),
            out == output(final(self).state),
    {
        self.state = self.state.wrapping_mul(MULTIPLIER).wrapping_add(INCREMENT);
        self.state >> 16
    }
}

} // verus!
