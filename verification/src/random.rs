//! A small seedable generator, so that every random choice of the engine
//! can be replayed from its seed.

use vstd::prelude::*;

verus! {

/// The modulus of the generator: its states are the numbers below this.
pub const MODULUS: u64 = 0x8000_0000;

/// The multiplier of the generator.
pub const MULTIPLIER: u64 = 1103515245;

/// The increment of the generator.
pub const INCREMENT: u64 = 12345;

/// The state that follows `state`.
pub open spec fn step(state: u64) -> u64 {
    (((state % MODULUS) * MULTIPLIER + INCREMENT) % (MODULUS as int)) as u64
}

/// The number below `bound` that the generator yields from `state`: the
/// high bits of the next state, reduced modulo `bound`.
pub open spec fn draw(state: u64, bound: u32) -> u32 {
    ((step(state) / 65536) % (bound as u64)) as u32
}

/// A linear congruential generator. Two generators made from one seed yield
/// the same numbers.
#[derive(Debug, Clone, Copy, PartialEq, Eq, Structural)]
pub struct SeededRng {
    pub state: u64,
}

impl SeededRng {
    /// A generator that starts from `seed`.
    pub fn new(seed: u64) -> (rng: SeededRng)
        ensures
            rng.state == seed,
    {
        SeededRng { state: seed }
    }

    /// Advances the generator and returns a number below `bound`.
    pub fn next_below(&mut self, bound: u32) -> (n: u32)
        requires
            bound > 0,
        ensures
            n == draw(old(self).state, bound),
            n < bound,
            final(self).state == step(old(self).state),
    {
        let next = ((self.state % MODULUS) * MULTIPLIER + INCREMENT) % MODULUS;
        self.state = next;
        ((next / 65536) % (bound as u64)) as u32
    }
}

} // verus!
