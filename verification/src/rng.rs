//! A small deterministic pseudorandom generator.
//!
//! The generator is a 64-bit linear congruential generator. A session owns
//! one, seeded when the session is made, so that a session replayed from the
//! same seed on the same input makes the same choices.

use vstd::prelude::*;

verus! {

/// Multiplier of the recurrence.
pub const MULTIPLIER: u64 = 6364136223846793005;

/// Increment of the recurrence.
pub const INCREMENT: u64 = 1442695040888963407;

/// The state that follows `state`: `state * MULTIPLIER + INCREMENT` modulo
/// 2^64.
pub open spec fn advance(state: u64) -> u64 {
    state.wrapping_mul(MULTIPLIER).wrapping_add(INCREMENT)
}

/// The number that a generator in `state` draws from `0..n`: the upper half
/// of the following state, reduced modulo `n`.
pub open spec fn drawn(state: u64, n: u64) -> u64
    recommends
        n > 0,
{
    ((advance(state) >> 32) % n) as u64
}

/// A seeded pseudorandom generator.
pub struct Rng {
    state: u64,
}

impl View for Rng {
    type V = u64;

    /// The generator's state.
    closed spec fn view(&self) -> u64 {
        self.state
    }
}

impl Rng {
    /// A generator that starts in the state `seed`.
    pub fn new(seed: u64) -> (r: Rng)
        ensures
            r@ == seed,
    {
        Rng { state: seed }
    }

    /// Draws a number from `0..n` and moves to the next state.
    pub fn below(&mut self, n: u64) -> (r: u64)
        requires
            n > 0,
        ensures
            r == drawn(old(self)@, n),
            r < n,
            final(self)@ == advance(old(self)@),
    {
        let next: u64 = self.state.wrapping_mul(MULTIPLIER).wrapping_add(INCREMENT);
        self.state = next;
        (next >> 32) % n
    }

    /// Draws `true` once in `n` times, and moves to the next state: the
    /// answer is `true` where the number drawn from `0..n` is 0.
    pub fn one_in(&mut self, n: u64) -> (r: bool)
        requires
            n > 0,
        ensures
            r == (drawn(old(self)@, n) == 0),
            final(self)@ == advance(old(self)@),
    {
        self.below(n) == 0
    }

    /// Draws an index into a table of `len` entries, and moves to the next
    /// state.
    pub fn index(&mut self, len: usize) -> (r: usize)
        requires
            len > 0,
        ensures
            r == drawn(old(self)@, len as u64),
            r < len,
            final(self)@ == advance(old(self)@),
    {
        self.below(len as u64) as usize
    }
}

} // verus!
