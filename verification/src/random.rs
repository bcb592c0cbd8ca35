//! A seeded source of balance ratios.

use vstd::prelude::*;

verus! {

/// The state that follows `state`.
pub open spec fn advance(state: u64) -> u64 {
    ((state as int * 6364136223846793005 + 1442695040888963407) % 0x1_0000_0000_0000_0000) as u64
}

/// The ratio that a state yields: a percentage from 0 to 100.
pub open spec fn ratio_of(state: u64) -> u8 {
    ((state as int / 0x1_0000_0000) % 101) as u8
}

/// The state reached from `seed` after `n` draws.
pub open spec fn state_after(seed: u64, n: nat) -> u64
    decreases n,
{
    if n == 0 {
        seed
    } else {
        advance(state_after(seed, (n - 1) as nat))
    }
}

/// The ratio of draw number `n`, counting from zero, of a source seeded
/// with `seed`.
pub open spec fn nth_ratio(seed: u64, n: nat) -> u8 {
    ratio_of(state_after(seed, n + 1))
}

/// The number below `bound` that a state yields; `bound` must be positive.
pub open spec fn below_of(state: u64, bound: u32) -> u32 {
    ((state as int / 0x1_0000_0000) % (bound as int)) as u32
}

/// One more draw advances the state once.
pub proof fn lemma_state_step(seed: u64, n: nat)
    ensures
        state_after(seed, n + 1) == advance(state_after(seed, n)),
{
}

/// A deterministic generator of percentages. Two sources made from the same
/// seed yield the same ratios in the same order.
#[derive(Clone, Copy, Debug)]
pub struct RandomSource {
    state: u64,
}

impl View for RandomSource {
    type V = u64;

    closed spec fn view(&self) -> u64 {
        self.state
    }
}

impl RandomSource {
    /// A source that starts from `seed`.
    pub fn new(seed: u64) -> (source: RandomSource)
        ensures
            source@ == seed,
    {
        RandomSource { state: seed }
    }

    /// Draws the next ratio, between 0 and 100 inclusive.
    pub fn next_ratio(&mut self) -> (ratio: u8)
        ensures
            final(self)@ == advance(old(self)@),
            ratio == ratio_of(final(self)@),
            ratio <= 100,
    {
        let wide: u128 = self.state as u128 * 6364136223846793005u128 + 1442695040888963407u128;
        let next: u64 = (wide % 0x1_0000_0000_0000_0000u128) as u64;
        self.state = next;
        ((next / 0x1_0000_0000u64) % 101) as u8
    }

    /// Draws the next number below `bound`.
    pub fn next_below(&mut self, bound: u32) -> (number: u32)
        requires
            bound > 0,
        ensures
            final(self)@ == advance(old(self)@),
            number == below_of(final(self)@, bound),
            number < bound,
    {
        let wide: u128 = self.state as u128 * 6364136223846793005u128 + 1442695040888963407u128;
        let next: u64 = (wide % 0x1_0000_0000_0000_0000u128) as u64;
        self.state = next;
        ((next / 0x1_0000_0000u64) % (bound as u64)) as u32
    }
}

} // verus!
