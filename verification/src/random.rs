//! A seedable source of random numbers.
//!
//! Sampling takes its source as an argument, so that a schedule can be
//! replayed: the same seed gives the same draws, on every machine.

use vstd::prelude::*;

verus! {

/// Multiplier of the generator's recurrence.
pub const MULTIPLIER: u64 = 6364136223846793005;

/// Increment of the generator's recurrence.
pub const INCREMENT: u64 = 1442695040888963407;

/// The state that follows `state`: a linear congruential step modulo 2^64.
pub open spec fn next_state(state: nat) -> nat {
    ((state * MULTIPLIER + INCREMENT) % 0x1_0000_0000_0000_0000) as nat
}

/// The number drawn when the generator leaves `state`: the upper half of the
/// state that follows.
pub open spec fn draw_of(state: nat) -> nat {
    next_state(state) / 0x1_0000_0000
}

/// A linear congruential generator with 64 bits of state.
#[derive(Clone, Copy, Debug, PartialEq, Eq)]
pub struct RandomSource {
    state: u64,
}

impl View for RandomSource {
    type V = nat;

    closed spec fn view(&self) -> nat {
        self.state as nat
    }
}

impl RandomSource {
    /// The source whose state is `seed`.
    pub fn new(seed: u64) -> (r: RandomSource)
        ensures
            r@ == seed,
    {
        RandomSource { state: seed }
    }

    /// The state, from which the source can be made again.
    pub fn state(&self) -> (s: u64)
        ensures
            s == self@,
    {
        self.state
    }

    /// Draws a number below 2^32 and moves to the next state.
    pub fn next_u32(&mut self) -> (draw: u32)
        ensures
            final(self)@ == next_state(old(self)@),
            draw == draw_of(old(self)@),
    {
        assert(self.state * MULTIPLIER <= 0xffff_ffff_ffff_ffff * MULTIPLIER) by (nonlinear_arith)
            requires
                0 <= self.state <= 0xffff_ffff_ffff_ffff,
                MULTIPLIER >= 0,
        ;
        let wide: u128 = (self.state as u128) * (MULTIPLIER as u128) + (INCREMENT as u128);
        let next: u128 = wide % 0x1_0000_0000_0000_0000;
        self.state = next as u64;
        (next / 0x1_0000_0000) as u32
    }
}

} // verus!
