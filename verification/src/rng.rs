//! A minimal deterministic pseudo-random bit stream.
//!
//! One 32-bit register: each draw mixes the caller's value in by xor,
//! rotates the register right by one bit, and hands back the low bit.
//! The stream is a pure function of the initial register value and the
//! sequence of mix values, so grid fills that use it are reproducible.

use vstd::prelude::*;

verus! {

/// The register value after one draw with mix value `mix`:
/// xor `mix` in, then rotate right by one bit.
pub open spec fn rng_next_state(s: u32, mix: u32) -> u32 {
    ((s ^ mix) << 31u32) | ((s ^ mix) >> 1u32)
}

/// The bit handed back by a draw with mix value `mix`.
pub open spec fn rng_next_bit(s: u32, mix: u32) -> bool {
    rng_next_state(s, mix) & 1u32 == 1u32
}

/// A deterministic bit generator owned by whoever needs reproducible bits;
/// there is no ambient process-wide state.
pub struct Rng {
    pub state: u32,
}

impl Rng {
    /// A generator whose register starts at `seed`.
    pub fn new(seed: u32) -> (r: Rng)
        ensures
            r.state == seed,
    {
        Rng { state: seed }
    }

    /// Draw one bit: mix, rotate, return the low bit of the new register.
    pub fn next(&mut self, mix: u32) -> (r: bool)
        ensures
            final(self).state == rng_next_state(old(self).state, mix),
            r == rng_next_bit(old(self).state, mix),
    {
        self.state = self.state ^ mix;
        self.state = (self.state << 31u32) | (self.state >> 1u32);
        (self.state & 1u32) == 1u32
    }
}

} // verus!
