//! The random-byte capability the CPU draws from, and a small deterministic
//! xorshift generator implementing it.

use vstd::prelude::*;

verus! {

/// A byte-producing capability. The CPU draws exactly one byte per `Random`
/// opcode and never seeds the source; nothing is promised of the value.
pub trait RandomSource {
    /// Produce one byte.
    fn next_byte(&mut self) -> u8;
}

/// One step of the 32-bit xorshift generator.
pub open spec fn xorshift_step(x: u32) -> u32 {
    let a = x ^ (x << 13);
    let b = a ^ (a >> 17);
    b ^ (b << 5)
}

/// A small deterministic xorshift generator; handy for hosts without an
/// entropy source and for reproducible runs.
pub struct RandomGen {
    /// The generator state; seed it with any value.
    pub state: u32,
}

impl RandomGen {
    /// Advance the state by one xorshift step and return its low byte.
    pub fn step(&mut self) -> (b: u8)
        ensures
            final(self).state == xorshift_step(old(self).state),
            b == (xorshift_step(old(self).state) & 0xFF) as u8,
    {
        let mut x = self.state;
        x = x ^ (x << 13);
        x = x ^ (x >> 17);
        x = x ^ (x << 5);
        self.state = x;
        (x & 0xFF) as u8
    }
}

impl RandomSource for RandomGen {
    fn next_byte(&mut self) -> u8 {
        self.step()
    }
}

} // verus!
