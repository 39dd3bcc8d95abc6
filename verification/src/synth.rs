//! Noise source of the drum synth.

use vstd::prelude::*;

verus! {

/// One xorshift32 step (shifts 13, 17, 5).
pub open spec fn xorshift(x: u32) -> u32 {
    let a = x ^ (x << 13u32);
    let b = a ^ (a >> 17u32);
    b ^ (b << 5u32)
}

/// Simple xorshift noise source; deterministic and allocation-free.
#[derive(Debug, Clone, Copy)]
pub struct Noise(pub u32);

impl Noise {
    /// The fixed seed every voice starts from.
    pub fn new() -> (n: Self)
        ensures
            n.0 == 0x9E37_79B9u32,
    {
        Noise(0x9E37_79B9)
    }

    /// Advance the generator and return its new state; the synth scales it
    /// to a sample in [-1, 1].
    pub fn next_bits(&mut self) -> (x: u32)
        ensures
            x == xorshift(old(self).0),
            final(self).0 == x,
    {
        let mut x = self.0;
        x = x ^ (x << 13u32);
        x = x ^ (x >> 17u32);
        x = x ^ (x << 5u32);
        self.0 = x;
        x
    }
}

} // verus!
