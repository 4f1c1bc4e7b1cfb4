//! The registers of the sound chip.

use vstd::prelude::*;

verus! {

/// The sound chip, as far as it goes: fifteen registers.
pub struct Apu {
    pub reg: [u8; 15],
}

impl Apu {
    /// A chip with every register at zero.
    pub fn new() -> (apu: Apu)
        ensures
            forall|i: int| 0 <= i < 15 ==> apu.reg@[i] == 0,
    {
        Apu { reg: [0; 15] }
    }

    /// Resets the chip. No register changes yet.
    pub fn reset(&mut self)
        ensures
            *final(self) == *old(self),
    {
    }

    /// Writes `value` to the register at `address`. No register takes a
    /// value yet.
    pub fn write_register(&mut self, address: u16, value: u8)
        ensures
            *final(self) == *old(self),
    {
    }
}

} // verus!
