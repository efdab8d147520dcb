use vstd::prelude::*;

verus! {

/// The CHIP-8 register file.
///
/// `v` holds the sixteen general-purpose registers V0..VF; VF doubles as the
/// flag output of several instructions. `i` is the address register, `pc` the
/// program counter, `sp` the stack pointer (0 means that the stack is empty),
/// `dt` and `st` the delay and sound timers.
pub struct Registers {
    pub v: [u8; 16],
    pub i: u16,
    pub pc: u16,
    pub sp: u8,
    pub dt: u8,
    pub st: u8,
}

} // verus!
