use vstd::prelude::*;
use crate::registers::Registers;

verus! {

/// The bare processor: the register file and the memory, without display,
/// stack or keypad.
pub struct Cpu {
    pub registers: Registers,
    pub memory: [u8; 4096],
}

impl Cpu {
    /// A processor with every register and every byte of memory at zero and
    /// the program counter at the start address.
    pub fn new() -> (cpu: Cpu)
        ensures
            cpu.registers.v@ == Seq::new(16, |k: int| 0u8),
            cpu.registers.i == 0,
            cpu.registers.pc == 0x200,
            cpu.registers.sp == 0,
            cpu.registers.dt == 0,
            cpu.registers.st == 0,
            cpu.memory@ == Seq::new(4096, |a: int| 0u8),
    {
        let cpu = Cpu {
            registers: Registers { v: [0; 16], i: 0, pc: 0x200, sp: 0, dt: 0, st: 0 },
            memory: [0; 4096],
        };
        assert(cpu.registers.v@ =~= Seq::new(16, |k: int| 0u8));
        assert(cpu.memory@ =~= Seq::new(4096, |a: int| 0u8));
        cpu
    }
}

} // verus!
