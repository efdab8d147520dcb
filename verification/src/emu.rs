use vstd::prelude::*;
use crate::registers::Registers;

verus! {

pub const SCREEN_WIDTH: usize = 64;
pub const SCREEN_HEIGHT: usize = 32;
pub const RAM_SIZE: usize = 4096;
pub const STACK_SIZE: usize = 16;
pub const START_ADDR: u16 = 0x200;

/// The built-in hexadecimal font: sixteen glyphs of five bytes each.
pub const FONTSET: [u8; 80] = [
    0xF0, 0x90, 0x90, 0x90, 0xF0,
    0x20, 0x60, 0x20, 0x20, 0x70,
    0xF0, 0x10, 0xF0, 0x80, 0xF0,
    0xF0, 0x10, 0xF0, 0x10, 0xF0,
    0x90, 0x90, 0xF0, 0x10, 0x10,
    0xF0, 0x80, 0xF0, 0x10, 0xF0,
    0xF0, 0x80, 0xF0, 0x80, 0xF0,
    0xF0, 0x10, 0x20, 0x40, 0x40,
    0xF0, 0x90, 0xF0, 0x90, 0xF0,
    0xF0, 0x90, 0xF0, 0x10, 0xF0,
    0xF0, 0x90, 0xF0, 0x90, 0x90,
    0xE0, 0x90, 0xE0, 0x90, 0xE0,
    0xF0, 0x80, 0x80, 0x80, 0xF0,
    0xE0, 0x90, 0x90, 0x90, 0xE0,
    0xF0, 0x80, 0xF0, 0x80, 0xF0,
    0xF0, 0x80, 0xF0, 0x80, 0x80,
];

/// The whole machine state.
pub struct Emu {
    pub registers: Registers,
    pub memory: [u8; 4096],
    pub display: [bool; 2048],
    pub stack: [u16; 16],
    pub keys: [bool; 16],
    pub waiting_for_key: Option<usize>,
}

/// The mathematical model of a machine state.
pub struct Machine {
    pub v: Seq<u8>,
    pub i: u16,
    pub pc: u16,
    pub sp: u8,
    pub dt: u8,
    pub st: u8,
    pub memory: Seq<u8>,
    pub display: Seq<bool>,
    pub stack: Seq<u16>,
    pub keys: Seq<bool>,
    pub waiting_for_key: Option<usize>,
}

impl View for Emu {
    type V = Machine;

    open spec fn view(&self) -> Machine {
        Machine {
            v: self.registers.v@,
            i: self.registers.i,
            pc: self.registers.pc,
            sp: self.registers.sp,
            dt: self.registers.dt,
            st: self.registers.st,
            memory: self.memory@,
            display: self.display@,
            stack: self.stack@,
            keys: self.keys@,
            waiting_for_key: self.waiting_for_key,
        }
    }
}

impl Machine {
    /// The sequences have the machine's fixed sizes, the stack pointer stays
    /// below the stack's capacity, and a key-wait latch names a register.
    pub open spec fn wf(self) -> bool {
        &&& self.v.len() == 16
        &&& self.memory.len() == 4096
        &&& self.display.len() == 2048
        &&& self.stack.len() == 16
        &&& self.keys.len() == 16
        &&& self.sp <= 15
        &&& (self.waiting_for_key matches Some(x) ==> x < 16)
    }

    /// The machine with register `x` set to `value`.
    pub open spec fn set_v(self, x: int, value: u8) -> Machine {
        Machine { v: self.v.update(x, value), ..self }
    }

    /// The machine with the byte at `addr` (taken modulo the memory size) set to `value`.
    pub open spec fn set_mem(self, addr: int, value: u8) -> Machine {
        Machine { memory: self.memory.update(addr % 4096, value), ..self }
    }

    /// The machine with the program counter moved past one more instruction.
    pub open spec fn skip(self) -> Machine {
        Machine { pc: ((self.pc + 2) % 0x10000) as u16, ..self }
    }

    /// The machine with the program counter moved back onto the instruction
    /// that was just fetched: two less, and unchanged where it is below 2,
    /// where no fetch can have left it. It never goes up.
    pub open spec fn rewind(self) -> Machine {
        Machine { pc: if self.pc >= 2 { (self.pc - 2) as u16 } else { self.pc }, ..self }
    }

    /// The machine with the program counter set to `addr`.
    pub open spec fn jump(self, addr: u16) -> Machine {
        Machine { pc: addr, ..self }
    }

    /// Whether key `key` is held down; a value that names no key is never down.
    pub open spec fn key_down(self, key: int) -> bool {
        0 <= key < 16 && self.keys[key]
    }
}

/// The state of a machine that has just been switched on.
pub open spec fn power_on() -> Machine {
    Machine {
        v: Seq::new(16, |k: int| 0u8),
        i: 0,
        pc: 0x200,
        sp: 0,
        dt: 0,
        st: 0,
        memory: Seq::new(4096, |a: int| if a < 80 { FONTSET@[a] } else { 0u8 }),
        display: Seq::new(2048, |p: int| false),
        stack: Seq::new(16, |k: int| 0u16),
        keys: Seq::new(16, |k: int| false),
        waiting_for_key: None,
    }
}

impl Emu {
    /// The invariant of a machine state that the array sizes do not already
    /// give: the stack pointer stays below the stack's capacity, and a
    /// key-wait latch names one of the sixteen registers.
    pub open spec fn wf(&self) -> bool {
        &&& self.registers.sp <= 15
        &&& (self.waiting_for_key matches Some(x) ==> x < 16)
    }

    /// Tests the invariant.
    pub fn is_wf(&self) -> (ok: bool)
        ensures
            ok == self.wf(),
    {
        self.registers.sp <= 15 && match self.waiting_for_key {
            Some(x) => x < 16,
            None => true,
        }
    }

    fn load_fonts(&mut self)
        ensures
            final(self)@ == (Machine {
                memory: Seq::new(4096, |a: int| if a < 80 { FONTSET@[a] } else { old(self).memory@[a] }),
                ..old(self)@
            }),
    {
        let mut k: usize = 0;
        while k < 80
            invariant
                k <= 80,
                self.registers == old(self).registers,
                self.display == old(self).display,
                self.stack == old(self).stack,
                self.keys == old(self).keys,
                self.waiting_for_key == old(self).waiting_for_key,
                forall|a: int| 0 <= a < k ==> self.memory@[a] == FONTSET@[a],
                forall|a: int| k <= a < 4096 ==> self.memory@[a] == old(self).memory@[a],
            decreases 80 - k,
        {
            self.memory[k] = FONTSET[k];
            k += 1;
        }
        assert(self@.memory =~= Seq::new(4096, |a: int| if a < 80 { FONTSET@[a] } else { old(self).memory@[a] }));
    }

    pub fn new() -> (emu: Emu)
        ensures
            emu@ == power_on(),
            emu.wf(),
    {
        let mut emu = Emu {
            registers: Registers { v: [0; 16], i: 0, pc: START_ADDR, sp: 0, dt: 0, st: 0 },
            memory: [0; 4096],
            display: [false; 2048],
            stack: [0; 16],
            keys: [false; 16],
            waiting_for_key: None,
        };
        emu.load_fonts();
        assert(emu@.v =~= power_on().v);
        assert(emu@.memory =~= power_on().memory);
        assert(emu@.display =~= power_on().display);
        assert(emu@.stack =~= power_on().stack);
        assert(emu@.keys =~= power_on().keys);
        emu
    }

    /// Copies a program image into memory from the start address on. An
    /// image that does not fit between the start address and the end of
    /// memory is refused and nothing is written.
    pub fn load_program(&mut self, program: &[u8]) -> (loaded: bool)
        ensures
            loaded == (program@.len() <= 4096 - 0x200),
            final(self)@ == (if loaded {
                Machine {
                    memory: Seq::new(
                        4096,
                        |a: int|
                            if 0x200 <= a < 0x200 + program@.len() {
                                program@[a - 0x200]
                            } else {
                                old(self).memory@[a]
                            },
                    ),
                    ..old(self)@
                }
            } else {
                old(self)@
            }),
    {
        let len = program.len();
        if len > 4096 - 0x200 {
            return false;
        }
        let mut k: usize = 0;
        while k < len
            invariant
                k <= len <= 4096 - 0x200,
                len == program@.len(),
                self@ == (Machine { memory: self@.memory, ..old(self)@ }),
                forall|a: int|
                    0 <= a < 4096 ==> self.memory@[a] == (if 0x200 <= a < 0x200 + k {
                        program@[a - 0x200]
                    } else {
                        old(self).memory@[a]
                    }),
            decreases len - k,
        {
            self.memory[0x200 + k] = program[k];
            k += 1;
        }
        assert(self@.memory =~= Seq::new(
            4096,
            |a: int|
                if 0x200 <= a < 0x200 + program@.len() {
                    program@[a - 0x200]
                } else {
                    old(self).memory@[a]
                },
        ));
        true
    }
}

} // verus!
