use vstd::prelude::*;
use crate::emu::Emu;
use crate::emu::Machine;
use crate::instructions::Fault;
use crate::instructions::execute;
use crate::instructions::execute_report;
use crate::instructions::execute_spec;
use crate::instructions::fetch_opcode;
use crate::instructions::opcode_at;

verus! {

/// How many instructions one frame executes.
pub const CYCLES_PER_FRAME: usize = 50;

/// The keypad key that a keyboard key stands for, by the key's code (for a
/// printable key, the code of its unshifted character). The keyboard block
/// `1234 / qwer / asdf / zxcv` is laid out as the keypad `123C / 456D /
/// 789E / A0BF`.
pub open spec fn keypad_of(keycode: i32) -> Option<usize> {
    if keycode == 0x31 {
        Some(0x1usize)
    } else if keycode == 0x32 {
        Some(0x2usize)
    } else if keycode == 0x33 {
        Some(0x3usize)
    } else if keycode == 0x34 {
        Some(0xCusize)
    } else if keycode == 0x71 {
        Some(0x4usize)
    } else if keycode == 0x77 {
        Some(0x5usize)
    } else if keycode == 0x65 {
        Some(0x6usize)
    } else if keycode == 0x72 {
        Some(0xDusize)
    } else if keycode == 0x61 {
        Some(0x7usize)
    } else if keycode == 0x73 {
        Some(0x8usize)
    } else if keycode == 0x64 {
        Some(0x9usize)
    } else if keycode == 0x66 {
        Some(0xEusize)
    } else if keycode == 0x7A {
        Some(0xAusize)
    } else if keycode == 0x78 {
        Some(0x0usize)
    } else if keycode == 0x63 {
        Some(0xBusize)
    } else if keycode == 0x76 {
        Some(0xFusize)
    } else {
        None
    }
}

/// Maps the code of a keyboard key to the keypad key it stands for, if any.
pub fn map_to_chip8(keycode: i32) -> (key: Option<usize>)
    ensures
        key == keypad_of(keycode),
        key matches Some(k) ==> k < 16,
{
    match keycode {
        0x31 => Some(0x1),
        0x32 => Some(0x2),
        0x33 => Some(0x3),
        0x34 => Some(0xC),
        0x71 => Some(0x4),
        0x77 => Some(0x5),
        0x65 => Some(0x6),
        0x72 => Some(0xD),
        0x61 => Some(0x7),
        0x73 => Some(0x8),
        0x64 => Some(0x9),
        0x66 => Some(0xE),
        0x7A => Some(0xA),
        0x78 => Some(0x0),
        0x63 => Some(0xB),
        0x76 => Some(0xF),
        _ => None,
    }
}

/// The effect of a key-down event: the key is marked as held, and a pending
/// key wait is resolved: its register receives the key's value, the latch is
/// cleared, and the program counter moves past the waiting instruction. A
/// value that names no key changes nothing.
pub open spec fn press_spec(m: Machine, key: usize) -> Machine {
    if key >= 16 {
        m
    } else {
        let held = Machine { keys: m.keys.update(key as int, true), ..m };
        match m.waiting_for_key {
            Some(x) => Machine { v: m.v.update(x as int, key as u8), waiting_for_key: None, ..held }.skip(),
            None => held,
        }
    }
}

/// Delivers a key-down event for keypad key `key`.
pub fn press_key(emu: &mut Emu, key: usize)
    requires
        old(emu).wf(),
    ensures
        final(emu)@ == press_spec(old(emu)@, key),
        final(emu).wf(),
{
    if key >= 16 {
        return ;
    }
    emu.keys[key] = true;
    if let Some(vx_index) = emu.waiting_for_key {
        emu.registers.v[vx_index] = key as u8;
        emu.waiting_for_key = None;
        emu.registers.pc = ((emu.registers.pc as u32 + 2) % 0x10000) as u16;
    }
}

/// Delivers a key-up event for keypad key `key`: the key is no longer held.
/// A value that names no key changes nothing.
pub fn release_key(emu: &mut Emu, key: usize)
    ensures
        final(emu)@ == (if key < 16 {
            Machine { keys: old(emu)@.keys.update(key as int, false), ..old(emu)@ }
        } else {
            old(emu)@
        }),
{
    if key < 16 {
        emu.keys[key] = false;
    }
}

/// A timer after one tick: one less, and never below zero.
pub open spec fn ticked(timer: u8) -> u8 {
    if timer > 0 {
        (timer - 1) as u8
    } else {
        0
    }
}

/// The machine after both timers ticked once.
pub open spec fn tick_spec(m: Machine) -> Machine {
    Machine { dt: ticked(m.dt), st: ticked(m.st), ..m }
}

/// A timer after `count` ticks.
pub open spec fn ticked_times(timer: u8, count: nat) -> u8
    decreases count,
{
    if count == 0 {
        timer
    } else {
        ticked(ticked_times(timer, (count - 1) as nat))
    }
}

/// One tick of the fixed-rate clock: both timers count down by one unless
/// they are at zero.
pub fn tick_timers(emu: &mut Emu)
    ensures
        final(emu)@ == tick_spec(old(emu)@),
{
    if emu.registers.dt > 0 {
        emu.registers.dt -= 1;
    }
    if emu.registers.st > 0 {
        emu.registers.st -= 1;
    }
}

/// One fetch-decode-execute cycle, where the random source would give
/// `random`: nothing while a key wait is pending or while the program
/// counter points where no whole opcode can be read.
pub open spec fn step_spec(m: Machine, random: u8) -> Machine {
    if m.waiting_for_key.is_some() || m.pc > 4094 {
        m
    } else {
        execute_spec(m.skip(), opcode_at(m), random)
    }
}

/// What one cycle reports.
pub open spec fn step_report(m: Machine) -> Result<(), Fault> {
    if m.waiting_for_key.is_some() {
        Ok(())
    } else if m.pc > 4094 {
        Err(Fault::FetchOutOfRange(m.pc))
    } else {
        execute_report(m.skip(), opcode_at(m))
    }
}

/// Whether a fault ends the run.
pub open spec fn is_fatal(fault: Fault) -> bool {
    fault is FetchOutOfRange
}

/// Runs one fetch-decode-execute cycle, unless a key wait is pending.
pub fn step(emu: &mut Emu) -> (res: Result<(), Fault>)
    requires
        old(emu).wf(),
    ensures
        final(emu).wf(),
        exists|random: u8| final(emu)@ == step_spec(old(emu)@, random),
        res == step_report(old(emu)@),
{
    if emu.waiting_for_key.is_some() {
        assert(emu@ == step_spec(old(emu)@, 0));
        return Ok(());
    }
    if emu.registers.pc > 4094 {
        assert(emu@ == step_spec(old(emu)@, 0));
        return Err(Fault::FetchOutOfRange(emu.registers.pc));
    }
    let opcode = fetch_opcode(emu);
    let ghost fetched = emu@;
    let res = execute(emu, opcode);
    proof {
        let random = choose|random: u8| emu@ == execute_spec(fetched, opcode, random);
        assert(emu@ == step_spec(old(emu)@, random));
    }
    res
}

/// The machine after one cycle for each byte of `randoms`, in order.
pub open spec fn batch_spec(m: Machine, randoms: Seq<u8>) -> Machine
    decreases randoms.len(),
{
    if randoms.len() == 0 {
        m
    } else {
        step_spec(batch_spec(m, randoms.drop_last()), randoms.last())
    }
}

/// Whether a list of reports ends in one that stops the run.
pub open spec fn halted(faults: Seq<Fault>) -> bool {
    faults.len() > 0 && is_fatal(faults.last())
}

/// What those cycles report, in order; nothing follows a fatal report.
pub open spec fn batch_faults(m: Machine, randoms: Seq<u8>) -> Seq<Fault>
    decreases randoms.len(),
{
    if randoms.len() == 0 {
        Seq::empty()
    } else {
        let earlier = batch_faults(m, randoms.drop_last());
        if halted(earlier) {
            earlier
        } else {
            match step_report(batch_spec(m, randoms.drop_last())) {
                Ok(_) => earlier,
                Err(fault) => earlier.push(fault),
            }
        }
    }
}

/// Runs up to `cycles` cycles and returns what they reported, in order. The
/// batch stops early only on a fatal report, which is then the last one.
/// While a key wait is pending no instruction is executed.
pub fn run_batch(emu: &mut Emu, cycles: usize) -> (faults: Vec<Fault>)
    requires
        old(emu).wf(),
    ensures
        final(emu).wf(),
        exists|randoms: Seq<u8>|
            {
                &&& randoms.len() <= cycles
                &&& final(emu)@ == #[trigger] batch_spec(old(emu)@, randoms)
                &&& faults@ == batch_faults(old(emu)@, randoms)
                &&& (randoms.len() == cycles || halted(faults@))
            },
        old(emu)@.waiting_for_key.is_some() ==> final(emu)@ == old(emu)@ && faults@.len() == 0,
{
    let mut faults: Vec<Fault> = Vec::new();
    let ghost mut randoms: Seq<u8> = Seq::empty();
    let mut count: usize = 0;
    while count < cycles
        invariant
            count <= cycles,
            emu.wf(),
            randoms.len() == count,
            emu@ == batch_spec(old(emu)@, randoms),
            faults@ == batch_faults(old(emu)@, randoms),
            !halted(faults@),
            old(emu)@.waiting_for_key.is_some() ==> emu@ == old(emu)@ && faults@.len() == 0,
        decreases cycles - count,
    {
        let ghost entry = emu@;
        let res = step(emu);
        proof {
            let random = choose|random: u8| emu@ == step_spec(entry, random);
            assert(randoms.push(random).drop_last() =~= randoms);
            randoms = randoms.push(random);
        }
        count += 1;
        if let Err(fault) = res {
            faults.push(fault);
            if let Fault::FetchOutOfRange(_) = fault {
                return faults;
            }
        }
    }
    faults
}

/// One frame of the driver, between draining the key events and handing out
/// the display: while a key wait is pending nothing happens; otherwise one
/// batch of `CYCLES_PER_FRAME` cycles runs and then, if `timer_due` says
/// that the timer interval has elapsed, both timers tick. Returns what the
/// batch reported; a fatal report, if any, is the last and ends the run.
pub fn run_frame(emu: &mut Emu, timer_due: bool) -> (faults: Vec<Fault>)
    requires
        old(emu).wf(),
    ensures
        final(emu).wf(),
        old(emu)@.waiting_for_key.is_some() ==> final(emu)@ == old(emu)@ && faults@.len() == 0,
        old(emu)@.waiting_for_key.is_none() ==> exists|randoms: Seq<u8>|
            {
                &&& randoms.len() <= CYCLES_PER_FRAME
                &&& final(emu)@ == (if timer_due {
                    tick_spec(#[trigger] batch_spec(old(emu)@, randoms))
                } else {
                    batch_spec(old(emu)@, randoms)
                })
                &&& faults@ == batch_faults(old(emu)@, randoms)
                &&& (randoms.len() == CYCLES_PER_FRAME || halted(faults@))
            },
{
    if emu.waiting_for_key.is_some() {
        return Vec::new();
    }
    let faults = run_batch(emu, CYCLES_PER_FRAME);
    let ghost ran = emu@;
    if timer_due {
        tick_timers(emu);
    }
    proof {
        let randoms = choose|randoms: Seq<u8>|
            {
                &&& randoms.len() <= CYCLES_PER_FRAME
                &&& ran == #[trigger] batch_spec(old(emu)@, randoms)
                &&& faults@ == batch_faults(old(emu)@, randoms)
                &&& (randoms.len() == CYCLES_PER_FRAME || halted(faults@))
            };
        assert(emu@ == (if timer_due {
            tick_spec(batch_spec(old(emu)@, randoms))
        } else {
            batch_spec(old(emu)@, randoms)
        }));
    }
    faults
}

} // verus!
