use vstd::prelude::*;
use crate::driver::batch_spec;
use crate::driver::press_spec;
use crate::driver::step_report;
use crate::driver::step_spec;
use crate::driver::ticked_times;
use crate::emu::Machine;
use crate::instructions::Fault;
use crate::instructions::execute_report;
use crate::instructions::execute_spec;
use crate::instructions::family;
use crate::instructions::kk_field;
use crate::instructions::lemma_cell_coordinates;
use crate::instructions::lemma_cell_unique;
use crate::instructions::n_field;
use crate::instructions::opcode_at;
use crate::instructions::spec_op_f;
use crate::instructions::sprite_bit;
use crate::instructions::sprite_cell;
use crate::instructions::sprite_lit;
use crate::instructions::x_field;
use crate::instructions::y_field;

verus! {

/// Every instruction keeps a well-formed machine well-formed: the sizes
/// stay, the stack pointer stays below the stack's capacity, and a latch
/// names a register.
pub proof fn law_execute_keeps_wf(m: Machine, opcode: u16, random: u8)
    requires
        m.wf(),
    ensures
        execute_spec(m, opcode, random).wf(),
{
}

/// Only `Cxkk` looks at the random byte: every other instruction has the
/// same effect whatever the random source would give.
pub proof fn law_random_matters_only_to_rnd(m: Machine, opcode: u16, first: u8, second: u8)
    requires
        family(opcode) != 0xC,
    ensures
        execute_spec(m, opcode, first) == execute_spec(m, opcode, second),
{
}

/// An instruction that reports a condition (an unknown opcode, a refused
/// call, a refused return) leaves the machine as it was.
pub proof fn law_report_changes_nothing(m: Machine, opcode: u16, random: u8)
    requires
        m.wf(),
        execute_report(m, opcode) is Err,
    ensures
        execute_spec(m, opcode, random) == m,
{
}

/// Loading `kk` into Vx (`6xkk`) and then adding `kk2` to it (`7xkk`)
/// leaves their sum modulo 256 in Vx and every other register, VF among
/// them, as it was.
pub proof fn law_load_then_add(m: Machine, load: u16, add: u16, random: u8)
    requires
        m.wf(),
        family(load) == 0x6,
        family(add) == 0x7,
        x_field(load) == x_field(add),
    ensures
        ({
            let x = x_field(load);
            let after = execute_spec(execute_spec(m, load, random), add, random);
            &&& after.v[x] == (kk_field(load) + kk_field(add)) % 256
            &&& (forall|j: int| 0 <= j < 16 && j != x ==> after.v[j] == m.v[j])
            &&& after == (Machine { v: after.v, ..m })
        }),
{
}

/// `8xy4` sets VF to 1 exactly when Vx + Vy does not fit in eight bits, else
/// to 0, and leaves the sum modulo 256 in Vx (where Vx is not VF itself).
pub proof fn law_add_sets_carry(m: Machine, opcode: u16, random: u8)
    requires
        m.wf(),
        family(opcode) == 0x8,
        n_field(opcode) == 0x4,
    ensures
        ({
            let x = x_field(opcode);
            let y = y_field(opcode);
            let after = execute_spec(m, opcode, random);
            &&& after.v[15] == (if m.v[x] + m.v[y] >= 256 { 1u8 } else { 0u8 })
            &&& x != 15 ==> after.v[x] == (m.v[x] + m.v[y]) % 256
        }),
{
}

/// `8xy5` sets VF to 1 exactly when Vx is at least Vy before the
/// subtraction, else to 0, and leaves the difference modulo 256 in Vx (where
/// Vx is not VF itself).
pub proof fn law_sub_sets_no_borrow(m: Machine, opcode: u16, random: u8)
    requires
        m.wf(),
        family(opcode) == 0x8,
        n_field(opcode) == 0x5,
    ensures
        ({
            let x = x_field(opcode);
            let y = y_field(opcode);
            let after = execute_spec(m, opcode, random);
            &&& after.v[15] == (if m.v[x] >= m.v[y] { 1u8 } else { 0u8 })
            &&& x != 15 ==> after.v[x] == (m.v[x] - m.v[y]) % 256
        }),
{
}

/// `Fx33` writes the hundreds, tens and ones of Vx at I, I + 1 and I + 2:
/// three decimal digits whose value is Vx. Nothing else in memory changes.
/// The three addresses are taken to lie within memory.
pub proof fn law_decimal_digits(m: Machine, opcode: u16, random: u8)
    requires
        m.wf(),
        family(opcode) == 0xF,
        kk_field(opcode) == 0x33,
        m.i + 2 < 4096,
    ensures
        ({
            let vx = m.v[x_field(opcode)];
            let after = execute_spec(m, opcode, random);
            let i = m.i as int;
            &&& after.memory[i] == vx / 100
            &&& after.memory[i + 1] == (vx / 10) % 10
            &&& after.memory[i + 2] == vx % 10
            &&& after.memory[i] <= 2 && after.memory[i + 1] <= 9 && after.memory[i + 2] <= 9
            &&& after.memory[i] * 100 + after.memory[i + 1] * 10 + after.memory[i + 2] == vx
            &&& (forall|a: int| 0 <= a < 4096 && !(i <= a <= i + 2) ==> after.memory[a] == m.memory[a])
            &&& after == (Machine { memory: after.memory, ..m })
        }),
{
}

/// Bit `bit` of sprite row `row` lands on column (Vx + bit) modulo 64 of
/// display row (Vy + row) modulo 32, and the sprite covers that cell with a
/// set bit exactly when the bit is set in the row's byte. No other cell is
/// covered: every covered cell is the cell of one bit of one row.
pub proof fn law_sprite_wraps(memory: Seq<u8>, i: u16, vx: u8, vy: u8, n: int, row: int, bit: int, p: int)
    requires
        0 <= row < n < 16,
        0 <= bit < 8,
        0 <= p < 2048,
    ensures
        sprite_cell(vx, vy, row, bit) == ((vy + row) % 32) * 64 + (vx + bit) % 64,
        sprite_lit(memory, i, vx, vy, n, sprite_cell(vx, vy, row, bit)) == sprite_bit(
            memory[(i + row) % 4096],
            bit,
        ),
        sprite_lit(memory, i, vx, vy, n, p) ==> (exists|r: int, b: int|
            0 <= r < n && 0 <= b < 8 && p == #[trigger] sprite_cell(vx, vy, r, b)),
{
    lemma_cell_coordinates(vx, vy, row, bit);
    lemma_cell_unique(vx, vy, p);
    if sprite_lit(memory, i, vx, vy, n, p) {
        let r = (p / 64 - vy) % 32;
        let b = (p % 64 - vx) % 64;
        assert(0 <= r < n && 0 <= b < 8 && p == sprite_cell(vx, vy, r, b));
    }
}

/// Drawing the same sprite twice at the same place restores the display,
/// and the second draw reports a collision exactly when the sprite has a
/// set bit on a cell that was dark before the first draw, which is a cell
/// that the first draw lit. The coordinates must not come from VF, which
/// the first draw overwrites.
pub proof fn law_draw_twice_restores(m: Machine, opcode: u16, random: u8)
    requires
        m.wf(),
        family(opcode) == 0xD,
        x_field(opcode) != 15,
        y_field(opcode) != 15,
    ensures
        ({
            let vx = m.v[x_field(opcode)];
            let vy = m.v[y_field(opcode)];
            let n = n_field(opcode);
            let once = execute_spec(m, opcode, random);
            let twice = execute_spec(once, opcode, random);
            &&& twice.display == m.display
            &&& twice == (Machine { v: twice.v, ..m })
            &&& (forall|p: int|
                0 <= p < 2048 && #[trigger] sprite_lit(m.memory, m.i, vx, vy, n, p) ==> once.display[p]
                    != m.display[p])
            &&& (twice.v[15] == 1 <==> (exists|p: int|
                0 <= p < 2048 && once.display[p] && #[trigger] sprite_lit(m.memory, m.i, vx, vy, n, p)))
            &&& (twice.v[15] == 1 <==> (exists|p: int|
                0 <= p < 2048 && !m.display[p] && #[trigger] sprite_lit(m.memory, m.i, vx, vy, n, p)))
            &&& (twice.v[15] == 0 || twice.v[15] == 1)
        }),
{
    let vx = m.v[x_field(opcode)];
    let vy = m.v[y_field(opcode)];
    let n = n_field(opcode);
    let once = execute_spec(m, opcode, random);
    let twice = execute_spec(once, opcode, random);
    assert(once.v[x_field(opcode)] == vx);
    assert(once.v[y_field(opcode)] == vy);
    assert(twice.display =~= m.display);
    if exists|p: int| 0 <= p < 2048 && once.display[p] && #[trigger] sprite_lit(m.memory, m.i, vx, vy, n, p) {
        let p = choose|p: int| 0 <= p < 2048 && once.display[p] && #[trigger] sprite_lit(m.memory, m.i, vx, vy, n, p);
        assert(!m.display[p] && sprite_lit(m.memory, m.i, vx, vy, n, p));
    }
    if exists|p: int| 0 <= p < 2048 && !m.display[p] && #[trigger] sprite_lit(m.memory, m.i, vx, vy, n, p) {
        let p = choose|p: int| 0 <= p < 2048 && !m.display[p] && #[trigger] sprite_lit(m.memory, m.i, vx, vy, n, p);
        assert(once.display[p] && sprite_lit(m.memory, m.i, vx, vy, n, p));
    }
}

/// A call (`2nnn`) that finds room on the stack, followed at once by a
/// return (`00EE`), brings the program counter back to where it stood right
/// after the call instruction and the stack pointer to its value before the
/// call; neither reports anything.
pub proof fn law_call_then_return(m: Machine, call: u16, random: u8)
    requires
        m.wf(),
        family(call) == 0x2,
        m.sp < 15,
    ensures
        ({
            let called = execute_spec(m, call, random);
            let returned = execute_spec(called, 0x00EE, random);
            &&& execute_report(m, call) is Ok
            &&& execute_report(called, 0x00EE) is Ok
            &&& called.sp == m.sp + 1
            &&& returned.pc == m.pc
            &&& returned.sp == m.sp
        }),
{
}

/// A call that finds the stack full is refused: it reports an overflow and
/// changes nothing, so the stack pointer stays at its greatest value.
pub proof fn law_call_on_full_stack(m: Machine, call: u16, random: u8)
    requires
        m.wf(),
        family(call) == 0x2,
        m.sp == 15,
    ensures
        execute_report(m, call) == Err::<(), Fault>(Fault::StackOverflow),
        execute_spec(m, call, random) == m,
{
}

/// While a key wait is pending, cycles change nothing and report nothing.
pub proof fn law_waiting_suspends(m: Machine, randoms: Seq<u8>)
    requires
        m.waiting_for_key.is_some(),
    ensures
        batch_spec(m, randoms) == m,
        step_report(m) is Ok,
    decreases randoms.len(),
{
    if randoms.len() > 0 {
        law_waiting_suspends(m, randoms.drop_last());
    }
}

/// `Fx0A` sets the latch to register `x` and changes nothing else but the
/// program counter, which it never moves up: it takes back the two bytes of
/// the fetch, and leaves a program counter below 2 where it is. No register
/// is written before a key arrives.
pub proof fn law_key_wait_never_advances(m: Machine, opcode: u16, random: u8)
    requires
        family(opcode) == 0xF,
        kk_field(opcode) == 0x0A,
    ensures
        ({
            let after = execute_spec(m, opcode, random);
            &&& after == (Machine { waiting_for_key: Some(x_field(opcode) as usize), pc: after.pc, ..m })
            &&& after.pc <= m.pc
            &&& m.pc >= 2 ==> after.pc == m.pc - 2
            &&& m.pc < 2 ==> after.pc == m.pc
            &&& execute_report(m, opcode) is Ok
        }),
{
    assert(execute_spec(m, opcode, random) == spec_op_f(m, opcode));
}

/// The cycle that executes `Fx0A` latches register `x` and leaves the
/// program counter on the instruction.
pub proof fn law_key_wait_latches(m: Machine, random: u8)
    requires
        m.wf(),
        m.waiting_for_key.is_none(),
        m.pc <= 4094,
        family(opcode_at(m)) == 0xF,
        kk_field(opcode_at(m)) == 0x0A,
    ensures
        step_spec(m, random) == (Machine { waiting_for_key: Some(x_field(opcode_at(m)) as usize), ..m }),
        step_report(m) is Ok,
{
    let fetched = m.skip();
    assert(fetched.pc == m.pc + 2);
    law_key_wait_never_advances(fetched, opcode_at(m), random);
    assert(step_spec(m, random) == execute_spec(fetched, opcode_at(m), random));
    assert(step_report(m) == execute_report(fetched, opcode_at(m)));
}

/// A key-down event on a machine that waits for a key puts the key's value
/// in the latched register, clears the latch, marks the key as held and
/// moves the program counter past the waiting instruction.
pub proof fn law_key_down_resumes(m: Machine, key: usize)
    requires
        m.wf(),
        m.waiting_for_key.is_some(),
        key < 16,
    ensures
        ({
            let x = m.waiting_for_key.unwrap() as int;
            let resumed = press_spec(m, key);
            &&& resumed.v[x] == key
            &&& resumed.pc == (m.pc + 2) % 0x10000
            &&& resumed.waiting_for_key.is_none()
            &&& resumed.keys[key as int]
            &&& resumed.wf()
        }),
{
}

/// The whole key wait: the cycle that executes `Fx0A` suspends the machine
/// with the program counter on the instruction; any number of cycles later
/// nothing has changed; a key-down event then puts the key's value in Vx
/// and moves the program counter past the instruction.
pub proof fn law_key_wait(m: Machine, random: u8, randoms: Seq<u8>, key: usize)
    requires
        m.wf(),
        m.waiting_for_key.is_none(),
        m.pc <= 4094,
        family(opcode_at(m)) == 0xF,
        kk_field(opcode_at(m)) == 0x0A,
        key < 16,
    ensures
        ({
            let x = x_field(opcode_at(m));
            let waiting = step_spec(m, random);
            let resumed = press_spec(batch_spec(waiting, randoms), key);
            &&& waiting.pc == m.pc
            &&& waiting.waiting_for_key == Some(x as usize)
            &&& batch_spec(waiting, randoms) == waiting
            &&& resumed.v[x] == key
            &&& resumed.pc == m.pc + 2
            &&& resumed.waiting_for_key.is_none()
        }),
{
    law_key_wait_latches(m, random);
    let waiting = step_spec(m, random);
    law_waiting_suspends(waiting, randoms);
    law_key_down_resumes(waiting, key);
}

/// A timer that is ticked `count` times has gone down by `count`, but
/// never below zero, where it stays.
pub proof fn law_timer_counts_down(timer: u8, count: nat)
    ensures
        ticked_times(timer, count) == (if timer >= count { timer - count } else { 0 }),
    decreases count,
{
    if count > 0 {
        law_timer_counts_down(timer, (count - 1) as nat);
    }
}

} // verus!
