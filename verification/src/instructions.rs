use vstd::prelude::*;
use crate::emu::Emu;
use crate::emu::Machine;

verus! {

/// A condition that an instruction or the driver reports instead of acting.
#[derive(Clone, Copy, Debug, PartialEq, Eq, Structural)]
pub enum Fault {
    /// The opcode is none of the instruction set; the state was left as it was.
    UnknownOpcode(u16),
    /// A call found the stack full and was refused.
    StackOverflow,
    /// A return found the stack empty and was refused.
    StackUnderflow,
    /// The program counter points where no whole opcode can be read; the run must stop.
    FetchOutOfRange(u16),
}

/// The instruction family: the opcode's top four bits.
pub open spec fn family(opcode: u16) -> int {
    opcode as int / 0x1000
}

/// The register index `x`: bits 8 to 11 of the opcode.
pub open spec fn x_field(opcode: u16) -> int {
    (opcode as int / 0x100) % 16
}

/// The register index `y`: bits 4 to 7 of the opcode.
pub open spec fn y_field(opcode: u16) -> int {
    (opcode as int / 0x10) % 16
}

/// The low nibble `n` of the opcode.
pub open spec fn n_field(opcode: u16) -> int {
    opcode as int % 16
}

/// The low byte `kk` of the opcode.
pub open spec fn kk_field(opcode: u16) -> u8 {
    (opcode as int % 0x100) as u8
}

/// The twelve-bit address `nnn` of the opcode.
pub open spec fn nnn_field(opcode: u16) -> u16 {
    (opcode as int % 0x1000) as u16
}

fn family_of(opcode: u16) -> (f: usize)
    ensures
        f == family(opcode),
        f < 16,
{
    assert((opcode & 0xF000) >> 12 == opcode / 0x1000) by (bit_vector);
    ((opcode & 0xF000) >> 12) as usize
}

fn x_of(opcode: u16) -> (x: usize)
    ensures
        x == x_field(opcode),
        x < 16,
{
    assert((opcode & 0x0F00) >> 8 == (opcode / 0x100) % 16) by (bit_vector);
    ((opcode & 0x0F00) >> 8) as usize
}

fn y_of(opcode: u16) -> (y: usize)
    ensures
        y == y_field(opcode),
        y < 16,
{
    assert((opcode & 0x00F0) >> 4 == (opcode / 0x10) % 16) by (bit_vector);
    ((opcode & 0x00F0) >> 4) as usize
}

fn n_of(opcode: u16) -> (n: u16)
    ensures
        n == n_field(opcode),
        n < 16,
{
    assert(opcode & 0x000F == opcode % 16) by (bit_vector);
    opcode & 0x000F
}

fn kk_of(opcode: u16) -> (kk: u8)
    ensures
        kk == kk_field(opcode),
{
    assert(opcode & 0x00FF == opcode % 0x100) by (bit_vector);
    (opcode & 0x00FF) as u8
}

fn nnn_of(opcode: u16) -> (nnn: u16)
    ensures
        nnn == nnn_field(opcode),
        nnn < 0x1000,
{
    assert(opcode & 0x0FFF == opcode % 0x1000) by (bit_vector);
    opcode & 0x0FFF
}

/// What a return does: with an empty stack nothing, else the program counter
/// becomes the top stack entry and the stack pointer goes down by one.
pub open spec fn ret_spec(m: Machine) -> Machine {
    if m.sp == 0 {
        m
    } else {
        Machine { pc: m.stack[m.sp as int], sp: (m.sp - 1) as u8, ..m }
    }
}

/// What a call to `addr` does: with a full stack nothing, else the stack
/// pointer goes up by one, the program counter is stored there, and
/// execution continues at `addr`.
pub open spec fn call_spec(m: Machine, addr: u16) -> Machine {
    if m.sp >= 15 {
        m
    } else {
        Machine {
            pc: addr,
            sp: (m.sp + 1) as u8,
            stack: m.stack.update(m.sp + 1, m.pc),
            ..m
        }
    }
}

fn clear(emu: &mut Emu)
    ensures
        final(emu)@ == (Machine { display: Seq::new(2048, |p: int| false), ..old(emu)@ }),
{
    emu.display = [false; 2048];
    assert(emu@.display =~= Seq::new(2048, |p: int| false));
}

fn ret(emu: &mut Emu) -> (res: Result<(), Fault>)
    requires
        old(emu).wf(),
    ensures
        final(emu)@ == ret_spec(old(emu)@),
        res == (if old(emu)@.sp == 0 { Err::<(), Fault>(Fault::StackUnderflow) } else { Ok(()) }),
{
    if emu.registers.sp == 0 {
        return Err(Fault::StackUnderflow);
    }
    emu.registers.pc = emu.stack[emu.registers.sp as usize];
    emu.registers.sp -= 1;
    Ok(())
}

fn jump(emu: &mut Emu, addr: u16)
    ensures
        final(emu)@ == old(emu)@.jump(addr),
{
    emu.registers.pc = addr;
}

fn call(emu: &mut Emu, addr: u16) -> (res: Result<(), Fault>)
    ensures
        final(emu)@ == call_spec(old(emu)@, addr),
        res == (if old(emu)@.sp >= 15 { Err::<(), Fault>(Fault::StackOverflow) } else { Ok(()) }),
{
    if emu.registers.sp as usize >= emu.stack.len() - 1 {
        return Err(Fault::StackOverflow);
    }
    emu.registers.sp += 1;
    emu.stack[emu.registers.sp as usize] = emu.registers.pc;
    emu.registers.pc = addr;
    Ok(())
}

fn skip(emu: &mut Emu)
    ensures
        final(emu)@ == old(emu)@.skip(),
{
    emu.registers.pc = ((emu.registers.pc as u32 + 2) % 0x10000) as u16;
}

/// The effect of an opcode of family 0: `00E0` clears the display, `00EE`
/// returns from a subroutine, anything else changes nothing.
pub open spec fn spec_op_0(m: Machine, opcode: u16) -> Machine {
    if opcode == 0x00E0 {
        Machine { display: Seq::new(2048, |p: int| false), ..m }
    } else if opcode == 0x00EE {
        ret_spec(m)
    } else {
        m
    }
}

/// What an opcode of family 0 reports.
pub open spec fn report_op_0(m: Machine, opcode: u16) -> Result<(), Fault> {
    if opcode == 0x00E0 {
        Ok(())
    } else if opcode == 0x00EE {
        if m.sp == 0 {
            Err(Fault::StackUnderflow)
        } else {
            Ok(())
        }
    } else {
        Err(Fault::UnknownOpcode(opcode))
    }
}

/// `00E0` (clear the display) and `00EE` (return from a subroutine).
pub fn op_0(emu: &mut Emu, opcode: u16) -> (res: Result<(), Fault>)
    requires
        old(emu).wf(),
    ensures
        final(emu)@ == spec_op_0(old(emu)@, opcode),
        res == report_op_0(old(emu)@, opcode),
{
    if opcode == 0x00E0 {
        clear(emu);
        Ok(())
    } else if opcode == 0x00EE {
        ret(emu)
    } else {
        Err(Fault::UnknownOpcode(opcode))
    }
}

/// `1nnn`: jump to `nnn`.
pub fn op_1(emu: &mut Emu, opcode: u16)
    ensures
        final(emu)@ == old(emu)@.jump(nnn_field(opcode)),
{
    let nnn = nnn_of(opcode);
    jump(emu, nnn);
}

/// What `2nnn` reports: an overflow where the stack is full.
pub open spec fn report_op_2(m: Machine) -> Result<(), Fault> {
    if m.sp >= 15 {
        Err(Fault::StackOverflow)
    } else {
        Ok(())
    }
}

/// `2nnn`: call the subroutine at `nnn`.
pub fn op_2(emu: &mut Emu, opcode: u16) -> (res: Result<(), Fault>)
    ensures
        final(emu)@ == call_spec(old(emu)@, nnn_field(opcode)),
        res == report_op_2(old(emu)@),
{
    let nnn = nnn_of(opcode);
    call(emu, nnn)
}

/// The effect of `3xkk`: skip where Vx equals `kk`.
pub open spec fn spec_op_3(m: Machine, opcode: u16) -> Machine {
    if m.v[x_field(opcode)] == kk_field(opcode) {
        m.skip()
    } else {
        m
    }
}

/// `3xkk`: skip the next instruction if Vx equals `kk`.
pub fn op_3(emu: &mut Emu, opcode: u16)
    ensures
        final(emu)@ == spec_op_3(old(emu)@, opcode),
{
    let x = x_of(opcode);
    let kk = kk_of(opcode);
    if emu.registers.v[x] == kk {
        skip(emu);
    }
}

/// The effect of `4xkk`: skip where Vx differs from `kk`.
pub open spec fn spec_op_4(m: Machine, opcode: u16) -> Machine {
    if m.v[x_field(opcode)] != kk_field(opcode) {
        m.skip()
    } else {
        m
    }
}

/// `4xkk`: skip the next instruction if Vx differs from `kk`.
pub fn op_4(emu: &mut Emu, opcode: u16)
    ensures
        final(emu)@ == spec_op_4(old(emu)@, opcode),
{
    let x = x_of(opcode);
    let kk = kk_of(opcode);
    if emu.registers.v[x] != kk {
        skip(emu);
    }
}

/// The effect of an opcode of family 5: `5xy0` skips where Vx equals Vy;
/// with another low nibble nothing changes.
pub open spec fn spec_op_5(m: Machine, opcode: u16) -> Machine {
    if n_field(opcode) == 0 && m.v[x_field(opcode)] == m.v[y_field(opcode)] {
        m.skip()
    } else {
        m
    }
}

/// What an opcode whose low nibble must be 0 reports.
pub open spec fn report_low_nibble(opcode: u16) -> Result<(), Fault> {
    if n_field(opcode) == 0 {
        Ok(())
    } else {
        Err(Fault::UnknownOpcode(opcode))
    }
}

/// `5xy0`: skip the next instruction if Vx equals Vy.
pub fn op_5(emu: &mut Emu, opcode: u16) -> (res: Result<(), Fault>)
    ensures
        final(emu)@ == spec_op_5(old(emu)@, opcode),
        res == report_low_nibble(opcode),
{
    let x = x_of(opcode);
    let y = y_of(opcode);
    let last = n_of(opcode);
    if last > 0 {
        return Err(Fault::UnknownOpcode(opcode));
    }
    if emu.registers.v[x] == emu.registers.v[y] {
        skip(emu);
    }
    Ok(())
}

/// `6xkk`: set Vx to `kk`.
pub fn op_6(emu: &mut Emu, opcode: u16)
    ensures
        final(emu)@ == old(emu)@.set_v(x_field(opcode), kk_field(opcode)),
{
    let x = x_of(opcode);
    let kk = kk_of(opcode);
    emu.registers.v[x] = kk;
}

/// The effect of `7xkk`: Vx grows by `kk` modulo 256; no flag is touched.
pub open spec fn spec_op_7(m: Machine, opcode: u16) -> Machine {
    let x = x_field(opcode);
    m.set_v(x, ((m.v[x] + kk_field(opcode)) % 256) as u8)
}

/// `7xkk`: add `kk` to Vx, wrapping, without touching VF.
pub fn op_7(emu: &mut Emu, opcode: u16)
    ensures
        final(emu)@ == spec_op_7(old(emu)@, opcode),
{
    let x = x_of(opcode);
    let kk = kk_of(opcode);
    emu.registers.v[x] = ((emu.registers.v[x] as u16 + kk as u16) % 256) as u8;
}

/// The registers after the arithmetic instruction `8xyn`.
///
/// Vx is written before VF in the additions and subtractions, VF before Vx
/// in the shifts, so where `x` is 15 the later write is the one that stays.
pub open spec fn alu(v: Seq<u8>, x: int, y: int, n: int) -> Seq<u8> {
    if n == 0 {
        v.update(x, v[y])
    } else if n == 1 {
        v.update(x, v[x] | v[y])
    } else if n == 2 {
        v.update(x, v[x] & v[y])
    } else if n == 3 {
        v.update(x, v[x] ^ v[y])
    } else if n == 4 {
        v.update(x, ((v[x] + v[y]) % 256) as u8).update(15, if v[x] + v[y] >= 256 { 1u8 } else { 0u8 })
    } else if n == 5 {
        v.update(x, ((v[x] - v[y]) % 256) as u8).update(15, if v[x] >= v[y] { 1u8 } else { 0u8 })
    } else if n == 6 {
        let flagged = v.update(15, (v[x] % 2) as u8);
        flagged.update(x, (flagged[x] / 2) as u8)
    } else if n == 7 {
        v.update(x, ((v[y] - v[x]) % 256) as u8).update(15, if v[y] >= v[x] { 1u8 } else { 0u8 })
    } else if n == 0xE {
        let flagged = v.update(15, (v[x] % 2) as u8);
        flagged.update(x, ((flagged[x] * 2) % 256) as u8)
    } else {
        v
    }
}

/// Whether `n` selects one of the nine arithmetic instructions.
pub open spec fn alu_known(n: int) -> bool {
    0 <= n <= 7 || n == 0xE
}

/// The effect of an opcode of family 8.
pub open spec fn spec_op_8(m: Machine, opcode: u16) -> Machine {
    Machine { v: alu(m.v, x_field(opcode), y_field(opcode), n_field(opcode)), ..m }
}

/// What an opcode of family 8 reports.
pub open spec fn report_op_8(opcode: u16) -> Result<(), Fault> {
    if alu_known(n_field(opcode)) {
        Ok(())
    } else {
        Err(Fault::UnknownOpcode(opcode))
    }
}

/// `8xyn`: the register-to-register loads, logic, additions, subtractions and shifts.
pub fn op_8(emu: &mut Emu, opcode: u16) -> (res: Result<(), Fault>)
    ensures
        final(emu)@ == spec_op_8(old(emu)@, opcode),
        res == report_op_8(opcode),
{
    let n = n_of(opcode);
    let x = x_of(opcode);
    let y = y_of(opcode);
    let vx = emu.registers.v[x];
    let vy = emu.registers.v[y];
    if n == 0x0 {
        emu.registers.v[x] = vy;
    } else if n == 0x1 {
        emu.registers.v[x] = vx | vy;
    } else if n == 0x2 {
        emu.registers.v[x] = vx & vy;
    } else if n == 0x3 {
        emu.registers.v[x] = vx ^ vy;
    } else if n == 0x4 {
        let sum: u16 = vx as u16 + vy as u16;
        emu.registers.v[x] = (sum % 256) as u8;
        emu.registers.v[0xF] = if sum >= 256 { 1 } else { 0 };
    } else if n == 0x5 {
        let diff: u16 = (256 + vx as u16 - vy as u16) % 256;
        emu.registers.v[x] = diff as u8;
        emu.registers.v[0xF] = if vx >= vy { 1 } else { 0 };
    } else if n == 0x6 {
        emu.registers.v[0xF] = vx % 2;
        emu.registers.v[x] = emu.registers.v[x] / 2;
    } else if n == 0x7 {
        let diff: u16 = (256 + vy as u16 - vx as u16) % 256;
        emu.registers.v[x] = diff as u8;
        emu.registers.v[0xF] = if vy >= vx { 1 } else { 0 };
    } else if n == 0xE {
        emu.registers.v[0xF] = vx % 2;
        emu.registers.v[x] = ((emu.registers.v[x] as u16 * 2) % 256) as u8;
    } else {
        return Err(Fault::UnknownOpcode(opcode));
    }
    Ok(())
}

/// The effect of an opcode of family 9: `9xy0` skips where Vx differs from
/// Vy; with another low nibble nothing changes.
pub open spec fn spec_op_9(m: Machine, opcode: u16) -> Machine {
    if n_field(opcode) == 0 && m.v[x_field(opcode)] != m.v[y_field(opcode)] {
        m.skip()
    } else {
        m
    }
}

/// `9xy0`: skip the next instruction if Vx differs from Vy.
pub fn op_9(emu: &mut Emu, opcode: u16) -> (res: Result<(), Fault>)
    ensures
        final(emu)@ == spec_op_9(old(emu)@, opcode),
        res == report_low_nibble(opcode),
{
    let x = x_of(opcode);
    let y = y_of(opcode);
    let last = n_of(opcode);
    if last > 0 {
        return Err(Fault::UnknownOpcode(opcode));
    }
    if emu.registers.v[x] != emu.registers.v[y] {
        skip(emu);
    }
    Ok(())
}

/// `Annn`: set I to `nnn`.
pub fn op_a(emu: &mut Emu, opcode: u16)
    ensures
        final(emu)@ == (Machine { i: nnn_field(opcode), ..old(emu)@ }),
{
    let nnn = nnn_of(opcode);
    emu.registers.i = nnn;
}

/// `Bnnn`: jump to `nnn` plus V0.
pub fn op_b(emu: &mut Emu, opcode: u16)
    ensures
        final(emu)@ == old(emu)@.jump((nnn_field(opcode) + old(emu)@.v[0]) as u16),
        final(emu)@.pc == nnn_field(opcode) + old(emu)@.v[0],
{
    let nnn = nnn_of(opcode);
    let target: u16 = nnn + emu.registers.v[0] as u16;
    jump(emu, target);
}

/// The effect of `Cxkk` when the random source gave `random`.
pub open spec fn spec_op_c(m: Machine, opcode: u16, random: u8) -> Machine {
    m.set_v(x_field(opcode), kk_field(opcode) & random)
}

/// `Cxkk` with the random byte given: set Vx to `kk` AND `random`.
pub fn op_c_with(emu: &mut Emu, opcode: u16, random: u8)
    ensures
        final(emu)@ == spec_op_c(old(emu)@, opcode, random),
{
    let x = x_of(opcode);
    let kk = kk_of(opcode);
    emu.registers.v[x] = kk & random;
}

/// Draws one byte from the thread-local generator of `rand`, by `rand::rng`
/// and `Rng::random::<u8>`. Nothing is claimed of the byte: every value of the
/// type can come back.
#[verifier::external_body]
fn random_byte() -> (byte: u8) {
    let mut rng = rand::rng();
    rand::Rng::random::<u8>(&mut rng)
}

/// `Cxkk`: set Vx to a random byte AND `kk`.
pub fn op_c(emu: &mut Emu, opcode: u16)
    ensures
        exists|random: u8| final(emu)@ == spec_op_c(old(emu)@, opcode, random),
{
    let random_nb = random_byte();
    op_c_with(emu, opcode, random_nb);
}

/// Whether bit `bit` of a sprite row is set, counting from the most
/// significant bit, which is the leftmost pixel.
pub open spec fn sprite_bit(byte: u8, bit: int) -> bool {
    (byte >> ((7 - bit) as u8)) & 1u8 == 1u8
}

/// Whether the sprite of `n` rows that memory holds at `i`, drawn with its
/// top left corner at (`vx`, `vy`), covers display cell `p` with a set bit.
/// Columns wrap modulo 64, rows modulo 32, addresses modulo the memory size.
pub open spec fn sprite_lit(memory: Seq<u8>, i: u16, vx: u8, vy: u8, n: int, p: int) -> bool {
    let row = (p / 64 - vy) % 32;
    let bit = (p % 64 - vx) % 64;
    row < n && bit < 8 && sprite_bit(memory[(i + row) % 4096], bit)
}

/// The display after the sprite was drawn: every covered cell is toggled.
pub open spec fn draw_display(display: Seq<bool>, memory: Seq<u8>, i: u16, vx: u8, vy: u8, n: int) -> Seq<bool> {
    Seq::new(2048, |p: int| display[p] != sprite_lit(memory, i, vx, vy, n, p))
}

/// Whether drawing the sprite turns some set cell off.
pub open spec fn draw_collides(display: Seq<bool>, memory: Seq<u8>, i: u16, vx: u8, vy: u8, n: int) -> bool {
    exists|p: int| 0 <= p < 2048 && display[p] && #[trigger] sprite_lit(memory, i, vx, vy, n, p)
}

/// The effect of `Dxyn`.
pub open spec fn spec_op_d(m: Machine, opcode: u16) -> Machine {
    let vx = m.v[x_field(opcode)];
    let vy = m.v[y_field(opcode)];
    let n = n_field(opcode);
    Machine {
        display: draw_display(m.display, m.memory, m.i, vx, vy, n),
        v: m.v.update(15, if draw_collides(m.display, m.memory, m.i, vx, vy, n) { 1u8 } else { 0u8 }),
        ..m
    }
}

/// The display cell that bit `bit` of sprite row `row` falls on.
pub open spec fn sprite_cell(vx: u8, vy: u8, row: int, bit: int) -> int {
    ((vy + row) % 32) * 64 + (vx + bit) % 64
}

/// The part of `sprite_lit` that lies before bit `bits` of row `rows`.
#[verifier::opaque]
spec fn sprite_lit_upto(memory: Seq<u8>, i: u16, vx: u8, vy: u8, n: int, rows: int, bits: int, p: int) -> bool {
    let row = (p / 64 - vy) % 32;
    let bit = (p % 64 - vx) % 64;
    sprite_lit(memory, i, vx, vy, n, p) && (row < rows || (row == rows && bit < bits))
}

/// A cell's row and bit within the sprite are those it was computed from.
pub proof fn lemma_cell_coordinates(vx: u8, vy: u8, row: int, bit: int)
    requires
        0 <= row < 32,
        0 <= bit < 64,
    ensures
        0 <= sprite_cell(vx, vy, row, bit) < 2048,
        sprite_cell(vx, vy, row, bit) / 64 == (vy + row) % 32,
        sprite_cell(vx, vy, row, bit) % 64 == (vx + bit) % 64,
        (sprite_cell(vx, vy, row, bit) / 64 - vy) % 32 == row,
        (sprite_cell(vx, vy, row, bit) % 64 - vx) % 64 == bit,
{
    let py = (vy + row) % 32;
    let px = (vx + bit) % 64;
    assert((py - vy) % 32 == row);
    assert((px - vx) % 64 == bit);
}

/// A cell is determined by its row and bit within the sprite.
pub proof fn lemma_cell_unique(vx: u8, vy: u8, p: int)
    requires
        0 <= p < 2048,
    ensures
        sprite_cell(vx, vy, (p / 64 - vy) % 32, (p % 64 - vx) % 64) == p,
{
    let row = (p / 64 - vy) % 32;
    let bit = (p % 64 - vx) % 64;
    assert((vy + row) % 32 == p / 64);
    assert((vx + bit) % 64 == p % 64);
}

/// Taking one more bit of the sprite adds at most the cell of that bit.
proof fn lemma_upto_step(memory: Seq<u8>, i: u16, vx: u8, vy: u8, n: int, row: int, bit: int, p: int)
    requires
        0 <= row < n <= 32,
        0 <= bit < 8,
        0 <= p < 2048,
    ensures
        sprite_lit_upto(memory, i, vx, vy, n, row, bit + 1, p) == (sprite_lit_upto(
            memory,
            i,
            vx,
            vy,
            n,
            row,
            bit,
            p,
        ) || (p == sprite_cell(vx, vy, row, bit) && sprite_bit(memory[(i + row) % 4096], bit))),
        p == sprite_cell(vx, vy, row, bit) ==> !sprite_lit_upto(memory, i, vx, vy, n, row, bit, p),
{
    reveal(sprite_lit_upto);
    lemma_cell_coordinates(vx, vy, row, bit);
    lemma_cell_unique(vx, vy, p);
}

/// A finished row of the sprite is where the next row starts.
proof fn lemma_upto_rows(memory: Seq<u8>, i: u16, vx: u8, vy: u8, n: int, row: int, p: int)
    requires
        0 <= row < n <= 32,
        0 <= p < 2048,
    ensures
        sprite_lit_upto(memory, i, vx, vy, n, row + 1, 0, p) == sprite_lit_upto(memory, i, vx, vy, n, row, 8, p),
{
    reveal(sprite_lit_upto);
}

/// What lies before some bit of the sprite lies in the sprite.
proof fn lemma_upto_sound(memory: Seq<u8>, i: u16, vx: u8, vy: u8, n: int, rows: int, bits: int, p: int)
    ensures
        sprite_lit_upto(memory, i, vx, vy, n, rows, bits, p) ==> sprite_lit(memory, i, vx, vy, n, p),
{
    reveal(sprite_lit_upto);
}

/// Before the first row lies nothing, and before row `n` the whole sprite.
proof fn lemma_upto_empty(memory: Seq<u8>, i: u16, vx: u8, vy: u8, n: int, p: int)
    requires
        0 <= n <= 32,
        0 <= p < 2048,
    ensures
        !sprite_lit_upto(memory, i, vx, vy, n, 0, 0, p),
        sprite_lit_upto(memory, i, vx, vy, n, n, 0, p) == sprite_lit(memory, i, vx, vy, n, p),
{
    reveal(sprite_lit_upto);
}

/// Once every row is taken, the display and the flag are those of the whole draw.
proof fn lemma_draw_done(
    display: Seq<bool>,
    drawn: Seq<bool>,
    memory: Seq<u8>,
    i: u16,
    vx: u8,
    vy: u8,
    n: int,
    flag: u8,
    witness: int,
)
    requires
        0 <= n < 16,
        display.len() == 2048,
        drawn.len() == 2048,
        forall|p: int| 0 <= p < 2048 ==> drawn[p] == (display[p] != #[trigger] sprite_lit_upto(memory, i, vx, vy, n, n, 0, p)),
        flag == 1 ==> 0 <= witness < 2048 && display[witness] && sprite_lit(memory, i, vx, vy, n, witness),
        flag != 1 ==> forall|p: int| 0 <= p < 2048 ==> !(display[p] && #[trigger] sprite_lit_upto(memory, i, vx, vy, n, n, 0, p)),
    ensures
        drawn == draw_display(display, memory, i, vx, vy, n),
        draw_collides(display, memory, i, vx, vy, n) == (flag == 1),
{
    assert forall|p: int| 0 <= p < 2048 implies #[trigger] sprite_lit_upto(memory, i, vx, vy, n, n, 0, p)
        == sprite_lit(memory, i, vx, vy, n, p) by {
        lemma_upto_empty(memory, i, vx, vy, n, p);
    }
    assert forall|p: int| 0 <= p < 2048 implies drawn[p] == (display[p] != sprite_lit(memory, i, vx, vy, n, p)) by {
        lemma_upto_empty(memory, i, vx, vy, n, p);
    }
    assert(drawn =~= draw_display(display, memory, i, vx, vy, n));
    if flag != 1 {
        assert forall|p: int| 0 <= p < 2048 implies !(display[p] && #[trigger] sprite_lit(memory, i, vx, vy, n, p)) by {
            assert(sprite_lit_upto(memory, i, vx, vy, n, n, 0, p) == sprite_lit(memory, i, vx, vy, n, p));
        }
    }
}

/// Toggles display cell `index` and sets VF if the cell was lit.
fn flip_pixel(emu: &mut Emu, index: usize)
    requires
        index < 2048,
    ensures
        final(emu)@ == (Machine {
            display: old(emu)@.display.update(index as int, !old(emu)@.display[index as int]),
            v: if old(emu)@.display[index as int] {
                old(emu)@.v.update(15, 1u8)
            } else {
                old(emu)@.v
            },
            ..old(emu)@
        }),
{
    if emu.display[index] {
        emu.registers.v[0xF] = 1;
    }
    emu.display[index] = !emu.display[index];
}

/// `Dxyn`: draw the sprite of `n` rows at I with its corner at (Vx, Vy) by
/// XOR, and set VF to 1 if a set pixel was turned off, else to 0.
pub fn op_d(emu: &mut Emu, opcode: u16)
    ensures
        final(emu)@ == spec_op_d(old(emu)@, opcode),
{
    let x = x_of(opcode);
    let y = y_of(opcode);
    let n = n_of(opcode);
    let vx = emu.registers.v[x];
    let vy = emu.registers.v[y];
    let ghost before = emu@;
    let ghost mut witness: int = 0;

    emu.registers.v[0xF] = 0;
    proof {
        assert forall|p: int| 0 <= p < 2048 implies !#[trigger] sprite_lit_upto(
            before.memory, before.i, vx, vy, n as int, 0, 0, p) by {
            lemma_upto_empty(before.memory, before.i, vx, vy, n as int, p);
        }
    }

    let mut row: u16 = 0;
    while row < n
        invariant
            row <= n < 16,
            before.v.len() == 16,
            before.display.len() == 2048,
            emu@.v =~= before.v.update(15, emu@.v[15]),
            emu@ == (Machine { v: emu@.v, display: emu@.display, ..before }),
            emu@.v[15] == 0 || emu@.v[15] == 1,
            forall|p: int| 0 <= p < 2048 ==> emu@.display[p] == (before.display[p]
                != #[trigger] sprite_lit_upto(before.memory, before.i, vx, vy, n as int, row as int, 0, p)),
            emu@.v[15] == 1 ==> 0 <= witness < 2048 && before.display[witness] && sprite_lit(
                before.memory, before.i, vx, vy, n as int, witness),
            emu@.v[15] == 0 ==> forall|p: int| 0 <= p < 2048 ==> !(before.display[p]
                && #[trigger] sprite_lit_upto(before.memory, before.i, vx, vy, n as int, row as int, 0, p)),
        decreases n - row,
    {
        let sprite_byte = emu.memory[(emu.registers.i as usize + row as usize) % 4096];
        let mut bit: u8 = 0;
        while bit < 8
            invariant
                row < n < 16,
                bit <= 8,
                before.v.len() == 16,
                before.display.len() == 2048,
                sprite_byte == before.memory[(before.i + row) % 4096],
                emu@.v =~= before.v.update(15, emu@.v[15]),
                emu@ == (Machine { v: emu@.v, display: emu@.display, ..before }),
                emu@.v[15] == 0 || emu@.v[15] == 1,
                forall|p: int| 0 <= p < 2048 ==> emu@.display[p] == (before.display[p]
                    != #[trigger] sprite_lit_upto(before.memory, before.i, vx, vy, n as int, row as int, bit as int, p)),
                emu@.v[15] == 1 ==> 0 <= witness < 2048 && before.display[witness] && sprite_lit(
                    before.memory, before.i, vx, vy, n as int, witness),
                emu@.v[15] == 0 ==> forall|p: int| 0 <= p < 2048 ==> !(before.display[p]
                    && #[trigger] sprite_lit_upto(before.memory, before.i, vx, vy, n as int, row as int, bit as int, p)),
            decreases 8 - bit,
        {
            let pixel_on = (sprite_byte >> (7 - bit)) & 1;
            let px = (vx as usize + bit as usize) % 64;
            let py = ((vy as u16 + row) % 32) as usize;
            let index = py * 64 + px;
            proof {
                assert(index == sprite_cell(vx, vy, row as int, bit as int));
                lemma_cell_coordinates(vx, vy, row as int, bit as int);
                assert(sprite_bit(sprite_byte, bit as int) == (pixel_on == 1));
                assert forall|p: int| 0 <= p < 2048 implies #[trigger] sprite_lit_upto(
                    before.memory, before.i, vx, vy, n as int, row as int, bit + 1, p)
                    == (sprite_lit_upto(before.memory, before.i, vx, vy, n as int, row as int, bit as int, p)
                    || (p == index && pixel_on == 1)) by {
                    lemma_upto_step(before.memory, before.i, vx, vy, n as int, row as int, bit as int, p);
                }
                lemma_upto_step(before.memory, before.i, vx, vy, n as int, row as int, bit as int, index as int);
                lemma_upto_sound(before.memory, before.i, vx, vy, n as int, row as int, bit + 1, index as int);
            }
            if pixel_on == 1 {
                proof {
                    if emu@.display[index as int] {
                        witness = index as int;
                    }
                }
                flip_pixel(emu, index);
            }
            bit += 1;
        }
        proof {
            assert forall|p: int| 0 <= p < 2048 implies #[trigger] sprite_lit_upto(
                before.memory, before.i, vx, vy, n as int, row + 1, 0, p)
                == sprite_lit_upto(before.memory, before.i, vx, vy, n as int, row as int, 8, p) by {
                lemma_upto_rows(before.memory, before.i, vx, vy, n as int, row as int, p);
            }
        }
        row += 1;
    }
    proof {
        lemma_draw_done(before.display, emu@.display, before.memory, before.i, vx, vy, n as int, emu@.v[15], witness);
    }
}

/// The effect of an opcode of family E: `Ex9E` skips where the key that Vx
/// names is down, `ExA1` where it is not; anything else changes nothing.
pub open spec fn spec_op_e(m: Machine, opcode: u16) -> Machine {
    let down = m.key_down(m.v[x_field(opcode)] as int);
    if kk_field(opcode) == 0x9E && down {
        m.skip()
    } else if kk_field(opcode) == 0xA1 && !down {
        m.skip()
    } else {
        m
    }
}

/// What an opcode of family E reports.
pub open spec fn report_op_e(opcode: u16) -> Result<(), Fault> {
    if kk_field(opcode) == 0x9E || kk_field(opcode) == 0xA1 {
        Ok(())
    } else {
        Err(Fault::UnknownOpcode(opcode))
    }
}

/// `Ex9E` and `ExA1`: skip the next instruction if the key that Vx names is,
/// or is not, held down.
pub fn op_e(emu: &mut Emu, opcode: u16) -> (res: Result<(), Fault>)
    ensures
        final(emu)@ == spec_op_e(old(emu)@, opcode),
        res == report_op_e(opcode),
{
    let n = kk_of(opcode);
    let x = x_of(opcode);
    let key = emu.registers.v[x] as usize;
    let down = key < 16 && emu.keys[key];
    if n == 0x9E {
        if down {
            skip(emu);
        }
        Ok(())
    } else if n == 0xA1 {
        if !down {
            skip(emu);
        }
        Ok(())
    } else {
        Err(Fault::UnknownOpcode(opcode))
    }
}

/// Whether `kk` selects one of the nine instructions of family F.
pub open spec fn f_known(kk: u8) -> bool {
    kk == 0x07 || kk == 0x0A || kk == 0x15 || kk == 0x18 || kk == 0x1E || kk == 0x29 || kk == 0x33
        || kk == 0x55 || kk == 0x65
}

/// The effect of an opcode of family F. `Fx0A` latches register `x` and
/// takes back the advance of the fetch, so that the program counter stays
/// on the instruction until a key resolves the wait; it never moves the
/// program counter up.
pub open spec fn spec_op_f(m: Machine, opcode: u16) -> Machine {
    let x = x_field(opcode);
    let kk = kk_field(opcode);
    let vx = m.v[x];
    if kk == 0x07 {
        m.set_v(x, m.dt)
    } else if kk == 0x0A {
        Machine { waiting_for_key: Some(x as usize), ..m }.rewind()
    } else if kk == 0x15 {
        Machine { dt: vx, ..m }
    } else if kk == 0x18 {
        Machine { st: vx, ..m }
    } else if kk == 0x1E {
        Machine { i: ((m.i + vx) % 0x10000) as u16, ..m }
    } else if kk == 0x29 {
        Machine { i: (vx * 5) as u16, ..m }
    } else if kk == 0x33 {
        m.set_mem(m.i as int, (vx / 100) as u8).set_mem(m.i + 1, ((vx / 10) % 10) as u8).set_mem(
            m.i + 2,
            (vx % 10) as u8,
        )
    } else if kk == 0x55 {
        Machine {
            memory: Seq::new(
                4096,
                |a: int|
                    if (a - m.i) % 4096 <= x {
                        m.v[(a - m.i) % 4096]
                    } else {
                        m.memory[a]
                    },
            ),
            ..m
        }
    } else if kk == 0x65 {
        Machine {
            v: Seq::new(
                16,
                |k: int|
                    if k <= x {
                        m.memory[(m.i + k) % 4096]
                    } else {
                        m.v[k]
                    },
            ),
            ..m
        }
    } else {
        m
    }
}

/// What an opcode of family F reports.
pub open spec fn report_op_f(opcode: u16) -> Result<(), Fault> {
    if f_known(kk_field(opcode)) {
        Ok(())
    } else {
        Err(Fault::UnknownOpcode(opcode))
    }
}

/// `Fxkk`: the timers, the key wait, the address register, the decimal
/// digits and the block transfers between registers and memory.
pub fn op_f(emu: &mut Emu, opcode: u16) -> (res: Result<(), Fault>)
    ensures
        final(emu)@ == spec_op_f(old(emu)@, opcode),
        res == report_op_f(opcode),
{
    let n = kk_of(opcode);
    let x = x_of(opcode);
    let vx = emu.registers.v[x];
    let base = emu.registers.i as usize;
    if n == 0x07 {
        emu.registers.v[x] = emu.registers.dt;
    } else if n == 0x0A {
        emu.waiting_for_key = Some(x);
        if emu.registers.pc >= 2 {
            emu.registers.pc -= 2;
        }
    } else if n == 0x15 {
        emu.registers.dt = vx;
    } else if n == 0x18 {
        emu.registers.st = vx;
    } else if n == 0x1E {
        emu.registers.i = ((emu.registers.i as u32 + vx as u32) % 0x10000) as u16;
    } else if n == 0x29 {
        emu.registers.i = (vx as u16) * 5;
    } else if n == 0x33 {
        emu.memory[base % 4096] = vx / 100;
        emu.memory[(base + 1) % 4096] = (vx / 10) % 10;
        emu.memory[(base + 2) % 4096] = vx % 10;
        assert(emu@.memory =~= spec_op_f(old(emu)@, opcode).memory);
    } else if n == 0x55 {
        let mut k: usize = 0;
        while k <= x
            invariant
                k <= x + 1 <= 16,
                base == old(emu)@.i,
                emu@ == (Machine { memory: emu@.memory, ..old(emu)@ }),
                forall|a: int| 0 <= a < 4096 ==> emu@.memory[a] == (if (a - base) % 4096 < k {
                    old(emu)@.v[(a - base) % 4096]
                } else {
                    old(emu)@.memory[a]
                }),
            decreases x + 1 - k,
        {
            emu.memory[(base + k) % 4096] = emu.registers.v[k];
            k += 1;
        }
        assert(emu@.memory =~= spec_op_f(old(emu)@, opcode).memory);
    } else if n == 0x65 {
        let mut k: usize = 0;
        while k <= x
            invariant
                k <= x + 1 <= 16,
                base == old(emu)@.i,
                emu@ == (Machine { v: emu@.v, ..old(emu)@ }),
                forall|j: int| 0 <= j < 16 ==> emu@.v[j] == (if j < k {
                    old(emu)@.memory[(base + j) % 4096]
                } else {
                    old(emu)@.v[j]
                }),
            decreases x + 1 - k,
        {
            emu.registers.v[k] = emu.memory[(base + k) % 4096];
            k += 1;
        }
        assert(emu@.v =~= spec_op_f(old(emu)@, opcode).v);
    } else {
        return Err(Fault::UnknownOpcode(opcode));
    }
    Ok(())
}

/// The opcode that memory holds at the program counter: two bytes, the
/// high one first.
pub open spec fn opcode_at(m: Machine) -> u16 {
    (m.memory[m.pc as int] * 256 + m.memory[m.pc + 1]) as u16
}

/// Reads the opcode at the program counter and moves the program counter
/// past it.
pub fn fetch_opcode(emu: &mut Emu) -> (opcode: u16)
    requires
        old(emu)@.pc <= 4094,
    ensures
        opcode == opcode_at(old(emu)@),
        final(emu)@ == old(emu)@.skip(),
{
    let pc = emu.registers.pc as usize;
    let high = emu.memory[pc] as u16;
    let low = emu.memory[pc + 1] as u16;
    emu.registers.pc += 2;
    assert((high << 8) | low == high * 256 + low) by (bit_vector)
        requires
            high < 256,
            low < 256,
    ;
    (high << 8) | low
}

/// The effect of any opcode on a machine whose program counter is already
/// past it, where the random source would give `random`.
pub open spec fn execute_spec(m: Machine, opcode: u16, random: u8) -> Machine {
    let f = family(opcode);
    if f == 0x0 {
        spec_op_0(m, opcode)
    } else if f == 0x1 {
        m.jump(nnn_field(opcode))
    } else if f == 0x2 {
        call_spec(m, nnn_field(opcode))
    } else if f == 0x3 {
        spec_op_3(m, opcode)
    } else if f == 0x4 {
        spec_op_4(m, opcode)
    } else if f == 0x5 {
        spec_op_5(m, opcode)
    } else if f == 0x6 {
        m.set_v(x_field(opcode), kk_field(opcode))
    } else if f == 0x7 {
        spec_op_7(m, opcode)
    } else if f == 0x8 {
        spec_op_8(m, opcode)
    } else if f == 0x9 {
        spec_op_9(m, opcode)
    } else if f == 0xA {
        Machine { i: nnn_field(opcode), ..m }
    } else if f == 0xB {
        m.jump((nnn_field(opcode) + m.v[0]) as u16)
    } else if f == 0xC {
        spec_op_c(m, opcode, random)
    } else if f == 0xD {
        spec_op_d(m, opcode)
    } else if f == 0xE {
        spec_op_e(m, opcode)
    } else {
        spec_op_f(m, opcode)
    }
}

/// What any opcode reports.
pub open spec fn execute_report(m: Machine, opcode: u16) -> Result<(), Fault> {
    let f = family(opcode);
    if f == 0x0 {
        report_op_0(m, opcode)
    } else if f == 0x2 {
        report_op_2(m)
    } else if f == 0x5 || f == 0x9 {
        report_low_nibble(opcode)
    } else if f == 0x8 {
        report_op_8(opcode)
    } else if f == 0xE {
        report_op_e(opcode)
    } else if f == 0xF {
        report_op_f(opcode)
    } else {
        Ok(())
    }
}

/// Executes one opcode that has already been fetched: routes it by its
/// family and performs its effect. An instruction that reports a condition
/// changes nothing, and the machine can go on with the next one.
pub fn execute(emu: &mut Emu, opcode: u16) -> (res: Result<(), Fault>)
    requires
        old(emu).wf(),
    ensures
        final(emu).wf(),
        exists|random: u8| final(emu)@ == execute_spec(old(emu)@, opcode, random),
        family(opcode) != 0xC ==> final(emu)@ == execute_spec(old(emu)@, opcode, 0),
        res == execute_report(old(emu)@, opcode),
{
    let f = family_of(opcode);
    let res = if f == 0x0 {
        op_0(emu, opcode)
    } else if f == 0x1 {
        op_1(emu, opcode);
        Ok(())
    } else if f == 0x2 {
        op_2(emu, opcode)
    } else if f == 0x3 {
        op_3(emu, opcode);
        Ok(())
    } else if f == 0x4 {
        op_4(emu, opcode);
        Ok(())
    } else if f == 0x5 {
        op_5(emu, opcode)
    } else if f == 0x6 {
        op_6(emu, opcode);
        Ok(())
    } else if f == 0x7 {
        op_7(emu, opcode);
        Ok(())
    } else if f == 0x8 {
        op_8(emu, opcode)
    } else if f == 0x9 {
        op_9(emu, opcode)
    } else if f == 0xA {
        op_a(emu, opcode);
        Ok(())
    } else if f == 0xB {
        op_b(emu, opcode);
        Ok(())
    } else if f == 0xC {
        op_c(emu, opcode);
        Ok(())
    } else if f == 0xD {
        op_d(emu, opcode);
        Ok(())
    } else if f == 0xE {
        op_e(emu, opcode)
    } else {
        op_f(emu, opcode)
    };
    proof {
        if f != 0xC {
            assert(emu@ == execute_spec(old(emu)@, opcode, 0));
        } else {
            let random = choose|random: u8| emu@ == spec_op_c(old(emu)@, opcode, random);
            assert(emu@ == execute_spec(old(emu)@, opcode, random));
        }
    }
    res
}

} // verus!
