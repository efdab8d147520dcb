use chip8_emu::emu::Emu;
use chip8_emu::emu::FONTSET;
use chip8_emu::cpu::Cpu;
use chip8_emu::instructions::execute;
use chip8_emu::instructions::fetch_opcode;
use chip8_emu::instructions::op_0;
use chip8_emu::instructions::op_1;
use chip8_emu::instructions::op_2;
use chip8_emu::instructions::op_3;
use chip8_emu::instructions::op_4;
use chip8_emu::instructions::op_5;
use chip8_emu::instructions::op_6;
use chip8_emu::instructions::op_7;
use chip8_emu::instructions::op_8;
use chip8_emu::instructions::op_9;
use chip8_emu::instructions::op_a;
use chip8_emu::instructions::op_b;
use chip8_emu::instructions::op_c;
use chip8_emu::instructions::op_c_with;
use chip8_emu::instructions::op_d;
use chip8_emu::instructions::op_e;
use chip8_emu::instructions::op_f;
use chip8_emu::instructions::Fault;

fn lit_cells(emu: &Emu) -> Vec<usize> {
    (0..2048).filter(|&p| emu.display[p]).collect()
}

#[test]
fn new_machine_is_powered_on() {
    let emu = Emu::new();
    assert_eq!(emu.registers.v, [0u8; 16]);
    assert_eq!(emu.registers.i, 0);
    assert_eq!(emu.registers.pc, 0x200);
    assert_eq!(emu.registers.sp, 0);
    assert_eq!(emu.registers.dt, 0);
    assert_eq!(emu.registers.st, 0);
    assert_eq!(&emu.memory[0..80], &FONTSET[..]);
    assert!(emu.memory[80..].iter().all(|&b| b == 0));
    assert!(emu.display.iter().all(|&p| !p));
    assert_eq!(emu.stack, [0u16; 16]);
    assert_eq!(emu.keys, [false; 16]);
    assert_eq!(emu.waiting_for_key, None);
}

#[test]
fn font_glyphs_are_in_place() {
    let emu = Emu::new();
    assert_eq!(&emu.memory[0..5], &[0xF0, 0x90, 0x90, 0x90, 0xF0]);
    assert_eq!(&emu.memory[5..10], &[0x20, 0x60, 0x20, 0x20, 0x70]);
    assert_eq!(&emu.memory[75..80], &[0xF0, 0x80, 0xF0, 0x80, 0x80]);
}

#[test]
fn new_cpu_is_zeroed() {
    let cpu = Cpu::new();
    assert_eq!(cpu.registers.v, [0u8; 16]);
    assert_eq!(cpu.registers.pc, 0x200);
    assert_eq!(cpu.registers.i, 0);
    assert_eq!(cpu.registers.sp, 0);
    assert!(cpu.memory.iter().all(|&b| b == 0));
}

#[test]
fn load_program_copies_to_start_address() {
    let mut emu = Emu::new();
    assert!(emu.load_program(&[0x12, 0x34, 0x56]));
    assert_eq!(&emu.memory[0x200..0x204], &[0x12, 0x34, 0x56, 0x00]);
    assert_eq!(emu.memory[0x1FF], 0);
    assert_eq!(&emu.memory[0..80], &FONTSET[..]);
}

#[test]
fn load_program_fills_memory_to_the_end() {
    let mut emu = Emu::new();
    let image = vec![0xAB; 4096 - 0x200];
    assert!(emu.load_program(&image));
    assert_eq!(emu.memory[0x200], 0xAB);
    assert_eq!(emu.memory[4095], 0xAB);
}

#[test]
fn load_program_refuses_oversized_image() {
    let mut emu = Emu::new();
    let image = vec![0xAB; 4096 - 0x200 + 1];
    assert!(!emu.load_program(&image));
    assert!(emu.memory[0x200..].iter().all(|&b| b == 0));
}

#[test]
fn fetch_reads_big_endian_and_advances() {
    let mut emu = Emu::new();
    emu.memory[0x200] = 0xA2;
    emu.memory[0x201] = 0xF0;
    assert_eq!(fetch_opcode(&mut emu), 0xA2F0);
    assert_eq!(emu.registers.pc, 0x202);
}

#[test]
fn fetch_at_last_valid_address() {
    let mut emu = Emu::new();
    emu.registers.pc = 4094;
    emu.memory[4094] = 0x12;
    emu.memory[4095] = 0x34;
    assert_eq!(fetch_opcode(&mut emu), 0x1234);
    assert_eq!(emu.registers.pc, 4096);
}

#[test]
fn clear_display() {
    let mut emu = Emu::new();
    emu.display[0] = true;
    emu.display[2047] = true;
    assert_eq!(op_0(&mut emu, 0x00E0), Ok(()));
    assert!(emu.display.iter().all(|&p| !p));
}

#[test]
fn return_on_empty_stack_reports_underflow() {
    let mut emu = Emu::new();
    emu.registers.pc = 0x300;
    assert_eq!(op_0(&mut emu, 0x00EE), Err(Fault::StackUnderflow));
    assert_eq!(emu.registers.pc, 0x300);
    assert_eq!(emu.registers.sp, 0);
}

#[test]
fn unknown_family_0_opcode_is_reported() {
    let mut emu = Emu::new();
    emu.display[5] = true;
    assert_eq!(op_0(&mut emu, 0x0123), Err(Fault::UnknownOpcode(0x0123)));
    assert!(emu.display[5]);
    assert_eq!(emu.registers.pc, 0x200);
}

#[test]
fn jump_sets_program_counter() {
    let mut emu = Emu::new();
    op_1(&mut emu, 0x1ABC);
    assert_eq!(emu.registers.pc, 0xABC);
}

#[test]
fn call_pushes_and_jumps() {
    let mut emu = Emu::new();
    emu.registers.pc = 0x202;
    assert_eq!(op_2(&mut emu, 0x2456), Ok(()));
    assert_eq!(emu.registers.pc, 0x456);
    assert_eq!(emu.registers.sp, 1);
    assert_eq!(emu.stack[1], 0x202);
}

#[test]
fn call_then_return_round_trip() {
    let mut emu = Emu::new();
    emu.registers.pc = 0x202;
    emu.registers.sp = 3;
    assert_eq!(op_2(&mut emu, 0x2456), Ok(()));
    assert_eq!(op_0(&mut emu, 0x00EE), Ok(()));
    assert_eq!(emu.registers.pc, 0x202);
    assert_eq!(emu.registers.sp, 3);
}

#[test]
fn stack_overflow_is_reported() {
    let mut emu = Emu::new();
    let mut reports = 0;
    for k in 0..16u16 {
        emu.registers.pc = 0x200 + 2 * k;
        if op_2(&mut emu, 0x2300) == Err(Fault::StackOverflow) {
            reports += 1;
        }
    }
    assert_eq!(reports, 1);
    assert_eq!(emu.registers.sp, 15);
    emu.registers.pc = 0x280;
    let stack = emu.stack;
    assert_eq!(op_2(&mut emu, 0x2300), Err(Fault::StackOverflow));
    assert_eq!(emu.registers.sp, 15);
    assert_eq!(emu.registers.pc, 0x280);
    assert_eq!(emu.stack, stack);
}

#[test]
fn skip_if_equal_byte() {
    let mut emu = Emu::new();
    emu.registers.v[3] = 0x42;
    op_3(&mut emu, 0x3342);
    assert_eq!(emu.registers.pc, 0x202);
    op_3(&mut emu, 0x3343);
    assert_eq!(emu.registers.pc, 0x202);
}

#[test]
fn skip_if_not_equal_byte() {
    let mut emu = Emu::new();
    emu.registers.v[3] = 0x42;
    op_4(&mut emu, 0x4342);
    assert_eq!(emu.registers.pc, 0x200);
    op_4(&mut emu, 0x4343);
    assert_eq!(emu.registers.pc, 0x202);
}

#[test]
fn skip_if_registers_equal() {
    let mut emu = Emu::new();
    emu.registers.v[1] = 7;
    emu.registers.v[2] = 7;
    emu.registers.v[3] = 8;
    assert_eq!(op_5(&mut emu, 0x5120), Ok(()));
    assert_eq!(emu.registers.pc, 0x202);
    assert_eq!(op_5(&mut emu, 0x5130), Ok(()));
    assert_eq!(emu.registers.pc, 0x202);
}

#[test]
fn family_5_with_low_nibble_is_unknown() {
    let mut emu = Emu::new();
    assert_eq!(op_5(&mut emu, 0x5121), Err(Fault::UnknownOpcode(0x5121)));
    assert_eq!(emu.registers.pc, 0x200);
}

#[test]
fn skip_if_registers_differ() {
    let mut emu = Emu::new();
    emu.registers.v[1] = 7;
    emu.registers.v[2] = 7;
    emu.registers.v[3] = 8;
    assert_eq!(op_9(&mut emu, 0x9120), Ok(()));
    assert_eq!(emu.registers.pc, 0x200);
    assert_eq!(op_9(&mut emu, 0x9130), Ok(()));
    assert_eq!(emu.registers.pc, 0x202);
    assert_eq!(op_9(&mut emu, 0x9135), Err(Fault::UnknownOpcode(0x9135)));
    assert_eq!(emu.registers.pc, 0x202);
}

#[test]
fn load_then_add_wraps_and_keeps_flag() {
    let mut emu = Emu::new();
    emu.registers.v[0xF] = 0x5A;
    op_6(&mut emu, 0x63F0);
    assert_eq!(emu.registers.v[3], 0xF0);
    op_7(&mut emu, 0x7320);
    assert_eq!(emu.registers.v[3], 0x10);
    assert_eq!(emu.registers.v[0xF], 0x5A);
}

#[test]
fn load_then_add_for_every_register_and_some_bytes() {
    for x in 0..15u16 {
        for &(kk, kk2) in &[(0u16, 0u16), (1, 255), (255, 255), (128, 128), (17, 4)] {
            let mut emu = Emu::new();
            emu.registers.v[0xF] = 9;
            op_6(&mut emu, 0x6000 | (x << 8) | kk);
            op_7(&mut emu, 0x7000 | (x << 8) | kk2);
            assert_eq!(emu.registers.v[x as usize] as u16, (kk + kk2) % 256);
            assert_eq!(emu.registers.v[0xF], 9);
        }
    }
}

#[test]
fn register_copy_and_logic() {
    let mut emu = Emu::new();
    emu.registers.v[1] = 0b1100;
    emu.registers.v[2] = 0b1010;
    assert_eq!(op_8(&mut emu, 0x8321), Ok(()));
    assert_eq!(emu.registers.v[3], 0b1010);
    emu.registers.v[3] = 0b1100;
    assert_eq!(op_8(&mut emu, 0x8321), Ok(()));
    assert_eq!(emu.registers.v[3], 0b1110);
    emu.registers.v[3] = 0b1100;
    assert_eq!(op_8(&mut emu, 0x8322), Ok(()));
    assert_eq!(emu.registers.v[3], 0b1000);
    emu.registers.v[3] = 0b1100;
    assert_eq!(op_8(&mut emu, 0x8323), Ok(()));
    assert_eq!(emu.registers.v[3], 0b0110);
    assert_eq!(op_8(&mut emu, 0x8120), Ok(()));
    assert_eq!(emu.registers.v[1], 0b1010);
}

#[test]
fn add_with_carry() {
    let mut emu = Emu::new();
    emu.registers.v[1] = 200;
    emu.registers.v[2] = 100;
    assert_eq!(op_8(&mut emu, 0x8124), Ok(()));
    assert_eq!(emu.registers.v[1], 44);
    assert_eq!(emu.registers.v[0xF], 1);
    emu.registers.v[1] = 100;
    emu.registers.v[2] = 155;
    assert_eq!(op_8(&mut emu, 0x8124), Ok(()));
    assert_eq!(emu.registers.v[1], 255);
    assert_eq!(emu.registers.v[0xF], 0);
    emu.registers.v[1] = 101;
    assert_eq!(op_8(&mut emu, 0x8124), Ok(()));
    assert_eq!(emu.registers.v[1], 0);
    assert_eq!(emu.registers.v[0xF], 1);
}

#[test]
fn subtract_sets_flag_when_no_borrow() {
    let mut emu = Emu::new();
    emu.registers.v[1] = 10;
    emu.registers.v[2] = 3;
    assert_eq!(op_8(&mut emu, 0x8125), Ok(()));
    assert_eq!(emu.registers.v[1], 7);
    assert_eq!(emu.registers.v[0xF], 1);
    emu.registers.v[1] = 3;
    emu.registers.v[2] = 10;
    assert_eq!(op_8(&mut emu, 0x8125), Ok(()));
    assert_eq!(emu.registers.v[1], 249);
    assert_eq!(emu.registers.v[0xF], 0);
    emu.registers.v[1] = 10;
    emu.registers.v[2] = 10;
    assert_eq!(op_8(&mut emu, 0x8125), Ok(()));
    assert_eq!(emu.registers.v[1], 0);
    assert_eq!(emu.registers.v[0xF], 1);
}

#[test]
fn reverse_subtract_is_vy_minus_vx() {
    let mut emu = Emu::new();
    emu.registers.v[1] = 3;
    emu.registers.v[2] = 10;
    assert_eq!(op_8(&mut emu, 0x8127), Ok(()));
    assert_eq!(emu.registers.v[1], 7);
    assert_eq!(emu.registers.v[0xF], 1);
    emu.registers.v[1] = 10;
    emu.registers.v[2] = 3;
    assert_eq!(op_8(&mut emu, 0x8127), Ok(()));
    assert_eq!(emu.registers.v[1], 249);
    assert_eq!(emu.registers.v[0xF], 0);
}

#[test]
fn shifts_put_low_bit_in_flag() {
    let mut emu = Emu::new();
    emu.registers.v[1] = 0b1000_0101;
    assert_eq!(op_8(&mut emu, 0x8126), Ok(()));
    assert_eq!(emu.registers.v[1], 0b0100_0010);
    assert_eq!(emu.registers.v[0xF], 1);
    emu.registers.v[1] = 0b1000_0100;
    assert_eq!(op_8(&mut emu, 0x812E), Ok(()));
    assert_eq!(emu.registers.v[1], 0b0000_1000);
    assert_eq!(emu.registers.v[0xF], 0);
    emu.registers.v[1] = 0b1000_0101;
    assert_eq!(op_8(&mut emu, 0x812E), Ok(()));
    assert_eq!(emu.registers.v[1], 0b0000_1010);
    assert_eq!(emu.registers.v[0xF], 1);
}

#[test]
fn arithmetic_on_the_flag_register_itself() {
    let mut emu = Emu::new();
    emu.registers.v[0xF] = 200;
    emu.registers.v[2] = 100;
    assert_eq!(op_8(&mut emu, 0x8F24), Ok(()));
    assert_eq!(emu.registers.v[0xF], 1);
    emu.registers.v[0xF] = 3;
    assert_eq!(op_8(&mut emu, 0x8F26), Ok(()));
    assert_eq!(emu.registers.v[0xF], 0);
}

#[test]
fn unknown_arithmetic_is_reported() {
    let mut emu = Emu::new();
    emu.registers.v[1] = 5;
    emu.registers.v[2] = 6;
    for n in [0x8u16, 0x9, 0xA, 0xB, 0xC, 0xD, 0xF] {
        let opcode = 0x8120 | n;
        assert_eq!(op_8(&mut emu, opcode), Err(Fault::UnknownOpcode(opcode)));
    }
    assert_eq!(emu.registers.v[1], 5);
    assert_eq!(emu.registers.v[0xF], 0);
}

#[test]
fn set_address_register() {
    let mut emu = Emu::new();
    op_a(&mut emu, 0xA123);
    assert_eq!(emu.registers.i, 0x123);
}

#[test]
fn jump_with_offset() {
    let mut emu = Emu::new();
    emu.registers.v[0] = 0x10;
    op_b(&mut emu, 0xB300);
    assert_eq!(emu.registers.pc, 0x310);
    emu.registers.v[0] = 0xFF;
    op_b(&mut emu, 0xBFFF);
    assert_eq!(emu.registers.pc, 0x10FE);
}

#[test]
fn random_is_masked() {
    let mut emu = Emu::new();
    for _ in 0..200 {
        emu.registers.v[4] = 0xFF;
        op_c(&mut emu, 0xC40F);
        assert_eq!(emu.registers.v[4] & 0xF0, 0);
        op_c(&mut emu, 0xC400);
        assert_eq!(emu.registers.v[4], 0);
    }
}

#[test]
fn random_with_given_byte() {
    let mut emu = Emu::new();
    op_c_with(&mut emu, 0xC43C, 0xA5);
    assert_eq!(emu.registers.v[4], 0x24);
    op_c_with(&mut emu, 0xC5FF, 0xA5);
    assert_eq!(emu.registers.v[5], 0xA5);
}

#[test]
fn draw_font_glyph() {
    let mut emu = Emu::new();
    emu.registers.i = 0;
    emu.registers.v[0] = 0;
    emu.registers.v[1] = 0;
    op_d(&mut emu, 0xD015);
    let expected: Vec<usize> = vec![0, 1, 2, 3, 64, 67, 128, 131, 192, 195, 256, 257, 258, 259];
    assert_eq!(lit_cells(&emu), expected);
    assert_eq!(emu.registers.v[0xF], 0);
}

#[test]
fn draw_is_most_significant_bit_first() {
    let mut emu = Emu::new();
    emu.memory[0x300] = 0b1000_0001;
    emu.registers.i = 0x300;
    emu.registers.v[0] = 10;
    emu.registers.v[1] = 2;
    op_d(&mut emu, 0xD011);
    assert_eq!(lit_cells(&emu), vec![2 * 64 + 10, 2 * 64 + 17]);
}

#[test]
fn draw_wraps_horizontally() {
    let mut emu = Emu::new();
    emu.memory[0x300] = 0xFF;
    emu.registers.i = 0x300;
    emu.registers.v[0] = 60;
    emu.registers.v[1] = 0;
    op_d(&mut emu, 0xD011);
    assert_eq!(lit_cells(&emu), vec![0, 1, 2, 3, 60, 61, 62, 63]);
    assert_eq!(emu.registers.v[0xF], 0);
}

#[test]
fn draw_wraps_vertically() {
    let mut emu = Emu::new();
    emu.memory[0x300] = 0x80;
    emu.memory[0x301] = 0x80;
    emu.registers.i = 0x300;
    emu.registers.v[0] = 5;
    emu.registers.v[1] = 31;
    op_d(&mut emu, 0xD012);
    assert_eq!(lit_cells(&emu), vec![5, 31 * 64 + 5]);
}

#[test]
fn draw_wraps_large_coordinates() {
    let mut emu = Emu::new();
    emu.memory[0x300] = 0x80;
    emu.registers.i = 0x300;
    emu.registers.v[0] = 64 + 3;
    emu.registers.v[1] = 32 * 3 + 4;
    op_d(&mut emu, 0xD011);
    assert_eq!(lit_cells(&emu), vec![4 * 64 + 3]);
}

#[test]
fn draw_twice_restores_display_and_reports_collision() {
    let mut emu = Emu::new();
    emu.display[64 + 61] = true;
    emu.display[700] = true;
    let before = emu.display;
    emu.memory[0x300] = 0xFF;
    emu.memory[0x301] = 0x3C;
    emu.registers.i = 0x300;
    emu.registers.v[0] = 60;
    emu.registers.v[1] = 1;
    op_d(&mut emu, 0xD012);
    assert_eq!(emu.registers.v[0xF], 1);
    assert!(!emu.display[64 + 61]);
    assert!(emu.display[64 + 60]);
    assert!(emu.display[700]);
    op_d(&mut emu, 0xD012);
    assert_eq!(emu.registers.v[0xF], 1);
    assert_eq!(emu.display, before);
}

#[test]
fn draw_resets_flag_without_collision() {
    let mut emu = Emu::new();
    emu.registers.v[0xF] = 1;
    emu.memory[0x300] = 0x80;
    emu.registers.i = 0x300;
    op_d(&mut emu, 0xD121);
    assert_eq!(emu.registers.v[0xF], 0);
    assert_eq!(lit_cells(&emu), vec![0]);
}

#[test]
fn draw_of_zero_rows_only_resets_flag() {
    let mut emu = Emu::new();
    emu.registers.v[0xF] = 1;
    emu.display[9] = true;
    op_d(&mut emu, 0xD010);
    assert_eq!(emu.registers.v[0xF], 0);
    assert_eq!(lit_cells(&emu), vec![9]);
}

#[test]
fn draw_reads_sprite_across_end_of_memory() {
    let mut emu = Emu::new();
    emu.memory[4095] = 0x80;
    emu.registers.i = 4095;
    op_d(&mut emu, 0xD012);
    assert_eq!(lit_cells(&emu), vec![0, 64, 65, 66, 67]);
}

#[test]
fn skip_on_key_state() {
    let mut emu = Emu::new();
    emu.registers.v[2] = 0xA;
    emu.keys[0xA] = true;
    assert_eq!(op_e(&mut emu, 0xE29E), Ok(()));
    assert_eq!(emu.registers.pc, 0x202);
    assert_eq!(op_e(&mut emu, 0xE2A1), Ok(()));
    assert_eq!(emu.registers.pc, 0x202);
    emu.keys[0xA] = false;
    assert_eq!(op_e(&mut emu, 0xE29E), Ok(()));
    assert_eq!(emu.registers.pc, 0x202);
    assert_eq!(op_e(&mut emu, 0xE2A1), Ok(()));
    assert_eq!(emu.registers.pc, 0x204);
}

#[test]
fn key_value_out_of_range_is_never_down() {
    let mut emu = Emu::new();
    emu.keys = [true; 16];
    emu.registers.v[2] = 0x10;
    assert_eq!(op_e(&mut emu, 0xE29E), Ok(()));
    assert_eq!(emu.registers.pc, 0x200);
    assert_eq!(op_e(&mut emu, 0xE2A1), Ok(()));
    assert_eq!(emu.registers.pc, 0x202);
}

#[test]
fn unknown_key_opcode_is_reported() {
    let mut emu = Emu::new();
    assert_eq!(op_e(&mut emu, 0xE2FF), Err(Fault::UnknownOpcode(0xE2FF)));
    assert_eq!(emu.registers.pc, 0x200);
}

#[test]
fn timers_load_and_store() {
    let mut emu = Emu::new();
    emu.registers.dt = 77;
    assert_eq!(op_f(&mut emu, 0xF307), Ok(()));
    assert_eq!(emu.registers.v[3], 77);
    emu.registers.v[4] = 12;
    assert_eq!(op_f(&mut emu, 0xF415), Ok(()));
    assert_eq!(emu.registers.dt, 12);
    assert_eq!(op_f(&mut emu, 0xF418), Ok(()));
    assert_eq!(emu.registers.st, 12);
}

#[test]
fn key_wait_latches_and_rewinds() {
    let mut emu = Emu::new();
    emu.registers.pc = 0x202;
    assert_eq!(op_f(&mut emu, 0xF50A), Ok(()));
    assert_eq!(emu.waiting_for_key, Some(5));
    assert_eq!(emu.registers.pc, 0x200);
}

#[test]
fn address_register_arithmetic() {
    let mut emu = Emu::new();
    emu.registers.i = 0x100;
    emu.registers.v[1] = 0x23;
    assert_eq!(op_f(&mut emu, 0xF11E), Ok(()));
    assert_eq!(emu.registers.i, 0x123);
    emu.registers.i = 0xFFFF;
    emu.registers.v[1] = 2;
    assert_eq!(op_f(&mut emu, 0xF11E), Ok(()));
    assert_eq!(emu.registers.i, 1);
    emu.registers.v[1] = 0xA;
    assert_eq!(op_f(&mut emu, 0xF129), Ok(()));
    assert_eq!(emu.registers.i, 50);
    emu.registers.v[1] = 0xFF;
    assert_eq!(op_f(&mut emu, 0xF129), Ok(()));
    assert_eq!(emu.registers.i, 1275);
}

#[test]
fn decimal_digits() {
    let mut emu = Emu::new();
    emu.registers.v[7] = 156;
    emu.registers.i = 0x400;
    assert_eq!(op_f(&mut emu, 0xF733), Ok(()));
    assert_eq!(&emu.memory[0x400..0x403], &[1, 5, 6]);
    emu.registers.v[7] = 7;
    assert_eq!(op_f(&mut emu, 0xF733), Ok(()));
    assert_eq!(&emu.memory[0x400..0x403], &[0, 0, 7]);
    emu.registers.v[7] = 255;
    emu.registers.i = 4095;
    assert_eq!(op_f(&mut emu, 0xF733), Ok(()));
    assert_eq!(emu.memory[4095], 2);
    assert_eq!(emu.memory[0], 5);
    assert_eq!(emu.memory[1], 5);
}

#[test]
fn store_and_load_registers() {
    let mut emu = Emu::new();
    for k in 0..16 {
        emu.registers.v[k] = 0x10 + k as u8;
    }
    emu.registers.i = 0x500;
    assert_eq!(op_f(&mut emu, 0xF355), Ok(()));
    assert_eq!(&emu.memory[0x500..0x505], &[0x10, 0x11, 0x12, 0x13, 0x00]);
    assert_eq!(emu.registers.i, 0x500);
    emu.registers.v = [0; 16];
    emu.memory[0x504] = 0x99;
    assert_eq!(op_f(&mut emu, 0xF265), Ok(()));
    assert_eq!(&emu.registers.v[0..4], &[0x10, 0x11, 0x12, 0x00]);
    assert_eq!(op_f(&mut emu, 0xFF65), Ok(()));
    assert_eq!(emu.registers.v[4], 0x99);
    assert_eq!(emu.registers.v[3], 0x13);
}

#[test]
fn store_registers_wraps_at_end_of_memory() {
    let mut emu = Emu::new();
    emu.registers.v[0] = 1;
    emu.registers.v[1] = 2;
    emu.registers.i = 4095;
    assert_eq!(op_f(&mut emu, 0xF155), Ok(()));
    assert_eq!(emu.memory[4095], 1);
    assert_eq!(emu.memory[0], 2);
}

#[test]
fn unknown_family_f_opcode_is_reported() {
    let mut emu = Emu::new();
    emu.registers.v[1] = 9;
    assert_eq!(op_f(&mut emu, 0xF1FF), Err(Fault::UnknownOpcode(0xF1FF)));
    assert_eq!(emu.registers.v[1], 9);
    assert_eq!(emu.registers.i, 0);
    assert_eq!(emu.waiting_for_key, None);
}

#[test]
fn execute_routes_by_family() {
    let mut emu = Emu::new();
    assert_eq!(execute(&mut emu, 0x6A12), Ok(()));
    assert_eq!(emu.registers.v[0xA], 0x12);
    assert_eq!(execute(&mut emu, 0x7A01), Ok(()));
    assert_eq!(emu.registers.v[0xA], 0x13);
    assert_eq!(execute(&mut emu, 0xA321), Ok(()));
    assert_eq!(emu.registers.i, 0x321);
    assert_eq!(execute(&mut emu, 0x1400), Ok(()));
    assert_eq!(emu.registers.pc, 0x400);
    assert_eq!(execute(&mut emu, 0x2500), Ok(()));
    assert_eq!(emu.registers.pc, 0x500);
    assert_eq!(execute(&mut emu, 0x00EE), Ok(()));
    assert_eq!(emu.registers.pc, 0x400);
    assert_eq!(execute(&mut emu, 0x00EE), Err(Fault::StackUnderflow));
    assert_eq!(execute(&mut emu, 0x800F), Err(Fault::UnknownOpcode(0x800F)));
    assert_eq!(execute(&mut emu, 0xCA00), Ok(()));
    assert_eq!(emu.registers.v[0xA], 0);
}

#[test]
fn key_wait_never_moves_the_program_counter_up() {
    for pc in [0u16, 1] {
        let mut emu = Emu::new();
        emu.registers.pc = pc;
        emu.keys[4] = true;
        assert_eq!(op_f(&mut emu, 0xF70A), Ok(()));
        assert_eq!(emu.waiting_for_key, Some(7));
        assert_eq!(emu.registers.pc, pc);
        assert_eq!(emu.registers.v, [0u8; 16]);
    }
    let mut emu = Emu::new();
    emu.registers.pc = 2;
    assert_eq!(op_f(&mut emu, 0xF70A), Ok(()));
    assert_eq!(emu.registers.pc, 0);
    emu.registers.pc = 0xFFFF;
    assert_eq!(op_f(&mut emu, 0xF70A), Ok(()));
    assert_eq!(emu.registers.pc, 0xFFFD);
}

#[test]
fn key_wait_changes_only_latch_and_program_counter() {
    let mut emu = Emu::new();
    emu.registers.pc = 0x302;
    emu.registers.v[7] = 9;
    emu.registers.i = 0x123;
    emu.registers.dt = 4;
    emu.registers.st = 5;
    emu.keys[3] = true;
    emu.display[17] = true;
    let memory = emu.memory;
    let display = emu.display;
    assert_eq!(op_f(&mut emu, 0xF70A), Ok(()));
    assert_eq!(emu.waiting_for_key, Some(7));
    assert_eq!(emu.registers.pc, 0x300);
    assert_eq!(emu.registers.v[7], 9);
    assert_eq!(emu.registers.i, 0x123);
    assert_eq!(emu.registers.sp, 0);
    assert_eq!(emu.registers.dt, 4);
    assert_eq!(emu.registers.st, 5);
    assert_eq!(emu.stack, [0u16; 16]);
    assert_eq!(emu.memory, memory);
    assert_eq!(emu.display, display);
}
