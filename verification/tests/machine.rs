use chip8::cpu::{Chip8Error, StepOutcome, CHIP8};
use chip8::opcodes::{Instruction, Operand, VxyRegister};

#[test]
fn add_sets_carry_flag_on_overflow() {
    let mut m = CHIP8::new();
    let keys = [false; 16];
    m.reg.Vx[0] = 0xFF;
    m.reg.Vx[1] = 0x01;
    let r = m.execute_instruction(
        Instruction::ADD(VxyRegister(0), Operand::Reg(VxyRegister(1))),
        &keys,
    );
    assert_eq!(r, Ok(StepOutcome::Ran));
    assert_eq!(m.reg.Vx[0], 0x00);
    assert_eq!(m.reg.Vx[0xF], 1);

    m.reg.Vx[2] = 0x01;
    m.reg.Vx[3] = 0x01;
    let r = m.execute_instruction(
        Instruction::ADD(VxyRegister(2), Operand::Reg(VxyRegister(3))),
        &keys,
    );
    assert_eq!(r, Ok(StepOutcome::Ran));
    assert_eq!(m.reg.Vx[2], 0x02);
    assert_eq!(m.reg.Vx[0xF], 0);
}

#[test]
fn sub_flag_reports_no_borrow() {
    let mut m = CHIP8::new();
    let keys = [false; 16];
    m.reg.Vx[0] = 5;
    m.reg.Vx[1] = 3;
    let r = m.execute_instruction(Instruction::SUB(VxyRegister(0), VxyRegister(1)), &keys);
    assert_eq!(r, Ok(StepOutcome::Ran));
    assert_eq!(m.reg.Vx[0], 2);
    assert_eq!(m.reg.Vx[0xF], 1);

    m.reg.Vx[2] = 3;
    m.reg.Vx[3] = 5;
    let r = m.execute_instruction(Instruction::SUB(VxyRegister(2), VxyRegister(3)), &keys);
    assert_eq!(r, Ok(StepOutcome::Ran));
    assert_eq!(m.reg.Vx[2], 254);
    assert_eq!(m.reg.Vx[0xF], 0);
}

#[test]
fn subn_stores_into_its_second_named_register() {
    let mut m = CHIP8::new();
    let keys = [false; 16];
    m.reg.Vx[0] = 3;
    m.reg.Vx[1] = 5;
    // SUBN(X, Y) is defined as SUB(Y, X), so the difference lands in Y.
    let r = m.execute_instruction(Instruction::SUBN(VxyRegister(0), VxyRegister(1)), &keys);
    assert_eq!(r, Ok(StepOutcome::Ran));
    assert_eq!(m.reg.Vx[1], 2);
    assert_eq!(m.reg.Vx[0xF], 1);
    assert_eq!(m.reg.Vx[0], 3);
}

#[test]
fn shifts_move_the_edge_bit_into_the_flag() {
    let mut m = CHIP8::new();
    let keys = [false; 16];
    m.reg.Vx[0] = 0b011;
    let r = m.execute_instruction(Instruction::SHR(VxyRegister(0)), &keys);
    assert_eq!(r, Ok(StepOutcome::Ran));
    assert_eq!(m.reg.Vx[0], 0b001);
    assert_eq!(m.reg.Vx[0xF], 1);

    m.reg.Vx[1] = 0b10000001;
    let r = m.execute_instruction(Instruction::SHL(VxyRegister(1)), &keys);
    assert_eq!(r, Ok(StepOutcome::Ran));
    assert_eq!(m.reg.Vx[1], 0b00000010);
    assert_eq!(m.reg.Vx[0xF], 1);

    m.reg.Vx[2] = 0b010;
    let r = m.execute_instruction(Instruction::SHR(VxyRegister(2)), &keys);
    assert_eq!(r, Ok(StepOutcome::Ran));
    assert_eq!(m.reg.Vx[2], 0b001);
    assert_eq!(m.reg.Vx[0xF], 0);
}

#[test]
fn bitwise_ops_write_the_first_register() {
    let mut m = CHIP8::new();
    let keys = [false; 16];
    m.reg.Vx[0] = 0b1100;
    m.reg.Vx[1] = 0b1010;
    let r = m.execute_instruction(Instruction::OR(VxyRegister(0), VxyRegister(1)), &keys);
    assert_eq!(r, Ok(StepOutcome::Ran));
    assert_eq!(m.reg.Vx[0], 0b1110);

    m.reg.Vx[2] = 0b1100;
    m.reg.Vx[3] = 0b1010;
    let r = m.execute_instruction(Instruction::AND(VxyRegister(2), VxyRegister(3)), &keys);
    assert_eq!(r, Ok(StepOutcome::Ran));
    assert_eq!(m.reg.Vx[2], 0b1000);

    m.reg.Vx[4] = 0b1100;
    m.reg.Vx[5] = 0b1010;
    let r = m.execute_instruction(Instruction::XOR(VxyRegister(4), VxyRegister(5)), &keys);
    assert_eq!(r, Ok(StepOutcome::Ran));
    assert_eq!(m.reg.Vx[4], 0b0110);
}

#[test]
fn rnd_masks_the_random_byte() {
    let mut m = CHIP8::new();
    let keys = [false; 16];
    let r = m.execute_instruction(Instruction::RND(VxyRegister(0), 0x0F), &keys);
    assert_eq!(r, Ok(StepOutcome::Ran));
    assert!(m.reg.Vx[0] <= 0x0F);

    m.reg.Vx[1] = 0xAA;
    let r = m.execute_instruction(Instruction::RND(VxyRegister(1), 0x00), &keys);
    assert_eq!(r, Ok(StepOutcome::Ran));
    assert_eq!(m.reg.Vx[1], 0);
}

#[test]
fn bcd_instruction_writes_digits_at_the_index_register() {
    let mut m = CHIP8::new();
    let keys = [false; 16];
    m.reg.Vx[0] = 255;
    m.reg.I = 0x300;
    let r = m.execute_instruction(Instruction::LD_B(VxyRegister(0)), &keys);
    assert_eq!(r, Ok(StepOutcome::Ran));
    assert_eq!(m.ram[0x300], 2);
    assert_eq!(m.ram[0x301], 5);
    assert_eq!(m.ram[0x302], 5);
}

#[test]
fn register_memory_round_trip() {
    let mut m = CHIP8::new();
    let keys = [false; 16];
    for k in 0..16 {
        m.reg.Vx[k] = (k as u8) * 3 + 1;
    }
    m.reg.I = 0x400;
    let r = m.execute_instruction(Instruction::LD_I_Vx(VxyRegister(15)), &keys);
    assert_eq!(r, Ok(StepOutcome::Ran));
    for k in 0..16 {
        assert_eq!(m.ram[0x400 + k], (k as u8) * 3 + 1);
    }
    for k in 0..16 {
        m.reg.Vx[k] = 0;
    }
    let r = m.execute_instruction(Instruction::LD_Vx_I(VxyRegister(15)), &keys);
    assert_eq!(r, Ok(StepOutcome::Ran));
    for k in 0..16 {
        assert_eq!(m.reg.Vx[k], (k as u8) * 3 + 1);
    }
}

#[test]
fn timers_count_down_to_zero_and_stop() {
    let mut m = CHIP8::new();
    m.reg.set_dt(5);
    assert!(m.reg.is_dt_active());
    for _ in 0..5 {
        m.reg.tick_dt();
    }
    assert_eq!(m.reg.get_dt(), 0);
    for _ in 0..3 {
        m.reg.tick_dt();
    }
    assert_eq!(m.reg.get_dt(), 0);
    assert!(!m.reg.is_dt_active());

    m.reg.set_st(2);
    assert!(m.reg.is_st_active());
    m.reg.tick_st();
    m.reg.tick_st();
    m.reg.tick_st();
    assert_eq!(m.reg.get_st(), 0);
    assert!(!m.reg.is_st_active());
    assert_eq!(m.reg.get_dt(), 0);
}

#[test]
fn timer_instructions_move_values_both_ways() {
    let mut m = CHIP8::new();
    let keys = [false; 16];
    m.reg.Vx[4] = 42;
    let r = m.execute_instruction(Instruction::LD_DT_Vx(VxyRegister(4)), &keys);
    assert_eq!(r, Ok(StepOutcome::Ran));
    assert_eq!(m.reg.get_dt(), 42);
    let r = m.execute_instruction(Instruction::LD_Vx_DT(VxyRegister(5)), &keys);
    assert_eq!(r, Ok(StepOutcome::Ran));
    assert_eq!(m.reg.Vx[5], 42);
    let r = m.execute_instruction(Instruction::LD_ST_Vx(VxyRegister(4)), &keys);
    assert_eq!(r, Ok(StepOutcome::Ran));
    assert_eq!(m.reg.get_st(), 42);
}

#[test]
fn draw_twice_toggles_off_and_reports_collision() {
    let mut m = CHIP8::new();
    let keys = [false; 16];
    // Glyph "0" sits at memory offset 0.
    m.reg.I = 0;
    m.reg.Vx[0] = 10;
    m.reg.Vx[1] = 7;
    let r = m.execute_instruction(
        Instruction::DRW(VxyRegister(0), VxyRegister(1), 5),
        &keys,
    );
    assert_eq!(r, Ok(StepOutcome::Published));
    assert_eq!(m.reg.Vx[0xF], 0);
    // Glyph "0" is 0xF0 0x90 0x90 0x90 0xF0: 14 lit pixels.
    let lit = m.display.pixels.iter().filter(|p| **p).count();
    assert_eq!(lit, 14);
    assert!(m.display.pixels[7 * 64 + 10]);

    let r = m.execute_instruction(
        Instruction::DRW(VxyRegister(0), VxyRegister(1), 5),
        &keys,
    );
    assert_eq!(r, Ok(StepOutcome::Published));
    assert_eq!(m.reg.Vx[0xF], 1);
    let lit = m.display.pixels.iter().filter(|p| **p).count();
    assert_eq!(lit, 0);
}

#[test]
fn draw_wraps_both_axes() {
    let mut m = CHIP8::new();
    let keys = [false; 16];
    m.reg.I = 0;
    m.reg.Vx[0] = 63;
    m.reg.Vx[1] = 31;
    let r = m.execute_instruction(
        Instruction::DRW(VxyRegister(0), VxyRegister(1), 5),
        &keys,
    );
    assert_eq!(r, Ok(StepOutcome::Published));
    assert_eq!(m.reg.Vx[0xF], 0);
    // Row 0 of glyph "0" is 0xF0: columns 63, 0, 1, 2 of row 31.
    assert!(m.display.pixels[31 * 64 + 63]);
    assert!(m.display.pixels[31 * 64 + 0]);
    assert!(m.display.pixels[31 * 64 + 1]);
    assert!(m.display.pixels[31 * 64 + 2]);
    assert!(!m.display.pixels[31 * 64 + 3]);
    // Row 1 is 0x90: columns 63 and 2 of row (31 + 1) % 32 == 0.
    assert!(m.display.pixels[0 * 64 + 63]);
    assert!(m.display.pixels[0 * 64 + 2]);
    assert!(!m.display.pixels[0 * 64 + 0]);
    // Row 4 is 0xF0 again, landing on row (31 + 4) % 32 == 3.
    assert!(m.display.pixels[3 * 64 + 63]);
    assert!(m.display.pixels[3 * 64 + 2]);
}

#[test]
fn cls_clears_every_pixel() {
    let mut m = CHIP8::new();
    let keys = [false; 16];
    m.reg.I = 0;
    m.reg.Vx[0] = 0;
    m.reg.Vx[1] = 0;
    m.execute_instruction(Instruction::DRW(VxyRegister(0), VxyRegister(1), 5), &keys)
        .unwrap();
    let r = m.execute_instruction(Instruction::CLS, &keys);
    assert_eq!(r, Ok(StepOutcome::Published));
    assert!(m.display.pixels.iter().all(|p| !*p));
}

#[test]
fn sixteen_nested_calls_succeed_the_seventeenth_is_fatal() {
    let mut m = CHIP8::new();
    let keys = [false; 16];
    for k in 0..16 {
        let r = m.execute_instruction(Instruction::CALL(0x300 + k), &keys);
        assert_eq!(r, Ok(StepOutcome::Ran));
        assert_eq!(m.reg.SP, k as u8 + 1);
    }
    assert_eq!(m.stack.len(), 16);
    let r = m.execute_instruction(Instruction::CALL(0x500), &keys);
    assert_eq!(r, Err(Chip8Error::StackOverflow));
    assert_eq!(m.stack.len(), 16);
}

#[test]
fn ret_on_an_empty_stack_is_fatal() {
    let mut m = CHIP8::new();
    let keys = [false; 16];
    let r = m.execute_instruction(Instruction::RET, &keys);
    assert_eq!(r, Err(Chip8Error::StackUnderflow));
    assert_eq!(m.reg.PC, 0x200);
}

#[test]
fn call_and_ret_resume_after_the_call() {
    let mut m = CHIP8::new();
    let keys = [false; 16];
    // 0x200: CALL 0x204;  0x204: RET
    let r = m.load(&vec![0x22, 0x04, 0x00, 0x00, 0x00, 0xEE]);
    assert_eq!(r, Ok(()));
    let r = m.step(&keys);
    assert_eq!(r, Ok(StepOutcome::Ran));
    assert_eq!(m.reg.PC, 0x204);
    assert_eq!(m.stack, vec![0x200]);
    assert_eq!(m.reg.SP, 1);
    let r = m.step(&keys);
    assert_eq!(r, Ok(StepOutcome::Ran));
    assert_eq!(m.reg.PC, 0x202);
    assert_eq!(m.reg.SP, 0);
    assert!(m.stack.is_empty());
}

#[test]
fn pc_advances_by_two_except_for_jumps() {
    let mut m = CHIP8::new();
    let keys = [false; 16];
    // LD V0, 7; ADD V0, 1; SE V0, 8 (taken); anything; JP 0x200
    let r = m.load(&vec![
        0x60, 0x07, 0x70, 0x01, 0x30, 0x08, 0x00, 0x00, 0x12, 0x00,
    ]);
    assert_eq!(r, Ok(()));
    let r = m.step(&keys);
    assert_eq!(r, Ok(StepOutcome::Ran));
    assert_eq!(m.reg.PC, 0x202);
    assert_eq!(m.reg.Vx[0], 7);
    let r = m.step(&keys);
    assert_eq!(r, Ok(StepOutcome::Ran));
    assert_eq!(m.reg.PC, 0x204);
    assert_eq!(m.reg.Vx[0], 8);
    // A taken skip advances 2 for itself plus one extra slot.
    let r = m.step(&keys);
    assert_eq!(r, Ok(StepOutcome::Ran));
    assert_eq!(m.reg.PC, 0x208);
    // JP sets PC itself: no advance past it.
    let r = m.step(&keys);
    assert_eq!(r, Ok(StepOutcome::Ran));
    assert_eq!(m.reg.PC, 0x200);
}

#[test]
fn untaken_skips_advance_by_two() {
    let mut m = CHIP8::new();
    let keys = [false; 16];
    // SE V0, 5 with V0 == 0: not taken. SNE V0, 0 with V0 == 0: not taken.
    let r = m.load(&vec![0x30, 0x05, 0x40, 0x00]);
    assert_eq!(r, Ok(()));
    m.step(&keys).unwrap();
    assert_eq!(m.reg.PC, 0x202);
    m.step(&keys).unwrap();
    assert_eq!(m.reg.PC, 0x204);
}

#[test]
fn skp_and_sknp_consult_the_keypad() {
    let mut m = CHIP8::new();
    let mut keys = [false; 16];
    keys[0xA] = true;
    m.reg.Vx[0] = 0xA;
    let r = m.execute_instruction(Instruction::SKP(VxyRegister(0)), &keys);
    assert_eq!(r, Ok(StepOutcome::Ran));
    assert_eq!(m.reg.PC, 0x202);
    let r = m.execute_instruction(Instruction::SKNP(VxyRegister(0)), &keys);
    assert_eq!(r, Ok(StepOutcome::Ran));
    assert_eq!(m.reg.PC, 0x202);
    m.reg.Vx[1] = 0x3;
    let r = m.execute_instruction(Instruction::SKNP(VxyRegister(1)), &keys);
    assert_eq!(r, Ok(StepOutcome::Ran));
    assert_eq!(m.reg.PC, 0x204);
}

#[test]
fn invalid_key_codes_are_fatal() {
    let mut m = CHIP8::new();
    let keys = [false; 16];
    m.reg.Vx[0] = 0x10;
    let r = m.execute_instruction(Instruction::SKP(VxyRegister(0)), &keys);
    assert_eq!(r, Err(Chip8Error::InvalidKeyCode(0x10)));
    let r = m.execute_instruction(Instruction::SKNP(VxyRegister(0)), &keys);
    assert_eq!(r, Err(Chip8Error::InvalidKeyCode(0x10)));
}

#[test]
fn key_wait_suspends_and_supply_key_stores() {
    let mut m = CHIP8::new();
    let keys = [false; 16];
    let r = m.load(&vec![0xF3, 0x0A]);
    assert_eq!(r, Ok(()));
    let r = m.step(&keys);
    assert_eq!(r, Ok(StepOutcome::AwaitingKey(VxyRegister(3))));
    assert_eq!(m.reg.PC, 0x202);
    m.supply_key(VxyRegister(3), 0xB);
    assert_eq!(m.reg.Vx[3], 0xB);
}

#[test]
fn sprite_addressing_and_bad_indexes() {
    assert_eq!(CHIP8::get_sprite_addr(0x0), Some(0));
    assert_eq!(CHIP8::get_sprite_addr(0xF), Some(75));
    assert_eq!(CHIP8::get_sprite_addr(0x10), None);

    let mut m = CHIP8::new();
    let keys = [false; 16];
    m.reg.Vx[0] = 0xC;
    let r = m.execute_instruction(Instruction::LD_F(VxyRegister(0)), &keys);
    assert_eq!(r, Ok(StepOutcome::Ran));
    assert_eq!(m.reg.I, 60);

    m.reg.Vx[1] = 0x10;
    let r = m.execute_instruction(Instruction::LD_F(VxyRegister(1)), &keys);
    assert_eq!(r, Err(Chip8Error::InvalidSpriteIndex(0x10)));
}

#[test]
fn index_register_instructions() {
    let mut m = CHIP8::new();
    let keys = [false; 16];
    let r = m.execute_instruction(Instruction::LD_I(0x123), &keys);
    assert_eq!(r, Ok(StepOutcome::Ran));
    assert_eq!(m.reg.I, 0x123);
    m.reg.Vx[2] = 0x10;
    let r = m.execute_instruction(Instruction::ADD_I(VxyRegister(2)), &keys);
    assert_eq!(r, Ok(StepOutcome::Ran));
    assert_eq!(m.reg.I, 0x133);
    assert_eq!(m.reg.Vx[0xF], 0);
}

#[test]
fn jumps_set_the_program_counter() {
    let mut m = CHIP8::new();
    let keys = [false; 16];
    let r = m.execute_instruction(Instruction::JP(0x345), &keys);
    assert_eq!(r, Ok(StepOutcome::Ran));
    assert_eq!(m.reg.PC, 0x345);
    m.reg.Vx[0] = 0x10;
    let r = m.execute_instruction(Instruction::JP_V0(0x345), &keys);
    assert_eq!(r, Ok(StepOutcome::Ran));
    assert_eq!(m.reg.PC, 0x355);
}

#[test]
fn out_of_range_memory_access_is_fatal_not_a_crash() {
    let mut m = CHIP8::new();
    let keys = [false; 16];
    // LD_I 0xFFF then DRW with one row would read past the end of memory.
    let r = m.load(&vec![0xAF, 0xFF, 0xD0, 0x01]);
    assert_eq!(r, Ok(()));
    m.step(&keys).unwrap();
    assert_eq!(m.reg.I, 0xFFF);
    let r = m.step(&keys);
    assert_eq!(r, Err(Chip8Error::MemoryOutOfRange));
    assert_eq!(m.reg.PC, 0x202);
}

#[test]
fn decode_errors_stop_a_step() {
    let mut m = CHIP8::new();
    let keys = [false; 16];
    let r = m.load(&vec![0xFF, 0xFF]);
    assert_eq!(r, Ok(()));
    let r = m.step(&keys);
    assert_eq!(r, Err(Chip8Error::DecodeError(0xFFFF)));
    assert_eq!(m.reg.PC, 0x200);
}

#[test]
fn stepping_past_the_end_of_memory_halts() {
    let mut m = CHIP8::new();
    let keys = [false; 16];
    m.reg.PC = 0xFFE;
    let r = m.step(&keys);
    assert_eq!(r, Ok(StepOutcome::Halted));
    assert_eq!(m.reg.PC, 0xFFE);
}

#[test]
fn load_rejects_an_oversized_cartridge() {
    let mut m = CHIP8::new();
    let big = vec![0u8; 0xE00];
    let r = m.load(&big);
    assert_eq!(r, Err(Chip8Error::CartridgeTooLarge));
    let exact = vec![7u8; 0xDFF];
    let r = m.load(&exact);
    assert_eq!(r, Ok(()));
    assert_eq!(m.ram[0x200], 7);
    assert_eq!(m.ram[0xFFE], 7);
}

#[test]
fn a_fresh_machine_has_glyphs_and_zeroed_program_space() {
    let m = CHIP8::new();
    assert_eq!(m.ram.len(), 0xFFF);
    assert_eq!(&m.ram[0..5], &[0xF0, 0x90, 0x90, 0x90, 0xF0]);
    assert_eq!(&m.ram[75..80], &[0xF0, 0x80, 0xF0, 0x80, 0x80]);
    assert!(m.ram[80..].iter().all(|b| *b == 0));
    assert_eq!(m.reg.PC, 0x200);
    assert_eq!(m.reg.SP, 0);
    assert_eq!(m.reg.I, 0);
    assert_eq!(m.reg.get_dt(), 0);
    assert_eq!(m.reg.get_st(), 0);
    assert!(m.stack.is_empty());
    assert!(m.display.pixels.iter().all(|p| !*p));
}

#[test]
fn ld_moves_registers_and_immediates() {
    let mut m = CHIP8::new();
    let keys = [false; 16];
    let r = m.execute_instruction(Instruction::LD(VxyRegister(0), Operand::Imm(0x42)), &keys);
    assert_eq!(r, Ok(StepOutcome::Ran));
    assert_eq!(m.reg.Vx[0], 0x42);
    let r = m.execute_instruction(
        Instruction::LD(VxyRegister(1), Operand::Reg(VxyRegister(0))),
        &keys,
    );
    assert_eq!(r, Ok(StepOutcome::Ran));
    assert_eq!(m.reg.Vx[1], 0x42);
}

#[test]
fn sys_is_a_no_op() {
    let mut m = CHIP8::new();
    let keys = [false; 16];
    let r = m.execute_instruction(Instruction::SYS(0x123), &keys);
    assert_eq!(r, Ok(StepOutcome::Ran));
    assert_eq!(m.reg.PC, 0x200);
    assert_eq!(m.reg.I, 0);
}

#[test]
fn register_accessors_read_and_write_by_name() {
    let mut m = CHIP8::new();
    m.set_vx_val(&chip8::registers::Register::Vx(7), 0x5D);
    assert_eq!(m.reg.Vx[7], 0x5D);
    assert_eq!(
        m.get_vx_val(&chip8::registers::Register::Vx(7)),
        Some(0x5D)
    );
}

#[test]
fn fresh_registers_and_init_reset_the_timers() {
    let mut r = chip8::registers::Registers::new();
    assert_eq!(r.PC, 0x200);
    assert_eq!(r.SP, 0);
    assert_eq!(r.I, 0);
    r.set_dt(9);
    r.set_st(4);
    r.init();
    assert_eq!(r.get_dt(), 0);
    assert_eq!(r.get_st(), 0);
}
