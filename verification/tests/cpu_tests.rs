use chip_8_lib::cpu::Cpu;
use chip_8_lib::emulate_cycle_error::EmulateCycleError;

/// A machine with one opcode placed at 0x200, ready to step.
fn cpu_with_opcode(hi: u8, lo: u8) -> Cpu {
    let mut cpu = Cpu::new();
    cpu.memory[0x200] = hi;
    cpu.memory[0x201] = lo;
    cpu
}

#[test]
fn addition_overflows() {
    let mut cpu = Cpu::new();
    cpu.v[0] = 255;
    cpu.memory[0x200] = 0x70 as u8;
    cpu.memory[0x201] = 0x02;

    cpu.emulate_cycle().unwrap();
    assert_eq!(cpu.v[0], 1);
}

#[test]
fn new_machine_initial_state() {
    let cpu = Cpu::new();
    assert_eq!(cpu.pc, 0x200);
    assert_eq!(cpu.i, 0);
    assert_eq!(cpu.sp, 0);
    assert_eq!(cpu.dt, 0);
    assert_eq!(cpu.st, 0);
    assert_eq!(cpu.memory.len(), 4096);
    assert_eq!(cpu.v, vec![0u8; 16]);
    assert_eq!(cpu.stack, vec![0u16; 16]);
    assert_eq!(cpu.display, vec![0u8; 2048]);
    assert_eq!(cpu.keys, vec![false; 16]);
    // The font table sits at 0x050..0x0A0; everything around it is zero.
    assert_eq!(cpu.memory[0x4F], 0);
    assert_eq!(cpu.memory[0x50], 0xF0);
    assert_eq!(cpu.memory[0x51], 0x90);
    assert_eq!(cpu.memory[0x9F], 0x80);
    assert_eq!(cpu.memory[0xA0], 0);
    assert_eq!(cpu.memory[0x200], 0);
}

#[test]
fn default_is_initial_state() {
    let cpu = Cpu::default();
    assert_eq!(cpu.pc, 0x200);
    assert_eq!(cpu.memory[0x50], 0xF0);
}

#[test]
fn initialize_writes_font_at_zero() {
    let mut cpu = Cpu::new();
    cpu.initialize();
    assert_eq!(cpu.memory[0], 0xF0);
    assert_eq!(cpu.memory[1], 0x90);
    assert_eq!(cpu.memory[79], 0x80);
    // The copy at 0x050 is untouched.
    assert_eq!(cpu.memory[0x50], 0xF0);
    assert_eq!(cpu.pc, 0x200);
}

#[test]
fn load_game_copies_to_0x200() {
    let mut cpu = Cpu::new();
    cpu.load_game(vec![0x12, 0x34, 0x56]);
    assert_eq!(cpu.memory[0x200], 0x12);
    assert_eq!(cpu.memory[0x201], 0x34);
    assert_eq!(cpu.memory[0x202], 0x56);
    assert_eq!(cpu.memory[0x203], 0);
    assert_eq!(cpu.pc, 0x200);
}

#[test]
fn fetch_merges_big_endian() {
    let mut cpu = Cpu::new();
    cpu.memory[0x200] = 0x22;
    cpu.memory[0x201] = 0xF6;
    assert_eq!(cpu.fetch_current_opcode(), 0x22F6);
}

#[test]
fn jump_sets_pc_for_every_address() {
    for nnn in 0u16..0x1000 {
        let mut cpu = cpu_with_opcode(0x10 | (nnn >> 8) as u8, (nnn & 0xFF) as u8);
        cpu.step_with_random(0).unwrap();
        assert_eq!(cpu.pc, nnn);
    }
}

#[test]
fn add_with_carry() {
    // 8014: V0 = V0 + V1, VF = carry.
    let mut cpu = cpu_with_opcode(0x80, 0x14);
    cpu.v[0] = 0xFF;
    cpu.v[1] = 0x02;
    cpu.step_with_random(0).unwrap();
    assert_eq!(cpu.v[0], 0x01);
    assert_eq!(cpu.v[0xF], 1);

    let mut cpu = cpu_with_opcode(0x80, 0x14);
    cpu.v[0] = 0x01;
    cpu.v[1] = 0x01;
    cpu.step_with_random(0).unwrap();
    assert_eq!(cpu.v[0], 0x02);
    assert_eq!(cpu.v[0xF], 0);
}

#[test]
fn sub_borrow() {
    // 8015: V0 = V0 - V1, VF = 1 exactly when no borrow.
    let mut cpu = cpu_with_opcode(0x80, 0x15);
    cpu.v[0] = 0x05;
    cpu.v[1] = 0x0A;
    cpu.step_with_random(0).unwrap();
    assert_eq!(cpu.v[0xF], 0);
    assert_eq!(cpu.v[0], 0xFB);

    let mut cpu = cpu_with_opcode(0x80, 0x15);
    cpu.v[0] = 0x0A;
    cpu.v[1] = 0x05;
    cpu.step_with_random(0).unwrap();
    assert_eq!(cpu.v[0xF], 1);
    assert_eq!(cpu.v[0], 0x05);
}

#[test]
fn subn_reverse_subtract() {
    // 8017: V0 = V1 - V0, VF = 1 exactly when V1 >= V0.
    let mut cpu = cpu_with_opcode(0x80, 0x17);
    cpu.v[0] = 0x05;
    cpu.v[1] = 0x0A;
    cpu.step_with_random(0).unwrap();
    assert_eq!(cpu.v[0], 0x05);
    assert_eq!(cpu.v[0xF], 1);

    let mut cpu = cpu_with_opcode(0x80, 0x17);
    cpu.v[0] = 0x0A;
    cpu.v[1] = 0x05;
    cpu.step_with_random(0).unwrap();
    assert_eq!(cpu.v[0], 0xFB);
    assert_eq!(cpu.v[0xF], 0);
}

#[test]
fn shift_right_keeps_low_bit_in_vf() {
    let mut cpu = cpu_with_opcode(0x80, 0x16);
    cpu.v[0] = 0x05;
    cpu.step_with_random(0).unwrap();
    assert_eq!(cpu.v[0], 0x02);
    assert_eq!(cpu.v[0xF], 1);

    let mut cpu = cpu_with_opcode(0x80, 0x16);
    cpu.v[0] = 0x04;
    cpu.step_with_random(0).unwrap();
    assert_eq!(cpu.v[0], 0x02);
    assert_eq!(cpu.v[0xF], 0);
}

#[test]
fn shift_left_keeps_high_bit_in_vf() {
    let mut cpu = cpu_with_opcode(0x80, 0x1E);
    cpu.v[0] = 0x81;
    cpu.step_with_random(0).unwrap();
    assert_eq!(cpu.v[0], 0x02);
    // The high bit comes out as 1, not as 0x80.
    assert_eq!(cpu.v[0xF], 1);

    let mut cpu = cpu_with_opcode(0x80, 0x1E);
    cpu.v[0] = 0x41;
    cpu.step_with_random(0).unwrap();
    assert_eq!(cpu.v[0], 0x82);
    assert_eq!(cpu.v[0xF], 0);
}

#[test]
fn bitwise_register_ops() {
    let mut cpu = cpu_with_opcode(0x80, 0x11); // OR
    cpu.v[0] = 0b1010_0000;
    cpu.v[1] = 0b0000_1010;
    cpu.step_with_random(0).unwrap();
    assert_eq!(cpu.v[0], 0b1010_1010);

    let mut cpu = cpu_with_opcode(0x80, 0x12); // AND
    cpu.v[0] = 0b1010_1010;
    cpu.v[1] = 0b1100_1100;
    cpu.step_with_random(0).unwrap();
    assert_eq!(cpu.v[0], 0b1000_1000);

    let mut cpu = cpu_with_opcode(0x80, 0x13); // XOR
    cpu.v[0] = 0b1010_1010;
    cpu.v[1] = 0b1100_1100;
    cpu.step_with_random(0).unwrap();
    assert_eq!(cpu.v[0], 0b0110_0110);

    let mut cpu = cpu_with_opcode(0x80, 0x10); // LD V0, V1
    cpu.v[1] = 0x42;
    cpu.step_with_random(0).unwrap();
    assert_eq!(cpu.v[0], 0x42);
}

#[test]
fn skip_instructions() {
    // 3xkk: skip when Vx == kk.
    let mut cpu = cpu_with_opcode(0x30, 0x42);
    cpu.v[0] = 0x42;
    cpu.step_with_random(0).unwrap();
    assert_eq!(cpu.pc, 0x204);
    let mut cpu = cpu_with_opcode(0x30, 0x42);
    cpu.v[0] = 0x41;
    cpu.step_with_random(0).unwrap();
    assert_eq!(cpu.pc, 0x202);

    // 4xkk: skip when Vx != kk.
    let mut cpu = cpu_with_opcode(0x40, 0x42);
    cpu.v[0] = 0x41;
    cpu.step_with_random(0).unwrap();
    assert_eq!(cpu.pc, 0x204);

    // 5xy0: skip when Vx == Vy.
    let mut cpu = cpu_with_opcode(0x50, 0x10);
    cpu.v[0] = 7;
    cpu.v[1] = 7;
    cpu.step_with_random(0).unwrap();
    assert_eq!(cpu.pc, 0x204);

    // 9xy0: skip when Vx != Vy.
    let mut cpu = cpu_with_opcode(0x90, 0x10);
    cpu.v[0] = 7;
    cpu.v[1] = 8;
    cpu.step_with_random(0).unwrap();
    assert_eq!(cpu.pc, 0x204);
}

#[test]
fn load_immediate_and_index() {
    let mut cpu = cpu_with_opcode(0x6A, 0x2F); // LD V10, 0x2F
    cpu.step_with_random(0).unwrap();
    assert_eq!(cpu.v[10], 0x2F);
    assert_eq!(cpu.pc, 0x202);

    let mut cpu = cpu_with_opcode(0xA1, 0x23); // LD I, 0x123
    cpu.step_with_random(0).unwrap();
    assert_eq!(cpu.i, 0x123);
}

#[test]
fn add_immediate_no_flag() {
    let mut cpu = cpu_with_opcode(0x70, 0x02);
    cpu.v[0] = 0xFF;
    cpu.v[0xF] = 9;
    cpu.step_with_random(0).unwrap();
    assert_eq!(cpu.v[0], 1);
    // 7xkk never touches VF.
    assert_eq!(cpu.v[0xF], 9);
}

#[test]
fn jump_plus_v0() {
    let mut cpu = cpu_with_opcode(0xB3, 0x00);
    cpu.v[0] = 0x21;
    cpu.step_with_random(0).unwrap();
    assert_eq!(cpu.pc, 0x321);
}

#[test]
fn call_and_return() {
    let mut cpu = cpu_with_opcode(0x23, 0x00); // CALL 0x300
    cpu.memory[0x300] = 0x00;
    cpu.memory[0x301] = 0xEE; // RET
    cpu.step_with_random(0).unwrap();
    assert_eq!(cpu.pc, 0x300);
    assert_eq!(cpu.sp, 1);
    assert_eq!(cpu.stack[1], 0x200);
    cpu.step_with_random(0).unwrap();
    // Return lands just past the call instruction.
    assert_eq!(cpu.pc, 0x202);
    assert_eq!(cpu.sp, 0);
}

#[test]
fn random_masked_by_zero_is_zero() {
    // Cxkk with kk = 0 must store 0 whatever the random source returned.
    let mut cpu = cpu_with_opcode(0xC0, 0x00);
    cpu.v[0] = 0xAA;
    cpu.emulate_cycle().unwrap();
    assert_eq!(cpu.v[0], 0);
}

#[test]
fn random_is_masked() {
    let mut cpu = cpu_with_opcode(0xC5, 0x0F);
    cpu.step_with_random(0xAB).unwrap();
    assert_eq!(cpu.v[5], 0x0B);
}

#[test]
fn sprite_wraps_at_right_edge() {
    let mut cpu = cpu_with_opcode(0xD0, 0x11); // DRW V0, V1, 1
    cpu.i = 0x300;
    cpu.memory[0x300] = 0xFF; // one full row of set bits
    cpu.v[0] = 60;
    cpu.v[1] = 0;
    cpu.step_with_random(0).unwrap();
    // Columns 60..=63 and the wrapped columns 0..=3 of row 0 light up.
    for x in 0..64 {
        let lit = (60..64).contains(&x) || (0..4).contains(&x);
        assert_eq!(cpu.display[x], if lit { 1 } else { 0 });
    }
    // No other row is touched.
    for p in 64..2048 {
        assert_eq!(cpu.display[p], 0);
    }
    assert_eq!(cpu.v[0xF], 0);

    // Drawing the same sprite at the same spot clears it, with a collision.
    cpu.pc = 0x200;
    cpu.step_with_random(0).unwrap();
    assert_eq!(cpu.display, vec![0u8; 2048]);
    assert_eq!(cpu.v[0xF], 1);
}

#[test]
fn sprite_wraps_at_bottom_edge() {
    let mut cpu = cpu_with_opcode(0xD0, 0x12); // DRW V0, V1, 2
    cpu.i = 0x300;
    cpu.memory[0x300] = 0x80; // top row: leftmost pixel
    cpu.memory[0x301] = 0x80; // second row: leftmost pixel
    cpu.v[0] = 0;
    cpu.v[1] = 31;
    cpu.step_with_random(0).unwrap();
    assert_eq!(cpu.display[31 * 64], 1); // row 31
    assert_eq!(cpu.display[0], 1); // wrapped to row 0
    assert_eq!(cpu.v[0xF], 0);
}

#[test]
fn sprite_collision_reported_once() {
    let mut cpu = cpu_with_opcode(0xD0, 0x11);
    cpu.i = 0x300;
    cpu.memory[0x300] = 0xC0; // two leftmost pixels
    cpu.display[0] = 1; // one of them is already lit
    cpu.step_with_random(0).unwrap();
    assert_eq!(cpu.display[0], 0); // lit pixel toggled off
    assert_eq!(cpu.display[1], 1); // dark pixel toggled on
    assert_eq!(cpu.v[0xF], 1);
}

#[test]
fn bcd_digits() {
    let mut cpu = cpu_with_opcode(0xF0, 0x33);
    cpu.i = 0x300;
    cpu.v[0] = 0;
    cpu.step_with_random(0).unwrap();
    assert_eq!(&cpu.memory[0x300..0x303], &[0, 0, 0]);

    let mut cpu = cpu_with_opcode(0xF0, 0x33);
    cpu.i = 0x300;
    cpu.v[0] = 255;
    cpu.step_with_random(0).unwrap();
    assert_eq!(&cpu.memory[0x300..0x303], &[2, 5, 5]);

    let mut cpu = cpu_with_opcode(0xF0, 0x33);
    cpu.i = 0x300;
    cpu.v[0] = 42;
    cpu.step_with_random(0).unwrap();
    assert_eq!(&cpu.memory[0x300..0x303], &[0, 4, 2]);
}

#[test]
fn cls_draw_cls_round_trip() {
    let mut cpu = cpu_with_opcode(0x00, 0xE0); // CLS
    cpu.memory[0x202] = 0xD0;
    cpu.memory[0x203] = 0x15; // DRW V0, V1, 5
    cpu.memory[0x204] = 0x00;
    cpu.memory[0x205] = 0xE0; // CLS
    cpu.i = 0x50; // draw the font glyph for 0
    cpu.display[100] = 1; // something lit before the first clear
    cpu.step_with_random(0).unwrap();
    assert_eq!(cpu.display, vec![0u8; 2048]);
    cpu.step_with_random(0).unwrap();
    assert!(cpu.display.iter().any(|&p| p == 1));
    cpu.step_with_random(0).unwrap();
    assert_eq!(cpu.display, vec![0u8; 2048]);
}

#[test]
fn timers_tick_once_per_cycle() {
    let mut cpu = cpu_with_opcode(0x00, 0xE0); // CLS touches no timer
    cpu.dt = 5;
    cpu.st = 0;
    cpu.step_with_random(0).unwrap();
    assert_eq!(cpu.dt, 4);
    assert_eq!(cpu.st, 0);
}

#[test]
fn timer_never_underflows() {
    let mut cpu = Cpu::new();
    cpu.dt = 1;
    for offset in (0..8).step_by(2) {
        cpu.memory[0x200 + offset] = 0x00;
        cpu.memory[0x201 + offset] = 0xE0;
    }
    cpu.step_with_random(0).unwrap();
    assert_eq!(cpu.dt, 0);
    cpu.step_with_random(0).unwrap();
    assert_eq!(cpu.dt, 0);
    cpu.step_with_random(0).unwrap();
    assert_eq!(cpu.dt, 0);
}

#[test]
fn timer_reads_and_writes() {
    let mut cpu = cpu_with_opcode(0xF0, 0x07); // LD V0, DT
    cpu.dt = 9;
    cpu.step_with_random(0).unwrap();
    assert_eq!(cpu.v[0], 9);
    assert_eq!(cpu.dt, 8); // the cycle still ticks the timer afterwards

    let mut cpu = cpu_with_opcode(0xF0, 0x15); // LD DT, V0
    cpu.v[0] = 5;
    cpu.step_with_random(0).unwrap();
    // The timer is loaded with 5, then the end-of-cycle tick takes one.
    assert_eq!(cpu.dt, 4);

    let mut cpu = cpu_with_opcode(0xF0, 0x18); // LD ST, V0
    cpu.v[0] = 3;
    cpu.step_with_random(0).unwrap();
    assert_eq!(cpu.st, 2);
}

#[test]
fn add_index() {
    let mut cpu = cpu_with_opcode(0xF0, 0x1E); // ADD I, V0
    cpu.i = 0x100;
    cpu.v[0] = 0x20;
    cpu.step_with_random(0).unwrap();
    assert_eq!(cpu.i, 0x120);
}

#[test]
fn font_glyph_address() {
    let mut cpu = cpu_with_opcode(0xF0, 0x29); // LD F, V0
    cpu.v[0] = 0xA;
    cpu.step_with_random(0).unwrap();
    // Glyphs are five bytes each, from 0x050 where `new` installed them.
    assert_eq!(cpu.i, 0x50 + 5 * 0xA);
    assert_eq!(cpu.memory[cpu.i as usize], 0xF0);
}

#[test]
fn store_and_load_registers() {
    let mut cpu = cpu_with_opcode(0xF2, 0x55); // LD [I], V2
    cpu.i = 0x300;
    cpu.v[0] = 1;
    cpu.v[1] = 2;
    cpu.v[2] = 3;
    cpu.v[3] = 4;
    cpu.step_with_random(0).unwrap();
    assert_eq!(&cpu.memory[0x300..0x304], &[1, 2, 3, 0]);

    let mut cpu = cpu_with_opcode(0xF2, 0x65); // LD V2, [I]
    cpu.i = 0x300;
    cpu.memory[0x300] = 7;
    cpu.memory[0x301] = 8;
    cpu.memory[0x302] = 9;
    cpu.memory[0x303] = 10;
    cpu.step_with_random(0).unwrap();
    assert_eq!(&cpu.v[0..4], &[7, 8, 9, 0]);
}

#[test]
fn key_skip_instructions() {
    let mut cpu = cpu_with_opcode(0xE0, 0x9E); // SKP V0
    cpu.v[0] = 4;
    cpu.keys[4] = true;
    cpu.step_with_random(0).unwrap();
    assert_eq!(cpu.pc, 0x204);

    let mut cpu = cpu_with_opcode(0xE0, 0x9E);
    cpu.v[0] = 4;
    cpu.step_with_random(0).unwrap();
    assert_eq!(cpu.pc, 0x202);

    let mut cpu = cpu_with_opcode(0xE0, 0xA1); // SKNP V0
    cpu.v[0] = 4;
    cpu.step_with_random(0).unwrap();
    assert_eq!(cpu.pc, 0x204);
}

#[test]
fn wait_key_blocks_until_pressed() {
    let mut cpu = cpu_with_opcode(0xF0, 0x0A); // LD V0, K
    cpu.dt = 10;
    // No key pressed: the program counter stands still, cycle after cycle.
    cpu.step_with_random(0).unwrap();
    assert_eq!(cpu.pc, 0x200);
    cpu.step_with_random(0).unwrap();
    assert_eq!(cpu.pc, 0x200);
    // The timers keep ticking while the machine waits.
    assert_eq!(cpu.dt, 8);
    // A key goes down: its index lands in V0 and the counter moves once.
    cpu.keys[7] = true;
    cpu.step_with_random(0).unwrap();
    assert_eq!(cpu.v[0], 7);
    assert_eq!(cpu.pc, 0x202);
}

#[test]
fn wait_key_takes_lowest_pressed() {
    let mut cpu = cpu_with_opcode(0xF0, 0x0A);
    cpu.keys[9] = true;
    cpu.keys[3] = true;
    cpu.step_with_random(0).unwrap();
    assert_eq!(cpu.v[0], 3);
    assert_eq!(cpu.pc, 0x202);
}

#[test]
fn unhandled_opcode_reported_and_stepped_over() {
    let mut cpu = cpu_with_opcode(0x50, 0x11); // 5xy1 is a reserved encoding
    cpu.dt = 5;
    let err = cpu.step_with_random(0).unwrap_err();
    assert_eq!(err, EmulateCycleError::UnhandledOpcode { op: 0x5011 });
    assert_eq!(err.message(), "5011 opcode not handled");
    assert_eq!(cpu.pc, 0x202);
    // A failed cycle does not tick the timers.
    assert_eq!(cpu.dt, 5);
}

#[test]
fn unhandled_opcode_families() {
    for (hi, lo) in [(0x00u8, 0x00u8), (0x80, 0x18), (0x90, 0x11), (0xE0, 0x00), (0xF0, 0xFF)] {
        let mut cpu = cpu_with_opcode(hi, lo);
        let op = ((hi as u16) << 8) | lo as u16;
        assert_eq!(
            cpu.step_with_random(0).unwrap_err(),
            EmulateCycleError::UnhandledOpcode { op }
        );
        assert_eq!(cpu.pc, 0x202);
    }
}

#[test]
fn stack_underflow_on_return_with_empty_stack() {
    let mut cpu = cpu_with_opcode(0x00, 0xEE);
    let err = cpu.step_with_random(0).unwrap_err();
    assert_eq!(err, EmulateCycleError::StackUnderflow);
    assert_eq!(err.message(), "call stack underflow");
    assert_eq!(cpu.pc, 0x200);
    assert_eq!(cpu.sp, 0);
}

#[test]
fn stack_overflow_on_sixteenth_call() {
    let mut cpu = cpu_with_opcode(0x23, 0x00);
    cpu.sp = 15;
    let err = cpu.step_with_random(0).unwrap_err();
    assert_eq!(err, EmulateCycleError::StackOverflow);
    assert_eq!(err.message(), "call stack overflow");
    assert_eq!(cpu.pc, 0x200);
    assert_eq!(cpu.sp, 15);
}

#[test]
fn memory_out_of_bounds_errors() {
    // The program counter cannot address a whole opcode.
    let mut cpu = Cpu::new();
    cpu.pc = 4095;
    assert_eq!(
        cpu.step_with_random(0).unwrap_err(),
        EmulateCycleError::MemoryOutOfBounds
    );
    assert_eq!(cpu.pc, 4095);

    // Fx33 would write past the end of memory.
    let mut cpu = cpu_with_opcode(0xF0, 0x33);
    cpu.i = 4094;
    assert_eq!(
        cpu.step_with_random(0).unwrap_err(),
        EmulateCycleError::MemoryOutOfBounds
    );

    // Dxyn would read sprite rows past the end of memory.
    let mut cpu = cpu_with_opcode(0xD0, 0x15);
    cpu.i = 4092;
    assert_eq!(
        cpu.step_with_random(0).unwrap_err(),
        EmulateCycleError::MemoryOutOfBounds
    );

    // Fx55 / Fx65 would run past the end of memory.
    let mut cpu = cpu_with_opcode(0xF5, 0x55);
    cpu.i = 4093;
    assert_eq!(
        cpu.step_with_random(0).unwrap_err(),
        EmulateCycleError::MemoryOutOfBounds
    );
    let mut cpu = cpu_with_opcode(0xF5, 0x65);
    cpu.i = 4093;
    assert_eq!(
        cpu.step_with_random(0).unwrap_err(),
        EmulateCycleError::MemoryOutOfBounds
    );

    // Ex9E names a key outside the sixteen-key keypad.
    let mut cpu = cpu_with_opcode(0xE0, 0x9E);
    cpu.v[0] = 200;
    assert_eq!(
        cpu.step_with_random(0).unwrap_err(),
        EmulateCycleError::MemoryOutOfBounds
    );
    let msg = EmulateCycleError::MemoryOutOfBounds.message();
    assert_eq!(msg, "address out of bounds");
}

#[test]
fn draw_with_zero_height_is_harmless() {
    let mut cpu = cpu_with_opcode(0xD0, 0x10); // DRW V0, V1, 0
    cpu.i = 4095; // never read: zero rows
    cpu.step_with_random(0).unwrap();
    assert_eq!(cpu.display, vec![0u8; 2048]);
    assert_eq!(cpu.v[0xF], 0);
    assert_eq!(cpu.pc, 0x202);
}
