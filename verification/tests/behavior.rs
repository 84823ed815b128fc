use chip8::error::{ChipError, DebugChipError};
use chip8::Chip8;

fn chip_with_rom(rom: &[u8]) -> Chip8 {
    let mut chip = Chip8::new();
    chip.load_rom(rom).expect("error loading rom");
    chip
}

#[test]
fn new_machine_has_font_and_program_counter() {
    let chip = Chip8::new();
    let mem = chip.get_mem();
    assert_eq!(mem[0x50], 0xf0);
    assert_eq!(mem[0x54], 0xf0);
    assert_eq!(mem[0x9f], 0x80);
    assert_eq!(mem[0x4f], 0x00);
    assert_eq!(mem[0xa0], 0x00);
    let (pc, sp, i) = chip.get_pointers();
    assert_eq!(pc, 0x200);
    assert_eq!(sp, 0);
    assert_eq!(i, 0);
    assert_eq!(chip.get_timers(), (0, 0));
    assert!(!chip.buzzer());
}

#[test]
fn default_matches_new() {
    let a = Chip8::new();
    let b = Chip8::default();
    assert_eq!(a.get_mem()[..], b.get_mem()[..]);
    assert_eq!(a.get_pointers(), b.get_pointers());
    assert_eq!(a.get_regs(), b.get_regs());
}

#[test]
fn reset_restores_construction_state() {
    let mut chip = chip_with_rom(&[0x13, 0x21]);
    chip.set_reg(3, 77).expect("error writing register");
    chip.set_dt(9);
    chip.key_down(4);
    chip.step().expect("emulation error");
    chip.reset();
    let fresh = Chip8::new();
    assert_eq!(chip.get_mem()[..], fresh.get_mem()[..]);
    assert_eq!(chip.get_pointers(), fresh.get_pointers());
    assert_eq!(chip.get_regs(), fresh.get_regs());
    assert_eq!(chip.get_timers(), fresh.get_timers());
    assert_eq!(chip.get_stack(), fresh.get_stack());
    assert_eq!(chip.get_keypad(), fresh.get_keypad());
}

#[test]
fn rom_too_big_is_rejected() {
    let mut chip = Chip8::new();
    let big = vec![0u8; 0xe01];
    assert_eq!(chip.load_rom(&big), Err(ChipError::RomTooBig(0xe01)));
    // nothing was copied
    assert_eq!(chip.get_mem()[0x200], 0x00);
    let exact = vec![0xabu8; 0xe00];
    chip.load_rom(&exact).expect("error loading rom");
    assert_eq!(chip.get_mem()[0x200], 0xab);
    assert_eq!(chip.get_mem()[0xfff], 0xab);
}

#[test]
fn unrecognized_opcodes_error() {
    let mut chip = chip_with_rom(&[0xf0, 0xff]);
    assert_eq!(chip.step(), Err(ChipError::UnrecognizedOpcode(0xf0ff)));
    // the failing step leaves the machine untouched
    assert_eq!(chip.get_pointers().0, 0x200);

    let mut chip = chip_with_rom(&[0x00, 0x00]);
    assert_eq!(chip.step(), Err(ChipError::UnrecognizedOpcode(0x0000)));

    let mut chip = chip_with_rom(&[0x85, 0x28]);
    assert_eq!(chip.step(), Err(ChipError::UnrecognizedOpcode(0x8528)));
}

#[test]
fn program_counter_out_of_bounds_errors() {
    let mut chip = Chip8::new();
    chip.set_pc(0xfff).expect("error writing program counter");
    assert_eq!(chip.step(), Err(ChipError::PcOutOfBounds(0xfff)));
}

#[test]
fn call_overflow_and_return_underflow_error() {
    let mut chip = chip_with_rom(&[0x22, 0x04, 0x00, 0x00, 0x00, 0x00]);
    chip.set_sp(15).expect("error writing stack pointer");
    assert_eq!(chip.step(), Err(ChipError::SpOutOfBounds(15)));

    let mut chip = chip_with_rom(&[0x00, 0xee]);
    assert_eq!(chip.step(), Err(ChipError::SpOutOfBounds(0)));
}

#[test]
fn load_and_add_immediates_wrap() {
    // 6xkk, then 7xkk twice; the second add wraps past 255 without a flag
    let mut chip = chip_with_rom(&[0x61, 0xfa, 0x71, 0x03, 0x71, 0x08]);
    chip.step().expect("emulation error");
    assert_eq!(chip.get_regs()[1], 0xfa);
    chip.step().expect("emulation error");
    assert_eq!(chip.get_regs()[1], 0xfd);
    chip.step().expect("emulation error");
    assert_eq!(chip.get_regs()[1], 0x05);
    assert_eq!(chip.get_regs()[0xf], 0);
}

#[test]
fn alu_bit_operations() {
    // 8xy0, 8xy1, 8xy2, 8xy3
    let mut chip = chip_with_rom(&[0x81, 0x20, 0x83, 0x41, 0x85, 0x62, 0x87, 0x83]);
    chip.set_reg(2, 0x5a).expect("error writing register");
    chip.set_reg(3, 0b1100).expect("error writing register");
    chip.set_reg(4, 0b1010).expect("error writing register");
    chip.set_reg(5, 0b1100).expect("error writing register");
    chip.set_reg(6, 0b1010).expect("error writing register");
    chip.set_reg(7, 0b1100).expect("error writing register");
    chip.set_reg(8, 0b1010).expect("error writing register");

    chip.step().expect("emulation error");
    assert_eq!(chip.get_regs()[1], 0x5a);
    chip.step().expect("emulation error");
    assert_eq!(chip.get_regs()[3], 0b1110);
    chip.step().expect("emulation error");
    assert_eq!(chip.get_regs()[5], 0b1000);
    chip.step().expect("emulation error");
    assert_eq!(chip.get_regs()[7], 0b0110);
}

#[test]
fn add_registers_sets_carry_exactly_on_overflow() {
    let mut chip = chip_with_rom(&[0x81, 0x24, 0x83, 0x44]);
    chip.set_reg(1, 200).expect("error writing register");
    chip.set_reg(2, 100).expect("error writing register");
    chip.set_reg(3, 10).expect("error writing register");
    chip.set_reg(4, 20).expect("error writing register");

    chip.step().expect("emulation error");
    assert_eq!(chip.get_regs()[1], 44);
    assert_eq!(chip.get_regs()[0xf], 1);

    chip.step().expect("emulation error");
    assert_eq!(chip.get_regs()[3], 30);
    assert_eq!(chip.get_regs()[0xf], 0);
}

#[test]
fn sub_and_subn_set_not_borrow() {
    let mut chip = chip_with_rom(&[0x81, 0x25, 0x83, 0x45, 0x85, 0x67, 0x87, 0x87]);
    chip.set_reg(1, 50).expect("error writing register");
    chip.set_reg(2, 20).expect("error writing register");
    chip.set_reg(3, 20).expect("error writing register");
    chip.set_reg(4, 50).expect("error writing register");
    chip.set_reg(5, 20).expect("error writing register");
    chip.set_reg(6, 50).expect("error writing register");
    chip.set_reg(7, 50).expect("error writing register");
    chip.set_reg(8, 20).expect("error writing register");

    // 50 - 20: no borrow
    chip.step().expect("emulation error");
    assert_eq!(chip.get_regs()[1], 30);
    assert_eq!(chip.get_regs()[0xf], 1);

    // 20 - 50: borrow, wraps
    chip.step().expect("emulation error");
    assert_eq!(chip.get_regs()[3], 226);
    assert_eq!(chip.get_regs()[0xf], 0);

    // subn: 50 - 20: no borrow
    chip.step().expect("emulation error");
    assert_eq!(chip.get_regs()[5], 30);
    assert_eq!(chip.get_regs()[0xf], 1);

    // subn: 20 - 50: borrow, wraps
    chip.step().expect("emulation error");
    assert_eq!(chip.get_regs()[7], 226);
    assert_eq!(chip.get_regs()[0xf], 0);
}

#[test]
fn skip_immediates_take_or_fall_through() {
    // 3xkk taken, 4xkk taken, 3xkk not taken
    let mut chip = chip_with_rom(&[
        0x31, 0x07, 0x00, 0x00, 0x41, 0x08, 0x00, 0x00, 0x31, 0x09, 0x00, 0x00,
    ]);
    chip.set_reg(1, 7).expect("error writing register");
    chip.step().expect("emulation error");
    assert_eq!(chip.get_pointers().0, 0x204);
    chip.step().expect("emulation error");
    assert_eq!(chip.get_pointers().0, 0x208);
    chip.step().expect("emulation error");
    assert_eq!(chip.get_pointers().0, 0x20a);
}

#[test]
fn skip_registers_take_or_fall_through() {
    // 5xy0 taken, 9xy0 taken, 5xy0 not taken
    let mut chip = chip_with_rom(&[
        0x51, 0x20, 0x00, 0x00, 0x91, 0x30, 0x00, 0x00, 0x51, 0x30, 0x00, 0x00,
    ]);
    chip.set_reg(1, 7).expect("error writing register");
    chip.set_reg(2, 7).expect("error writing register");
    chip.set_reg(3, 9).expect("error writing register");
    chip.step().expect("emulation error");
    assert_eq!(chip.get_pointers().0, 0x204);
    chip.step().expect("emulation error");
    assert_eq!(chip.get_pointers().0, 0x208);
    chip.step().expect("emulation error");
    assert_eq!(chip.get_pointers().0, 0x20a);
}

#[test]
fn index_register_opcodes() {
    // Annn, Fx1E, Fx29
    let mut chip = chip_with_rom(&[0xa1, 0x23, 0xf1, 0x1e, 0xf2, 0x29]);
    chip.set_reg(1, 0x10).expect("error writing register");
    chip.set_reg(2, 0x0b).expect("error writing register");
    chip.step().expect("emulation error");
    assert_eq!(chip.get_pointers().2, 0x123);
    chip.step().expect("emulation error");
    assert_eq!(chip.get_pointers().2, 0x133);
    chip.step().expect("emulation error");
    assert_eq!(chip.get_pointers().2, 0x50 + 5 * 0x0b);
}

#[test]
fn jump_with_offset_lands_on_target_plus_v0() {
    let mut chip = chip_with_rom(&[0xb3, 0x00]);
    chip.set_reg(0, 0x21).expect("error writing register");
    chip.step().expect("emulation error");
    assert_eq!(chip.get_pointers().0, 0x321);
}

#[test]
fn timers_and_buzzer() {
    // Fx15, Fx18, Fx07
    let mut chip = chip_with_rom(&[0x61, 0x03, 0xf1, 0x15, 0xf1, 0x18, 0xf2, 0x07]);
    chip.step().expect("emulation error");
    chip.step().expect("emulation error");
    assert_eq!(chip.get_timers().0, 3);
    chip.step().expect("emulation error");
    assert_eq!(chip.get_timers().1, 3);
    assert!(chip.buzzer());
    chip.step().expect("emulation error");
    assert_eq!(chip.get_regs()[2], 3);

    chip.set_st(1);
    chip.set_dt(0);
    chip.frame(0).expect("emulation error");
    assert_eq!(chip.get_timers(), (0, 0));
    assert!(!chip.buzzer());
}

#[test]
fn bcd_writes_three_digits() {
    let mut chip = chip_with_rom(&[0xf7, 0x33]);
    chip.set_reg(7, 234).expect("error writing register");
    chip.set_i(0x300).expect("error writing index register");
    chip.step().expect("emulation error");
    assert_eq!(chip.get_mem()[0x300], 2);
    assert_eq!(chip.get_mem()[0x301], 3);
    assert_eq!(chip.get_mem()[0x302], 4);
}

#[test]
fn bulk_store_then_load_round_trips() {
    // store V0..=V3, zero the registers, load V0..=V3 back
    let mut chip = chip_with_rom(&[
        0xf3, 0x55, 0x60, 0x00, 0x61, 0x00, 0x62, 0x00, 0x63, 0x00, 0x64, 0x00, 0xf3, 0x65,
    ]);
    chip.set_i(0x300).expect("error writing index register");
    chip.set_reg(0, 11).expect("error writing register");
    chip.set_reg(1, 22).expect("error writing register");
    chip.set_reg(2, 33).expect("error writing register");
    chip.set_reg(3, 44).expect("error writing register");
    chip.set_reg(4, 55).expect("error writing register");

    chip.step().expect("emulation error");
    // the store wrote exactly four cells
    assert_eq!(chip.get_mem()[0x300], 11);
    assert_eq!(chip.get_mem()[0x303], 44);
    assert_eq!(chip.get_mem()[0x304], 0);

    for _ in 0..5 {
        chip.step().expect("emulation error");
    }
    assert_eq!(chip.get_regs()[..5], [0, 0, 0, 0, 0]);

    chip.step().expect("emulation error");
    assert_eq!(chip.get_regs()[0], 11);
    assert_eq!(chip.get_regs()[1], 22);
    assert_eq!(chip.get_regs()[2], 33);
    assert_eq!(chip.get_regs()[3], 44);
    // V4 was zeroed and the load left it untouched
    assert_eq!(chip.get_regs()[4], 0);
}

#[test]
fn random_byte_is_masked() {
    // Cxkk with kk = 0 must always produce zero, whatever byte was drawn
    let mut chip = chip_with_rom(&[0xc1, 0x00, 0xc2, 0x0f]);
    chip.set_reg(1, 0xff).expect("error writing register");
    chip.step().expect("emulation error");
    assert_eq!(chip.get_regs()[1], 0);
    chip.step().expect("emulation error");
    assert_eq!(chip.get_regs()[2] & 0xf0, 0);
}

#[test]
fn draw_twice_collides_and_clears() {
    // draw the 0 glyph at (0, 0) twice
    let mut chip = chip_with_rom(&[0xd0, 0x05, 0xd0, 0x05]);
    chip.set_i(0x50).expect("error writing index register");

    chip.step().expect("emulation error");
    assert_eq!(chip.get_regs()[0xf], 0);
    // 0xf0 row: leftmost four pixels lit
    assert!(chip.fb()[0][0]);
    assert!(chip.fb()[0][3]);
    assert!(!chip.fb()[0][4]);
    assert!(chip.fb()[4][0]);

    chip.step().expect("emulation error");
    assert_eq!(chip.get_regs()[0xf], 1);
    for row in chip.fb().iter() {
        for pixel in row.iter() {
            assert!(!pixel);
        }
    }
}

#[test]
fn draw_clips_at_screen_edge() {
    // anchor at (62, 31): only the top-left corner of the glyph fits
    let mut chip = chip_with_rom(&[0xd1, 0x25]);
    chip.set_i(0x50).expect("error writing index register");
    chip.set_reg(1, 62).expect("error writing register");
    chip.set_reg(2, 31).expect("error writing register");
    chip.step().expect("emulation error");
    assert!(chip.fb()[31][62]);
    assert!(chip.fb()[31][63]);
    assert!(!chip.fb()[0][0]);
    assert_eq!(chip.get_regs()[0xf], 0);
}

#[test]
fn clear_screen_blanks_framebuffer() {
    let mut chip = chip_with_rom(&[0xd0, 0x05, 0x00, 0xe0]);
    chip.set_i(0x50).expect("error writing index register");
    chip.step().expect("emulation error");
    assert!(chip.fb()[0][0]);
    chip.step().expect("emulation error");
    for row in chip.fb().iter() {
        for pixel in row.iter() {
            assert!(!pixel);
        }
    }
}

#[test]
fn frame_stops_early_on_draw_and_ticks_timers() {
    let mut chip = chip_with_rom(&[0x61, 0x05, 0xd0, 0x01, 0x62, 0x07]);
    chip.set_i(0x50).expect("error writing index register");
    chip.set_dt(5);
    chip.set_st(1);
    chip.frame(10).expect("emulation error");
    // the draw at 0x202 ended the frame before the load at 0x204
    assert_eq!(chip.get_pointers().0, 0x204);
    assert_eq!(chip.get_regs()[1], 5);
    assert_eq!(chip.get_regs()[2], 0);
    assert_eq!(chip.get_timers(), (4, 0));
}

#[test]
fn frame_propagates_first_error() {
    let mut chip = chip_with_rom(&[0x61, 0x05, 0xff, 0xff]);
    assert_eq!(chip.frame(10), Err(ChipError::UnrecognizedOpcode(0xffff)));
    assert_eq!(chip.get_regs()[1], 5);
    assert_eq!(chip.get_pointers().0, 0x202);
}

#[test]
fn skip_key_opcodes_follow_key_state() {
    let mut chip = chip_with_rom(&[
        0xe2, 0x9e, 0x00, 0x00, 0xe2, 0x9e, 0xe4, 0xa1, 0x00, 0x00, 0xe4, 0xa1, 0x00,
    ]);
    chip.set_reg(2, 5).expect("error writing register");
    chip.set_reg(4, 1).expect("error writing register");

    // Ex9E with key 5 held: skip over the 0x0000 word
    chip.key_down(5);
    chip.step().expect("emulation error");
    assert_eq!(chip.get_pointers().0, 0x204);

    // same opcode with the key released: no skip
    chip.key_up(5);
    chip.step().expect("emulation error");
    assert_eq!(chip.get_pointers().0, 0x206);

    // ExA1 with key 1 up: skip
    chip.step().expect("emulation error");
    assert_eq!(chip.get_pointers().0, 0x20a);

    // ExA1 with key 1 down: no skip
    chip.key_down(1);
    chip.step().expect("emulation error");
    assert_eq!(chip.get_pointers().0, 0x20c);
}

#[test]
fn keypad_tracking() {
    let mut chip = Chip8::new();
    chip.key_down(0);
    chip.key_down(0xf);
    assert!(chip.get_keypad()[0]);
    assert!(chip.get_keypad()[0xf]);
    assert!(!chip.get_keypad()[7]);
    chip.key_up(0);
    assert!(!chip.get_keypad()[0]);
    assert!(chip.get_keypad()[0xf]);
}

#[test]
fn debug_setters_validate_their_arguments() {
    let mut chip = Chip8::new();
    assert_eq!(chip.set_mem(0x1000, 1), Err(DebugChipError::AddrOutOfBounds(0x1000)));
    assert_eq!(chip.set_reg(16, 1), Err(DebugChipError::NoRegister(16)));
    assert_eq!(chip.set_fb(64, 0, true), Err(DebugChipError::NoPixel(64, 0)));
    assert_eq!(chip.set_fb(0, 32, true), Err(DebugChipError::NoPixel(0, 32)));
    assert_eq!(chip.set_i(0x1000), Err(DebugChipError::IndexTooBig(0x1000)));
    assert_eq!(chip.set_pc(0x1000), Err(DebugChipError::PcOutOfBounds(0x1000)));
    assert_eq!(chip.set_sp(16), Err(DebugChipError::SpOutOfBounds(16)));
    assert_eq!(chip.set_stack(16, 0), Err(DebugChipError::SpOutOfBounds(16)));
    assert_eq!(chip.set_stack(0, 0x1000), Err(DebugChipError::StackAddrOutOfBounds(0x1000)));
    // a failed setter changed nothing
    let fresh = Chip8::new();
    assert_eq!(chip.get_mem()[..], fresh.get_mem()[..]);
    assert_eq!(chip.get_pointers(), fresh.get_pointers());
}

#[test]
fn debug_setters_write_validated_values() {
    let mut chip = Chip8::new();
    chip.set_mem(0xfff, 0x42).expect("error writing memory");
    assert_eq!(chip.get_mem()[0xfff], 0x42);
    chip.set_fb(63, 31, true).expect("error writing pixel");
    assert!(chip.fb()[31][63]);
    chip.set_reg(0xf, 9).expect("error writing register");
    assert_eq!(chip.get_regs()[0xf], 9);
    chip.set_i(0xfff).expect("error writing index register");
    assert_eq!(chip.get_pointers().2, 0xfff);
    chip.set_pc(0xffe).expect("error writing program counter");
    assert_eq!(chip.get_pointers().0, 0xffe);
    chip.set_sp(15).expect("error writing stack pointer");
    assert_eq!(chip.get_pointers().1, 15);
    chip.set_stack(15, 0xfff).expect("error writing stack");
    assert_eq!(chip.get_stack()[15], 0xfff);
    chip.set_dt(7);
    chip.set_st(8);
    assert_eq!(chip.get_timers(), (7, 8));
}
