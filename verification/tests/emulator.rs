use chip8::Chip8;

fn chip_with_rom(rom: &[u8]) -> Chip8 {
    let mut chip = Chip8::new();
    chip.load_rom(rom).expect("error loading rom");
    chip
}

#[test]
fn jump() {
    let mut chip = chip_with_rom(&[0x13, 0x21, 0x00, 0x00, 0x00, 0x00]);
    chip.step().expect("emulation error");
    assert_eq!(chip.get_pointers().0, 0x321);
}

#[test]
fn call_and_return() {
    let mut chip = chip_with_rom(&[0x22, 0x08, 0x00, 0x00, 0x00, 0x00, 0x00, 0x00, 0x00, 0xee]);
    chip.step().expect("emulation error");
    assert_eq!(chip.get_pointers().0, 0x208);

    chip.step().expect("emulation error");
    assert_eq!(chip.get_pointers().0, 0x202);
}

#[test]
fn load_from_keypad() {
    let mut chip = chip_with_rom(&[0xf0, 0x0a, 0x00, 0x00]);
    chip.step().expect("emulation error");
    chip.step().expect("emulation error");
    chip.step().expect("emulation error");
    chip.step().expect("emulation error");
    assert_eq!(chip.get_pointers().0, 0x200);

    chip.key_down(5);
    chip.key_down(8);
    chip.step().expect("emulation error");
    assert_eq!(chip.get_pointers().0, 0x202);
    assert_eq!(chip.get_regs()[0], 5);
}

#[test]
fn mass_store() {
    let mut chip = chip_with_rom(&[0xf3, 0x55]);
    chip.set_i(0x220).expect("error writing index register");
    chip.set_reg(0, 0x06).expect("error writing register");
    chip.set_reg(1, 0x0c).expect("error writing register");
    chip.set_reg(2, 0x16).expect("error writing register");
    chip.set_reg(3, 0x1c).expect("error writing register");
    chip.set_reg(4, 0x26).expect("error writing register");

    chip.step().expect("emulation error");
    assert_eq!(chip.get_mem()[0x220], 0x06);
    assert_eq!(chip.get_mem()[0x221], 0x0c);
    assert_eq!(chip.get_mem()[0x222], 0x16);
    assert_eq!(chip.get_mem()[0x223], 0x1c);
    assert_eq!(chip.get_mem()[0x224], 0x00);
}

#[test]
fn mass_load() {
    let mut chip = chip_with_rom(&[0xf3, 0x65]);
    chip.set_i(0x220).expect("error writing index register");
    chip.set_mem(0x220, 0x06).expect("error writing memory");
    chip.set_mem(0x221, 0x0c).expect("error writing memory");
    chip.set_mem(0x222, 0x16).expect("error writing memory");
    chip.set_mem(0x223, 0x1c).expect("error writing memory");
    chip.set_mem(0x224, 0x26).expect("error writing memory");

    chip.step().expect("emulation error");
    assert_eq!(chip.get_regs()[0], 0x06);
    assert_eq!(chip.get_regs()[1], 0x0c);
    assert_eq!(chip.get_regs()[2], 0x16);
    assert_eq!(chip.get_regs()[3], 0x1c);
    assert_eq!(chip.get_regs()[4], 0x00);
}

#[test]
fn shift_right_left() {
    let mut chip = chip_with_rom(&[0x82, 0x36, 0x86, 0x3e]);
    chip.set_reg(2, 0b10101010).expect("error writing register");
    chip.set_reg(3, 0b10101010).expect("error writing register");
    chip.set_reg(6, 0b10101010).expect("error writing register");

    chip.step().expect("emulation error");
    assert_eq!(chip.get_regs()[2], 0b01010101);
    assert_eq!(chip.get_regs()[0xf], 0);
    assert_eq!(chip.get_regs()[3], 0b10101010);

    chip.step().expect("emulation error");
    assert_eq!(chip.get_regs()[6], 0b01010100);
    assert_eq!(chip.get_regs()[0xf], 1);
    assert_eq!(chip.get_regs()[3], 0b10101010);
}
