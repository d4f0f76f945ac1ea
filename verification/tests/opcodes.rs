//! Per-opcode behaviour through whole machine steps.
use chip8::errors::StepEvent;
use chip8::Chip8;

fn machine_with(rom: &[u8]) -> Chip8 {
    let mut chip = Chip8::new();
    chip.init_rom(&rom.to_vec()).unwrap();
    chip
}

#[test]
fn clear_screen_darkens_every_pixel() {
    let mut chip = machine_with(&[0x00, 0xE0]);
    chip.display.write_pixel(3, 4, 1);
    chip.step().unwrap();
    assert_eq!(chip.display.read_pixel(3, 4), 0);
    assert_eq!(chip.cpu.pc, 0x202);
}

#[test]
fn alu_or_and_xor_and_copy() {
    // 6005: r0 := 5; 6103: r1 := 3; 8011: r0 |= r1
    let mut chip = machine_with(&[0x60, 0x05, 0x61, 0x03, 0x80, 0x11]);
    chip.step().unwrap();
    chip.step().unwrap();
    chip.step().unwrap();
    assert_eq!(chip.cpu.regs[0], 7);

    let mut chip = machine_with(&[0x60, 0x05, 0x61, 0x03, 0x80, 0x12]);
    chip.step().unwrap();
    chip.step().unwrap();
    chip.step().unwrap();
    assert_eq!(chip.cpu.regs[0], 1);

    let mut chip = machine_with(&[0x60, 0x05, 0x61, 0x03, 0x80, 0x13]);
    chip.step().unwrap();
    chip.step().unwrap();
    chip.step().unwrap();
    assert_eq!(chip.cpu.regs[0], 6);

    let mut chip = machine_with(&[0x61, 0x03, 0x80, 0x10]);
    chip.step().unwrap();
    chip.step().unwrap();
    assert_eq!(chip.cpu.regs[0], 3);
}

#[test]
fn alu_add_sets_carry_flag() {
    // r0 := 200, r1 := 100, r0 += r1
    let mut chip = machine_with(&[0x60, 0xC8, 0x61, 0x64, 0x80, 0x14]);
    chip.step().unwrap();
    chip.step().unwrap();
    chip.step().unwrap();
    assert_eq!(chip.cpu.regs[0], 44);
    assert_eq!(chip.cpu.regs[15], 1);
}

#[test]
fn alu_sub_sets_no_borrow_flag() {
    // r0 := 10, r1 := 3, r0 -= r1
    let mut chip = machine_with(&[0x60, 0x0A, 0x61, 0x03, 0x80, 0x15]);
    chip.step().unwrap();
    chip.step().unwrap();
    chip.step().unwrap();
    assert_eq!(chip.cpu.regs[0], 7);
    assert_eq!(chip.cpu.regs[15], 1);

    // r0 := 3, r1 := 10, r0 -= r1 wraps and clears the flag
    let mut chip = machine_with(&[0x60, 0x03, 0x61, 0x0A, 0x80, 0x15]);
    chip.step().unwrap();
    chip.step().unwrap();
    chip.step().unwrap();
    assert_eq!(chip.cpu.regs[0], 249);
    assert_eq!(chip.cpu.regs[15], 0);
}

#[test]
fn alu_reverse_sub_uses_swapped_operands() {
    // r0 := 3, r1 := 10, r0 := r1 - r0
    let mut chip = machine_with(&[0x60, 0x03, 0x61, 0x0A, 0x80, 0x17]);
    chip.step().unwrap();
    chip.step().unwrap();
    chip.step().unwrap();
    assert_eq!(chip.cpu.regs[0], 7);
    assert_eq!(chip.cpu.regs[15], 1);
}

#[test]
fn shift_right_keeps_low_bit_in_flag() {
    let mut chip = machine_with(&[0x60, 0x81, 0x80, 0x06]);
    chip.step().unwrap();
    chip.step().unwrap();
    assert_eq!(chip.cpu.regs[0], 0x40);
    assert_eq!(chip.cpu.regs[15], 1);
}

#[test]
fn shift_left_keeps_top_bit_in_flag() {
    let mut chip = machine_with(&[0x60, 0x81, 0x80, 0x0E]);
    chip.step().unwrap();
    chip.step().unwrap();
    assert_eq!(chip.cpu.regs[0], 0x02);
    assert_eq!(chip.cpu.regs[15], 1);

    let mut chip = machine_with(&[0x60, 0x41, 0x80, 0x0E]);
    chip.step().unwrap();
    chip.step().unwrap();
    assert_eq!(chip.cpu.regs[0], 0x82);
    assert_eq!(chip.cpu.regs[15], 0);
}

#[test]
fn conditional_skips_through_steps() {
    // 3005 with r0 == 5 skips the next instruction
    let mut chip = machine_with(&[0x60, 0x05, 0x30, 0x05, 0x61, 0x01, 0x62, 0x02]);
    chip.step().unwrap();
    chip.step().unwrap();
    assert_eq!(chip.cpu.pc, 0x206);
    chip.step().unwrap();
    assert_eq!(chip.cpu.regs[2], 2);
    assert_eq!(chip.cpu.regs[1], 0);

    // 4005 with r0 == 5 does not skip
    let mut chip = machine_with(&[0x60, 0x05, 0x40, 0x05, 0x61, 0x01]);
    chip.step().unwrap();
    chip.step().unwrap();
    assert_eq!(chip.cpu.pc, 0x204);

    // 5010: equal registers skip
    let mut chip = machine_with(&[0x50, 0x10, 0x61, 0x01]);
    chip.step().unwrap();
    assert_eq!(chip.cpu.pc, 0x204);

    // 9010: equal registers do not skip
    let mut chip = machine_with(&[0x90, 0x10, 0x61, 0x01]);
    chip.step().unwrap();
    assert_eq!(chip.cpu.pc, 0x202);
}

#[test]
fn index_register_opcodes() {
    // A123: I := 0x123
    let mut chip = machine_with(&[0xA1, 0x23]);
    chip.step().unwrap();
    assert_eq!(chip.cpu.i, 0x123);
    assert_eq!(chip.cpu.pc, 0x202);

    // F11E: I += r1
    let mut chip = machine_with(&[0xA1, 0x23, 0x61, 0x10, 0xF1, 0x1E]);
    chip.step().unwrap();
    chip.step().unwrap();
    chip.step().unwrap();
    assert_eq!(chip.cpu.i, 0x133);

    // F329: I := r3 * 5 (font sprite base)
    let mut chip = machine_with(&[0x63, 0x0A, 0xF3, 0x29]);
    chip.step().unwrap();
    chip.step().unwrap();
    assert_eq!(chip.cpu.i, 50);
}

#[test]
fn jump_with_offset_adds_register_zero() {
    let mut chip = machine_with(&[0x60, 0x04, 0xB2, 0x08]);
    chip.step().unwrap();
    chip.step().unwrap();
    assert_eq!(chip.cpu.pc, 0x20C);
}

#[test]
fn timers_set_and_tick_once_per_step() {
    // r3 := 5; dt := r3 (then the same step ticks it down to 4)
    let mut chip = machine_with(&[0x63, 0x05, 0xF3, 0x15]);
    chip.step().unwrap();
    chip.step().unwrap();
    assert_eq!(chip.delay_timer(), 4);

    // the sound timer ticks the same way; no tone is produced by the core
    let mut chip = machine_with(&[0x63, 0x05, 0xF3, 0x18]);
    chip.step().unwrap();
    chip.step().unwrap();
    assert_eq!(chip.cpu.st, 4);
}

#[test]
fn delay_timer_reads_back_into_register() {
    // r3 := 7; dt := r3; r5 := dt
    let mut chip = machine_with(&[0x63, 0x07, 0xF3, 0x15, 0xF5, 0x07]);
    chip.step().unwrap();
    chip.step().unwrap();
    // the set step already ticked dt from 7 to 6
    chip.step().unwrap();
    assert_eq!(chip.cpu.regs[5], 6);
}

#[test]
fn random_opcode_applies_mask() {
    // C000: r0 := random & 0x00, always 0
    let mut chip = machine_with(&[0xC0, 0x00]);
    chip.step().unwrap();
    assert_eq!(chip.cpu.regs[0], 0);

    // C10F: r1 := random & 0x0F, always below 16
    let mut chip = machine_with(&[0xC1, 0x0F]);
    chip.step().unwrap();
    assert!(chip.cpu.regs[1] < 16);
    assert_eq!(chip.cpu.pc, 0x202);
}

#[test]
fn key_skips_consult_the_key_table() {
    // E29E skips when the key in r2 is held
    let mut chip = machine_with(&[0x62, 0x07, 0xE2, 0x9E]);
    chip.display.key_down(7);
    chip.step().unwrap();
    chip.step().unwrap();
    assert_eq!(chip.cpu.pc, 0x206);

    let mut chip = machine_with(&[0x62, 0x07, 0xE2, 0x9E]);
    chip.step().unwrap();
    chip.step().unwrap();
    assert_eq!(chip.cpu.pc, 0x204);

    // E2A1 is the complement
    let mut chip = machine_with(&[0x62, 0x07, 0xE2, 0xA1]);
    chip.step().unwrap();
    chip.step().unwrap();
    assert_eq!(chip.cpu.pc, 0x206);
}

#[test]
fn key_release_forgets_the_key() {
    let mut chip = machine_with(&[0x62, 0x07, 0xE2, 0x9E]);
    chip.display.key_down(7);
    chip.display.key_up(7);
    chip.step().unwrap();
    chip.step().unwrap();
    assert_eq!(chip.cpu.pc, 0x204);
    assert!(!chip.display.is_key_down(7));
}

#[test]
fn wait_for_key_blocks_until_one_is_held() {
    let mut chip = machine_with(&[0xF4, 0x0A]);
    assert!(matches!(chip.step(), Ok(StepEvent::WaitingForKey)));
    assert!(matches!(chip.step(), Ok(StepEvent::WaitingForKey)));
    assert_eq!(chip.cpu.pc, 0x200);
    chip.display.key_down(9);
    assert!(matches!(chip.step(), Ok(StepEvent::Ran)));
    assert_eq!(chip.cpu.regs[4], 9);
    assert_eq!(chip.cpu.pc, 0x202);
}

#[test]
fn wait_for_key_takes_lowest_held_key() {
    let mut chip = machine_with(&[0xF4, 0x0A]);
    chip.display.key_down(11);
    chip.display.key_down(3);
    chip.step().unwrap();
    assert_eq!(chip.cpu.regs[4], 3);
}

#[test]
fn load_registers_from_memory() {
    // F265: r0..=r2 from memory at I
    let mut chip = machine_with(&[0xA3, 0x00, 0xF2, 0x65]);
    chip.ram.write(0x300, 21).unwrap();
    chip.ram.write(0x301, 22).unwrap();
    chip.ram.write(0x302, 23).unwrap();
    chip.step().unwrap();
    chip.step().unwrap();
    assert_eq!(chip.cpu.regs[0], 21);
    assert_eq!(chip.cpu.regs[1], 22);
    assert_eq!(chip.cpu.regs[2], 23);
    assert_eq!(chip.cpu.regs[3], 0);
}
