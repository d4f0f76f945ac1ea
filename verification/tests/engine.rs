//! End-to-end and component tests of the decoder, arithmetic helpers and
//! the register/memory operations.
use chip8::arith::{add_with_carry, sub_with_borrow};
use chip8::cpu::Cpu;
use chip8::decode::Instruction;
use chip8::errors::StepEvent;
use chip8::ram::Ram;
use chip8::Chip8;

#[test]
fn decode_fields_reassemble() {
    for &w in &[0x0000u16, 0xFFFF, 0x1234, 0xABCD, 0x6005, 0x8F2E] {
        let i = Instruction::parse(w);
        assert_eq!(
            (i.h as u16) * 4096 + (i.x as u16) * 256 + (i.y as u16) * 16 + i.l as u16,
            w
        );
        assert_eq!(i.nnn, w & 0x0FFF);
        assert_eq!(i.kk, (w & 0x00FF) as u8);
    }
    let i = Instruction::parse(0xABCD);
    assert_eq!(i.h, 0xA);
    assert_eq!(i.x, 0xB);
    assert_eq!(i.y, 0xC);
    assert_eq!(i.l, 0xD);
    assert_eq!(i.nnn, 0xBCD);
    assert_eq!(i.kk, 0xCD);
}

#[test]
fn add_with_carry_wraps_and_flags() {
    assert_eq!(add_with_carry(5, 3), (8, 0));
    assert_eq!(add_with_carry(200, 100), (44, 1));
    assert_eq!(add_with_carry(255, 255), (254, 1));
    assert_eq!(add_with_carry(255, 1), (0, 1));
    assert_eq!(add_with_carry(0, 0), (0, 0));
}

#[test]
fn sub_with_borrow_wraps_and_flags() {
    assert_eq!(sub_with_borrow(10, 3), (7, 1));
    assert_eq!(sub_with_borrow(3, 10), (249, 0));
    assert_eq!(sub_with_borrow(7, 7), (0, 0));
    assert_eq!(sub_with_borrow(0, 255), (1, 0));
}

#[test]
fn store_then_load_registers_round_trips() {
    let mut cpu = Cpu::new();
    let mut ram = Ram::new();
    for j in 0..16 {
        cpu.regs[j] = (j as u8) * 3 + 1;
    }
    cpu.i = 0x300;
    cpu.write_regs(7, &mut ram).unwrap();
    for j in 0..16 {
        cpu.regs[j] = 0xAA;
    }
    cpu.read_regs(7, &ram).unwrap();
    for j in 0..=7usize {
        assert_eq!(cpu.regs[j], (j as u8) * 3 + 1);
    }
    for j in 8..16 {
        assert_eq!(cpu.regs[j], 0xAA);
    }
}

#[test]
fn store_registers_is_range_inclusive() {
    let mut cpu = Cpu::new();
    let mut ram = Ram::new();
    for j in 0..16 {
        cpu.regs[j] = j as u8 + 10;
    }
    cpu.i = 0x250;
    cpu.write_regs(3, &mut ram).unwrap();
    // registers 0..=3: four bytes written, the fifth address untouched
    assert_eq!(ram.read(0x250), 10);
    assert_eq!(ram.read(0x251), 11);
    assert_eq!(ram.read(0x252), 12);
    assert_eq!(ram.read(0x253), 13);
    assert_eq!(ram.read(0x254), 0);
}

#[test]
fn skip_on_equal_advances_four_else_two() {
    let mut cpu = Cpu::new();
    let pc0 = cpu.pc;
    cpu.skip(7, 7, true);
    assert_eq!(cpu.pc, pc0 + 4);
    let pc1 = cpu.pc;
    cpu.skip(7, 8, true);
    assert_eq!(cpu.pc, pc1 + 2);
}

#[test]
fn skip_on_not_equal_is_exact_complement() {
    let mut cpu = Cpu::new();
    let pc0 = cpu.pc;
    cpu.skip(7, 7, false);
    assert_eq!(cpu.pc, pc0 + 2);
    let pc1 = cpu.pc;
    cpu.skip(7, 8, false);
    assert_eq!(cpu.pc, pc1 + 4);
}

#[test]
fn sprite_draw_sets_pixels_then_collides() {
    let mut chip = Chip8::new();
    chip.ram.write(0x300, 0xFF).unwrap();
    chip.cpu.i = 0x300;
    // registers 0 and 1 are zero: draw the 8x1 row at (0, 0)
    chip.cpu
        .display_sprite(&chip.ram, &mut chip.display, 0, 1, 1)
        .unwrap();
    for x in 0..8 {
        assert_eq!(chip.display.read_pixel(x, 0), 1);
    }
    assert_eq!(chip.display.read_pixel(8, 0), 0);
    assert_eq!(chip.cpu.regs[15], 0);
    // drawing the same row again erases it and reports the collision
    chip.cpu
        .display_sprite(&chip.ram, &mut chip.display, 0, 1, 1)
        .unwrap();
    for x in 0..8 {
        assert_eq!(chip.display.read_pixel(x, 0), 0);
    }
    assert_eq!(chip.cpu.regs[15], 1);
}

#[test]
fn sprite_coordinates_wrap() {
    let mut chip = Chip8::new();
    chip.ram.write(0x300, 0x80).unwrap();
    chip.cpu.i = 0x300;
    chip.cpu.regs[0] = 63;
    chip.cpu.regs[1] = 31;
    chip.cpu
        .display_sprite(&chip.ram, &mut chip.display, 0, 1, 1)
        .unwrap();
    assert_eq!(chip.display.read_pixel(63, 31), 1);
}

#[test]
fn two_instruction_program_adds_immediate() {
    let mut chip = Chip8::new();
    chip.init_rom(&vec![0x60, 0x05, 0x70, 0x03]).unwrap();
    assert!(matches!(chip.step(), Ok(StepEvent::Ran)));
    assert!(matches!(chip.step(), Ok(StepEvent::Ran)));
    assert_eq!(chip.cpu.regs[0], 8);
    assert_eq!(chip.cpu.pc, 0x204);
}

#[test]
fn jump_to_self_holds_program_counter() {
    let mut chip = Chip8::new();
    chip.init_rom(&vec![0x12, 0x00]).unwrap();
    for _ in 0..50 {
        assert!(matches!(chip.step(), Ok(StepEvent::Ran)));
        assert_eq!(chip.cpu.pc, 0x200);
    }
}

#[test]
fn call_then_return_restores_pc_and_depth() {
    let mut chip = Chip8::new();
    let mut rom = vec![0u8; 0x102];
    rom[0] = 0x23;
    rom[1] = 0x00;
    rom[0x100] = 0x00;
    rom[0x101] = 0xEE;
    chip.init_rom(&rom).unwrap();
    assert_eq!(chip.cpu.sp, 0);
    chip.step().unwrap();
    assert_eq!(chip.cpu.pc, 0x300);
    assert_eq!(chip.cpu.sp, 1);
    chip.step().unwrap();
    assert_eq!(chip.cpu.pc, 0x202);
    assert_eq!(chip.cpu.sp, 0);
}

#[test]
fn bcd_of_157_writes_digits() {
    let mut cpu = Cpu::new();
    let mut ram = Ram::new();
    cpu.regs[2] = 157;
    cpu.i = 0x400;
    cpu.store_bcd(2, &mut ram).unwrap();
    assert_eq!(ram.read(0x400), 1);
    assert_eq!(ram.read(0x401), 5);
    assert_eq!(ram.read(0x402), 7);
}

#[test]
fn bcd_of_small_value_pads_with_zeros() {
    let mut cpu = Cpu::new();
    let mut ram = Ram::new();
    cpu.regs[0] = 7;
    cpu.i = 0x400;
    cpu.store_bcd(0, &mut ram).unwrap();
    assert_eq!(ram.read(0x400), 0);
    assert_eq!(ram.read(0x401), 0);
    assert_eq!(ram.read(0x402), 7);
}

#[test]
fn font_table_sits_in_low_memory() {
    let ram = Ram::new();
    // digit 0 starts with 0xF0, digit 1 with 0x20, digit F ends with 0x80
    assert_eq!(ram.read(0), 0xF0);
    assert_eq!(ram.read(5), 0x20);
    assert_eq!(ram.read(79), 0x80);
    assert_eq!(ram.read(80), 0);
}

#[test]
fn fresh_machine_state() {
    let chip = Chip8::new();
    assert_eq!(chip.cpu.pc, 0x200);
    assert_eq!(chip.cpu.sp, 0);
    assert_eq!(chip.delay_timer(), 0);
    for j in 0..16 {
        assert_eq!(chip.cpu.regs[j], 0);
        assert_eq!(chip.cpu.stack[j], 0);
    }
    for x in 0..64 {
        for y in 0..32 {
            assert_eq!(chip.display.read_pixel(x, y), 0);
        }
    }
}
