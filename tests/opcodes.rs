use chipmate::{Chip8, Chip8Error, FONTSET, SCREEN_HEIGHT, SCREEN_WIDTH};

fn lit_pixels(chip8: &Chip8) -> Vec<(usize, usize)> {
    let mut lit = Vec::new();
    for y in 0..SCREEN_HEIGHT {
        for x in 0..SCREEN_WIDTH {
            if chip8.screen.pixel(x, y) {
                lit.push((x, y));
            }
        }
    }
    lit
}

fn run(chip8: &mut Chip8, opcode: u16) -> Result<(), Chip8Error> {
    chip8.opcode = opcode;
    chip8.execute_with(0)
}

fn load_program(chip8: &mut Chip8, words: &[u16]) {
    let mut bytes = Vec::new();
    for w in words {
        bytes.push((w >> 8) as u8);
        bytes.push((w & 0xFF) as u8);
    }
    chip8.load_rom(&bytes).unwrap();
}

#[test]
fn op_8xy4() {
    let mut chip8 = Chip8::default();
    chip8.opcode = 0x81D4;
    chip8.registers[1] = 25;
    chip8.registers[0xD] = 30;

    chip8.execute().unwrap();
    assert_eq!(chip8.registers[1], 55);
}

#[test]
fn op_8xy4_overflow() {
    let mut chip8 = Chip8::default();
    chip8.opcode = 0x81D4;
    chip8.registers[1] = 254;
    chip8.registers[0xD] = 30;

    chip8.execute().unwrap();
    assert_eq!(chip8.registers[1], 28);
    assert_eq!(chip8.registers[0xF], 1);
}

// VF is the flag output of 8XY4: it is overwritten with the carry (0 here) even
// when it is also the destination register.
#[test]
fn op_8xy4_vf_as_x() {
    let mut chip8 = Chip8::default();
    chip8.opcode = 0x8FD4;
    chip8.registers[0xF] = 25;
    chip8.registers[0xD] = 25;

    chip8.execute().unwrap();
    assert_eq!(chip8.registers[0xF], 0);
}

#[test]
fn op_8xy4_vf_as_y() {
    let mut chip8 = Chip8::default();
    chip8.opcode = 0x8DF4;
    chip8.registers[0xF] = 25;
    chip8.registers[0xD] = 25;

    chip8.execute().unwrap();
    assert_eq!(chip8.registers[0xD], 50);
}

#[test]
fn add_without_carry_clears_flag() {
    let mut chip8 = Chip8::default();
    chip8.registers[2] = 100;
    chip8.registers[3] = 155;
    chip8.registers[0xF] = 7;
    run(&mut chip8, 0x8234).unwrap();
    assert_eq!(chip8.registers[2], 255);
    assert_eq!(chip8.registers[0xF], 0);
}

#[test]
fn sub_without_borrow() {
    let mut chip8 = Chip8::default();
    chip8.registers[1] = 25;
    chip8.registers[2] = 10;
    run(&mut chip8, 0x8125).unwrap();
    assert_eq!(chip8.registers[1], 15);
    assert_eq!(chip8.registers[0xF], 1);
}

#[test]
fn sub_with_borrow() {
    let mut chip8 = Chip8::default();
    chip8.registers[1] = 10;
    chip8.registers[2] = 25;
    run(&mut chip8, 0x8125).unwrap();
    assert_eq!(chip8.registers[1], 241);
    assert_eq!(chip8.registers[0xF], 0);
}

#[test]
fn reverse_sub() {
    let mut chip8 = Chip8::default();
    chip8.registers[1] = 10;
    chip8.registers[2] = 25;
    run(&mut chip8, 0x8127).unwrap();
    assert_eq!(chip8.registers[1], 15);
    assert_eq!(chip8.registers[0xF], 1);
    chip8.registers[1] = 30;
    run(&mut chip8, 0x8127).unwrap();
    assert_eq!(chip8.registers[1], 251);
    assert_eq!(chip8.registers[0xF], 0);
}

#[test]
fn logic_and_loads() {
    let mut chip8 = Chip8::default();
    run(&mut chip8, 0x63F0).unwrap();
    run(&mut chip8, 0x643C).unwrap();
    assert_eq!(chip8.registers[3], 0xF0);
    run(&mut chip8, 0x8341).unwrap();
    assert_eq!(chip8.registers[3], 0xFC);
    run(&mut chip8, 0x8342).unwrap();
    assert_eq!(chip8.registers[3], 0x3C);
    run(&mut chip8, 0x63F0).unwrap();
    run(&mut chip8, 0x8343).unwrap();
    assert_eq!(chip8.registers[3], 0xCC);
    run(&mut chip8, 0x8340).unwrap();
    assert_eq!(chip8.registers[3], 0x3C);
    run(&mut chip8, 0x73F0).unwrap();
    assert_eq!(chip8.registers[3], 0x2C);
    assert_eq!(chip8.registers[0xF], 0);
}

#[test]
fn shift_quirk_changes_result() {
    let mut off = Chip8::default();
    off.registers[1] = 0b0000_0101;
    off.registers[2] = 0b1000_0010;
    let mut on = Chip8::default();
    on.registers = off.registers;
    on.shift_quirk = true;

    run(&mut off, 0x8126).unwrap();
    run(&mut on, 0x8126).unwrap();
    assert_eq!((off.registers[1], off.registers[0xF]), (0b0000_0010, 1));
    assert_eq!((on.registers[1], on.registers[0xF]), (0b0100_0001, 0));

    off.registers[1] = 0b0000_0101;
    on.registers[1] = 0b0000_0101;
    run(&mut off, 0x812E).unwrap();
    run(&mut on, 0x812E).unwrap();
    assert_eq!((off.registers[1], off.registers[0xF]), (0b0000_1010, 0));
    assert_eq!((on.registers[1], on.registers[0xF]), (0b0000_0100, 1));
}

#[test]
fn draw_twice_clears_and_collides() {
    let mut chip8 = Chip8::default();
    chip8.registers[0] = 10;
    chip8.registers[1] = 5;
    run(&mut chip8, 0xF029).unwrap();
    run(&mut chip8, 0xD015).unwrap();
    assert_eq!(chip8.registers[0xF], 0);
    assert_eq!(lit_pixels(&chip8).len(), 14);
    assert!(chip8.screen.pixel(10, 5));
    run(&mut chip8, 0xD015).unwrap();
    assert_eq!(chip8.registers[0xF], 1);
    assert!(lit_pixels(&chip8).is_empty());
}

#[test]
fn draw_wraps_each_pixel() {
    let mut chip8 = Chip8::default();
    chip8.memory[0x300] = 0xFF;
    chip8.index = 0x300;
    chip8.registers[0] = 62;
    chip8.registers[1] = 31;
    run(&mut chip8, 0xD011).unwrap();
    let expected: Vec<(usize, usize)> = vec![0, 1, 2, 3, 4, 5, 62, 63].into_iter().map(|x| (x, 31)).collect();
    assert_eq!(lit_pixels(&chip8), expected);
    assert_eq!(chip8.registers[0xF], 0);
}

#[test]
fn draw_wraps_vertically() {
    let mut chip8 = Chip8::default();
    chip8.memory[0x300] = 0x80;
    chip8.memory[0x301] = 0x80;
    chip8.index = 0x300;
    chip8.registers[0] = 70;
    chip8.registers[1] = 31;
    run(&mut chip8, 0xD012).unwrap();
    assert_eq!(lit_pixels(&chip8), vec![(6, 0), (6, 31)]);
}

#[test]
fn bcd_of_234() {
    let mut chip8 = Chip8::default();
    chip8.registers[4] = 234;
    chip8.index = 0x400;
    run(&mut chip8, 0xF433).unwrap();
    assert_eq!(&chip8.memory[0x400..0x403], &[2, 3, 4]);
}

#[test]
fn store_then_load_round_trips() {
    for x in 0..16u16 {
        let mut chip8 = Chip8::default();
        for j in 0..16 {
            chip8.registers[j] = (j as u8) * 7 + 3;
        }
        let saved = chip8.registers;
        chip8.index = 0x500;
        run(&mut chip8, 0xF055 | (x << 8)).unwrap();
        chip8.registers = [0xAA; 16];
        run(&mut chip8, 0xF065 | (x << 8)).unwrap();
        for j in 0..16usize {
            if j <= x as usize {
                assert_eq!(chip8.registers[j], saved[j]);
            } else {
                assert_eq!(chip8.registers[j], 0xAA);
            }
        }
        assert_eq!(chip8.index, 0x500);
    }
}

#[test]
fn clear_screen() {
    let mut chip8 = Chip8::default();
    chip8.registers[0] = 3;
    run(&mut chip8, 0xF029).unwrap();
    run(&mut chip8, 0xD005).unwrap();
    assert!(!lit_pixels(&chip8).is_empty());
    run(&mut chip8, 0x00E0).unwrap();
    assert!(lit_pixels(&chip8).is_empty());
}

#[test]
fn skips_advance_pc() {
    let cases: [(u16, bool); 8] = [
        (0x3107, true),
        (0x3108, false),
        (0x4108, true),
        (0x4107, false),
        (0x5120, true),
        (0x5130, false),
        (0x9130, true),
        (0x9120, false),
    ];
    for (op, skips) in cases {
        let mut chip8 = Chip8::default();
        chip8.registers[1] = 7;
        chip8.registers[2] = 7;
        chip8.registers[3] = 9;
        load_program(&mut chip8, &[op]);
        chip8.cycle_with(0).unwrap();
        assert_eq!(chip8.pc, if skips { 0x204 } else { 0x202 }, "opcode {op:04X}");
    }
}

#[test]
fn key_wait_holds_then_takes_lowest_key() {
    let mut chip8 = Chip8::default();
    load_program(&mut chip8, &[0xF50A]);
    chip8.cycle_with(0).unwrap();
    assert_eq!(chip8.pc, 0x200);
    chip8.cycle_with(0).unwrap();
    assert_eq!(chip8.pc, 0x200);
    let mut keys = [false; 16];
    keys[9] = true;
    keys[4] = true;
    chip8.process_input(keys, false, false);
    chip8.cycle_with(0).unwrap();
    assert_eq!(chip8.registers[5], 4);
    assert_eq!(chip8.pc, 0x202);
}

#[test]
fn key_skips() {
    let mut chip8 = Chip8::default();
    chip8.keypad[0xA] = true;
    chip8.registers[2] = 0xA;
    chip8.registers[3] = 0xB;
    run(&mut chip8, 0xE29E).unwrap();
    assert_eq!(chip8.pc, 0x202);
    run(&mut chip8, 0xE39E).unwrap();
    assert_eq!(chip8.pc, 0x202);
    run(&mut chip8, 0xE3A1).unwrap();
    assert_eq!(chip8.pc, 0x204);
    run(&mut chip8, 0xE2A1).unwrap();
    assert_eq!(chip8.pc, 0x204);
}

#[test]
fn call_and_return() {
    let mut chip8 = Chip8::default();
    load_program(&mut chip8, &[0x2300]);
    chip8.memory[0x300] = 0x00;
    chip8.memory[0x301] = 0xEE;
    chip8.cycle_with(0).unwrap();
    assert_eq!(chip8.pc, 0x300);
    assert_eq!(chip8.stack_ptr, 1);
    assert_eq!(chip8.stack[0], 0x202);
    chip8.cycle_with(0).unwrap();
    assert_eq!(chip8.pc, 0x202);
    assert_eq!(chip8.stack_ptr, 0);
}

#[test]
fn jumps_and_index() {
    let mut chip8 = Chip8::default();
    run(&mut chip8, 0x1ABC).unwrap();
    assert_eq!(chip8.pc, 0xABC);
    chip8.registers[0] = 0x10;
    run(&mut chip8, 0xB300).unwrap();
    assert_eq!(chip8.pc, 0x310);
    run(&mut chip8, 0xA123).unwrap();
    assert_eq!(chip8.index, 0x123);
    chip8.registers[6] = 0x20;
    run(&mut chip8, 0xF61E).unwrap();
    assert_eq!(chip8.index, 0x143);
    chip8.registers[6] = 0xB;
    run(&mut chip8, 0xF629).unwrap();
    assert_eq!(chip8.index, 0x50 + 55);
}

#[test]
fn random_byte_is_masked() {
    let mut chip8 = Chip8::default();
    chip8.opcode = 0xC30F;
    chip8.execute_with(0xAB).unwrap();
    assert_eq!(chip8.registers[3], 0x0B);
    chip8.opcode = 0xC300;
    chip8.execute().unwrap();
    assert_eq!(chip8.registers[3], 0);
    chip8.opcode = 0xC3F0;
    chip8.execute().unwrap();
    assert_eq!(chip8.registers[3] & 0x0F, 0);
}

#[test]
fn timers_count_down_per_cycle() {
    let mut chip8 = Chip8::default();
    chip8.registers[1] = 2;
    load_program(&mut chip8, &[0xF115, 0xF118, 0xF207, 0x0000]);
    chip8.cycle_with(0).unwrap();
    assert_eq!(chip8.delay_timer, 1);
    chip8.cycle_with(0).unwrap();
    assert_eq!(chip8.delay_timer, 0);
    assert_eq!(chip8.sound_timer, 1);
    chip8.cycle_with(0).unwrap();
    assert_eq!(chip8.registers[2], 0);
    assert_eq!(chip8.sound_timer, 0);
    chip8.delay_timer = 1;
    assert_eq!(chip8.cycle_with(0), Err(Chip8Error::UnimplementedOpcode(0x0000)));
    assert_eq!(chip8.opcode, 0x0000);
    assert_eq!(chip8.pc, 0x208);
    assert_eq!(chip8.delay_timer, 0);
}

#[test]
fn unknown_opcode_is_skipped() {
    let mut chip8 = Chip8::default();
    chip8.delay_timer = 3;
    load_program(&mut chip8, &[0x5121, 0xF1FF, 0x8128, 0xE1FF, 0x0123]);
    for n in 1..=5u16 {
        let before = chip8.memory[0x200 + 2 * (n as usize - 1)];
        assert_eq!(
            chip8.cycle_with(0),
            Err(Chip8Error::UnimplementedOpcode(chip8_word(before, &chip8, n)))
        );
        assert_eq!(chip8.pc, 0x200 + 2 * n);
    }
    assert_eq!(chip8.delay_timer, 0);
}

fn chip8_word(hi: u8, chip8: &Chip8, n: u16) -> u16 {
    ((hi as u16) << 8) | chip8.memory[0x200 + 2 * (n as usize - 1) + 1] as u16
}

#[test]
fn stack_errors() {
    let mut chip8 = Chip8::default();
    assert_eq!(run(&mut chip8, 0x00EE), Err(Chip8Error::StackUnderflow));
    assert_eq!(chip8.pc, 0x200);
    for _ in 0..16 {
        run(&mut chip8, 0x2400).unwrap();
    }
    assert_eq!(chip8.stack_ptr, 16);
    assert_eq!(run(&mut chip8, 0x2400), Err(Chip8Error::StackOverflow));
    assert_eq!(chip8.stack_ptr, 16);
}

#[test]
fn address_errors() {
    let mut chip8 = Chip8::default();
    chip8.index = 0xFFE;
    assert_eq!(run(&mut chip8, 0xF033), Err(Chip8Error::AddressOutOfRange(0xFFE)));
    assert_eq!(run(&mut chip8, 0xF255), Err(Chip8Error::AddressOutOfRange(0xFFE)));
    assert_eq!(run(&mut chip8, 0xF265), Err(Chip8Error::AddressOutOfRange(0xFFE)));
    assert_eq!(run(&mut chip8, 0xD003), Err(Chip8Error::AddressOutOfRange(0xFFE)));
    run(&mut chip8, 0xF155).unwrap();
    chip8.pc = 0xFFF;
    assert_eq!(chip8.cycle_with(0), Err(Chip8Error::AddressOutOfRange(0xFFF)));
    assert_eq!(chip8.pc, 0xFFF);
}

#[test]
fn invalid_key_index() {
    let mut chip8 = Chip8::default();
    chip8.registers[1] = 16;
    assert_eq!(run(&mut chip8, 0xE19E), Err(Chip8Error::InvalidKey(16)));
    assert_eq!(run(&mut chip8, 0xE1A1), Err(Chip8Error::InvalidKey(16)));
    assert_eq!(chip8.pc, 0x200);
}

#[test]
fn load_rom_limits() {
    let mut chip8 = Chip8::default();
    let rom = vec![0x12u8; 3584];
    chip8.load_rom(&rom).unwrap();
    assert_eq!(chip8.memory[0x200], 0x12);
    assert_eq!(chip8.memory[0xFFF], 0x12);
    assert_eq!(chip8.memory[0x1FF], 0);
    let mut fresh = Chip8::default();
    assert_eq!(fresh.load_rom(&vec![1u8; 3585]), Err(Chip8Error::RomTooLarge(3585)));
    assert_eq!(fresh.memory[0x200], 0);
    fresh.load_rom(&[]).unwrap();
    assert_eq!(fresh.memory[0x200], 0);
}

#[test]
fn power_on_and_reset() {
    let mut chip8 = Chip8::default();
    assert_eq!(&chip8.memory[0x50..0xA0], &FONTSET[..]);
    assert_eq!(chip8.pc, 0x200);
    assert!(chip8.block_cycle);
    load_program(&mut chip8, &[0x6A42, 0xA222, 0x2400]);
    chip8.screen.show_grid = true;
    chip8.shift_quirk = true;
    for _ in 0..3 {
        chip8.cycle_with(0).unwrap();
    }
    chip8.reset();
    assert_eq!(chip8.registers, [0; 16]);
    assert_eq!(chip8.pc, 0x200);
    assert_eq!(chip8.index, 0);
    assert_eq!(chip8.stack_ptr, 0);
    assert_eq!(chip8.memory[0x200], 0);
    assert_eq!(&chip8.memory[0x50..0xA0], &FONTSET[..]);
    assert!(chip8.screen.show_grid);
    assert!(chip8.shift_quirk);
}

#[test]
fn frame_gating() {
    let mut chip8 = Chip8::default();
    load_program(&mut chip8, &[0x7101, 0x7101, 0x7101]);
    assert!(chip8.should_cycle());
    assert_eq!(chip8.frame_with(0), Some(Ok(())));
    assert_eq!(chip8.registers[1], 1);
    chip8.cycle_advance = true;
    chip8.process_input([false; 16], false, false);
    assert_eq!(chip8.frame_with(0), None);
    assert_eq!(chip8.pc, 0x202);
    chip8.process_input([false; 16], true, false);
    assert_eq!(chip8.frame_with(0), Some(Ok(())));
    assert_eq!(chip8.registers[1], 2);
    assert_eq!(chip8.frame(), None);
    chip8.process_input([false; 16], false, true);
    assert_eq!(chip8.frame(), Some(Ok(())));
    assert_eq!(chip8.registers[1], 3);
}
