use chip8_rust::chip8::instruction::Instruction;
use chip8_rust::chip8::memory::{Memory, RomTooLarge};
use chip8_rust::chip8::register::RegisterIndex;
use chip8_rust::chip8::semantics::StepError;
use chip8_rust::chip8::types::Nibble;
use chip8_rust::chip8::Chip8;

fn reg(v: u8) -> RegisterIndex {
    RegisterIndex::new(v).unwrap()
}

const VF: u8 = 0xF;

#[test]
fn initial_state() {
    let chip = Chip8::new();
    assert_eq!(chip.program_counter, 0x200);
    assert_eq!(chip.index_register, 0);
    assert_eq!(chip.stack_pointer, 0);
    assert_eq!(chip.delay_timer, 0);
    assert_eq!(chip.sound_timer, 0);
    assert!(!chip.is_waiting_for_key());
    let buffer = chip.display.get_buffer();
    for row in buffer.iter() {
        for &pixel in row.iter() {
            assert!(!pixel);
        }
    }
}

#[test]
fn font_table_installed() {
    let memory = Memory::new();
    // glyph 0 starts with 0xF0, glyph 1 with 0x20
    assert_eq!(memory.read_byte(0x50), 0xF0);
    assert_eq!(memory.read_byte(0x55), 0x20);
    // the last byte of glyph F
    assert_eq!(memory.read_byte(0x9F), 0x80);
    // outside the font table all is zero
    assert_eq!(memory.read_byte(0x4F), 0);
    assert_eq!(memory.read_byte(0xA0), 0);
}

#[test]
fn read_instruction_is_big_endian() {
    let mut memory = Memory::new();
    memory.load_rom(&[0x12, 0x34]).unwrap();
    assert_eq!(memory.read_instruction(0x200), 0x1234);
}

#[test]
fn rom_of_exactly_available_space_loads() {
    let mut chip = Chip8::new();
    let rom = vec![0xAB; 4096 - 0x200];
    assert!(chip.load_rom(&rom).is_ok());
    assert_eq!(chip.memory.read_byte(0x200), 0xAB);
    assert_eq!(chip.memory.read_byte(4095), 0xAB);
}

#[test]
fn rom_one_byte_over_is_rejected() {
    let mut chip = Chip8::new();
    let rom = vec![0xAB; 4096 - 0x200 + 1];
    assert_eq!(chip.load_rom(&rom), Err(RomTooLarge));
    // nothing was written
    assert_eq!(chip.memory.read_byte(0x200), 0);
}

#[test]
fn add_with_carry() {
    let mut chip = Chip8::new();
    chip.registers.set(reg(0), 0xFF);
    chip.registers.set(reg(1), 0x01);
    chip.execute_instruction(Instruction::LoadAdd(reg(0), reg(1)), 0)
        .unwrap();
    assert_eq!(chip.registers.get(reg(0)), 0x00);
    assert_eq!(chip.registers.get(reg(VF)), 1);
}

#[test]
fn add_without_carry() {
    let mut chip = Chip8::new();
    chip.registers.set(reg(0), 0x12);
    chip.registers.set(reg(1), 0x34);
    chip.execute_instruction(Instruction::LoadAdd(reg(0), reg(1)), 0)
        .unwrap();
    assert_eq!(chip.registers.get(reg(0)), 0x46);
    assert_eq!(chip.registers.get(reg(VF)), 0);
}

#[test]
fn subtract_with_borrow() {
    let mut chip = Chip8::new();
    chip.registers.set(reg(0), 0x01);
    chip.registers.set(reg(1), 0x02);
    chip.execute_instruction(Instruction::LoadSub(reg(0), reg(1)), 0)
        .unwrap();
    assert_eq!(chip.registers.get(reg(0)), 0xFF);
    assert_eq!(chip.registers.get(reg(VF)), 0);
}

#[test]
fn subtract_without_borrow() {
    let mut chip = Chip8::new();
    chip.registers.set(reg(0), 0x07);
    chip.registers.set(reg(1), 0x02);
    chip.execute_instruction(Instruction::LoadSub(reg(0), reg(1)), 0)
        .unwrap();
    assert_eq!(chip.registers.get(reg(0)), 0x05);
    assert_eq!(chip.registers.get(reg(VF)), 1);
}

#[test]
fn reverse_subtract() {
    let mut chip = Chip8::new();
    chip.registers.set(reg(0), 0x02);
    chip.registers.set(reg(1), 0x07);
    chip.execute_instruction(Instruction::LoadSubNegative(reg(0), reg(1)), 0)
        .unwrap();
    assert_eq!(chip.registers.get(reg(0)), 0x05);
    assert_eq!(chip.registers.get(reg(VF)), 1);
}

#[test]
fn shift_right_keeps_low_bit_in_vf() {
    let mut chip = Chip8::new();
    chip.registers.set(reg(3), 0x05);
    chip.execute_instruction(Instruction::LoadShiftRight(reg(3)), 0)
        .unwrap();
    assert_eq!(chip.registers.get(reg(3)), 0x02);
    assert_eq!(chip.registers.get(reg(VF)), 1);
}

#[test]
fn shift_left_keeps_high_bit_in_vf() {
    let mut chip = Chip8::new();
    chip.registers.set(reg(3), 0x81);
    chip.execute_instruction(Instruction::LoadShiftLeft(reg(3)), 0)
        .unwrap();
    assert_eq!(chip.registers.get(reg(3)), 0x02);
    assert_eq!(chip.registers.get(reg(VF)), 1);
}

#[test]
fn draw_twice_collides_and_clears() {
    let mut chip = Chip8::new();
    chip.load_rom(&[0x80]).unwrap(); // a one-row, one-bit sprite
    chip.index_register = 0x200;
    chip.registers.set(reg(0), 3);
    chip.registers.set(reg(1), 5);
    let draw = Instruction::Display(reg(0), reg(1), Nibble::new(1).unwrap());

    chip.execute_instruction(draw, 0).unwrap();
    assert!(chip.display.get_buffer()[5][3]);
    assert_eq!(chip.registers.get(reg(VF)), 0);

    chip.execute_instruction(draw, 0).unwrap();
    assert!(!chip.display.get_buffer()[5][3]);
    assert_eq!(chip.registers.get(reg(VF)), 1);
}

#[test]
fn draw_wraps_modulo_display_size() {
    let mut chip = Chip8::new();
    chip.load_rom(&[0x80]).unwrap();
    chip.index_register = 0x200;
    chip.registers.set(reg(0), 64 + 2);
    chip.registers.set(reg(1), 32 + 7);
    let draw = Instruction::Display(reg(0), reg(1), Nibble::new(1).unwrap());
    chip.execute_instruction(draw, 0).unwrap();
    assert!(chip.display.get_buffer()[7][2]);
}

#[test]
fn timer_at_zero_stays_at_zero() {
    let mut chip = Chip8::new();
    assert_eq!(chip.delay_timer, 0);
    assert_eq!(chip.sound_timer, 0);
    chip.update_timers();
    assert_eq!(chip.delay_timer, 0);
    assert_eq!(chip.sound_timer, 0);
}

#[test]
fn timers_tick_down_and_sound_signals_stop() {
    let mut chip = Chip8::new();
    chip.delay_timer = 5;
    chip.sound_timer = 2;
    assert!(!chip.update_timers());
    assert_eq!(chip.delay_timer, 4);
    assert_eq!(chip.sound_timer, 1);
    // the tick that takes the sound timer to zero signals the stop
    assert!(chip.update_timers());
    assert_eq!(chip.sound_timer, 0);
    assert!(!chip.update_timers());
}

#[test]
fn key_wait_blocks_until_a_key_is_pressed() {
    let mut chip = Chip8::new();
    // wait for a key into V2, then load 5 into V0
    chip.load_rom(&[0xF2, 0x0A, 0x60, 0x05]).unwrap();

    chip.cycle_with_random(0).unwrap();
    assert!(chip.is_waiting_for_key());
    assert_eq!(chip.program_counter, 0x202);

    // no key pressed: repeated steps leave the program counter unchanged
    for _ in 0..3 {
        chip.cycle_with_random(0).unwrap();
        assert!(chip.is_waiting_for_key());
        assert_eq!(chip.program_counter, 0x202);
    }

    chip.keypad.set_key_pressed(7, true);
    chip.cycle_with_random(0).unwrap();
    assert!(!chip.is_waiting_for_key());
    assert_eq!(chip.registers.get(reg(2)), 7);
    assert_eq!(chip.program_counter, 0x202);

    // execution resumes normally
    chip.cycle_with_random(0).unwrap();
    assert_eq!(chip.program_counter, 0x204);
    assert_eq!(chip.registers.get(reg(0)), 5);
}

#[test]
fn key_wait_takes_lowest_pressed_key() {
    let mut chip = Chip8::new();
    chip.load_rom(&[0xF0, 0x0A]).unwrap();
    chip.cycle_with_random(0).unwrap();
    chip.keypad.set_key_pressed(9, true);
    chip.keypad.set_key_pressed(4, true);
    chip.cycle_with_random(0).unwrap();
    assert_eq!(chip.registers.get(reg(0)), 4);
}

#[test]
fn store_load_round_trip() {
    let mut chip = Chip8::new();
    chip.index_register = 0x300;
    for i in 0..4u8 {
        chip.registers.set(reg(i), 0x10 + i);
    }
    chip.execute_instruction(Instruction::StoreRegisters(reg(3)), 0)
        .unwrap();
    for i in 0..4u8 {
        assert_eq!(chip.memory.read_byte(0x300 + i as u16), 0x10 + i);
        chip.registers.set(reg(i), 0);
    }
    chip.execute_instruction(Instruction::LoadRegisters(reg(3)), 0)
        .unwrap();
    for i in 0..4u8 {
        assert_eq!(chip.registers.get(reg(i)), 0x10 + i);
    }
}

#[test]
fn bcd_store() {
    let mut chip = Chip8::new();
    chip.index_register = 0x300;
    chip.registers.set(reg(4), 234);
    chip.execute_instruction(Instruction::LoadBinaryCodedDecimal(reg(4)), 0)
        .unwrap();
    assert_eq!(chip.memory.read_byte(0x300), 2);
    assert_eq!(chip.memory.read_byte(0x301), 3);
    assert_eq!(chip.memory.read_byte(0x302), 4);
}

#[test]
fn call_and_return() {
    let mut chip = Chip8::new();
    let mut rom = vec![0u8; 0x1000 - 0x200];
    rom[0] = 0x2A; // call 0xABC
    rom[1] = 0xBC;
    rom[0xABC - 0x200] = 0x00; // return
    rom[0xABC - 0x200 + 1] = 0xEE;
    chip.load_rom(&rom).unwrap();

    chip.cycle_with_random(0).unwrap();
    assert_eq!(chip.program_counter, 0xABC);
    assert_eq!(chip.stack_pointer, 1);

    chip.cycle_with_random(0).unwrap();
    assert_eq!(chip.program_counter, 0x202);
    assert_eq!(chip.stack_pointer, 0);
}

#[test]
fn call_beyond_sixteen_levels_overflows() {
    let mut chip = Chip8::new();
    for _ in 0..16 {
        chip.execute_instruction(Instruction::Call(0x200), 0).unwrap();
    }
    assert_eq!(
        chip.execute_instruction(Instruction::Call(0x200), 0),
        Err(StepError::StackOverflow)
    );
}

#[test]
fn return_without_call_underflows() {
    let mut chip = Chip8::new();
    assert_eq!(
        chip.execute_instruction(Instruction::Return, 0),
        Err(StepError::StackUnderflow)
    );
    assert_eq!(chip.program_counter, 0x200);
}

#[test]
fn unknown_opcode_reports_and_changes_nothing() {
    let mut chip = Chip8::new();
    // fresh memory at the ROM base holds 0x0000, which decodes to nothing
    assert_eq!(
        chip.cycle_with_random(0),
        Err(StepError::UnknownOpcode(0x0000))
    );
    assert_eq!(chip.program_counter, 0x200);
}

#[test]
fn random_masks_with_kk() {
    let mut chip = Chip8::new();
    chip.execute_instruction(Instruction::Random(reg(0), 0x0F), 0xAB)
        .unwrap();
    assert_eq!(chip.registers.get(reg(0)), 0xAB & 0x0F);
    chip.execute_instruction(Instruction::Random(reg(1), 0xFF), 0xAB)
        .unwrap();
    assert_eq!(chip.registers.get(reg(1)), 0xAB);
}

#[test]
fn emulate_cycle_runs_a_loaded_instruction() {
    let mut chip = Chip8::new();
    chip.load_rom(&[0x63, 0x2A]).unwrap(); // load 0x2A into V3
    chip.emulate_cycle().unwrap();
    assert_eq!(chip.registers.get(reg(3)), 0x2A);
    assert_eq!(chip.program_counter, 0x202);
}

#[test]
fn skip_equal_immediate() {
    let mut chip = Chip8::new();
    chip.registers.set(reg(1), 0x42);
    chip.execute_instruction(Instruction::SkipEqual(reg(1), 0x42), 0)
        .unwrap();
    assert_eq!(chip.program_counter, 0x202);
    chip.execute_instruction(Instruction::SkipEqual(reg(1), 0x43), 0)
        .unwrap();
    assert_eq!(chip.program_counter, 0x202);
}

#[test]
fn skip_on_key_state() {
    let mut chip = Chip8::new();
    chip.registers.set(reg(0), 6);
    chip.keypad.set_key_pressed(6, true);
    chip.execute_instruction(Instruction::SkipKeyPress(reg(0)), 0)
        .unwrap();
    assert_eq!(chip.program_counter, 0x202);
    chip.execute_instruction(Instruction::SkipKeyNotPress(reg(0)), 0)
        .unwrap();
    assert_eq!(chip.program_counter, 0x202);
    chip.keypad.set_key_pressed(6, false);
    chip.execute_instruction(Instruction::SkipKeyNotPress(reg(0)), 0)
        .unwrap();
    assert_eq!(chip.program_counter, 0x204);
}

#[test]
fn jump_with_offset() {
    let mut chip = Chip8::new();
    chip.registers.set(reg(0), 4);
    chip.execute_instruction(Instruction::JumpWithOffset(0x300), 0)
        .unwrap();
    assert_eq!(chip.program_counter, 0x304);
}

#[test]
fn font_character_lookup() {
    let mut chip = Chip8::new();
    chip.registers.set(reg(2), 0xA);
    chip.execute_instruction(Instruction::LoadFontCharacter(reg(2)), 0)
        .unwrap();
    assert_eq!(chip.index_register, 0x50 + 0xA * 5);
}

#[test]
fn index_register_add_wraps() {
    let mut chip = Chip8::new();
    chip.index_register = 0xFFFF;
    chip.registers.set(reg(0), 2);
    chip.execute_instruction(Instruction::AddIndexRegister(reg(0)), 0)
        .unwrap();
    assert_eq!(chip.index_register, 1);
}

#[test]
fn delay_timer_load_and_store() {
    let mut chip = Chip8::new();
    chip.registers.set(reg(1), 60);
    chip.execute_instruction(Instruction::StoreDelayTimer(reg(1)), 0)
        .unwrap();
    assert_eq!(chip.delay_timer, 60);
    chip.execute_instruction(Instruction::LoadDelayTimer(reg(2)), 0)
        .unwrap();
    assert_eq!(chip.registers.get(reg(2)), 60);
    chip.execute_instruction(Instruction::StoreSoundTimer(reg(1)), 0)
        .unwrap();
    assert_eq!(chip.sound_timer, 60);
}

#[test]
fn clear_turns_every_pixel_off() {
    let mut chip = Chip8::new();
    chip.load_rom(&[0x80]).unwrap();
    chip.index_register = 0x200;
    chip.registers.set(reg(0), 1);
    chip.registers.set(reg(1), 1);
    chip.execute_instruction(
        Instruction::Display(reg(0), reg(1), Nibble::new(1).unwrap()),
        0,
    )
    .unwrap();
    assert!(chip.display.get_buffer()[1][1]);
    chip.execute_instruction(Instruction::Clear, 0).unwrap();
    for row in chip.display.get_buffer().iter() {
        for &pixel in row.iter() {
            assert!(!pixel);
        }
    }
}

#[test]
fn keypad_bounds_and_lowest_key() {
    let mut chip = Chip8::new();
    assert_eq!(chip.keypad.get_pressed_key(), None);
    chip.keypad.set_key_pressed(16, true); // out of range: ignored
    assert!(!chip.keypad.is_key_pressed(16));
    assert_eq!(chip.keypad.get_pressed_key(), None);
    chip.keypad.set_key_pressed(9, true);
    chip.keypad.set_key_pressed(5, true);
    assert!(chip.keypad.is_key_pressed(5));
    assert!(chip.keypad.is_key_pressed(9));
    assert_eq!(chip.keypad.get_pressed_key(), Some(5));
}

#[test]
fn add_immediate_wraps_without_touching_vf() {
    let mut chip = Chip8::new();
    chip.registers.set(reg(2), 0xF0);
    chip.execute_instruction(Instruction::Add(reg(2), 0x20), 0)
        .unwrap();
    assert_eq!(chip.registers.get(reg(2)), 0x10);
    assert_eq!(chip.registers.get(reg(VF)), 0);
}

#[test]
fn bitwise_register_operations() {
    let mut chip = Chip8::new();
    chip.registers.set(reg(0), 0b1100);
    chip.registers.set(reg(1), 0b1010);
    chip.execute_instruction(Instruction::LoadOr(reg(0), reg(1)), 0)
        .unwrap();
    assert_eq!(chip.registers.get(reg(0)), 0b1110);
    chip.registers.set(reg(0), 0b1100);
    chip.execute_instruction(Instruction::LoadAnd(reg(0), reg(1)), 0)
        .unwrap();
    assert_eq!(chip.registers.get(reg(0)), 0b1000);
    chip.registers.set(reg(0), 0b1100);
    chip.execute_instruction(Instruction::LoadXor(reg(0), reg(1)), 0)
        .unwrap();
    assert_eq!(chip.registers.get(reg(0)), 0b0110);
}

#[test]
fn skip_register_comparisons() {
    let mut chip = Chip8::new();
    chip.registers.set(reg(0), 7);
    chip.registers.set(reg(1), 7);
    chip.execute_instruction(Instruction::SkipEqualRegister(reg(0), reg(1)), 0)
        .unwrap();
    assert_eq!(chip.program_counter, 0x202);
    chip.execute_instruction(Instruction::SkipNotEqualRegister(reg(0), reg(1)), 0)
        .unwrap();
    assert_eq!(chip.program_counter, 0x202);
    chip.registers.set(reg(1), 8);
    chip.execute_instruction(Instruction::SkipNotEqualRegister(reg(0), reg(1)), 0)
        .unwrap();
    assert_eq!(chip.program_counter, 0x204);
    chip.execute_instruction(Instruction::SkipNotEqual(reg(0), 9), 0)
        .unwrap();
    assert_eq!(chip.program_counter, 0x206);
}

#[test]
fn draw_renders_a_full_glyph() {
    let mut chip = Chip8::new();
    // point the index register at the font glyph for 0
    chip.registers.set(reg(5), 0);
    chip.execute_instruction(Instruction::LoadFontCharacter(reg(5)), 0)
        .unwrap();
    assert_eq!(chip.index_register, 0x50);
    chip.registers.set(reg(0), 0);
    chip.registers.set(reg(1), 0);
    chip.execute_instruction(
        Instruction::Display(reg(0), reg(1), Nibble::new(5).unwrap()),
        0,
    )
    .unwrap();
    // glyph 0 is 0xF0,0x90,0x90,0x90,0xF0: a hollow box four pixels wide
    let buffer = chip.display.get_buffer();
    let expected = [0xF0u8, 0x90, 0x90, 0x90, 0xF0];
    for (row_index, &byte) in expected.iter().enumerate() {
        for col in 0..8 {
            let lit = byte & (0x80 >> col) != 0;
            assert_eq!(buffer[row_index][col], lit);
        }
    }
    assert_eq!(chip.registers.get(reg(VF)), 0);
}

#[test]
fn display_toggle_reports_previous_state() {
    let mut chip = Chip8::new();
    assert!(!chip.display.toggle_pixel(10, 20));
    assert!(chip.display.toggle_pixel(10, 20));
    assert!(!chip.display.get_buffer()[20][10]);
}
