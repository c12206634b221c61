use chip8::instruction::Instruction;
use chip8::interpreter::{Chip8, Chip8Error, FONT_ADDRESS};
use chip8::nibbles::{combine_three_nibbles, combine_two_nibbles, get_first_nibble, get_second_nibble};

const START: u16 = Chip8::PROGRAM_MEMORY_OFFSET;

fn machine_with(program: &[u8]) -> Chip8 {
    let mut chip = Chip8::new();
    chip.load_program(program).unwrap();
    chip
}

fn machine_with_font(program: &[u8]) -> Chip8 {
    let mut chip = machine_with(program);
    chip.load_font();
    chip
}

fn run(chip: &mut Chip8, steps: usize) {
    for _ in 0..steps {
        chip.execute_current_instruction(0).unwrap();
    }
}

fn lit_pixels(chip: &Chip8) -> usize {
    let mut n = 0;
    for row in 0..32 {
        for column in 0..64 {
            if chip.pixel(row, column) {
                n += 1;
            }
        }
    }
    n
}

#[test]
fn new_machine_is_cleared() {
    let chip = Chip8::new();
    assert_eq!(chip.program_counter(), 200);
    assert_eq!(chip.address_register(), 0);
    assert_eq!(chip.call_stack_index(), 0);
    assert_eq!(chip.delay_timer(), 0);
    assert_eq!(chip.sound_timer(), 0);
    for x in 0..16 {
        assert_eq!(chip.register(x), 0);
        assert!(!chip.is_key_pressed(x));
    }
    assert!(chip.is_display_clear());
    assert!(!chip.is_awaiting_key());
    for address in 0..4096 {
        assert_eq!(chip.memory_at(address), 0);
    }
}

#[test]
fn load_font_writes_only_the_glyphs() {
    let mut chip = Chip8::new();
    chip.load_font();
    assert_eq!(chip.memory_at(FONT_ADDRESS), 0xF0);
    assert_eq!(chip.memory_at(FONT_ADDRESS + 5), 0x20);
    assert_eq!(chip.memory_at(FONT_ADDRESS + 79), 0x80);
    assert_eq!(chip.memory_at(FONT_ADDRESS - 1), 0);
    assert_eq!(chip.memory_at(FONT_ADDRESS + 80), 0);
    assert_eq!(chip.program_counter(), START);
}

#[test]
fn nibble_helpers() {
    assert_eq!(get_first_nibble(0xAB), 0xA);
    assert_eq!(get_second_nibble(0xAB), 0xB);
    assert_eq!(combine_two_nibbles(0xA, 0xB), 0xAB);
    assert_eq!(combine_three_nibbles(0x1, 0x2, 0x3), 0x123);
}

#[test]
fn decode_picks_the_most_specific_pattern() {
    assert_eq!(Instruction::decode([0, 0, 0xE, 0]), Instruction::ClearScreen);
    assert_eq!(Instruction::decode([0, 0, 0xE, 0xE]), Instruction::ReturnSubroutine);
    assert_eq!(Instruction::decode([0, 1, 2, 3]), Instruction::NoOperation);
    assert_eq!(Instruction::decode([0xD, 1, 2, 5]), Instruction::DrawSprite { x: 1, y: 2, height: 5 });
    assert_eq!(Instruction::decode([4, 3, 0x1, 0x2]), Instruction::SkipIfNotEqualValue { x: 3, value: 0x12 });
    assert_eq!(Instruction::decode([0x1, 0xA, 0xB, 0xC]), Instruction::Jump { address: 0xABC });
    assert_eq!(Instruction::decode([5, 1, 2, 1]), Instruction::NoOperation);
    assert_eq!(Instruction::decode([8, 1, 2, 0xF]), Instruction::NoOperation);
    assert_eq!(Instruction::decode([0xF, 1, 9, 9]), Instruction::NoOperation);
}

#[test]
fn assign_value_reads_back() {
    for x in 0..16u8 {
        let mut chip = machine_with(&[0x60 | x, 0x5A]);
        run(&mut chip, 1);
        assert_eq!(chip.register(x), 0x5A);
        assert_eq!(chip.program_counter(), START + 2);
    }
}

#[test]
fn add_assign_value_wraps() {
    let mut chip = machine_with(&[0x63, 250, 0x73, 10, 0x6F, 7, 0x7F, 1]);
    run(&mut chip, 2);
    assert_eq!(chip.register(3), 4);
    assert_eq!(chip.register(15), 0);
    run(&mut chip, 2);
    assert_eq!(chip.register(15), 8);
}

#[test]
fn add_sets_carry_flag() {
    let mut chip = machine_with(&[0x60, 200, 0x61, 100, 0x80, 0x14]);
    run(&mut chip, 3);
    assert_eq!(chip.register(0), 44);
    assert_eq!(chip.register(15), 1);

    let mut chip = machine_with(&[0x60, 200, 0x61, 55, 0x6F, 9, 0x80, 0x14]);
    run(&mut chip, 4);
    assert_eq!(chip.register(0), 255);
    assert_eq!(chip.register(15), 0);
}

#[test]
fn subtract_sets_no_borrow_flag() {
    let mut chip = machine_with(&[0x60, 5, 0x61, 10, 0x80, 0x15]);
    run(&mut chip, 3);
    assert_eq!(chip.register(0), 251);
    assert_eq!(chip.register(15), 0);

    let mut chip = machine_with(&[0x60, 10, 0x61, 10, 0x80, 0x15]);
    run(&mut chip, 3);
    assert_eq!(chip.register(0), 0);
    assert_eq!(chip.register(15), 1);

    let mut chip = machine_with(&[0x60, 5, 0x61, 10, 0x80, 0x17]);
    run(&mut chip, 3);
    assert_eq!(chip.register(0), 5);
    assert_eq!(chip.register(15), 1);
}

#[test]
fn bitwise_operations() {
    let mut chip = machine_with(&[0x60, 0b1100, 0x61, 0b1010, 0x82, 0x00, 0x82, 0x11, 0x83, 0x00, 0x83, 0x12, 0x84, 0x00, 0x84, 0x13]);
    run(&mut chip, 8);
    assert_eq!(chip.register(2), 0b1110);
    assert_eq!(chip.register(3), 0b1000);
    assert_eq!(chip.register(4), 0b0110);
}

#[test]
fn shifts_set_the_shifted_out_bit() {
    let mut chip = machine_with(&[0x61, 0b1000_0101, 0x80, 0x16]);
    run(&mut chip, 2);
    assert_eq!(chip.register(0), 0b0100_0010);
    assert_eq!(chip.register(15), 1);

    let mut chip = machine_with(&[0x61, 0b1000_0101, 0x80, 0x1E]);
    run(&mut chip, 2);
    assert_eq!(chip.register(0), 0b0000_1010);
    assert_eq!(chip.register(15), 1);

    let mut chip = machine_with(&[0x61, 0b0100_0100, 0x80, 0x1E]);
    run(&mut chip, 2);
    assert_eq!(chip.register(0), 0b1000_1000);
    assert_eq!(chip.register(15), 0);
}

#[test]
fn call_then_return_resumes_after_the_call() {
    let mut chip = machine_with(&[0x20, 0xCE, 0x00, 0x00, 0x00, 0x00, 0x00, 0xEE]);
    run(&mut chip, 1);
    assert_eq!(chip.program_counter(), 206);
    assert_eq!(chip.call_stack_index(), 1);
    run(&mut chip, 1);
    assert_eq!(chip.program_counter(), START + 2);
    assert_eq!(chip.call_stack_index(), 0);
}

#[test]
fn seventeenth_nested_call_overflows() {
    // Calls itself: 0x0C8 is the program offset.
    let mut chip = machine_with(&[0x20, 0xC8]);
    run(&mut chip, 16);
    assert_eq!(chip.call_stack_index(), 16);
    assert_eq!(chip.execute_current_instruction(0), Err(Chip8Error::StackOverflow));
    assert_eq!(chip.call_stack_index(), 16);
    assert_eq!(chip.program_counter(), START);
}

#[test]
fn return_on_empty_stack_underflows() {
    let mut chip = machine_with(&[0x00, 0xEE]);
    assert_eq!(chip.execute_current_instruction(0), Err(Chip8Error::StackUnderflow));
    assert_eq!(chip.program_counter(), START);
    assert_eq!(chip.call_stack_index(), 0);
}

#[test]
fn jumps() {
    let mut chip = machine_with(&[0x13, 0x00]);
    run(&mut chip, 1);
    assert_eq!(chip.program_counter(), 0x300);

    let mut chip = machine_with(&[0x60, 0x10, 0xB3, 0x00]);
    run(&mut chip, 2);
    assert_eq!(chip.program_counter(), 0x310);
}

#[test]
fn legacy_and_unknown_opcodes_do_nothing() {
    let mut chip = machine_with(&[0x01, 0x23, 0x51, 0x21, 0xE0, 0x00]);
    run(&mut chip, 3);
    assert_eq!(chip.program_counter(), START + 6);
    for x in 0..16 {
        assert_eq!(chip.register(x), 0);
    }
}

#[test]
fn skips_compare_values_and_registers() {
    // equal value: skips
    let mut chip = machine_with(&[0x60, 7, 0x30, 7]);
    run(&mut chip, 2);
    assert_eq!(chip.program_counter(), START + 6);
    // not equal value: no skip for 3, skip for 4
    let mut chip = machine_with(&[0x60, 7, 0x30, 8, 0x40, 8]);
    run(&mut chip, 3);
    assert_eq!(chip.program_counter(), START + 8);
    let mut chip = machine_with(&[0x60, 7, 0x40, 7]);
    run(&mut chip, 2);
    assert_eq!(chip.program_counter(), START + 4);
    // registers
    let mut chip = machine_with(&[0x60, 7, 0x61, 7, 0x50, 0x10]);
    run(&mut chip, 3);
    assert_eq!(chip.program_counter(), START + 8);
    let mut chip = machine_with(&[0x60, 7, 0x61, 7, 0x90, 0x10]);
    run(&mut chip, 3);
    assert_eq!(chip.program_counter(), START + 6);
}

#[test]
fn key_skips_follow_the_keypad() {
    let mut chip = machine_with(&[0x60, 0xB, 0xE0, 0x9E]);
    chip.set_key(0xB, true);
    run(&mut chip, 2);
    assert_eq!(chip.program_counter(), START + 6);

    let mut chip = machine_with(&[0x60, 0xB, 0xE0, 0xA1]);
    run(&mut chip, 2);
    assert_eq!(chip.program_counter(), START + 6);

    let mut chip = machine_with(&[0x60, 0xB, 0xE0, 0xA1]);
    chip.set_key(0xB, true);
    run(&mut chip, 2);
    assert_eq!(chip.program_counter(), START + 4);
}

#[test]
fn clear_screen_turns_every_pixel_off() {
    let mut chip = machine_with_font(&[0xA0, 0x50, 0xD0, 0x05, 0x00, 0xE0]);
    run(&mut chip, 2);
    assert!(!chip.is_display_clear());
    run(&mut chip, 1);
    assert!(chip.is_display_clear());
    assert_eq!(lit_pixels(&chip), 0);
}

#[test]
fn drawing_twice_restores_and_reports_collision() {
    // the glyph of digit 0 at (0, 0), twice
    let mut chip = machine_with_font(&[0xA0, 0x50, 0xD0, 0x05, 0xD0, 0x05]);
    run(&mut chip, 2);
    assert_eq!(chip.register(15), 0);
    assert_eq!(lit_pixels(&chip), 14);
    assert!(chip.pixel(0, 0) && chip.pixel(0, 3) && !chip.pixel(0, 4) && chip.pixel(1, 0) && !chip.pixel(1, 1));
    run(&mut chip, 1);
    assert_eq!(chip.register(15), 1);
    assert!(chip.is_display_clear());
}

#[test]
fn sprites_wrap_at_the_display_edges() {
    // x = 62 + 64, y = 31
    let mut chip = machine_with_font(&[0x60, 126, 0x61, 31, 0xA0, 0x50, 0xD0, 0x12]);
    run(&mut chip, 4);
    assert!(chip.pixel(31, 62) && chip.pixel(31, 63) && chip.pixel(31, 0) && chip.pixel(31, 1));
    assert!(!chip.pixel(31, 2));
    assert!(chip.pixel(0, 62) && chip.pixel(0, 1) && !chip.pixel(0, 63) && !chip.pixel(0, 0));
    assert_eq!(lit_pixels(&chip), 6);
}

#[test]
fn sprite_past_the_end_of_memory_fails() {
    let mut chip = machine_with(&[0xAF, 0xFE, 0xD0, 0x03]);
    run(&mut chip, 1);
    assert_eq!(chip.execute_current_instruction(0), Err(Chip8Error::OutOfBoundsAccess));
    assert_eq!(chip.program_counter(), START + 2);
    assert!(chip.is_display_clear());
}

#[test]
fn wait_for_key_polls_until_pressed() {
    let mut chip = machine_with(&[0x63, 0x42, 0xF3, 0x0A]);
    run(&mut chip, 1);
    for _ in 0..3 {
        run(&mut chip, 1);
        assert_eq!(chip.program_counter(), START + 2);
        assert_eq!(chip.register(3), 0x42);
        assert!(chip.is_awaiting_key());
    }
    chip.set_key(7, true);
    chip.set_key(0xC, true);
    run(&mut chip, 1);
    assert_eq!(chip.register(3), 7);
    assert_eq!(chip.program_counter(), START + 4);
    assert!(!chip.is_awaiting_key());
}

#[test]
fn timers_tick_down_to_zero() {
    let mut chip = machine_with(&[0x61, 1, 0xF1, 0x15, 0x62, 3, 0xF2, 0x18, 0xF4, 0x07]);
    run(&mut chip, 4);
    assert_eq!(chip.delay_timer(), 1);
    assert_eq!(chip.sound_timer(), 3);
    run(&mut chip, 1);
    assert_eq!(chip.register(4), 1);
    chip.tick();
    assert_eq!(chip.delay_timer(), 0);
    assert_eq!(chip.sound_timer(), 2);
    chip.tick();
    assert_eq!(chip.delay_timer(), 0);
    assert_eq!(chip.sound_timer(), 1);
}

#[test]
fn random_assign_masks_the_random_byte() {
    let mut chip = machine_with(&[0xC5, 0x0F]);
    chip.execute_current_instruction(0xAB).unwrap();
    assert_eq!(chip.register(5), 0x0B);
}

#[test]
fn address_register_instructions() {
    let mut chip = machine_with(&[0xA3, 0x00, 0x60, 5, 0xF0, 0x1E]);
    run(&mut chip, 3);
    assert_eq!(chip.address_register(), 0x305);

    let mut chip = machine_with_font(&[0x60, 0xA, 0xF0, 0x29]);
    run(&mut chip, 2);
    assert_eq!(chip.address_register(), FONT_ADDRESS + 50);
    assert_eq!(chip.memory_at(chip.address_register()), 0xF0);
}

#[test]
fn store_binary_coded_decimal() {
    let mut chip = machine_with(&[0x60, 234, 0xA3, 0x00, 0xF0, 0x33]);
    run(&mut chip, 3);
    assert_eq!(chip.memory_at(0x300), 2);
    assert_eq!(chip.memory_at(0x301), 3);
    assert_eq!(chip.memory_at(0x302), 4);

    let mut chip = machine_with(&[0x60, 7, 0xAF, 0xFE, 0xF0, 0x33]);
    run(&mut chip, 2);
    assert_eq!(chip.execute_current_instruction(0), Err(Chip8Error::OutOfBoundsAccess));
    assert_eq!(chip.memory_at(0xFFE), 0);
    assert_eq!(chip.program_counter(), START + 4);
}

#[test]
fn store_and_load_variable_registers() {
    let mut chip = machine_with(&[
        0x60, 1, 0x61, 2, 0x62, 3, 0x63, 4, 0xA3, 0x00, 0xF2, 0x55, 0x60, 0, 0x61, 0, 0x62, 0, 0xF1, 0x65,
    ]);
    run(&mut chip, 6);
    assert_eq!(chip.memory_at(0x300), 1);
    assert_eq!(chip.memory_at(0x301), 2);
    assert_eq!(chip.memory_at(0x302), 3);
    assert_eq!(chip.memory_at(0x303), 0);
    run(&mut chip, 4);
    assert_eq!(chip.register(0), 1);
    assert_eq!(chip.register(1), 2);
    assert_eq!(chip.register(2), 0);
    assert_eq!(chip.register(3), 4);

    let mut chip = machine_with(&[0xAF, 0xFF, 0xF1, 0x55]);
    run(&mut chip, 1);
    assert_eq!(chip.execute_current_instruction(0), Err(Chip8Error::OutOfBoundsAccess));
    let mut chip = machine_with(&[0xAF, 0xFF, 0xF0, 0x65]);
    run(&mut chip, 2);
    assert_eq!(chip.register(0), 0);
}

#[test]
fn fetch_past_the_end_of_memory_fails() {
    let mut chip = machine_with(&[0x1F, 0xFF]);
    run(&mut chip, 1);
    assert_eq!(chip.program_counter(), 0xFFF);
    assert_eq!(chip.get_current_instruction(), Err(Chip8Error::OutOfBoundsAccess));
    assert_eq!(chip.execute_current_instruction(0), Err(Chip8Error::OutOfBoundsAccess));
    assert_eq!(chip.program_counter(), 0xFFF);
}

#[test]
fn current_instruction_splits_into_nibbles() {
    let chip = machine_with(&[0xD1, 0x25]);
    assert_eq!(chip.get_current_instruction(), Ok([0xD, 0x1, 0x2, 0x5]));
}

#[test]
fn program_too_large_is_refused() {
    let mut chip = Chip8::new();
    let program = vec![0x11u8; 4096 - 200 + 1];
    assert_eq!(chip.load_program(&program), Err(Chip8Error::OutOfBoundsAccess));
    assert_eq!(chip.memory_at(START), 0);
    let program = vec![0x11u8; 4096 - 200];
    assert_eq!(chip.load_program(&program), Ok(()));
    assert_eq!(chip.memory_at(4095), 0x11);
}
