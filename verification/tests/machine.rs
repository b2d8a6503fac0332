use chip8_core::Chip8Error;
use chip8_core::Emulator;
use chip8_core::SCREEN_HEIGHT;
use chip8_core::SCREEN_WIDTH;

fn machine_with(program: &[u8]) -> Emulator {
    let mut emu = Emulator::new();
    emu.load(program).unwrap();
    emu
}

fn run(emu: &mut Emulator, steps: usize) {
    for _ in 0..steps {
        emu.tick_with_random(0).unwrap();
    }
}

fn display_all_off(emu: &Emulator) -> bool {
    emu.get_display().iter().all(|p| !*p)
}

#[test]
fn new_machine_has_canonical_state() {
    let emu = Emulator::new();
    assert_eq!(emu.get_program_counter(), 0x200);
    assert_eq!(emu.get_index_register(), 0);
    assert_eq!(emu.get_delay_timer(), 0);
    assert_eq!(emu.get_sound_timer(), 0);
    for i in 0..16 {
        assert_eq!(emu.get_register(i), 0);
    }
    let display = emu.get_display();
    assert_eq!(display.len(), SCREEN_WIDTH * SCREEN_HEIGHT);
    assert!(display_all_off(&emu));
    // Font glyphs sit at the bottom of memory.
    assert_eq!(emu.read_memory(0), 0xF0);
    assert_eq!(emu.read_memory(5), 0x20);
    assert_eq!(emu.read_memory(79), 0x80);
    assert_eq!(emu.read_memory(80), 0x00);
    assert_eq!(emu.read_memory(0x200), 0x00);
}

#[test]
fn reset_matches_new() {
    let emu = Emulator::reset();
    assert_eq!(emu.get_program_counter(), 0x200);
    assert_eq!(emu.read_memory(0), 0xF0);
    assert!(display_all_off(&emu));
}

#[test]
fn load_copies_program_at_start_address() {
    let emu = machine_with(&[1, 2, 3]);
    assert_eq!(emu.read_memory(0x200), 1);
    assert_eq!(emu.read_memory(0x201), 2);
    assert_eq!(emu.read_memory(0x202), 3);
    assert_eq!(emu.read_memory(0x203), 0);
    // The font below the start address is untouched.
    assert_eq!(emu.read_memory(0), 0xF0);
}

#[test]
fn load_of_empty_image_is_accepted() {
    let mut emu = Emulator::new();
    assert!(emu.load(&[]).is_ok());
    assert_eq!(emu.read_memory(0x200), 0);
}

#[test]
fn load_of_largest_image_is_accepted() {
    let mut emu = Emulator::new();
    let image = vec![0xAB; 4096 - 0x200];
    assert!(emu.load(&image).is_ok());
    assert_eq!(emu.read_memory(0x200), 0xAB);
    assert_eq!(emu.read_memory(4095), 0xAB);
}

#[test]
fn load_overflow_is_rejected_without_writing() {
    let mut emu = Emulator::new();
    let image = vec![0xAB; 4096 - 0x200 + 1];
    assert_eq!(emu.load(&image), Err(Chip8Error::LoadOverflow));
    for addr in 0x200..4096 {
        assert_eq!(emu.read_memory(addr), 0);
    }
    assert_eq!(emu.read_memory(0), 0xF0);
}

#[test]
fn add_immediate_wraps_silently() {
    // v1 = 200; v1 += 100 wraps to 44 and leaves the flag alone.
    let mut emu = machine_with(&[0x61, 0xC8, 0x71, 0x64]);
    run(&mut emu, 2);
    assert_eq!(emu.get_register(1), 44);
    assert_eq!(emu.get_register(15), 0);
}

#[test]
fn add_registers_sets_carry_flag() {
    // 200 + 100 wraps to 44 with carry; then 5 + 10 = 15 without.
    let mut emu = machine_with(&[
        0x61, 0xC8, 0x62, 0x64, 0x81, 0x24, 0x61, 0x05, 0x62, 0x0A, 0x81, 0x24,
    ]);
    run(&mut emu, 3);
    assert_eq!(emu.get_register(1), 44);
    assert_eq!(emu.get_register(15), 1);
    run(&mut emu, 3);
    assert_eq!(emu.get_register(1), 15);
    assert_eq!(emu.get_register(15), 0);
}

#[test]
fn subtract_sets_no_borrow_flag() {
    // 5 - 10 wraps to 251 with a borrow (flag 0); 10 - 5 = 5 without
    // (flag 1).
    let mut emu = machine_with(&[
        0x61, 0x05, 0x62, 0x0A, 0x81, 0x25, 0x61, 0x0A, 0x62, 0x05, 0x81, 0x25,
    ]);
    run(&mut emu, 3);
    assert_eq!(emu.get_register(1), 251);
    assert_eq!(emu.get_register(15), 0);
    run(&mut emu, 3);
    assert_eq!(emu.get_register(1), 5);
    assert_eq!(emu.get_register(15), 1);
}

#[test]
fn reverse_subtract_sets_no_borrow_flag() {
    // v1 = v2 - v1: 5 - 10 wraps to 251 with a borrow (flag 0).
    let mut emu = machine_with(&[0x61, 0x0A, 0x62, 0x05, 0x81, 0x27]);
    run(&mut emu, 3);
    assert_eq!(emu.get_register(1), 251);
    assert_eq!(emu.get_register(15), 0);
}

#[test]
fn bitwise_ops_assign_and_combine() {
    let mut emu = machine_with(&[
        0x61, 0x0C, 0x62, 0x0A, 0x81, 0x21, // v1 = 0x0C | 0x0A
        0x63, 0x0C, 0x83, 0x22, // v3 = 0x0C & 0x0A
        0x64, 0x0C, 0x84, 0x23, // v4 = 0x0C ^ 0x0A
        0x85, 0x20, // v5 = v2
    ]);
    run(&mut emu, 8);
    assert_eq!(emu.get_register(1), 0x0E);
    assert_eq!(emu.get_register(3), 0x08);
    assert_eq!(emu.get_register(4), 0x06);
    assert_eq!(emu.get_register(5), 0x0A);
}

#[test]
fn shifts_report_the_bit_shifted_out() {
    let mut emu = machine_with(&[0x61, 0x05, 0x81, 0x06]);
    run(&mut emu, 2);
    assert_eq!(emu.get_register(1), 2);
    assert_eq!(emu.get_register(15), 1);

    let mut emu = machine_with(&[0x61, 0x81, 0x81, 0x0E]);
    run(&mut emu, 2);
    assert_eq!(emu.get_register(1), 2);
    assert_eq!(emu.get_register(15), 1);
}

#[test]
fn jumps_and_skips_move_the_program_counter() {
    // Absolute jump.
    let mut emu = machine_with(&[0x12, 0x34]);
    run(&mut emu, 1);
    assert_eq!(emu.get_program_counter(), 0x234);

    // Skip if equal to immediate: taken.
    let mut emu = machine_with(&[0x61, 0x07, 0x31, 0x07]);
    run(&mut emu, 2);
    assert_eq!(emu.get_program_counter(), 0x206);

    // Skip if equal to immediate: not taken.
    let mut emu = machine_with(&[0x61, 0x07, 0x31, 0x08]);
    run(&mut emu, 2);
    assert_eq!(emu.get_program_counter(), 0x204);

    // Skip if unequal to immediate: taken.
    let mut emu = machine_with(&[0x61, 0x07, 0x41, 0x08]);
    run(&mut emu, 2);
    assert_eq!(emu.get_program_counter(), 0x206);

    // Skip if registers equal / unequal.
    let mut emu = machine_with(&[0x61, 0x07, 0x62, 0x07, 0x51, 0x20]);
    run(&mut emu, 3);
    assert_eq!(emu.get_program_counter(), 0x208);
    let mut emu = machine_with(&[0x61, 0x07, 0x62, 0x08, 0x91, 0x20]);
    run(&mut emu, 3);
    assert_eq!(emu.get_program_counter(), 0x208);

    // Offset jump adds register 0.
    let mut emu = machine_with(&[0x60, 0x05, 0xB3, 0x00]);
    run(&mut emu, 2);
    assert_eq!(emu.get_program_counter(), 0x305);
}

#[test]
fn call_then_return_restores_the_return_point() {
    // Call 0x300, whose instruction returns at once: the counter comes
    // back to just past the call.
    let mut program = vec![0x23, 0x00];
    // Pad up to program offset 0x100, which is address 0x300.
    program.resize(0x100, 0);
    program.push(0x00);
    program.push(0xEE);
    let mut emu = machine_with(&program);
    run(&mut emu, 1);
    assert_eq!(emu.get_program_counter(), 0x300);
    run(&mut emu, 1);
    assert_eq!(emu.get_program_counter(), 0x202);
}

#[test]
fn index_register_opcodes() {
    // Annn sets, Fx1E adds, Fx29 addresses a glyph.
    let mut emu = machine_with(&[0xA1, 0x23, 0x61, 0x05, 0xF1, 0x1E, 0x62, 0x0A, 0xF2, 0x29]);
    run(&mut emu, 1);
    assert_eq!(emu.get_index_register(), 0x123);
    run(&mut emu, 2);
    assert_eq!(emu.get_index_register(), 0x128);
    run(&mut emu, 2);
    assert_eq!(emu.get_index_register(), 50);
}

#[test]
fn bcd_writes_decimal_digits() {
    // Register holds 157: memory receives 1, 5, 7.
    let mut emu = machine_with(&[0x61, 0x9D, 0xA3, 0x00, 0xF1, 0x33]);
    run(&mut emu, 3);
    assert_eq!(emu.read_memory(0x300), 1);
    assert_eq!(emu.read_memory(0x301), 5);
    assert_eq!(emu.read_memory(0x302), 7);
    assert_eq!(emu.get_index_register(), 0x300);
}

#[test]
fn store_and_load_registers() {
    let mut emu = machine_with(&[
        0x60, 0x0A, 0x61, 0x0B, 0xA3, 0x00, 0xF1, 0x55, // store v0..=v1
        0x60, 0x00, 0x61, 0x00, // zero them
        0xF1, 0x65, // load them back
    ]);
    run(&mut emu, 4);
    assert_eq!(emu.read_memory(0x300), 0x0A);
    assert_eq!(emu.read_memory(0x301), 0x0B);
    assert_eq!(emu.read_memory(0x302), 0x00);
    run(&mut emu, 2);
    assert_eq!(emu.get_register(0), 0);
    assert_eq!(emu.get_register(1), 0);
    run(&mut emu, 1);
    assert_eq!(emu.get_register(0), 0x0A);
    assert_eq!(emu.get_register(1), 0x0B);
    assert_eq!(emu.get_index_register(), 0x300);
}

#[test]
fn draw_lights_pixels_and_clear_blanks_them() {
    // Draw glyph 0 at (0, 0); its first row is 0xF0.
    let mut emu = machine_with(&[0xA0, 0x00, 0x60, 0x00, 0x61, 0x00, 0xD0, 0x15, 0x00, 0xE0]);
    run(&mut emu, 4);
    let display = emu.get_display();
    assert!(display[0] && display[1] && display[2] && display[3]);
    assert!(!display[4]);
    assert_eq!(emu.get_register(15), 0);
    run(&mut emu, 1);
    assert!(display_all_off(&emu));
}

#[test]
fn drawing_twice_toggles_off_and_collides() {
    let mut emu = machine_with(&[0xA0, 0x00, 0x60, 0x00, 0x61, 0x00, 0xD0, 0x15, 0xD0, 0x15]);
    run(&mut emu, 4);
    assert!(!display_all_off(&emu));
    assert_eq!(emu.get_register(15), 0);
    run(&mut emu, 1);
    assert!(display_all_off(&emu));
    assert_eq!(emu.get_register(15), 1);
}

#[test]
fn draw_wraps_around_both_edges() {
    // Anchor at (62, 31): the glyph wraps to the far corner pixels.
    let mut emu = machine_with(&[0xA0, 0x00, 0x60, 0x3E, 0x61, 0x1F, 0xD0, 0x11]);
    run(&mut emu, 4);
    let display = emu.get_display();
    // Row 0xF0 at x = 62, 63, 0, 1 of the last display row.
    assert!(display[64 * 31 + 62]);
    assert!(display[64 * 31 + 63]);
    assert!(display[64 * 31]);
    assert!(display[64 * 31 + 1]);
}

#[test]
fn key_skips_test_the_named_key() {
    // Skip if key 4 pressed: taken only after the press.
    let mut emu = machine_with(&[0x61, 0x04, 0xE1, 0x9E]);
    run(&mut emu, 2);
    assert_eq!(emu.get_program_counter(), 0x204);

    let mut emu = machine_with(&[0x61, 0x04, 0xE1, 0x9E]);
    emu.keypress(4, true);
    run(&mut emu, 2);
    assert_eq!(emu.get_program_counter(), 0x206);

    // Skip if key 4 not pressed.
    let mut emu = machine_with(&[0x61, 0x04, 0xE1, 0xA1]);
    run(&mut emu, 2);
    assert_eq!(emu.get_program_counter(), 0x206);
}

#[test]
fn wait_key_blocks_until_lowest_pressed_key() {
    let mut emu = machine_with(&[0xF1, 0x0A]);
    // No key pressed: the counter stays parked on the instruction.
    run(&mut emu, 1);
    assert_eq!(emu.get_program_counter(), 0x200);
    run(&mut emu, 1);
    assert_eq!(emu.get_program_counter(), 0x200);
    // Two keys pressed: the lowest index wins and execution proceeds.
    emu.keypress(7, true);
    emu.keypress(3, true);
    run(&mut emu, 1);
    assert_eq!(emu.get_register(1), 3);
    assert_eq!(emu.get_program_counter(), 0x202);
}

#[test]
fn keypress_can_be_released() {
    let mut emu = machine_with(&[0xF1, 0x0A]);
    emu.keypress(5, true);
    emu.keypress(5, false);
    run(&mut emu, 1);
    assert_eq!(emu.get_program_counter(), 0x200);
}

#[test]
fn timers_count_down_and_alert_once() {
    let mut emu = machine_with(&[0x61, 0x02, 0xF1, 0x15, 0xF1, 0x18, 0xF2, 0x07]);
    run(&mut emu, 3);
    assert_eq!(emu.get_delay_timer(), 2);
    assert_eq!(emu.get_sound_timer(), 2);
    // The delay register is readable back.
    run(&mut emu, 1);
    assert_eq!(emu.get_register(2), 2);
    assert!(!emu.update_timers());
    assert_eq!(emu.get_delay_timer(), 1);
    assert_eq!(emu.get_sound_timer(), 1);
    assert!(emu.update_timers());
    assert_eq!(emu.get_delay_timer(), 0);
    assert_eq!(emu.get_sound_timer(), 0);
    assert!(!emu.update_timers());
    assert_eq!(emu.get_delay_timer(), 0);
    assert_eq!(emu.get_sound_timer(), 0);
}

#[test]
fn random_byte_is_masked() {
    // A zero mask forces zero whatever the entropy source returned.
    let mut emu = machine_with(&[0x61, 0xFF, 0xC1, 0x00, 0xC2, 0x0F]);
    emu.tick().unwrap();
    emu.tick().unwrap();
    assert_eq!(emu.get_register(1), 0);
    emu.tick().unwrap();
    assert!(emu.get_register(2) < 16);
}

#[test]
fn unknown_opcode_is_reported() {
    let mut emu = machine_with(&[0x00, 0x01]);
    assert_eq!(
        emu.tick_with_random(0),
        Err(Chip8Error::UnknownOpcode(0x0001))
    );
    let mut emu = machine_with(&[0xE1, 0x55]);
    assert_eq!(
        emu.tick_with_random(0),
        Err(Chip8Error::UnknownOpcode(0xE155))
    );
}

#[test]
fn return_with_empty_stack_underflows() {
    let mut emu = machine_with(&[0x00, 0xEE]);
    assert_eq!(emu.tick_with_random(0), Err(Chip8Error::StackUnderflow));
}

#[test]
fn seventeenth_nested_call_overflows() {
    // A chain of calls, each to the next instruction.
    let mut program = Vec::new();
    for i in 0..17u16 {
        let target = 0x202 + 2 * i;
        program.push(0x20 | (target >> 8) as u8);
        program.push((target & 0xFF) as u8);
    }
    let mut emu = machine_with(&program);
    for _ in 0..16 {
        emu.tick_with_random(0).unwrap();
    }
    assert_eq!(emu.tick_with_random(0), Err(Chip8Error::StackOverflow));
}

#[test]
fn out_of_range_accesses_are_reported() {
    // Fetch past the end of memory.
    let mut emu = machine_with(&[0x1F, 0xFF]);
    run(&mut emu, 1);
    assert_eq!(emu.tick_with_random(0), Err(Chip8Error::MemoryOutOfRange));

    // Decimal store reaching past the end.
    let mut emu = machine_with(&[0xAF, 0xFF, 0xF1, 0x33]);
    run(&mut emu, 1);
    assert_eq!(emu.tick_with_random(0), Err(Chip8Error::MemoryOutOfRange));

    // Sprite read reaching past the end.
    let mut emu = machine_with(&[0xAF, 0xFF, 0xD0, 0x02]);
    run(&mut emu, 1);
    assert_eq!(emu.tick_with_random(0), Err(Chip8Error::MemoryOutOfRange));

    // Register store reaching past the end.
    let mut emu = machine_with(&[0xAF, 0xFF, 0xF1, 0x55]);
    run(&mut emu, 1);
    assert_eq!(emu.tick_with_random(0), Err(Chip8Error::MemoryOutOfRange));

    // Key test against a register value beyond the keypad.
    let mut emu = machine_with(&[0x61, 0x10, 0xE1, 0x9E]);
    run(&mut emu, 1);
    assert_eq!(emu.tick_with_random(0), Err(Chip8Error::KeyOutOfRange));
}

#[test]
fn noop_only_advances_the_counter() {
    let mut emu = machine_with(&[0x00, 0x00]);
    run(&mut emu, 1);
    assert_eq!(emu.get_program_counter(), 0x202);
    assert!(display_all_off(&emu));
    assert_eq!(emu.get_register(0), 0);
}
