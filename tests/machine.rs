use r_chip_8::{Chip8, Chip8Error};

fn machine_with(rom: &[u8]) -> Chip8 {
    let mut c = Chip8::new();
    assert_eq!(c.load_rom(rom), Ok(()));
    c
}

fn exec(c: &mut Chip8, word: u16) {
    assert_eq!(c.decode_and_execute(word, 0), Ok(()));
}

#[test]
fn new_machine_state() {
    let c = Chip8::new();
    assert_eq!(c.program_counter(), 0x200);
    assert_eq!(c.index(), 0);
    assert_eq!(c.stack_depth(), 0);
    assert_eq!(c.delay_timer(), 0);
    assert_eq!(c.sound_timer(), 0);
    assert!(!c.is_beeping());
    assert!(!c.needs_redraw());
    for r in 0..16 {
        assert_eq!(c.register(r), 0);
    }
    for y in 0..32 {
        for x in 0..64 {
            assert!(!c.pixel(x, y));
        }
    }
    // the glyph of 0 at 0x50, the glyph of F ending at 0x9F
    assert_eq!(c.memory_byte(0x50), Ok(0xF0));
    assert_eq!(c.memory_byte(0x51), Ok(0x90));
    assert_eq!(c.memory_byte(0x9F), Ok(0x80));
    assert_eq!(c.memory_byte(0x200), Ok(0));
}

#[test]
fn load_rom_places_program_at_0x200() {
    let c = machine_with(&[0x12, 0x34]);
    assert_eq!(c.memory_byte(0x200), Ok(0x12));
    assert_eq!(c.memory_byte(0x201), Ok(0x34));
}

#[test]
fn load_rom_too_large_is_refused() {
    let mut c = Chip8::new();
    let rom = vec![1u8; 4096 - 0x200 + 1];
    assert_eq!(c.load_rom(&rom), Err(Chip8Error::OutOfBoundsMemoryAccess));
    assert_eq!(c.memory_byte(0x200), Ok(0));
    let rom = vec![1u8; 4096 - 0x200];
    assert_eq!(c.load_rom(&rom), Ok(()));
    assert_eq!(c.memory_byte(4095), Ok(1));
}

#[test]
fn add_with_carry_sets_flag() {
    let mut c = Chip8::new();
    exec(&mut c, 0x61C8); // V1 = 200
    exec(&mut c, 0x6264); // V2 = 100
    exec(&mut c, 0x8124);
    assert_eq!(c.register(1), 44);
    assert_eq!(c.register(0xF), 1);
}

#[test]
fn add_without_carry_clears_flag() {
    let mut c = Chip8::new();
    exec(&mut c, 0x6F01); // VF = 1
    exec(&mut c, 0x61FF); // V1 = 255
    exec(&mut c, 0x6200); // V2 = 0
    exec(&mut c, 0x8124);
    assert_eq!(c.register(1), 255);
    assert_eq!(c.register(0xF), 0);
}

#[test]
fn add_byte_does_not_touch_flag() {
    let mut c = Chip8::new();
    exec(&mut c, 0x6F07); // VF = 7
    exec(&mut c, 0x61FA); // V1 = 250
    exec(&mut c, 0x710A); // V1 += 10
    assert_eq!(c.register(1), 4);
    assert_eq!(c.register(0xF), 7);
    exec(&mut c, 0x7FFF); // VF += 255, wrapping
    assert_eq!(c.register(0xF), 6);
}

#[test]
fn sub_and_subn_flags() {
    let mut c = Chip8::new();
    exec(&mut c, 0x6105);
    exec(&mut c, 0x6203);
    exec(&mut c, 0x8125); // V1 = 5 - 3
    assert_eq!(c.register(1), 2);
    assert_eq!(c.register(0xF), 1);
    exec(&mut c, 0x8125); // V1 = 2 - 3
    assert_eq!(c.register(1), 255);
    assert_eq!(c.register(0xF), 0);
    exec(&mut c, 0x6303);
    exec(&mut c, 0x6405);
    exec(&mut c, 0x8347); // V3 = 5 - 3
    assert_eq!(c.register(3), 2);
    assert_eq!(c.register(0xF), 1);
    exec(&mut c, 0x6405);
    exec(&mut c, 0x6306);
    exec(&mut c, 0x8347); // V3 = 5 - 6
    assert_eq!(c.register(3), 255);
    assert_eq!(c.register(0xF), 0);
}

#[test]
fn sub_flag_uses_original_operands() {
    let mut c = Chip8::new();
    exec(&mut c, 0x6F09); // VF = 9
    exec(&mut c, 0x6104); // V1 = 4
    exec(&mut c, 0x8F15); // VF = 9 - 4, written after the flag
    assert_eq!(c.register(0xF), 5);
}

#[test]
fn shifts_and_logic() {
    let mut c = Chip8::new();
    exec(&mut c, 0x6185); // V1 = 0b1000_0101
    exec(&mut c, 0x8106);
    assert_eq!(c.register(1), 0x42);
    assert_eq!(c.register(0xF), 1);
    exec(&mut c, 0x8106);
    assert_eq!(c.register(1), 0x21);
    assert_eq!(c.register(0xF), 0);
    exec(&mut c, 0x6281);
    exec(&mut c, 0x820E);
    assert_eq!(c.register(2), 0x02);
    assert_eq!(c.register(0xF), 1);
    exec(&mut c, 0x820E);
    assert_eq!(c.register(2), 0x04);
    assert_eq!(c.register(0xF), 0);
    exec(&mut c, 0x63F0);
    exec(&mut c, 0x640F);
    exec(&mut c, 0x8341);
    assert_eq!(c.register(3), 0xFF);
    exec(&mut c, 0x6533);
    exec(&mut c, 0x8532);
    assert_eq!(c.register(5), 0x33);
    exec(&mut c, 0x8543);
    assert_eq!(c.register(5), 0x3C);
    exec(&mut c, 0x8650);
    assert_eq!(c.register(6), 0x3C);
}

#[test]
fn skip_instructions_advance_by_four_or_two() {
    // V1 = 7, then 3107 (taken), 3108 (not taken)
    let mut c = machine_with(&[0x61, 0x07, 0x31, 0x07, 0x00, 0x00, 0x31, 0x08]);
    assert_eq!(c.step(0), Ok(()));
    assert_eq!(c.step(0), Ok(()));
    assert_eq!(c.program_counter(), 0x206);
    assert_eq!(c.step(0), Ok(()));
    assert_eq!(c.program_counter(), 0x208);

    let mut c = machine_with(&[0x41, 0x07]);
    assert_eq!(c.step(0), Ok(()));
    assert_eq!(c.program_counter(), 0x204);
    let mut c = machine_with(&[0x41, 0x00]);
    assert_eq!(c.step(0), Ok(()));
    assert_eq!(c.program_counter(), 0x202);

    let mut c = machine_with(&[0x51, 0x20]);
    assert_eq!(c.step(0), Ok(()));
    assert_eq!(c.program_counter(), 0x204);
    let mut c = machine_with(&[0x91, 0x20]);
    assert_eq!(c.step(0), Ok(()));
    assert_eq!(c.program_counter(), 0x202);
    let mut c = machine_with(&[0x61, 0x01, 0x91, 0x20]);
    assert_eq!(c.step(0), Ok(()));
    assert_eq!(c.step(0), Ok(()));
    assert_eq!(c.program_counter(), 0x206);
}

#[test]
fn call_then_return_resumes_after_call() {
    // 0x200: CALL 0x206; 0x202: JP 0x202; 0x206: CALL 0x20A; 0x208: RET; 0x20A: RET
    let rom = [0x22, 0x06, 0x12, 0x02, 0x00, 0x00, 0x22, 0x0A, 0x00, 0xEE, 0x00, 0xEE];
    let mut c = machine_with(&rom);
    assert_eq!(c.step(0), Ok(()));
    assert_eq!(c.program_counter(), 0x206);
    assert_eq!(c.stack_depth(), 1);
    assert_eq!(c.step(0), Ok(()));
    assert_eq!(c.program_counter(), 0x20A);
    assert_eq!(c.stack_depth(), 2);
    assert_eq!(c.step(0), Ok(()));
    assert_eq!(c.program_counter(), 0x208);
    assert_eq!(c.step(0), Ok(()));
    assert_eq!(c.program_counter(), 0x202);
    assert_eq!(c.stack_depth(), 0);
}

#[test]
fn return_on_empty_stack_fails() {
    let mut c = Chip8::new();
    assert_eq!(c.decode_and_execute(0x00EE, 0), Err(Chip8Error::StackUnderflow));
}

#[test]
fn call_beyond_capacity_fails() {
    // 0x200: CALL 0x200, forever
    let mut c = machine_with(&[0x22, 0x00]);
    for _ in 0..16 {
        assert_eq!(c.step(0), Ok(()));
    }
    assert_eq!(c.stack_depth(), 16);
    assert_eq!(c.step(0), Err(Chip8Error::StackOverflow));
    assert_eq!(c.stack_depth(), 16);
}

#[test]
fn legacy_and_invalid_words_fail() {
    let mut c = Chip8::new();
    assert_eq!(c.decode_and_execute(0x0123, 0), Err(Chip8Error::UnsupportedLegacyOp));
    assert_eq!(c.decode_and_execute(0xFFFF, 0), Err(Chip8Error::InvalidOpcode));
    assert_eq!(c.decode_and_execute(0x800F, 0), Err(Chip8Error::InvalidOpcode));
}

#[test]
fn fetch_past_end_of_memory_fails() {
    let mut c = Chip8::new();
    exec(&mut c, 0x1FFF); // PC = 0xFFF
    assert_eq!(c.step(0), Err(Chip8Error::OutOfBoundsMemoryAccess));
    assert_eq!(c.program_counter(), 0xFFF);
}

#[test]
fn jumps() {
    let mut c = Chip8::new();
    exec(&mut c, 0x1ABC);
    assert_eq!(c.program_counter(), 0xABC);
    exec(&mut c, 0x6010);
    exec(&mut c, 0xB300);
    assert_eq!(c.program_counter(), 0x310);
    exec(&mut c, 0xA123);
    assert_eq!(c.index(), 0x123);
}

#[test]
fn random_byte_is_masked() {
    let mut c = Chip8::new();
    assert_eq!(c.decode_and_execute(0xC30F, 0xAB), Ok(()));
    assert_eq!(c.register(3), 0x0B);
    let mut c = machine_with(&[0xC3, 0x00]);
    assert_eq!(c.run(), Ok(()));
    assert_eq!(c.register(3), 0);
}

#[test]
fn clear_then_draw_twice_collides() {
    let mut c = Chip8::new();
    exec(&mut c, 0x00E0);
    exec(&mut c, 0xA050); // glyph of 0
    exec(&mut c, 0x6003);
    exec(&mut c, 0x6104);
    exec(&mut c, 0xD015);
    assert_eq!(c.register(0xF), 0);
    assert!(c.needs_redraw());
    assert!(c.pixel(3, 4));
    assert!(c.pixel(6, 4));
    assert!(!c.pixel(7, 4));
    assert!(c.pixel(3, 5));
    assert!(!c.pixel(4, 5));
    exec(&mut c, 0xD015);
    assert_eq!(c.register(0xF), 1);
    for y in 0..32 {
        for x in 0..64 {
            assert!(!c.pixel(x, y));
        }
    }
}

#[test]
fn draw_clips_at_the_edges() {
    let mut c = machine_with(&[0xFF, 0xFF]);
    exec(&mut c, 0xA200);
    exec(&mut c, 0x603C); // x = 60
    exec(&mut c, 0x611F); // y = 31
    exec(&mut c, 0xD012);
    for x in 60..64 {
        assert!(c.pixel(x, 31));
    }
    for x in 0..4 {
        assert!(!c.pixel(x, 31));
        assert!(!c.pixel(x, 0));
    }
    assert!(!c.pixel(60, 0));
}

#[test]
fn draw_origin_wraps() {
    let mut c = machine_with(&[0x80]);
    exec(&mut c, 0xA200);
    exec(&mut c, 0x6042); // x = 66, wraps to 2
    exec(&mut c, 0x6121); // y = 33, wraps to 1
    exec(&mut c, 0xD011);
    assert!(c.pixel(2, 1));
}

#[test]
fn draw_reading_past_memory_fails() {
    let mut c = Chip8::new();
    exec(&mut c, 0xAFFE);
    assert_eq!(c.decode_and_execute(0xD013, 0), Err(Chip8Error::OutOfBoundsMemoryAccess));
}

#[test]
fn bcd_of_234() {
    let mut c = Chip8::new();
    exec(&mut c, 0x65EA); // V5 = 234
    exec(&mut c, 0xA300);
    exec(&mut c, 0xF533);
    assert_eq!(c.memory_byte(0x300), Ok(2));
    assert_eq!(c.memory_byte(0x301), Ok(3));
    assert_eq!(c.memory_byte(0x302), Ok(4));
    exec(&mut c, 0xAFFE);
    assert_eq!(c.decode_and_execute(0xF533, 0), Err(Chip8Error::OutOfBoundsMemoryAccess));
}

#[test]
fn store_then_load_round_trips() {
    let mut c = Chip8::new();
    for r in 0..4u16 {
        exec(&mut c, 0x6000 | (r << 8) | (10 + r));
    }
    exec(&mut c, 0xA400);
    exec(&mut c, 0xF355);
    assert_eq!(c.memory_byte(0x400), Ok(10));
    assert_eq!(c.memory_byte(0x403), Ok(13));
    assert_eq!(c.memory_byte(0x404), Ok(0));
    for r in 0..4u16 {
        exec(&mut c, 0x6000 | (r << 8));
    }
    exec(&mut c, 0xF365);
    for r in 0..4usize {
        assert_eq!(c.register(r), 10 + r as u8);
    }
}

#[test]
fn font_address_and_index_add() {
    let mut c = Chip8::new();
    exec(&mut c, 0x670A);
    exec(&mut c, 0xF729);
    assert_eq!(c.index(), 0x50 + 5 * 10);
    exec(&mut c, 0xF71E);
    assert_eq!(c.index(), 0x50 + 5 * 10 + 10);
}

#[test]
fn timers_count_down_to_zero() {
    let mut c = Chip8::new();
    exec(&mut c, 0x6102);
    exec(&mut c, 0xF115);
    exec(&mut c, 0xF118);
    assert!(c.is_beeping());
    c.timer_tick();
    exec(&mut c, 0xF207);
    assert_eq!(c.register(2), 1);
    c.timer_tick();
    c.timer_tick();
    assert_eq!(c.delay_timer(), 0);
    assert_eq!(c.sound_timer(), 0);
    assert!(!c.is_beeping());
}

#[test]
fn key_skips() {
    let mut c = Chip8::new();
    exec(&mut c, 0x6105);
    c.key_press(5);
    exec(&mut c, 0xE19E);
    assert_eq!(c.program_counter(), 0x202);
    exec(&mut c, 0xE1A1);
    assert_eq!(c.program_counter(), 0x202);
    c.key_release(5);
    exec(&mut c, 0xE1A1);
    assert_eq!(c.program_counter(), 0x204);
    exec(&mut c, 0xE19E);
    assert_eq!(c.program_counter(), 0x204);
}

#[test]
fn wait_for_key_suspends_until_press() {
    let mut c = machine_with(&[0xF3, 0x0A, 0x12, 0x02]);
    assert_eq!(c.step(0), Ok(()));
    assert!(c.is_waiting_for_key());
    assert_eq!(c.step(0), Ok(()));
    assert_eq!(c.program_counter(), 0x202);
    assert!(c.is_waiting_for_key());
    c.key_press(0xB);
    // a key report only updates the keypad
    assert!(c.is_waiting_for_key());
    assert_eq!(c.register(3), 0);
    assert_eq!(c.step(0), Ok(()));
    assert!(!c.is_waiting_for_key());
    assert_eq!(c.register(3), 0xB);
    assert_eq!(c.program_counter(), 0x202);
    assert_eq!(c.step(0), Ok(()));
    assert_eq!(c.program_counter(), 0x202);
}

#[test]
fn wait_for_key_takes_lowest_key_down() {
    let mut c = machine_with(&[0xF0, 0x0A]);
    c.key_press(0x9);
    c.key_press(0x4);
    assert_eq!(c.step(0), Ok(()));
    assert!(c.is_waiting_for_key());
    assert_eq!(c.step(0), Ok(()));
    assert!(!c.is_waiting_for_key());
    assert_eq!(c.register(0), 0x4);
}

#[test]
fn key_press_leaves_registers_alone() {
    let mut c = machine_with(&[0xF2, 0x0A]);
    assert_eq!(c.step(0), Ok(()));
    c.key_press(0x7);
    c.key_release(0x7);
    assert_eq!(c.register(2), 0);
    assert_eq!(c.step(0), Ok(()));
    assert!(c.is_waiting_for_key());
    assert_eq!(c.register(2), 0);
}

#[test]
fn redraw_flag_is_cleared_by_host() {
    let mut c = Chip8::new();
    exec(&mut c, 0x00E0);
    assert!(c.needs_redraw());
    c.frame_drawn();
    assert!(!c.needs_redraw());
}

#[test]
fn small_rom_draws_expected_bitmap() {
    let rom = [
        0x00, 0xE0, // CLS
        0x60, 0x0A, // V0 = 10
        0x61, 0x05, // V1 = 5
        0xA2, 0x0C, // I = 0x20C
        0xD0, 0x13, // draw 3 rows at (V0, V1)
        0x12, 0x0A, // loop
        0xFF, 0x81, 0xFF, // sprite
    ];
    let mut c = machine_with(&rom);
    for _ in 0..8 {
        assert_eq!(c.step(0), Ok(()));
    }
    let mut expected = vec![vec![false; 64]; 32];
    for x in 10..18 {
        expected[5][x] = true;
        expected[7][x] = true;
    }
    expected[6][10] = true;
    expected[6][17] = true;
    for y in 0..32 {
        for x in 0..64 {
            assert_eq!(c.pixel(x, y), expected[y][x], "pixel ({}, {})", x, y);
        }
    }
    assert_eq!(c.program_counter(), 0x20A);
}

#[test]
fn clear_then_draw_twice_in_cycles() {
    let rom = [
        0xA2, 0x0C, // I = 0x20C
        0x62, 0x01, // V2 = 1
        0x00, 0xE0, // CLS
        0xD2, 0x22, // draw 2 rows at (V2, V2)
        0xD2, 0x22, // the same again
        0x12, 0x0A, // loop
        0xC0, 0x3C, // sprite
    ];
    let mut c = machine_with(&rom);
    for _ in 0..4 {
        assert_eq!(c.step(0), Ok(()));
    }
    assert_eq!(c.register(0xF), 0);
    assert!(c.pixel(1, 1) && c.pixel(2, 1) && c.pixel(3, 2) && !c.pixel(1, 2));
    assert_eq!(c.step(0), Ok(()));
    assert_eq!(c.register(0xF), 1);
    for y in 0..32 {
        for x in 0..64 {
            assert!(!c.pixel(x, y));
        }
    }
    assert_eq!(c.program_counter(), 0x20A);
}
