use chip8::emulator::{Display, Emulator, Keypad, Memory};
use chip8::keyboard::map_key;

#[test]
fn memory_starts_with_font() {
    let memory = Memory::new();
    assert_eq!(&memory.data[0..5], &[0xF0, 0x90, 0x90, 0x90, 0xF0]);
    assert_eq!(&memory.data[5..10], &[0x20, 0x60, 0x20, 0x20, 0x70]);
    assert_eq!(&memory.data[75..80], &[0xF0, 0x80, 0xF0, 0x80, 0x80]);
    assert!(memory.data[80..].iter().all(|&b| b == 0));
}

#[test]
fn memory_reads_and_writes() {
    let mut memory = Memory::new();
    memory.write_byte(0x300, 0xAB);
    assert_eq!(memory.read_byte(0x300), 0xAB);
    assert_eq!(memory.read_byte(0x301), 0);
    memory.write_bytes(0xFFD, &[1, 2, 3]);
    assert_eq!(memory.read_bytes(0xFFD, 3), &[1, 2, 3]);
    assert_eq!(memory.read_bytes(0xFFD, 0), &[] as &[u8]);
    assert_eq!(memory.read_word(0xFFD), 0x0102);
    assert_eq!(memory.read_word(0x000), 0xF090);
}

#[test]
fn keypad_press_and_release() {
    let mut keypad = Keypad::new();
    assert!(!keypad.is_any_key_pressed());
    keypad.press_key(0x3);
    keypad.press_key(0xF);
    assert!(keypad.is_key_pressed(0x3));
    assert!(keypad.is_key_pressed(0xF));
    assert!(!keypad.is_key_pressed(0x4));
    assert_eq!(keypad.get_last_pressed_key(), 0xF);
    keypad.release_key(0xF);
    assert!(!keypad.is_key_pressed(0xF));
    assert!(keypad.is_any_key_pressed());
    // the last key pressed is remembered after its release
    assert_eq!(keypad.get_last_pressed_key(), 0xF);
    keypad.release_key(0x3);
    assert!(!keypad.is_any_key_pressed());
    // releasing a key that is up changes nothing
    keypad.release_key(0x3);
    assert!(!keypad.is_any_key_pressed());
}

#[test]
fn display_draws_with_xor() {
    let mut display = Display::new();
    assert!(!display.draw_sprite(&[0xFF], 0, 0));
    let frame = display.render();
    assert!(frame[0..8].iter().all(|&c| c == 0xFFFFFF));
    assert_eq!(frame[8], 0);
    assert!(display.draw_sprite(&[0xFF], 0, 0));
    assert!(display.render().iter().all(|&c| c == 0));
}

#[test]
fn display_collision_only_on_lit_pixels() {
    let mut display = Display::new();
    assert!(!display.draw_sprite(&[0xF0], 0, 0));
    // the next sprite covers only dark pixels of row 0
    assert!(!display.draw_sprite(&[0x0F], 0, 0));
    // a collision in the first row is reported even when the last one has none
    let mut display = Display::new();
    display.draw_sprite(&[0x80], 10, 3);
    assert!(display.draw_sprite(&[0x80, 0x00], 10, 3));
}

#[test]
fn display_clips_right_and_bottom() {
    let mut display = Display::new();
    display.draw_sprite(&[0xFF, 0xFF], 60, 31);
    let frame = display.render();
    let lit: Vec<usize> = (0..2048).filter(|&i| frame[i] != 0).collect();
    assert_eq!(lit, vec![31 * 64 + 60, 31 * 64 + 61, 31 * 64 + 62, 31 * 64 + 63]);
    // a sprite starting past the right edge draws nothing
    let mut display = Display::new();
    assert!(!display.draw_sprite(&[0xFF], 100, 0));
    assert!(display.render().iter().all(|&c| c == 0));
    // a sprite starting below the bottom edge draws nothing
    assert!(!display.draw_sprite(&[0xFF], 0, 40));
    assert!(display.render().iter().all(|&c| c == 0));
}

#[test]
fn display_column_255_is_column_minus_one() {
    let mut display = Display::new();
    display.draw_sprite(&[0x81], 255, 0);
    let frame = display.render();
    let lit: Vec<usize> = (0..2048).filter(|&i| frame[i] != 0).collect();
    assert_eq!(lit, vec![6]);
}

#[test]
fn display_clear() {
    let mut display = Display::new();
    display.draw_sprite(&[0xAA, 0x55], 5, 5);
    display.clear();
    assert!(display.render().iter().all(|&c| c == 0));
}

#[test]
fn render_layout() {
    let mut display = Display::new();
    display.draw_sprite(&[0x80], 63, 0);
    display.draw_sprite(&[0x80], 0, 1);
    let frame = display.render();
    assert_eq!(frame[63], 0xFFFFFF);
    assert_eq!(frame[64], 0xFFFFFF);
    assert_eq!(frame.iter().filter(|&&c| c != 0).count(), 2);
}

#[test]
fn keyboard_layout() {
    // keys 1 2 3 4 / Q W E R / A S D F / Z X C V stand for the keypad
    // 1 2 3 C / 4 5 6 D / 7 8 9 E / A 0 B F
    assert_eq!(map_key('1'), Some(0x1));
    assert_eq!(map_key('4'), Some(0xC));
    assert_eq!(map_key('q'), Some(0x4));
    assert_eq!(map_key('Q'), Some(0x4));
    assert_eq!(map_key('r'), Some(0xD));
    assert_eq!(map_key('a'), Some(0x7));
    assert_eq!(map_key('F'), Some(0xE));
    assert_eq!(map_key('z'), Some(0xA));
    assert_eq!(map_key('x'), Some(0x0));
    assert_eq!(map_key('C'), Some(0xB));
    assert_eq!(map_key('V'), Some(0xF));
    assert_eq!(map_key('5'), None);
    assert_eq!(map_key('é'), None);
    assert_eq!(map_key('{'), None);
}

#[test]
fn emulator_runs_a_program() {
    let mut emulator = Emulator::new();
    // I = sprite of 1; V0 = 0; draw it at (0, 0); loop forever
    emulator.load_rom(&[0xA0, 0x05, 0x60, 0x00, 0xD0, 0x05, 0x12, 0x06]);
    assert!(emulator.render().iter().all(|&c| c == 0));
    for _ in 0..10 {
        assert!(emulator.can_cycle());
        emulator.cycle();
    }
    let frame = emulator.render();
    // top row of the digit 1 is 0x20: only column 2 lit
    assert_eq!(frame[0], 0);
    assert_eq!(frame[2], 0xFFFFFF);
    assert_eq!(frame[64 + 1], 0xFFFFFF);
}

#[test]
fn emulator_keys_and_timers() {
    let mut emulator = Emulator::new();
    // V0 = 2; DT = V0; wait for a key into V1; V2 = DT;
    // draw the digit V1 at (0, 0) and the digit V2 at (8, 0); loop
    emulator.load_rom(&[
        0x60, 0x02, 0xF0, 0x15, 0xF1, 0x0A, 0xF2, 0x07, 0xF1, 0x29, 0x63, 0x00, 0xD3, 0x35, 0xF2,
        0x29, 0x64, 0x08, 0xD4, 0x35, 0x12, 0x14,
    ]);
    // the last cycle keeps waiting for a key
    for _ in 0..4 {
        emulator.cycle();
    }
    emulator.decrement_timers();
    emulator.press_key(0x9);
    emulator.release_key(0x9);
    emulator.press_key(0x5);
    for _ in 0..8 {
        assert!(emulator.can_cycle());
        emulator.cycle();
    }
    let frame = emulator.render();
    // V1 = 5, the last key pressed: the top row of digit 5 is 0xF0
    assert!(frame[0..4].iter().all(|&c| c == 0xFFFFFF));
    assert_eq!(frame[4], 0);
    // V2 = 1, the delay timer after one tick: the top row of digit 1 is 0x20
    assert_eq!(frame[8], 0);
    assert_eq!(frame[9], 0);
    assert_eq!(frame[10], 0xFFFFFF);
    assert_eq!(frame[11], 0);
}

#[test]
fn emulator_loads_full_rom() {
    let mut emulator = Emulator::new();
    emulator.load_rom(&[0x12; 0xE00]);
    emulator.load_rom(&[]);
    assert!(emulator.can_cycle());
}

#[test]
fn last_key_survives_releases() {
    let mut keypad = Keypad::new();
    keypad.press_key(0x2);
    keypad.press_key(0x7);
    for key in [0x7, 0x2, 0x7, 0x0, 0xF] {
        keypad.release_key(key);
        assert_eq!(keypad.get_last_pressed_key(), 0x7);
    }
    assert!(!keypad.is_any_key_pressed());
}

#[test]
fn frame_runs_ten_cycles_then_ticks() {
    let mut emulator = Emulator::new();
    // V0 = 5; DT = V0; then count V1 up in a loop that draws nothing
    emulator.load_rom(&[0x60, 0x05, 0xF0, 0x15, 0x71, 0x01, 0x12, 0x04]);
    assert!(emulator.run_frame());
    assert!(emulator.run_frame());
    assert!(emulator.render().iter().all(|&c| c == 0));

    // a frame that meets an opcode that cannot run stops there
    let mut emulator = Emulator::new();
    // V0 = 0; draw digit 0 at (0, 0); then the undefined opcode 8008
    emulator.load_rom(&[0x60, 0x00, 0xA0, 0x00, 0xD0, 0x05, 0x80, 0x08]);
    assert!(!emulator.run_frame());
    assert!(!emulator.can_cycle());
    // the cycles before it ran: the digit is on the screen
    assert_eq!(emulator.render()[0], 0xFFFFFF);
}

#[test]
fn frame_ticks_timers_once() {
    let mut emulator = Emulator::new();
    // V0 = 5; DT = V0; 8 cycles of padding jumps; the next frame reads DT
    // into V1 and draws digit V1 at (0, 0)
    emulator.load_rom(&[
        0x60, 0x05, 0xF0, 0x15, 0x12, 0x06, 0x12, 0x08, 0x12, 0x0A, 0x12, 0x0C, 0x12, 0x0E, 0x12,
        0x10, 0x12, 0x12, 0x12, 0x14, 0xF1, 0x07, 0xF1, 0x29, 0x62, 0x00, 0xD2, 0x25, 0x12, 0x1C,
    ]);
    assert!(emulator.run_frame());
    assert!(emulator.run_frame());
    let frame = emulator.render();
    // V1 = 4 (5 less one tick): the rows of digit 4 are 90 90 F0 10 10
    assert_eq!(frame[0], 0xFFFFFF);
    assert_eq!(frame[1], 0);
    assert_eq!(frame[3], 0xFFFFFF);
    assert_eq!(frame[2 * 64 + 1], 0xFFFFFF);
}
