use chip8::emulator::{Cpu, Display, Keypad, Memory};

/// Loads `program` at 0x200 and runs `cycles` cycles on a fresh machine.
fn run_with_keys(program: &[u8], cycles: usize, keypad: &Keypad) -> (Cpu, Memory, Display) {
    let mut cpu = Cpu::new();
    let mut memory = Memory::new();
    let mut display = Display::new();
    memory.write_bytes(0x200, program);
    for _ in 0..cycles {
        assert!(cpu.can_cycle(&memory, keypad));
        cpu.cycle(&mut memory, &mut display, keypad);
    }
    (cpu, memory, display)
}

fn run(program: &[u8], cycles: usize) -> (Cpu, Memory, Display) {
    run_with_keys(program, cycles, &Keypad::new())
}

/// Runs `program` followed by `A300 FF55` (store every register at 0x300)
/// and returns V0 to VF.
fn registers_after(program: &[u8], cycles: usize) -> [u8; 16] {
    let mut full = program.to_vec();
    full.extend_from_slice(&[0xA3, 0x00, 0xFF, 0x55]);
    let (_, memory, _) = run(&full, cycles + 2);
    let mut v = [0u8; 16];
    v.copy_from_slice(&memory.data[0x300..0x310]);
    v
}

#[test]
fn load_immediate_and_add_wraps() {
    // V1 = 0x05; V1 += 0xFF (wraps to 0x04)
    let v = registers_after(&[0x61, 0x05, 0x71, 0xFF], 2);
    assert_eq!(v[1], 0x04);
    assert_eq!(v[0xF], 0);
}

#[test]
fn logic_operations() {
    // V0 = 0xCC, V1 = 0xAA, V2 = V0 | V1, V3 = V0 & V1, V4 = V0 ^ V1
    let program = [
        0x60, 0xCC, 0x61, 0xAA, 0x82, 0x00, 0x82, 0x11, 0x83, 0x00, 0x83, 0x12, 0x84, 0x00, 0x84,
        0x13,
    ];
    let v = registers_after(&program, 8);
    assert_eq!(v[2], 0xCC | 0xAA);
    assert_eq!(v[3], 0xCC & 0xAA);
    assert_eq!(v[4], 0xCC ^ 0xAA);
}

#[test]
fn add_sets_carry() {
    // V0 = 0xF0, V1 = 0x20, V0 += V1
    let v = registers_after(&[0x60, 0xF0, 0x61, 0x20, 0x80, 0x14], 3);
    assert_eq!(v[0], 0x10);
    assert_eq!(v[0xF], 1);
    // 0x10 + 256 * 1 == 0xF0 + 0x20
    assert_eq!(v[0] as u32 + 256 * v[0xF] as u32, 0xF0 + 0x20);
    let v = registers_after(&[0x60, 0x10, 0x61, 0x20, 0x80, 0x14], 3);
    assert_eq!(v[0], 0x30);
    assert_eq!(v[0xF], 0);
}

#[test]
fn subtract_sets_not_borrow() {
    // V0 = 5, V1 = 7, V0 -= V1
    let v = registers_after(&[0x60, 0x05, 0x61, 0x07, 0x80, 0x15], 3);
    assert_eq!(v[0], 0xFE);
    assert_eq!(v[0xF], 0);
    // equal operands: no borrow
    let v = registers_after(&[0x60, 0x07, 0x61, 0x07, 0x80, 0x15], 3);
    assert_eq!(v[0], 0);
    assert_eq!(v[0xF], 1);
}

#[test]
fn reversed_subtract_sets_not_borrow() {
    // V0 = 5, V1 = 7, V0 = V1 - V0
    let v = registers_after(&[0x60, 0x05, 0x61, 0x07, 0x80, 0x17], 3);
    assert_eq!(v[0], 2);
    assert_eq!(v[0xF], 1);
    let v = registers_after(&[0x60, 0x07, 0x61, 0x05, 0x80, 0x17], 3);
    assert_eq!(v[0], 0xFE);
    assert_eq!(v[0xF], 0);
    // equal operands: no borrow
    let v = registers_after(&[0x60, 0x07, 0x61, 0x07, 0x80, 0x17], 3);
    assert_eq!(v[0], 0);
    assert_eq!(v[0xF], 1);
}

#[test]
fn shifts_keep_dropped_bit_in_vf() {
    let v = registers_after(&[0x60, 0x05, 0x80, 0x06], 2);
    assert_eq!(v[0], 0x02);
    assert_eq!(v[0xF], 1);
    let v = registers_after(&[0x60, 0x81, 0x80, 0x0E], 2);
    assert_eq!(v[0], 0x02);
    assert_eq!(v[0xF], 1);
    let v = registers_after(&[0x60, 0x41, 0x80, 0x0E], 2);
    assert_eq!(v[0], 0x82);
    assert_eq!(v[0xF], 0);
}

#[test]
fn flag_register_as_operand() {
    // V1 = 5, VF = 3, V1 -= VF: the old VF is subtracted, then VF = no borrow
    let v = registers_after(&[0x61, 0x05, 0x6F, 0x03, 0x81, 0xF5], 3);
    assert_eq!(v[1], 2);
    assert_eq!(v[0xF], 1);
    // V1 = 5, VF = 3, V1 = VF - V1
    let v = registers_after(&[0x61, 0x05, 0x6F, 0x03, 0x81, 0xF7], 3);
    assert_eq!(v[1], 0xFE);
    assert_eq!(v[0xF], 0);
}

#[test]
fn flag_register_as_destination() {
    // VF = 0xFF, VF += VF: the carry overwrites the sum
    let v = registers_after(&[0x6F, 0xFF, 0x8F, 0xF4], 2);
    assert_eq!(v[0xF], 1);
    // VF = 3, shift VF right: VF takes the low bit 1, which is then shifted
    let v = registers_after(&[0x6F, 0x03, 0x8F, 0xF6], 2);
    assert_eq!(v[0xF], 0);
    // VF = 0x80, shift VF left: VF takes the high bit 1, which is then shifted
    let v = registers_after(&[0x6F, 0x80, 0x8F, 0xFE], 2);
    assert_eq!(v[0xF], 2);
    // VF = 3, VF -= VF: no borrow
    let v = registers_after(&[0x6F, 0x03, 0x8F, 0xF5], 2);
    assert_eq!(v[0xF], 1);
}

#[test]
fn skips() {
    // V0 = 3; 3003 skips the next instruction; 6101 is skipped; 6202 runs
    let v = registers_after(&[0x60, 0x03, 0x30, 0x03, 0x61, 0x01, 0x62, 0x02], 3);
    assert_eq!(v[1], 0);
    assert_eq!(v[2], 2);
    // 4003 does not skip when V0 == 3
    let v = registers_after(&[0x60, 0x03, 0x40, 0x03, 0x61, 0x01], 3);
    assert_eq!(v[1], 1);
    // 5010 skips when V0 == V1; 9010 skips when they differ
    let v = registers_after(&[0x60, 0x03, 0x61, 0x03, 0x50, 0x10, 0x62, 0x01, 0x63, 0x01], 4);
    assert_eq!(v[2], 0);
    assert_eq!(v[3], 1);
    let v = registers_after(&[0x60, 0x03, 0x61, 0x04, 0x90, 0x10, 0x62, 0x01, 0x63, 0x01], 4);
    assert_eq!(v[2], 0);
    assert_eq!(v[3], 1);
}

#[test]
fn jump_and_jump_with_offset() {
    // 1206: jump over 6101 to 6202
    let v = registers_after(&[0x12, 0x06, 0x61, 0x01, 0x00, 0x00, 0x62, 0x02, 0x12, 0x0C, 0x00, 0x00], 3);
    assert_eq!(v[1], 0);
    assert_eq!(v[2], 2);
    // V0 = 4; B202 jumps to 0x206
    let v = registers_after(&[0x60, 0x04, 0xB2, 0x02, 0x61, 0x01, 0x62, 0x02], 3);
    assert_eq!(v[1], 0);
    assert_eq!(v[2], 2);
}

#[test]
fn call_then_return() {
    // 0x200: 2206 call; 0x202: 6101; 0x204: 1208 (skip sub); 0x206: 00EE
    // 0x208: A300 FF55
    let program = [0x22, 0x06, 0x61, 0x01, 0x12, 0x08, 0x00, 0xEE, 0xA3, 0x00, 0xFF, 0x55];
    let (_, memory, _) = run(&program, 6);
    assert_eq!(memory.data[0x301], 1);
}

#[test]
fn random_byte_is_masked() {
    // C00F: V0 = random & 0x0F; C100: V1 = random & 0
    for _ in 0..20 {
        let v = registers_after(&[0xC0, 0x0F, 0xC1, 0x00], 2);
        assert_eq!(v[0] & 0xF0, 0);
        assert_eq!(v[1], 0);
    }
}

#[test]
fn timers() {
    // V0 = 3; DT = V0; ST = V0; V1 = DT
    let mut cpu = Cpu::new();
    let mut memory = Memory::new();
    let mut display = Display::new();
    let keypad = Keypad::new();
    memory.write_bytes(0x200, &[0x60, 0x03, 0xF0, 0x15, 0xF0, 0x18, 0xF1, 0x07, 0xA3, 0x00, 0xF1, 0x55]);
    for _ in 0..3 {
        cpu.cycle(&mut memory, &mut display, &keypad);
    }
    for _ in 0..5 {
        cpu.decrement_timers();
    }
    for _ in 0..3 {
        cpu.cycle(&mut memory, &mut display, &keypad);
    }
    // the delay timer stopped at zero
    assert_eq!(memory.data[0x301], 0);
}

#[test]
fn timers_count_down_one_per_tick() {
    let mut cpu = Cpu::new();
    let mut memory = Memory::new();
    let mut display = Display::new();
    let keypad = Keypad::new();
    memory.write_bytes(0x200, &[0x60, 0x05, 0xF0, 0x15, 0xF1, 0x07, 0xA3, 0x00, 0xF1, 0x55]);
    for _ in 0..2 {
        cpu.cycle(&mut memory, &mut display, &keypad);
    }
    cpu.decrement_timers();
    cpu.decrement_timers();
    for _ in 0..3 {
        cpu.cycle(&mut memory, &mut display, &keypad);
    }
    assert_eq!(memory.data[0x301], 3);
}

#[test]
fn index_add_and_font_address() {
    // A123; V0 = 2; I += V0; store V0 at I... check via BCD of digit sprite address
    let (_, memory, _) = run(&[0xA1, 0x23, 0x60, 0x02, 0xF0, 0x1E, 0xF0, 0x55], 4);
    assert_eq!(memory.data[0x125], 2);
    // V0 = 0xA; I = sprite of A (50); read 5 bytes into V0..V4
    let v = registers_after(&[0x60, 0x0A, 0xF0, 0x29, 0xF4, 0x65], 3);
    assert_eq!(&v[0..5], &[0xF0, 0x90, 0xF0, 0x90, 0x90]);
}

#[test]
fn bcd() {
    // V0 = 234; I = 0x300; BCD
    let (_, memory, _) = run(&[0x60, 0xEA, 0xA3, 0x00, 0xF0, 0x33], 3);
    assert_eq!(&memory.data[0x300..0x303], &[2, 3, 4]);
    let (_, memory, _) = run(&[0x60, 0x07, 0xA3, 0x00, 0xF0, 0x33], 3);
    assert_eq!(&memory.data[0x300..0x303], &[0, 0, 7]);
}

#[test]
fn store_then_load_registers() {
    // V0..V2 = 1,2,3; I = 0x300; store V0..V2; clear them; load them back
    let program = [
        0x60, 0x01, 0x61, 0x02, 0x62, 0x03, 0xA3, 0x00, 0xF2, 0x55, 0x60, 0x00, 0x61, 0x00, 0x62,
        0x00, 0xF2, 0x65, 0xA3, 0x10, 0xF2, 0x55,
    ];
    let (_, memory, _) = run(&program, 11);
    assert_eq!(&memory.data[0x300..0x303], &[1, 2, 3]);
    assert_eq!(&memory.data[0x310..0x313], &[1, 2, 3]);
    // the index register is left as it was
    assert_eq!(memory.data[0x303], 0);
}

#[test]
fn draw_sets_collision_flag() {
    // I = sprite of 0; V0 = 0; draw 5 rows at (0, 0) twice
    let program = [0xA0, 0x00, 0x60, 0x00, 0xD0, 0x05, 0x6A, 0x00, 0x8A, 0xF0, 0xD0, 0x05];
    let (_, _, display) = run(&program, 5);
    let frame = display.render();
    assert_eq!(frame[0], 0xFFFFFF);
    assert_eq!(frame[4], 0x000000);
    let v = registers_after(&program, 6);
    // the first draw collided with nothing
    assert_eq!(v[0xA], 0);
    // the second one erased the sprite and reports it
    assert_eq!(v[0xF], 1);
    let (_, _, display) = run(&program, 6);
    assert!(display.render().iter().all(|&c| c == 0));
}

#[test]
fn clear_screen() {
    let program = [0xA0, 0x00, 0xD0, 0x05, 0x00, 0xE0];
    let (_, _, display) = run(&program, 3);
    assert!(display.render().iter().all(|&c| c == 0));
}

#[test]
fn key_skips() {
    let mut keypad = Keypad::new();
    keypad.press_key(0xA);
    // V0 = A; E09E skips when key A is down
    let program = [0x60, 0x0A, 0xE0, 0x9E, 0x61, 0x01, 0xE0, 0xA1, 0x62, 0x01, 0xA3, 0x00, 0xF2, 0x55];
    let (_, memory, _) = run_with_keys(&program, 6, &keypad);
    assert_eq!(memory.data[0x301], 0);
    assert_eq!(memory.data[0x302], 1);
}

#[test]
fn wait_for_key() {
    let mut cpu = Cpu::new();
    let mut memory = Memory::new();
    let mut display = Display::new();
    let mut keypad = Keypad::new();
    memory.write_bytes(0x200, &[0xF3, 0x0A, 0xA3, 0x00, 0xF3, 0x55]);
    // without a key the instruction repeats
    for _ in 0..3 {
        cpu.cycle(&mut memory, &mut display, &keypad);
    }
    keypad.press_key(0x7);
    for _ in 0..3 {
        cpu.cycle(&mut memory, &mut display, &keypad);
    }
    assert_eq!(memory.data[0x303], 0x7);
}

#[test]
fn cannot_cycle_on_undefined_opcodes() {
    let keypad = Keypad::new();
    for program in [
        [0x80u8, 0x08],
        [0x90, 0x01],
        [0xE0, 0x00],
        [0xF0, 0x00],
        [0x00, 0xEE],
    ] {
        let cpu = Cpu::new();
        let mut memory = Memory::new();
        memory.write_bytes(0x200, &program);
        assert!(!cpu.can_cycle(&memory, &keypad));
    }
}

#[test]
fn cannot_cycle_on_out_of_range_operands() {
    let keypad = Keypad::new();
    // font of digit 0x10
    let (cpu, memory, _) = run(&[0x60, 0x10, 0xF0, 0x29], 1);
    assert!(!cpu.can_cycle(&memory, &keypad));
    // key 0x10
    let (cpu, memory, _) = run(&[0x60, 0x10, 0xE0, 0x9E], 1);
    assert!(!cpu.can_cycle(&memory, &keypad));
    // BCD past the end of memory
    let (cpu, memory, _) = run(&[0xAF, 0xFE, 0xF0, 0x33], 1);
    assert!(!cpu.can_cycle(&memory, &keypad));
    // sprite past the end of memory
    let (cpu, memory, _) = run(&[0xAF, 0xFE, 0xD0, 0x05], 1);
    assert!(!cpu.can_cycle(&memory, &keypad));
    // a sprite at column 130
    let (cpu, memory, _) = run(&[0x60, 0x82, 0xA0, 0x00, 0xD0, 0x15], 2);
    assert!(!cpu.can_cycle(&memory, &keypad));
    // the same sprite below the display is fine
    let (cpu, memory, _) = run(&[0x60, 0x82, 0x61, 0x40, 0xA0, 0x00, 0xD0, 0x15], 3);
    assert!(cpu.can_cycle(&memory, &keypad));
}

#[test]
fn stack_holds_sixteen_calls() {
    // 0x200: 2200 calls itself
    let (cpu, memory, _) = run(&[0x22, 0x00], 16);
    assert!(!cpu.can_cycle(&memory, &Keypad::new()));
}

#[test]
fn cannot_fetch_past_memory() {
    let (cpu, memory, _) = run(&[0x1F, 0xFF], 1);
    assert!(!cpu.can_cycle(&memory, &Keypad::new()));
    let (cpu, memory, _) = run(&[0x1F, 0xFE], 1);
    assert!(cpu.can_cycle(&memory, &Keypad::new()));
}

#[test]
fn sys_instruction_is_ignored() {
    // V0 = 9; 0123 does nothing; I = 0x300 and store
    let v = registers_after(&[0x60, 0x09, 0x01, 0x23], 2);
    assert_eq!(v[0], 9);
    assert!(v[1..].iter().all(|&r| r == 0));
}

#[test]
fn add_immediate_leaves_flag() {
    // VF = 7; V1 = 1; V1 += 0xFF wraps without touching VF
    let v = registers_after(&[0x6F, 0x07, 0x61, 0x01, 0x71, 0xFF], 3);
    assert_eq!(v[1], 0);
    assert_eq!(v[0xF], 7);
}
