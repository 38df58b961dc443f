use chip8::Chip8;
use chip8::Chip8Error;

#[test]
fn new_machine_initial_state() {
    let c = Chip8::new();
    assert_eq!(c.program_counter, 0x200);
    assert_eq!(c.stack_pointer, 0);
    assert_eq!(c.i, 0);
    assert_eq!(c.delay_timer, 0);
    assert_eq!(c.sound_timer, 0);
    assert!(!c.waiting_for_keypress);
    assert_eq!(c.memory.len(), 4096);
    assert_eq!(c.registers.len(), 16);
    assert_eq!(c.display.len(), 2048);
    assert_eq!(c.stack.len(), 16);
    assert_eq!(c.keypad.len(), 16);
    for k in 0..16usize {
        assert_eq!(c.registers[k], 0);
        assert_eq!(c.stack[k], 0);
        assert!(!c.keypad[k]);
    }
    for p in 0..2048usize {
        assert_eq!(c.display[p], 0);
    }
}

#[test]
fn new_machine_has_font() {
    let c = Chip8::new();
    // glyph 0 starts with 0xF0 and glyph F ends with 0x80
    assert_eq!(c.memory[0], 0xF0);
    assert_eq!(c.memory[1], 0x90);
    assert_eq!(c.memory[4], 0xF0);
    // glyph 1
    assert_eq!(c.memory[5], 0x20);
    assert_eq!(c.memory[9], 0x70);
    assert_eq!(c.memory[79], 0x80);
    // everything above the font is zero
    for a in 80..4096usize {
        assert_eq!(c.memory[a], 0);
    }
}

#[test]
fn load_places_bytes_at_0x200() {
    let mut c = Chip8::new();
    let rom: Vec<u8> = vec![1, 2, 3];
    assert_eq!(c.load(&rom), Ok(()));
    assert_eq!(c.memory[0x200], 1);
    assert_eq!(c.memory[0x201], 2);
    assert_eq!(c.memory[0x202], 3);
    assert_eq!(c.memory[0x203], 0);
    assert_eq!(c.memory[0x1FF], 0);
    assert_eq!(c.program_counter, 0x200);
}

#[test]
fn load_largest_image_fits() {
    let mut c = Chip8::new();
    let rom: Vec<u8> = vec![7; 3584];
    assert_eq!(c.load(&rom), Ok(()));
    assert_eq!(c.memory[0x200], 7);
    assert_eq!(c.memory[4095], 7);
}

#[test]
fn load_too_large_is_rejected_whole() {
    let mut c = Chip8::new();
    let rom: Vec<u8> = vec![7; 3585];
    assert_eq!(c.load(&rom), Err(Chip8Error::RomTooLarge { len: 3585 }));
    // nothing was written
    assert_eq!(c.memory[0x200], 0);
    assert_eq!(c.memory[4095], 0);
}

#[test]
fn set_key_tracks_pressed_state() {
    let mut c = Chip8::new();
    c.set_key(3, true);
    assert!(c.keypad[3]);
    c.set_key(3, false);
    assert!(!c.keypad[3]);
}

#[test]
fn set_key_out_of_range_is_ignored() {
    let mut c = Chip8::new();
    c.set_key(16, true);
    c.set_key(200, true);
    for k in 0..16usize {
        assert!(!c.keypad[k]);
    }
}

#[test]
fn timers_decrement_to_zero_floor() {
    let mut c = Chip8::new();
    c.op_6xkk(0, 2);
    c.op_fx15(0);
    c.op_6xkk(1, 1);
    c.op_fx18(1);
    assert_eq!(c.delay_timer, 2);
    assert_eq!(c.sound_timer, 1);
    assert!(c.sound_active());
    c.timer_tick();
    assert_eq!(c.delay_timer, 1);
    assert_eq!(c.sound_timer, 0);
    assert!(!c.sound_active());
    c.timer_tick();
    assert_eq!(c.delay_timer, 0);
    c.timer_tick();
    assert_eq!(c.delay_timer, 0);
    assert_eq!(c.sound_timer, 0);
}

#[test]
fn read_delay_into_register() {
    let mut c = Chip8::new();
    c.op_6xkk(2, 77);
    c.op_fx15(2);
    c.op_fx07(9);
    assert_eq!(c.registers[9], 77);
}

#[test]
fn instruction_cycle_leaves_timers_alone() {
    let mut c = Chip8::new();
    c.op_6xkk(0, 5);
    c.op_fx15(0);
    c.op_fx18(0);
    let rom: Vec<u8> = vec![0x61, 0x2A];
    assert_eq!(c.load(&rom), Ok(()));
    assert_eq!(c.tick(), Ok(()));
    assert_eq!(c.delay_timer, 5);
    assert_eq!(c.sound_timer, 5);
}
