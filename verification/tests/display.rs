use chip8::Chip8;

#[test]
fn clear_display_turns_every_cell_off() {
    let mut c = Chip8::new();
    c.memory[0x300] = 0xFF;
    c.op_annn(0x300);
    c.op_6xkk(0, 0);
    c.op_6xkk(1, 0);
    c.op_dxyn(1, 0, 1);
    assert!(c.pixel(0, 0));
    c.op_00E0();
    for y in 0..32usize {
        for x in 0..64usize {
            assert!(!c.pixel(x, y));
        }
    }
}

#[test]
fn draw_sets_pixels_msb_leftmost() {
    let mut c = Chip8::new();
    c.memory[0x300] = 0b1010_0001;
    c.op_annn(0x300);
    c.op_6xkk(0, 4);
    c.op_6xkk(1, 2);
    c.op_dxyn(1, 0, 1);
    assert!(c.pixel(4, 2));
    assert!(!c.pixel(5, 2));
    assert!(c.pixel(6, 2));
    assert!(!c.pixel(7, 2));
    assert!(c.pixel(11, 2));
    assert_eq!(c.registers[15], 0);
}

#[test]
fn draw_twice_restores_and_reports_collision() {
    let mut c = Chip8::new();
    c.memory[0x300] = 0x3C;
    c.memory[0x301] = 0xC3;
    c.op_annn(0x300);
    c.op_6xkk(0, 10);
    c.op_6xkk(1, 5);
    c.op_dxyn(2, 0, 1);
    assert_eq!(c.registers[15], 0);
    assert!(c.pixel(12, 5));
    assert!(c.pixel(10, 6));
    // the identical draw toggles everything back off and collides
    c.op_dxyn(2, 0, 1);
    assert_eq!(c.registers[15], 1);
    for y in 0..32usize {
        for x in 0..64usize {
            assert!(!c.pixel(x, y));
        }
    }
}

#[test]
fn draw_wraps_horizontally_at_origin_63() {
    let mut c = Chip8::new();
    c.memory[0x300] = 0xFF;
    c.op_annn(0x300);
    c.op_6xkk(0, 63);
    c.op_6xkk(1, 31);
    c.op_dxyn(1, 0, 1);
    // pixel 0 of the row lands at column 63, pixel 7 at column 6
    assert!(c.pixel(63, 31));
    assert!(c.pixel(0, 31));
    assert!(c.pixel(6, 31));
    assert!(!c.pixel(7, 31));
    assert!(!c.pixel(62, 31));
}

#[test]
fn draw_wraps_vertically_at_row_31() {
    let mut c = Chip8::new();
    c.memory[0x300] = 0x80;
    c.memory[0x301] = 0x80;
    c.op_annn(0x300);
    c.op_6xkk(0, 0);
    c.op_6xkk(1, 31);
    c.op_dxyn(2, 0, 1);
    // the second sprite row wraps back to row 0
    assert!(c.pixel(0, 31));
    assert!(c.pixel(0, 0));
    assert!(!c.pixel(0, 1));
}

#[test]
fn draw_origin_is_taken_modulo_display_size() {
    let mut c = Chip8::new();
    c.memory[0x300] = 0x80;
    c.op_annn(0x300);
    c.op_6xkk(0, 64);
    c.op_6xkk(1, 32);
    c.op_dxyn(1, 0, 1);
    assert!(c.pixel(0, 0));
}

#[test]
fn partial_overlap_collides_and_toggles() {
    let mut c = Chip8::new();
    c.memory[0x300] = 0x80;
    c.memory[0x301] = 0xC0;
    c.op_annn(0x300);
    c.op_6xkk(0, 0);
    c.op_6xkk(1, 0);
    c.op_dxyn(1, 0, 1);
    assert!(c.pixel(0, 0));
    assert_eq!(c.registers[15], 0);
    // drawing 0xC0 over 0x80: the shared pixel toggles off, the new one on
    c.op_annn(0x301);
    c.op_dxyn(1, 0, 1);
    assert_eq!(c.registers[15], 1);
    assert!(!c.pixel(0, 0));
    assert!(c.pixel(1, 0));
}

#[test]
fn draw_reads_rows_from_index_register() {
    let mut c = Chip8::new();
    // glyph 0 from the built-in font at offset 0
    c.op_6xkk(0, 0);
    c.op_fx29(0);
    assert_eq!(c.i, 0);
    c.op_6xkk(1, 0);
    c.op_6xkk(2, 0);
    c.op_dxyn(5, 1, 2);
    // top row of glyph 0 is 0xF0
    assert!(c.pixel(0, 0));
    assert!(c.pixel(3, 0));
    assert!(!c.pixel(4, 0));
    // middle rows are 0x90
    assert!(c.pixel(0, 2));
    assert!(!c.pixel(1, 2));
    assert!(!c.pixel(2, 2));
    assert!(c.pixel(3, 2));
}
