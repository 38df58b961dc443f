use chip8::Chip8;

#[test]
fn add_with_carry_boundaries() {
    let mut c = Chip8::new();
    // 255 + 1 overflows: result wraps to 0, flag 1
    c.op_6xkk(0, 255);
    c.op_6xkk(1, 1);
    c.op_8xy4(0, 1);
    assert_eq!(c.registers[0], 0);
    assert_eq!(c.registers[15], 1);
    // 255 + 0 does not: flag 0
    c.op_6xkk(2, 255);
    c.op_6xkk(3, 0);
    c.op_8xy4(2, 3);
    assert_eq!(c.registers[2], 255);
    assert_eq!(c.registers[15], 0);
    // 128 + 128 overflows to 0
    c.op_6xkk(4, 128);
    c.op_6xkk(5, 128);
    c.op_8xy4(4, 5);
    assert_eq!(c.registers[4], 0);
    assert_eq!(c.registers[15], 1);
    // 127 + 128 = 255 exactly: flag 0
    c.op_6xkk(6, 127);
    c.op_6xkk(7, 128);
    c.op_8xy4(6, 7);
    assert_eq!(c.registers[6], 255);
    assert_eq!(c.registers[15], 0);
}

#[test]
fn sub_borrow_boundaries() {
    let mut c = Chip8::new();
    // equal operands: no borrow, flag 1, result 0
    c.op_6xkk(0, 5);
    c.op_6xkk(1, 5);
    c.op_8xy5(0, 1);
    assert_eq!(c.registers[0], 0);
    assert_eq!(c.registers[15], 1);
    // 0 - 1 borrows: wraps to 255, flag 0
    c.op_6xkk(2, 0);
    c.op_6xkk(3, 1);
    c.op_8xy5(2, 3);
    assert_eq!(c.registers[2], 255);
    assert_eq!(c.registers[15], 0);
    // 255 - 0: flag 1
    c.op_6xkk(4, 255);
    c.op_6xkk(5, 0);
    c.op_8xy5(4, 5);
    assert_eq!(c.registers[4], 255);
    assert_eq!(c.registers[15], 1);
}

#[test]
fn sub_from_borrow_boundaries() {
    let mut c = Chip8::new();
    // Vx = Vy - Vx; equal operands: flag 1, result 0
    c.op_6xkk(0, 9);
    c.op_6xkk(1, 9);
    c.op_8xy7(0, 1);
    assert_eq!(c.registers[0], 0);
    assert_eq!(c.registers[15], 1);
    // Vy < Vx borrows: 1 - 2 wraps to 255, flag 0
    c.op_6xkk(2, 2);
    c.op_6xkk(3, 1);
    c.op_8xy7(2, 3);
    assert_eq!(c.registers[2], 255);
    assert_eq!(c.registers[15], 0);
    // Vy > Vx: 7 - 3 = 4, flag 1
    c.op_6xkk(4, 3);
    c.op_6xkk(5, 7);
    c.op_8xy7(4, 5);
    assert_eq!(c.registers[4], 4);
    assert_eq!(c.registers[15], 1);
}

#[test]
fn shift_right_flag_is_low_bit() {
    let mut c = Chip8::new();
    c.op_6xkk(0, 3);
    c.op_8xy6(0);
    assert_eq!(c.registers[0], 1);
    assert_eq!(c.registers[15], 1);
    c.op_6xkk(1, 2);
    c.op_8xy6(1);
    assert_eq!(c.registers[1], 1);
    assert_eq!(c.registers[15], 0);
    c.op_6xkk(2, 255);
    c.op_8xy6(2);
    assert_eq!(c.registers[2], 127);
    assert_eq!(c.registers[15], 1);
}

#[test]
fn shift_left_flag_is_high_bit() {
    let mut c = Chip8::new();
    c.op_6xkk(0, 0x80);
    c.op_8xye(0);
    assert_eq!(c.registers[0], 0);
    assert_eq!(c.registers[15], 1);
    c.op_6xkk(1, 0x7F);
    c.op_8xye(1);
    assert_eq!(c.registers[1], 0xFE);
    assert_eq!(c.registers[15], 0);
    c.op_6xkk(2, 0xFF);
    c.op_8xye(2);
    assert_eq!(c.registers[2], 0xFE);
    assert_eq!(c.registers[15], 1);
}

#[test]
fn add_immediate_wraps_without_flag() {
    let mut c = Chip8::new();
    c.op_6xkk(15, 9);
    c.op_6xkk(0, 250);
    c.op_7xkk(0, 10);
    assert_eq!(c.registers[0], 4);
    // the flag register is not an output of this opcode
    assert_eq!(c.registers[15], 9);
}

#[test]
fn bitwise_and_move_opcodes() {
    let mut c = Chip8::new();
    c.op_6xkk(0, 0b1100);
    c.op_6xkk(1, 0b1010);
    c.op_8xy1(0, 1);
    assert_eq!(c.registers[0], 0b1110);
    c.op_6xkk(2, 0b1100);
    c.op_8xy2(2, 1);
    assert_eq!(c.registers[2], 0b1000);
    c.op_6xkk(3, 0b1100);
    c.op_8xy3(3, 1);
    assert_eq!(c.registers[3], 0b0110);
    c.op_8xy0(4, 0);
    assert_eq!(c.registers[4], 0b1110);
}

#[test]
fn bcd_of_255_0_and_9() {
    let mut c = Chip8::new();
    c.op_annn(0x300);
    c.op_6xkk(0, 255);
    c.op_fx33(0);
    assert_eq!(c.memory[0x300], 2);
    assert_eq!(c.memory[0x301], 5);
    assert_eq!(c.memory[0x302], 5);
    assert_eq!(c.i, 0x300);
    c.op_6xkk(1, 0);
    c.op_fx33(1);
    assert_eq!(c.memory[0x300], 0);
    assert_eq!(c.memory[0x301], 0);
    assert_eq!(c.memory[0x302], 0);
    c.op_6xkk(2, 9);
    c.op_fx33(2);
    assert_eq!(c.memory[0x300], 0);
    assert_eq!(c.memory[0x301], 0);
    assert_eq!(c.memory[0x302], 9);
}

#[test]
fn register_block_store_load_round_trips() {
    let mut c = Chip8::new();
    c.op_6xkk(0, 10);
    c.op_6xkk(1, 20);
    c.op_6xkk(2, 30);
    c.op_6xkk(3, 40);
    c.op_6xkk(4, 99);
    c.op_annn(0x300);
    c.op_fx55(3);
    assert_eq!(c.memory[0x300], 10);
    assert_eq!(c.memory[0x303], 40);
    assert_eq!(c.memory[0x304], 0);
    // zero the register file and mutate memory elsewhere in between
    for k in 0..16u8 {
        c.op_6xkk(k, 0);
    }
    c.memory[0x350] = 123;
    c.op_fx65(3);
    assert_eq!(c.registers[0], 10);
    assert_eq!(c.registers[1], 20);
    assert_eq!(c.registers[2], 30);
    assert_eq!(c.registers[3], 40);
    // registers above x keep the in-between values
    assert_eq!(c.registers[4], 0);
    assert_eq!(c.i, 0x300);
}

#[test]
fn font_address_uses_low_nibble() {
    let mut c = Chip8::new();
    c.op_6xkk(0, 0x2A);
    c.op_fx29(0);
    // glyph A lives at offset 5 * 10
    assert_eq!(c.i, 50);
    c.op_6xkk(1, 0x03);
    c.op_fx29(1);
    assert_eq!(c.i, 15);
}

#[test]
fn add_index_wraps_in_address_space() {
    let mut c = Chip8::new();
    c.op_annn(4090);
    c.op_6xkk(0, 10);
    c.op_fx1e(0);
    assert_eq!(c.i, 4);
}

#[test]
fn jump_and_jump_offset() {
    let mut c = Chip8::new();
    c.op_1nnn(0x400);
    assert_eq!(c.program_counter, 0x400);
    c.op_6xkk(0, 0x10);
    c.op_bnnn(0xFF8);
    assert_eq!(c.program_counter, 0x008);
}

#[test]
fn random_result_is_masked() {
    let mut c = Chip8::new();
    c.op_6xkk(0, 77);
    c.op_cxkk(0, 0);
    // ANDed with a zero mask, every drawn byte stores zero
    assert_eq!(c.registers[0], 0);
    c.op_cxkk(1, 0x0F);
    assert_eq!(c.registers[1] & 0xF0, 0);
}

#[test]
fn skip_opcodes_move_pc_only_on_match() {
    let mut c = Chip8::new();
    c.op_6xkk(0, 5);
    c.op_6xkk(1, 5);
    c.op_6xkk(2, 6);
    let base = c.program_counter;
    c.op_3xkk(0, 5);
    assert_eq!(c.program_counter, base + 2);
    c.op_3xkk(0, 6);
    assert_eq!(c.program_counter, base + 2);
    c.op_4xkk(0, 6);
    assert_eq!(c.program_counter, base + 4);
    c.op_4xkk(0, 5);
    assert_eq!(c.program_counter, base + 4);
    c.op_5xy0(0, 1);
    assert_eq!(c.program_counter, base + 6);
    c.op_5xy0(0, 2);
    assert_eq!(c.program_counter, base + 6);
    c.op_9xy0(0, 2);
    assert_eq!(c.program_counter, base + 8);
    c.op_9xy0(0, 1);
    assert_eq!(c.program_counter, base + 8);
}

#[test]
fn keypad_skips_validate_key_index() {
    let mut c = Chip8::new();
    c.set_key(7, true);
    c.op_6xkk(0, 7);
    let base = c.program_counter;
    c.op_ex9e(0);
    assert_eq!(c.program_counter, base + 2);
    c.op_exa1(0);
    assert_eq!(c.program_counter, base + 2);
    // a register value past the sixteen keys counts as not pressed
    c.op_6xkk(1, 200);
    c.op_ex9e(1);
    assert_eq!(c.program_counter, base + 2);
    c.op_exa1(1);
    assert_eq!(c.program_counter, base + 4);
}
