use chip8::Chip8;
use chip8::Chip8Error;

#[test]
fn tick_fetches_decodes_and_advances() {
    let mut c = Chip8::new();
    let rom: Vec<u8> = vec![0x60, 0x2A];
    assert_eq!(c.load(&rom), Ok(()));
    assert_eq!(c.tick(), Ok(()));
    assert_eq!(c.registers[0], 0x2A);
    assert_eq!(c.program_counter, 0x202);
}

#[test]
fn skip_equal_immediate_advances_four_on_match() {
    let mut c = Chip8::new();
    let rom: Vec<u8> = vec![0x60, 0x05, 0x30, 0x05];
    assert_eq!(c.load(&rom), Ok(()));
    assert_eq!(c.tick(), Ok(()));
    assert_eq!(c.program_counter, 0x202);
    assert_eq!(c.tick(), Ok(()));
    // 2 for the fetch plus 2 for the taken skip
    assert_eq!(c.program_counter, 0x206);
}

#[test]
fn skip_equal_immediate_advances_two_on_mismatch() {
    let mut c = Chip8::new();
    let rom: Vec<u8> = vec![0x60, 0x05, 0x30, 0x06];
    assert_eq!(c.load(&rom), Ok(()));
    assert_eq!(c.tick(), Ok(()));
    assert_eq!(c.tick(), Ok(()));
    assert_eq!(c.program_counter, 0x204);
}

#[test]
fn skip_not_equal_immediate_advances() {
    let mut c = Chip8::new();
    let rom: Vec<u8> = vec![0x40, 0x06, 0x00, 0x00, 0x40, 0x00];
    assert_eq!(c.load(&rom), Ok(()));
    assert_eq!(c.tick(), Ok(()));
    // V0 == 0 != 6: taken, stepping over the word at 0x202
    assert_eq!(c.program_counter, 0x204);
    assert_eq!(c.tick(), Ok(()));
    // V0 == 0: not taken
    assert_eq!(c.program_counter, 0x206);
}

#[test]
fn skip_register_compares_advance() {
    let mut c = Chip8::new();
    // V0 = 5; V1 = 5; skip if V0 == V1 (taken); then 9xy0 at 0x208 with V2 (not taken)
    let rom: Vec<u8> = vec![0x60, 0x05, 0x61, 0x05, 0x50, 0x10, 0x00, 0x00, 0x90, 0x10];
    assert_eq!(c.load(&rom), Ok(()));
    assert_eq!(c.tick(), Ok(()));
    assert_eq!(c.tick(), Ok(()));
    assert_eq!(c.program_counter, 0x204);
    assert_eq!(c.tick(), Ok(()));
    assert_eq!(c.program_counter, 0x208);
    assert_eq!(c.tick(), Ok(()));
    // V0 == V1: 9xy0 not taken
    assert_eq!(c.program_counter, 0x20A);
}

#[test]
fn call_then_return_restores_pc_for_each_depth() {
    let mut c = Chip8::new();
    // one call at 0x200 to 0x300, a return there
    let mut rom: Vec<u8> = vec![0x23, 0x00];
    while rom.len() < 0x100 {
        rom.push(0);
    }
    rom.push(0x00);
    rom.push(0xEE);
    assert_eq!(c.load(&rom), Ok(()));
    assert_eq!(c.tick(), Ok(()));
    assert_eq!(c.program_counter, 0x300);
    assert_eq!(c.stack_pointer, 1);
    assert_eq!(c.tick(), Ok(()));
    // back at the instruction immediately after the call
    assert_eq!(c.program_counter, 0x202);
    assert_eq!(c.stack_pointer, 0);
}

#[test]
fn nested_calls_to_depth_16_round_trip() {
    let mut c = Chip8::new();
    for depth in 0..16usize {
        let target: usize = 0x300 + 2 * depth;
        let here = c.program_counter;
        c.op_2nnn(target);
        assert_eq!(c.program_counter, target);
        assert_eq!(c.stack_pointer, depth + 1);
        // the pushed frame holds the caller's address
        assert_eq!(c.stack[depth] as usize, here);
    }
    for depth in (0..16usize).rev() {
        c.op_00EE();
        assert_eq!(c.stack_pointer, depth);
    }
    assert_eq!(c.program_counter, 0x200);
}

#[test]
fn seventeenth_call_is_stack_overflow() {
    let mut c = Chip8::new();
    for _ in 0..16usize {
        c.op_2nnn(0x300);
    }
    // a call instruction at the current program counter
    c.program_counter = 0x300;
    c.memory[0x300] = 0x23;
    c.memory[0x301] = 0x50;
    assert_eq!(c.tick(), Err(Chip8Error::StackOverflow { depth: 16 }));
    // the machine is unchanged by the failed cycle
    assert_eq!(c.program_counter, 0x300);
    assert_eq!(c.stack_pointer, 16);
}

#[test]
fn return_on_empty_stack_is_underflow() {
    let mut c = Chip8::new();
    let rom: Vec<u8> = vec![0x00, 0xEE];
    assert_eq!(c.load(&rom), Ok(()));
    assert_eq!(c.tick(), Err(Chip8Error::StackUnderflow { depth: 0 }));
    assert_eq!(c.program_counter, 0x200);
}

#[test]
fn undefined_opcode_is_reported_with_pc() {
    let mut c = Chip8::new();
    let rom: Vec<u8> = vec![0xFF, 0xFF];
    assert_eq!(c.load(&rom), Ok(()));
    assert_eq!(
        c.tick(),
        Err(Chip8Error::UnknownOpcode { opcode: 0xFFFF, pc: 0x200 })
    );
    assert_eq!(c.program_counter, 0x200);
}

#[test]
fn zero_word_is_an_undefined_opcode() {
    let mut c = Chip8::new();
    assert_eq!(
        c.tick(),
        Err(Chip8Error::UnknownOpcode { opcode: 0, pc: 0x200 })
    );
}

#[test]
fn half_defined_zero_class_is_undefined() {
    let mut c = Chip8::new();
    let rom: Vec<u8> = vec![0x00, 0xE1, 0x51, 0x21];
    assert_eq!(c.load(&rom), Ok(()));
    assert_eq!(
        c.tick(),
        Err(Chip8Error::UnknownOpcode { opcode: 0x00E1, pc: 0x200 })
    );
    // a 5xyk word with a nonzero low nibble is undefined too
    c.program_counter = 0x202;
    assert_eq!(
        c.tick(),
        Err(Chip8Error::UnknownOpcode { opcode: 0x5121, pc: 0x202 })
    );
}

#[test]
fn wait_for_key_blocks_until_a_press() {
    let mut c = Chip8::new();
    let rom: Vec<u8> = vec![0xF5, 0x0A, 0x61, 0x07];
    assert_eq!(c.load(&rom), Ok(()));
    assert_eq!(c.tick(), Ok(()));
    assert!(c.waiting_for_keypress);
    assert_eq!(c.program_counter, 0x202);
    // polling cycles fetch nothing
    assert_eq!(c.tick(), Ok(()));
    assert_eq!(c.tick(), Ok(()));
    assert!(c.waiting_for_keypress);
    assert_eq!(c.program_counter, 0x202);
    assert_eq!(c.registers[1], 0);
    // the lowest pressed key index lands in the target register
    c.set_key(7, true);
    c.set_key(3, true);
    assert_eq!(c.tick(), Ok(()));
    assert!(!c.waiting_for_keypress);
    assert_eq!(c.registers[5], 3);
    assert_eq!(c.program_counter, 0x202);
    // the next cycle fetches again
    assert_eq!(c.tick(), Ok(()));
    assert_eq!(c.registers[1], 7);
}

#[test]
fn random_cycle_masks_the_drawn_byte() {
    let mut c = Chip8::new();
    let rom: Vec<u8> = vec![0x60, 0xAA, 0xC0, 0x00];
    assert_eq!(c.load(&rom), Ok(()));
    assert_eq!(c.tick(), Ok(()));
    assert_eq!(c.registers[0], 0xAA);
    assert_eq!(c.tick(), Ok(()));
    // a zero mask forces a zero result whatever byte was drawn
    assert_eq!(c.registers[0], 0);
    assert_eq!(c.program_counter, 0x204);
}

#[test]
fn draw_through_the_cycle_sets_flag_on_collision() {
    let mut c = Chip8::new();
    let rom: Vec<u8> = vec![0xA3, 0x00, 0xD0, 0x11, 0xD0, 0x11];
    let mut padded = rom.clone();
    while padded.len() < 0x100 {
        padded.push(0);
    }
    padded.push(0x80);
    assert_eq!(c.load(&padded), Ok(()));
    assert_eq!(c.tick(), Ok(()));
    assert_eq!(c.i, 0x300);
    assert_eq!(c.tick(), Ok(()));
    assert!(c.pixel(0, 0));
    assert_eq!(c.registers[15], 0);
    assert_eq!(c.tick(), Ok(()));
    assert!(!c.pixel(0, 0));
    assert_eq!(c.registers[15], 1);
}

#[test]
fn jump_through_the_cycle() {
    let mut c = Chip8::new();
    let rom: Vec<u8> = vec![0x12, 0x08];
    assert_eq!(c.load(&rom), Ok(()));
    assert_eq!(c.tick(), Ok(()));
    assert_eq!(c.program_counter, 0x208);
}
