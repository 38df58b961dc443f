//! Mathematical model of the machine: an abstract state, the decoded
//! instruction set, and a total step function that the executable
//! interpreter is proved against.
//!
//! Addressing policy: the machine has a 12-bit address space. Every memory
//! access and every assignment to the program counter or the index register
//! wraps modulo 4096, so both stay below 4096 at all times.
use vstd::prelude::*;

verus! {

/// Errors the core reports. All of them are fatal to the running program:
/// the only recovery is restarting from a freshly constructed machine.
#[derive(Clone, Copy, PartialEq, Eq, Structural, Debug)]
pub enum Chip8Error {
    /// The fetched word matches no defined encoding. Reports the raw opcode
    /// and the address it was fetched from.
    UnknownOpcode { opcode: u16, pc: usize },
    /// A subroutine call found all sixteen stack frames in use.
    StackOverflow { depth: usize },
    /// A subroutine return found the stack empty.
    StackUnderflow { depth: usize },
    /// A program image does not fit in memory above the load address.
    RomTooLarge { len: usize },
}

/// Abstract view of the whole machine state.
pub ghost struct MachineView {
    pub memory: Seq<u8>,
    pub registers: Seq<u8>,
    pub display: Seq<u8>,
    pub i: usize,
    pub pc: usize,
    pub sp: usize,
    pub stack: Seq<u16>,
    pub keypad: Seq<bool>,
    pub waiting: bool,
    pub wait_reg: u8,
    pub delay: u8,
    pub sound: u8,
}

impl MachineView {
    /// Shape invariant: fixed sizes, 12-bit addresses, a stack pointer within
    /// its sixteen frames, a register index as wait target, and a display
    /// holding only one-bit cells.
    pub open spec fn wf(self) -> bool {
        &&& self.memory.len() == 4096
        &&& self.registers.len() == 16
        &&& self.display.len() == 2048
        &&& self.stack.len() == 16
        &&& self.keypad.len() == 16
        &&& self.i < 4096
        &&& self.pc < 4096
        &&& self.sp <= 16
        &&& self.wait_reg < 16
        &&& forall|p: int| 0 <= p < 2048 ==> #[trigger] self.display[p] == 0 || self.display[p] == 1
        &&& forall|k: int| 0 <= k < 16 ==> #[trigger] self.stack[k] < 4096
    }

    /// Value of general register `x`.
    pub open spec fn reg(self, x: u8) -> u8 {
        self.registers[x as int]
    }

    /// State with register `x` set to `v`.
    pub open spec fn set_reg(self, x: u8, v: u8) -> MachineView {
        MachineView { registers: self.registers.update(x as int, v), ..self }
    }

    /// State with the program counter advanced past one instruction,
    /// wrapping at the end of the address space.
    pub open spec fn advance_pc(self) -> MachineView {
        MachineView { pc: ((self.pc + 2) % 4096) as usize, ..self }
    }
}

/// A decoded instruction. Operands: `nnn` is a 12-bit address, `x` and `y`
/// are register indices below 16, `kk` an 8-bit immediate, `n` a 4-bit count.
#[derive(Clone, Copy, PartialEq, Eq, Structural, Debug)]
pub enum Instr {
    /// 00E0: clear the display.
    Cls,
    /// 00EE: return from a subroutine.
    Ret,
    /// 1nnn: jump to address nnn.
    Jump { nnn: usize },
    /// 2nnn: call the subroutine at nnn.
    Call { nnn: usize },
    /// 3xkk: skip the next instruction if Vx == kk.
    SkipEqImm { x: u8, kk: u8 },
    /// 4xkk: skip the next instruction if Vx != kk.
    SkipNeImm { x: u8, kk: u8 },
    /// 5xy0: skip the next instruction if Vx == Vy.
    SkipEqReg { x: u8, y: u8 },
    /// 6xkk: load kk into Vx.
    LoadImm { x: u8, kk: u8 },
    /// 7xkk: add kk to Vx, wrapping, without touching the flag.
    AddImm { x: u8, kk: u8 },
    /// 8xy0: copy Vy into Vx.
    Move { x: u8, y: u8 },
    /// 8xy1: Vx |= Vy.
    Or { x: u8, y: u8 },
    /// 8xy2: Vx &= Vy.
    And { x: u8, y: u8 },
    /// 8xy3: Vx ^= Vy.
    Xor { x: u8, y: u8 },
    /// 8xy4: Vx += Vy with carry into the flag.
    AddReg { x: u8, y: u8 },
    /// 8xy5: Vx -= Vy; flag is 1 exactly when no borrow occurs (Vx >= Vy).
    SubReg { x: u8, y: u8 },
    /// 8xy6: shift Vx right by one; flag takes the bit shifted out.
    ShiftRight { x: u8 },
    /// 8xy7: Vx = Vy - Vx; flag is 1 exactly when no borrow occurs (Vy >= Vx).
    SubFrom { x: u8, y: u8 },
    /// 8xyE: shift Vx left by one; flag takes the bit shifted out.
    ShiftLeft { x: u8 },
    /// 9xy0: skip the next instruction if Vx != Vy.
    SkipNeReg { x: u8, y: u8 },
    /// Annn: load nnn into the index register.
    LoadIndex { nnn: usize },
    /// Bnnn: jump to nnn plus V0.
    JumpOffset { nnn: usize },
    /// Cxkk: store a random byte ANDed with kk into Vx.
    Random { x: u8, kk: u8 },
    /// Dxyn: draw an n-row sprite from memory at I at (Vx, Vy).
    Draw { x: u8, y: u8, n: usize },
    /// Ex9E: skip the next instruction if the key numbered Vx is pressed.
    SkipKey { x: u8 },
    /// ExA1: skip the next instruction if the key numbered Vx is not pressed.
    SkipNoKey { x: u8 },
    /// Fx07: copy the delay timer into Vx.
    ReadDelay { x: u8 },
    /// Fx0A: wait for a key press and store its index into Vx.
    WaitKey { x: u8 },
    /// Fx15: set the delay timer from Vx.
    SetDelay { x: u8 },
    /// Fx18: set the sound timer from Vx.
    SetSound { x: u8 },
    /// Fx1E: add Vx to the index register, wrapping in the address space.
    AddIndex { x: u8 },
    /// Fx29: point the index register at the font glyph for Vx's low nibble.
    FontAddr { x: u8 },
    /// Fx33: write the decimal digits of Vx to memory at I, I+1, I+2.
    StoreBcd { x: u8 },
    /// Fx55: copy registers V0..=Vx into memory starting at I.
    StoreRegs { x: u8 },
    /// Fx65: load registers V0..=Vx from memory starting at I.
    LoadRegs { x: u8 },
}

/// Decode one 16-bit opcode. The mapping is closed: every word outside the
/// defined encodings decodes to `None`, which the cycle reports as a fatal
/// unrecognized-opcode error.
pub open spec fn spec_decode(op: u16) -> Option<Instr> {
    let nnn = (op & 0x0FFF) as usize;
    let n = (op & 0x000F) as usize;
    let x = ((op & 0x0F00) >> 8u16) as u8;
    let y = ((op & 0x00F0) >> 4u16) as u8;
    let kk = (op & 0x00FF) as u8;
    if op == 0x00E0 {
        Some(Instr::Cls)
    } else if op == 0x00EE {
        Some(Instr::Ret)
    } else {
        match op & 0xF000 {
            0x1000 => Some(Instr::Jump { nnn }),
            0x2000 => Some(Instr::Call { nnn }),
            0x3000 => Some(Instr::SkipEqImm { x, kk }),
            0x4000 => Some(Instr::SkipNeImm { x, kk }),
            0x5000 => if n == 0 {
                Some(Instr::SkipEqReg { x, y })
            } else {
                None
            },
            0x6000 => Some(Instr::LoadImm { x, kk }),
            0x7000 => Some(Instr::AddImm { x, kk }),
            0x8000 => match op & 0x000F {
                0x0 => Some(Instr::Move { x, y }),
                0x1 => Some(Instr::Or { x, y }),
                0x2 => Some(Instr::And { x, y }),
                0x3 => Some(Instr::Xor { x, y }),
                0x4 => Some(Instr::AddReg { x, y }),
                0x5 => Some(Instr::SubReg { x, y }),
                0x6 => Some(Instr::ShiftRight { x }),
                0x7 => Some(Instr::SubFrom { x, y }),
                0xE => Some(Instr::ShiftLeft { x }),
                _ => None,
            },
            0x9000 => if n == 0 {
                Some(Instr::SkipNeReg { x, y })
            } else {
                None
            },
            0xA000 => Some(Instr::LoadIndex { nnn }),
            0xB000 => Some(Instr::JumpOffset { nnn }),
            0xC000 => Some(Instr::Random { x, kk }),
            0xD000 => Some(Instr::Draw { x, y, n }),
            0xE000 => match op & 0x00FF {
                0x9E => Some(Instr::SkipKey { x }),
                0xA1 => Some(Instr::SkipNoKey { x }),
                _ => None,
            },
            0xF000 => match op & 0x00FF {
                0x07 => Some(Instr::ReadDelay { x }),
                0x0A => Some(Instr::WaitKey { x }),
                0x15 => Some(Instr::SetDelay { x }),
                0x18 => Some(Instr::SetSound { x }),
                0x1E => Some(Instr::AddIndex { x }),
                0x29 => Some(Instr::FontAddr { x }),
                0x33 => Some(Instr::StoreBcd { x }),
                0x55 => Some(Instr::StoreRegs { x }),
                0x65 => Some(Instr::LoadRegs { x }),
                _ => None,
            },
            _ => None,
        }
    }
}

/// Operand bounds that decoding guarantees: register indices and counts are
/// nibbles, addresses are 12 bits.
pub open spec fn instr_wf(instr: Instr) -> bool {
    match instr {
        Instr::Cls => true,
        Instr::Ret => true,
        Instr::Jump { nnn } => nnn < 4096,
        Instr::Call { nnn } => nnn < 4096,
        Instr::SkipEqImm { x, kk } => x < 16,
        Instr::SkipNeImm { x, kk } => x < 16,
        Instr::SkipEqReg { x, y } => x < 16 && y < 16,
        Instr::LoadImm { x, kk } => x < 16,
        Instr::AddImm { x, kk } => x < 16,
        Instr::Move { x, y } => x < 16 && y < 16,
        Instr::Or { x, y } => x < 16 && y < 16,
        Instr::And { x, y } => x < 16 && y < 16,
        Instr::Xor { x, y } => x < 16 && y < 16,
        Instr::AddReg { x, y } => x < 16 && y < 16,
        Instr::SubReg { x, y } => x < 16 && y < 16,
        Instr::ShiftRight { x } => x < 16,
        Instr::SubFrom { x, y } => x < 16 && y < 16,
        Instr::ShiftLeft { x } => x < 16,
        Instr::SkipNeReg { x, y } => x < 16 && y < 16,
        Instr::LoadIndex { nnn } => nnn < 4096,
        Instr::JumpOffset { nnn } => nnn < 4096,
        Instr::Random { x, kk } => x < 16,
        Instr::Draw { x, y, n } => x < 16 && y < 16 && n < 16,
        Instr::SkipKey { x } => x < 16,
        Instr::SkipNoKey { x } => x < 16,
        Instr::ReadDelay { x } => x < 16,
        Instr::WaitKey { x } => x < 16,
        Instr::SetDelay { x } => x < 16,
        Instr::SetSound { x } => x < 16,
        Instr::AddIndex { x } => x < 16,
        Instr::FontAddr { x } => x < 16,
        Instr::StoreBcd { x } => x < 16,
        Instr::StoreRegs { x } => x < 16,
        Instr::LoadRegs { x } => x < 16,
    }
}

/// Executable decoder, exact to the model's decode mapping.
pub fn decode(op: u16) -> (r: Option<Instr>)
    ensures
        r == spec_decode(op),
        r matches Some(instr) ==> instr_wf(instr),
{
    proof {
        crate::arith::lemma_decode_field_bounds(op);
    }
    let nnn = (op & 0x0FFF) as usize;
    let n = (op & 0x000F) as usize;
    let x = ((op & 0x0F00) >> 8u16) as u8;
    let y = ((op & 0x00F0) >> 4u16) as u8;
    let kk = (op & 0x00FF) as u8;
    if op == 0x00E0 {
        Some(Instr::Cls)
    } else if op == 0x00EE {
        Some(Instr::Ret)
    } else {
        match op & 0xF000 {
            0x1000 => Some(Instr::Jump { nnn }),
            0x2000 => Some(Instr::Call { nnn }),
            0x3000 => Some(Instr::SkipEqImm { x, kk }),
            0x4000 => Some(Instr::SkipNeImm { x, kk }),
            0x5000 => if n == 0 {
                Some(Instr::SkipEqReg { x, y })
            } else {
                None
            },
            0x6000 => Some(Instr::LoadImm { x, kk }),
            0x7000 => Some(Instr::AddImm { x, kk }),
            0x8000 => match op & 0x000F {
                0x0 => Some(Instr::Move { x, y }),
                0x1 => Some(Instr::Or { x, y }),
                0x2 => Some(Instr::And { x, y }),
                0x3 => Some(Instr::Xor { x, y }),
                0x4 => Some(Instr::AddReg { x, y }),
                0x5 => Some(Instr::SubReg { x, y }),
                0x6 => Some(Instr::ShiftRight { x }),
                0x7 => Some(Instr::SubFrom { x, y }),
                0xE => Some(Instr::ShiftLeft { x }),
                _ => None,
            },
            0x9000 => if n == 0 {
                Some(Instr::SkipNeReg { x, y })
            } else {
                None
            },
            0xA000 => Some(Instr::LoadIndex { nnn }),
            0xB000 => Some(Instr::JumpOffset { nnn }),
            0xC000 => Some(Instr::Random { x, kk }),
            0xD000 => Some(Instr::Draw { x, y, n }),
            0xE000 => match op & 0x00FF {
                0x9E => Some(Instr::SkipKey { x }),
                0xA1 => Some(Instr::SkipNoKey { x }),
                _ => None,
            },
            0xF000 => match op & 0x00FF {
                0x07 => Some(Instr::ReadDelay { x }),
                0x0A => Some(Instr::WaitKey { x }),
                0x15 => Some(Instr::SetDelay { x }),
                0x18 => Some(Instr::SetSound { x }),
                0x1E => Some(Instr::AddIndex { x }),
                0x29 => Some(Instr::FontAddr { x }),
                0x33 => Some(Instr::StoreBcd { x }),
                0x55 => Some(Instr::StoreRegs { x }),
                0x65 => Some(Instr::LoadRegs { x }),
                _ => None,
            },
            _ => None,
        }
    }
}

/// The big-endian 16-bit word at the program counter; the second byte wraps
/// at the end of memory.
pub open spec fn spec_fetch(s: MachineView) -> u16 {
    ((s.memory[s.pc as int] as u16) << 8u16) | (s.memory[((s.pc + 1) % 4096) as int] as u16)
}

/// Effect of 00E0: every display cell is off.
pub open spec fn spec_clear(s: MachineView) -> MachineView {
    MachineView { display: Seq::new(2048, |p: int| 0u8), ..s }
}

/// Effect of 00EE on a non-empty stack: the program counter is restored
/// from the newest frame, which is popped.
pub open spec fn spec_return(s: MachineView) -> MachineView {
    MachineView { pc: s.stack[s.sp - 1] as usize, sp: (s.sp - 1) as usize, ..s }
}

/// Effect of 2nnn with a free frame: the address of the next instruction is
/// pushed and execution jumps to nnn.
pub open spec fn spec_call(s: MachineView, nnn: usize) -> MachineView {
    MachineView {
        stack: s.stack.update(s.sp as int, s.pc as u16),
        sp: (s.sp + 1) as usize,
        pc: nnn,
        ..s
    }
}

/// Effect of the conditional skips: one more instruction is stepped over
/// exactly when the condition holds.
pub open spec fn spec_skip_if(s: MachineView, cond: bool) -> MachineView {
    if cond {
        s.advance_pc()
    } else {
        s
    }
}

/// Effect of 8xy4: the truncated sum lands in Vx and the flag records
/// whether the 8-bit sum overflowed.
pub open spec fn spec_add_reg(s: MachineView, x: u8, y: u8) -> MachineView {
    let carry: u8 = if s.reg(x) + s.reg(y) > 255 {
        1u8
    } else {
        0u8
    };
    s.set_reg(x, ((s.reg(x) + s.reg(y)) % 256) as u8).set_reg(15, carry)
}

/// Effect of 8xy5: Vx - Vy wrapped into Vx; the flag is 1 exactly when no
/// borrow occurs, that is when the minuend is at least the subtrahend.
pub open spec fn spec_sub_reg(s: MachineView, x: u8, y: u8) -> MachineView {
    let flag: u8 = if s.reg(x) >= s.reg(y) {
        1u8
    } else {
        0u8
    };
    s.set_reg(x, ((s.reg(x) - s.reg(y)) % 256) as u8).set_reg(15, flag)
}

/// Effect of 8xy7: Vy - Vx wrapped into Vx; the flag is 1 exactly when no
/// borrow occurs, that is when the minuend is at least the subtrahend.
pub open spec fn spec_sub_from(s: MachineView, x: u8, y: u8) -> MachineView {
    let flag: u8 = if s.reg(y) >= s.reg(x) {
        1u8
    } else {
        0u8
    };
    s.set_reg(x, ((s.reg(y) - s.reg(x)) % 256) as u8).set_reg(15, flag)
}

/// Effect of 8xy6. Shift policy: the shift reads and writes Vx itself,
/// ignoring the y field. The flag takes the bit shifted out at the bottom.
pub open spec fn spec_shift_right(s: MachineView, x: u8) -> MachineView {
    s.set_reg(x, (s.reg(x) / 2) as u8).set_reg(15, (s.reg(x) % 2) as u8)
}

/// Effect of 8xyE. Shift policy: the shift reads and writes Vx itself,
/// ignoring the y field. The flag takes the bit shifted out at the top.
pub open spec fn spec_shift_left(s: MachineView, x: u8) -> MachineView {
    s.set_reg(x, ((2 * s.reg(x)) % 256) as u8).set_reg(15, (s.reg(x) / 128) as u8)
}

/// Effect of Cxkk given the random byte that was drawn.
pub open spec fn spec_random(s: MachineView, x: u8, kk: u8, rb: u8) -> MachineView {
    s.set_reg(x, rb & kk)
}

/// Whether the key numbered by `k` is pressed; indices past the sixteen
/// keys never read the pad and count as not pressed.
pub open spec fn spec_key_pressed(s: MachineView, k: u8) -> bool {
    k < 16 && s.keypad[k as int]
}

/// Effect of Fx1E: the index register advances by Vx, wrapping in the
/// address space.
pub open spec fn spec_add_index(s: MachineView, x: u8) -> MachineView {
    MachineView { i: ((s.i + s.reg(x)) % 4096) as usize, ..s }
}

/// Effect of Fx29: the index register points at the five-byte font glyph
/// for the low nibble of Vx; glyph d lives at offset 5 * d.
pub open spec fn spec_font_addr(s: MachineView, x: u8) -> MachineView {
    MachineView { i: (5 * (s.reg(x) % 16)) as usize, ..s }
}

/// Effect of Fx33: the hundreds, tens and ones digits of Vx land at I,
/// I + 1 and I + 2, wrapping in the address space; I itself is unchanged.
pub open spec fn spec_store_bcd(s: MachineView, x: u8) -> MachineView {
    let v = s.reg(x);
    MachineView {
        memory: s.memory.update(s.i as int, (v / 100) as u8).update(
            (s.i + 1) % 4096,
            ((v / 10) % 10) as u8,
        ).update((s.i + 2) % 4096, (v % 10) as u8),
        ..s
    }
}

/// Memory after the first `cnt` registers are copied to the cells at I,
/// I + 1, ..., each wrapping in the address space.
pub open spec fn store_block(mem: Seq<u8>, regs: Seq<u8>, i: int, cnt: int) -> Seq<u8>
    decreases cnt,
{
    if cnt <= 0 {
        mem
    } else {
        store_block(mem, regs, i, cnt - 1).update((i + cnt - 1) % 4096, regs[cnt - 1])
    }
}

/// Register file after its first `cnt` registers are loaded from the cells
/// at I, I + 1, ..., each wrapping in the address space.
pub open spec fn load_block(regs: Seq<u8>, mem: Seq<u8>, i: int, cnt: int) -> Seq<u8>
    decreases cnt,
{
    if cnt <= 0 {
        regs
    } else {
        load_block(regs, mem, i, cnt - 1).update(cnt - 1, mem[(i + cnt - 1) % 4096])
    }
}

/// Effect of Fx55: registers V0..=Vx are stored to memory at I; I itself is
/// unchanged.
pub open spec fn spec_store_regs(s: MachineView, x: u8) -> MachineView {
    MachineView { memory: store_block(s.memory, s.registers, s.i as int, x + 1), ..s }
}

/// Effect of Fx65: registers V0..=Vx are loaded from memory at I; I itself
/// is unchanged.
pub open spec fn spec_load_regs(s: MachineView, x: u8) -> MachineView {
    MachineView { registers: load_block(s.registers, s.memory, s.i as int, x + 1), ..s }
}

/// The sprite bit of row byte `byte` at column offset `b`: the
/// most-significant bit is drawn leftmost.
pub open spec fn sprite_bit(byte: u8, b: int) -> u8 {
    (byte >> ((7 - b) as u8)) & 1
}

/// The sprite bit that an n-row draw at origin (x0, y0) sends to the cell
/// (px, py), or 0 if the sprite does not cover that cell. Both axes wrap,
/// so the covering row and column offsets are recovered modulo the display
/// size.
pub open spec fn draw_bit(mem: Seq<u8>, i: int, n: int, x0: int, y0: int, px: int, py: int) -> u8 {
    let r = (py - y0) % 32;
    let b = (px - x0) % 64;
    if r < n && b < 8 {
        sprite_bit(mem[(i + r) % 4096], b)
    } else {
        0
    }
}

/// The display after an n-row sprite draw: every covered cell is toggled by
/// its sprite bit, every other cell keeps its value.
pub open spec fn draw_display(
    disp: Seq<u8>,
    mem: Seq<u8>,
    i: int,
    n: int,
    x0: int,
    y0: int,
) -> Seq<u8> {
    Seq::new(2048, |p: int| disp[p] ^ draw_bit(mem, i, n, x0, y0, p % 64, p / 64))
}

/// Whether an n-row sprite draw collides: some cell is already on and
/// receives a set sprite bit. The flag accumulates over the whole sprite.
pub open spec fn draw_collision(
    disp: Seq<u8>,
    mem: Seq<u8>,
    i: int,
    n: int,
    x0: int,
    y0: int,
) -> bool {
    exists|p: int|
        0 <= p < 2048 && disp[p] == 1 && draw_bit(mem, i, n, x0, y0, p % 64, p / 64) == 1
}

/// Effect of Dxyn: the draw origin is (Vx mod 64, Vy mod 32), the display
/// is toggled cell by cell, and the flag reports whether any collision
/// occurred.
pub open spec fn spec_draw(s: MachineView, x: u8, y: u8, n: usize) -> MachineView {
    let x0 = s.reg(x) as int % 64;
    let y0 = s.reg(y) as int % 32;
    let flag: u8 = if draw_collision(s.display, s.memory, s.i as int, n as int, x0, y0) {
        1u8
    } else {
        0u8
    };
    MachineView {
        display: draw_display(s.display, s.memory, s.i as int, n as int, x0, y0),
        registers: s.registers.update(15, flag),
        ..s
    }
}

/// The lowest pressed key at or above index `k`, if any.
pub open spec fn first_pressed_from(keys: Seq<bool>, k: int) -> Option<u8>
    decreases 16 - k,
{
    if k < 0 || k >= 16 {
        None
    } else if keys[k] {
        Some(k as u8)
    } else {
        first_pressed_from(keys, k + 1)
    }
}

/// One cycle while a wait-for-key is pending: no instruction is fetched;
/// if some key is pressed, the lowest such index lands in the target
/// register and the wait ends, otherwise nothing changes.
pub open spec fn spec_wait_poll(s: MachineView) -> MachineView {
    match first_pressed_from(s.keypad, 0) {
        Some(k) => MachineView {
            waiting: false,
            registers: s.registers.update(s.wait_reg as int, k),
            ..s
        },
        None => s,
    }
}

/// The effect of one decoded instruction on the state whose program counter
/// has already advanced past it. `rb` is the random byte drawn for the
/// random instruction and is ignored by every other one. Callers rule out
/// the stack errors; everything else is total.
pub open spec fn spec_exec_instr(s: MachineView, instr: Instr, rb: u8) -> MachineView {
    match instr {
        Instr::Cls => spec_clear(s),
        Instr::Ret => spec_return(s),
        Instr::Jump { nnn } => MachineView { pc: nnn, ..s },
        Instr::Call { nnn } => spec_call(s, nnn),
        Instr::SkipEqImm { x, kk } => spec_skip_if(s, s.reg(x) == kk),
        Instr::SkipNeImm { x, kk } => spec_skip_if(s, s.reg(x) != kk),
        Instr::SkipEqReg { x, y } => spec_skip_if(s, s.reg(x) == s.reg(y)),
        Instr::LoadImm { x, kk } => s.set_reg(x, kk),
        Instr::AddImm { x, kk } => s.set_reg(x, ((s.reg(x) + kk) % 256) as u8),
        Instr::Move { x, y } => s.set_reg(x, s.reg(y)),
        Instr::Or { x, y } => s.set_reg(x, s.reg(x) | s.reg(y)),
        Instr::And { x, y } => s.set_reg(x, s.reg(x) & s.reg(y)),
        Instr::Xor { x, y } => s.set_reg(x, s.reg(x) ^ s.reg(y)),
        Instr::AddReg { x, y } => spec_add_reg(s, x, y),
        Instr::SubReg { x, y } => spec_sub_reg(s, x, y),
        Instr::ShiftRight { x } => spec_shift_right(s, x),
        Instr::SubFrom { x, y } => spec_sub_from(s, x, y),
        Instr::ShiftLeft { x } => spec_shift_left(s, x),
        Instr::SkipNeReg { x, y } => spec_skip_if(s, s.reg(x) != s.reg(y)),
        Instr::LoadIndex { nnn } => MachineView { i: nnn, ..s },
        Instr::JumpOffset { nnn } => MachineView {
            pc: ((nnn + s.registers[0]) % 4096) as usize,
            ..s
        },
        Instr::Random { x, kk } => spec_random(s, x, kk, rb),
        Instr::Draw { x, y, n } => spec_draw(s, x, y, n),
        Instr::SkipKey { x } => spec_skip_if(s, spec_key_pressed(s, s.reg(x))),
        Instr::SkipNoKey { x } => spec_skip_if(s, !spec_key_pressed(s, s.reg(x))),
        Instr::ReadDelay { x } => s.set_reg(x, s.delay),
        Instr::WaitKey { x } => MachineView { waiting: true, wait_reg: x, ..s },
        Instr::SetDelay { x } => MachineView { delay: s.reg(x), ..s },
        Instr::SetSound { x } => MachineView { sound: s.reg(x), ..s },
        Instr::AddIndex { x } => spec_add_index(s, x),
        Instr::FontAddr { x } => spec_font_addr(s, x),
        Instr::StoreBcd { x } => spec_store_bcd(s, x),
        Instr::StoreRegs { x } => spec_store_regs(s, x),
        Instr::LoadRegs { x } => spec_load_regs(s, x),
    }
}

/// One whole fetch-decode-execute cycle, the machine's step function.
///
/// While a wait-for-key is pending only the keypad poll runs. Otherwise the
/// word at the program counter is fetched and decoded; an undefined
/// encoding, a call on a full stack and a return on an empty stack are the
/// fatal errors, and on an error the state is unchanged. Otherwise the
/// program counter advances past the instruction before it takes effect.
/// `rb` is the random byte drawn for the random instruction; every other
/// cycle ignores it.
pub open spec fn spec_step(s: MachineView, rb: u8) -> Result<MachineView, Chip8Error> {
    if s.waiting {
        Ok(spec_wait_poll(s))
    } else {
        let op = spec_fetch(s);
        match spec_decode(op) {
            None => Err(Chip8Error::UnknownOpcode { opcode: op, pc: s.pc }),
            Some(instr) => if (instr matches Instr::Call { .. }) && s.sp >= 16 {
                Err(Chip8Error::StackOverflow { depth: s.sp })
            } else if instr == Instr::Ret && s.sp == 0 {
                Err(Chip8Error::StackUnderflow { depth: 0 })
            } else {
                Ok(spec_exec_instr(s.advance_pc(), instr, rb))
            },
        }
    }
}

/// Whether the next cycle of `s` executes the random instruction: the one
/// case in which the step depends on the drawn byte.
pub open spec fn is_random_cycle(s: MachineView) -> bool {
    !s.waiting && (spec_decode(spec_fetch(s)) matches Some(Instr::Random { .. }))
}

/// Memory after a program image is copied in at the load address 0x200.
pub open spec fn mem_with_rom(mem: Seq<u8>, rom: Seq<u8>) -> Seq<u8> {
    Seq::new(4096, |a: int| if 0x200 <= a < 0x200 + rom.len() {
        rom[a - 0x200]
    } else {
        mem[a]
    })
}

/// The built-in font: sixteen hexadecimal glyphs of five rows each, living
/// at the bottom of memory.
pub open spec fn spec_font() -> Seq<u8> {
    seq![
        0xF0u8, 0x90, 0x90, 0x90, 0xF0,  // 0
        0x20, 0x60, 0x20, 0x20, 0x70,  // 1
        0xF0, 0x10, 0xF0, 0x80, 0xF0,  // 2
        0xF0, 0x10, 0xF0, 0x10, 0xF0,  // 3
        0x90, 0x90, 0xF0, 0x10, 0x10,  // 4
        0xF0, 0x80, 0xF0, 0x10, 0xF0,  // 5
        0xF0, 0x80, 0xF0, 0x90, 0xF0,  // 6
        0xF0, 0x10, 0x20, 0x40, 0x40,  // 7
        0xF0, 0x90, 0xF0, 0x90, 0xF0,  // 8
        0xF0, 0x90, 0xF0, 0x10, 0xF0,  // 9
        0xF0, 0x90, 0xF0, 0x90, 0x90,  // A
        0xE0, 0x90, 0xE0, 0x90, 0xE0,  // B
        0xF0, 0x80, 0x80, 0x80, 0xF0,  // C
        0xE0, 0x90, 0x90, 0x90, 0xE0,  // D
        0xF0, 0x80, 0xF0, 0x80, 0xF0,  // E
        0xF0, 0x80, 0xF0, 0x80, 0x80,  // F
    ]
}

/// The freshly constructed machine: font in the first 80 memory cells,
/// everything else zeroed, the program counter at the load address and the
/// stack empty.
pub open spec fn spec_initial() -> MachineView {
    MachineView {
        memory: Seq::new(4096, |a: int| if a < 80 {
            spec_font()[a]
        } else {
            0u8
        }),
        registers: Seq::new(16, |k: int| 0u8),
        display: Seq::new(2048, |p: int| 0u8),
        i: 0,
        pc: 0x200,
        sp: 0,
        stack: Seq::new(16, |k: int| 0u16),
        keypad: Seq::new(16, |k: int| false),
        waiting: false,
        wait_reg: 0,
        delay: 0,
        sound: 0,
    }
}

} // verus!
