//! The interpreter core: the machine state and the operations that mutate
//! it. Every public operation carries a contract over the abstract view in
//! [`crate::model`].
use vstd::prelude::*;

use crate::arith::lemma_mod_near;
use crate::arith::lemma_wrap_complete;
use crate::arith::lemma_wrap_roundtrip;
use crate::arith::lemma_xor_bits;
use crate::model::Chip8Error;
use crate::model::Instr;
use crate::model::MachineView;
use crate::model::decode;
use crate::model::draw_bit;
use crate::model::draw_collision;
use crate::model::draw_display;
use crate::model::spec_draw;
use crate::model::spec_fetch;
use crate::model::spec_step;
use crate::model::sprite_bit;
use vstd::arithmetic::div_mod::lemma_fundamental_div_mod;
use vstd::arithmetic::div_mod::lemma_fundamental_div_mod_converse_div;
use vstd::arithmetic::div_mod::lemma_fundamental_div_mod_converse_mod;
use vstd::arithmetic::div_mod::lemma_mod_division_less_than_divisor;
use crate::model::first_pressed_from;
use crate::model::load_block;
use crate::model::mem_with_rom;
use crate::model::spec_font;
use crate::model::spec_initial;
use crate::model::spec_add_index;
use crate::model::spec_add_reg;
use crate::model::spec_call;
use crate::model::spec_clear;
use crate::model::spec_font_addr;
use crate::model::spec_key_pressed;
use crate::model::spec_load_regs;
use crate::model::spec_random;
use crate::model::spec_return;
use crate::model::spec_shift_left;
use crate::model::spec_shift_right;
use crate::model::spec_skip_if;
use crate::model::spec_store_bcd;
use crate::model::spec_store_regs;
use crate::model::spec_sub_from;
use crate::model::spec_sub_reg;
use crate::model::spec_wait_poll;
use crate::model::store_block;
use crate::rng::random_byte;

verus! {

/// The sprite bit that the first `t` of the 8 * n bit writes of a draw send
/// to the cell (px, py): the draw proceeds row by row, eight bits per row,
/// so write number 8 * row + column happens before write `t` exactly when
/// it is below it.
spec fn draw_bit_upto(mem: Seq<u8>, i: int, t: int, x0: int, y0: int, px: int, py: int) -> u8 {
    let rr = (py - y0) % 32;
    let bb = (px - x0) % 64;
    if 8 * rr + bb < t && bb < 8 {
        sprite_bit(mem[(i + rr) % 4096], bb)
    } else {
        0
    }
}

/// Whether some already-on cell received a set sprite bit among the first
/// `t` bit writes of a draw.
spec fn collision_upto(disp: Seq<u8>, mem: Seq<u8>, i: int, t: int, x0: int, y0: int) -> bool {
    exists|p: int|
        0 <= p < 2048 && disp[p] == 1 && draw_bit_upto(mem, i, t, x0, y0, p % 64, p / 64) == 1
}

/// Bit write number `told` lands on the cell `idx` alone: at every other
/// cell the sprite bit so far is unchanged by it.
proof fn lemma_untouched_cell(
    mem: Seq<u8>,
    i: int,
    told: int,
    x0: int,
    y0: int,
    p: int,
    idx: int,
    r: int,
    b: int,
    px: int,
    py: int,
)
    requires
        0 <= x0 < 64,
        0 <= y0 < 32,
        0 <= r,
        0 <= b < 8,
        told == 8 * r + b,
        px == (x0 + b) % 64,
        py == (y0 + r) % 32,
        idx == py * 64 + px,
        0 <= p < 2048,
        p != idx,
    ensures
        draw_bit_upto(mem, i, told + 1, x0, y0, p % 64, p / 64) == draw_bit_upto(
            mem,
            i,
            told,
            x0,
            y0,
            p % 64,
            p / 64,
        ),
{
    let rr = (p / 64 - y0) % 32;
    let bb = (p % 64 - x0) % 64;
    if bb < 8 && 8 * rr + bb == told {
        lemma_mod_division_less_than_divisor(p / 64 - y0, 32);
        lemma_mod_division_less_than_divisor(p % 64 - x0, 64);
        lemma_fundamental_div_mod_converse_div(told, 8, rr, bb);
        lemma_fundamental_div_mod_converse_div(told, 8, r, b);
        lemma_fundamental_div_mod_converse_mod(told, 8, rr, bb);
        lemma_fundamental_div_mod_converse_mod(told, 8, r, b);
        lemma_fundamental_div_mod(p, 64);
        lemma_mod_division_less_than_divisor(p, 64);
        lemma_wrap_complete(y0, p / 64, 32);
        lemma_wrap_complete(x0, p % 64, 64);
        assert(false);
    }
}

/// The machine: fixed memory, sixteen registers, a monochrome display,
/// a sixteen-frame call stack, two countdown timers and a sixteen-key pad.
pub struct Chip8 {
    /// 4096 bytes of memory; the font lives in the first 80 bytes and
    /// programs start at 0x200.
    pub memory: Vec<u8>,
    /// The sixteen general registers V0..=VF; VF is the flag register.
    pub registers: Vec<u8>,
    /// 64x32 one-bit pixels, row by row, one byte per pixel (0 or 1).
    pub display: Vec<u8>,
    /// The index register, kept below 4096.
    pub i: usize,
    /// The program counter, kept below 4096.
    pub program_counter: usize,
    /// Number of call-stack frames in use, at most 16.
    pub stack_pointer: usize,
    /// Sixteen return-address slots; those at or above `stack_pointer` are
    /// dead values, kept below 4096 all the same.
    pub stack: Vec<u16>,
    /// Pressed state of the sixteen keys.
    pub keypad: Vec<bool>,
    /// Set while a wait-for-key instruction is pending; while set, the cycle
    /// only polls the keypad.
    pub waiting_for_keypress: bool,
    /// The register that receives the key index once the wait ends.
    pub keypad_pressed: u8,
    /// Delay timer, decremented once per timer tick down to zero.
    pub delay_timer: u8,
    /// Sound timer, decremented once per timer tick down to zero.
    pub sound_timer: u8,
}

impl View for Chip8 {
    type V = MachineView;

    open spec fn view(&self) -> MachineView {
        MachineView {
            memory: self.memory@,
            registers: self.registers@,
            display: self.display@,
            i: self.i,
            pc: self.program_counter,
            sp: self.stack_pointer,
            stack: self.stack@,
            keypad: self.keypad@,
            waiting: self.waiting_for_keypress,
            wait_reg: self.keypad_pressed,
            delay: self.delay_timer,
            sound: self.sound_timer,
        }
    }
}

#[allow(non_snake_case)]
impl Chip8 {
    /// The machine is well formed exactly when its view is.
    pub open spec fn well_formed(self) -> bool {
        self@.wf()
    }

    /// Construct the machine in its initial state: the font in the first 80
    /// memory cells, everything else zeroed, the program counter at the
    /// load address and the stack empty.
    pub fn new() -> (c: Chip8)
        ensures
            c.well_formed(),
            c@ == spec_initial(),
    {
        let mut memory: Vec<u8> = Vec::new();
        memory.push(0xF0);
        memory.push(0x90);
        memory.push(0x90);
        memory.push(0x90);
        memory.push(0xF0);
        memory.push(0x20);
        memory.push(0x60);
        memory.push(0x20);
        memory.push(0x20);
        memory.push(0x70);
        memory.push(0xF0);
        memory.push(0x10);
        memory.push(0xF0);
        memory.push(0x80);
        memory.push(0xF0);
        memory.push(0xF0);
        memory.push(0x10);
        memory.push(0xF0);
        memory.push(0x10);
        memory.push(0xF0);
        memory.push(0x90);
        memory.push(0x90);
        memory.push(0xF0);
        memory.push(0x10);
        memory.push(0x10);
        memory.push(0xF0);
        memory.push(0x80);
        memory.push(0xF0);
        memory.push(0x10);
        memory.push(0xF0);
        memory.push(0xF0);
        memory.push(0x80);
        memory.push(0xF0);
        memory.push(0x90);
        memory.push(0xF0);
        memory.push(0xF0);
        memory.push(0x10);
        memory.push(0x20);
        memory.push(0x40);
        memory.push(0x40);
        memory.push(0xF0);
        memory.push(0x90);
        memory.push(0xF0);
        memory.push(0x90);
        memory.push(0xF0);
        memory.push(0xF0);
        memory.push(0x90);
        memory.push(0xF0);
        memory.push(0x10);
        memory.push(0xF0);
        memory.push(0xF0);
        memory.push(0x90);
        memory.push(0xF0);
        memory.push(0x90);
        memory.push(0x90);
        memory.push(0xE0);
        memory.push(0x90);
        memory.push(0xE0);
        memory.push(0x90);
        memory.push(0xE0);
        memory.push(0xF0);
        memory.push(0x80);
        memory.push(0x80);
        memory.push(0x80);
        memory.push(0xF0);
        memory.push(0xE0);
        memory.push(0x90);
        memory.push(0x90);
        memory.push(0x90);
        memory.push(0xE0);
        memory.push(0xF0);
        memory.push(0x80);
        memory.push(0xF0);
        memory.push(0x80);
        memory.push(0xF0);
        memory.push(0xF0);
        memory.push(0x80);
        memory.push(0xF0);
        memory.push(0x80);
        memory.push(0x80);
        proof {
            assert(memory@ =~= spec_font());
        }
        while memory.len() < 4096
            invariant
                80 <= memory@.len() <= 4096,
                forall|a: int| 0 <= a < 80 ==> #[trigger] memory@[a] == spec_font()[a],
                forall|a: int| 80 <= a < memory@.len() ==> #[trigger] memory@[a] == 0,
            decreases 4096 - memory@.len(),
        {
            memory.push(0);
        }
        let mut registers: Vec<u8> = Vec::new();
        while registers.len() < 16
            invariant
                registers@.len() <= 16,
                forall|k: int| 0 <= k < registers@.len() ==> #[trigger] registers@[k] == 0,
            decreases 16 - registers@.len(),
        {
            registers.push(0);
        }
        let mut display: Vec<u8> = Vec::new();
        while display.len() < 2048
            invariant
                display@.len() <= 2048,
                forall|p: int| 0 <= p < display@.len() ==> #[trigger] display@[p] == 0,
            decreases 2048 - display@.len(),
        {
            display.push(0);
        }
        let mut stack: Vec<u16> = Vec::new();
        while stack.len() < 16
            invariant
                stack@.len() <= 16,
                forall|k: int| 0 <= k < stack@.len() ==> #[trigger] stack@[k] == 0,
            decreases 16 - stack@.len(),
        {
            stack.push(0);
        }
        let mut keypad: Vec<bool> = Vec::new();
        while keypad.len() < 16
            invariant
                keypad@.len() <= 16,
                forall|k: int| 0 <= k < keypad@.len() ==> #[trigger] keypad@[k] == false,
            decreases 16 - keypad@.len(),
        {
            keypad.push(false);
        }
        let c = Chip8 {
            memory,
            registers,
            display,
            i: 0,
            program_counter: 0x200,
            stack_pointer: 0,
            stack,
            keypad,
            waiting_for_keypress: false,
            keypad_pressed: 0,
            delay_timer: 0,
            sound_timer: 0,
        };
        proof {
            assert(c@.memory =~= spec_initial().memory);
            assert(c@.registers =~= spec_initial().registers);
            assert(c@.display =~= spec_initial().display);
            assert(c@.stack =~= spec_initial().stack);
            assert(c@.keypad =~= spec_initial().keypad);
        }
        c
    }

    /// Load a program image: its bytes land at 0x200 onward, the rest of
    /// the machine is untouched. An image longer than the 3584 bytes of
    /// memory above the load address is rejected whole, reported rather
    /// than silently truncated.
    pub fn load(&mut self, rom: &Vec<u8>) -> (r: Result<(), Chip8Error>)
        requires
            old(self).well_formed(),
        ensures
            final(self).well_formed(),
            rom@.len() <= 3584 ==> r == Ok::<(), Chip8Error>(()) && final(self)@ == (MachineView {
                memory: mem_with_rom(old(self)@.memory, rom@),
                ..old(self)@
            }),
            rom@.len() > 3584 ==> r == Err::<(), Chip8Error>(
                Chip8Error::RomTooLarge { len: rom@.len() as usize },
            ) && final(self)@ == old(self)@,
    {
        if rom.len() > 3584 {
            let len = rom.len();
            return Err(Chip8Error::RomTooLarge { len });
        }
        let mut j: usize = 0;
        while j < rom.len()
            invariant
                old(self).well_formed(),
                rom@.len() <= 3584,
                j <= rom@.len(),
                self.memory@.len() == 4096,
                self@ == (MachineView { memory: self.memory@, ..old(self)@ }),
                forall|a: int|
                    0 <= a < 4096 ==> #[trigger] self.memory@[a] == if 0x200 <= a < 0x200 + j {
                        rom@[a - 0x200]
                    } else {
                        old(self)@.memory[a]
                    },
            decreases rom@.len() - j,
        {
            self.memory[0x200 + j] = rom[j];
            j = j + 1;
        }
        proof {
            assert(self.memory@ =~= mem_with_rom(old(self)@.memory, rom@));
        }
        Ok(())
    }

    /// Advance the program counter past the instruction just fetched,
    /// wrapping at the end of the address space.
    fn advance(&mut self)
        requires
            old(self).well_formed(),
        ensures
            final(self).well_formed(),
            final(self)@ == old(self)@.advance_pc(),
    {
        self.program_counter = (self.program_counter + 2) % 4096;
    }

    /// Return from a subroutine: the program counter is restored from the
    /// newest stack frame, which is popped.
    pub fn op_00EE(&mut self)
        requires
            old(self).well_formed(),
            old(self)@.sp > 0,
        ensures
            final(self).well_formed(),
            final(self)@ == spec_return(old(self)@),
    {
        self.stack_pointer = self.stack_pointer - 1;
        self.program_counter = self.stack[self.stack_pointer] as usize;
    }

    /// Clear the display: every cell goes off.
    pub fn op_00E0(&mut self)
        requires
            old(self).well_formed(),
        ensures
            final(self).well_formed(),
            final(self)@ == spec_clear(old(self)@),
    {
        let mut p: usize = 0;
        while p < 2048
            invariant
                p <= 2048,
                self.display@.len() == 2048,
                self@ == (MachineView { display: self.display@, ..old(self)@ }),
                forall|q: int| 0 <= q < p ==> #[trigger] self.display@[q] == 0,
            decreases 2048 - p,
        {
            self.display[p] = 0;
            p = p + 1;
        }
        proof {
            assert(self.display@ =~= spec_clear(old(self)@).display);
        }
    }

    /// The interpreter sets the program counter to nnn.
    pub fn op_1nnn(&mut self, nnn: usize)
        requires
            old(self).well_formed(),
            nnn < 4096,
        ensures
            final(self).well_formed(),
            final(self)@ == (MachineView { pc: nnn, ..old(self)@ }),
    {
        self.program_counter = nnn;
    }

    /// Call the subroutine at nnn: the address of the next instruction is
    /// pushed onto the stack and execution jumps to nnn.
    pub fn op_2nnn(&mut self, nnn: usize)
        requires
            old(self).well_formed(),
            old(self)@.sp < 16,
            nnn < 4096,
        ensures
            final(self).well_formed(),
            final(self)@ == spec_call(old(self)@, nnn),
    {
        self.stack[self.stack_pointer] = self.program_counter as u16;
        self.stack_pointer = self.stack_pointer + 1;
        self.program_counter = nnn;
    }

    /// Skip the next instruction if Vx equals kk.
    pub fn op_3xkk(&mut self, vx: u8, kk: u8)
        requires
            old(self).well_formed(),
            vx < 16,
        ensures
            final(self).well_formed(),
            final(self)@ == spec_skip_if(old(self)@, old(self)@.reg(vx) == kk),
    {
        if self.registers[vx as usize] == kk {
            self.advance();
        }
    }

    /// Skip the next instruction if Vx does not equal kk.
    pub fn op_4xkk(&mut self, vx: u8, kk: u8)
        requires
            old(self).well_formed(),
            vx < 16,
        ensures
            final(self).well_formed(),
            final(self)@ == spec_skip_if(old(self)@, old(self)@.reg(vx) != kk),
    {
        if self.registers[vx as usize] != kk {
            self.advance();
        }
    }

    /// Skip the next instruction if Vx equals Vy.
    pub fn op_5xy0(&mut self, vx: u8, vy: u8)
        requires
            old(self).well_formed(),
            vx < 16,
            vy < 16,
        ensures
            final(self).well_formed(),
            final(self)@ == spec_skip_if(old(self)@, old(self)@.reg(vx) == old(self)@.reg(vy)),
    {
        if self.registers[vx as usize] == self.registers[vy as usize] {
            self.advance();
        }
    }

    /// Skip the next instruction if Vx does not equal Vy.
    pub fn op_9xy0(&mut self, vx: u8, vy: u8)
        requires
            old(self).well_formed(),
            vx < 16,
            vy < 16,
        ensures
            final(self).well_formed(),
            final(self)@ == spec_skip_if(old(self)@, old(self)@.reg(vx) != old(self)@.reg(vy)),
    {
        if self.registers[vx as usize] != self.registers[vy as usize] {
            self.advance();
        }
    }

    /// The interpreter puts the value kk into register Vx.
    pub fn op_6xkk(&mut self, vx: u8, kk: u8)
        requires
            old(self).well_formed(),
            vx < 16,
        ensures
            final(self).well_formed(),
            final(self)@ == old(self)@.set_reg(vx, kk),
    {
        self.registers[vx as usize] = kk;
    }

    /// Add kk to Vx, wrapping at 256; the flag register is not touched.
    pub fn op_7xkk(&mut self, vx: u8, kk: u8)
        requires
            old(self).well_formed(),
            vx < 16,
        ensures
            final(self).well_formed(),
            final(self)@ == old(self)@.set_reg(vx, ((old(self)@.reg(vx) + kk) % 256) as u8),
    {
        let sum: u16 = self.registers[vx as usize] as u16 + kk as u16;
        self.registers[vx as usize] = (sum % 256) as u8;
    }

    /// Store the value of register Vy in register Vx.
    pub fn op_8xy0(&mut self, vx: u8, vy: u8)
        requires
            old(self).well_formed(),
            vx < 16,
            vy < 16,
        ensures
            final(self).well_formed(),
            final(self)@ == old(self)@.set_reg(vx, old(self)@.reg(vy)),
    {
        self.registers[vx as usize] = self.registers[vy as usize];
    }

    /// Vx is set to Vx OR Vy.
    pub fn op_8xy1(&mut self, vx: u8, vy: u8)
        requires
            old(self).well_formed(),
            vx < 16,
            vy < 16,
        ensures
            final(self).well_formed(),
            final(self)@ == old(self)@.set_reg(vx, old(self)@.reg(vx) | old(self)@.reg(vy)),
    {
        self.registers[vx as usize] = self.registers[vx as usize] | self.registers[vy as usize];
    }

    /// Vx is set to Vx AND Vy.
    pub fn op_8xy2(&mut self, vx: u8, vy: u8)
        requires
            old(self).well_formed(),
            vx < 16,
            vy < 16,
        ensures
            final(self).well_formed(),
            final(self)@ == old(self)@.set_reg(vx, old(self)@.reg(vx) & old(self)@.reg(vy)),
    {
        self.registers[vx as usize] = self.registers[vx as usize] & self.registers[vy as usize];
    }

    /// Vx is set to Vx XOR Vy.
    pub fn op_8xy3(&mut self, vx: u8, vy: u8)
        requires
            old(self).well_formed(),
            vx < 16,
            vy < 16,
        ensures
            final(self).well_formed(),
            final(self)@ == old(self)@.set_reg(vx, old(self)@.reg(vx) ^ old(self)@.reg(vy)),
    {
        self.registers[vx as usize] = self.registers[vx as usize] ^ self.registers[vy as usize];
    }

    /// Add Vy to Vx with carry: the truncated sum lands in Vx and the flag
    /// register is 1 exactly when the sum overflows 255. Flag policy: the
    /// operands are read first and the flag is written last, so it wins when
    /// Vx is the flag register itself.
    pub fn op_8xy4(&mut self, vx: u8, vy: u8)
        requires
            old(self).well_formed(),
            vx < 16,
            vy < 16,
        ensures
            final(self).well_formed(),
            final(self)@ == spec_add_reg(old(self)@, vx, vy),
    {
        let a = self.registers[vx as usize];
        let b = self.registers[vy as usize];
        let sum: u16 = a as u16 + b as u16;
        let flag: u8 = if sum > 255 {
            1
        } else {
            0
        };
        self.registers[vx as usize] = (sum % 256) as u8;
        self.registers[15] = flag;
    }

    /// Subtract Vy from Vx, wrapping; the flag register is 1 exactly when no
    /// borrow occurs, that is when Vx >= Vy. Flag policy as in addition.
    pub fn op_8xy5(&mut self, vx: u8, vy: u8)
        requires
            old(self).well_formed(),
            vx < 16,
            vy < 16,
        ensures
            final(self).well_formed(),
            final(self)@ == spec_sub_reg(old(self)@, vx, vy),
    {
        let a = self.registers[vx as usize];
        let b = self.registers[vy as usize];
        proof {
            lemma_mod_near(a - b, 256);
        }
        let flag: u8 = if a >= b {
            1
        } else {
            0
        };
        let res: u8 = if a >= b {
            a - b
        } else {
            (256 + a as u16 - b as u16) as u8
        };
        self.registers[vx as usize] = res;
        self.registers[15] = flag;
    }

    /// Shift Vx right by one; the flag register takes the bit shifted out.
    /// Shift policy: Vx is both source and target, the y field is ignored.
    pub fn op_8xy6(&mut self, vx: u8)
        requires
            old(self).well_formed(),
            vx < 16,
        ensures
            final(self).well_formed(),
            final(self)@ == spec_shift_right(old(self)@, vx),
    {
        let v = self.registers[vx as usize];
        self.registers[vx as usize] = v / 2;
        self.registers[15] = v % 2;
    }

    /// Set Vx to Vy minus Vx, wrapping; the flag register is 1 exactly when
    /// no borrow occurs, that is when Vy >= Vx. Flag policy as in addition.
    pub fn op_8xy7(&mut self, vx: u8, vy: u8)
        requires
            old(self).well_formed(),
            vx < 16,
            vy < 16,
        ensures
            final(self).well_formed(),
            final(self)@ == spec_sub_from(old(self)@, vx, vy),
    {
        let a = self.registers[vx as usize];
        let b = self.registers[vy as usize];
        proof {
            lemma_mod_near(b - a, 256);
        }
        let flag: u8 = if b >= a {
            1
        } else {
            0
        };
        let res: u8 = if b >= a {
            b - a
        } else {
            (256 + b as u16 - a as u16) as u8
        };
        self.registers[vx as usize] = res;
        self.registers[15] = flag;
    }

    /// Shift Vx left by one, wrapping; the flag register takes the bit
    /// shifted out. Shift policy: Vx is both source and target, the y field
    /// is ignored.
    pub fn op_8xye(&mut self, vx: u8)
        requires
            old(self).well_formed(),
            vx < 16,
        ensures
            final(self).well_formed(),
            final(self)@ == spec_shift_left(old(self)@, vx),
    {
        let v = self.registers[vx as usize];
        let doubled: u16 = 2 * (v as u16);
        self.registers[vx as usize] = (doubled % 256) as u8;
        self.registers[15] = v / 128;
    }

    /// The value of register I is set to nnn.
    pub fn op_annn(&mut self, nnn: usize)
        requires
            old(self).well_formed(),
            nnn < 4096,
        ensures
            final(self).well_formed(),
            final(self)@ == (MachineView { i: nnn, ..old(self)@ }),
    {
        self.i = nnn;
    }

    /// The program counter is set to nnn plus V0, wrapping in the address
    /// space.
    pub fn op_bnnn(&mut self, nnn: usize)
        requires
            old(self).well_formed(),
            nnn < 4096,
        ensures
            final(self).well_formed(),
            final(self)@ == (MachineView {
                pc: ((nnn + old(self)@.registers[0]) % 4096) as usize,
                ..old(self)@
            }),
    {
        self.program_counter = (nnn + self.registers[0] as usize) % 4096;
    }

    /// Draw a random byte, AND it with kk, and store the result in Vx.
    pub fn op_cxkk(&mut self, vx: u8, kk: u8)
        requires
            old(self).well_formed(),
            vx < 16,
        ensures
            final(self).well_formed(),
            exists|rb: u8| final(self)@ == spec_random(old(self)@, vx, kk, rb),
    {
        let rb = random_byte();
        self.apply_random(vx, kk, rb);
        proof {
            assert(self@ == spec_random(old(self)@, vx, kk, rb));
        }
    }

    /// The deterministic tail of the random instruction: store `rb & kk`
    /// into Vx, for the byte `rb` the generator handed out.
    pub fn apply_random(&mut self, vx: u8, kk: u8, rb: u8)
        requires
            old(self).well_formed(),
            vx < 16,
        ensures
            final(self).well_formed(),
            final(self)@ == spec_random(old(self)@, vx, kk, rb),
    {
        self.registers[vx as usize] = rb & kk;
    }

    /// The values of I and Vx are added, wrapping in the address space, and
    /// the result is stored in I.
    pub fn op_fx1e(&mut self, vx: u8)
        requires
            old(self).well_formed(),
            vx < 16,
        ensures
            final(self).well_formed(),
            final(self)@ == spec_add_index(old(self)@, vx),
    {
        self.i = (self.i + self.registers[vx as usize] as usize) % 4096;
    }

    /// Point I at the font glyph for the low nibble of Vx: glyph d lives at
    /// memory offset 5 * d.
    pub fn op_fx29(&mut self, vx: u8)
        requires
            old(self).well_formed(),
            vx < 16,
        ensures
            final(self).well_formed(),
            final(self)@ == spec_font_addr(old(self)@, vx),
    {
        let d = self.registers[vx as usize] % 16;
        self.i = 5 * (d as usize);
    }

    /// Skip the next instruction if the key numbered by Vx is pressed. A
    /// value of Vx past the sixteen keys never indexes the pad and counts as
    /// not pressed.
    pub fn op_ex9e(&mut self, vx: u8)
        requires
            old(self).well_formed(),
            vx < 16,
        ensures
            final(self).well_formed(),
            final(self)@ == spec_skip_if(
                old(self)@,
                spec_key_pressed(old(self)@, old(self)@.reg(vx)),
            ),
    {
        let key = self.registers[vx as usize];
        if key < 16 && self.keypad[key as usize] {
            self.advance();
        }
    }

    /// Skip the next instruction if the key numbered by Vx is not pressed.
    /// A value of Vx past the sixteen keys counts as not pressed.
    pub fn op_exa1(&mut self, vx: u8)
        requires
            old(self).well_formed(),
            vx < 16,
        ensures
            final(self).well_formed(),
            final(self)@ == spec_skip_if(
                old(self)@,
                !spec_key_pressed(old(self)@, old(self)@.reg(vx)),
            ),
    {
        let key = self.registers[vx as usize];
        if !(key < 16 && self.keypad[key as usize]) {
            self.advance();
        }
    }

    /// Set Vx to the delay timer value.
    pub fn op_fx07(&mut self, vx: u8)
        requires
            old(self).well_formed(),
            vx < 16,
        ensures
            final(self).well_formed(),
            final(self)@ == old(self)@.set_reg(vx, old(self)@.delay),
    {
        self.registers[vx as usize] = self.delay_timer;
    }

    /// Arm the wait-for-key state: until a key is pressed the cycle fetches
    /// nothing, and the pressed key's index will land in Vx.
    pub fn op_fx0a(&mut self, vx: u8)
        requires
            old(self).well_formed(),
            vx < 16,
        ensures
            final(self).well_formed(),
            final(self)@ == (MachineView { waiting: true, wait_reg: vx, ..old(self)@ }),
    {
        self.waiting_for_keypress = true;
        self.keypad_pressed = vx;
    }

    /// Set the delay timer to Vx.
    pub fn op_fx15(&mut self, vx: u8)
        requires
            old(self).well_formed(),
            vx < 16,
        ensures
            final(self).well_formed(),
            final(self)@ == (MachineView { delay: old(self)@.reg(vx), ..old(self)@ }),
    {
        self.delay_timer = self.registers[vx as usize];
    }

    /// Set the sound timer to Vx.
    pub fn op_fx18(&mut self, vx: u8)
        requires
            old(self).well_formed(),
            vx < 16,
        ensures
            final(self).well_formed(),
            final(self)@ == (MachineView { sound: old(self)@.reg(vx), ..old(self)@ }),
    {
        self.sound_timer = self.registers[vx as usize];
    }

    /// Write the decimal digits of Vx to memory: hundreds at I, tens at
    /// I + 1, ones at I + 2, wrapping in the address space; I is unchanged.
    pub fn op_fx33(&mut self, vx: u8)
        requires
            old(self).well_formed(),
            vx < 16,
        ensures
            final(self).well_formed(),
            final(self)@ == spec_store_bcd(old(self)@, vx),
    {
        let v = self.registers[vx as usize];
        let i = self.i;
        self.memory[i] = v / 100;
        self.memory[(i + 1) % 4096] = (v / 10) % 10;
        self.memory[(i + 2) % 4096] = v % 10;
    }

    /// Copy registers V0..=Vx into memory starting at I, wrapping in the
    /// address space; I is unchanged.
    pub fn op_fx55(&mut self, x: u8)
        requires
            old(self).well_formed(),
            x < 16,
        ensures
            final(self).well_formed(),
            final(self)@ == spec_store_regs(old(self)@, x),
    {
        let cnt = x as usize + 1;
        let mut k: usize = 0;
        while k < cnt
            invariant
                old(self).well_formed(),
                cnt == x + 1,
                x < 16,
                k <= cnt,
                self.memory@.len() == 4096,
                self@ == (MachineView {
                    memory: store_block(
                        old(self)@.memory,
                        old(self)@.registers,
                        old(self)@.i as int,
                        k as int,
                    ),
                    ..old(self)@
                }),
            decreases cnt - k,
        {
            self.memory[(self.i + k) % 4096] = self.registers[k];
            k = k + 1;
        }
    }

    /// Load registers V0..=Vx from memory starting at I, wrapping in the
    /// address space; I is unchanged.
    pub fn op_fx65(&mut self, x: u8)
        requires
            old(self).well_formed(),
            x < 16,
        ensures
            final(self).well_formed(),
            final(self)@ == spec_load_regs(old(self)@, x),
    {
        let cnt = x as usize + 1;
        let mut k: usize = 0;
        while k < cnt
            invariant
                old(self).well_formed(),
                cnt == x + 1,
                x < 16,
                k <= cnt,
                self.registers@.len() == 16,
                self@ == (MachineView {
                    registers: load_block(
                        old(self)@.registers,
                        old(self)@.memory,
                        old(self)@.i as int,
                        k as int,
                    ),
                    ..old(self)@
                }),
            decreases cnt - k,
        {
            self.registers[k] = self.memory[(self.i + k) % 4096];
            k = k + 1;
        }
    }

    /// Draw an n-row sprite read from memory at I at the origin (Vx, Vy),
    /// taken modulo the display size. Cells are toggled bit by bit, both
    /// axes wrap, and the flag register reports whether any toggle hit a
    /// cell that was already on.
    pub fn op_dxyn(&mut self, n: usize, vx: u8, vy: u8)
        requires
            old(self).well_formed(),
            vx < 16,
            vy < 16,
            n < 16,
        ensures
            final(self).well_formed(),
            final(self)@ == spec_draw(old(self)@, vx, vy, n),
    {
        let ghost s0 = old(self)@;
        let x0 = (self.registers[vx as usize] % 64) as usize;
        let y0 = (self.registers[vy as usize] % 32) as usize;
        let ghost x0i = s0.reg(vx) as int % 64;
        let ghost y0i = s0.reg(vy) as int % 32;
        let i0 = self.i;
        proof {
            lemma_xor_bits();
        }
        self.registers[15] = 0;
        let end = 8 * n;
        let mut t: usize = 0;
        while t < end
            invariant
                s0.wf(),
                vx < 16,
                vy < 16,
                n < 16,
                end == 8 * n,
                t <= end,
                x0 == x0i,
                y0 == y0i,
                0 <= x0i < 64,
                0 <= y0i < 32,
                i0 == s0.i,
                i0 < 4096,
                self.display@.len() == 2048,
                self.registers@.len() == 16,
                self@ == (MachineView { display: self.display@, registers: self.registers@, ..s0 }),
                self.registers@ == s0.registers.update(
                    15,
                    if collision_upto(s0.display, s0.memory, i0 as int, t as int, x0i, y0i) {
                        1u8
                    } else {
                        0u8
                    },
                ),
                forall|p: int|
                    0 <= p < 2048 ==> #[trigger] self.display@[p] == (s0.display[p] ^ draw_bit_upto(
                        s0.memory,
                        i0 as int,
                        t as int,
                        x0i,
                        y0i,
                        p % 64,
                        p / 64,
                    )),
            decreases end - t,
        {
            proof {
                lemma_xor_bits();
            }
            let r = t / 8;
            let b = t % 8;
            proof {
                lemma_fundamental_div_mod(t as int, 8);
                lemma_mod_division_less_than_divisor(t as int, 8);
                lemma_mod_near(i0 as int + r as int, 4096);
                lemma_mod_near(x0i + b as int, 64);
                lemma_mod_near(y0i + r as int, 32);
                lemma_wrap_roundtrip(y0i, r as int, 32);
                lemma_wrap_roundtrip(x0i, b as int, 64);
            }
            let byte = self.memory[(i0 + r) % 4096];
            let px = (x0 + b) % 64;
            let py = (y0 + r) % 32;
            let idx = py * 64 + px;
            let sbit = (byte >> ((7 - b) as u8)) & 1;
            proof {
                lemma_fundamental_div_mod_converse_div(idx as int, 64, py as int, px as int);
                lemma_fundamental_div_mod_converse_mod(idx as int, 64, py as int, px as int);
            }
            let ghost told = t as int;
            let ghost flag_old = self.registers@[15];
            let scr = self.display[idx];
            if scr == 1 && sbit == 1 {
                self.registers[15] = 1;
            }
            self.display[idx] = scr ^ sbit;
            t = t + 1;
            proof {
                let tn = told + 1;
                assert(self.registers@ =~= s0.registers.update(
                    15,
                    if flag_old == 1 || (scr == 1 && sbit == 1) {
                        1u8
                    } else {
                        0u8
                    },
                ));
                // the written cell now carries its sprite bit; every other
                // cell is as before, and write `told` touched none of them
                assert forall|p: int|
                    0 <= p < 2048 implies #[trigger] self.display@[p] == (s0.display[p]
                    ^ draw_bit_upto(s0.memory, i0 as int, tn, x0i, y0i, p % 64, p / 64)) by {
                    if p == idx as int {
                        assert(draw_bit_upto(s0.memory, i0 as int, told, x0i, y0i, p % 64, p / 64)
                            == 0);
                        assert(draw_bit_upto(s0.memory, i0 as int, tn, x0i, y0i, p % 64, p / 64)
                            == sbit);
                    } else {
                        lemma_untouched_cell(
                            s0.memory,
                            i0 as int,
                            told,
                            x0i,
                            y0i,
                            p,
                            idx as int,
                            r as int,
                            b as int,
                            px as int,
                            py as int,
                        );
                    }
                }
                // the flag goes to 1 in this step exactly when the write
                // collided, so it still mirrors the collisions so far
                assert(collision_upto(s0.display, s0.memory, i0 as int, tn, x0i, y0i) <==> (
                collision_upto(s0.display, s0.memory, i0 as int, told, x0i, y0i) || (s0.display[idx
                    as int] == 1 && sbit == 1))) by {
                    if collision_upto(s0.display, s0.memory, i0 as int, tn, x0i, y0i) {
                        let p = choose|p: int|
                            0 <= p < 2048 && s0.display[p] == 1 && draw_bit_upto(
                                s0.memory,
                                i0 as int,
                                tn,
                                x0i,
                                y0i,
                                p % 64,
                                p / 64,
                            ) == 1;
                        if p != idx as int {
                            lemma_untouched_cell(
                                s0.memory,
                                i0 as int,
                                told,
                                x0i,
                                y0i,
                                p,
                                idx as int,
                                r as int,
                                b as int,
                                px as int,
                                py as int,
                            );
                            assert(draw_bit_upto(
                                s0.memory,
                                i0 as int,
                                told,
                                x0i,
                                y0i,
                                p % 64,
                                p / 64,
                            ) == 1);
                            assert(collision_upto(s0.display, s0.memory, i0 as int, told, x0i, y0i));
                        } else {
                            assert(draw_bit_upto(s0.memory, i0 as int, tn, x0i, y0i, p % 64, p / 64)
                                == sbit);
                        }
                    }
                    if collision_upto(s0.display, s0.memory, i0 as int, told, x0i, y0i) {
                        let p = choose|p: int|
                            0 <= p < 2048 && s0.display[p] == 1 && draw_bit_upto(
                                s0.memory,
                                i0 as int,
                                told,
                                x0i,
                                y0i,
                                p % 64,
                                p / 64,
                            ) == 1;
                        assert(draw_bit_upto(s0.memory, i0 as int, tn, x0i, y0i, p % 64, p / 64)
                            == 1);
                        assert(collision_upto(s0.display, s0.memory, i0 as int, tn, x0i, y0i));
                    }
                    if s0.display[idx as int] == 1 && sbit == 1 {
                        assert(draw_bit_upto(
                            s0.memory,
                            i0 as int,
                            tn,
                            x0i,
                            y0i,
                            idx as int % 64,
                            idx as int / 64,
                        ) == 1);
                        assert(collision_upto(s0.display, s0.memory, i0 as int, tn, x0i, y0i));
                    }
                }
            }
        }
        proof {
            lemma_xor_bits();
            let ghost ni = n as int;
            assert forall|px: int, py: int|
                0 <= px < 64 && 0 <= py < 32 implies #[trigger] draw_bit_upto(
                s0.memory,
                i0 as int,
                8 * ni,
                x0i,
                y0i,
                px,
                py,
            ) == draw_bit(s0.memory, i0 as int, ni, x0i, y0i, px, py) by {}
            assert(self.display@ =~= draw_display(s0.display, s0.memory, i0 as int, ni, x0i, y0i));
            assert(collision_upto(s0.display, s0.memory, i0 as int, 8 * ni, x0i, y0i)
                <==> draw_collision(s0.display, s0.memory, i0 as int, ni, x0i, y0i)) by {
                if collision_upto(s0.display, s0.memory, i0 as int, 8 * ni, x0i, y0i) {
                    let p = choose|p: int|
                        0 <= p < 2048 && s0.display[p] == 1 && draw_bit_upto(
                            s0.memory,
                            i0 as int,
                            8 * ni,
                            x0i,
                            y0i,
                            p % 64,
                            p / 64,
                        ) == 1;
                    assert(draw_bit(s0.memory, i0 as int, ni, x0i, y0i, p % 64, p / 64) == 1);
                    assert(draw_collision(s0.display, s0.memory, i0 as int, ni, x0i, y0i));
                }
                if draw_collision(s0.display, s0.memory, i0 as int, ni, x0i, y0i) {
                    let p = choose|p: int|
                        0 <= p < 2048 && s0.display[p] == 1 && draw_bit(
                            s0.memory,
                            i0 as int,
                            ni,
                            x0i,
                            y0i,
                            p % 64,
                            p / 64,
                        ) == 1;
                    assert(draw_bit_upto(s0.memory, i0 as int, 8 * ni, x0i, y0i, p % 64, p / 64)
                        == 1);
                    assert(collision_upto(s0.display, s0.memory, i0 as int, 8 * ni, x0i, y0i));
                }
            }
            assert(self@ == spec_draw(s0, vx, vy, n));
            // every cell of the new display is a one-bit toggle of one-bit
            // cells, so the display stays well formed
            assert forall|p: int| 0 <= p < 2048 implies #[trigger] self.display@[p] == 0
                || self.display@[p] == 1 by {
                assert(self.display@[p] == (s0.display[p] ^ draw_bit(
                    s0.memory,
                    i0 as int,
                    ni,
                    x0i,
                    y0i,
                    p % 64,
                    p / 64,
                )));
            }
        }
    }

    /// One poll of the keypad while a wait-for-key is pending: if some key
    /// is pressed, the lowest such index lands in the target register and
    /// the wait ends; otherwise nothing changes.
    fn poll_key(&mut self)
        requires
            old(self).well_formed(),
            old(self)@.waiting,
        ensures
            final(self).well_formed(),
            final(self)@ == spec_wait_poll(old(self)@),
    {
        let mut k: usize = 0;
        while k < 16
            invariant
                old(self).well_formed(),
                old(self)@.waiting,
                k <= 16,
                self@ == old(self)@,
                first_pressed_from(old(self)@.keypad, 0) == first_pressed_from(
                    old(self)@.keypad,
                    k as int,
                ),
            decreases 16 - k,
        {
            if self.keypad[k] {
                self.waiting_for_keypress = false;
                let reg = self.keypad_pressed;
                self.registers[reg as usize] = k as u8;
                return ;
            }
            k = k + 1;
        }
    }

    /// One fetch-decode-execute cycle, exact to the model's step function.
    ///
    /// While a wait-for-key is pending only the keypad poll runs. Otherwise
    /// the word at the program counter is fetched and decoded; an undefined
    /// encoding, a call on a full stack and a return on an empty stack are
    /// reported as fatal errors with the machine left unchanged, so the
    /// reported program counter is the address of the offending instruction.
    /// On success the program counter advances past the instruction before
    /// it takes effect. The drawn byte of the random instruction is the one
    /// thing the caller cannot predict: the contract promises a step for
    /// some byte, and for every other instruction the step is the same
    /// whatever the byte.
    pub fn tick(&mut self) -> (r: Result<(), Chip8Error>)
        requires
            old(self).well_formed(),
        ensures
            final(self).well_formed(),
            match r {
                Ok(()) => exists|rb: u8|
                    spec_step(old(self)@, rb) == Ok::<MachineView, Chip8Error>(final(self)@),
                Err(e) => spec_step(old(self)@, 0) == Err::<MachineView, Chip8Error>(e)
                    && final(self)@ == old(self)@,
            },
    {
        let ghost s0 = old(self)@;
        if self.waiting_for_keypress {
            self.poll_key();
            proof {
                assert(spec_step(s0, 0) == Ok::<MachineView, Chip8Error>(self@));
            }
            return Ok(());
        }
        let pc = self.program_counter;
        let hi = self.memory[pc];
        let lo = self.memory[(pc + 1) % 4096];
        let op: u16 = ((hi as u16) << 8u16) | (lo as u16);
        proof {
            assert(op == spec_fetch(s0));
        }
        match decode(op) {
            None => {
                proof {
                    assert(spec_step(s0, 0) == Err::<MachineView, Chip8Error>(
                        Chip8Error::UnknownOpcode { opcode: op, pc },
                    ));
                }
                Err(Chip8Error::UnknownOpcode { opcode: op, pc })
            },
            Some(instr) => {
                match instr {
                    Instr::Cls => {
                        self.advance();
                        self.op_00E0();
                    },
                    Instr::Ret => {
                        if self.stack_pointer == 0 {
                            return Err(Chip8Error::StackUnderflow { depth: 0 });
                        }
                        self.advance();
                        self.op_00EE();
                    },
                    Instr::Jump { nnn } => {
                        self.advance();
                        self.op_1nnn(nnn);
                    },
                    Instr::Call { nnn } => {
                        if self.stack_pointer >= 16 {
                            let depth = self.stack_pointer;
                            return Err(Chip8Error::StackOverflow { depth });
                        }
                        self.advance();
                        self.op_2nnn(nnn);
                    },
                    Instr::SkipEqImm { x, kk } => {
                        self.advance();
                        self.op_3xkk(x, kk);
                    },
                    Instr::SkipNeImm { x, kk } => {
                        self.advance();
                        self.op_4xkk(x, kk);
                    },
                    Instr::SkipEqReg { x, y } => {
                        self.advance();
                        self.op_5xy0(x, y);
                    },
                    Instr::LoadImm { x, kk } => {
                        self.advance();
                        self.op_6xkk(x, kk);
                    },
                    Instr::AddImm { x, kk } => {
                        self.advance();
                        self.op_7xkk(x, kk);
                    },
                    Instr::Move { x, y } => {
                        self.advance();
                        self.op_8xy0(x, y);
                    },
                    Instr::Or { x, y } => {
                        self.advance();
                        self.op_8xy1(x, y);
                    },
                    Instr::And { x, y } => {
                        self.advance();
                        self.op_8xy2(x, y);
                    },
                    Instr::Xor { x, y } => {
                        self.advance();
                        self.op_8xy3(x, y);
                    },
                    Instr::AddReg { x, y } => {
                        self.advance();
                        self.op_8xy4(x, y);
                    },
                    Instr::SubReg { x, y } => {
                        self.advance();
                        self.op_8xy5(x, y);
                    },
                    Instr::ShiftRight { x } => {
                        self.advance();
                        self.op_8xy6(x);
                    },
                    Instr::SubFrom { x, y } => {
                        self.advance();
                        self.op_8xy7(x, y);
                    },
                    Instr::ShiftLeft { x } => {
                        self.advance();
                        self.op_8xye(x);
                    },
                    Instr::SkipNeReg { x, y } => {
                        self.advance();
                        self.op_9xy0(x, y);
                    },
                    Instr::LoadIndex { nnn } => {
                        self.advance();
                        self.op_annn(nnn);
                    },
                    Instr::JumpOffset { nnn } => {
                        self.advance();
                        self.op_bnnn(nnn);
                    },
                    Instr::Random { x, kk } => {
                        self.advance();
                        self.op_cxkk(x, kk);
                        proof {
                            let rb = choose|rb: u8|
                                self@ == spec_random(s0.advance_pc(), x, kk, rb);
                            assert(spec_step(s0, rb) == Ok::<MachineView, Chip8Error>(self@));
                        }
                        return Ok(());
                    },
                    Instr::Draw { x, y, n } => {
                        self.advance();
                        self.op_dxyn(n, x, y);
                    },
                    Instr::SkipKey { x } => {
                        self.advance();
                        self.op_ex9e(x);
                    },
                    Instr::SkipNoKey { x } => {
                        self.advance();
                        self.op_exa1(x);
                    },
                    Instr::ReadDelay { x } => {
                        self.advance();
                        self.op_fx07(x);
                    },
                    Instr::WaitKey { x } => {
                        self.advance();
                        self.op_fx0a(x);
                    },
                    Instr::SetDelay { x } => {
                        self.advance();
                        self.op_fx15(x);
                    },
                    Instr::SetSound { x } => {
                        self.advance();
                        self.op_fx18(x);
                    },
                    Instr::AddIndex { x } => {
                        self.advance();
                        self.op_fx1e(x);
                    },
                    Instr::FontAddr { x } => {
                        self.advance();
                        self.op_fx29(x);
                    },
                    Instr::StoreBcd { x } => {
                        self.advance();
                        self.op_fx33(x);
                    },
                    Instr::StoreRegs { x } => {
                        self.advance();
                        self.op_fx55(x);
                    },
                    Instr::LoadRegs { x } => {
                        self.advance();
                        self.op_fx65(x);
                    },
                }
                proof {
                    assert(spec_step(s0, 0) == Ok::<MachineView, Chip8Error>(self@));
                }
                Ok(())
            },
        }
    }

    /// One timer tick: each countdown timer decrements toward its floor of
    /// zero. The host invokes this at its own fixed rate, independent of
    /// how many instruction cycles it runs per tick.
    pub fn timer_tick(&mut self)
        requires
            old(self).well_formed(),
        ensures
            final(self).well_formed(),
            final(self)@ == (MachineView {
                delay: if old(self)@.delay > 0 {
                    (old(self)@.delay - 1) as u8
                } else {
                    0u8
                },
                sound: if old(self)@.sound > 0 {
                    (old(self)@.sound - 1) as u8
                } else {
                    0u8
                },
                ..old(self)@
            }),
    {
        if self.delay_timer > 0 {
            self.delay_timer = self.delay_timer - 1;
        }
        if self.sound_timer > 0 {
            self.sound_timer = self.sound_timer - 1;
        }
    }

    /// Host input: set the pressed state of one logical key; indices past
    /// the sixteen keys are ignored.
    pub fn set_key(&mut self, key: usize, pressed: bool)
        requires
            old(self).well_formed(),
        ensures
            final(self).well_formed(),
            final(self)@ == if key < 16 {
                (MachineView { keypad: old(self)@.keypad.update(key as int, pressed), ..old(self)@ })
            } else {
                old(self)@
            },
    {
        if key < 16 {
            self.keypad[key] = pressed;
        }
    }

    /// Host output: read one display cell; true means the pixel is on.
    pub fn pixel(&self, x: usize, y: usize) -> (on: bool)
        requires
            self.well_formed(),
            x < 64,
            y < 32,
        ensures
            on == (self@.display[y * 64 + x] == 1),
    {
        self.display[y * 64 + x] == 1
    }

    /// Host output: whether the sound timer is running, which the host
    /// treats as "buzzer on".
    pub fn sound_active(&self) -> (on: bool)
        ensures
            on == (self@.sound > 0),
    {
        self.sound_timer > 0
    }
}

} // verus!
