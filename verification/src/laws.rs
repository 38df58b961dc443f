//! Laws of the instruction set, stated and proved over the model: flag
//! exactness, the toggle-draw round trip, call/return, block store/load,
//! and the program-counter arithmetic of the skips.
use vstd::prelude::*;

use crate::arith::lemma_double_advance;
use crate::arith::lemma_mod_near;
use crate::arith::lemma_wrap_injective;
use crate::arith::lemma_wrap_roundtrip;
use crate::arith::lemma_xor_bits;
use crate::model::Chip8Error;
use crate::model::Instr;
use crate::model::MachineView;
use crate::model::draw_bit;
use crate::model::draw_collision;
use crate::model::draw_display;
use crate::model::load_block;
use crate::model::spec_add_reg;
use crate::model::spec_call;
use crate::model::spec_clear;
use crate::model::spec_decode;
use crate::model::spec_draw;
use crate::model::spec_fetch;
use crate::model::spec_return;
use crate::model::spec_shift_left;
use crate::model::spec_shift_right;
use crate::model::spec_step;
use crate::model::spec_sub_from;
use crate::model::spec_sub_reg;
use crate::model::sprite_bit;
use crate::model::store_block;
use crate::model::is_random_cycle;
use vstd::arithmetic::div_mod::lemma_fundamental_div_mod;
use vstd::arithmetic::div_mod::lemma_fundamental_div_mod_converse_div;
use vstd::arithmetic::div_mod::lemma_fundamental_div_mod_converse_mod;
use vstd::arithmetic::div_mod::lemma_mod_division_less_than_divisor;

verus! {

/// Law: on every cycle that does not execute the random instruction, the
/// step function gives the same outcome whatever byte the generator hands
/// out.
pub proof fn lemma_step_deterministic(s: MachineView, rb1: u8, rb2: u8)
    requires
        !is_random_cycle(s),
    ensures
        spec_step(s, rb1) == spec_step(s, rb2),
{
}

/// Law: every operation that defines a carry, borrow or shifted-out bit
/// writes the flag register to exactly 0 or 1, and the value is fully
/// determined by the stated comparison on the old operands.
pub proof fn lemma_flag_register_exact(s: MachineView, x: u8, y: u8)
    requires
        s.wf(),
        x < 16,
        y < 16,
    ensures
        spec_add_reg(s, x, y).reg(15) == if s.reg(x) + s.reg(y) > 255 {
            1u8
        } else {
            0u8
        },
        spec_sub_reg(s, x, y).reg(15) == if s.reg(x) >= s.reg(y) {
            1u8
        } else {
            0u8
        },
        spec_sub_from(s, x, y).reg(15) == if s.reg(y) >= s.reg(x) {
            1u8
        } else {
            0u8
        },
        spec_shift_right(s, x).reg(15) == s.reg(x) % 2,
        spec_shift_right(s, x).reg(15) <= 1,
        spec_shift_left(s, x).reg(15) == s.reg(x) / 128,
        spec_shift_left(s, x).reg(15) <= 1,
{
    lemma_fundamental_div_mod(s.reg(x) as int, 128);
    lemma_mod_division_less_than_divisor(s.reg(x) as int, 128);
    lemma_mod_division_less_than_divisor(s.reg(x) as int, 2);
}

/// Law: the flag written by a draw is 0 or 1 and is 1 exactly when some
/// cell that was already on receives a set sprite bit.
pub proof fn lemma_draw_flag_exact(s: MachineView, x: u8, y: u8, n: usize)
    requires
        s.wf(),
        x < 16,
        y < 16,
        n < 16,
    ensures
        spec_draw(s, x, y, n).reg(15) == if draw_collision(
            s.display,
            s.memory,
            s.i as int,
            n as int,
            s.reg(x) as int % 64,
            s.reg(y) as int % 32,
        ) {
            1u8
        } else {
            0u8
        },
{
}

/// Law: after a display clear, reading any cell yields off.
pub proof fn lemma_clear_all_off(s: MachineView, p: int)
    requires
        s.wf(),
        0 <= p < 2048,
    ensures
        spec_clear(s).display[p] == 0,
{
}

/// Law: toggling the same sprite onto the display twice restores every
/// cell, whatever the display held before.
pub proof fn lemma_draw_self_inverse(
    disp: Seq<u8>,
    mem: Seq<u8>,
    i: int,
    n: int,
    x0: int,
    y0: int,
)
    requires
        disp.len() == 2048,
    ensures
        draw_display(draw_display(disp, mem, i, n, x0, y0), mem, i, n, x0, y0) == disp,
{
    lemma_xor_bits();
    assert(draw_display(draw_display(disp, mem, i, n, x0, y0), mem, i, n, x0, y0) =~= disp);
}

/// Law: after a sprite with some set bit within its n rows is drawn onto
/// an all-off display, drawing it again reports a collision. An all-zero
/// sprite is the one input excluded: it lights no cell, so its second draw
/// collides with nothing.
pub proof fn lemma_second_draw_collides(
    disp: Seq<u8>,
    mem: Seq<u8>,
    i: int,
    n: int,
    x0: int,
    y0: int,
    r: int,
    b: int,
)
    requires
        disp.len() == 2048,
        mem.len() == 4096,
        forall|p: int| 0 <= p < 2048 ==> #[trigger] disp[p] == 0,
        0 <= x0 < 64,
        0 <= y0 < 32,
        0 <= i < 4096,
        0 <= n < 16,
        0 <= r < n,
        0 <= b < 8,
        sprite_bit(mem[(i + r) % 4096], b) == 1,
    ensures
        draw_collision(draw_display(disp, mem, i, n, x0, y0), mem, i, n, x0, y0),
{
    lemma_xor_bits();
    let py = (y0 + r) % 32;
    let px = (x0 + b) % 64;
    lemma_mod_near(y0 + r, 32);
    lemma_mod_near(x0 + b, 64);
    let p = py * 64 + px;
    lemma_fundamental_div_mod_converse_div(p, 64, py, px);
    lemma_fundamental_div_mod_converse_mod(p, 64, py, px);
    lemma_wrap_roundtrip(y0, r, 32);
    lemma_wrap_roundtrip(x0, b, 64);
    assert(draw_bit(mem, i, n, x0, y0, p % 64, p / 64) == 1);
    assert(draw_display(disp, mem, i, n, x0, y0)[p] == 1);
}

/// Law: a subroutine call followed by a return leaves the machine as it
/// was, except that the called-from address now sits in the frame the call
/// used; in particular the program counter is back at the instruction
/// after the call. This holds at every depth below 16.
pub proof fn lemma_call_return_round_trip(s: MachineView, nnn: usize)
    requires
        s.wf(),
        s.sp < 16,
        nnn < 4096,
    ensures
        spec_call(s, nnn).pc == nnn,
        spec_return(spec_call(s, nnn)) == (MachineView {
            stack: s.stack.update(s.sp as int, s.pc as u16),
            ..s
        }),
{
}

/// Law: a seventeenth nested call is rejected as a stack overflow, with
/// the machine unchanged.
pub proof fn lemma_call_overflow(s: MachineView, rb: u8)
    requires
        s.wf(),
        !s.waiting,
        s.sp == 16,
        spec_decode(spec_fetch(s)) matches Some(Instr::Call { .. }),
    ensures
        spec_step(s, rb) == Err::<MachineView, Chip8Error>(
            Chip8Error::StackOverflow { depth: 16 },
        ),
{
}

/// A block store keeps the memory size.
proof fn lemma_store_block_len(mem: Seq<u8>, regs: Seq<u8>, i: int, cnt: int)
    requires
        mem.len() == 4096,
        0 <= i < 4096,
        cnt <= 16,
    ensures
        store_block(mem, regs, i, cnt).len() == mem.len(),
    decreases cnt,
{
    if cnt > 0 {
        lemma_mod_near(i + cnt - 1, 4096);
        lemma_store_block_len(mem, regs, i, cnt - 1);
    }
}

/// A block load keeps the register-file size.
proof fn lemma_load_block_len(regs: Seq<u8>, mem: Seq<u8>, i: int, cnt: int)
    requires
        regs.len() == 16,
        cnt <= 16,
    ensures
        load_block(regs, mem, i, cnt).len() == regs.len(),
    decreases cnt,
{
    if cnt > 0 {
        lemma_load_block_len(regs, mem, i, cnt - 1);
    }
}

/// A block store of `cnt` registers puts register k at the wrapped cell
/// I + k.
proof fn lemma_store_block_at(mem: Seq<u8>, regs: Seq<u8>, i: int, cnt: int, k: int)
    requires
        mem.len() == 4096,
        0 <= i < 4096,
        0 <= k < cnt <= 16,
    ensures
        store_block(mem, regs, i, cnt)[(i + k) % 4096] == regs[k],
    decreases cnt,
{
    lemma_mod_near(i + cnt - 1, 4096);
    lemma_mod_near(i + k, 4096);
    lemma_store_block_len(mem, regs, i, cnt - 1);
    if k == cnt - 1 {
    } else {
        lemma_store_block_at(mem, regs, i, cnt - 1, k);
        if (i + k) % 4096 == (i + cnt - 1) % 4096 {
            lemma_wrap_injective(i, k, cnt - 1, 4096);
        }
    }
}

/// A block load of `cnt` registers reads register k from the wrapped cell
/// I + k.
proof fn lemma_load_block_at(regs: Seq<u8>, mem: Seq<u8>, i: int, cnt: int, k: int)
    requires
        regs.len() == 16,
        0 <= k < cnt <= 16,
    ensures
        load_block(regs, mem, i, cnt)[k] == mem[(i + k) % 4096],
    decreases cnt,
{
    lemma_load_block_len(regs, mem, i, cnt - 1);
    if k < cnt - 1 {
        lemma_load_block_at(regs, mem, i, cnt - 1, k);
    }
}

/// A block load of `cnt` registers leaves the registers above it alone.
proof fn lemma_load_block_high(regs: Seq<u8>, mem: Seq<u8>, i: int, cnt: int, k: int)
    requires
        regs.len() == 16,
        0 <= cnt <= k < 16,
    ensures
        load_block(regs, mem, i, cnt)[k] == regs[k],
    decreases cnt,
{
    if cnt > 0 {
        lemma_load_block_len(regs, mem, i, cnt - 1);
        lemma_load_block_high(regs, mem, i, cnt - 1, k);
    }
}

/// Law: a register block store followed by a block load of the same count
/// from the same address restores registers 0..=x exactly, whatever the
/// register file held in between; the registers above x keep the
/// in-between values.
pub proof fn lemma_block_round_trip(
    mem: Seq<u8>,
    regs: Seq<u8>,
    between: Seq<u8>,
    i: int,
    cnt: int,
)
    requires
        mem.len() == 4096,
        regs.len() == 16,
        between.len() == 16,
        0 <= i < 4096,
        0 <= cnt <= 16,
    ensures
        forall|k: int|
            0 <= k < cnt ==> #[trigger] load_block(
                between,
                store_block(mem, regs, i, cnt),
                i,
                cnt,
            )[k] == regs[k],
        forall|k: int|
            cnt <= k < 16 ==> #[trigger] load_block(
                between,
                store_block(mem, regs, i, cnt),
                i,
                cnt,
            )[k] == between[k],
{
    assert forall|k: int| 0 <= k < cnt implies #[trigger] load_block(
        between,
        store_block(mem, regs, i, cnt),
        i,
        cnt,
    )[k] == regs[k] by {
        lemma_load_block_at(between, store_block(mem, regs, i, cnt), i, cnt, k);
        lemma_store_block_at(mem, regs, i, cnt, k);
    }
    assert forall|k: int| cnt <= k < 16 implies #[trigger] load_block(
        between,
        store_block(mem, regs, i, cnt),
        i,
        cnt,
    )[k] == between[k] by {
        lemma_load_block_high(between, store_block(mem, regs, i, cnt), i, cnt, k);
    }
}

/// Which instructions are the four conditional skips on register values.
pub open spec fn is_skip(instr: Instr) -> bool {
    ||| instr matches Instr::SkipEqImm { .. }
    ||| instr matches Instr::SkipNeImm { .. }
    ||| instr matches Instr::SkipEqReg { .. }
    ||| instr matches Instr::SkipNeReg { .. }
}

/// The condition a skip instruction tests, on the registers of `s`.
pub open spec fn skip_condition(s: MachineView, instr: Instr) -> bool {
    match instr {
        Instr::SkipEqImm { x, kk } => s.reg(x) == kk,
        Instr::SkipNeImm { x, kk } => s.reg(x) != kk,
        Instr::SkipEqReg { x, y } => s.reg(x) == s.reg(y),
        Instr::SkipNeReg { x, y } => s.reg(x) != s.reg(y),
        _ => false,
    }
}

/// Law: each of the four conditional skips advances the program counter by
/// four in all when its condition holds, and by two when it does not,
/// modulo the address space; nothing else changes.
pub proof fn lemma_skip_advance(s: MachineView, instr: Instr, rb: u8)
    requires
        s.wf(),
        !s.waiting,
        spec_decode(spec_fetch(s)) == Some(instr),
        is_skip(instr),
    ensures
        spec_step(s, rb) == Ok::<MachineView, Chip8Error>(
            MachineView {
                pc: (if skip_condition(s, instr) {
                    ((s.pc + 4) % 4096) as usize
                } else {
                    ((s.pc + 2) % 4096) as usize
                }),
                ..s
            },
        ),
{
    lemma_double_advance(s.pc as int);
}

} // verus!

