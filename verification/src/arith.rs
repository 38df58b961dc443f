//! Arithmetic lemmas about wrap-around addressing and byte-level bit
//! operations, shared by the interpreter proofs.
use vstd::prelude::*;

use vstd::arithmetic::div_mod::lemma_fundamental_div_mod_converse_mod;

verus! {

/// A value within one modulus of the `[0, m)` range reduces by at most one
/// addition or subtraction of `m`.
pub proof fn lemma_mod_near(v: int, m: int)
    requires
        m > 0,
        -m <= v < 2 * m,
    ensures
        v % m == if v < 0 {
            v + m
        } else if v < m {
            v
        } else {
            v - m
        },
{
    if v < 0 {
        lemma_fundamental_div_mod_converse_mod(v, m, -1, v + m);
    } else if v < m {
        lemma_fundamental_div_mod_converse_mod(v, m, 0, v);
    } else {
        lemma_fundamental_div_mod_converse_mod(v, m, 1, v - m);
    }
}

/// Wrapping an offset around a base and taking the base back out of the
/// wrapped cell recovers the offset.
pub proof fn lemma_wrap_roundtrip(base: int, off: int, m: int)
    requires
        m > 0,
        0 <= base < m,
        0 <= off < m,
    ensures
        ((base + off) % m - base) % m == off,
{
    lemma_mod_near(base + off, m);
    lemma_mod_near((base + off) % m - base, m);
}

/// Every cell is reached by exactly the offset recovered from it: adding
/// that offset back onto the base wraps to the cell itself.
pub proof fn lemma_wrap_complete(base: int, cell: int, m: int)
    requires
        m > 0,
        0 <= base < m,
        0 <= cell < m,
    ensures
        (base + ((cell - base) % m)) % m == cell,
{
    lemma_mod_near(cell - base, m);
    lemma_mod_near(base + ((cell - base) % m), m);
}

/// Distinct offsets below the modulus wrap to distinct cells.
pub proof fn lemma_wrap_injective(base: int, a: int, b: int, m: int)
    requires
        m > 0,
        0 <= base < m,
        0 <= a < m,
        0 <= b < m,
        (base + a) % m == (base + b) % m,
    ensures
        a == b,
{
    lemma_wrap_roundtrip(base, a, m);
    lemma_wrap_roundtrip(base, b, m);
}

/// Advancing a wrapped program counter twice by two is advancing it by four.
pub proof fn lemma_double_advance(pc: int)
    requires
        0 <= pc < 4096,
    ensures
        ((pc + 2) % 4096 + 2) % 4096 == (pc + 4) % 4096,
{
    lemma_mod_near(pc + 2, 4096);
    lemma_mod_near((pc + 2) % 4096 + 2, 4096);
    lemma_mod_near(pc + 4, 4096);
}

/// The decode fields of an opcode word are in range: a 12-bit address is
/// below 4096 and each register index or count nibble is below 16.
pub proof fn lemma_decode_field_bounds(op: u16)
    by (bit_vector)
    ensures
        (op & 0x0FFF) < 4096,
        ((op & 0x0F00) >> 8u16) < 16,
        ((op & 0x00F0) >> 4u16) < 16,
        (op & 0x000F) < 16,
{
}

/// Single-bit facts behind the sprite logic: an extracted bit is one-bit
/// wide, toggling with zero is the identity, toggling twice is the identity,
/// and toggling keeps one-bit cells one bit wide.
pub proof fn lemma_xor_bits()
    by (bit_vector)
    ensures
        forall|d: u8, s: u8| #[trigger] ((d ^ s) ^ s) == d,
        forall|d: u8| #[trigger] (d ^ 0) == d,
        forall|s: u8| #[trigger] (0 ^ s) == s,
        forall|d: u8, s: u8| d <= 1 && s <= 1 ==> #[trigger] (d ^ s) <= 1,
        forall|b: u8, k: u8| #[trigger] ((b >> k) & 1) <= 1,
{
}

} // verus!
