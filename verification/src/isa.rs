//! Word-level model of the instruction set: status-flag access, the
//! condition-code truth table, the barrel shifter, the ALU's result and flag
//! formulas, sign extension of branch offsets, and byte-order helpers.

use vstd::prelude::*;

verus! {

use crate::bit_utils::{bit_of, bits_of, with_bit, BitUtils};

/// Negative flag: bit 31 of the status word.
pub open spec fn flag_n(cpsr: u32) -> bool {
    bit_of(cpsr, 31) == 1
}

/// Zero flag: bit 30 of the status word.
pub open spec fn flag_z(cpsr: u32) -> bool {
    bit_of(cpsr, 30) == 1
}

/// Carry flag: bit 29 of the status word.
pub open spec fn flag_c(cpsr: u32) -> bool {
    bit_of(cpsr, 29) == 1
}

/// Overflow flag: bit 28 of the status word.
pub open spec fn flag_v(cpsr: u32) -> bool {
    bit_of(cpsr, 28) == 1
}

/// The status word with all four condition flags replaced; the low (mode)
/// bits are unchanged.
pub open spec fn cpsr_with_nzcv(cpsr: u32, n: bool, z: bool, c: bool, v: bool) -> u32 {
    with_bit(with_bit(with_bit(with_bit(cpsr, 31, n), 30, z), 29, c), 28, v)
}

/// The status word with Negative, Zero and Carry replaced and Overflow
/// unchanged, as a move-class flag update leaves it.
pub open spec fn cpsr_with_nzc(cpsr: u32, n: bool, z: bool, c: bool) -> u32 {
    with_bit(with_bit(with_bit(cpsr, 31, n), 30, z), 29, c)
}

/// The condition truth table: does a 4-bit condition field pass under the
/// given status word? Field 14 always executes; 15 is reserved and never
/// executes, as is any value above 15 (which a 4-bit field cannot hold).
pub open spec fn cond_holds(cond: u32, cpsr: u32) -> bool {
    if cond == 0 {
        flag_z(cpsr)
    } else if cond == 1 {
        !flag_z(cpsr)
    } else if cond == 2 {
        flag_c(cpsr)
    } else if cond == 3 {
        !flag_c(cpsr)
    } else if cond == 4 {
        flag_n(cpsr)
    } else if cond == 5 {
        !flag_n(cpsr)
    } else if cond == 6 {
        flag_v(cpsr)
    } else if cond == 7 {
        !flag_v(cpsr)
    } else if cond == 8 {
        flag_c(cpsr) && !flag_z(cpsr)
    } else if cond == 9 {
        !flag_c(cpsr) || flag_z(cpsr)
    } else if cond == 10 {
        flag_n(cpsr) == flag_v(cpsr)
    } else if cond == 11 {
        flag_n(cpsr) != flag_v(cpsr)
    } else if cond == 12 {
        !flag_z(cpsr) && flag_n(cpsr) == flag_v(cpsr)
    } else if cond == 13 {
        flag_z(cpsr) && flag_n(cpsr) != flag_v(cpsr)
    } else if cond == 14 {
        true
    } else {
        false
    }
}

/// Sum of two words, wrapping around the 32-bit boundary.
pub open spec fn wadd(a: u32, b: u32) -> u32 {
    if a + b > u32::MAX {
        (a + b - 0x1_0000_0000) as u32
    } else {
        (a + b) as u32
    }
}

/// The low 32 bits of `a + b + cin`, for a carry-in of 0 or 1.
pub open spec fn alu_result(a: u32, b: u32, cin: u32) -> u32
    recommends
        cin <= 1,
{
    if a + b + cin > u32::MAX {
        (a + b + cin - 0x1_0000_0000) as u32
    } else {
        (a + b + cin) as u32
    }
}

/// Unsigned carry-out of the 33-bit sum `a + b + cin`. For a subtraction
/// performed as `a + !b + cin` this is the absence of a borrow.
pub open spec fn alu_carry(a: u32, b: u32, cin: u32) -> bool
    recommends
        cin <= 1,
{
    a + b + cin > u32::MAX
}

/// Signed overflow of an addition `a + b` with result `r`: the operands
/// agree in sign and the result disagrees.
pub open spec fn overflow_add(a: u32, b: u32, r: u32) -> bool {
    ((a ^ r) & (b ^ r)) >> 31 == 1
}

/// Signed overflow of a subtraction `a - b` with result `r`: the operands
/// disagree in sign and the result leaves the sign of `a`.
pub open spec fn overflow_sub(a: u32, b: u32, r: u32) -> bool {
    ((a ^ b) & (a ^ r)) >> 31 == 1
}

/// Law: the subtractive ALU form `a + !b + 1` meets the documented compare
/// formulas — its carry-out is the unsigned test `a >= b` (absence of a
/// borrow), its result is zero exactly on equal operands, and the result is
/// the 32-bit wrapping difference `a - b`.
pub proof fn lemma_cmp_flag_formulas(a: u32, b: u32)
    ensures
        alu_carry(a, !b, 1) <==> a >= b,
        alu_result(a, !b, 1) == 0 <==> a == b,
        a >= b ==> alu_result(a, !b, 1) == a - b,
        a < b ==> alu_result(a, !b, 1) == a - b + 0x1_0000_0000,
{
    lemma_not_u32(b);
}

/// Arithmetic right shift by `n` for `1 <= n <= 31`: the vacated high bits
/// are copies of the sign bit.
pub open spec fn asr_bits(v: u32, n: u32) -> u32
    recommends
        1 <= n <= 31,
{
    if bit_of(v, 31) == 1 {
        (v >> n) | !(0xffff_ffffu32 >> n)
    } else {
        v >> n
    }
}

/// Rotate right by `n` for `1 <= n <= 31`.
pub open spec fn ror_bits(v: u32, n: u32) -> u32
    recommends
        1 <= n <= 31,
{
    (v >> n) | (v << ((32 - n) as u32))
}

/// The barrel shifter: shifted value and shifter carry-out, for shift kinds
/// 0 logical left, 1 logical right, 2 arithmetic right, 3 rotate right, and
/// any amount up to 255 (a register-specified amount is one byte). An amount
/// of zero leaves the value and the carry-in untouched.
pub open spec fn spec_barrel_shift(v: u32, kind: u32, amount: u32, cin: bool) -> (u32, bool)
    recommends
        kind <= 3,
{
    if amount == 0 {
        (v, cin)
    } else if kind == 0 {
        if amount < 32 {
            (v << amount, bit_of(v, (32 - amount) as u32) == 1)
        } else if amount == 32 {
            (0u32, bit_of(v, 0) == 1)
        } else {
            (0u32, false)
        }
    } else if kind == 1 {
        if amount < 32 {
            (v >> amount, bit_of(v, (amount - 1) as u32) == 1)
        } else if amount == 32 {
            (0u32, bit_of(v, 31) == 1)
        } else {
            (0u32, false)
        }
    } else if kind == 2 {
        if amount < 32 {
            (asr_bits(v, amount), bit_of(v, (amount - 1) as u32) == 1)
        } else if bit_of(v, 31) == 1 {
            (0xffff_ffffu32, true)
        } else {
            (0u32, false)
        }
    } else {
        let n: u32 = amount % 32;
        if n == 0 {
            (v, bit_of(v, 31) == 1)
        } else {
            (ror_bits(v, n), bit_of(v, (n - 1) as u32) == 1)
        }
    }
}

/// The barrel shifter as a pure executable function.
pub fn barrel_shift(value: u32, kind: u32, amount: u32, carry_in: bool) -> (r: (u32, bool))
    requires
        kind <= 3,
    ensures
        r == spec_barrel_shift(value, kind, amount, carry_in),
{
    if amount == 0 {
        (value, carry_in)
    } else if kind == 0 {
        if amount < 32 {
            (value << amount, value.at_bit((32 - amount) as usize) == 1)
        } else if amount == 32 {
            (0, value.at_bit(0) == 1)
        } else {
            (0, false)
        }
    } else if kind == 1 {
        if amount < 32 {
            (value >> amount, value.at_bit((amount - 1) as usize) == 1)
        } else if amount == 32 {
            (0, value.at_bit(31) == 1)
        } else {
            (0, false)
        }
    } else if kind == 2 {
        if amount < 32 {
            let shifted: u32 = if value.at_bit(31) == 1 {
                (value >> amount) | !(0xffff_ffffu32 >> amount)
            } else {
                value >> amount
            };
            (shifted, value.at_bit((amount - 1) as usize) == 1)
        } else if value.at_bit(31) == 1 {
            (0xffff_ffff, true)
        } else {
            (0, false)
        }
    } else {
        let n: u32 = amount % 32;
        if n == 0 {
            (value, value.at_bit(31) == 1)
        } else {
            ((value >> n) | (value << (32 - n)), value.at_bit((n as usize) - 1) == 1)
        }
    }
}

/// A 24-bit immediate sign-extended to 32 bits, in two's complement.
pub open spec fn sext24(x: u32) -> u32
    recommends
        x < 0x100_0000,
{
    if bit_of(x, 23) == 1 {
        x | 0xff00_0000u32
    } else {
        x
    }
}

/// The four bytes of a word, least significant first.
pub open spec fn le_bytes_of_word(v: u32) -> Seq<u8> {
    seq![
        (v & 0xff) as u8,
        ((v >> 8) & 0xff) as u8,
        ((v >> 16) & 0xff) as u8,
        ((v >> 24) & 0xff) as u8,
    ]
}

/// The word assembled from four bytes, least significant first.
pub open spec fn word_of_le_bytes(b0: u8, b1: u8, b2: u8, b3: u8) -> u32 {
    (b0 as u32) | ((b1 as u32) << 8) | ((b2 as u32) << 16) | ((b3 as u32) << 24)
}

/// A sequence of words flattened to bytes, each word contributing its four
/// bytes least significant first.
pub open spec fn words_le_bytes(ws: Seq<u32>) -> Seq<u8>
    decreases ws.len(),
{
    if ws.len() == 0 {
        Seq::empty()
    } else {
        words_le_bytes(ws.drop_last()) + le_bytes_of_word(ws.last())
    }
}

/// Ranges of the instruction fields: each decoded field is bounded by two
/// to the power of its width, so register numbers index the register file
/// and shift kinds stay inside the barrel shifter's table.
pub proof fn lemma_instr_field_bounds(w: u32)
    by (bit_vector)
    ensures
        bits_of(w, 0, 3) < 16,
        bits_of(w, 8, 11) < 16,
        bits_of(w, 12, 15) < 16,
        bits_of(w, 16, 19) < 16,
        bits_of(w, 21, 24) < 16,
        bits_of(w, 28, 31) < 16,
        bits_of(w, 25, 27) < 8,
        bits_of(w, 5, 6) < 4,
        bits_of(w, 7, 11) < 32,
        bits_of(w, 0, 7) < 256,
        bits_of(w, 0, 23) < 0x100_0000,
        bit_of(w, 4) < 2,
        bit_of(w, 20) < 2,
        bit_of(w, 24) < 2,
        bit_of(w, 25) < 2,
{
}

/// Law: after a full flag update, each flag reads back as written, and the
/// mode bits of the status word are untouched.
pub proof fn lemma_nzcv_flags(cpsr: u32, n: bool, z: bool, c: bool, v: bool)
    by (bit_vector)
    ensures
        flag_n(cpsr_with_nzcv(cpsr, n, z, c, v)) == n,
        flag_z(cpsr_with_nzcv(cpsr, n, z, c, v)) == z,
        flag_c(cpsr_with_nzcv(cpsr, n, z, c, v)) == c,
        flag_v(cpsr_with_nzcv(cpsr, n, z, c, v)) == v,
        cpsr_with_nzcv(cpsr, n, z, c, v) & 0x0fff_ffff == cpsr & 0x0fff_ffff,
{
}

/// A single extracted bit is zero or one.
pub proof fn lemma_bit_of_binary(w: u32, pos: u32)
    by (bit_vector)
    ensures
        bit_of(w, pos) == 0 || bit_of(w, pos) == 1,
{
}

/// The bitwise complement of a word as an arithmetic value.
pub proof fn lemma_not_u32(b: u32)
    by (bit_vector)
    ensures
        !b == (0xffff_ffffu32 - b) as u32,
{
}

/// Law: splitting a word into its little-endian bytes and reassembling them
/// yields the word back.
pub proof fn lemma_word_le_bytes_round_trip(v: u32)
    ensures
        word_of_le_bytes(
            le_bytes_of_word(v)[0],
            le_bytes_of_word(v)[1],
            le_bytes_of_word(v)[2],
            le_bytes_of_word(v)[3],
        ) == v,
{
    assert(((v & 0xff) as u8 as u32) | ((((v >> 8) & 0xff) as u8 as u32) << 8)
        | ((((v >> 16) & 0xff) as u8 as u32) << 16) | ((((v >> 24) & 0xff) as u8 as u32) << 24)
        == v) by (bit_vector);
}

} // verus!
