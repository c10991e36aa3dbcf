//! Pure bit-field utilities on 32-bit words: single-bit reads, inclusive
//! bit-range extraction, and single-bit updates. Every decode step of the
//! instruction set is built on these.

use vstd::prelude::*;

verus! {

/// Bit `pos` of `w`, as 0 or 1. Meaningful for `pos <= 31`.
pub open spec fn bit_of(w: u32, pos: u32) -> u32
    recommends
        pos <= 31,
{
    (w >> pos) & 1
}

/// The inclusive bit range `start..=end` of `w`, little end at `start`:
/// `(w >> start) & ((1 << (end - start + 1)) - 1)`, with the mask written as
/// a right shift of the all-ones word so it is in range even at full width.
pub open spec fn bits_of(w: u32, start: u32, end: u32) -> u32
    recommends
        start <= end <= 31,
{
    (w >> start) & (0xffff_ffffu32 >> ((31 - (end - start)) as u32))
}

/// `w` with bit `pos` forced to 0 or 1 according to `value`, all other bits
/// unchanged.
pub open spec fn with_bit(w: u32, pos: u32, value: bool) -> u32
    recommends
        pos <= 31,
{
    if value {
        w | (1u32 << pos)
    } else {
        w & !(1u32 << pos)
    }
}

/// Read access to single bits and to inclusive bit ranges of a word.
pub trait BitUtils {
    /// What `at_bit` returns, as a specification-level function.
    spec fn spec_at_bit(&self, pos: u32) -> u32;

    /// What `get_bits` returns, as a specification-level function.
    spec fn spec_get_bits(&self, start: u32, end: u32) -> u32;

    /// Single bit `pos`, as 0 or 1. Positions above 31 are a caller error.
    fn at_bit(&self, pos: usize) -> (r: u32)
        requires
            pos <= 31,
        ensures
            r == self.spec_at_bit(pos as u32),
    ;

    /// Bits `start..=end` inclusive, shifted down so that bit `start` of the
    /// word becomes bit 0 of the result. An inverted range is a caller error.
    fn get_bits(&self, start: usize, end: usize) -> (r: u32)
        requires
            start <= end,
            end <= 31,
        ensures
            r == self.spec_get_bits(start as u32, end as u32),
    ;
}

/// Single-bit updates on a word.
pub trait BitSetUtils {
    /// What `set_bit` returns, as a specification-level function.
    spec fn spec_set_bit(&self, pos: u32, value: bool) -> u32;

    /// The word with bit `pos` forced to `value`, all other bits unchanged.
    fn set_bit(&self, pos: usize, value: bool) -> (r: u32)
        requires
            pos <= 31,
        ensures
            r == self.spec_set_bit(pos as u32, value),
    ;
}

impl BitUtils for u32 {
    open spec fn spec_at_bit(&self, pos: u32) -> u32 {
        bit_of(*self, pos)
    }

    open spec fn spec_get_bits(&self, start: u32, end: u32) -> u32 {
        bits_of(*self, start, end)
    }

    fn at_bit(&self, pos: usize) -> (r: u32) {
        (*self >> (pos as u32)) & 1
    }

    fn get_bits(&self, start: usize, end: usize) -> (r: u32) {
        let width: u32 = (end - start) as u32;
        let mask: u32 = 0xffff_ffffu32 >> (31 - width);
        (*self >> (start as u32)) & mask
    }
}

impl BitSetUtils for u32 {
    open spec fn spec_set_bit(&self, pos: u32, value: bool) -> u32 {
        with_bit(*self, pos, value)
    }

    fn set_bit(&self, pos: usize, value: bool) -> (r: u32) {
        if value {
            *self | (1u32 << (pos as u32))
        } else {
            *self & !(1u32 << (pos as u32))
        }
    }
}

/// Law: forcing a bit to 1 makes that bit read as 1, and forcing it to 0
/// makes it read as 0, independent of the starting word.
pub proof fn lemma_set_bit_then_at_bit(w: u32, pos: u32)
    by (bit_vector)
    requires
        pos <= 31,
    ensures
        bit_of(with_bit(w, pos, true), pos) == 1,
        bit_of(with_bit(w, pos, false), pos) == 0,
{
}

/// Law: forcing one bit leaves every other bit of the word unchanged.
pub proof fn lemma_set_bit_preserves_others(w: u32, pos: u32, other: u32, value: bool)
    by (bit_vector)
    requires
        pos <= 31,
        other <= 31,
        other != pos,
    ensures
        bit_of(with_bit(w, pos, value), other) == bit_of(w, other),
{
}

/// Law: an extracted bit range is strictly below 2 to the power of its width.
pub proof fn lemma_get_bits_bound(w: u32, start: u32, end: u32)
    by (bit_vector)
    requires
        start <= end,
        end <= 31,
    ensures
        (bits_of(w, start, end) as u64) < (1u64 << ((end - start + 1) as u64)),
{
}

} // verus!
