//! Setting single bits and bit ranges of a word.

use bit_field::BitField;
use vstd::prelude::*;

verus! {

/// The word whose bits `start..end` are set and whose other bits are clear.
pub open spec fn field_mask32(start: u32, end: u32) -> u32 {
    ((((!0u32) << ((32 - end) as u32)) >> ((32 - end) as u32)) >> start) << start
}

/// Whether `value` has no bit set at or above position `width`.
pub open spec fn fits32(value: u32, width: u32) -> bool {
    ((value << ((32 - width) as u32)) >> ((32 - width) as u32)) == value
}

/// `word` with its bits `start..end` replaced by the low bits of `value`.
pub open spec fn with_bits32(word: u32, start: u32, end: u32, value: u32) -> u32 {
    (word & !field_mask32(start, end)) | (value << start)
}

/// `word` with bit `bit` set or cleared.
pub open spec fn with_bit32(word: u32, bit: u32, value: bool) -> u32 {
    if value {
        word | (1u32 << bit)
    } else {
        word & !(1u32 << bit)
    }
}

/// Calls `BitField::set_bits` of the `bit_field` crate on a `u32`, with the
/// range `start..end`. The crate keeps the bits outside the range and puts
/// `value`, shifted left by `start`, into the range; it panics unless the
/// range lies in the word and `value` fits into it.
#[verifier::external_body]
pub(crate) fn set_bits32(word: u32, start: u32, end: u32, value: u32) -> (r: u32)
    requires
        start < end <= 32,
        fits32(value, (end - start) as u32),
    ensures
        r == with_bits32(word, start, end, value),
{
    let mut w = word;
    w.set_bits(start as usize..end as usize, value);
    w
}

/// Calls `BitField::set_bit` of the `bit_field` crate on a `u32`. The crate
/// ors the bit in or masks it out, and panics unless `bit < 32`.
#[verifier::external_body]
pub(crate) fn set_bit32(word: u32, bit: u32, value: bool) -> (r: u32)
    requires
        bit < 32,
    ensures
        r == with_bit32(word, bit, value),
{
    let mut w = word;
    w.set_bit(bit as usize, value);
    w
}

/// The 16-bit word whose bits `start..end` are set and whose other bits are
/// clear.
pub open spec fn field_mask16(start: u32, end: u32) -> u16 {
    ((((!0u16) << ((16 - end) as u32)) >> ((16 - end) as u32)) >> start) << start
}

/// Whether the 16-bit `value` has no bit set at or above position `width`.
pub open spec fn fits16(value: u16, width: u32) -> bool {
    ((value << ((16 - width) as u32)) >> ((16 - width) as u32)) == value
}

/// The 16-bit `word` with its bits `start..end` replaced by the low bits of
/// `value`.
pub open spec fn with_bits16(word: u16, start: u32, end: u32, value: u16) -> u16 {
    (word & !field_mask16(start, end)) | (value << start)
}

/// Calls `BitField::set_bits` of the `bit_field` crate on a `u16`, with the
/// range `start..end`. The crate keeps the bits outside the range and puts
/// `value`, shifted left by `start`, into the range; it panics unless the
/// range lies in the word and `value` fits into it.
#[verifier::external_body]
pub(crate) fn set_bits16(word: u16, start: u32, end: u32, value: u16) -> (r: u16)
    requires
        start < end <= 16,
        fits16(value, (end - start) as u32),
    ensures
        r == with_bits16(word, start, end, value),
{
    let mut w = word;
    w.set_bits(start as usize..end as usize, value);
    w
}

} // verus!
