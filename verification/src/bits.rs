//! Numbering of the bits of a byte sequence, and the checks on it that the
//! `bitvec` crate computes.

use bitvec::order::{Lsb0, Msb0};
use bitvec::view::BitView;
use vstd::prelude::*;

use crate::mir::BitOrder;

verus! {

/// Whether bit `pos` (0 is the least significant) of the byte is one.
pub open spec fn byte_bit(byte: u8, pos: int) -> bool {
    (byte >> (pos as u8)) & 1u8 == 1u8
}

/// Whether bit `i` of the bytes is one, in the given numbering. With LSB0, bit `i`
/// is bit `i % 8` of byte `i / 8` counted from the least significant end; with MSB0,
/// it is counted from the most significant end.
pub open spec fn ordered_bit(bytes: Seq<u8>, i: int, order: BitOrder) -> bool {
    match order {
        BitOrder::LSB0 => byte_bit(bytes[i / 8], i % 8),
        BitOrder::MSB0 => byte_bit(bytes[i / 8], 7 - i % 8),
    }
}

/// Whether any bit from `start` up to the end of the bytes is one.
pub open spec fn any_bit_from(bytes: Seq<u8>, start: int, order: BitOrder) -> bool {
    exists|i: int| start <= i < bytes.len() * 8 && #[trigger] ordered_bit(bytes, i, order)
}

/// `bitvec`'s `bytes.view_bits::<Lsb0>()[start..].any()`: whether any bit from
/// `start` on is one, bits numbered from the least significant bit of each byte.
/// The slicing panics when `start` is past the last bit, which `requires` leaves out.
#[verifier::external_body]
fn any_lsb0_bit_from(bytes: &[u8], start: usize) -> (res: bool)
    requires
        start <= bytes@.len() * 8,
    ensures
        res == any_bit_from(bytes@, start as int, BitOrder::LSB0),
{
    bytes.view_bits::<Lsb0>()[start..].any()
}

/// `bitvec`'s `bytes.view_bits::<Msb0>()[start..].any()`: whether any bit from
/// `start` on is one, bits numbered from the most significant bit of each byte.
/// The slicing panics when `start` is past the last bit, which `requires` leaves out.
#[verifier::external_body]
fn any_msb0_bit_from(bytes: &[u8], start: usize) -> (res: bool)
    requires
        start <= bytes@.len() * 8,
    ensures
        res == any_bit_from(bytes@, start as int, BitOrder::MSB0),
{
    bytes.view_bits::<Msb0>()[start..].any()
}

/// Whether any bit from `start` on is one, in the given bit numbering.
pub fn any_bit_set_from(bytes: &[u8], start: usize, order: BitOrder) -> (res: bool)
    requires
        start <= bytes@.len() * 8,
    ensures
        res == any_bit_from(bytes@, start as int, order),
{
    match order {
        BitOrder::LSB0 => any_lsb0_bit_from(bytes, start),
        BitOrder::MSB0 => any_msb0_bit_from(bytes, start),
    }
}

} // verus!
