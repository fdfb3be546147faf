//! Reading and writing a field of a register: the bits from `start` up to `end` of the
//! register's bytes, numbered from the least significant bit of each byte, taken as one
//! number whose most significant part lies in the first byte that the field reaches.

use bitvec::field::BitField;
use bitvec::order::Lsb0;
use bitvec::view::BitView;
use vstd::arithmetic::power2::pow2;
use vstd::bits::{lemma_u16_shl_is_mul, lemma_u8_shr_is_div};
use vstd::prelude::*;

use crate::bits::byte_bit;

verus! {

/// The number that bits `start..end` of the bytes hold. The part of the field in the
/// last byte it reaches is the least significant; within a byte, a higher bit is more
/// significant.
pub open spec fn field_value(bytes: Seq<u8>, start: int, end: int) -> int
    decreases end - start,
{
    if end <= start {
        0
    } else {
        let e = (end - 1) / 8;
        let lo = if start > 8 * e {
            start
        } else {
            8 * e
        };
        field_value(bytes, start, lo) * (pow2((end - lo) as nat) as int) + (bytes[e] as int / (pow2(
            (lo - 8 * e) as nat,
        ) as int)) % (pow2((end - lo) as nat) as int)
    }
}

/// Whether the bits of `new` outside `start..end` are those of `old`.
pub open spec fn bits_outside_kept(old: Seq<u8>, new: Seq<u8>, start: int, end: int) -> bool {
    &&& new.len() == old.len()
    &&& forall|i: int|
        0 <= i < old.len() * 8 && !(start <= i < end) ==> #[trigger] byte_bit(new[i / 8], i % 8) == byte_bit(
            old[i / 8],
            i % 8,
        )
}

/// `bitvec`'s `bytes.view_bits::<Lsb0>()[start..end].load_be::<u128>()`: the bits of
/// the field, bits numbered from the least significant bit of each byte and bytes taken
/// from the most significant to the least. The slicing panics past the last bit and the
/// load on a field that is empty or wider than 128 bits, which `requires` leaves out.
#[verifier::external_body]
fn load_be_u128(bytes: &[u8], start: usize, end: usize) -> (res: u128)
    requires
        start < end,
        end <= bytes@.len() * 8,
        end - start <= 128,
    ensures
        res == field_value(bytes@, start as int, end as int),
{
    bytes.view_bits::<Lsb0>()[start..end].load_be::<u128>()
}

/// `bitvec`'s `bytes.view_bits_mut::<Lsb0>()[start..end].store_be(value)`: the low
/// `end - start` bits of the value are stored into the field in the order in which
/// `load_be` reads them; the bits outside the field are not touched. The slicing panics
/// past the last bit and the store on a field that is empty or wider than 128 bits,
/// which `requires` leaves out.
#[verifier::external_body]
fn store_be_u128(bytes: &mut Vec<u8>, start: usize, end: usize, value: u128)
    requires
        start < end,
        end <= old(bytes)@.len() * 8,
        end - start <= 128,
    ensures
        field_value(final(bytes)@, start as int, end as int) == value as int % (pow2((end - start) as nat) as int),
        bits_outside_kept(old(bytes)@, final(bytes)@, start as int, end as int),
{
    bytes.view_bits_mut::<Lsb0>()[start..end].store_be(value)
}

/// Reads the field at bits `start..end` of a register's bytes.
pub fn read_field(bits: &[u8], start: usize, end: usize) -> (res: u128)
    requires
        start < end,
        end <= bits@.len() * 8,
        end - start <= 128,
    ensures
        res == field_value(bits@, start as int, end as int),
{
    load_be_u128(bits, start, end)
}

/// Writes the value into the field at bits `start..end` of a register's bytes: a read
/// of the field then gives the value, cut to the width of the field, and every other
/// bit of the register stays as it was.
pub fn write_field(bits: &mut Vec<u8>, start: usize, end: usize, value: u128)
    requires
        start < end,
        end <= old(bits)@.len() * 8,
        end - start <= 128,
    ensures
        field_value(final(bits)@, start as int, end as int) == value as int % (pow2((end - start) as nat) as int),
        bits_outside_kept(old(bits)@, final(bits)@, start as int, end as int),
{
    store_be_u128(bits, start, end, value)
}

/// The part of a byte from bit `m` on, `n` bits wide, depends on those bits alone.
proof fn lemma_byte_part_depends_on_its_bits(x: u8, y: u8, m: u8, n: u8)
    requires
        m < 8,
        1 <= n,
        m + n <= 8,
        forall|k: int| 0 <= k < 8 && m <= k < m + n ==> #[trigger] byte_bit(x, k) == byte_bit(y, k),
    ensures
        (x as int / pow2(m as nat) as int) % (pow2(n as nat) as int) == (y as int / pow2(m as nat) as int)
            % (pow2(n as nat) as int),
{
    let h0 = m <= 0 < m + n ==> byte_bit(x, 0) == byte_bit(y, 0);
    let h1 = m <= 1 < m + n ==> byte_bit(x, 1) == byte_bit(y, 1);
    let h2 = m <= 2 < m + n ==> byte_bit(x, 2) == byte_bit(y, 2);
    let h3 = m <= 3 < m + n ==> byte_bit(x, 3) == byte_bit(y, 3);
    let h4 = m <= 4 < m + n ==> byte_bit(x, 4) == byte_bit(y, 4);
    let h5 = m <= 5 < m + n ==> byte_bit(x, 5) == byte_bit(y, 5);
    let h6 = m <= 6 < m + n ==> byte_bit(x, 6) == byte_bit(y, 6);
    let h7 = m <= 7 < m + n ==> byte_bit(x, 7) == byte_bit(y, 7);
    assert(h0 && h1 && h2 && h3 && h4 && h5 && h6 && h7);
    assert((((x >> m) as u16) % (1u16 << n)) == (((y >> m) as u16) % (1u16 << n))) by (bit_vector)
        requires
            m < 8,
            1 <= n,
            m + n <= 8,
            m <= 0 < m + n ==> ((x >> 0u8) & 1u8 == 1u8) == ((y >> 0u8) & 1u8 == 1u8),
            m <= 1 < m + n ==> ((x >> 1u8) & 1u8 == 1u8) == ((y >> 1u8) & 1u8 == 1u8),
            m <= 2 < m + n ==> ((x >> 2u8) & 1u8 == 1u8) == ((y >> 2u8) & 1u8 == 1u8),
            m <= 3 < m + n ==> ((x >> 3u8) & 1u8 == 1u8) == ((y >> 3u8) & 1u8 == 1u8),
            m <= 4 < m + n ==> ((x >> 4u8) & 1u8 == 1u8) == ((y >> 4u8) & 1u8 == 1u8),
            m <= 5 < m + n ==> ((x >> 5u8) & 1u8 == 1u8) == ((y >> 5u8) & 1u8 == 1u8),
            m <= 6 < m + n ==> ((x >> 6u8) & 1u8 == 1u8) == ((y >> 6u8) & 1u8 == 1u8),
            m <= 7 < m + n ==> ((x >> 7u8) & 1u8 == 1u8) == ((y >> 7u8) & 1u8 == 1u8),
    ;
    lemma_u8_shr_is_div(x, m);
    lemma_u8_shr_is_div(y, m);
    assert(pow2(n as nat) <= 256) by {
        vstd::arithmetic::power2::lemma2_to64();
        if n < 8 {
            vstd::arithmetic::power2::lemma_pow2_strictly_increases(n as nat, 8);
        }
    }
    lemma_u16_shl_is_mul(1u16, n as u16);
}

/// The value of a field depends on the field's bits alone.
pub proof fn lemma_field_value_depends_on_its_bits(a: Seq<u8>, b: Seq<u8>, start: int, end: int)
    requires
        0 <= start,
        end <= a.len() * 8,
        a.len() == b.len(),
        forall|i: int| start <= i < end ==> #[trigger] byte_bit(a[i / 8], i % 8) == byte_bit(b[i / 8], i % 8),
    ensures
        field_value(a, start, end) == field_value(b, start, end),
    decreases end - start,
{
    if end > start {
        let e = (end - 1) / 8;
        let lo = if start > 8 * e {
            start
        } else {
            8 * e
        };
        lemma_field_value_depends_on_its_bits(a, b, start, lo);
        let m = lo - 8 * e;
        let n = end - lo;
        assert(0 <= m < 8 && 1 <= n && m + n <= 8);
        assert forall|k: int| 0 <= k < 8 && m <= k < m + n implies #[trigger] byte_bit(a[e], k) == byte_bit(
            b[e],
            k,
        ) by {
            let i = 8 * e + k;
            assert(i / 8 == e && i % 8 == k);
            assert(start <= i < end);
        }
        lemma_byte_part_depends_on_its_bits(a[e], b[e], m as u8, n as u8);
    }
}

/// Writing a field leaves the value of every field whose bits lie apart from it as it
/// was: of two fields that don't overlap, a write of one keeps what a read of the other
/// gives.
pub proof fn lemma_write_keeps_other_field(
    old: Seq<u8>,
    new: Seq<u8>,
    start: int,
    end: int,
    other_start: int,
    other_end: int,
)
    requires
        bits_outside_kept(old, new, start, end),
        0 <= other_start,
        other_end <= old.len() * 8,
        other_end <= start || end <= other_start,
    ensures
        field_value(new, other_start, other_end) == field_value(old, other_start, other_end),
{
    assert forall|i: int| other_start <= i < other_end implies #[trigger] byte_bit(new[i / 8], i % 8)
        == byte_bit(old[i / 8], i % 8) by {
        assert(0 <= i < old.len() * 8 && !(start <= i < end));
    }
    lemma_field_value_depends_on_its_bits(new, old, other_start, other_end);
}

} // verus!
