//! Bit-level access to integers and to byte-backed bit arrays.
//!
//! The integer and bit-array primitives come from the `bit_field` crate; this
//! module states what they compute and builds the range operations the rest
//! of the kernel needs on top of them.

use bit_field::BitArray;
use bit_field::BitField;
use vstd::arithmetic::power2::lemma_pow2_pos;
use vstd::arithmetic::power2::pow2;
use vstd::prelude::*;

verus! {

/// The number held in bits `lo..hi` of `v`, bit 0 being the least significant.
pub open spec fn bit_range(v: int, lo: nat, hi: nat) -> int {
    (v / (pow2(lo) as int)) % (pow2((hi - lo) as nat) as int)
}

/// `v` with bits `lo..hi` replaced by `value`.
pub open spec fn with_bit_range(v: int, lo: nat, hi: nat, value: int) -> int {
    v - bit_range(v, lo, hi) * pow2(lo) + value * pow2(lo)
}

/// Whether bit `i` is set in a bit array stored least significant bit first
/// in consecutive bytes.
pub open spec fn bit_at(bytes: Seq<u8>, i: int) -> bool {
    bytes[i / 8] & (1u8 << ((i % 8) as u8)) != 0
}

/// The byte `b` with bit `k` forced to `value`.
pub open spec fn byte_with_bit(b: u8, k: u8, value: bool) -> u8 {
    if value {
        b | (1u8 << k)
    } else {
        b & !(1u8 << k)
    }
}

/// `BitField::get_bits` on a `u64`: the bits `lo..hi`, shifted down so that
/// bit `lo` becomes bit 0. The crate panics on an empty or out-of-bounds
/// range, which the precondition excludes.
#[verifier::external_body]
pub(crate) fn get_bits_u64(v: u64, lo: usize, hi: usize) -> (r: u64)
    requires
        lo < hi <= 64,
    ensures
        r as int == bit_range(v as int, lo as nat, hi as nat),
{
    v.get_bits(lo..hi)
}

/// `BitField::set_bits` on a `u64`: bits `lo..hi` become `value`, all other
/// bits are kept. The crate panics when `value` does not fit in the range,
/// which the precondition excludes.
#[verifier::external_body]
pub(crate) fn set_bits_u64(v: u64, lo: usize, hi: usize, value: u64) -> (r: u64)
    requires
        lo < hi <= 64,
        (value as int) < pow2((hi - lo) as nat),
    ensures
        r as int == with_bit_range(v as int, lo as nat, hi as nat, value as int),
{
    let mut out = v;
    out.set_bits(lo..hi, value);
    out
}

/// `BitArray::bit_length` on a byte slice: eight bits per byte.
#[verifier::external_body]
pub(crate) fn bit_length(bitmap: &Vec<u8>) -> (r: usize)
    requires
        bitmap.len() * 8 <= usize::MAX,
    ensures
        r == bitmap.len() * 8,
{
    bitmap.as_slice().bit_length()
}

/// `BitArray::get_bit` on a byte slice: bit `bit % 8` of byte `bit / 8`.
#[verifier::external_body]
pub(crate) fn get_bit(bitmap: &Vec<u8>, bit: usize) -> (r: bool)
    requires
        bit < bitmap.len() * 8,
    ensures
        r == bit_at(bitmap@, bit as int),
{
    bitmap.as_slice().get_bit(bit)
}

/// `BitArray::set_bit` on a byte slice: bit `bit % 8` of byte `bit / 8` takes
/// the given value; nothing else changes.
#[verifier::external_body]
pub(crate) fn set_bit(bitmap: &mut Vec<u8>, bit: usize, value: bool)
    requires
        bit < old(bitmap).len() * 8,
    ensures
        final(bitmap)@ == old(bitmap)@.update(
            bit as int / 8,
            byte_with_bit(old(bitmap)@[bit as int / 8], (bit as int % 8) as u8, value),
        ),
{
    bitmap.as_mut_slice().set_bit(bit, value);
}

/// Setting bit `k` of a byte changes that bit and no other.
pub proof fn lemma_byte_with_bit(b: u8, k: u8, j: u8, value: bool)
    requires
        k < 8,
        j < 8,
    ensures
        (byte_with_bit(b, k, value) & (1u8 << j) != 0) == (if j == k {
            value
        } else {
            b & (1u8 << j) != 0
        }),
{
    assert((((b | (1u8 << k)) & (1u8 << j)) != 0) == (j == k || (b & (1u8 << j)) != 0)) by (bit_vector)
        requires
            k < 8,
            j < 8,
    ;
    assert((((b & !(1u8 << k)) & (1u8 << j)) != 0) == (j != k && (b & (1u8 << j)) != 0)) by (bit_vector)
        requires
            k < 8,
            j < 8,
    ;
}

/// What `set_bit` does, seen bit by bit: bit `bit` takes `value`, every
/// other bit of the array keeps its state.
pub proof fn lemma_set_bit_at(before: Seq<u8>, bit: int, value: bool, j: int)
    requires
        0 <= bit < before.len() * 8,
        0 <= j < before.len() * 8,
    ensures
        bit_at(
            before.update(bit / 8, byte_with_bit(before[bit / 8], (bit % 8) as u8, value)),
            j,
        ) == (if j == bit {
            value
        } else {
            bit_at(before, j)
        }),
{
    let after = before.update(bit / 8, byte_with_bit(before[bit / 8], (bit % 8) as u8, value));
    if j / 8 == bit / 8 {
        lemma_byte_with_bit(before[bit / 8], (bit % 8) as u8, (j % 8) as u8, value);
        assert(after[j / 8] == byte_with_bit(before[bit / 8], (bit % 8) as u8, value));
    } else {
        assert(after[j / 8] == before[j / 8]);
    }
}

/// A zero byte has no bit set.
pub proof fn lemma_zero_byte_clear(k: u8)
    requires
        k < 8,
    ensures
        0u8 & (1u8 << k) == 0,
{
    assert(0u8 & (1u8 << k) == 0) by (bit_vector);
}

/// A bit range of width `hi - lo` holds a number below `2^(hi - lo)`.
pub proof fn lemma_bit_range_bound(v: int, lo: nat, hi: nat)
    requires
        0 <= v,
        lo <= hi,
    ensures
        0 <= bit_range(v, lo, hi) < pow2((hi - lo) as nat),
{
    lemma_pow2_pos(lo);
    lemma_pow2_pos((hi - lo) as nat);
    let shifted = v / (pow2(lo) as int);
    vstd::arithmetic::div_mod::lemma_div_pos_is_pos(v, pow2(lo) as int);
    vstd::arithmetic::div_mod::lemma_mod_bound(shifted, pow2((hi - lo) as nat) as int);
}

/// Sets every bit of `start..end` in the bit array to `value`.
pub fn set_bits_area(bitmap: &mut Vec<u8>, start: usize, end: usize, value: bool)
    requires
        end <= old(bitmap).len() * 8,
    ensures
        final(bitmap).len() == old(bitmap).len(),
        forall|j: int|
            0 <= j < old(bitmap).len() * 8 ==> #[trigger] bit_at(final(bitmap)@, j) == (if start <= j
                < end {
                value
            } else {
                bit_at(old(bitmap)@, j)
            }),
{
    if start >= end {
        return ;
    }
    let mut i: usize = start;
    while i < end
        invariant
            end <= bitmap.len() * 8,
            bitmap.len() == old(bitmap).len(),
            start <= i <= end,
            forall|j: int|
                0 <= j < bitmap.len() * 8 ==> #[trigger] bit_at(bitmap@, j) == (if start <= j < i {
                    value
                } else {
                    bit_at(old(bitmap)@, j)
                }),
        decreases end - i,
    {
        let ghost before = bitmap@;
        set_bit(bitmap, i, value);
        proof {
            assert forall|j: int| 0 <= j < bitmap.len() * 8 implies #[trigger] bit_at(bitmap@, j)
                == (if start <= j < i + 1 {
                value
            } else {
                bit_at(old(bitmap)@, j)
            }) by {
                lemma_set_bit_at(before, i as int, value, j);
                assert(bit_at(before, j) == (if start <= j < i {
                    value
                } else {
                    bit_at(old(bitmap)@, j)
                }));
            }
        }
        i = i + 1;
    }
}

} // verus!
