//! The element-to-bit mapping: which byte holds an element and under which
//! mask, and what the bitwise operations do to single bits.

use vstd::prelude::*;

verus! {

/// The index of the byte that holds the bit of `value`.
pub open spec fn spec_idx(value: u8) -> int {
    value as int / 8
}

/// The mask that selects the bit of `value` inside its byte: bit `value % 8`,
/// counted from the least significant one.
pub open spec fn spec_mask(value: u8) -> u8 {
    1u8 << (value % 8)
}

/// Whether `byte` has the bit of `value` set.
pub open spec fn bit_set(byte: u8, value: u8) -> bool {
    byte & spec_mask(value) != 0
}

/// The storage `bytes` with the bit of `value` set.
pub open spec fn with_bit_set(bytes: Seq<u8>, value: u8) -> Seq<u8> {
    bytes.update(spec_idx(value), bytes[spec_idx(value)] | spec_mask(value))
}

/// The storage `bytes` with the bit of `value` cleared.
pub open spec fn with_bit_cleared(bytes: Seq<u8>, value: u8) -> Seq<u8> {
    bytes.update(spec_idx(value), bytes[spec_idx(value)] & !spec_mask(value))
}

/// The bytes of `a` AND-ed with those of `b`, position by position.
pub open spec fn bytes_and(a: Seq<u8>, b: Seq<u8>) -> Seq<u8> {
    Seq::new(a.len(), |i: int| a[i] & b[i])
}

/// The bytes of `a` OR-ed with those of `b`, position by position.
pub open spec fn bytes_or(a: Seq<u8>, b: Seq<u8>) -> Seq<u8> {
    Seq::new(a.len(), |i: int| a[i] | b[i])
}

/// The bytes of `a` AND-ed with the negated bytes of `b`, position by
/// position.
pub open spec fn bytes_and_not(a: Seq<u8>, b: Seq<u8>) -> Seq<u8> {
    Seq::new(a.len(), |i: int| a[i] & !b[i])
}

/// The bytes of `a`, each negated.
pub open spec fn bytes_not(a: Seq<u8>) -> Seq<u8> {
    Seq::new(a.len(), |i: int| !a[i])
}

/// No bit is set in the zero byte.
pub proof fn lemma_zero_byte(value: u8)
    by (bit_vector)
    ensures
        !bit_set(0u8, value),
{
}

/// OR-ing the mask of `value` into a byte sets that bit and leaves the others
/// as they were.
pub proof fn lemma_set_bit(byte: u8, value: u8, other: u8)
    by (bit_vector)
    ensures
        bit_set(byte | spec_mask(value), other) == (other % 8 == value % 8 || bit_set(byte, other)),
{
}

/// AND-ing a byte with the negated mask of `value` clears that bit and leaves
/// the others as they were.
pub proof fn lemma_clear_bit(byte: u8, value: u8, other: u8)
    by (bit_vector)
    ensures
        bit_set(byte & !spec_mask(value), other) == (other % 8 != value % 8 && bit_set(
            byte,
            other,
        )),
{
}

/// A bit of `a & b` is set where it is set in both.
pub proof fn lemma_and_bit(a: u8, b: u8, value: u8)
    by (bit_vector)
    ensures
        bit_set(a & b, value) == (bit_set(a, value) && bit_set(b, value)),
{
}

/// A bit of `a | b` is set where it is set in either.
pub proof fn lemma_or_bit(a: u8, b: u8, value: u8)
    by (bit_vector)
    ensures
        bit_set(a | b, value) == (bit_set(a, value) || bit_set(b, value)),
{
}

/// A bit of `a & !b` is set where it is set in `a` and not in `b`.
pub proof fn lemma_and_not_bit(a: u8, b: u8, value: u8)
    by (bit_vector)
    ensures
        bit_set(a & !b, value) == (bit_set(a, value) && !bit_set(b, value)),
{
}

/// A bit of `!a` is set where it is not set in `a`.
pub proof fn lemma_not_bit(a: u8, value: u8)
    by (bit_vector)
    ensures
        bit_set(!a, value) == !bit_set(a, value),
{
}

/// A byte that is not zero has one of its eight bits set.
proof fn lemma_nonzero_has_bit(a: u8)
    by (bit_vector)
    requires
        a != 0,
    ensures
        bit_set(a, 0) || bit_set(a, 1) || bit_set(a, 2) || bit_set(a, 3) || bit_set(a, 4)
            || bit_set(a, 5) || bit_set(a, 6) || bit_set(a, 7),
{
}

/// A bit of `a ^ b` is set where `a` and `b` differ in it.
proof fn lemma_xor_bit(a: u8, b: u8, value: u8)
    by (bit_vector)
    ensures
        bit_set(a ^ b, value) == (bit_set(a, value) != bit_set(b, value)),
        a == b <==> a ^ b == 0,
{
}

/// A byte is zero exactly when none of its eight bits is set.
pub proof fn lemma_zero_iff_no_bit(a: u8)
    ensures
        a == 0 <==> forall|k: u8| k < 8 ==> !bit_set(a, k),
{
    if a == 0 {
        assert forall|k: u8| k < 8 implies !bit_set(a, k) by {
            lemma_zero_byte(k);
        }
    } else {
        lemma_nonzero_has_bit(a);
    }
}

/// Two bytes are equal exactly when they agree on each of their eight bits.
pub proof fn lemma_equal_iff_same_bits(a: u8, b: u8)
    ensures
        a == b <==> forall|k: u8| k < 8 ==> bit_set(a, k) == bit_set(b, k),
{
    lemma_xor_bit(a, b, 0);
    if a != b {
        lemma_zero_iff_no_bit(a ^ b);
        let k: u8 = choose|k: u8| k < 8 && bit_set(a ^ b, k);
        lemma_xor_bit(a, b, k);
    }
}

} // verus!
