//! Byte order of the fields in netlink frames.
//!
//! Frames carry their fields in the host's order, little-endian on the
//! machines this library is built for; classic BPF loads read big-endian.
use vstd::prelude::*;

verus! {

/// The 16-bit value stored little-endian at `k`.
pub open spec fn le16_at(b: Seq<u8>, k: int) -> u16 {
    le16_of(b[k], b[k + 1])
}

/// The 32-bit value stored little-endian at `k`.
pub open spec fn le32_at(b: Seq<u8>, k: int) -> u32 {
    le32_of(b[k], b[k + 1], b[k + 2], b[k + 3])
}

/// The 16-bit value that a big-endian load at `k` reads.
pub open spec fn be16_at(b: Seq<u8>, k: int) -> u16 {
    be16_of(b[k], b[k + 1])
}

/// The 32-bit value that a big-endian load at `k` reads.
pub open spec fn be32_at(b: Seq<u8>, k: int) -> u32 {
    be32_of(b[k], b[k + 1], b[k + 2], b[k + 3])
}

pub open spec fn le16_of(b0: u8, b1: u8) -> u16 {
    (b0 as u16) | ((b1 as u16) << 8u16)
}

pub open spec fn be16_of(b0: u8, b1: u8) -> u16 {
    ((b0 as u16) << 8u16) | (b1 as u16)
}

pub open spec fn le32_of(b0: u8, b1: u8, b2: u8, b3: u8) -> u32 {
    (b0 as u32) | ((b1 as u32) << 8u32) | ((b2 as u32) << 16u32) | ((b3 as u32) << 24u32)
}

pub open spec fn be32_of(b0: u8, b1: u8, b2: u8, b3: u8) -> u32 {
    ((b0 as u32) << 24u32) | ((b1 as u32) << 16u32) | ((b2 as u32) << 8u32) | (b3 as u32)
}

/// `x` with its two bytes exchanged.
pub open spec fn swap16(x: u16) -> u16 {
    (x << 8u16) | (x >> 8u16)
}

/// `x` with its four bytes in reverse order.
pub open spec fn swap32(x: u32) -> u32 {
    ((x & 0xffu32) << 24u32) | ((x & 0xff00u32) << 8u32) | ((x >> 8u32) & 0xff00u32) | (x >> 24u32)
}

/// A big-endian load of a field equals the swapped value exactly when the
/// field, read in the host's order, equals the value itself.
pub proof fn lemma_be16_matches(b: Seq<u8>, k: int, x: u16)
    requires
        0 <= k,
        k + 2 <= b.len(),
    ensures
        (be16_at(b, k) == swap16(x)) == (le16_at(b, k) == x),
{
    let b0 = b[k];
    let b1 = b[k + 1];
    assert(((b0 as u16) << 8u16) | (b1 as u16) == (((b0 as u16) | ((b1 as u16) << 8u16))
        << 8u16) | (((b0 as u16) | ((b1 as u16) << 8u16)) >> 8u16)) by (bit_vector);
    let l = le16_of(b0, b1);
    assert((((l << 8u16) | (l >> 8u16)) == ((x << 8u16) | (x >> 8u16))) ==> l == x)
        by (bit_vector);
}

/// The 32-bit form of `lemma_be16_matches`.
pub proof fn lemma_be32_matches(b: Seq<u8>, k: int, x: u32)
    requires
        0 <= k,
        k + 4 <= b.len(),
    ensures
        (be32_at(b, k) == swap32(x)) == (le32_at(b, k) == x),
{
    let b0 = b[k];
    let b1 = b[k + 1];
    let b2 = b[k + 2];
    let b3 = b[k + 3];
    let l = le32_of(b0, b1, b2, b3);
    assert(((b0 as u32) << 24u32) | ((b1 as u32) << 16u32) | ((b2 as u32) << 8u32) | (b3 as u32)
        == ((((b0 as u32) | ((b1 as u32) << 8u32) | ((b2 as u32) << 16u32) | ((b3 as u32)
        << 24u32)) & 0xffu32) << 24u32) | ((((b0 as u32) | ((b1 as u32) << 8u32) | ((b2 as u32)
        << 16u32) | ((b3 as u32) << 24u32)) & 0xff00u32) << 8u32) | ((((b0 as u32) | ((b1 as u32)
        << 8u32) | ((b2 as u32) << 16u32) | ((b3 as u32) << 24u32)) >> 8u32) & 0xff00u32) | (((
    b0 as u32) | ((b1 as u32) << 8u32) | ((b2 as u32) << 16u32) | ((b3 as u32) << 24u32))
        >> 24u32)) by (bit_vector);
    lemma_swap32_injective(l, x);
}

proof fn lemma_swap32_injective(a: u32, b: u32)
    ensures
        (swap32(a) == swap32(b)) == (a == b),
{
    assert(((((a & 0xffu32) << 24u32) | ((a & 0xff00u32) << 8u32) | ((a >> 8u32) & 0xff00u32) | (a
        >> 24u32)) == (((b & 0xffu32) << 24u32) | ((b & 0xff00u32) << 8u32) | ((b >> 8u32)
        & 0xff00u32) | (b >> 24u32))) ==> a == b) by (bit_vector);
}

/// The immediate that a big-endian 32-bit load is compared against to test
/// a field for `x`.
pub fn be_imm32(x: u32) -> (r: u32)
    ensures
        r == swap32(x),
{
    ((x & 0xff) << 24) | ((x & 0xff00) << 8) | ((x >> 8) & 0xff00) | (x >> 24)
}

/// The immediate that a big-endian 16-bit load is compared against to test
/// a field for `x`.
pub fn be_imm16(x: u16) -> (r: u16)
    ensures
        r == swap16(x),
{
    (x << 8) | (x >> 8)
}

} // verus!
