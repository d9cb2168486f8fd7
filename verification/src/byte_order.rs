//! Big-endian (network order) encoding of 32-bit integers.

use vstd::prelude::*;

verus! {

/// The integer that four bytes spell in big-endian order.
pub open spec fn be_to_u32(bytes: Seq<u8>) -> u32
    recommends
        bytes.len() == 4,
{
    (bytes[0] as int * 0x100_0000 + bytes[1] as int * 0x1_0000 + bytes[2] as int * 0x100
        + bytes[3] as int) as u32
}

/// The four bytes that spell `value` in big-endian order.
pub open spec fn u32_to_be(value: u32) -> Seq<u8> {
    seq![
        (value / 0x100_0000) as u8,
        (value / 0x1_0000 % 0x100) as u8,
        (value / 0x100 % 0x100) as u8,
        (value % 0x100) as u8,
    ]
}

/// An integer is the sum of its four bytes, each at its place.
proof fn lemma_sum_of_bytes(value: u32)
    by (bit_vector)
    ensures
        value / 0x100_0000 < 0x100,
        (value / 0x100_0000) * 0x100_0000 + (value / 0x1_0000 % 0x100) * 0x1_0000 + (value / 0x100
            % 0x100) * 0x100 + value % 0x100 == value,
{
}

/// Decoding undoes encoding.
pub proof fn lemma_be_decode_encode(value: u32)
    ensures
        u32_to_be(value).len() == 4,
        be_to_u32(u32_to_be(value)) == value,
{
    lemma_sum_of_bytes(value);
}

/// The four bytes of a sum of bytes, each at its place, are those bytes.
proof fn lemma_bytes_of_sum(b0: u8, b1: u8, b2: u8, b3: u8)
    by (bit_vector)
    ensures
        b0 * 0x100_0000 + b1 * 0x1_0000 + b2 * 0x100 + b3 <= 0xffff_ffff,
        (b0 * 0x100_0000 + b1 * 0x1_0000 + b2 * 0x100 + b3) / 0x100_0000 == b0,
        (b0 * 0x100_0000 + b1 * 0x1_0000 + b2 * 0x100 + b3) / 0x1_0000 % 0x100 == b1,
        (b0 * 0x100_0000 + b1 * 0x1_0000 + b2 * 0x100 + b3) / 0x100 % 0x100 == b2,
        (b0 * 0x100_0000 + b1 * 0x1_0000 + b2 * 0x100 + b3) % 0x100 == b3,
{
}

/// Encoding undoes decoding.
pub proof fn lemma_be_encode_decode(bytes: Seq<u8>)
    requires
        bytes.len() == 4,
    ensures
        u32_to_be(be_to_u32(bytes)) == bytes,
{
    lemma_bytes_of_sum(bytes[0], bytes[1], bytes[2], bytes[3]);
    assert(u32_to_be(be_to_u32(bytes)) =~= bytes);
}

/// Reads a big-endian `u32` from four bytes.
pub fn u32_from_be_bytes(bytes: [u8; 4]) -> (value: u32)
    ensures
        value == be_to_u32(bytes@),
{
    let b0: u32 = bytes[0] as u32;
    let b1: u32 = bytes[1] as u32;
    let b2: u32 = bytes[2] as u32;
    let b3: u32 = bytes[3] as u32;
    b0 * 0x100_0000 + b1 * 0x1_0000 + b2 * 0x100 + b3
}

/// Writes a `u32` as four big-endian bytes.
pub fn u32_to_be_bytes(value: u32) -> (bytes: [u8; 4])
    ensures
        bytes@ == u32_to_be(value),
{
    let bytes: [u8; 4] = [
        (value / 0x100_0000) as u8,
        (value / 0x1_0000 % 0x100) as u8,
        (value / 0x100 % 0x100) as u8,
        (value % 0x100) as u8,
    ];
    assert(bytes@ =~= u32_to_be(value));
    bytes
}

} // verus!
