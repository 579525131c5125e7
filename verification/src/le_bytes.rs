//! Little-endian integers in byte sequences.
use vstd::prelude::*;

verus! {

/// The value of two bytes read as a little-endian integer.
pub open spec fn le_u16(lo: u8, hi: u8) -> int {
    lo + 256 * hi
}

/// The two little-endian bytes of `x`.
pub open spec fn le_u16_bytes(x: u16) -> Seq<u8> {
    seq![(x % 256) as u8, (x / 256) as u8]
}

/// The value of eight bytes read as a little-endian integer.
pub open spec fn le_u64(s: Seq<u8>) -> int {
    s[0] + 0x100 * s[1] + 0x1_0000 * s[2] + 0x100_0000 * s[3] + 0x1_0000_0000 * s[4]
        + 0x100_0000_0000 * s[5] + 0x1_0000_0000_0000 * s[6] + 0x100_0000_0000_0000 * s[7]
}

/// The eight little-endian bytes of `x`.
pub open spec fn le_u64_bytes(x: u64) -> Seq<u8> {
    seq![
        (x % 0x100) as u8,
        ((x / 0x100) % 0x100) as u8,
        ((x / 0x1_0000) % 0x100) as u8,
        ((x / 0x100_0000) % 0x100) as u8,
        ((x / 0x1_0000_0000) % 0x100) as u8,
        ((x / 0x100_0000_0000) % 0x100) as u8,
        ((x / 0x1_0000_0000_0000) % 0x100) as u8,
        ((x / 0x100_0000_0000_0000) % 0x100) as u8,
    ]
}

/// Reads two bytes as a little-endian integer.
pub fn read_le_u16(lo: u8, hi: u8) -> (res: u16)
    ensures
        res == le_u16(lo, hi),
{
    (lo as u16) + (hi as u16) * 256
}

/// Reads the first eight bytes of `bytes` as a little-endian integer.
pub fn read_le_u64(bytes: &[u8]) -> (res: u64)
    requires
        bytes@.len() >= 8,
    ensures
        res == le_u64(bytes@.subrange(0, 8)),
{
    (bytes[0] as u64) + 0x100 * (bytes[1] as u64) + 0x1_0000 * (bytes[2] as u64) + 0x100_0000 * (
    bytes[3] as u64) + 0x1_0000_0000 * (bytes[4] as u64) + 0x100_0000_0000 * (bytes[5] as u64)
        + 0x1_0000_0000_0000 * (bytes[6] as u64) + 0x100_0000_0000_0000 * (bytes[7] as u64)
}

/// The low byte comes first: a lone first byte reads as itself, a lone
/// second byte as 256 times itself, and a lone last byte of eight as
/// `2^56` times itself.
pub proof fn lemma_low_byte_first(b: u8)
    ensures
        le_u16(b, 0) == b,
        le_u16(0, b) == 256 * b,
        le_u64(seq![b, 0, 0, 0, 0, 0, 0, 0]) == b,
        le_u64(seq![0, 0, 0, 0, 0, 0, 0, b]) == 0x100_0000_0000_0000 * b,
{
}

/// Two little-endian bytes read back as the integer they were written from.
pub proof fn lemma_le_u16_roundtrip(x: u16)
    ensures
        le_u16(le_u16_bytes(x)[0], le_u16_bytes(x)[1]) == x,
        le_u16_bytes(x).len() == 2,
{
}

/// Eight little-endian bytes read back as the integer they were written from.
pub proof fn lemma_le_u64_roundtrip(x: u64)
    ensures
        le_u64_bytes(x).len() == 8,
        le_u64(le_u64_bytes(x)) == x,
{
    let c0: u64 = x % 0x100;
    let c1: u64 = (x / 0x100) % 0x100;
    let c2: u64 = (x / 0x1_0000) % 0x100;
    let c3: u64 = (x / 0x100_0000) % 0x100;
    let c4: u64 = (x / 0x1_0000_0000) % 0x100;
    let c5: u64 = (x / 0x100_0000_0000) % 0x100;
    let c6: u64 = (x / 0x1_0000_0000_0000) % 0x100;
    let c7: u64 = (x / 0x100_0000_0000_0000) % 0x100;
    assert(c0 + 0x100 * c1 + 0x1_0000 * c2 + 0x100_0000 * c3 + 0x1_0000_0000 * c4 + 0x100_0000_0000
        * c5 + 0x1_0000_0000_0000 * c6 + 0x100_0000_0000_0000 * c7 == x) by (bit_vector)
        requires
            c0 == x % 0x100,
            c1 == (x / 0x100) % 0x100,
            c2 == (x / 0x1_0000) % 0x100,
            c3 == (x / 0x100_0000) % 0x100,
            c4 == (x / 0x1_0000_0000) % 0x100,
            c5 == (x / 0x100_0000_0000) % 0x100,
            c6 == (x / 0x1_0000_0000_0000) % 0x100,
            c7 == (x / 0x100_0000_0000_0000) % 0x100,
    ;
}

} // verus!
