//! Little-endian encodings of the integers that travel on the wire.

use vstd::prelude::*;

verus! {

/// The four bytes of `x`, least significant first.
pub open spec fn le_bytes_u32(x: u32) -> Seq<u8> {
    seq![
        (x % 256) as u8,
        ((x / 256) % 256) as u8,
        ((x / 65536) % 256) as u8,
        ((x / 16777216) % 256) as u8,
    ]
}

/// The number whose little-endian bytes are `b0`, `b1`.
pub open spec fn le_u16(b0: u8, b1: u8) -> int {
    b0 as int + 256 * (b1 as int)
}

/// The number whose little-endian bytes are the first four bytes of `s`.
pub open spec fn le_u32(s: Seq<u8>) -> int
    recommends
        s.len() >= 4,
{
    s[0] as int + 256 * (s[1] as int) + 65536 * (s[2] as int) + 16777216 * (s[3] as int)
}

/// The signed number whose two's complement, read as unsigned, is `u`.
pub open spec fn as_signed_32(u: int) -> int {
    if u < 0x8000_0000 {
        u
    } else {
        u - 0x1_0000_0000
    }
}

/// Encodes `x` as four bytes, least significant first.
pub fn u32_to_le_bytes(x: u32) -> (bytes: [u8; 4])
    ensures
        bytes@ == le_bytes_u32(x),
{
    let b0: u8 = (x % 256) as u8;
    let b1: u8 = ((x / 256) % 256) as u8;
    let b2: u8 = ((x / 65536) % 256) as u8;
    let b3: u8 = ((x / 16777216) % 256) as u8;
    let bytes: [u8; 4] = [b0, b1, b2, b3];
    assert(bytes@ =~= le_bytes_u32(x));
    bytes
}

/// Decodes two bytes, least significant first.
pub fn u16_from_le_bytes(b0: u8, b1: u8) -> (x: u16)
    ensures
        x as int == le_u16(b0, b1),
{
    (b0 as u16) + 256 * (b1 as u16)
}

/// Decodes the four bytes of `data` that start at `at`, least significant first.
pub fn u32_from_le_bytes(data: &[u8], at: usize) -> (x: u32)
    requires
        at + 4 <= data@.len(),
    ensures
        x as int == le_u32(data@.subrange(at as int, at + 4)),
{
    let b0: u32 = data[at] as u32;
    let b1: u32 = data[at + 1] as u32;
    let b2: u32 = data[at + 2] as u32;
    let b3: u32 = data[at + 3] as u32;
    b0 + 256 * b1 + 65536 * b2 + 16777216 * b3
}

/// Decodes the four bytes of `data` that start at `at` as a two's complement
/// number, least significant byte first.
pub fn i32_from_le_bytes(data: &[u8], at: usize) -> (x: i32)
    requires
        at + 4 <= data@.len(),
    ensures
        x as int == as_signed_32(le_u32(data@.subrange(at as int, at + 4))),
{
    let u: u32 = u32_from_le_bytes(data, at);
    if u < 0x8000_0000 {
        u as i32
    } else {
        let below: u32 = 0xffff_ffff - u;
        -(below as i32) - 1
    }
}

/// Decoding undoes encoding.
pub proof fn law_u32_round_trip(x: u32)
    ensures
        le_bytes_u32(x).len() == 4,
        le_u32(le_bytes_u32(x)) == x as int,
{
}

} // verus!
