//! Little-endian primitive reads over a byte buffer.
//!
//! Every multi-byte integer in the package format is stored little-endian.
//! The spec functions define the value of a read mathematically; the
//! executable readers are proved to return exactly that value.

use vstd::prelude::*;

verus! {

/// The 16-bit little-endian integer stored at byte offset `i`.
pub open spec fn le16(b: Seq<u8>, i: int) -> u16
    recommends
        0 <= i,
        i + 2 <= b.len(),
{
    (b[i] + b[i + 1] * 0x100) as u16
}

/// The 32-bit little-endian integer stored at byte offset `i`.
pub open spec fn le32(b: Seq<u8>, i: int) -> u32
    recommends
        0 <= i,
        i + 4 <= b.len(),
{
    (b[i] + b[i + 1] * 0x100 + b[i + 2] * 0x1_0000 + b[i + 3] * 0x100_0000) as u32
}

/// The 64-bit little-endian integer stored at byte offset `i`.
pub open spec fn le64(b: Seq<u8>, i: int) -> u64
    recommends
        0 <= i,
        i + 8 <= b.len(),
{
    (b[i] + b[i + 1] * 0x100 + b[i + 2] * 0x1_0000 + b[i + 3] * 0x100_0000
        + b[i + 4] * 0x1_0000_0000 + b[i + 5] * 0x100_0000_0000
        + b[i + 6] * 0x1_0000_0000_0000 + b[i + 7] * 0x100_0000_0000_0000) as u64
}

/// Reads the byte at offset `i`.
pub fn read_u8(b: &[u8], i: usize) -> (r: u8)
    requires
        i < b@.len(),
    ensures
        r == b@[i as int],
{
    b[i]
}

/// Reads the 16-bit little-endian integer at offset `i`.
pub fn read_u16(b: &[u8], i: usize) -> (r: u16)
    requires
        i + 2 <= b@.len(),
    ensures
        r == le16(b@, i as int),
{
    (b[i] as u16) + (b[i + 1] as u16) * 0x100
}

/// Reads the 32-bit little-endian integer at offset `i`.
pub fn read_u32(b: &[u8], i: usize) -> (r: u32)
    requires
        i + 4 <= b@.len(),
    ensures
        r == le32(b@, i as int),
{
    (b[i] as u32) + (b[i + 1] as u32) * 0x100 + (b[i + 2] as u32) * 0x1_0000
        + (b[i + 3] as u32) * 0x100_0000
}

/// Reads the 64-bit little-endian integer at offset `i`.
pub fn read_u64(b: &[u8], i: usize) -> (r: u64)
    requires
        i + 8 <= b@.len(),
    ensures
        r == le64(b@, i as int),
{
    (b[i] as u64) + (b[i + 1] as u64) * 0x100 + (b[i + 2] as u64) * 0x1_0000
        + (b[i + 3] as u64) * 0x100_0000 + (b[i + 4] as u64) * 0x1_0000_0000
        + (b[i + 5] as u64) * 0x100_0000_0000 + (b[i + 6] as u64) * 0x1_0000_0000_0000
        + (b[i + 7] as u64) * 0x100_0000_0000_0000
}

} // verus!
