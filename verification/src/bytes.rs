//! Little- and big-endian integer readers over a byte slice.

use vstd::prelude::*;

verus! {

/// The 16-bit little-endian integer stored at offset `i`.
pub open spec fn spec_le16(s: Seq<u8>, i: int) -> int {
    s[i] + 256 * s[i + 1]
}

/// The 32-bit little-endian integer stored at offset `i`.
pub open spec fn spec_le32(s: Seq<u8>, i: int) -> int {
    s[i] + 0x100 * s[i + 1] + 0x1_0000 * s[i + 2] + 0x100_0000 * s[i + 3]
}

/// The 32-bit big-endian integer stored at offset `i`.
pub open spec fn spec_be32(s: Seq<u8>, i: int) -> int {
    0x100_0000 * s[i] + 0x1_0000 * s[i + 1] + 0x100 * s[i + 2] + s[i + 3]
}

/// Reads the 16-bit little-endian integer at offset `i`.
pub fn le16_at(data: &[u8], i: usize) -> (r: u16)
    requires
        i + 2 <= data@.len(),
    ensures
        r == spec_le16(data@, i as int),
{
    (data[i] as u16) + 256 * (data[i + 1] as u16)
}

/// Reads the 32-bit little-endian integer at offset `i`.
pub fn le32_at(data: &[u8], i: usize) -> (r: u32)
    requires
        i + 4 <= data@.len(),
    ensures
        r == spec_le32(data@, i as int),
{
    (data[i] as u32) + 0x100 * (data[i + 1] as u32) + 0x1_0000 * (data[i + 2] as u32) + 0x100_0000
        * (data[i + 3] as u32)
}

/// Reads the 32-bit big-endian integer at offset `i`.
pub fn be32_at(data: &[u8], i: usize) -> (r: u32)
    requires
        i + 4 <= data@.len(),
    ensures
        r == spec_be32(data@, i as int),
{
    0x100_0000 * (data[i] as u32) + 0x1_0000 * (data[i + 1] as u32) + 0x100 * (data[i + 2] as u32)
        + (data[i + 3] as u32)
}

} // verus!
