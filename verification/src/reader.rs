//! Fixed-offset, little-endian integer reads over a byte buffer.
//!
//! Reads are total: a read whose span does not lie inside the buffer
//! yields zero instead of failing, so field access never panics even on
//! an accidental out-of-range offset.

use vstd::prelude::*;

verus! {

/// The byte at `off`, or zero when `off` is out of range.
pub open spec fn spec_read_u8(s: Seq<u8>, off: int) -> u8 {
    if 0 <= off && off < s.len() {
        s[off]
    } else {
        0
    }
}

/// The little-endian 16-bit value at `off`, or zero when out of range.
pub open spec fn spec_read_u16_le(s: Seq<u8>, off: int) -> u16 {
    if 0 <= off && off + 2 <= s.len() {
        ((s[off] as int) + 0x100 * (s[off + 1] as int)) as u16
    } else {
        0
    }
}

/// The little-endian 32-bit value at `off`, or zero when out of range.
pub open spec fn spec_read_u32_le(s: Seq<u8>, off: int) -> u32 {
    if 0 <= off && off + 4 <= s.len() {
        ((s[off] as int) + 0x100 * (s[off + 1] as int) + 0x1_0000 * (s[off + 2] as int)
            + 0x100_0000 * (s[off + 3] as int)) as u32
    } else {
        0
    }
}

pub fn read_u8<const N: usize>(data: &[u8; N], offset: usize) -> (r: u8)
    ensures
        r == spec_read_u8(data@, offset as int),
{
    if offset < N {
        data[offset]
    } else {
        0
    }
}

pub fn read_u16_le<const N: usize>(data: &[u8; N], offset: usize) -> (r: u16)
    ensures
        r == spec_read_u16_le(data@, offset as int),
{
    if N >= 2 && offset <= N - 2 {
        (data[offset] as u16) + 0x100 * (data[offset + 1] as u16)
    } else {
        0
    }
}

pub fn read_u32_le<const N: usize>(data: &[u8; N], offset: usize) -> (r: u32)
    ensures
        r == spec_read_u32_le(data@, offset as int),
{
    if N >= 4 && offset <= N - 4 {
        (data[offset] as u32) + 0x100 * (data[offset + 1] as u32) + 0x1_0000 * (data[offset
            + 2] as u32) + 0x100_0000 * (data[offset + 3] as u32)
    } else {
        0
    }
}

} // verus!
