//! Little-endian integer fields in byte buffers.

use vstd::prelude::*;

verus! {

pub open spec fn le16(s: Seq<u8>, off: int) -> nat {
    s[off] as nat + 0x100 * s[off + 1] as nat
}

pub open spec fn le32(s: Seq<u8>, off: int) -> nat {
    le16(s, off) + 0x10000 * le16(s, off + 2)
}

pub open spec fn le64(s: Seq<u8>, off: int) -> nat {
    le32(s, off) + 0x1_0000_0000 * le32(s, off + 4)
}

/// The little-endian `u16` at `data[off..off + 2]`.
pub fn read_u16(data: &[u8], off: usize) -> (r: u16)
    requires
        off + 2 <= data.len(),
    ensures
        r as nat == le16(data@, off as int),
{
    let a = data[off];
    let b = data[off + 1];
    let r = (a as u16) | ((b as u16) << 8);
    assert(r == a as u16 + 256 * (b as u16)) by (bit_vector)
        requires
            r == (a as u16) | ((b as u16) << 8),
    ;
    r
}

/// The little-endian `u32` at `data[off..off + 4]`.
pub fn read_u32(data: &[u8], off: usize) -> (r: u32)
    requires
        off + 4 <= data.len(),
    ensures
        r as nat == le32(data@, off as int),
{
    let lo = read_u16(data, off);
    let hi = read_u16(data, off + 2);
    let r = (lo as u32) | ((hi as u32) << 16);
    assert(r == lo as u32 + 0x10000 * (hi as u32)) by (bit_vector)
        requires
            r == (lo as u32) | ((hi as u32) << 16),
    ;
    r
}

/// The little-endian `u64` at `data[off..off + 8]`.
pub fn read_u64(data: &[u8], off: usize) -> (r: u64)
    requires
        off + 8 <= data.len(),
    ensures
        r as nat == le64(data@, off as int),
{
    let lo = read_u32(data, off);
    let hi = read_u32(data, off + 4);
    let r = (lo as u64) | ((hi as u64) << 32);
    assert(r == lo as u64 + 0x1_0000_0000 * (hi as u64)) by (bit_vector)
        requires
            r == (lo as u64) | ((hi as u64) << 32),
    ;
    r
}

} // verus!
