//! Little-endian decoding of integers from byte buffers.

use vstd::prelude::*;

verus! {

/// Value of the little-endian `u16` stored at `off`.
pub open spec fn le_u16(s: Seq<u8>, off: int) -> int {
    s[off] + s[off + 1] * 0x100
}

/// Value of the little-endian `u32` stored at `off`.
pub open spec fn le_u32(s: Seq<u8>, off: int) -> int {
    le_u16(s, off) + le_u16(s, off + 2) * 0x1_0000
}

/// Value of the little-endian `u64` stored at `off`.
pub open spec fn le_u64(s: Seq<u8>, off: int) -> int {
    le_u32(s, off) + le_u32(s, off + 4) * 0x1_0000_0000
}

/// Reads a little-endian `u16` at `off`.
pub fn read_u16(b: &[u8], off: usize) -> (r: u16)
    requires
        off + 2 <= b@.len(),
    ensures
        r == le_u16(b@, off as int),
{
    b[off] as u16 + (b[off + 1] as u16) * 0x100
}

/// Reads a little-endian `u32` at `off`.
pub fn read_u32(b: &[u8], off: usize) -> (r: u32)
    requires
        off + 4 <= b@.len(),
    ensures
        r == le_u32(b@, off as int),
{
    let _len = b.len();
    let lo = read_u16(b, off);
    let hi = read_u16(b, off + 2);
    lo as u32 + (hi as u32) * 0x1_0000
}

/// Reads a little-endian `u64` at `off`.
pub fn read_u64(b: &[u8], off: usize) -> (r: u64)
    requires
        off + 8 <= b@.len(),
    ensures
        r == le_u64(b@, off as int),
{
    let _len = b.len();
    let lo = read_u32(b, off);
    let hi = read_u32(b, off + 4);
    lo as u64 + (hi as u64) * 0x1_0000_0000
}

/// Stores `v` little-endian at `off`, leaving every other byte as it was.
pub fn write_u16(b: &mut Vec<u8>, off: usize, v: u16)
    requires
        off + 2 <= old(b)@.len(),
    ensures
        final(b)@.len() == old(b)@.len(),
        le_u16(final(b)@, off as int) == v,
        forall|i: int|
            0 <= i < old(b)@.len() && !(off <= i < off + 2) ==> final(b)@[i] == old(b)@[i],
{
    let _len = b.len();
    b.set(off, (v % 0x100) as u8);
    b.set(off + 1, (v / 0x100) as u8);
}

/// Stores `v` little-endian at `off`, leaving every other byte as it was.
pub fn write_u32(b: &mut Vec<u8>, off: usize, v: u32)
    requires
        off + 4 <= old(b)@.len(),
    ensures
        final(b)@.len() == old(b)@.len(),
        le_u32(final(b)@, off as int) == v,
        forall|i: int|
            0 <= i < old(b)@.len() && !(off <= i < off + 4) ==> final(b)@[i] == old(b)@[i],
{
    let _len = b.len();
    write_u16(b, off, (v % 0x1_0000) as u16);
    write_u16(b, off + 2, (v / 0x1_0000) as u16);
}

/// Stores `v` little-endian at `off`, leaving every other byte as it was.
pub fn write_u64(b: &mut Vec<u8>, off: usize, v: u64)
    requires
        off + 8 <= old(b)@.len(),
    ensures
        final(b)@.len() == old(b)@.len(),
        le_u64(final(b)@, off as int) == v,
        forall|i: int|
            0 <= i < old(b)@.len() && !(off <= i < off + 8) ==> final(b)@[i] == old(b)@[i],
{
    let _len = b.len();
    write_u32(b, off, (v % 0x1_0000_0000) as u32);
    write_u32(b, off + 4, (v / 0x1_0000_0000) as u32);
}

} // verus!
