//! Little-endian reads of fixed-width fields out of byte tables.
use vstd::prelude::*;

verus! {

/// The 16-bit little-endian number at `i`.
pub open spec fn le16(s: Seq<u8>, i: int) -> int {
    s[i] + s[i + 1] * 0x100
}

/// The 32-bit little-endian number at `i`.
pub open spec fn le32(s: Seq<u8>, i: int) -> int {
    le16(s, i) + le16(s, i + 2) * 0x1_0000
}

/// The 64-bit little-endian number at `i`.
pub open spec fn le64(s: Seq<u8>, i: int) -> int {
    le32(s, i) + le32(s, i + 4) * 0x1_0000_0000
}

/// The 16-bit little-endian field at `i` of `b`.
pub fn read_le16(b: &[u8], i: usize) -> (r: u16)
    requires
        i + 2 <= b@.len(),
    ensures
        r == le16(b@, i as int),
{
    b[i] as u16 + (b[i + 1] as u16) * 0x100
}

/// The 32-bit little-endian field at `i` of `b`.
pub fn read_le32(b: &[u8], i: usize) -> (r: u32)
    requires
        i + 4 <= b@.len(),
    ensures
        r == le32(b@, i as int),
{
    proof {
        assert(b@.len() == b.len());
    }
    read_le16(b, i) as u32 + (read_le16(b, i + 2) as u32) * 0x1_0000
}

/// The 64-bit little-endian field at `i` of `b`.
pub fn read_le64(b: &[u8], i: usize) -> (r: u64)
    requires
        i + 8 <= b@.len(),
    ensures
        r == le64(b@, i as int),
{
    proof {
        assert(b@.len() == b.len());
    }
    read_le32(b, i) as u64 + (read_le32(b, i + 4) as u64) * 0x1_0000_0000
}

} // verus!
