//! Fixed-width integer decoding from byte buffers.

use vstd::prelude::*;

verus! {

/// Little-endian value of the two bytes at `at`.
pub open spec fn le16(s: Seq<u8>, at: int) -> int {
    s[at] + 256 * s[at + 1]
}

/// Little-endian value of the three bytes at `at`.
pub open spec fn le24(s: Seq<u8>, at: int) -> int {
    le16(s, at) + 65536 * s[at + 2]
}

/// Little-endian value of the four bytes at `at`.
pub open spec fn le32(s: Seq<u8>, at: int) -> int {
    le24(s, at) + 16777216 * s[at + 3]
}

/// Little-endian value of the eight bytes at `at`.
pub open spec fn le64(s: Seq<u8>, at: int) -> int {
    le32(s, at) + 4294967296 * le32(s, at + 4)
}

/// Big-endian value of the two bytes at `at`.
pub open spec fn be16(s: Seq<u8>, at: int) -> int {
    256 * s[at] + s[at + 1]
}

/// Two's-complement reading of a 32-bit pattern.
pub open spec fn as_signed32(v: int) -> int {
    if v >= 0x8000_0000 {
        v - 0x1_0000_0000
    } else {
        v
    }
}

pub fn read_le16(s: &[u8], at: usize) -> (r: u16)
    requires
        at + 2 <= s.len(),
    ensures
        r == le16(s@, at as int),
{
    (s[at] as u16) + (s[at + 1] as u16) * 256
}

pub fn read_be16(s: &[u8], at: usize) -> (r: u16)
    requires
        at + 2 <= s.len(),
    ensures
        r == be16(s@, at as int),
{
    (s[at] as u16) * 256 + (s[at + 1] as u16)
}

pub fn read_le24(s: &[u8], at: usize) -> (r: u32)
    requires
        at + 3 <= s.len(),
    ensures
        r == le24(s@, at as int),
{
    (s[at] as u32) + (s[at + 1] as u32) * 256 + (s[at + 2] as u32) * 65536
}

pub fn read_le32(s: &[u8], at: usize) -> (r: u32)
    requires
        at + 4 <= s.len(),
    ensures
        r == le32(s@, at as int),
{
    (s[at] as u32) + (s[at + 1] as u32) * 256 + (s[at + 2] as u32) * 65536 + (s[at + 3] as u32)
        * 16777216
}

pub fn read_le64(s: &[u8], at: usize) -> (r: u64)
    requires
        at + 8 <= s.len(),
    ensures
        r == le64(s@, at as int),
{
    let lo = read_le32(s, at) as u64;
    let hi = read_le32(s, at + 4) as u64;
    assert(hi * 4294967296 <= 0xffff_ffff_0000_0000) by (nonlinear_arith)
        requires
            hi <= 0xffff_ffff,
    ;
    lo + hi * 4294967296
}

pub fn read_le_i32(s: &[u8], at: usize) -> (r: i32)
    requires
        at + 4 <= s.len(),
    ensures
        r == as_signed32(le32(s@, at as int)),
{
    let v = read_le32(s, at);
    if v >= 0x8000_0000 {
        let low = (v - 0x8000_0000) as i32;
        low - 0x7fff_ffff - 1
    } else {
        v as i32
    }
}

} // verus!
