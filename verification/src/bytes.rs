//! Numbers in the bytes of a file, the highest byte first.

use vstd::prelude::*;

verus! {

/// The byte at a position, and zero past the end.
pub open spec fn byte_at(d: Seq<u8>, p: int) -> int {
    if 0 <= p < d.len() {
        d[p] as int
    } else {
        0
    }
}

/// The two bytes at a position as a number.
pub open spec fn u16_at(d: Seq<u8>, p: int) -> int {
    byte_at(d, p) * 256 + byte_at(d, p + 1)
}

/// The four bytes at a position as a number.
pub open spec fn u32_at(d: Seq<u8>, p: int) -> int {
    u16_at(d, p) * 65536 + u16_at(d, p + 2)
}

/// Whether a position can be counted to in 32 bits.
pub open spec fn fits(p: int) -> bool {
    p <= 0xFFFF_FFFF
}

/// The byte at a position, and zero past the end.
pub(crate) fn byte(d: &[u8], p: u64) -> (r: u64)
    ensures
        r == byte_at(d@, p as int),
        r <= 0xFF,
{
    if p < d.len() as u64 {
        d[p as usize] as u64
    } else {
        0
    }
}

/// The two bytes at a position as a number.
pub(crate) fn read16(d: &[u8], p: u64) -> (r: u64)
    requires
        p < u64::MAX,
    ensures
        r == u16_at(d@, p as int),
        r <= 0xFFFF,
{
    byte(d, p) * 256 + byte(d, p + 1)
}

/// The four bytes at a position as a number.
pub(crate) fn read32(d: &[u8], p: u64) -> (r: u64)
    requires
        p < u64::MAX - 2,
    ensures
        r == u32_at(d@, p as int),
        r <= 0xFFFF_FFFF,
{
    read16(d, p) * 65536 + read16(d, p + 2)
}

}
