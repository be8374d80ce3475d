//! Whether the layout tables of a font can be read: its substitutions (`GSUB`)
//! and its positions (`GPOS`).

use crate::bytes::{byte, byte_at, fits, read16, read32, u16_at, u32_at};
use vstd::prelude::*;

verus! {

/// Whether the records of a coverage in ranges go from a glyph to the same or a
/// later one.
pub open spec fn ranges_ascend(d: Seq<u8>, p: int, n: int) -> bool {
    forall|k: int|
        0 <= k < n ==> #[trigger] u16_at(d, p + 4 + 6 * k) <= u16_at(d, p + 6 + 6 * k)
}

/// Whether a coverage can be walked: one index is left to end the walk by, and no
/// range is backwards.
pub open spec fn coverage_sound(d: Seq<u8>, p: int) -> bool {
    let n = u16_at(d, p + 2);
    if u16_at(d, p) == 1 {
        n < 0xFFFF
    } else if u16_at(d, p) == 2 {
        n < 0xFFFF && (p + 4 + 6 * n <= d.len() ==> ranges_ascend(d, p, n))
    } else {
        true
    }
}

fn sound_coverage(d: &[u8], p: u64) -> (r: bool)
    requires
        p <= 0xFFFF_FFFF_FFFF,
    ensures
        r == coverage_sound(d@, p as int),
{
    let format: u64 = read16(d, p);
    let n: u64 = read16(d, p + 2);
    if format == 1 {
        return n < 0xFFFF;
    }
    if format != 2 {
        return true;
    }
    if n >= 0xFFFF {
        return false;
    }
    if p + 4 + 6 * n > d.len() as u64 {
        return true;
    }
    let mut k: u64 = 0;
    while k < n
        invariant
            p <= 0xFFFF_FFFF_FFFF,
            k <= n < 0xFFFF,
            n == u16_at(d@, p + 2),
            u16_at(d@, p as int) == 2,
            p + 4 + 6 * n <= d@.len(),
            ranges_ascend(d@, p as int, k as int),
        decreases n - k,
    {
        let start: u64 = read16(d, p + 4 + 6 * k);
        let end: u64 = read16(d, p + 6 + 6 * k);
        if start > end {
            assert(!ranges_ascend(d@, p as int, n as int));
            return false;
        }
        k = k + 1;
    }
    true
}

/// Whether a device table can be read: its last size is not below its first one,
/// and the sizes can be counted in 16 bits.
pub open spec fn device_sound(d: Seq<u8>, p: int) -> bool {
    1 <= u16_at(d, p + 4) <= 3 ==> 0 <= u16_at(d, p + 2) - u16_at(d, p) < 0xFFFF
}

fn sound_device(d: &[u8], p: u64) -> (r: bool)
    requires
        p <= 0xFFFF_FFFF_FFFF,
    ensures
        r == device_sound(d@, p as int),
{
    let first: u64 = read16(d, p);
    let last: u64 = read16(d, p + 2);
    let format: u64 = read16(d, p + 4);
    !(1 <= format && format <= 3) || (first <= last && last - first < 0xFFFF)
}

/// A bit of a byte.
pub open spec fn bit(b: int, weight: int) -> int {
    (b / weight) % 2
}

/// How many numbers stand in a value record before its device tables.
pub open spec fn plain_fields(flags: int) -> int {
    bit(flags, 1) + bit(flags, 2) + bit(flags, 4) + bit(flags, 8)
}

/// How many device tables a value record names.
pub open spec fn device_fields(flags: int) -> int {
    bit(flags, 16) + bit(flags, 32) + bit(flags, 64) + bit(flags, 128)
}

/// Whether a field of the value record of a single adjustment names no device
/// table, or one that can be read.
pub open spec fn field_sound(d: Seq<u8>, at: int, k: int) -> bool {
    u16_at(d, at + 6 + 2 * k) != 0 ==> device_sound(d, at + u16_at(d, at + 6 + 2 * k))
}

/// Whether the device tables of a single adjustment can be read.
pub open spec fn value_sound(d: Seq<u8>, at: int) -> bool {
    let flags = byte_at(d, at + 5);
    forall|k: int|
        plain_fields(flags) <= k < plain_fields(flags) + device_fields(flags)
            ==> #[trigger] field_sound(d, at, k)
}

fn sound_value(d: &[u8], at: u64) -> (r: bool)
    requires
        at <= 0xFFF_FFFF_FFFF,
    ensures
        r == value_sound(d@, at as int),
{
    let flags: u64 = byte(d, at + 5);
    let first: u64 = flags % 2 + (flags / 2) % 2 + (flags / 4) % 2 + (flags / 8) % 2;
    let more: u64 = (flags / 16) % 2 + (flags / 32) % 2 + (flags / 64) % 2 + (flags / 128) % 2;
    let mut k: u64 = first;
    while k < first + more
        invariant
            at <= 0xFFF_FFFF_FFFF,
            first <= 4,
            more <= 4,
            first <= k <= first + more,
            first == plain_fields(byte_at(d@, at + 5)),
            more == device_fields(byte_at(d@, at + 5)),
            forall|j: int| first <= j < k ==> #[trigger] field_sound(d@, at as int, j),
        decreases first + more - k,
    {
        let offset: u64 = read16(d, at + 6 + 2 * k);
        if offset != 0 && !sound_device(d, at + offset) {
            assert(!field_sound(d@, at as int, k as int));
            return false;
        }
        k = k + 1;
    }
    true
}

/// Where a lookup subtable holds the offset of its coverage. It is the first thing
/// after the format, but in contexts that are given glyph by glyph.
pub open spec fn coverage_slot(d: Seq<u8>, at: int, kind: int, positions: bool) -> int {
    let context: int = if positions {
        7
    } else {
        5
    };
    if u16_at(d, at) == 3 && kind == context {
        at + 6
    } else if u16_at(d, at) == 3 && kind == context + 1 {
        at + 6 + 2 * u16_at(d, at + 2)
    } else {
        at + 2
    }
}

/// Whether what a positioning subtable holds besides its coverage can be read:
/// the device tables of a single adjustment, and the matrices of pairs of classes
/// and of anchors, whose ends have to fit.
pub open spec fn position_sound(d: Seq<u8>, at: int, kind: int) -> bool {
    let format = u16_at(d, at);
    if kind == 1 && format == 1 {
        value_sound(d, at)
    } else if kind == 2 && format == 2 {
        fits(at + 16 + 32 * (u16_at(d, at + 12) * u16_at(d, at + 14)))
    } else if (kind == 4 || kind == 6) && format == 1 {
        let anchors = at + u16_at(d, at + 10);
        fits(anchors + 2 + 2 * (u16_at(d, anchors) * u16_at(d, at + 6)))
    } else {
        true
    }
}

fn product(a: u64, b: u64) -> (r: u64)
    requires
        a <= 0xFFFF,
        b <= 0xFFFF,
    ensures
        r == a * b,
        r <= 0xFFFE_0001,
{
    assert(a * b <= 0xFFFE_0001) by (nonlinear_arith)
        requires
            a <= 0xFFFF,
            b <= 0xFFFF,
    ;
    a * b
}

fn sound_position(d: &[u8], at: u64, kind: u64) -> (r: bool)
    requires
        at <= 0xFFF_FFFF_FFFF,
    ensures
        r == position_sound(d@, at as int, kind as int),
{
    let format: u64 = read16(d, at);
    if kind == 1 && format == 1 {
        sound_value(d, at)
    } else if kind == 2 && format == 2 {
        let cells: u64 = product(read16(d, at + 12), read16(d, at + 14));
        at + 16 + 32 * cells <= 0xFFFF_FFFF
    } else if (kind == 4 || kind == 6) && format == 1 {
        let anchors: u64 = at + read16(d, at + 10);
        let cells: u64 = product(read16(d, anchors), read16(d, at + 6));
        anchors + 2 + 2 * cells <= 0xFFFF_FFFF
    } else {
        true
    }
}

/// Whether a lookup subtable that is no extension can be read.
pub open spec fn plain_sound(d: Seq<u8>, at: int, kind: int, positions: bool) -> bool {
    &&& coverage_sound(d, at + u16_at(d, coverage_slot(d, at, kind, positions)))
    &&& positions ==> position_sound(d, at, kind)
}

fn sound_plain(d: &[u8], at: u64, kind: u64, positions: bool) -> (r: bool)
    requires
        at <= 0xFFF_FFFF_FFFF,
    ensures
        r == plain_sound(d@, at as int, kind as int, positions),
{
    let context: u64 = if positions {
        7
    } else {
        5
    };
    let format: u64 = read16(d, at);
    let slot: u64 = if format == 3 && kind == context {
        at + 6
    } else if format == 3 && kind == context + 1 {
        at + 6 + 2 * read16(d, at + 2)
    } else {
        at + 2
    };
    sound_coverage(d, at + read16(d, slot)) && (!positions || sound_position(d, at, kind))
}

/// The kind of lookup that only says where another subtable is.
pub open spec fn extension(positions: bool) -> int {
    if positions {
        9
    } else {
        7
    }
}

/// Whether a lookup subtable can be read: as it is, or, for an extension, where it
/// leads, which is not to another extension.
pub open spec fn subtable_sound(d: Seq<u8>, at: int, kind: int, positions: bool) -> bool {
    if kind != extension(positions) {
        plain_sound(d, at, kind, positions)
    } else if u16_at(d, at) == 1 {
        &&& u16_at(d, at + 2) != extension(positions)
        &&& plain_sound(d, at + u32_at(d, at + 4), u16_at(d, at + 2), positions)
    } else {
        true
    }
}

fn sound_subtable(d: &[u8], at: u64, kind: u64, positions: bool) -> (r: bool)
    requires
        at <= 0xFFFF_FFFF,
    ensures
        r == subtable_sound(d@, at as int, kind as int, positions),
{
    let extension: u64 = if positions {
        9
    } else {
        7
    };
    if kind != extension {
        return sound_plain(d, at, kind, positions);
    }
    if read16(d, at) != 1 {
        return true;
    }
    let inner: u64 = read16(d, at + 2);
    inner != extension && sound_plain(d, at + read32(d, at + 4), inner, positions)
}

/// Whether the subtable `k` of a lookup can be read.
pub open spec fn entry_sound(d: Seq<u8>, at: int, k: int, positions: bool) -> bool {
    subtable_sound(d, at + u16_at(d, at + 6 + 2 * k), u16_at(d, at), positions)
}

/// Whether all subtables of a lookup can be read.
pub open spec fn lookup_sound(d: Seq<u8>, at: int, positions: bool) -> bool {
    forall|k: int| 0 <= k < u16_at(d, at + 4) ==> #[trigger] entry_sound(d, at, k, positions)
}

fn sound_lookup(d: &[u8], at: u64, positions: bool) -> (r: bool)
    requires
        at <= 0xFFF_FFFF,
    ensures
        r == lookup_sound(d@, at as int, positions),
{
    let kind: u64 = read16(d, at);
    let n: u64 = read16(d, at + 4);
    let mut k: u64 = 0;
    while k < n
        invariant
            at <= 0xFFF_FFFF,
            k <= n <= 0xFFFF,
            kind == u16_at(d@, at as int),
            n == u16_at(d@, at + 4),
            forall|j: int| 0 <= j < k ==> #[trigger] entry_sound(d@, at as int, j, positions),
        decreases n - k,
    {
        if !sound_subtable(d, at + read16(d, at + 6 + 2 * k), kind, positions) {
            assert(!entry_sound(d@, at as int, k as int, positions));
            return false;
        }
        k = k + 1;
    }
    true
}

/// Whether the lookup `k` of a list is left out or can be read.
pub open spec fn listed_sound(d: Seq<u8>, list: int, k: int, positions: bool) -> bool {
    let offset = u16_at(d, list + 2 + 2 * k);
    offset != 0 ==> lookup_sound(d, list + offset, positions)
}

/// Whether the variations of features end where it fits.
pub open spec fn variations_sound(d: Seq<u8>) -> bool {
    let at = u32_at(d, 10);
    u16_at(d, 2) >= 1 && at != 0 && u16_at(d, at) == 1 ==> fits(at + 8 + 8 * u32_at(d, at + 4))
}

/// Whether a layout table can be read: one of positions, or one of substitutions.
pub open spec fn layout_sound(d: Seq<u8>, positions: bool) -> bool {
    let list = u16_at(d, 8);
    u16_at(d, 0) == 1 ==> variations_sound(d) && forall|k: int|
        0 <= k < u16_at(d, list) ==> #[trigger] listed_sound(d, list, k, positions)
}

pub(crate) fn sound_layout(d: &[u8], positions: bool) -> (r: bool)
    ensures
        r == layout_sound(d@, positions),
{
    if read16(d, 0) != 1 {
        return true;
    }
    let at: u64 = read32(d, 10);
    if read16(d, 2) >= 1 && at != 0 && read16(d, at) == 1 && at + 8 + 8 * read32(d, at + 4)
        > 0xFFFF_FFFF {
        return false;
    }
    let list: u64 = read16(d, 8);
    let n: u64 = read16(d, list);
    let mut k: u64 = 0;
    while k < n
        invariant
            u16_at(d@, 0) == 1,
            list <= 0xFFFF,
            k <= n <= 0xFFFF,
            list == u16_at(d@, 8),
            n == u16_at(d@, list as int),
            forall|j: int| 0 <= j < k ==> #[trigger] listed_sound(d@, list as int, j, positions),
        decreases n - k,
    {
        let offset: u64 = read16(d, list + 2 + 2 * k);
        if offset != 0 && !sound_lookup(d, list + offset, positions) {
            assert(!listed_sound(d@, list as int, k as int, positions));
            return false;
        }
        k = k + 1;
    }
    true
}

}
