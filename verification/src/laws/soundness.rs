//! What holds of the font files that are sound.

use crate::bytes::{byte_at, u16_at, u32_at};
use crate::lookups::{
    coverage_slot, coverage_sound, entry_sound, layout_sound, listed_sound, lookup_sound,
    ranges_ascend, subtable_sound,
};
use crate::outlines::{index_data, index_last, index_sound, outlines_sound};
use crate::sound::{
    groups_end, is_sound_face, map_sound, maps_sound, record_sound, table_sound, tables_sound,
};
use vstd::prelude::*;

verus! {

/// Numbers are read with the highest byte first; what lies past the end counts as
/// nought.
pub proof fn numbers_have_the_highest_byte_first(d: Seq<u8>, p: int)
    ensures
        0 <= p && p + 4 <= d.len() ==> u16_at(d, p) == 0x100 * d[p] + d[p + 1] && u32_at(d, p)
            == 0x100_0000 * d[p] + 0x1_0000 * d[p + 1] + 0x100 * d[p + 2] + d[p + 3],
        0 <= p && p < d.len() ==> byte_at(d, p) == d[p],
        p >= d.len() ==> byte_at(d, p) == 0 && u16_at(d, p) == 0 && u32_at(d, p) == 0,
{
}

/// Where a table of a sound face lies in the file, it can be read. The faces of a
/// collection have their tables listed at the offset that the collection gives, and
/// any other file has them listed behind its first four bytes.
pub proof fn tables_of_sound_faces_can_be_read(file: Seq<u8>, index: u32, at: int, k: int)
    requires
        is_sound_face(file, index),
        u32_at(file, 0) == 0x7474_6366 ==> index < u32_at(file, 8) && at == u32_at(
            file,
            12 + 4 * index,
        ) + 4,
        u32_at(file, 0) != 0x7474_6366 ==> at == 4,
        0 <= k < u16_at(file, at),
    ensures
        ({
            let record = at + 8 + 16 * k;
            let start = u32_at(file, record + 8);
            let end = start + u32_at(file, record + 12);
            end <= file.len() ==> table_sound(u32_at(file, record), file.subrange(start, end))
        }),
        u16_at(file, at) < 0xFFFF,
        file.len() <= 0xFF00_0000,
{
    assert(tables_sound(file, at));
    assert(record_sound(file, at + 8 + 16 * k));
}

/// A table is read by its tag: `cmap`, `GSUB` and `GPOS`, and `CFF ` among them.
pub proof fn tables_are_read_by_their_tags(d: Seq<u8>)
    ensures
        table_sound(0x636D_6170, d) == maps_sound(d),
        table_sound(0x4753_5542, d) == layout_sound(d, false),
        table_sound(0x4750_4F53, d) == layout_sound(d, true),
        table_sound(0x4346_4620, d) == outlines_sound(d),
{
}

/// In a layout table that can be read, all subtables of all lookups can be.
pub proof fn all_subtables_can_be_read(
    d: Seq<u8>,
    positions: bool,
    l: int,
    k: int,
    lookup: int,
)
    requires
        layout_sound(d, positions),
        u16_at(d, 0) == 1,
        0 <= l < u16_at(d, u16_at(d, 8)),
        u16_at(d, u16_at(d, 8) + 2 + 2 * l) != 0,
        lookup == u16_at(d, 8) + u16_at(d, u16_at(d, 8) + 2 + 2 * l),
        0 <= k < u16_at(d, lookup + 4),
    ensures
        subtable_sound(
            d,
            lookup + u16_at(d, lookup + 6 + 2 * k),
            u16_at(d, lookup),
            positions,
        ),
{
    assert(listed_sound(d, u16_at(d, 8), l, positions));
    assert(lookup_sound(d, lookup, positions));
    assert(entry_sound(d, lookup, k, positions));
}

/// In a subtable that can be read, no range of the coverage goes backwards, however
/// many there are.
pub proof fn ranges_of_coverages_ascend(
    d: Seq<u8>,
    at: int,
    kind: int,
    positions: bool,
    coverage: int,
    k: int,
)
    requires
        subtable_sound(d, at, kind, positions),
        kind != (if positions {
            9int
        } else {
            7int
        }),
        u16_at(d, at) != 3,
        coverage == at + u16_at(d, at + 2),
        u16_at(d, coverage) == 2,
        0 <= k < u16_at(d, coverage + 2),
        coverage + 4 + 6 * u16_at(d, coverage + 2) <= d.len(),
    ensures
        u16_at(d, coverage + 4 + 6 * k) <= u16_at(d, coverage + 6 + 6 * k),
        u16_at(d, coverage + 2) < 0xFFFF,
{
    assert(coverage_slot(d, at, kind, positions) == at + 2);
    assert(coverage_sound(d, coverage));
    assert(ranges_ascend(d, coverage, u16_at(d, coverage + 2)));
}

/// An extension that can be read leads to a subtable that can be, which is no
/// extension.
pub proof fn extensions_lead_elsewhere(d: Seq<u8>, at: int, positions: bool)
    requires
        u16_at(d, at) == 1,
        subtable_sound(
            d,
            at,
            if positions {
                9int
            } else {
                7int
            },
            positions,
        ),
    ensures
        u16_at(d, at + 2) != (if positions {
            9int
        } else {
            7int
        }),
        subtable_sound(d, at + u32_at(d, at + 4), u16_at(d, at + 2), positions),
{
}

/// Maps from characters to glyphs that can be read stop before the last number of 32
/// bits, in each of their groups.
pub proof fn maps_stop_before_the_last_number(d: Seq<u8>, m: int, at: int, k: int)
    requires
        maps_sound(d),
        0 <= m < u16_at(d, 2),
        at == u32_at(d, 8 + 8 * m),
        u16_at(d, at) == 12 || u16_at(d, at) == 13,
        at + 16 + 12 * u32_at(d, at + 12) <= d.len(),
        0 <= k < u32_at(d, at + 12),
    ensures
        u32_at(d, at + 20 + 12 * k) < 0xFFFF_FFFF,
{
    assert(map_sound(d, u32_at(d, 8 + 8 * m)));
    assert(groups_end(d, at, u32_at(d, at + 12)));
}

/// The items of an index that can be read end where 32 bits reach.
pub proof fn indexes_end_where_32_bits_reach(d: Seq<u8>, p: int)
    requires
        index_sound(d, p, false),
        0 < u16_at(d, p),
        1 <= byte_at(d, p + 2) <= 4,
        index_data(d, p, false) <= d.len(),
    ensures
        index_data(d, p, false) == p + 3 + (u16_at(d, p) + 1) * byte_at(d, p + 2),
        index_data(d, p, false) + index_last(d, p, false) < 0x1_0000_0000,
{
}

}
