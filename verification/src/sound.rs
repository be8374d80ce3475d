//! Whether a font file is sound, that is, whether a reader that counts positions in
//! 32 bits and glyphs in 16 gets through it. A file can be sound and hold no face;
//! one that is not sound has numbers in it that lead such a reader astray.

use crate::bytes::{fits, read16, read32, u16_at, u32_at};
use crate::lookups::{layout_sound, sound_layout};
use crate::outlines::{outlines2_sound, outlines_sound, sound_outlines, sound_outlines2};
use crate::variations::{metrics_sound, sound_metrics, sound_store, store_sound};
use vstd::prelude::*;
use vstd::slice::slice_subrange;

verus! {

// The tags of tables, and of a collection of faces, as numbers.
pub const CMAP: u64 = 0x636D_6170;

pub const GSUB: u64 = 0x4753_5542;

pub const GPOS: u64 = 0x4750_4F53;

pub const CFF: u64 = 0x4346_4620;

pub const CFF2: u64 = 0x4346_4632;

pub const COLR: u64 = 0x434F_4C52;

pub const SBIX: u64 = 0x7362_6978;

pub const OS2: u64 = 0x4F53_2F32;

pub const GDEF: u64 = 0x4744_4546;

pub const HVAR: u64 = 0x4856_4152;

pub const VVAR: u64 = 0x5656_4152;

pub const MVAR: u64 = 0x4D56_4152;

pub const TTCF: u64 = 0x7474_6366;

// ------------------------------------------------------- from characters to glyphs

/// Whether no group of characters reaches the last number of 32 bits.
pub open spec fn groups_end(d: Seq<u8>, at: int, n: int) -> bool {
    forall|k: int| 0 <= k < n ==> #[trigger] u32_at(d, at + 20 + 12 * k) < 0xFFFF_FFFF
}

/// Whether a map from characters to glyphs can be walked: it ends where it fits,
/// and behind each character that it holds another number is left.
pub open spec fn map_sound(d: Seq<u8>, at: int) -> bool {
    let format = u16_at(d, at);
    if format == 10 {
        &&& fits(at + 20 + 2 * u32_at(d, at + 16))
        &&& u32_at(d, at + 12) + u32_at(d, at + 16) <= 0xFFFF_FFFF
    } else if format == 12 || format == 13 {
        let n = u32_at(d, at + 12);
        &&& fits(at + 16 + 12 * n)
        &&& at + 16 + 12 * n <= d.len() ==> groups_end(d, at, n)
    } else if format == 14 {
        fits(at + 10 + 11 * u32_at(d, at + 6))
    } else {
        true
    }
}

fn groups_sound(d: &[u8], at: u64, n: u64) -> (r: bool)
    requires
        at <= 0xFFFF_FFFF,
        n <= 0xFFFF_FFFF,
    ensures
        r == groups_end(d@, at as int, n as int),
{
    let mut k: u64 = 0;
    while k < n
        invariant
            at <= 0xFFFF_FFFF,
            k <= n <= 0xFFFF_FFFF,
            groups_end(d@, at as int, k as int),
        decreases n - k,
    {
        if read32(d, at + 20 + 12 * k) == 0xFFFF_FFFF {
            assert(!groups_end(d@, at as int, n as int));
            return false;
        }
        k = k + 1;
    }
    true
}

fn sound_map(d: &[u8], at: u64) -> (r: bool)
    requires
        at <= 0xFFFF_FFFF,
    ensures
        r == map_sound(d@, at as int),
{
    let format: u64 = read16(d, at);
    if format == 10 {
        let n: u64 = read32(d, at + 16);
        at + 20 + 2 * n <= 0xFFFF_FFFF && read32(d, at + 12) + n <= 0xFFFF_FFFF
    } else if format == 12 || format == 13 {
        let n: u64 = read32(d, at + 12);
        at + 16 + 12 * n <= 0xFFFF_FFFF && (at + 16 + 12 * n > d.len() as u64 || groups_sound(
            d,
            at,
            n,
        ))
    } else if format == 14 {
        at + 10 + 11 * read32(d, at + 6) <= 0xFFFF_FFFF
    } else {
        true
    }
}

/// Whether all maps from characters to glyphs (`cmap`) can be walked.
pub open spec fn maps_sound(d: Seq<u8>) -> bool {
    forall|k: int|
        0 <= k < u16_at(d, 2) ==> map_sound(d, #[trigger] u32_at(d, 8 + 8 * k))
}

fn sound_maps(d: &[u8]) -> (r: bool)
    ensures
        r == maps_sound(d@),
{
    let n: u64 = read16(d, 2);
    let mut k: u64 = 0;
    while k < n
        invariant
            k <= n <= 0xFFFF,
            n == u16_at(d@, 2),
            forall|j: int| 0 <= j < k ==> map_sound(d@, #[trigger] u32_at(d@, 8 + 8 * j)),
        decreases n - k,
    {
        if !sound_map(d, read32(d, 8 + 8 * k)) {
            assert(!map_sound(d@, u32_at(d@, 8 + 8 * k)));
            return false;
        }
        k = k + 1;
    }
    true
}

// -------------------------------------------------------------------- other tables

/// Whether the paints of coloured glyphs (`COLR`) can be read: the lists of glyphs,
/// layers and clips end where it fits, and so for the variation store.
pub open spec fn paints_sound(d: Seq<u8>) -> bool {
    let glyphs = u32_at(d, 14);
    let layers = u32_at(d, 18);
    let clips = u32_at(d, 22);
    let store = u32_at(d, 30);
    u16_at(d, 0) == 1 ==> {
        &&& fits(glyphs + 4 + 6 * u32_at(d, glyphs))
        &&& layers != 0 ==> fits(layers + 4 + 4 * u32_at(d, layers))
        &&& clips != 0 ==> fits(clips + 5 + 7 * u32_at(d, clips + 1))
        &&& store != 0 ==> store_sound(d, store)
    }
}

fn sound_paints(d: &[u8]) -> (r: bool)
    ensures
        r == paints_sound(d@),
{
    if read16(d, 0) != 1 {
        return true;
    }
    let glyphs: u64 = read32(d, 14);
    let layers: u64 = read32(d, 18);
    let clips: u64 = read32(d, 22);
    let store: u64 = read32(d, 30);
    glyphs + 4 + 6 * read32(d, glyphs) <= 0xFFFF_FFFF && (layers == 0 || layers + 4 + 4 * read32(
        d,
        layers,
    ) <= 0xFFFF_FFFF) && (clips == 0 || clips + 5 + 7 * read32(d, clips + 1) <= 0xFFFF_FFFF) && (
    store == 0 || sound_store(d, store))
}

/// Whether the list of bitmaps (`sbix`) ends where it fits.
pub open spec fn bitmaps_sound(d: Seq<u8>) -> bool {
    u16_at(d, 0) == 1 ==> fits(8 + 4 * u32_at(d, 4))
}

/// Whether the descent (`OS/2`) can be negated in 16 bits, where it is what tells
/// how deep the glyphs go.
pub open spec fn descent_sound(d: Seq<u8>) -> bool {
    u16_at(d, 70) == 0 ==> u16_at(d, 76) != 0x8000
}

/// Whether the variation store of the definitions of glyphs (`GDEF`) can be read.
pub open spec fn definitions_sound(d: Seq<u8>) -> bool {
    u32_at(d, 0) == 0x0001_0003 && u32_at(d, 14) != 0 ==> store_sound(d, u32_at(d, 14))
}

/// Whether the variation store of advances (`HVAR` and `VVAR`) can be read.
pub open spec fn advances_sound(d: Seq<u8>) -> bool {
    u32_at(d, 0) == 0x0001_0000 ==> store_sound(d, u32_at(d, 4))
}

/// Whether a table can be read, by its tag.
pub open spec fn table_sound(tag: int, d: Seq<u8>) -> bool {
    if tag == CMAP {
        maps_sound(d)
    } else if tag == GSUB {
        layout_sound(d, false)
    } else if tag == GPOS {
        layout_sound(d, true)
    } else if tag == CFF {
        outlines_sound(d)
    } else if tag == CFF2 {
        outlines2_sound(d)
    } else if tag == COLR {
        paints_sound(d)
    } else if tag == SBIX {
        bitmaps_sound(d)
    } else if tag == OS2 {
        descent_sound(d)
    } else if tag == GDEF {
        definitions_sound(d)
    } else if tag == HVAR || tag == VVAR {
        advances_sound(d)
    } else if tag == MVAR {
        metrics_sound(d)
    } else {
        true
    }
}

fn sound_table(tag: u64, d: &[u8]) -> (r: bool)
    requires
        d@.len() <= 0xFF00_0000,
    ensures
        r == table_sound(tag as int, d@),
{
    if tag == CMAP {
        sound_maps(d)
    } else if tag == GSUB {
        sound_layout(d, false)
    } else if tag == GPOS {
        sound_layout(d, true)
    } else if tag == CFF {
        sound_outlines(d)
    } else if tag == CFF2 {
        sound_outlines2(d)
    } else if tag == COLR {
        sound_paints(d)
    } else if tag == SBIX {
        read16(d, 0) != 1 || 8 + 4 * read32(d, 4) <= 0xFFFF_FFFF
    } else if tag == OS2 {
        read16(d, 70) != 0 || read16(d, 76) != 0x8000
    } else if tag == GDEF {
        let store: u64 = read32(d, 14);
        read32(d, 0) != 0x0001_0003 || store == 0 || sound_store(d, store)
    } else if tag == HVAR || tag == VVAR {
        read32(d, 0) != 0x0001_0000 || sound_store(d, read32(d, 4))
    } else if tag == MVAR {
        sound_metrics(d)
    } else {
        true
    }
}

// --------------------------------------------------------------------------- faces

/// Whether the table that a record of a face tells of lies outside the file or can
/// be read.
pub open spec fn record_sound(file: Seq<u8>, p: int) -> bool {
    let start = u32_at(file, p + 8);
    let end = start + u32_at(file, p + 12);
    end <= file.len() ==> table_sound(u32_at(file, p), file.subrange(start, end))
}

fn sound_record(file: &[u8], p: u64) -> (r: bool)
    requires
        p <= 0xFFFF_FFFF_FFFF,
        file@.len() <= 0xFF00_0000,
    ensures
        r == record_sound(file@, p as int),
{
    let start: u64 = read32(file, p + 8);
    let end: u64 = start + read32(file, p + 12);
    end > file.len() as u64 || sound_table(
        read32(file, p),
        slice_subrange(file, start as usize, end as usize),
    )
}

/// Whether the tables of a face can be read whose list begins at a position, and
/// the list can be walked, with one index left to end the walk by.
pub open spec fn tables_sound(file: Seq<u8>, at: int) -> bool {
    &&& u16_at(file, at) < 0xFFFF
    &&& forall|k: int|
        0 <= k < u16_at(file, at) ==> #[trigger] record_sound(file, at + 8 + 16 * k)
}

fn sound_tables(file: &[u8], at: u64) -> (r: bool)
    requires
        at <= 0xFFF_FFFF_FFFF,
        file@.len() <= 0xFF00_0000,
    ensures
        r == tables_sound(file@, at as int),
{
    let n: u64 = read16(file, at);
    if n == 0xFFFF {
        return false;
    }
    let mut k: u64 = 0;
    while k < n
        invariant
            at <= 0xFFF_FFFF_FFFF,
            file@.len() <= 0xFF00_0000,
            k <= n < 0xFFFF,
            n == u16_at(file@, at as int),
            forall|j: int| 0 <= j < k ==> #[trigger] record_sound(file@, at + 8 + 16 * j),
        decreases n - k,
    {
        if !sound_record(file, at + 8 + 16 * k) {
            assert(!record_sound(file@, at + 8 + 16 * k));
            return false;
        }
        k = k + 1;
    }
    true
}

/// Whether a file is a collection of faces.
pub open spec fn is_collection(file: Seq<u8>) -> bool {
    u32_at(file, 0) == TTCF
}

/// Whether a reader gets through the face of a file that has an index: the file is
/// not too long, a collection counts no more faces than it could hold in 32 bits,
/// and the tables of the face can be read. Where a collection has no face of that
/// index there is nothing to get through.
pub open spec fn is_sound_face(file: Seq<u8>, index: u32) -> bool {
    &&& file.len() <= 0xFF00_0000
    &&& if !is_collection(file) {
        tables_sound(file, 4)
    } else {
        &&& fits(12 + 4 * u32_at(file, 8))
        &&& index < u32_at(file, 8) ==> tables_sound(file, u32_at(file, 12 + 4 * index) + 4)
    }
}

/// Whether a reader gets through the face of a file that has an index.
pub fn sound_face(file: &[u8], index: u32) -> (r: bool)
    ensures
        r == is_sound_face(file@, index),
{
    if file.len() as u64 > 0xFF00_0000 {
        return false;
    }
    if read32(file, 0) != TTCF {
        return sound_tables(file, 4);
    }
    let n: u64 = read32(file, 8);
    12 + 4 * n <= 0xFFFF_FFFF && (index as u64 >= n || sound_tables(
        file,
        read32(file, 12 + 4 * (index as u64)) + 4,
    ))
}

/// Whether a reader gets through all faces of a file.
pub open spec fn is_sound_file(file: Seq<u8>) -> bool {
    forall|index: u32| #[trigger] is_sound_face(file, index)
}

/// Whether a reader gets through all faces of a file.
pub fn sound_file(file: &[u8]) -> (r: bool)
    ensures
        r == is_sound_file(file@),
{
    if !sound_face(file, 0) {
        return false;
    }
    if read32(file, 0) != TTCF {
        assert forall|index: u32| #[trigger] is_sound_face(file@, index) by {
            assert(is_sound_face(file@, 0));
        }
        return true;
    }
    let n: u64 = read32(file, 8);
    let mut index: u32 = 0;
    while (index as u64) < n
        invariant
            index <= n <= 0xFFFF_FFFF,
            is_collection(file@),
            n == u32_at(file@, 8),
            is_sound_face(file@, 0),
            forall|i: u32| i < index ==> #[trigger] is_sound_face(file@, i),
        decreases n - index,
    {
        if !sound_face(file, index) {
            return false;
        }
        index = index + 1;
    }
    true
}

}
