use tymnl::fonts::load_face;
use tymnl::sound::{sound_face, sound_file};

fn be16(n: u16) -> Vec<u8> {
    n.to_be_bytes().to_vec()
}

fn be32(n: u32) -> Vec<u8> {
    n.to_be_bytes().to_vec()
}

fn words(list: &[u16]) -> Vec<u8> {
    list.iter().flat_map(|n| be16(*n)).collect()
}

/// A file of one face with some tables.
fn face(tables: &[(&[u8; 4], Vec<u8>)]) -> Vec<u8> {
    let mut file = be32(0x0001_0000);
    file.extend(words(&[tables.len() as u16, 0, 0, 0]));
    let mut start = 12 + 16 * tables.len() as u32;
    for (tag, data) in tables {
        file.extend(*tag);
        file.extend(be32(0));
        file.extend(be32(start));
        file.extend(be32(data.len() as u32));
        start += data.len() as u32;
    }
    for (_, data) in tables {
        file.extend(data);
    }
    file
}

fn is_sound(tag: &[u8; 4], data: Vec<u8>) -> bool {
    let file = face(&[(b"none", vec![1, 2, 3]), (tag, data)]);
    assert_eq!(sound_face(&file, 0), sound_file(&file));
    sound_face(&file, 0)
}

/// A layout table with one lookup of one subtable.
fn layout(kind: u16, subtable: Vec<u8>) -> Vec<u8> {
    let mut table = words(&[1, 0, 0, 0, 10, 1, 4, kind, 0, 1, 8]);
    table.extend(subtable);
    table
}

fn cmap(map: Vec<u8>) -> Vec<u8> {
    let mut table = words(&[0, 1, 3, 10]);
    table.extend(be32(12));
    table.extend(map);
    table
}

#[test]
fn real_fonts_are_sound() {
    let mut count = 0;
    for file in typst_assets::fonts() {
        assert!(sound_file(file));
        assert!(sound_face(file, 0));
        assert!(sound_face(file, 7));
        assert!(load_face(file.to_vec(), 0).is_some());
        count += 1;
    }
    assert!(count > 1);
}

#[test]
fn what_is_no_font_is_sound() {
    assert!(sound_file(&[]));
    assert!(sound_file(b"not a font"));
    assert!(sound_face(b"not a font", 3));
    assert!(sound_file(&face(&[])));
}

#[test]
fn coverage_ranges_must_ascend() {
    let with = |start, end| words(&[1, 6, 0, 2, 1, start, end, 0]);
    for tag in [b"GSUB", b"GPOS"] {
        assert!(is_sound(tag, layout(3, with(5, 5))));
        assert!(is_sound(tag, layout(3, with(5, 9))));
        assert!(!is_sound(tag, layout(3, with(9, 5))));
    }
    // a table that ends before the range does
    let mut short = layout(3, with(9, 5));
    short.pop();
    assert!(is_sound(b"GSUB", short));
    // another version is not looked at
    let mut other = layout(3, with(9, 5));
    other[1] = 2;
    assert!(is_sound(b"GSUB", other));
}

#[test]
fn coverages_of_contexts_are_found() {
    // contexts that are given glyph by glyph
    let context = |start, end| words(&[3, 1, 0, 8, 2, 1, start, end, 0]);
    assert!(is_sound(b"GSUB", layout(5, context(1, 2))));
    assert!(!is_sound(b"GSUB", layout(5, context(2, 1))));
    assert!(!is_sound(b"GPOS", layout(7, context(2, 1))));
    // with two glyphs before
    let chained = |start, end| words(&[3, 2, 0, 0, 1, 12, 2, 1, start, end, 0]);
    assert!(is_sound(b"GSUB", layout(6, chained(1, 2))));
    assert!(!is_sound(b"GSUB", layout(6, chained(2, 1))));
    assert!(!is_sound(b"GPOS", layout(8, chained(2, 1))));
}

#[test]
fn walks_need_a_last_index() {
    for format in [1, 2] {
        assert!(is_sound(b"GSUB", layout(3, words(&[1, 6, 0, format, 0xFFFE]))));
        assert!(!is_sound(b"GSUB", layout(3, words(&[1, 6, 0, format, 0xFFFF]))));
    }
    let mut file = face(&[]);
    file[4] = 0xFF;
    file[5] = 0xFE;
    assert!(sound_face(&file, 0));
    file[5] = 0xFF;
    assert!(!sound_face(&file, 0));
}

#[test]
fn extensions_lead_to_no_extension() {
    let to = |inner: u16, offset: u32| {
        let mut subtable = words(&[1, inner]);
        subtable.extend(be32(offset));
        subtable.extend(words(&[1, 6, 0, 2, 1, 2, 1, 0]));
        subtable
    };
    // where it leads is looked at
    assert!(!is_sound(b"GSUB", layout(7, to(3, 8))));
    assert!(!is_sound(b"GPOS", layout(9, to(3, 8))));
    assert!(is_sound(b"GSUB", layout(7, to(3, 1000))));
    // to itself
    assert!(!is_sound(b"GSUB", layout(7, to(7, 0))));
    assert!(!is_sound(b"GPOS", layout(9, to(9, 0))));
    assert!(!is_sound(b"GPOS", layout(9, to(9, 1000))));
}

#[test]
fn device_tables_have_ascending_sizes() {
    // one number and one device table
    let with = |first, last, format| words(&[1, 14, 0x44, 100, 20, 0, 0, 1, 0, 0, first, last, format]);
    assert!(is_sound(b"GPOS", layout(1, with(9, 12, 2))));
    assert!(!is_sound(b"GPOS", layout(1, with(12, 9, 2))));
    assert!(!is_sound(b"GPOS", layout(1, with(0, 0xFFFF, 1))));
    // an index into a variation store
    assert!(is_sound(b"GPOS", layout(1, with(12, 9, 0x8000))));
    // no device table
    let none = words(&[1, 14, 0x44, 100, 0, 0, 0, 1, 0, 0, 12, 9, 2]);
    assert!(is_sound(b"GPOS", layout(1, none)));
    // substitutions have none
    assert!(is_sound(b"GSUB", layout(1, with(12, 9, 2))));
}

#[test]
fn matrices_end_where_it_fits() {
    let classes = |a, b| words(&[2, 16, 4, 4, 0, 0, a, b, 1, 0]);
    assert!(is_sound(b"GPOS", layout(2, classes(300, 300))));
    assert!(!is_sound(b"GPOS", layout(2, classes(0xFFFF, 0xFFFF))));
    let anchors = |rows, columns| words(&[1, 12, 12, columns, 12, 16, 1, 0, rows]);
    for kind in [4, 6] {
        assert!(is_sound(b"GPOS", layout(kind, anchors(300, 300))));
        assert!(!is_sound(b"GPOS", layout(kind, anchors(0xFFFF, 0xFFFF))));
    }
}

#[test]
fn feature_variations_end_where_it_fits() {
    let with = |count: u32| {
        let mut table = words(&[1, 1, 0, 0, 0]);
        table.extend(be32(14));
        table.extend(words(&[1, 0]));
        table.extend(be32(count));
        table
    };
    assert!(is_sound(b"GSUB", with(3)));
    assert!(!is_sound(b"GSUB", with(0x2000_0000)));
}

#[test]
fn characters_stop_before_the_last_number() {
    let groups = |format: u16, end: u32| {
        let mut map = words(&[format, 0]);
        map.extend(be32(28));
        map.extend(be32(0));
        map.extend(be32(1));
        map.extend(be32(65));
        map.extend(be32(end));
        map.extend(be32(1));
        map
    };
    for format in [12, 13] {
        assert!(is_sound(b"cmap", cmap(groups(format, 90))));
        assert!(is_sound(b"cmap", cmap(groups(format, 0xFFFF_FFFE))));
        assert!(!is_sound(b"cmap", cmap(groups(format, 0xFFFF_FFFF))));
        let mut many = groups(format, 90);
        many[12] = 0xFF;
        assert!(!is_sound(b"cmap", cmap(many)));
    }
    let array = |first: u32, count: u32| {
        let mut map = words(&[10, 0]);
        map.extend(be32(0));
        map.extend(be32(0));
        map.extend(be32(first));
        map.extend(be32(count));
        map
    };
    assert!(is_sound(b"cmap", cmap(array(0xFFFF_FFFE, 1))));
    assert!(!is_sound(b"cmap", cmap(array(0xFFFF_FFFE, 2))));
    assert!(!is_sound(b"cmap", cmap(array(0, 0x8000_0000))));
    let selectors = |count: u32| {
        let mut map = words(&[14, 0, 0]);
        map.extend(be32(count));
        map
    };
    assert!(is_sound(b"cmap", cmap(selectors(5))));
    assert!(!is_sound(b"cmap", cmap(selectors(0x2000_0000))));
}

/// Outlines with some operands of a top dictionary, and behind them what is given.
fn outlines(dict: &[u8], rest: &[u8]) -> Vec<u8> {
    let mut table = vec![1, 0, 4, 1];
    table.extend([0, 0]);
    table.extend([0, 1, 1, 1, dict.len() as u8 + 1]);
    table.extend(dict);
    table.extend([0, 0]);
    table.extend([0, 0]);
    table.extend(rest);
    table
}

/// An index of one item whose last offset takes four bytes.
fn index(last: u32) -> Vec<u8> {
    let mut index = vec![0, 1, 4];
    index.extend(be32(1));
    index.extend(be32(last));
    index
}

#[test]
fn indexes_of_outlines_end_where_it_fits() {
    let mut names = vec![1, 0, 4, 1];
    names.extend(index(2));
    assert!(is_sound(b"CFF ", names.clone()));
    names[11] = 0xFF;
    names[12] = 0xFF;
    names[13] = 0xFF;
    names[14] = 0xFF;
    assert!(!is_sound(b"CFF ", names.clone()));
    // another version is not looked at
    names[0] = 3;
    assert!(is_sound(b"CFF ", names));

    // 139 stands for nought: the index of glyphs is at 17
    let glyphs = [139 + 17, 17];
    assert!(is_sound(b"CFF ", outlines(&glyphs, &index(2))));
    assert!(!is_sound(b"CFF ", outlines(&glyphs, &index(0xFFFF_FFFF))));
    // by another operator it is not an index
    assert!(is_sound(b"CFF ", outlines(&[139 + 17, 15], &index(0xFFFF_FFFF))));
    // fonts, by an operator of two bytes
    let fonts = [28, 0, 20, 12, 36];
    assert!(is_sound(b"CFF ", outlines(&fonts, &index(2))));
    assert!(!is_sound(b"CFF ", outlines(&fonts, &index(0xFFFF_FFFF))));
    // behind a real number that another operator takes
    let real = [30, 0x1a, 0x5f, 12, 8, 29, 0, 0, 0, 27, 12, 36];
    assert!(is_sound(b"CFF ", outlines(&real, &index(2))));
    assert!(!is_sound(b"CFF ", outlines(&real, &index(0xFFFF_FFFF))));
}

#[test]
fn subroutines_of_private_dictionaries_end_where_they_fit() {
    // two bytes at 18, and the subroutines two bytes behind their beginning
    let dict = [139 + 2, 139 + 18, 18];
    let with = |last| {
        let mut rest = vec![139 + 2, 19];
        rest.extend(index(last));
        outlines(&dict, &rest)
    };
    assert!(is_sound(b"CFF ", with(2)));
    assert!(!is_sound(b"CFF ", with(0xFFFF_FFFF)));
}

#[test]
fn outlines_with_variations_are_looked_through() {
    let wide = |last: u32| {
        let mut index = be32(1);
        index.push(4);
        index.extend(be32(1));
        index.extend(be32(last));
        index
    };
    let table = |dict: &[u8], routines: Vec<u8>, rest: Vec<u8>| {
        let mut table = vec![2, 0, 5, 0, dict.len() as u8];
        table.extend(dict);
        table.extend(routines);
        table.extend(rest);
        table
    };
    assert!(is_sound(b"CFF2", table(&[], wide(2), vec![])));
    assert!(!is_sound(b"CFF2", table(&[], wide(0xFFFF_FFFF), vec![])));
    assert!(!is_sound(b"CFF2", table(&[139 + 11, 17], be32(0), wide(0xFFFF_FFFF))));
    assert!(is_sound(b"CFF2", table(&[139 + 11, 17], be32(0), wide(2))));
    // a variation store
    let store = |regions: u32| {
        let mut store = words(&[0, 1]);
        store.extend(be32(regions));
        store
    };
    assert!(is_sound(b"CFF2", table(&[139 + 11, 24], be32(0), store(8))));
    assert!(!is_sound(b"CFF2", table(&[139 + 11, 24], be32(0), store(0xFFFF_FFF8))));
    // a font whose private dictionary names subroutines
    let fonts = |last: u32| {
        let mut rest = wide(4);
        // two bytes behind the three of the font
        rest.extend([139 + 2, 139 + 28, 18]);
        rest.extend([139 + 2, 19]);
        rest.extend(wide(last));
        table(&[139 + 12, 12, 36], be32(0), rest)
    };
    assert!(is_sound(b"CFF2", fonts(2)));
    assert!(!is_sound(b"CFF2", fonts(0xFFFF_FFFF)));
}

#[test]
fn lists_of_other_tables_end_where_it_fits() {
    let bitmaps = |count: u32| {
        let mut table = words(&[1, 0]);
        table.extend(be32(count));
        table
    };
    assert!(is_sound(b"sbix", bitmaps(3)));
    assert!(!is_sound(b"sbix", bitmaps(0x4000_0000)));

    let paints = |glyphs: u32, layers: u32, clips: u32, regions: u32| {
        let mut table = words(&[1, 0, 0, 0, 0, 0, 0]);
        for offset in [34, 38, 42, 0, 47] {
            table.extend(be32(offset));
        }
        table.extend(be32(glyphs));
        table.extend(be32(layers));
        table.push(1);
        table.extend(be32(clips));
        table.extend(be16(1));
        table.extend(be32(regions));
        table
    };
    assert!(is_sound(b"COLR", paints(1, 1, 1, 1)));
    assert!(!is_sound(b"COLR", paints(0x4000_0000, 1, 1, 1)));
    assert!(!is_sound(b"COLR", paints(1, 0x4000_0000, 1, 1)));
    assert!(!is_sound(b"COLR", paints(1, 1, 0x4000_0000, 1)));
    assert!(!is_sound(b"COLR", paints(1, 1, 1, 0xFFFF_FFF0)));
}

#[test]
fn variation_stores_begin_where_it_fits() {
    let advances = |regions: u32| {
        let mut table = be32(0x0001_0000);
        table.extend(be32(8));
        table.extend(be16(1));
        table.extend(be32(regions));
        table
    };
    for tag in [b"HVAR", b"VVAR"] {
        assert!(is_sound(tag, advances(12)));
        assert!(!is_sound(tag, advances(0xFFFF_FFF8)));
    }
    let definitions = |version: u32| {
        let mut table = be32(version);
        table.extend(words(&[0, 0, 0, 0, 0]));
        table.extend(be32(18));
        table.extend(be16(1));
        table.extend(be32(0xFFFF_FFF8));
        table
    };
    assert!(!is_sound(b"GDEF", definitions(0x0001_0003)));
    assert!(is_sound(b"GDEF", definitions(0x0001_0002)));
}

#[test]
fn deltas_of_metrics_can_be_counted() {
    let metrics = |axes: u16, words_and_regions: [u16; 2], region: u16| {
        let mut table = words(&[1, 0, 0, 8, 1, 12]);
        table.extend(be16(1));
        table.extend(be32(12));
        table.extend(be16(1));
        table.extend(be32(16));
        table.extend(words(&[axes, 1]));
        table.extend(words(&[1, words_and_regions[0], words_and_regions[1], region]));
        table
    };
    assert!(is_sound(b"MVAR", metrics(2, [1, 1], 3)));
    // the row is too long
    assert!(!is_sound(b"MVAR", metrics(2, [0x7FFF, 0x9000], 3)));
    assert!(!is_sound(b"MVAR", metrics(2, [0xC000, 0x4000], 3)));
    // the region is too far
    assert!(!is_sound(b"MVAR", metrics(0x100, [1, 1], 0x100)));
}

#[test]
fn the_descent_can_be_negated() {
    let metrics = |typographic: u16, windows: u16| {
        let mut table = vec![0; 70];
        table.extend(words(&[typographic, 0, 0, windows]));
        table
    };
    assert!(is_sound(b"OS/2", metrics(0, 0x7FFF)));
    assert!(is_sound(b"OS/2", metrics(1, 0x8000)));
    assert!(!is_sound(b"OS/2", metrics(0, 0x8000)));
}

#[test]
fn collections_are_looked_through() {
    let bad = layout(3, words(&[1, 6, 0, 2, 1, 9, 5, 0]));
    let collection = |count: u32| {
        let mut file = b"ttcf".to_vec();
        file.extend(be32(0x0001_0000));
        file.extend(be32(count));
        // a face without tables, and one with a table
        file.extend(be32(20));
        file.extend(be32(32));
        file.extend(be32(0x0001_0000));
        file.extend(words(&[0, 0, 0, 0]));
        file.extend(be32(0x0001_0000));
        file.extend(words(&[1, 0, 0, 0]));
        file.extend(b"GSUB");
        file.extend(be32(0));
        file.extend(be32(60));
        file.extend(be32(bad.len() as u32));
        file.extend(&bad);
        file
    };
    let file = collection(2);
    assert!(sound_face(&file, 0));
    assert!(!sound_face(&file, 1));
    assert!(sound_face(&file, 2));
    assert!(!sound_file(&file));
    assert!(sound_file(&collection(1)));
    assert!(!sound_face(&collection(0x4000_0000), 0));
    assert!(load_face(file, 0).is_none());
}
