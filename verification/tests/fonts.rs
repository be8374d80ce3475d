use tymnl::fonts::{
    family_names, font_book, font_families, load_face, load_faces, load_fonts,
};

fn names(list: &[&str]) -> Vec<String> {
    list.iter().map(|s| s.to_string()).collect()
}

#[test]
fn faces_are_loaded_in_order() {
    let mut count = 0;
    for file in typst_assets::fonts() {
        let faces = load_faces(file.to_vec());
        assert!(!faces.is_empty());
        for (i, face) in faces.iter().enumerate() {
            assert_eq!(face.index(), i as u32);
            assert_eq!(face.data().as_slice(), file);
        }
        assert!(load_face(file.to_vec(), faces.len() as u32).is_none());
        let last = load_face(file.to_vec(), faces.len() as u32 - 1).unwrap();
        assert_eq!(last.index(), faces.len() as u32 - 1);
        count += 1;
        if count == 3 {
            break;
        }
    }
    assert_eq!(count, 3);
}

#[test]
fn what_is_no_font_has_no_faces() {
    assert!(load_faces(vec![]).is_empty());
    assert!(load_faces(b"not a font".to_vec()).is_empty());
    assert!(load_face(b"not a font".to_vec(), 0).is_none());
}

#[test]
fn families_are_listed_once_in_order() {
    assert_eq!(
        family_names(names(&["b", "a", "c", "a", "B", "ab", "", "b"])),
        ["", "B", "a", "ab", "b", "c"]
    );
    assert!(family_names(vec![]).is_empty());
}

#[test]
fn families_are_ordered_like_std_orders_them() {
    let list = names(&[
        "Space Grotesk", "\u{e9}clair", "Zilla", "\u{10000}", "\u{ffff}", "DejaVu", "Deja",
        "DejaVu Sans", "\u{e9}", "z", "Zilla",
    ]);
    let mut sorted = list.clone();
    sorted.sort();
    sorted.dedup();
    assert_eq!(family_names(list), sorted);
}

#[test]
fn fonts_are_those_of_files_and_then_single_faces() {
    let files: Vec<Vec<u8>> = typst_assets::fonts().take(2).map(|f| f.to_vec()).collect();
    let extra = typst_assets::fonts().nth(2).unwrap().to_vec();
    let faces = vec![
        (b"not a font".to_vec(), 0),
        (extra.clone(), 0),
        (extra.clone(), 1000),
        (extra.clone(), 0),
    ];
    let mut expected: Vec<Vec<u8>> = vec![];
    for file in &files {
        for _ in load_faces(file.clone()) {
            expected.push(file.clone());
        }
    }
    expected.push(extra.clone());
    expected.push(extra);
    let fonts = load_fonts(files, faces);
    let found: Vec<Vec<u8>> = fonts.iter().map(|f| f.data().to_vec()).collect();
    assert!(found == expected);
    assert!(load_fonts(vec![], vec![]).is_empty());
}

#[test]
fn families_are_those_of_the_fonts() {
    let files: Vec<Vec<u8>> = typst_assets::fonts().map(|f| f.to_vec()).collect();
    let fonts = load_fonts(files, vec![]);
    let mut expected: Vec<String> = fonts.iter().map(|f| f.info().family.clone()).collect();
    expected.sort();
    expected.dedup();
    assert!(expected.len() > 1);
    assert_eq!(font_families(&fonts), expected);
    assert!(font_families(&[]).is_empty());
}

#[test]
fn the_book_tells_of_fonts_under_their_indices() {
    let files: Vec<Vec<u8>> = typst_assets::fonts().map(|f| f.to_vec()).collect();
    let fonts = load_fonts(files, vec![]);
    let book = font_book(&fonts);
    for (i, font) in fonts.iter().enumerate() {
        let info = book.info(i).unwrap();
        assert_eq!(info.family, font.info().family);
        assert_eq!(info.variant, font.info().variant);
        assert_eq!(info.flags, font.info().flags);
        assert!(info.coverage == font.info().coverage);
    }
    assert!(book.info(fonts.len()).is_none());
    assert!(font_book(&[]).info(0).is_none());
}
