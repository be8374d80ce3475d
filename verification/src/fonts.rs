//! The faces of font files, and the names of font families.

use crate::sound::{is_sound_face, is_sound_file};
use typst::foundations::Bytes;
use typst::text::{Font, FontBook};
use vstd::prelude::*;
use vstd::string::StrSliceExecFns;

verus! {

// --------------------------------------------------------------------- faces

#[verifier::external_type_specification]
#[verifier::external_body]
pub struct ExBytes(typst::foundations::Bytes);

#[verifier::external_type_specification]
#[verifier::external_body]
pub struct ExFont(typst::text::Font);

#[verifier::external_type_specification]
#[verifier::external_body]
pub struct ExFontBook(typst::text::FontBook);

/// The bytes of a buffer.
pub uninterp spec fn buffer(bytes: Bytes) -> Seq<u8>;

/// The bytes of the file that a face was read from.
pub uninterp spec fn face_file(font: Font) -> Seq<u8>;

/// Which of the faces of its file a face is.
pub uninterp spec fn face_index(font: Font) -> u32;

/// Whether a file holds a face with an index.
pub uninterp spec fn is_face(file: Seq<u8>, index: u32) -> bool;

/// `typst::foundations::Bytes::new`: a buffer of these bytes.
#[verifier::external_body]
fn to_buffer(file: Vec<u8>) -> (r: Bytes)
    ensures
        buffer(r) == file@,
{
    Bytes::new(file)
}

/// `typst::text::Font::new`: the face of a file that has an index, if the file
/// holds one. Whether it does is a function of its bytes.
///
/// The face has to be sound. `Font::new` reads it with `ttf_parser::Face::parse`,
/// `rustybuzz::Face::from_slice`, `FontMetrics::from_ttf` and `FontInfo::from_ttf`,
/// which compute with numbers of the file. On these a face that is not sound can
/// panic, where overflow is checked for, or never return:
///
/// - `Stream::read_bytes` wants the end of what it reads to fit in 32 bits, also
///   when it is past the end of the file (`fits`);
/// - `LazyArrayIter16::next` counts one past the last item (tables of a face, and
///   `coverage_sound`);
/// - `add_range` of `hb_set_digest_bits_pattern_t` subtracts the first glyph of a
///   range from the last (`ranges_ascend`);
/// - `Device::parse` does so with sizes (`device_sound`);
/// - `parse_extension_lookup` follows extensions wherever they lead
///   (`subtable_sound`);
/// - `Coverage::from_vec` adds one to each character (`map_sound`);
/// - `ItemVariationStore::parse_delta` and `VariationRegionList::evaluate_region`
///   compute rows and regions in 16 bits (`delta_sound`);
/// - `os2::Table::windows_descender` negates 16 bits (`descent_sound`).
///
/// Soundness is enough for this call and not always needed: some damaged faces are
/// left out that would be read all the same.
#[verifier::external_body]
fn parse_face(bytes: &Bytes, index: u32) -> (r: Option<Font>)
    requires
        is_sound_face(buffer(*bytes), index),
    ensures
        (r is Some) == is_face(buffer(*bytes), index),
        r matches Some(font) ==> face_file(font) == buffer(*bytes),
        r matches Some(font) ==> face_index(font) == index,
{
    Font::new(bytes.clone(), index)
}

/// The face of a file that has an index.
pub fn load_face(file: Vec<u8>, index: u32) -> (r: Option<Font>)
    requires
        is_sound_face(file@, index),
    ensures
        (r is Some) == is_face(file@, index),
        r matches Some(font) ==> face_file(font) == file@ && face_index(font) == index,
{
    let bytes = to_buffer(file);
    parse_face(&bytes, index)
}

/// A face, by its file and its index there.
pub open spec fn face_key(font: Font) -> (Seq<u8>, u32) {
    (face_file(font), face_index(font))
}

/// Faces, by their files and their indices there.
pub open spec fn face_keys(fonts: Seq<Font>) -> Seq<(Seq<u8>, u32)> {
    fonts.map_values(|font: Font| face_key(font))
}

/// The faces of a file from an index on, up to the first index that has none.
pub open spec fn faces_from(file: Seq<u8>, index: u32) -> Seq<(Seq<u8>, u32)>
    decreases u32::MAX - index,
{
    if index < u32::MAX && is_face(file, index) {
        seq![(file, index)] + faces_from(file, (index + 1) as u32)
    } else {
        Seq::empty()
    }
}

/// The faces of a file, from the first on, up to the first index that has none.
pub fn load_faces(file: Vec<u8>) -> (r: Vec<Font>)
    requires
        is_sound_file(file@),
    ensures
        face_keys(r@) == faces_from(file@, 0),
{
    let ghost content = file@;
    let bytes = to_buffer(file);
    let mut fonts: Vec<Font> = Vec::new();
    let mut index: u32 = 0;
    assert(face_keys(fonts@) + faces_from(content, 0) =~= faces_from(content, 0));
    while index < u32::MAX
        invariant
            content == file@,
            buffer(bytes) == content,
            is_sound_file(content),
            face_keys(fonts@) + faces_from(content, index) == faces_from(content, 0),
        decreases u32::MAX - index,
    {
        match parse_face(&bytes, index) {
            Some(font) => {
                let ghost before = fonts@;
                fonts.push(font);
                proof {
                    let next = (index + 1) as u32;
                    assert(face_keys(fonts@) =~= face_keys(before) + seq![(content, index)]);
                    assert(face_keys(fonts@) + faces_from(content, next) =~= face_keys(before) + (
                    seq![(content, index)] + faces_from(content, next)));
                }
            },
            None => {
                assert(face_keys(fonts@) + Seq::empty() =~= face_keys(fonts@));
                return fonts;
            },
        }
        index = index + 1;
    }
    assert(face_keys(fonts@) + Seq::empty() =~= face_keys(fonts@));
    fonts
}

/// The faces of the first `n` files.
pub open spec fn all_faces(files: Seq<Vec<u8>>, n: int) -> Seq<(Seq<u8>, u32)>
    decreases n,
{
    if n <= 0 {
        Seq::empty()
    } else {
        all_faces(files, n - 1) + faces_from(files[n - 1]@, 0)
    }
}

/// Those of the first `n` single faces that are there.
pub open spec fn single_faces(faces: Seq<(Vec<u8>, u32)>, n: int) -> Seq<(Seq<u8>, u32)>
    decreases n,
{
    if n <= 0 {
        Seq::empty()
    } else {
        let before = single_faces(faces, n - 1);
        let (file, index) = faces[n - 1];
        if is_face(file@, index) {
            before.push((file@, index))
        } else {
            before
        }
    }
}

/// Whether all of some files are sound.
pub open spec fn are_sound_files(files: Seq<Vec<u8>>) -> bool {
    forall|i: int| 0 <= i < files.len() ==> is_sound_file((#[trigger] files[i])@)
}

/// Whether all of some single faces are sound.
pub open spec fn are_sound_faces(faces: Seq<(Vec<u8>, u32)>) -> bool {
    forall|i: int|
        0 <= i < faces.len() ==> {
            let (file, index) = #[trigger] faces[i];
            is_sound_face(file@, index)
        }
}

/// The fonts to lay out pages with: all faces of some files, and then single
/// faces of others, as far as they are there.
pub fn load_fonts(files: Vec<Vec<u8>>, faces: Vec<(Vec<u8>, u32)>) -> (r: Vec<Font>)
    requires
        are_sound_files(files@),
        are_sound_faces(faces@),
    ensures
        face_keys(r@) == all_faces(files@, files@.len() as int) + single_faces(
            faces@,
            faces@.len() as int,
        ),
{
    let mut fonts: Vec<Font> = Vec::new();
    assert(face_keys(fonts@) =~= Seq::empty());
    let n: usize = files.len();
    let mut files_left = files;
    assert(files_left@ =~= files@.skip(0));
    for i in 0..n
        invariant
            n == files@.len(),
            are_sound_files(files@),
            files_left@ == files@.skip(i as int),
            face_keys(fonts@) == all_faces(files@, i as int),
    {
        let ghost before = fonts@;
        let file = files_left.remove(0);
        assert(file == files@[i as int]);
        assert(files_left@ =~= files@.skip(i + 1));
        let mut more = load_faces(file);
        let ghost loaded = more@;
        fonts.append(&mut more);
        assert(face_keys(fonts@) =~= face_keys(before) + face_keys(loaded));
    }
    let ghost whole = face_keys(fonts@);
    assert(whole + single_faces(faces@, 0) =~= whole);
    let m: usize = faces.len();
    let mut faces_left = faces;
    assert(faces_left@ =~= faces@.skip(0));
    for i in 0..m
        invariant
            m == faces@.len(),
            are_sound_faces(faces@),
            faces_left@ == faces@.skip(i as int),
            face_keys(fonts@) == whole + single_faces(faces@, i as int),
    {
        let ghost before = fonts@;
        let (file, index) = faces_left.remove(0);
        assert((file, index) == faces@[i as int]);
        assert(faces_left@ =~= faces@.skip(i + 1));
        match load_face(file, index) {
            Some(font) => {
                fonts.push(font);
                assert(face_keys(fonts@) =~= face_keys(before).push(face_key(font)));
                assert(face_keys(fonts@) =~= whole + single_faces(faces@, i + 1));
            },
            None => {},
        }
    }
    fonts
}

// ------------------------------------------------------------------ families

/// Whether `a` comes before `b`: by the first character in which they differ, and
/// a text before those that it begins.
pub open spec fn text_less(a: Seq<char>, b: Seq<char>) -> bool
    decreases a.len(),
{
    if b.len() == 0 {
        false
    } else if a.len() == 0 {
        true
    } else if a[0] != b[0] {
        a[0] < b[0]
    } else {
        text_less(a.drop_first(), b.drop_first())
    }
}

/// Two texts are the same, or one comes before the other.
proof fn lemma_text_order(a: Seq<char>, b: Seq<char>)
    ensures
        a == b ==> !text_less(a, b),
        a != b ==> text_less(a, b) != text_less(b, a),
    decreases a.len(),
{
    if a.len() == 0 && b.len() == 0 {
        assert(a =~= b);
    } else if a.len() > 0 && b.len() > 0 && a[0] == b[0] {
        lemma_text_order(a.drop_first(), b.drop_first());
        assert(a =~= seq![a[0]] + a.drop_first());
        assert(b =~= seq![b[0]] + b.drop_first());
    }
}

/// What comes before comes before what comes after.
proof fn lemma_text_transitive(a: Seq<char>, b: Seq<char>, c: Seq<char>)
    requires
        text_less(a, b),
        text_less(b, c),
    ensures
        text_less(a, c),
    decreases a.len(),
{
    if a.len() > 0 && a[0] == b[0] && b[0] == c[0] {
        lemma_text_transitive(a.drop_first(), b.drop_first(), c.drop_first());
    }
}

/// Whether `a` comes before `b`.
fn comes_before(a: &str, b: &str) -> (r: bool)
    ensures
        r == text_less(a@, b@),
{
    let n: usize = a.unicode_len();
    let m: usize = b.unicode_len();
    let mut i: usize = 0;
    assert(a@.skip(0) =~= a@);
    assert(b@.skip(0) =~= b@);
    while i < n && i < m
        invariant
            n == a@.len(),
            m == b@.len(),
            i <= n,
            i <= m,
            text_less(a@, b@) == text_less(a@.skip(i as int), b@.skip(i as int)),
        decreases n - i,
    {
        let c = a.get_char(i);
        let d = b.get_char(i);
        if c != d {
            return c < d;
        }
        assert(a@.skip(i as int).drop_first() =~= a@.skip(i + 1));
        assert(b@.skip(i as int).drop_first() =~= b@.skip(i + 1));
        i = i + 1;
    }
    i < m
}

/// Whether the texts of `names` stand in order, none of them twice.
pub open spec fn is_ascending(names: Seq<String>) -> bool {
    forall|i: int, j: int|
        0 <= i < j < names.len() ==> text_less((#[trigger] names[i])@, (#[trigger] names[j])@)
}

/// Whether one of `names` has this text.
pub open spec fn has_text(names: Seq<String>, text: Seq<char>) -> bool {
    exists|i: int| 0 <= i < names.len() && (#[trigger] names[i])@ == text
}

/// Puts a name in its place among names in order, unless it is there already.
fn insert_name(names: &mut Vec<String>, name: String)
    requires
        is_ascending(old(names)@),
    ensures
        is_ascending(final(names)@),
        forall|text: Seq<char>|
            has_text(final(names)@, text) <==> has_text(old(names)@, text) || text == name@,
{
    let ghost before = names@;
    let mut k: usize = 0;
    while k < names.len() && comes_before(names[k].as_str(), name.as_str())
        invariant
            k <= names@.len(),
            names@ == before,
            is_ascending(before),
            forall|i: int| 0 <= i < k ==> text_less((#[trigger] before[i])@, name@),
        decreases names@.len() - k,
    {
        k = k + 1;
    }
    if k < names.len() && !comes_before(name.as_str(), names[k].as_str()) {
        proof {
            lemma_text_order(name@, before[k as int]@);
            assert(has_text(before, name@));
        }
        return;
    }
    let ghost text = name@;
    names.insert(k, name);
    proof {
        let after = names@;
        assert(after[k as int]@ == text);
        assert forall|i: int, j: int| 0 <= i < j < after.len() implies text_less(
            (#[trigger] after[i])@,
            (#[trigger] after[j])@,
        ) by {
            let a = if i < k {
                i
            } else {
                i - 1
            };
            let b = if j < k {
                j
            } else {
                j - 1
            };
            if i == k {
                assert(after[j] == before[b]);
                if b > k {
                    assert(text_less(before[k as int]@, before[b]@));
                    lemma_text_transitive(text, before[k as int]@, before[b]@);
                }
            } else if j == k {
                assert(after[i] == before[a]);
            } else {
                assert(after[i] == before[a]);
                assert(after[j] == before[b]);
            }
        }
        assert forall|t: Seq<char>| has_text(after, t) <==> has_text(before, t) || t == text by {
            if has_text(before, t) {
                let i = choose|i: int| 0 <= i < before.len() && (#[trigger] before[i])@ == t;
                let j = if i < k {
                    i
                } else {
                    i + 1
                };
                assert(after[j] == before[i]);
            }
            if has_text(after, t) {
                let j = choose|j: int| 0 <= j < after.len() && (#[trigger] after[j])@ == t;
                if j < k {
                    assert(after[j] == before[j]);
                } else if j > k {
                    assert(after[j] == before[j - 1]);
                }
            }
        }
    }
}

/// The names in order, each once.
pub fn family_names(names: Vec<String>) -> (r: Vec<String>)
    ensures
        is_ascending(r@),
        forall|text: Seq<char>| has_text(r@, text) <==> has_text(names@, text),
{
    let mut r: Vec<String> = Vec::new();
    for k in 0..names.len()
        invariant
            is_ascending(r@),
            forall|text: Seq<char>| has_text(r@, text) <==> has_text(names@.take(k as int), text),
    {
        let ghost before = r@;
        insert_name(&mut r, names[k].clone());
        proof {
            let some = names@.take(k as int);
            let more = names@.take(k + 1);
            assert forall|text: Seq<char>| has_text(r@, text) <==> has_text(more, text) by {
                if has_text(some, text) {
                    let i = choose|i: int| 0 <= i < some.len() && (#[trigger] some[i])@ == text;
                    assert(more[i] == some[i]);
                }
                if text == names@[k as int]@ {
                    assert(more[k as int]@ == text);
                }
                if has_text(more, text) {
                    let i = choose|i: int| 0 <= i < more.len() && (#[trigger] more[i])@ == text;
                    if i < k {
                        assert(some[i] == more[i]);
                    }
                }
            }
        }
    }
    assert(names@.take(names@.len() as int) =~= names@);
    r
}

/// What is known of a face by which the font for a text is chosen.
pub struct FaceInfo {
    /// The family.
    pub family: Seq<char>,
    /// The style: 0 for normal, 1 for italic, 2 for oblique.
    pub style: int,
    /// The weight, as in `FontWeight::to_number`.
    pub weight: int,
    /// The stretch, in thousandths of the normal width.
    pub stretch: int,
    /// Whether all glyphs are of one width.
    pub monospace: bool,
    /// Whether the glyphs have serifs.
    pub serif: bool,
    /// Whether there is a table for mathematics.
    pub math: bool,
    /// Whether the face is variable.
    pub variable: bool,
    /// The numbers of the characters that there are glyphs for.
    pub coverage: Set<int>,
}

/// What is known of a face of a file.
pub uninterp spec fn info_of(file: Seq<u8>, index: u32) -> FaceInfo;

/// What a book tells of fonts, in the order of its indices.
pub uninterp spec fn book_infos(book: FontBook) -> Seq<FaceInfo>;

/// `typst::text::Font::info`, and there the family: a function of the file that
/// the face was read from and of its index there.
#[verifier::external_body]
fn family(font: &Font) -> (r: String)
    ensures
        r@ == info_of(face_file(*font), face_index(*font)).family,
{
    font.info().family.clone()
}

/// `typst::text::FontBook::from_fonts`: a book that tells of each font what its
/// `info` holds, under the index that the font has in the list.
#[verifier::external_body]
fn book_of(fonts: &[Font]) -> (r: FontBook)
    ensures
        book_infos(r) == infos_of(fonts@),
{
    FontBook::from_fonts(fonts.iter())
}

/// What is known of fonts.
pub open spec fn infos_of(fonts: Seq<Font>) -> Seq<FaceInfo> {
    fonts.map_values(|font: Font| info_of(face_file(font), face_index(font)))
}

/// The families of fonts.
pub open spec fn families_of(fonts: Seq<Font>) -> Seq<Seq<char>> {
    infos_of(fonts).map_values(|info: FaceInfo| info.family)
}

/// The book of fonts by which the font for a text is found. It tells of the fonts
/// under the indices that they have in the list.
pub fn font_book(fonts: &[Font]) -> (r: FontBook)
    ensures
        book_infos(r) == infos_of(fonts@),
{
    book_of(fonts)
}

/// The families of fonts in order, each once.
pub fn font_families(fonts: &[Font]) -> (r: Vec<String>)
    ensures
        is_ascending(r@),
        forall|text: Seq<char>| has_text(r@, text) <==> families_of(fonts@).contains(text),
{
    let mut names: Vec<String> = Vec::new();
    for i in 0..fonts.len()
        invariant
            names@.len() == i,
            forall|j: int| 0 <= j < i ==> (#[trigger] names@[j])@ == families_of(fonts@)[j],
    {
        names.push(family(&fonts[i]));
    }
    proof {
        let families = families_of(fonts@);
        assert forall|text: Seq<char>| has_text(names@, text) <==> families.contains(text) by {
            if families.contains(text) {
                let j = choose|j: int| 0 <= j < families.len() && families[j] == text;
                assert(names@[j]@ == text);
            }
        }
    }
    family_names(names)
}

/// There is one way only to put names in order, each once.
pub proof fn order_is_unique(a: Seq<String>, b: Seq<String>)
    requires
        is_ascending(a),
        is_ascending(b),
        forall|text: Seq<char>| has_text(a, text) <==> has_text(b, text),
    ensures
        a.len() == b.len(),
        forall|i: int| 0 <= i < a.len() ==> (#[trigger] a[i])@ == b[i]@,
{
    lemma_order_prefix(a, b, a.len() as int);
    lemma_order_prefix(b, a, b.len() as int);
}

proof fn lemma_order_prefix(a: Seq<String>, b: Seq<String>, n: int)
    requires
        is_ascending(a),
        is_ascending(b),
        forall|text: Seq<char>| has_text(a, text) <==> has_text(b, text),
        0 <= n <= a.len(),
    ensures
        n <= b.len(),
        forall|i: int| 0 <= i < n ==> (#[trigger] a[i])@ == b[i]@,
    decreases n,
{
    if n > 0 {
        let k = n - 1;
        lemma_order_prefix(a, b, k);
        assert(has_text(a, a[k]@));
        let j = choose|j: int| 0 <= j < b.len() && (#[trigger] b[j])@ == a[k]@;
        if j < k {
            assert(a[j]@ == b[j]@);
            assert(text_less(a[j]@, a[k]@));
            lemma_text_order(a[j]@, a[k]@);
        }
        assert(has_text(b, b[k]@));
        let i = choose|i: int| 0 <= i < a.len() && (#[trigger] a[i])@ == b[k]@;
        if i < k {
            assert(a[i]@ == b[i]@);
            assert(text_less(b[i]@, b[k]@));
            lemma_text_order(b[i]@, b[k]@);
        }
        if j > k && i > k {
            assert(text_less(b[k]@, b[j]@));
            assert(text_less(a[k]@, a[i]@));
            lemma_text_order(a[k]@, b[k]@);
        }
    }
}

}
