//! What holds of the faces of font files and of the names of families.

use crate::fonts::{
    all_faces, are_sound_faces, are_sound_files, face_file, face_index, face_key, face_keys,
    faces_from, families_of, has_text, info_of, infos_of, is_ascending, is_face, single_faces,
    text_less,
};
use crate::sound::{is_sound_face, is_sound_file};
use typst::text::Font;
use vstd::prelude::*;

verus! {

/// A text comes before another if it has the lesser character where they first
/// differ, or if the other goes on where it ends.
pub proof fn texts_are_ordered_by_their_first_difference(a: Seq<char>, b: Seq<char>, k: int)
    requires
        0 <= k <= a.len(),
        k <= b.len(),
        forall|i: int| 0 <= i < k ==> a[i] == b[i],
        k < a.len() && k < b.len() ==> a[k] != b[k],
    ensures
        k < a.len() && k < b.len() ==> (text_less(a, b) <==> (a[k] as int) < (b[k] as int)),
        k == a.len() ==> (text_less(a, b) <==> a.len() < b.len()),
        k == b.len() ==> !text_less(a, b),
    decreases k,
{
    if k > 0 {
        let x = a.drop_first();
        let y = b.drop_first();
        assert forall|i: int| 0 <= i < k - 1 implies x[i] == y[i] by {
            assert(a[i + 1] == b[i + 1]);
        }
        assert(a[0] == b[0]);
        texts_are_ordered_by_their_first_difference(x, y, k - 1);
    }
}

/// Names are in order if each comes before all that stand behind it, and a text is
/// among names if one of them has it.
pub proof fn names_are_in_order(names: Seq<String>, text: Seq<char>, i: int, j: int)
    ensures
        is_ascending(names) && 0 <= i < j < names.len() ==> text_less(names[i]@, names[j]@),
        0 <= i < j < names.len() && !text_less(names[i]@, names[j]@) ==> !is_ascending(names),
        0 <= i < names.len() ==> has_text(names, names[i]@),
        has_text(names, text) ==> exists|k: int|
            0 <= k < names.len() && (#[trigger] names[k])@ == text,
{
}

/// The faces of a file are those of the indices from nought on, without a gap: all of
/// them up to the first index that has none.
pub proof fn faces_are_taken_up_to_the_first_gap(file: Seq<u8>, from: u32, n: u32)
    requires
        from <= n,
        forall|i: u32| from <= i < n ==> #[trigger] is_face(file, i),
        n == u32::MAX || !is_face(file, n),
    ensures
        faces_from(file, from).len() == n - from,
        forall|i: int|
            0 <= i < n - from ==> #[trigger] faces_from(file, from)[i] == (file, (from + i) as u32),
    decreases n - from,
{
    if from < n {
        let next = (from + 1) as u32;
        assert(is_face(file, from));
        faces_are_taken_up_to_the_first_gap(file, next, n);
        let rest = faces_from(file, next);
        assert forall|i: int| 0 <= i < n - from implies #[trigger] faces_from(file, from)[i] == (
            file,
            (from + i) as u32,
        ) by {
            if i > 0 {
                assert(faces_from(file, from)[i] == rest[i - 1]);
                assert(rest[i - 1] == (file, (next + (i - 1)) as u32));
            }
        }
    }
}

/// The faces of files are those of one after the other.
pub proof fn files_are_taken_one_after_the_other(files: Seq<Vec<u8>>, n: int)
    requires
        0 <= n < files.len(),
    ensures
        all_faces(files, 0).len() == 0,
        all_faces(files, n + 1) == all_faces(files, n) + faces_from(files[n]@, 0),
{
}

/// Of single faces each that is there is taken, in their order.
pub proof fn single_faces_are_taken_where_they_are_there(
    faces: Seq<(Vec<u8>, u32)>,
    n: int,
    file: Vec<u8>,
    index: u32,
)
    requires
        0 <= n < faces.len(),
        faces[n] == (file, index),
    ensures
        single_faces(faces, 0).len() == 0,
        is_face(file@, index) ==> single_faces(faces, n + 1) == single_faces(faces, n).push(
            (file@, index),
        ),
        !is_face(file@, index) ==> single_faces(faces, n + 1) == single_faces(faces, n),
{
}

/// Fonts are known by their files and indices, and what is known of them is known by
/// these, in their order.
pub proof fn fonts_are_known_by_file_and_index(fonts: Seq<Font>, i: int)
    requires
        0 <= i < fonts.len(),
    ensures
        face_keys(fonts).len() == fonts.len(),
        face_keys(fonts)[i] == (face_file(fonts[i]), face_index(fonts[i])),
        face_key(fonts[i]) == (face_file(fonts[i]), face_index(fonts[i])),
        infos_of(fonts).len() == fonts.len(),
        infos_of(fonts)[i] == info_of(face_file(fonts[i]), face_index(fonts[i])),
        families_of(fonts).len() == fonts.len(),
        families_of(fonts)[i] == info_of(face_file(fonts[i]), face_index(fonts[i])).family,
{
}

/// Files are sound if each is, and each is if all its faces are.
pub proof fn soundness_is_asked_of_each(
    files: Seq<Vec<u8>>,
    faces: Seq<(Vec<u8>, u32)>,
    i: int,
    file: Vec<u8>,
    index: u32,
)
    ensures
        are_sound_files(files) && 0 <= i < files.len() ==> is_sound_face(files[i]@, index),
        are_sound_faces(faces) && 0 <= i < faces.len() && faces[i] == (file, index)
            ==> is_sound_face(file@, index),
        is_sound_file(file@) ==> is_sound_face(file@, index),
{
    if are_sound_files(files) && 0 <= i < files.len() {
        assert(is_sound_file(files[i]@));
    }
}

}
