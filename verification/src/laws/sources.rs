//! What holds of the sources of screens.

use crate::config::Screen;
use crate::loading::{files_before, loaded, ScriptView};
use vstd::prelude::*;

verus! {

/// Once loaded, a screen that was written in place has the preamble and then its
/// own text as its source, whatever these are; one that is in a file has the text
/// of the file and nothing else; and one that was at hand stays as it was.
pub proof fn sources_are_loaded_in_full(
    preamble: Seq<char>,
    text: Seq<char>,
    path: Seq<char>,
    texts: Seq<String>,
    file: nat,
)
    ensures
        loaded(ScriptView::Inline(text), preamble, texts, file) matches ScriptView::Cached(source)
            && source.len() == preamble.len() + text.len() && source.take(preamble.len() as int)
            == preamble && source.skip(preamble.len() as int) == text,
        loaded(ScriptView::File(path), preamble, texts, file) == ScriptView::Cached(
            texts[file as int]@,
        ),
        loaded(ScriptView::Cached(text), preamble, texts, file) == ScriptView::Cached(text),
{
    let source = preamble + text;
    assert(source.take(preamble.len() as int) =~= preamble);
    assert(source.skip(preamble.len() as int) =~= text);
}

/// Files are counted screen by screen: a screen in a file is one more file, any
/// other screen is none.
pub proof fn files_are_counted_one_by_one(screens: Seq<Screen>, i: int)
    requires
        0 <= i < screens.len(),
    ensures
        files_before(screens, 0) == 0,
        screens[i].script is File ==> files_before(screens, i + 1) == files_before(screens, i) + 1,
        !(screens[i].script is File) ==> files_before(screens, i + 1) == files_before(screens, i),
{
}

/// Each screen in a file has a text of its own: of two such screens the later has
/// a later text, and every text belongs to one of them.
pub proof fn files_have_texts_of_their_own(screens: Seq<Screen>, i: int, j: int)
    requires
        0 <= i < j < screens.len(),
        screens[i].script is File,
        screens[j].script is File,
    ensures
        files_before(screens, i) < files_before(screens, j) < files_before(
            screens,
            screens.len() as int,
        ),
{
    lemma_files_grow(screens, i + 1, j);
    lemma_files_grow(screens, j + 1, screens.len() as int);
}

proof fn lemma_files_grow(screens: Seq<Screen>, m: int, n: int)
    requires
        0 <= m <= n,
    ensures
        files_before(screens, m) <= files_before(screens, n),
    decreases n,
{
    if m < n {
        lemma_files_grow(screens, m, n - 1);
    }
}

}
