//! What holds of complaints about a page.

use crate::diagnostic::{
    block, blocks, caret_count, excerpt, hint_lines, line_column_of, line_range_of, location,
    report, severity_word, site_block, slice_of, Diagnostic, Severity, Site,
};
use crate::text::{decimal, trimmed_end, Margin};
use vstd::prelude::*;
use vstd::utf8::{decode_utf8, encode_utf8, is_char_boundary};

verus! {

/// A complaint is an error or a warning, and is called so.
pub proof fn severities_are_called_so()
    ensures
        severity_word(Severity::Error) == "error"@,
        severity_word(Severity::Warning) == "warning"@,
{
}

/// As many carets mark a site as it has bytes in its line, and one where it has none.
pub proof fn carets_mark_the_site(start: usize, end: usize, line_end: usize)
    ensures
        start < end <= line_end ==> caret_count(start, end, line_end) == end - start,
        start < line_end <= end ==> caret_count(start, end, line_end) == line_end - start,
        end <= start || line_end <= start ==> caret_count(start, end, line_end) == 1,
{
}

/// The place of a site is its file, its line and its column, both counted from one.
pub proof fn places_are_counted_from_one(site: Site, line: usize, column: usize)
    ensures
        location(site, line, column) == "  --> "@ + (site.path@ + (":"@ + (decimal((line + 1) as nat)
            + (":"@ + (decimal((column + 1) as nat) + "\n"@))))),
{
    let a = decimal((line + 1) as nat);
    let b = decimal((column + 1) as nat);
    assert(location(site, line, column) =~= "  --> "@ + (site.path@ + (":"@ + (a + (":"@ + (b
        + "\n"@))))));
}

/// A line is shown with its number in the margin, without what ends it, between a line
/// that is empty and one with carets, which stand below the site.
pub proof fn lines_are_shown_with_carets_below(
    site: Site,
    line: usize,
    column: usize,
    range: (usize, usize),
)
    ensures
        ({
            let number = decimal((line + 1) as nat);
            let margin = Seq::new(number.len(), |i: int| ' ');
            let text = trimmed_end(
                decode_utf8(encode_utf8(site.text@).subrange(range.0 as int, range.1 as int)),
                Margin::LineEnd,
            );
            let spaces = Seq::new(column as nat, |i: int| ' ');
            let carets = Seq::new(caret_count(site.start, site.end, range.1), |i: int| '^');
            excerpt(site, line, column, range) == (margin + " |\n"@) + (number + " | "@ + text
                + "\n"@) + (margin + " | "@ + spaces + carets + "\n"@)
        }),
{
    let number = decimal((line + 1) as nat);
    let margin = Seq::new(number.len(), |i: int| ' ');
    let text = trimmed_end(
        decode_utf8(encode_utf8(site.text@).subrange(range.0 as int, range.1 as int)),
        Margin::LineEnd,
    );
    let spaces = Seq::new(column as nat, |i: int| ' ');
    let carets = Seq::new(caret_count(site.start, site.end, range.1), |i: int| '^');
    assert(crate::text::repeated(' ', number.len()) =~= margin);
    assert(crate::text::repeated(' ', column as nat) =~= spaces);
    assert(crate::text::repeated('^', caret_count(site.start, site.end, range.1)) =~= carets);
    assert(excerpt(site, line, column, range) =~= (margin + " |\n"@) + (number + " | "@ + text
        + "\n"@) + (margin + " | "@ + spaces + carets + "\n"@));
}

/// The place and the line of a site are shown where it begins with a character, and
/// nothing otherwise.
pub proof fn sites_are_shown_where_they_begin(
    site: Site,
    line: usize,
    at: usize,
    range: (usize, usize),
)
    requires
        line_column_of(site.text@, site.start) == Some((line, at)),
        line_range_of(site.text@, line) == Some(range),
    ensures
        !is_char_boundary(encode_utf8(site.text@), site.start as int) ==> site_block(site)
            == Seq::<char>::empty(),
        is_char_boundary(encode_utf8(site.text@), site.start as int) ==> {
            let before = decode_utf8(
                encode_utf8(site.text@).subrange(range.0 as int, site.start as int),
            );
            site_block(site) == location(site, line, before.len() as usize) + excerpt(
                site,
                line,
                before.len() as usize,
                range,
            )
        },
        slice_of(site.text@, range.0 as int, range.1 as int) == decode_utf8(
            encode_utf8(site.text@).subrange(range.0 as int, range.1 as int),
        ),
{
}

/// Each hint has a line of its own, in the order of the hints.
pub proof fn hints_have_lines_of_their_own(hints: Seq<String>, n: int)
    requires
        0 <= n < hints.len(),
    ensures
        hint_lines(hints, 0) == Seq::<char>::empty(),
        hint_lines(hints, n + 1) == hint_lines(hints, n) + ("  hint: "@ + hints[n]@ + "\n"@),
{
    assert(hint_lines(hints, n + 1) =~= hint_lines(hints, n) + ("  hint: "@ + hints[n]@ + "\n"@));
}

/// A complaint begins with how bad it is and what it is, then comes where it is, then
/// its hints, and an empty line.
pub proof fn complaints_are_told_in_this_order(d: Diagnostic)
    ensures
        block(d) == (severity_word(d.severity) + ": "@ + d.message@ + "\n"@) + (match d.site {
            Some(site) => site_block(site),
            None => Seq::<char>::empty(),
        } + (hint_lines(d.hints@, d.hints@.len() as int) + "\n"@)),
{
    let site = match d.site {
        Some(site) => site_block(site),
        None => Seq::<char>::empty(),
    };
    assert(block(d) =~= (severity_word(d.severity) + ": "@ + d.message@ + "\n"@) + (site + (
    hint_lines(d.hints@, d.hints@.len() as int) + "\n"@)));
}

/// All complaints are told, one after the other, without white space at the end.
pub proof fn all_complaints_are_told(diags: Seq<Diagnostic>, n: int)
    requires
        0 <= n < diags.len(),
    ensures
        blocks(diags, 0) == Seq::<char>::empty(),
        blocks(diags, n + 1) == blocks(diags, n) + block(diags[n]),
        report(diags) == trimmed_end(blocks(diags, diags.len() as int), Margin::WhiteSpace),
{
}

}
