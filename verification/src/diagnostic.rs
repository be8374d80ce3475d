//! Complaints about the source of a page, as a reader sees them.

use crate::text::{
    append_carets, append_spaces, decimal, decimal_text, lemma_trimmed_end, repeated, trim_end,
    trimmed_end, Margin,
};
use vstd::prelude::*;
use vstd::string::{StrSliceExecFns, StringExecFns};
use vstd::utf8::{
    decode_utf8, encode_utf8, encode_utf8_decode_utf8, encode_utf8_valid_utf8, is_char_boundary,
    is_char_boundary_iff_not_is_continuation_byte, is_char_boundary_start_end_of_seq,
    valid_utf8_split,
};

verus! {

/// How bad a complaint is.
#[derive(Copy, Clone, Debug, PartialEq, Eq, Structural)]
pub enum Severity {
    Error,
    Warning,
}

/// The place in a source that a complaint is about: the bytes from `start` to
/// `end` of `text`.
#[derive(Debug)]
pub struct Site {
    pub path: String,
    pub text: String,
    pub start: usize,
    pub end: usize,
}

/// A complaint about the source of a page.
#[derive(Debug)]
pub struct Diagnostic {
    pub severity: Severity,
    pub message: String,
    pub site: Option<Site>,
    pub hints: Vec<String>,
}

// --------------------------------------------------------------------- lines

/// Line and column of a byte of a text, both counted from nought.
pub uninterp spec fn line_column_of(text: Seq<char>, byte: usize) -> Option<(usize, usize)>;

/// The bytes of a line of a text, with what ends the line.
pub uninterp spec fn line_range_of(text: Seq<char>, line: usize) -> Option<(usize, usize)>;

/// `typst::syntax::Lines::byte_to_line_column`: the line that a byte is in, and
/// the number of characters that come before it in that line. There are such
/// wherever a character begins, and at the end of the text.
#[verifier::external_body]
fn line_column(text: &str, byte: usize) -> (r: Option<(usize, usize)>)
    ensures
        r == line_column_of(text@, byte),
        (r is Some) == is_char_boundary(encode_utf8(text@), byte as int),
        r matches Some(at) ==> at.0 < usize::MAX && at.1 < usize::MAX,
        r matches Some(at) ==> column_in_line(text@, byte, at),
{
    typst::syntax::Lines::new(text).byte_to_line_column(byte)
}

/// Whether `at.1` characters stand between the start of line `at.0` and a byte of
/// that line.
pub open spec fn column_in_line(text: Seq<char>, byte: usize, at: (usize, usize)) -> bool {
    &&& line_range_of(text, at.0) matches Some(range)
    &&& range.0 <= byte <= range.1
    &&& at.1 == decode_utf8(encode_utf8(text).subrange(range.0 as int, byte as int)).len()
}

/// `typst::syntax::Lines::line_to_range`: the bytes of a line. A line begins and
/// ends where characters do.
#[verifier::external_body]
fn line_range(text: &str, line: usize) -> (r: Option<(usize, usize)>)
    ensures
        r == line_range_of(text@, line),
        r matches Some(range) ==> range.0 <= range.1 <= encode_utf8(text@).len(),
        r matches Some(range) ==> is_char_boundary(encode_utf8(text@), range.0 as int),
        r matches Some(range) ==> is_char_boundary(encode_utf8(text@), range.1 as int),
{
    typst::syntax::Lines::new(text).line_to_range(line).map(|range| (range.start, range.end))
}

/// The text that some bytes of a text encode.
pub open spec fn slice_of(text: Seq<char>, start: int, end: int) -> Seq<char> {
    decode_utf8(encode_utf8(text).subrange(start, end))
}

/// The text that some bytes of a text encode, where characters begin at both
/// ends.
fn slice(text: &str, start: usize, end: usize) -> (r: &str)
    requires
        start <= end <= encode_utf8(text@).len(),
        is_char_boundary(encode_utf8(text@), start as int),
        is_char_boundary(encode_utf8(text@), end as int),
    ensures
        r@ == slice_of(text@, start as int, end as int),
{
    let ghost bytes = encode_utf8(text@);
    let ghost rest = bytes.subrange(start as int, bytes.len() as int);
    proof {
        encode_utf8_valid_utf8(text@);
        valid_utf8_split(bytes, start as int);
        if end < bytes.len() {
            is_char_boundary_iff_not_is_continuation_byte(bytes, end as int);
            is_char_boundary_iff_not_is_continuation_byte(rest, end - start);
        } else {
            is_char_boundary_start_end_of_seq(rest);
        }
    }
    let tail = text.split_at(start).1;
    let r = tail.split_at(end - start).0;
    proof {
        assert(rest.subrange(0, end - start) =~= bytes.subrange(start as int, end as int));
        encode_utf8_decode_utf8(r@);
    }
    r
}

// -------------------------------------------------------------------- blocks

/// How bad a complaint is, in a word.
pub open spec fn severity_word(severity: Severity) -> Seq<char> {
    match severity {
        Severity::Error => "error"@,
        Severity::Warning => "warning"@,
    }
}

/// How many carets mark the bytes from `start` to `end` in a line that ends at
/// `line_end`: at least one.
pub open spec fn caret_count(start: usize, end: usize, line_end: usize) -> nat {
    let last = if end <= line_end {
        end
    } else {
        line_end
    };
    if last > start + 1 {
        (last - start) as nat
    } else {
        1
    }
}

/// The line of a site, with its number in the margin and carets below it.
pub open spec fn excerpt(site: Site, line: usize, column: usize, range: (usize, usize)) -> Seq<
    char,
> {
    let num = decimal((line + 1) as nat);
    let pad = repeated(' ', num.len());
    let text = trimmed_end(
        slice_of(site.text@, range.0 as int, range.1 as int),
        Margin::LineEnd,
    );
    pad + " |\n"@ + num + " | "@ + text + "\n"@ + pad + " | "@ + repeated(' ', column as nat)
        + repeated('^', caret_count(site.start, site.end, range.1)) + "\n"@
}

/// Where a site is, with line and column counted from one.
pub open spec fn location(site: Site, line: usize, column: usize) -> Seq<char> {
    "  --> "@ + site.path@ + ":"@ + decimal((line + 1) as nat) + ":"@ + decimal((column + 1) as nat)
        + "\n"@
}

/// Where a site is, and what stands there: the line that it starts in, and as its
/// column the number of characters before it in that line. Nothing is shown of a
/// site that starts inside a character or after the end of the text.
pub open spec fn site_block(site: Site) -> Seq<char> {
    if is_char_boundary(encode_utf8(site.text@), site.start as int) {
        let (line, _) = line_column_of(site.text@, site.start)->0;
        let range = line_range_of(site.text@, line)->0;
        let column = slice_of(site.text@, range.0 as int, site.start as int).len() as usize;
        location(site, line, column) + excerpt(site, line, column, range)
    } else {
        Seq::empty()
    }
}

/// The first `n` hints, a line each.
pub open spec fn hint_lines(hints: Seq<String>, n: int) -> Seq<char>
    decreases n,
{
    if n <= 0 {
        Seq::empty()
    } else {
        hint_lines(hints, n - 1) + "  hint: "@ + hints[n - 1]@ + "\n"@
    }
}

/// A complaint with all that belongs to it, and an empty line after it.
pub open spec fn block(d: Diagnostic) -> Seq<char> {
    severity_word(d.severity) + ": "@ + d.message@ + "\n"@ + match d.site {
        Some(site) => site_block(site),
        None => Seq::empty(),
    } + hint_lines(d.hints@, d.hints@.len() as int) + "\n"@
}

/// The first `n` complaints, one after the other.
pub open spec fn blocks(diags: Seq<Diagnostic>, n: int) -> Seq<char>
    decreases n,
{
    if n <= 0 {
        Seq::empty()
    } else {
        blocks(diags, n - 1) + block(diags[n - 1])
    }
}

/// All complaints, without white space at the end.
pub open spec fn report(diags: Seq<Diagnostic>) -> Seq<char> {
    trimmed_end(blocks(diags, diags.len() as int), Margin::WhiteSpace)
}

/// The line of a site, with its number in the margin and carets below it.
pub fn excerpt_text(site: &Site, line: usize, column: usize, range: (usize, usize)) -> (r: String)
    requires
        line < usize::MAX,
        range.0 <= range.1 <= encode_utf8(site.text@).len(),
        is_char_boundary(encode_utf8(site.text@), range.0 as int),
        is_char_boundary(encode_utf8(site.text@), range.1 as int),
    ensures
        r@ == excerpt(*site, line, column, range),
{
    let mut out = String::new();
    let text = trim_end(slice(site.text.as_str(), range.0, range.1), Margin::LineEnd);
    let num = decimal_text(line as u64 + 1);
    let pad: usize = num.as_str().unicode_len();
    append_spaces(&mut out, pad);
    out.append(" |\n");
    out.append(num.as_str());
    out.append(" | ");
    out.append(text);
    out.append("\n");
    append_spaces(&mut out, pad);
    out.append(" | ");
    append_spaces(&mut out, column);
    let last: usize = if site.end <= range.1 {
        site.end
    } else {
        range.1
    };
    let carets: usize = if last > site.start && last - site.start > 1 {
        last - site.start
    } else {
        1
    };
    append_carets(&mut out, carets);
    out.append("\n");
    assert(out@ =~= excerpt(*site, line, column, range));
    out
}

/// Where a site is, with line and column counted from one.
pub fn location_text(site: &Site, line: usize, column: usize) -> (r: String)
    requires
        line < usize::MAX,
        column < usize::MAX,
    ensures
        r@ == location(*site, line, column),
{
    let mut out = "  --> ".to_owned();
    out.append(site.path.as_str());
    out.append(":");
    out.append(decimal_text(line as u64 + 1).as_str());
    out.append(":");
    out.append(decimal_text(column as u64 + 1).as_str());
    out.append("\n");
    out
}

fn append_site(out: &mut String, site: &Site)
    ensures
        final(out)@ == old(out)@ + site_block(*site),
{
    match line_column(site.text.as_str(), site.start) {
        Some(at) => {
            out.append(location_text(site, at.0, at.1).as_str());
            match line_range(site.text.as_str(), at.0) {
                Some(range) => {
                    out.append(excerpt_text(site, at.0, at.1, range).as_str());
                },
                None => {},
            }
        },
        None => {},
    }
    assert(out@ =~= old(out)@ + site_block(*site));
}

fn append_hints(out: &mut String, hints: &Vec<String>)
    ensures
        final(out)@ == old(out)@ + hint_lines(hints@, hints@.len() as int),
{
    let ghost start = out@;
    assert(start =~= start + hint_lines(hints@, 0));
    for i in 0..hints.len()
        invariant
            out@ == start + hint_lines(hints@, i as int),
    {
        out.append("  hint: ");
        out.append(hints[i].as_str());
        out.append("\n");
        assert(out@ =~= start + hint_lines(hints@, i + 1));
    }
}

fn append_block(out: &mut String, d: &Diagnostic)
    ensures
        final(out)@ == old(out)@ + block(*d),
{
    let severity = match d.severity {
        Severity::Error => "error",
        Severity::Warning => "warning",
    };
    out.append(severity);
    out.append(": ");
    out.append(d.message.as_str());
    out.append("\n");
    if let Some(site) = &d.site {
        append_site(out, site);
    }
    append_hints(out, &d.hints);
    out.append("\n");
    assert(out@ =~= old(out)@ + block(*d));
}

/// Writes out all complaints for a reader.
pub fn format_diagnostics(diags: &Vec<Diagnostic>) -> (r: String)
    ensures
        r@ == report(diags@),
{
    let mut out = String::new();
    for i in 0..diags.len()
        invariant
            out@ == blocks(diags@, i as int),
    {
        append_block(&mut out, &diags[i]);
    }
    trim_end(out.as_str(), Margin::WhiteSpace).to_owned()
}

/// The complaints never end in white space, and nothing else is lost: what is
/// left out at the end is white space.
pub proof fn report_is_trimmed(diags: Seq<Diagnostic>)
    ensures
        report(diags).len() > 0 ==> !Margin::WhiteSpace.has_char(report(diags).last()),
        report(diags) == blocks(diags, diags.len() as int).take(report(diags).len() as int),
{
    lemma_trimmed_end(blocks(diags, diags.len() as int), Margin::WhiteSpace);
}

}
