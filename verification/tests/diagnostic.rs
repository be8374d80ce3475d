use tymnl::diagnostic::{
    excerpt_text, format_diagnostics, location_text, Diagnostic, Severity, Site,
};

fn plain(severity: Severity, message: &str) -> Diagnostic {
    Diagnostic { severity, message: message.to_string(), site: None, hints: vec![] }
}

fn located(text: &str, start: usize, end: usize) -> Diagnostic {
    Diagnostic {
        severity: Severity::Error,
        message: "bad".to_string(),
        site: Some(Site { path: "main.typ".to_string(), text: text.to_string(), start, end }),
        hints: vec![],
    }
}

#[test]
fn no_complaints_make_no_report() {
    assert_eq!(format_diagnostics(&vec![]), "");
}

#[test]
fn complaints_follow_each_other() {
    let mut second = plain(Severity::Warning, "odd");
    second.hints = vec!["try this".to_string(), "or that".to_string()];
    assert_eq!(
        format_diagnostics(&vec![plain(Severity::Error, "wrong"), second]),
        "error: wrong\n\nwarning: odd\n  hint: try this\n  hint: or that"
    );
}

#[test]
fn the_line_of_a_site_is_shown_with_carets() {
    let text = "one\ntwo three\nfour\n";
    assert_eq!(
        format_diagnostics(&vec![located(text, 8, 13)]),
        "error: bad\n  --> main.typ:2:5\n  |\n2 | two three\n  |     ^^^^^"
    );
}

#[test]
fn the_margin_is_as_wide_as_the_number() {
    let text = "\n\n\n\n\n\n\n\n\nab\r\n";
    assert_eq!(
        format_diagnostics(&vec![located(text, 9, 10)]),
        "error: bad\n  --> main.typ:10:1\n   |\n10 | ab\n   | ^"
    );
}

#[test]
fn carets_stay_in_the_line() {
    let text = "abc\ndef";
    assert_eq!(
        format_diagnostics(&vec![located(text, 1, 7)]),
        "error: bad\n  --> main.typ:1:2\n  |\n1 | abc\n  |  ^^^"
    );
    assert_eq!(
        format_diagnostics(&vec![located(text, 4, 7)]),
        "error: bad\n  --> main.typ:2:1\n  |\n2 | def\n  | ^^^"
    );
}

#[test]
fn there_is_at_least_one_caret() {
    assert_eq!(
        format_diagnostics(&vec![located("abc", 1, 1)]),
        "error: bad\n  --> main.typ:1:2\n  |\n1 | abc\n  |  ^"
    );
    assert_eq!(
        format_diagnostics(&vec![located("abc", 3, 0)]),
        "error: bad\n  --> main.typ:1:4\n  |\n1 | abc\n  |    ^"
    );
}

#[test]
fn columns_count_characters() {
    assert_eq!(
        format_diagnostics(&vec![located("\u{e9}\u{e9}x", 4, 5)]),
        "error: bad\n  --> main.typ:1:3\n  |\n1 | \u{e9}\u{e9}x\n  |   ^"
    );
}

#[test]
fn places_inside_a_character_or_past_the_end_are_not_shown() {
    assert_eq!(format_diagnostics(&vec![located("\u{e9}", 1, 2)]), "error: bad");
    assert_eq!(format_diagnostics(&vec![located("abc", 4, 5)]), "error: bad");
}

#[test]
fn reports_do_not_end_in_white_space() {
    let mut last = plain(Severity::Error, "trailing \u{3000}");
    assert_eq!(format_diagnostics(&vec![last]), "error: trailing");
    last = plain(Severity::Error, "x");
    last.hints = vec!["y \t".to_string()];
    assert_eq!(format_diagnostics(&vec![last]), "error: x\n  hint: y");
}

#[test]
fn excerpts_are_made_of_line_column_and_range() {
    let site = Site { path: "a/b.typ".to_string(), text: "one\r\ntwo".to_string(), start: 1, end: 9 };
    assert_eq!(location_text(&site, 0, 1), "  --> a/b.typ:1:2\n");
    assert_eq!(excerpt_text(&site, 0, 1, (0, 5)), "  |\n1 | one\n  |  ^^^^\n");
    assert_eq!(excerpt_text(&site, 98, 0, (5, 8)), "   |\n99 | two\n   | ^^^^^^^\n");
    assert_eq!(excerpt_text(&site, 99, 0, (8, 8)), "    |\n100 | \n    | ^^^^^^^\n");
}
