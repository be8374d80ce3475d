use tymnl::table::Table;
use tymnl::text::{
    append_carets, append_spaces, decimal_text, eq_ignore_ascii_case, find_char, parse_number,
    same, signed_decimal_text, trim, trim_end, Margin,
};

#[test]
fn decimals_are_written_like_std_writes_them() {
    for n in [0u64, 1, 9, 10, 11, 99, 100, 12345, u32::MAX as u64, u64::MAX] {
        assert_eq!(decimal_text(n), n.to_string());
    }
    assert_eq!(decimal_text(1234567890), "1234567890");
}

#[test]
fn signed_decimals_are_written_like_std_writes_them() {
    for n in [0i32, 1, -1, 42, -42, i32::MAX, i32::MIN] {
        assert_eq!(signed_decimal_text(n), n.to_string());
    }
    assert_eq!(signed_decimal_text(-127), "-127");
}

#[test]
fn different_numbers_have_different_decimals() {
    assert_ne!(decimal_text(1), decimal_text(11));
    assert_ne!(decimal_text(10), decimal_text(100));
}

#[test]
fn numbers_are_read_like_std_reads_them() {
    for s in [
        "", "+", "-", "0", "7", "+7", "-0", "-7", "007", "12a", " 1", "1 ", "4294967295",
        "4294967296", "99999999999999999999", "+4294967295", "++1", "1_0", "\u{661}",
    ] {
        assert_eq!(parse_number(s), s.parse::<u32>().ok(), "{:?}", s);
    }
}

#[test]
fn white_space_is_what_unicode_says() {
    for n in 0..=0x10ffffu32 {
        if let Some(c) = char::from_u32(n) {
            assert_eq!(Margin::WhiteSpace.has(c), c.is_whitespace(), "{:x}", n);
            assert_eq!(Margin::LineEnd.has(c), c == '\n' || c == '\r', "{:x}", n);
        }
    }
}

#[test]
fn trimming_is_that_of_std() {
    for s in ["", " ", "a", " a ", "\t\u{3000}a b\u{a0}\n", "\n\n", "b\r\n", "\u{e9} \u{e9} "] {
        assert_eq!(trim(s, Margin::WhiteSpace), s.trim());
        assert_eq!(trim_end(s, Margin::WhiteSpace), s.trim_end());
        assert_eq!(trim_end(s, Margin::LineEnd), s.trim_end_matches(['\n', '\r']));
    }
}

#[test]
fn ascii_case_is_ignored() {
    assert!(eq_ignore_ascii_case("aa:BB:0f", "AA:bb:0F"));
    assert!(!eq_ignore_ascii_case("aa:bb", "aa:bc"));
    assert!(!eq_ignore_ascii_case("aa", "aaa"));
    assert!(!eq_ignore_ascii_case("\u{e9}", "\u{c9}"));
    assert!(!eq_ignore_ascii_case("@", "`"));
    assert!(!eq_ignore_ascii_case("[", "{"));
}

#[test]
fn strings_are_compared_by_their_characters() {
    assert!(same("abc", "abc"));
    assert!(!same("abc", "abd"));
    assert!(!same("abc", "ab"));
}

#[test]
fn characters_are_found_where_they_stand_first() {
    assert_eq!(find_char("12:30:45", ':'), Some(2));
    assert_eq!(find_char("\u{e9}\u{e9}:", ':'), Some(2));
    assert_eq!(find_char("1230", ':'), None);
    assert_eq!(find_char("", ':'), None);
}

#[test]
fn rows_of_one_character_are_appended() {
    let mut out = String::from("x");
    append_spaces(&mut out, 3);
    append_carets(&mut out, 2);
    append_spaces(&mut out, 0);
    assert_eq!(out, "x   ^^");
}

#[test]
fn tables_hold_one_value_for_each_key() {
    let mut table: Table<u32> = Table::new();
    assert!(table.get("a").is_none());
    table.insert("a".to_string(), 1);
    table.insert("b".to_string(), 2);
    table.insert("a".to_string(), 3);
    assert_eq!(table.get("a"), Some(&3));
    assert_eq!(table.get("b"), Some(&2));
    assert_eq!(table.entries().len(), 2);
    assert_eq!(table.remove("a"), Some(3));
    assert_eq!(table.remove("a"), None);
    assert_eq!(table.entries().len(), 1);
}

#[test]
fn tables_drop_what_is_too_old() {
    let mut table: Table<(u128, u32)> = Table::new();
    table.insert("old".to_string(), (0, 1));
    table.insert("edge".to_string(), (50, 2));
    table.insert("young".to_string(), (51, 3));
    table.insert("ahead".to_string(), (200, 4));
    table.retain_younger(150, 100);
    assert!(table.get("old").is_none());
    assert!(table.get("edge").is_none());
    assert_eq!(table.get("young"), Some(&(51, 3)));
    assert_eq!(table.get("ahead"), Some(&(200, 4)));
}
