use ccg::hunk_header::{header_starts_of, parse_i32_of};
use ccg::text::decimal_text;
use ccg::text::{contains, first_line_of, last_path_segment_of, starts_with, strip_prefix_of, take_chars_of, trim};

#[test]
fn trim_removes_unicode_white_space() {
    assert_eq!(trim("  a b \n"), "a b");
    assert_eq!(trim("\u{3000}x\u{a0}"), "x");
    assert_eq!(trim(" \t "), "");
    assert_eq!(trim(""), "");
}

#[test]
fn prefix_and_substring_tests() {
    assert!(starts_with("abcdef", "abc"));
    assert!(!starts_with("ab", "abc"));
    assert!(starts_with("x", ""));
    assert!(contains("a No newline at end of file", "No newline at end of file"));
    assert!(!contains("newline", "No newline"));
}

#[test]
fn line_and_path_helpers() {
    assert_eq!(first_line_of("one\ntwo"), Some("one".to_string()));
    assert_eq!(first_line_of("solo"), Some("solo".to_string()));
    assert_eq!(first_line_of("cr\r\nnext"), Some("cr".to_string()));
    assert_eq!(first_line_of(""), None);
    assert_eq!(last_path_segment_of("src/dir/file.rs"), "file.rs");
    assert_eq!(last_path_segment_of("plain"), "plain");
    assert_eq!(last_path_segment_of("dir/"), "");
    assert_eq!(take_chars_of("0123456789", 7), "0123456");
    assert_eq!(take_chars_of("012", 7), "012");
    assert_eq!(strip_prefix_of("prefix-rest", "prefix-"), Some("rest".to_string()));
    assert_eq!(strip_prefix_of("other", "prefix-"), None);
}

#[test]
fn numbers_parse_and_print() {
    assert_eq!(parse_i32_of("42"), Some(42));
    assert_eq!(parse_i32_of("+7"), Some(7));
    assert_eq!(parse_i32_of("-2147483648"), Some(i32::MIN));
    assert_eq!(parse_i32_of("2147483648"), None);
    assert_eq!(parse_i32_of("99999999999999"), None);
    assert_eq!(parse_i32_of("-"), None);
    assert_eq!(parse_i32_of("1a"), None);
    assert_eq!(parse_i32_of(""), None);
    assert_eq!(header_starts_of("@@ -12,5 +14,6 @@"), (Some(12), Some(14)));
    assert_eq!(header_starts_of("@@  -3  +4 @@"), (Some(3), Some(4)));
    assert_eq!(header_starts_of("@@ -x +1"), (None, Some(1)));
    assert_eq!(header_starts_of("@@ -1"), (None, None));
    assert_eq!(decimal_text(0), "0");
    assert_eq!(decimal_text(1907), "1907");
}
