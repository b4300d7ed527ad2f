use zerobeat::text::{
    contains_str, decimal_string, is_blank, signed_decimal_string, starts_with_str, to_ascii_lowercase,
    trim,
};

#[test]
fn trimming_follows_unicode_whitespace() {
    assert_eq!(trim("  a b \t\n"), "a b");
    assert_eq!(trim("\u{3000}x\u{A0}"), "x");
    assert!(is_blank(" \u{2003} "));
    assert!(!is_blank(" x "));
}

#[test]
fn numbers_are_written_in_decimal() {
    assert_eq!(decimal_string(0), "0");
    assert_eq!(decimal_string(u64::MAX), "18446744073709551615");
    assert_eq!(signed_decimal_string(-42), "-42");
    assert_eq!(signed_decimal_string(i64::MIN), "-9223372036854775808");
}

#[test]
fn text_helpers_search_and_join() {
    assert!(contains_str("hello world", "o w"));
    assert!(!contains_str("hello", "world"));
    assert!(starts_with_str("https://a", "https://"));
    assert_eq!(zerobeat::text::concat("ab", "cd"), "abcd");
    assert_eq!(to_ascii_lowercase("AbC-Ä"), "abc-Ä");
}
