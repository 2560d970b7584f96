//! The string helpers: formatting, parsing, trimming, stripping.

use timely_server::strutil::parse_u64;
use timely_server::strutil::str_eq;
use timely_server::strutil::strip_leading_char;
use timely_server::strutil::strip_trailing_char;
use timely_server::strutil::trim_str;
use timely_server::strutil::u64_to_string;

#[test]
fn u64_to_string_formats_decimal() {
    assert_eq!(u64_to_string(0), "0");
    assert_eq!(u64_to_string(7), "7");
    assert_eq!(u64_to_string(1234567890), "1234567890");
    assert_eq!(u64_to_string(u64::MAX), "18446744073709551615");
}

#[test]
fn parse_u64_accepts_digits() {
    assert_eq!(parse_u64("0"), Some(0));
    assert_eq!(parse_u64("42"), Some(42));
    assert_eq!(parse_u64("007"), Some(7));
    assert_eq!(parse_u64("18446744073709551615"), Some(u64::MAX));
}

#[test]
fn parse_u64_rejects_bad_input() {
    assert_eq!(parse_u64(""), None);
    assert_eq!(parse_u64("12a"), None);
    assert_eq!(parse_u64("-1"), None);
    assert_eq!(parse_u64("+1"), None);
    assert_eq!(parse_u64("18446744073709551616"), None);
}

#[test]
fn trim_str_removes_surrounding_whitespace() {
    assert_eq!(trim_str("  bob \t\n"), "bob");
    assert_eq!(trim_str("bob"), "bob");
    assert_eq!(trim_str("   "), "");
    assert_eq!(trim_str(""), "");
    assert_eq!(trim_str(" a b "), "a b");
}

#[test]
fn str_eq_compares_contents() {
    assert!(str_eq("abc", "abc"));
    assert!(!str_eq("abc", "abd"));
    assert!(!str_eq("abc", "ab"));
    assert!(str_eq("", ""));
}

#[test]
fn strip_single_leading_and_trailing_chars() {
    assert_eq!(strip_leading_char("/a/b", '/'), "a/b");
    assert_eq!(strip_leading_char("a/b", '/'), "a/b");
    assert_eq!(strip_leading_char("//a", '/'), "/a");
    assert_eq!(strip_trailing_char("http://x/", '/'), "http://x");
    assert_eq!(strip_trailing_char("http://x", '/'), "http://x");
}
