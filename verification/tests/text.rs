use connect_rpc::text::{
    bytes_eq, join, contains_char, decimal_string, ends_with, parse_u64, rsplit_once,
    starts_with, str_eq, strip_prefix,
};

#[test]
fn decimal_string_writes_numbers() {
    assert_eq!(decimal_string(0), "0");
    assert_eq!(decimal_string(7), "7");
    assert_eq!(decimal_string(10), "10");
    assert_eq!(decimal_string(9_999_999_999), "9999999999");
    assert_eq!(decimal_string(u64::MAX), "18446744073709551615");
}

#[test]
fn parse_u64_reads_numbers() {
    assert_eq!(parse_u64("0"), Some(0));
    assert_eq!(parse_u64("007"), Some(7));
    assert_eq!(parse_u64("+15"), Some(15));
    assert_eq!(parse_u64("18446744073709551615"), Some(u64::MAX));
    assert_eq!(parse_u64("18446744073709551616"), None);
    assert_eq!(parse_u64("99999999999999999999999"), None);
    assert_eq!(parse_u64(""), None);
    assert_eq!(parse_u64("+"), None);
    assert_eq!(parse_u64("-1"), None);
    assert_eq!(parse_u64("1 "), None);
    assert_eq!(parse_u64("12a"), None);
    assert_eq!(parse_u64("++1"), None);
}

#[test]
fn parse_u64_agrees_with_std() {
    for text in ["1", "+1", "0000", "42", "1e3", " 1", "18446744073709551615", "٣"] {
        assert_eq!(parse_u64(text), text.parse::<u64>().ok(), "{text}");
    }
}

#[test]
fn prefixes_and_suffixes() {
    assert!(starts_with("application/json", "application/"));
    assert!(!starts_with("app", "application/"));
    assert!(starts_with("abc", ""));
    assert!(ends_with("x-bin", "-bin"));
    assert!(!ends_with("bin", "-bin"));
    assert!(!ends_with("x-BIN", "-bin"));
    assert_eq!(strip_prefix("trailer-x", "trailer-"), Some("x"));
    assert_eq!(strip_prefix("x", "trailer-"), None);
    assert_eq!(strip_prefix("héllo", "hé"), Some("llo"));
}

#[test]
fn splitting_and_searching() {
    assert_eq!(rsplit_once("/a.B/C", '/'), Some(("/a.B", "C")));
    assert_eq!(rsplit_once("abc", '/'), None);
    assert_eq!(rsplit_once("a/", '/'), Some(("a", "")));
    assert_eq!(rsplit_once("é/ü/ø", '/'), Some(("é/ü", "ø")));
    assert!(contains_char("a?b", '?'));
    assert!(!contains_char("ab", '?'));
    assert_eq!(join("ab", "cd"), "abcd");
    assert!(str_eq("abc", "abc"));
    assert!(!str_eq("abc", "abd"));
    assert!(!str_eq("abc", "ab"));
    assert!(bytes_eq(b"ab", b"ab"));
    assert!(!bytes_eq(b"ab", b"ac"));
    assert!(!bytes_eq(b"ab", b"abc"));
}
