use rust_system_agent::pattern::{lines_of, replace_literal};
use rust_system_agent::text::{byte_prefix_string, decimal_string, join_strings, str_contains, trim_str};

#[test]
fn trimming_unicode_space() {
    assert_eq!(trim_str("\u{3000} a b \t\n"), "a b");
    assert_eq!(trim_str(""), "");
    assert_eq!(trim_str("x"), "x");
}

#[test]
fn decimals() {
    assert_eq!(decimal_string(0), "0");
    assert_eq!(decimal_string(1234567890), "1234567890");
    assert_eq!(decimal_string(u64::MAX), "18446744073709551615");
}

#[test]
fn joining_and_searching() {
    assert_eq!(join_strings(&vec!["a".into(), "b".into(), "c".into()], ", "), "a, b, c");
    assert_eq!(join_strings(&vec![], ", "), "");
    assert!(str_contains("hello world", "o w"));
    assert!(str_contains("abc", ""));
    assert!(!str_contains("abc", "abcd"));
}

#[test]
fn byte_prefixes() {
    assert_eq!(byte_prefix_string("héllo", 3), "hé");
    assert_eq!(byte_prefix_string("abc", 0), "");
}

#[test]
fn literal_replacement() {
    assert_eq!(replace_literal("a&amp;b&amp;", "&amp;", "&"), "a&b&");
    assert_eq!(replace_literal("aaa", "aa", "b"), "ba");
    assert_eq!(replace_literal("abc", "", "x"), "abc");
}

#[test]
fn lines_split_like_str_lines() {
    assert_eq!(lines_of("a\nb\n"), vec!["a", "b"]);
    assert_eq!(lines_of("a\n\nb"), vec!["a", "", "b"]);
    assert_eq!(lines_of(""), Vec::<String>::new());
    assert_eq!(lines_of("\n"), vec![""]);
    let expected: Vec<String> = "x\r\ny".lines().map(|l| l.trim().to_string()).collect();
    let ours: Vec<String> = lines_of("x\r\ny").iter().map(|l| l.trim().to_string()).collect();
    assert_eq!(ours, expected);
}
