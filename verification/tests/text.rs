use ql_bridge::json::{find_member, JsonValue};
use ql_bridge::text::{
    chars_of, parse_digits, push_digits, push_integer, scan_digits, starts_with_at,
};

fn written(n: i64) -> String {
    let mut out = String::from("n=");
    push_integer(&mut out, n);
    out
}

#[test]
fn push_integer_writes_base_ten() {
    assert_eq!(written(0), "n=0");
    assert_eq!(written(7), "n=7");
    assert_eq!(written(10), "n=10");
    assert_eq!(written(-1), "n=-1");
    assert_eq!(written(-32768), "n=-32768");
    assert_eq!(written(i64::MAX), "n=9223372036854775807");
    assert_eq!(written(i64::MIN), "n=-9223372036854775808");
}

#[test]
fn push_digits_appends() {
    let mut out = String::new();
    push_digits(&mut out, 0);
    push_digits(&mut out, 1234567890);
    push_digits(&mut out, u64::MAX);
    assert_eq!(out, "0123456789018446744073709551615");
}

#[test]
fn chars_of_gives_each_character() {
    assert_eq!(chars_of(""), Vec::<char>::new());
    assert_eq!(chars_of("a\u{e9}\u{1f39a}"), vec!['a', '\u{e9}', '\u{1f39a}']);
}

#[test]
fn starts_with_at_looks_at_one_place() {
    let line = chars_of("hello world");
    assert!(starts_with_at(&line, 0, &chars_of("hello")));
    assert!(starts_with_at(&line, 6, &chars_of("world")));
    assert!(starts_with_at(&line, 11, &chars_of("")));
    assert!(!starts_with_at(&line, 12, &chars_of("")));
    assert!(!starts_with_at(&line, 7, &chars_of("world")));
    assert!(!starts_with_at(&line, 1, &chars_of("hello")));
    assert!(!starts_with_at(&line, usize::MAX, &chars_of("h")));
}

#[test]
fn scan_digits_stops_at_the_first_other_character() {
    let line = chars_of("12a345\u{663}6");
    assert_eq!(scan_digits(&line, 0), 2);
    assert_eq!(scan_digits(&line, 2), 2);
    assert_eq!(scan_digits(&line, 3), 6);
    assert_eq!(scan_digits(&line, 7), 8);
    assert_eq!(scan_digits(&line, 8), 8);
}

#[test]
fn parse_digits_reads_up_to_the_limit() {
    let line = chars_of("x00255y");
    assert_eq!(parse_digits(&line, 1, 6, 255), Some(255));
    assert_eq!(parse_digits(&line, 1, 6, 254), None);
    assert_eq!(parse_digits(&line, 1, 3, 0), Some(0));
    assert_eq!(parse_digits(&line, 2, 2, 0), Some(0));
    let long = chars_of("4294967295999");
    assert_eq!(parse_digits(&long, 0, 10, u32::MAX), Some(u32::MAX));
    assert_eq!(parse_digits(&long, 0, 13, u32::MAX), None);
}

#[test]
fn find_member_gives_the_first_of_a_name() {
    let members = vec![
        ("a".to_string(), JsonValue::Null),
        ("b".to_string(), JsonValue::Bool(true)),
        ("a".to_string(), JsonValue::Bool(false)),
    ];
    assert_eq!(find_member(&members, "a"), Some(&JsonValue::Null));
    assert_eq!(find_member(&members, "b"), Some(&JsonValue::Bool(true)));
    assert_eq!(find_member(&members, "c"), None);
    assert_eq!(find_member(&Vec::new(), "a"), None);
}
