use xml_service::text::{
    chars_of, decimal_text, find_text, has_text, parse_count, same_text,
};

#[test]
fn chars_are_kept_in_order() {
    assert_eq!(chars_of("aé€"), vec!['a', 'é', '€']);
    assert!(chars_of("").is_empty());
}

#[test]
fn same_text_compares_characters() {
    assert!(same_text("OK", "OK"));
    assert!(!same_text("OK", "ok"));
    assert!(!same_text("OK", "OK "));
    assert!(same_text("", ""));
}

#[test]
fn find_text_gives_the_first_position_in_characters() {
    assert_eq!(find_text("postgres://u:p@h/db", "://"), Some(8));
    assert_eq!(find_text("aaa", "a"), Some(0));
    assert_eq!(find_text("é@x@", "@"), Some(1));
    assert_eq!(find_text("abc", "abcd"), None);
    assert_eq!(find_text("abc", "x"), None);
    assert_eq!(find_text("abc", ""), Some(0));
    assert_eq!(find_text("", ""), Some(0));
    assert_eq!(find_text("abcabc", "cab"), Some(2));
    assert_eq!(find_text("abc", "bc"), Some(1));
}

#[test]
fn has_text_finds_a_part() {
    assert!(has_text("a?b", "?"));
    assert!(!has_text("ab", "?"));
    assert!(has_text("x&sslmode=disable", "sslmode="));
}

#[test]
fn decimal_text_writes_digits() {
    assert_eq!(decimal_text(0), "0");
    assert_eq!(decimal_text(7), "7");
    assert_eq!(decimal_text(10), "10");
    assert_eq!(decimal_text(4294967295), "4294967295");
    assert_eq!(decimal_text(u64::MAX), "18446744073709551615");
}

#[test]
fn parse_count_reads_signed_decimals() {
    assert_eq!(parse_count("0"), Some(0));
    assert_eq!(parse_count("42"), Some(42));
    assert_eq!(parse_count("+42"), Some(42));
    assert_eq!(parse_count("-42"), Some(-42));
    assert_eq!(parse_count("007"), Some(7));
    assert_eq!(parse_count("9223372036854775807"), Some(i64::MAX));
    assert_eq!(parse_count("-9223372036854775808"), Some(i64::MIN));
    assert_eq!(parse_count("000000000000000000000000000012"), Some(12));
}

#[test]
fn parse_count_refuses_what_is_no_count() {
    assert_eq!(parse_count(""), None);
    assert_eq!(parse_count("-"), None);
    assert_eq!(parse_count("+"), None);
    assert_eq!(parse_count("12a"), None);
    assert_eq!(parse_count(" 12"), None);
    assert_eq!(parse_count("1.5"), None);
    assert_eq!(parse_count("--1"), None);
    assert_eq!(parse_count("9223372036854775808"), None);
    assert_eq!(parse_count("-9223372036854775809"), None);
    assert_eq!(parse_count("99999999999999999999999999"), None);
    assert_eq!(parse_count("99999999999999999999999999x"), None);
}
