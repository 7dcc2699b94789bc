use stress_all::text::{byte_is_digit, byte_is_space, parse_i64, parse_milli, parse_u64};
use stress_all::tokens::{has_prefix, split_fields, split_lines, split_words, trim};

fn strs(v: Vec<Vec<u8>>) -> Vec<String> {
    v.into_iter().map(|b| String::from_utf8(b).unwrap()).collect()
}

#[test]
fn unsigned_numbers() {
    assert_eq!(parse_u64(b"123"), Some(123));
    assert_eq!(parse_u64(b"+7"), Some(7));
    assert_eq!(parse_u64(b"007"), Some(7));
    assert_eq!(parse_u64(b"0"), Some(0));
    assert_eq!(parse_u64(b"18446744073709551615"), Some(u64::MAX));
}

#[test]
fn what_is_no_unsigned_number() {
    assert_eq!(parse_u64(b""), None);
    assert_eq!(parse_u64(b"+"), None);
    assert_eq!(parse_u64(b"-1"), None);
    assert_eq!(parse_u64(b"12a"), None);
    assert_eq!(parse_u64(b" 12"), None);
    assert_eq!(parse_u64(b"1.5"), None);
    assert_eq!(parse_u64(b"18446744073709551616"), None);
    assert_eq!(parse_u64(b"99999999999999999999999"), None);
}

#[test]
fn signed_numbers() {
    assert_eq!(parse_i64(b"-42"), Some(-42));
    assert_eq!(parse_i64(b"+5"), Some(5));
    assert_eq!(parse_i64(b"5"), Some(5));
    assert_eq!(parse_i64(b"-9223372036854775808"), Some(i64::MIN));
    assert_eq!(parse_i64(b"9223372036854775807"), Some(i64::MAX));
    assert_eq!(parse_i64(b"9223372036854775808"), None);
    assert_eq!(parse_i64(b"-9223372036854775809"), None);
    assert_eq!(parse_i64(b"-"), None);
    assert_eq!(parse_i64(b""), None);
    assert_eq!(parse_i64(b"--1"), None);
}

#[test]
fn decimals_in_thousandths() {
    assert_eq!(parse_milli(b"0.52"), Some(520));
    assert_eq!(parse_milli(b"45"), Some(45000));
    assert_eq!(parse_milli(b"-3"), Some(-3000));
    assert_eq!(parse_milli(b"1.2345"), Some(1234));
    assert_eq!(parse_milli(b"1.2"), Some(1200));
    assert_eq!(parse_milli(b".5"), Some(500));
    assert_eq!(parse_milli(b"5."), Some(5000));
    assert_eq!(parse_milli(b"+0.001"), Some(1));
    assert_eq!(parse_milli(b"-0.04"), Some(-40));
    assert_eq!(parse_milli(b"0.0009"), Some(0));
    assert_eq!(parse_milli(b"9223372036854775.807"), Some(i64::MAX));
    assert_eq!(parse_milli(b"-9223372036854775.808"), Some(i64::MIN));
}

#[test]
fn what_is_no_decimal() {
    assert_eq!(parse_milli(b""), None);
    assert_eq!(parse_milli(b"."), None);
    assert_eq!(parse_milli(b"-"), None);
    assert_eq!(parse_milli(b"-."), None);
    assert_eq!(parse_milli(b"1e3"), None);
    assert_eq!(parse_milli(b"nan"), None);
    assert_eq!(parse_milli(b"inf"), None);
    assert_eq!(parse_milli(b"12.3.4"), None);
    assert_eq!(parse_milli(b"45 %"), None);
    assert_eq!(parse_milli(b"9223372036854775.808"), None);
    assert_eq!(parse_milli(b"99999999999999999999"), None);
}

#[test]
fn byte_classes() {
    assert!(byte_is_digit(b'0') && byte_is_digit(b'9'));
    assert!(!byte_is_digit(b'/') && !byte_is_digit(b':'));
    for b in [b' ', b'\t', b'\n', 0x0b, 0x0c, b'\r'] {
        assert!(byte_is_space(b));
    }
    assert!(!byte_is_space(b'a') && !byte_is_space(0) && !byte_is_space(8) && !byte_is_space(14));
}

#[test]
fn words_are_runs_without_white_space() {
    assert_eq!(strs(split_words(b"  cpu  1 2\t3\n")), ["cpu", "1", "2", "3"]);
    assert_eq!(strs(split_words(b"one")), ["one"]);
    assert!(split_words(b"").is_empty());
    assert!(split_words(b" \t\r\n").is_empty());
}

#[test]
fn fields_keep_empty_pieces() {
    assert_eq!(strs(split_fields(b"a,,b", b',')), ["a", "", "b"]);
    assert_eq!(strs(split_fields(b"", b',')), [""]);
    assert_eq!(strs(split_fields(b",", b',')), ["", ""]);
    assert_eq!(strs(split_fields(b"x", b',')), ["x"]);
    assert_eq!(strs(split_fields(b"1, 2,3 ", b',')), ["1", " 2", "3 "]);
}

#[test]
fn lines_drop_an_empty_last_line() {
    assert_eq!(strs(split_lines(b"a\nb\n")), ["a", "b"]);
    assert_eq!(strs(split_lines(b"a\nb")), ["a", "b"]);
    assert_eq!(strs(split_lines(b"a\n\nb")), ["a", "", "b"]);
    assert_eq!(strs(split_lines(b"\n")), [""]);
    assert!(split_lines(b"").is_empty());
}

#[test]
fn trim_cuts_both_ends() {
    assert_eq!(trim(b"  x y \r\n"), b"x y");
    assert_eq!(trim(b"x"), b"x");
    assert_eq!(trim(b"   "), b"");
    assert_eq!(trim(b""), b"");
    assert_eq!(trim(b"\t12\n"), b"12");
}

#[test]
fn prefixes() {
    assert!(has_prefix(b"MemTotal: 5", b"MemTotal:"));
    assert!(has_prefix(b"abc", b""));
    assert!(has_prefix(b"abc", b"abc"));
    assert!(!has_prefix(b"ab", b"abc"));
    assert!(!has_prefix(b"SwapCached: 1", b"Cached:"));
}
