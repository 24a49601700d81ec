use graphsynth::numeral::{i64_to_dec, parse_i64, u64_to_dec};
use graphsynth::text::{contains_sub, find_sub, join_with, split_all, str_eq};

#[test]
fn string_equality() {
    assert!(str_eq("abc", "abc"));
    assert!(!str_eq("abc", "abd"));
    assert!(!str_eq("abc", "ab"));
    assert!(str_eq("", ""));
}

#[test]
fn finds_first_occurrence() {
    assert_eq!(find_sub("a_join_on_b", "_join_on_"), Some(1));
    assert_eq!(find_sub("abcabc", "abc"), Some(0));
    assert_eq!(find_sub("abcabc", "cab"), Some(2));
    assert_eq!(find_sub("abc", "xyz"), None);
    assert_eq!(find_sub("ab", "abc"), None);
    assert_eq!(find_sub("abc", ""), Some(0));
}

#[test]
fn contains_marker() {
    assert!(contains_sub("user_id_join_on_users", "_join_on_"));
    assert!(!contains_sub("user_id", "_join_on_"));
}

#[test]
fn splits_on_separator() {
    let parts = split_all("id:integer, name:text", ", ");
    assert_eq!(parts, vec!["id:integer".to_string(), "name:text".to_string()]);
    let parts = split_all("a::b", ":");
    assert_eq!(parts, vec!["a".to_string(), "".to_string(), "b".to_string()]);
    let parts = split_all("plain", ", ");
    assert_eq!(parts, vec!["plain".to_string()]);
    let parts = split_all("", ":");
    assert_eq!(parts, vec!["".to_string()]);
}

#[test]
fn joins_with_separator() {
    let v = vec!["id".to_string(), "name".to_string(), "active".to_string()];
    assert_eq!(join_with(&v, ", "), "id, name, active");
    let one = vec!["id".to_string()];
    assert_eq!(join_with(&one, ", "), "id");
    let none: Vec<String> = vec![];
    assert_eq!(join_with(&none, ", "), "");
}

#[test]
fn renders_decimals_exactly() {
    assert_eq!(u64_to_dec(0), "0");
    assert_eq!(u64_to_dec(42), "42");
    assert_eq!(i64_to_dec(0), "0");
    assert_eq!(i64_to_dec(7), "7");
    assert_eq!(i64_to_dec(-1), "-1");
    assert_eq!(i64_to_dec(9223372036854775807), "9223372036854775807");
    assert_eq!(i64_to_dec(-9223372036854775808), "-9223372036854775808");
}

#[test]
fn parses_decimals_strictly() {
    assert_eq!(parse_i64("0"), Some(0));
    assert_eq!(parse_i64("42"), Some(42));
    assert_eq!(parse_i64("-42"), Some(-42));
    assert_eq!(parse_i64("007"), Some(7));
    assert_eq!(parse_i64("9223372036854775807"), Some(i64::MAX));
    assert_eq!(parse_i64("-9223372036854775808"), Some(i64::MIN));
}

// never truncated, never wrapped: out of range and malformed texts are refused
#[test]
fn refuses_overflow_and_garbage() {
    assert_eq!(parse_i64("9223372036854775808"), None);
    assert_eq!(parse_i64("-9223372036854775809"), None);
    assert_eq!(parse_i64("99999999999999999999999"), None);
    assert_eq!(parse_i64(""), None);
    assert_eq!(parse_i64("-"), None);
    assert_eq!(parse_i64("12a"), None);
    assert_eq!(parse_i64("1.5"), None);
    assert_eq!(parse_i64(" 1"), None);
    assert_eq!(parse_i64("+1"), None);
}

#[test]
fn decimal_round_trip() {
    for v in [0i64, 1, -1, 10, 99, -100, 123456789, i64::MIN, i64::MAX] {
        assert_eq!(parse_i64(&i64_to_dec(v)), Some(v));
    }
}
