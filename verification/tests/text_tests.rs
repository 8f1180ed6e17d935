use proc_config::text::{key_matches, parse_bool, parse_i64, str_eq};

#[test]
fn parse_i64_accepts_decimals() {
    assert_eq!(parse_i64("0"), Some(0));
    assert_eq!(parse_i64("9090"), Some(9090));
    assert_eq!(parse_i64("-12"), Some(-12));
    assert_eq!(parse_i64("007"), Some(7));
    assert_eq!(parse_i64("-0"), Some(0));
}

#[test]
fn parse_i64_handles_the_bounds() {
    assert_eq!(parse_i64("9223372036854775807"), Some(i64::MAX));
    assert_eq!(parse_i64("-9223372036854775808"), Some(i64::MIN));
    assert_eq!(parse_i64("9223372036854775808"), None);
    assert_eq!(parse_i64("-9223372036854775809"), None);
    assert_eq!(parse_i64("99999999999999999999999"), None);
}

#[test]
fn parse_i64_rejects_junk() {
    assert_eq!(parse_i64(""), None);
    assert_eq!(parse_i64("-"), None);
    assert_eq!(parse_i64("12a"), None);
    assert_eq!(parse_i64("a12"), None);
    assert_eq!(parse_i64("1 2"), None);
    assert_eq!(parse_i64("+12"), None);
    assert_eq!(parse_i64("1.5"), None);
    assert_eq!(parse_i64("--1"), None);
}

#[test]
fn parse_bool_is_exact() {
    assert_eq!(parse_bool("true"), Some(true));
    assert_eq!(parse_bool("false"), Some(false));
    assert_eq!(parse_bool("True"), None);
    assert_eq!(parse_bool("FALSE"), None);
    assert_eq!(parse_bool("1"), None);
    assert_eq!(parse_bool(""), None);
}

#[test]
fn key_matches_upper_cases_the_name() {
    assert!(key_matches("PORT", "port"));
    assert!(key_matches("PORT", "PORT"));
    assert!(key_matches("NAME2", "name2"));
    assert!(!key_matches("PORT", "pory"));
    assert!(!key_matches("PORTS", "port"));
    assert!(!key_matches("port", "port"));
}

#[test]
fn str_eq_compares_contents() {
    assert!(str_eq("", ""));
    assert!(str_eq("abc", "abc"));
    assert!(!str_eq("abc", "abd"));
    assert!(!str_eq("abc", "abcd"));
}
