use reading_catalog::text::{eq_ignore_case, parse_i64, replace_str, split_commas, str_contains, trim_str, u64_to_string};

#[test]
fn trim_removes_surrounding_whitespace() {
    assert_eq!(trim_str("  a b  "), "a b");
    assert_eq!(trim_str("\t\nTitle \r"), "Title");
    assert_eq!(trim_str(""), "");
    assert_eq!(trim_str("   "), "");
    assert_eq!(trim_str("no-trim"), "no-trim");
}

#[test]
fn case_insensitive_compare_is_ascii_only() {
    assert!(eq_ignore_case("Dune", "dUNE"));
    assert!(eq_ignore_case("FRANK HERBERT", "frank herbert"));
    assert!(!eq_ignore_case("Dune", "Dune Messiah"));
    assert!(!eq_ignore_case("a", "b"));
    assert!(eq_ignore_case("", ""));
}

#[test]
fn parse_i64_accepts_signed_decimal_only() {
    assert_eq!(parse_i64("42"), Some(42));
    assert_eq!(parse_i64("+17"), Some(17));
    assert_eq!(parse_i64("-5"), Some(-5));
    assert_eq!(parse_i64("0"), Some(0));
    assert_eq!(parse_i64("9223372036854775807"), Some(i64::MAX));
    assert_eq!(parse_i64("-9223372036854775808"), Some(i64::MIN));
    assert_eq!(parse_i64("9223372036854775808"), None);
    assert_eq!(parse_i64("-9223372036854775809"), None);
    assert_eq!(parse_i64(""), None);
    assert_eq!(parse_i64("+"), None);
    assert_eq!(parse_i64("4.5"), None);
    assert_eq!(parse_i64(" 7"), None);
}

#[test]
fn substring_search() {
    assert!(str_contains("https://covers.openlibrary.org/x", "openlibrary"));
    assert!(!str_contains("https://books.google.com/x", "openlibrary"));
    assert!(str_contains("abc", ""));
    assert!(!str_contains("ab", "abc"));
}

#[test]
fn replace_rewrites_every_occurrence() {
    assert_eq!(replace_str("http://a http://b", "http://", "https://"), "https://a https://b");
    assert_eq!(replace_str("zoom=1&zoom=1", "zoom=1", "zoom=0"), "zoom=0&zoom=0");
    assert_eq!(replace_str("nothing here", "zoom=1", "zoom=0"), "nothing here");
}

#[test]
fn split_on_commas_keeps_empty_tokens() {
    let toks = split_commas("fantasy, classics,,sci-fi");
    let toks: Vec<&str> = toks.iter().map(|s| s.as_str()).collect();
    assert_eq!(toks, vec!["fantasy", " classics", "", "sci-fi"]);
    let single = split_commas("alone");
    assert_eq!(single.len(), 1);
    assert_eq!(single[0], "alone");
}

#[test]
fn decimal_formatting() {
    assert_eq!(u64_to_string(0), "0");
    assert_eq!(u64_to_string(7), "7");
    assert_eq!(u64_to_string(2025), "2025");
    assert_eq!(u64_to_string(18446744073709551615), "18446744073709551615");
}
