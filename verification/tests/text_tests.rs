use validator_scan::text::contains_substr;
use validator_scan::text::contains_substr_ci;
use validator_scan::text::find_substr;
use validator_scan::text::parse_digit_run;
use validator_scan::text::trim_text;
use validator_scan::text::u32_to_dec;

#[test]
fn contains_exact_substring() {
    assert!(contains_substr("abcdef", "cde"));
    assert!(contains_substr("abcdef", ""));
    assert!(!contains_substr("abcdef", "cdf"));
    assert!(!contains_substr("ab", "abc"));
}

#[test]
fn find_first_occurrence() {
    assert_eq!(find_substr("abcabc", "bc"), Some(1));
    assert_eq!(find_substr("abcabc", "zz"), None);
    assert_eq!(find_substr("p=3&p=7", "p="), Some(0));
}

#[test]
fn contains_case_insensitive() {
    assert!(contains_substr_ci("Validator is ACTIVE now", "active"));
    assert!(contains_substr_ci("aCtIvE", "active"));
    assert!(!contains_substr_ci("Exited", "active"));
    assert!(contains_substr_ci("exit ACTIVE", "Active"));
}

#[test]
fn trim_removes_outer_whitespace() {
    assert_eq!(trim_text("  x y\t\n"), "x y".to_string());
    assert_eq!(trim_text("plain"), "plain".to_string());
    assert_eq!(trim_text(" \t\r\n "), "".to_string());
    assert_eq!(trim_text(""), "".to_string());
}

#[test]
fn trim_covers_unicode_whitespace() {
    assert_eq!(trim_text("\u{a0}7\u{a0}"), "7".to_string());
    assert_eq!(trim_text("\u{2009}0xk\u{3000}"), "0xk".to_string());
    assert_eq!(trim_text("a\u{a0}b"), "a\u{a0}b".to_string());
    assert_eq!(trim_text("  x  "), "x".trim().to_string());
}

#[test]
fn digit_runs_parse_as_decimal() {
    assert_eq!(parse_digit_run("p=12abc", 2), Some(12));
    assert_eq!(parse_digit_run("p=abc", 2), None);
    assert_eq!(parse_digit_run("42", 0), Some(42));
    assert_eq!(parse_digit_run("4294967295", 0), Some(u32::MAX));
    assert_eq!(parse_digit_run("4294967296", 0), None);
    assert_eq!(parse_digit_run("99999999999x", 0), None);
    assert_eq!(parse_digit_run("12", 2), None);
}

#[test]
fn decimal_rendering() {
    assert_eq!(u32_to_dec(0), "0".to_string());
    assert_eq!(u32_to_dec(7), "7".to_string());
    assert_eq!(u32_to_dec(10), "10".to_string());
    assert_eq!(u32_to_dec(120), "120".to_string());
    assert_eq!(u32_to_dec(u32::MAX), "4294967295".to_string());
}
