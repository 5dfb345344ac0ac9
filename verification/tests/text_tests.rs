use auth_service::text;
use auth_service::text::server_error;
use auth_service::text::{
    contains_char, contains_str, eq_ignore_ascii_case, i64_to_decimal,
    i64_zero_padded, is_blank, pad_zeros, parse_i64, starts_with, str_eq, trim, u64_to_decimal,
};

#[test]
fn trim_removes_surrounding_white_space() {
    assert_eq!(trim("  a b \n\t"), "a b");
    assert_eq!(trim("   "), "");
    assert_eq!(trim("x"), "x");
}

#[test]
fn blank_content_is_only_white_space() {
    assert!(is_blank(""));
    assert!(is_blank(" \t\n"));
    assert!(!is_blank("  a "));
}

#[test]
fn parse_i64_reads_like_str_parse() {
    assert_eq!(parse_i64("-12"), Some(-12));
    assert_eq!(parse_i64("+7"), Some(7));
    assert_eq!(parse_i64("000123"), Some(123));
    assert_eq!(parse_i64("12a"), None);
    assert_eq!(parse_i64(""), None);
    assert_eq!(parse_i64("-"), None);
    assert_eq!(parse_i64("9223372036854775807"), Some(i64::MAX));
    assert_eq!(parse_i64("9223372036854775808"), None);
    assert_eq!(parse_i64("-9223372036854775808"), Some(i64::MIN));
    for s in ["0", "42", "-42", "+42", "x", " 1", "1 ", "99999999999999999999"] {
        assert_eq!(parse_i64(s), s.parse::<i64>().ok(), "input {s:?}");
    }
}

#[test]
fn decimal_writing_matches_format() {
    assert_eq!(u64_to_decimal(0), "0");
    assert_eq!(u64_to_decimal(1234567890), "1234567890");
    assert_eq!(u64_to_decimal(u64::MAX), u64::MAX.to_string());
    assert_eq!(i64_to_decimal(-45), "-45");
    assert_eq!(i64_to_decimal(i64::MIN), i64::MIN.to_string());
}

#[test]
fn zero_padding_matches_format() {
    for n in [0i64, 5, 123456, 1234567, -5, -12345, -123456] {
        assert_eq!(i64_zero_padded(n, 6), format!("{:06}", n), "value {n}");
    }
    assert_eq!(pad_zeros("7", 3), "007");
    assert_eq!(pad_zeros("1234", 3), "1234");
}

#[test]
fn comparisons_and_searches() {
    assert!(str_eq("abc", "abc"));
    assert!(!str_eq("abc", "abd"));
    assert!(eq_ignore_ascii_case("TranScript", "transcript"));
    assert!(!eq_ignore_ascii_case("Tränscript", "transcript"));
    assert!(contains_str("bảng điểm kỳ 1", "bảng điểm"));
    assert!(!contains_str("bang", "bang diem"));
    assert!(contains_str("anything", ""));
    assert!(starts_with("multipart/form-data; boundary=x", "multipart/form-data"));
    assert!(!starts_with("multipart", "multipart/form-data"));
    assert!(contains_char("a@b", '@'));
    assert!(!contains_char("ab", '@'));
    assert_eq!(text::concat("ab", "cd"), "abcd");
    assert_eq!(text::concat3("a", "-", "b"), "a-b");
}

#[test]
fn server_errors_name_the_failed_step() {
    assert_eq!(
        server_error("Failed to check MFA status", "timeout"),
        (500, "Failed to check MFA status: timeout".to_string())
    );
}
