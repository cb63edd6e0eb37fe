use username_history::input::{parse_u64_decimal, parse_user_id};

#[test]
fn id_rejects_non_numeric() {
    assert_eq!(parse_user_id("abc"), None);
    assert_eq!(parse_user_id("12a"), None);
}

#[test]
fn id_rejects_negative() {
    assert_eq!(parse_user_id("-5"), None);
}

#[test]
fn id_accepts_zero() {
    assert_eq!(parse_user_id("0"), Some(0));
}

#[test]
fn id_accepts_plain_number() {
    assert_eq!(parse_user_id("123456"), Some(123456));
}

#[test]
fn id_trims_console_line() {
    assert_eq!(parse_user_id("7\n"), Some(7));
    assert_eq!(parse_user_id("  42  "), Some(42));
}

#[test]
fn id_accepts_leading_plus() {
    assert_eq!(parse_user_id("+5"), Some(5));
    assert_eq!(parse_user_id("+"), None);
    assert_eq!(parse_user_id("++1"), None);
}

#[test]
fn id_range_boundary() {
    assert_eq!(parse_user_id("18446744073709551615"), Some(u64::MAX));
    assert_eq!(parse_user_id("18446744073709551616"), None);
}

#[test]
fn id_rejects_empty_or_blank() {
    assert_eq!(parse_user_id(""), None);
    assert_eq!(parse_user_id("   "), None);
}

#[test]
fn id_rejects_inner_space() {
    assert_eq!(parse_user_id("1 2"), None);
}

#[test]
fn decimal_accepts_leading_zeroes() {
    assert_eq!(parse_u64_decimal("007"), Some(7));
}

#[test]
fn decimal_rejects_untrimmed() {
    assert_eq!(parse_u64_decimal(" 7"), None);
}
