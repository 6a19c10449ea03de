use http_client::numbers::{parse_decimal, u64_to_decimal};

#[test]
fn parse_plain_numbers() {
    assert_eq!(parse_decimal("0"), Some(0));
    assert_eq!(parse_decimal("8080"), Some(8080));
    assert_eq!(parse_decimal("0080"), Some(80));
    assert_eq!(parse_decimal("18446744073709551615"), Some(u64::MAX));
}

#[test]
fn parse_rejects_non_numerals() {
    assert_eq!(parse_decimal(""), None);
    assert_eq!(parse_decimal("12a"), None);
    assert_eq!(parse_decimal("+5"), None);
    assert_eq!(parse_decimal("-5"), None);
    assert_eq!(parse_decimal(" 5"), None);
    assert_eq!(parse_decimal("18446744073709551616"), None);
}

#[test]
fn format_numbers() {
    assert_eq!(u64_to_decimal(0), "0");
    assert_eq!(u64_to_decimal(7), "7");
    assert_eq!(u64_to_decimal(65535), "65535");
    assert_eq!(u64_to_decimal(u64::MAX), "18446744073709551615");
}

#[test]
fn format_then_parse_round_trip() {
    for n in [0u64, 1, 9, 10, 99, 100, 443, 8080, 65535, u64::MAX] {
        assert_eq!(parse_decimal(&u64_to_decimal(n)), Some(n));
    }
}
