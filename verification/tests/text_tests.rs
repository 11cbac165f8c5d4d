//! Decimal formatting and parsing.

use gitlabjob::text::{parse_u16_digits, parse_u64_digits, u64_to_dec};

#[test]
fn decimal_rendering_exact() {
    assert_eq!(u64_to_dec(0), "0");
    assert_eq!(u64_to_dec(7), "7");
    assert_eq!(u64_to_dec(10), "10");
    assert_eq!(u64_to_dec(513), "513");
    assert_eq!(u64_to_dec(u64::MAX), "18446744073709551615");
}

#[test]
fn parse_u64_accepts_plain_digit_strings() {
    assert_eq!(parse_u64_digits("0"), Some(0));
    assert_eq!(parse_u64_digits("42"), Some(42));
    assert_eq!(parse_u64_digits("007"), Some(7));
    assert_eq!(parse_u64_digits("18446744073709551615"), Some(u64::MAX));
}

#[test]
fn parse_u64_accepts_one_leading_plus() {
    assert_eq!(parse_u64_digits("+1"), Some(1));
    assert_eq!(parse_u64_digits("+007"), Some(7));
    assert_eq!(parse_u64_digits("+18446744073709551615"), Some(u64::MAX));
}

#[test]
fn parse_u64_rejects_everything_else() {
    assert_eq!(parse_u64_digits(""), None);
    assert_eq!(parse_u64_digits("+"), None);
    assert_eq!(parse_u64_digits("++1"), None);
    assert_eq!(parse_u64_digits("1+"), None);
    assert_eq!(parse_u64_digits("12x"), None);
    assert_eq!(parse_u64_digits("-1"), None);
    assert_eq!(parse_u64_digits(" 1"), None);
    assert_eq!(parse_u64_digits("18446744073709551616"), None);
    assert_eq!(parse_u64_digits("+18446744073709551616"), None);
}

#[test]
fn parse_u16_bounds() {
    assert_eq!(parse_u16_digits("123"), Some(123));
    assert_eq!(parse_u16_digits("+25"), Some(25));
    assert_eq!(parse_u16_digits("65535"), Some(65535));
    assert_eq!(parse_u16_digits("65536"), None);
    assert_eq!(parse_u16_digits("+"), None);
    assert_eq!(parse_u16_digits(""), None);
}
