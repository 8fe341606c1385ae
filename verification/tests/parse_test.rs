use tick_engine::parse::parse_price;
use tick_engine::units::{MAX_PRICE, SCALE};

#[test]
fn test_parse_whole_number() {
    assert_eq!(parse_price(b"100"), Some(100 * SCALE));
    assert_eq!(parse_price(b"0"), Some(0));
}

#[test]
fn test_parse_fraction() {
    assert_eq!(parse_price(b"123.45"), Some(12_345_000));
    assert_eq!(parse_price(b"0.00001"), Some(1));
    assert_eq!(parse_price(b"1.5"), Some(150_000));
}

#[test]
fn test_parse_rounds_half_up_at_fifth_place() {
    // The sixth fractional digit decides the rounding.
    assert_eq!(parse_price(b"1.000004"), Some(100_000));
    assert_eq!(parse_price(b"1.000005"), Some(100_001));
    assert_eq!(parse_price(b"1.9999999"), Some(200_000));
}

#[test]
fn test_parse_rejects_malformed() {
    assert_eq!(parse_price(b"abc"), None);
    assert_eq!(parse_price(b""), None);
    assert_eq!(parse_price(b"1."), None);
    assert_eq!(parse_price(b".5"), None);
    assert_eq!(parse_price(b"1.2.3"), None);
    assert_eq!(parse_price(b"1,5"), None);
    assert_eq!(parse_price(b"-1"), None);
    assert_eq!(parse_price(b" 1"), None);
}

#[test]
fn test_parse_rejects_out_of_range() {
    // Far beyond the largest accepted price.
    assert_eq!(parse_price(b"99999999999999999999999999"), None);
    let max_text = format!("{}", MAX_PRICE);
    assert_eq!(parse_price(max_text.as_bytes()), None);
}

#[test]
fn test_parse_at_the_price_cap() {
    // The largest accepted price, written out in decimal, and the
    // next value on the grid.
    assert_eq!(parse_price(b"46116860184273.87903"), Some(MAX_PRICE));
    assert_eq!(parse_price(b"46116860184273.87904"), None);
}
