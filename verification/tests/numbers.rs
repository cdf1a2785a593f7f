use market_ingest::decimal::{parse_decimal, parse_fixed, DECIMAL_ONE};
use market_ingest::text::{fits_bytes, unsigned_text};
use market_ingest::time::{instant_before, minutes_between};

#[test]
fn decimals_are_counted_in_hundred_millionths() {
    assert_eq!(parse_decimal("1"), Some(DECIMAL_ONE));
    assert_eq!(parse_decimal("1.09500"), Some(109_500_000));
    assert_eq!(parse_decimal("5541.20000"), Some(554_120_000_000));
    assert_eq!(parse_decimal("0.00000001"), Some(1));
    assert_eq!(parse_decimal("0.000000019"), Some(1));
    assert_eq!(parse_decimal("-0.5"), Some(-50_000_000));
    assert_eq!(parse_decimal("+2.25"), Some(225_000_000));
    assert_eq!(parse_decimal("007"), Some(700_000_000));
    assert_eq!(parse_decimal("-0"), Some(0));
    assert_eq!(parse_decimal("92233720368.54775807"), Some(i64::MAX));
    assert_eq!(parse_decimal("-92233720368.54775807"), Some(-i64::MAX));
}

#[test]
fn what_is_no_decimal_is_refused() {
    for text in ["", "-", "+", ".", ".5", "5.", "1e5", "1,5", " 1", "1 ", "1.2.3", "--1", "abc", "１", "inf", "NaN", "0x10", "1_000"] {
        assert_eq!(parse_decimal(text), None, "{:?}", text);
    }
    assert_eq!(parse_decimal("92233720368.54775808"), None);
    assert_eq!(parse_decimal("100000000000"), None);
    assert_eq!(parse_decimal("99999999999999999999999999999999999999999"), None);
}

#[test]
fn places_scale_the_count() {
    assert_eq!(parse_fixed("1534614057.321597", 6), Some(1_534_614_057_321_597));
    assert_eq!(parse_fixed("1534614057.3215979", 6), Some(1_534_614_057_321_597));
    assert_eq!(parse_fixed("12.5", 0), Some(12));
    assert_eq!(parse_fixed("12", 3), Some(12_000));
    assert_eq!(parse_fixed("9", 18), Some(9_000_000_000_000_000_000));
    assert_eq!(parse_fixed("10", 18), None);
    assert_eq!(parse_fixed("0.000000000000000001", 18), Some(1));
}

#[test]
fn integers_are_written_in_decimal() {
    assert_eq!(unsigned_text(0), "0");
    assert_eq!(unsigned_text(7), "7");
    assert_eq!(unsigned_text(10), "10");
    assert_eq!(unsigned_text(1_234_567_890), "1234567890");
    assert_eq!(unsigned_text(u128::MAX), "340282366920938463463374607431768211455");
}

#[test]
fn bytes_of_a_text_are_counted() {
    assert!(fits_bytes(&"AAPL".chars().collect(), 5));
    assert!(fits_bytes(&"ABCDE".chars().collect(), 5));
    assert!(!fits_bytes(&"ABCDEF".chars().collect(), 5));
    assert!(fits_bytes(&"ÄB".chars().collect(), 3));
    assert!(!fits_bytes(&"ÄB".chars().collect(), 2));
    assert!(fits_bytes(&"€".chars().collect(), 3));
    assert!(!fits_bytes(&"😀".chars().collect(), 3));
    assert!(fits_bytes(&Vec::new(), 0));
}

#[test]
fn minutes_are_rounded_toward_zero() {
    assert_eq!(minutes_between(0, 59_999_999), 0);
    assert_eq!(minutes_between(0, 60_000_000), 1);
    assert_eq!(minutes_between(0, 119_999_999), 1);
    assert_eq!(minutes_between(60_000_001, 0), -1);
    assert_eq!(minutes_between(59_999_999, 0), 0);
    assert_eq!(minutes_between(i64::MIN, i64::MAX), 307_445_734_561);
}

#[test]
fn instants_are_held_in_range() {
    assert_eq!(instant_before(100, 30), 70);
    assert_eq!(instant_before(i64::MIN + 5, 30), i64::MIN);
    assert_eq!(instant_before(i64::MAX - 5, -30), i64::MAX);
}
