//! Exact decimal arithmetic, parsing and rendering.

use invoiceflow::money::Money;

fn dec(s: &str) -> Money {
    Money::from_decimal_str(s).unwrap()
}

#[test]
fn test_parse_whole_and_fractional() {
    assert_eq!(dec("2").units, 20000);
    assert_eq!(dec("50.00").units, 500000);
    assert_eq!(dec("0.0001").units, 1);
    assert_eq!(dec("-3.5").units, -35000);
}

#[test]
fn test_parse_rejects_malformed_text() {
    assert!(Money::from_decimal_str("").is_none());
    assert!(Money::from_decimal_str("abc").is_none());
    assert!(Money::from_decimal_str("1.").is_none());
    assert!(Money::from_decimal_str(".5").is_none());
    assert!(Money::from_decimal_str("-").is_none());
    assert!(Money::from_decimal_str("1.23456").is_none());
    assert!(Money::from_decimal_str("1,00").is_none());
    assert!(Money::from_decimal_str("1.2.3").is_none());
}

#[test]
fn test_parse_rejects_out_of_range_values() {
    // Far past any representable scale-4 value.
    assert!(Money::from_decimal_str("99999999999999999999").is_none());
    assert!(Money::from_decimal_str("-99999999999999999999").is_none());
    // The largest representable value parses.
    assert_eq!(dec("922337203685477.5807").units, i64::MAX);
}

#[test]
fn test_render_two_or_four_decimals() {
    assert_eq!(dec("36").to_decimal_string(), "36.00");
    assert_eq!(dec("36.5").to_decimal_string(), "36.50");
    assert_eq!(dec("1.2345").to_decimal_string(), "1.2345");
    assert_eq!(dec("-7.25").to_decimal_string(), "-7.25");
    assert_eq!(Money::zero().to_decimal_string(), "0.00");
}

#[test]
fn test_render_parse_round_trip() {
    for s in ["0.00", "200.00", "-15.75", "149.985", "1.2345"] {
        let m = dec(s);
        assert_eq!(Money::from_decimal_str(&m.to_decimal_string()).unwrap(), m);
    }
}

#[test]
fn test_multiplication_is_exact_at_scale() {
    assert_eq!(dec("2").mul(dec("50.00")), dec("100.00"));
    assert_eq!(dec("1.5").mul(dec("99.98")), dec("149.97"));
    // 0.0001 * 0.5 = 0.00005 rounds half away from zero to 0.0001.
    assert_eq!(dec("0.0001").mul(dec("0.5")).units, 1);
}

#[test]
fn test_percentage_rounds_to_cents_half_up() {
    assert_eq!(dec("200.00").apply_pct(dec("18")), dec("36.00"));
    // 33.33 * 3% = 0.9999 -> 1.00 at cent precision.
    assert_eq!(dec("33.33").apply_pct(dec("3")), dec("1.00"));
    // Negative values round away from zero.
    assert_eq!(dec("-0.01").apply_pct(dec("50")), dec("-0.01"));
}

#[test]
fn test_checked_operations_report_overflow() {
    let max = Money::from_units(i64::MAX);
    assert!(max.checked_add(Money::from_units(1)).is_none());
    assert!(max.checked_mul(dec("2")).is_none());
    assert_eq!(dec("3").checked_add(dec("4")).unwrap(), dec("7"));
    assert_eq!(dec("10").checked_sub(dec("4")).unwrap(), dec("6"));
    assert_eq!(dec("100.00").checked_apply_pct(dec("10")).unwrap(), dec("10.00"));
}
