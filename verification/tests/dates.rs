//! Calendar parsing, formatting and day arithmetic.

use invoiceflow::dates::Date;

fn d(year: u32, month: u32, day: u32) -> Date {
    Date { year, month, day }
}

#[test]
fn test_parse_valid_dates() {
    assert_eq!(Date::parse_ymd("2025-01-31").unwrap(), d(2025, 1, 31));
    assert_eq!(Date::parse_ymd("2024-02-29").unwrap(), d(2024, 2, 29));
    assert_eq!(Date::parse_ymd("2000-02-29").unwrap(), d(2000, 2, 29));
}

#[test]
fn test_parse_rejects_invalid_dates() {
    assert!(Date::parse_ymd("2023-02-29").is_none());
    assert!(Date::parse_ymd("1900-02-29").is_none());
    assert!(Date::parse_ymd("2025-13-01").is_none());
    assert!(Date::parse_ymd("2025-00-10").is_none());
    assert!(Date::parse_ymd("2025-04-31").is_none());
    assert!(Date::parse_ymd("2025-1-31").is_none());
    assert!(Date::parse_ymd("25-01-31").is_none());
    assert!(Date::parse_ymd("2025/01/31").is_none());
    assert!(Date::parse_ymd("").is_none());
}

#[test]
fn test_format_round_trip() {
    for s in ["2025-01-31", "2024-02-29", "0001-01-01", "9999-12-31"] {
        let date = Date::parse_ymd(s).unwrap();
        assert_eq!(date.format_ymd(), s);
    }
}

#[test]
fn test_add_days_crosses_months_and_years() {
    assert_eq!(d(2025, 1, 15).add_days(30), d(2025, 2, 14));
    assert_eq!(d(2024, 2, 28).add_days(1), d(2024, 2, 29));
    assert_eq!(d(2023, 2, 28).add_days(1), d(2023, 3, 1));
    assert_eq!(d(2025, 12, 31).add_days(1), d(2026, 1, 1));
    assert_eq!(d(9999, 12, 31).add_days(5), d(9999, 12, 31));
}

#[test]
fn test_clamped_keeps_valid_dates() {
    assert_eq!(Date::clamped(2025, 6, 15), d(2025, 6, 15));
    assert_eq!(Date::clamped(12000, 13, 40), d(9999, 12, 31));
    assert_eq!(Date::clamped(-5, 0, 0), d(1, 1, 1));
    assert_eq!(Date::clamped(2023, 2, 31), d(2023, 2, 28));
}
