//! Currency symbols and display formatting.

use invoiceflow::format::{currency_symbol, format_currency};

#[test]
fn test_currency_symbols() {
    assert_eq!(currency_symbol("USD"), "$");
    assert_eq!(currency_symbol("EUR"), "\u{20ac}");
    assert_eq!(currency_symbol("GBP"), "\u{a3}");
    assert_eq!(currency_symbol("INR"), "\u{20b9}");
    assert_eq!(currency_symbol("AED"), "\u{62f}.\u{625}");
    assert_eq!(currency_symbol("CHF"), "CHF");
}

#[test]
fn test_western_grouping() {
    assert_eq!(format_currency("0", "USD"), "$ 0.00");
    assert_eq!(format_currency("999", "USD"), "$ 999.00");
    assert_eq!(format_currency("1000", "USD"), "$ 1,000.00");
    assert_eq!(format_currency("1234567.89", "USD"), "$ 1,234,567.89");
    assert_eq!(format_currency("100000", "EUR"), "\u{20ac} 100,000.00");
}

#[test]
fn test_indian_grouping() {
    assert_eq!(format_currency("1000", "INR"), "\u{20b9} 1,000.00");
    assert_eq!(format_currency("10000", "INR"), "\u{20b9} 10,000.00");
    assert_eq!(format_currency("100000", "INR"), "\u{20b9} 1,00,000.00");
    assert_eq!(format_currency("1234567", "INR"), "\u{20b9} 12,34,567.00");
    assert_eq!(format_currency("123456789", "INR"), "\u{20b9} 12,34,56,789.00");
}

#[test]
fn test_fraction_rounds_to_cents() {
    assert_eq!(format_currency("1.005", "USD"), "$ 1.01");
    assert_eq!(format_currency("2.0049", "USD"), "$ 2.00");
    assert_eq!(format_currency("-15.75", "USD"), "$ -15.75");
}

#[test]
fn test_unparsable_amount_formats_as_zero() {
    assert_eq!(format_currency("not a number", "USD"), "$ 0.00");
    assert_eq!(format_currency("", "GBP"), "\u{a3} 0.00");
}
