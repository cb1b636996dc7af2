//! Calculator behaviour on concrete values.

use invoiceflow::calculator::InvoiceCalculator;
use invoiceflow::models::InvoiceItem;
use invoiceflow::money::Money;
use invoiceflow::types::{DiscountType, TaxRate};

fn dec(s: &str) -> Money {
    Money::from_decimal_str(s).unwrap()
}

fn test_item(qty: &str, price: &str) -> InvoiceItem {
    InvoiceItem {
        id: "item".to_string(),
        invoice_id: "invoice".to_string(),
        description: "Test Item".to_string(),
        quantity: dec(qty),
        unit_price: dec(price),
        amount: Money::zero(),
        tax_rate_name: None,
        sort_order: 0,
    }
}

#[test]
fn test_subtotal_calculation() {
    let items = vec![test_item("2", "50.00"), test_item("1", "100.00")];
    let subtotal = InvoiceCalculator::subtotal(&items);
    assert_eq!(subtotal, dec("200.00"));
}

#[test]
fn test_tax_calculation() {
    let subtotal = dec("200.00");
    let tax_rates = vec![TaxRate {
        name: "GST".to_string(),
        rate: dec("18"),
        is_compound: false,
    }];
    let tax = InvoiceCalculator::tax_total(subtotal, &tax_rates);
    assert_eq!(tax, dec("36.00"));
}

#[test]
fn test_percentage_discount() {
    let subtotal = dec("200.00");
    let discount = Some(DiscountType::Percentage(dec("10")));
    let disc = InvoiceCalculator::discount_total(subtotal, &discount);
    assert_eq!(disc, dec("20.00"));
}

#[test]
fn test_grand_total() {
    let items = vec![test_item("2", "100.00")];
    let tax_rates = vec![TaxRate {
        name: "Tax".to_string(),
        rate: dec("10"),
        is_compound: false,
    }];
    let discount = Some(DiscountType::FixedAmount(dec("5.00")));

    let (sub, tax, disc, total) = InvoiceCalculator::grand_total(&items, &tax_rates, &discount);
    assert_eq!(sub, dec("200.00"));
    assert_eq!(tax, dec("20.00"));
    assert_eq!(disc, dec("5.00"));
    assert_eq!(total, dec("215.00"));
}

#[test]
fn test_compound_then_simple_tax() {
    // A compound rate grows the running base; a non-compound rate
    // still applies to the original subtotal.
    let subtotal = dec("100.00");
    let tax_rates = vec![
        TaxRate {
            name: "A".to_string(),
            rate: dec("10"),
            is_compound: true,
        },
        TaxRate {
            name: "B".to_string(),
            rate: dec("10"),
            is_compound: false,
        },
    ];
    let tax = InvoiceCalculator::tax_total(subtotal, &tax_rates);
    assert_eq!(tax, dec("20.00"));
}

#[test]
fn test_two_compound_taxes_stack() {
    let subtotal = dec("100.00");
    let tax_rates = vec![
        TaxRate {
            name: "A".to_string(),
            rate: dec("10"),
            is_compound: true,
        },
        TaxRate {
            name: "B".to_string(),
            rate: dec("10"),
            is_compound: true,
        },
    ];
    // First tax 10.00 (base 110.00), second 11.00 on the grown base.
    let tax = InvoiceCalculator::tax_total(subtotal, &tax_rates);
    assert_eq!(tax, dec("21.00"));
}

#[test]
fn test_empty_items_yield_zero_subtotal() {
    let items: Vec<InvoiceItem> = vec![];
    assert_eq!(InvoiceCalculator::subtotal(&items), Money::zero());
}

#[test]
fn test_fractional_quantity_subtotal_is_exact() {
    // 1.5 hours at 99.98: exactly 149.97, no binary drift.
    let items = vec![test_item("1.5", "99.98")];
    assert_eq!(InvoiceCalculator::subtotal(&items), dec("149.97"));
}

#[test]
fn test_no_discount_is_zero() {
    assert_eq!(
        InvoiceCalculator::discount_total(dec("200.00"), &None),
        Money::zero()
    );
}

#[test]
fn test_percentage_tax_rounds_half_up() {
    // 0.01 at 50%: 0.005 rounds half away from zero to 0.01.
    let tax_rates = vec![TaxRate {
        name: "Half".to_string(),
        rate: dec("50"),
        is_compound: false,
    }];
    let tax = InvoiceCalculator::tax_total(dec("0.01"), &tax_rates);
    assert_eq!(tax, dec("0.01"));
}
