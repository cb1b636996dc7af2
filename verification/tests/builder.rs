//! Invoice assembly, date resolution, analytics and row decoding.

use invoiceflow::analytics::AnalyticsEngine;
use invoiceflow::builder::{resolve_dates, today, try_build_invoice, ItemInput};
use invoiceflow::business_profile_repo::BusinessProfileRepository;
use invoiceflow::client_repo::ClientRepository;
use invoiceflow::dates::Date;
use invoiceflow::invoice_repo::{InvoiceRepository, InvoiceSummaryRow};
use invoiceflow::money::Money;
use invoiceflow::rows::{FullInvoiceRow, InvoiceItemRow};
use invoiceflow::store::{Database, StoreError};
use invoiceflow::types::{Currency, DiscountType, InvoiceStatus, PaymentTerms, TaxRate};

fn dec(s: &str) -> Money {
    Money::from_decimal_str(s).unwrap()
}

fn d(year: u32, month: u32, day: u32) -> Date {
    Date { year, month, day }
}

#[test]
fn test_resolve_dates_prefers_given_strings() {
    let t = d(2025, 6, 1);
    let (issue, due) = resolve_dates(Some("2025-03-01"), Some("2025-04-15"), t);
    assert_eq!(issue, d(2025, 3, 1));
    assert_eq!(due, d(2025, 4, 15));
}

#[test]
fn test_resolve_dates_falls_back() {
    let t = d(2025, 6, 1);
    let (issue, due) = resolve_dates(None, None, t);
    assert_eq!(issue, t);
    assert_eq!(due, d(2025, 7, 1));
    let (issue, due) = resolve_dates(Some("garbage"), Some("2025-02-30"), t);
    assert_eq!(issue, t);
    assert_eq!(due, d(2025, 7, 1));
}

#[test]
fn test_today_is_a_valid_date() {
    let t = today();
    assert!(t.is_valid());
}

#[test]
fn test_build_invoice_derives_totals() {
    let inputs = vec![ItemInput {
        description: "Consulting".to_string(),
        quantity: dec("2"),
        unit_price: dec("100.00"),
    }];
    let tax_rates = vec![TaxRate {
        name: "Tax".to_string(),
        rate: dec("10"),
        is_compound: false,
    }];
    let inv = try_build_invoice(
        "inv-1".to_string(),
        "INV-2025-00001".to_string(),
        InvoiceStatus::Draft,
        "client-1".to_string(),
        "profile-1".to_string(),
        d(2025, 1, 1),
        d(2025, 1, 31),
        Currency::USD,
        &inputs,
        tax_rates,
        Some(DiscountType::FixedAmount(dec("5.00"))),
        PaymentTerms::Net30,
        Some("notes".to_string()),
        None,
        "2025-01-01T00:00:00+00:00".to_string(),
    )
    .unwrap();
    assert_eq!(inv.subtotal, dec("200.00"));
    assert_eq!(inv.tax_total, dec("20.00"));
    assert_eq!(inv.discount_total, dec("5.00"));
    assert_eq!(inv.total, dec("215.00"));
    assert_eq!(inv.amount_paid, Money::zero());
    assert_eq!(inv.amount_due, dec("215.00"));
    assert_eq!(inv.items.len(), 1);
    assert_eq!(inv.items[0].amount, dec("200.00"));
    assert_eq!(inv.items[0].invoice_id, "inv-1");
    assert_eq!(inv.items[0].id.len(), 36);
}

#[test]
fn test_build_invoice_rejects_overflow() {
    let inputs = vec![
        ItemInput {
            description: "Too much".to_string(),
            quantity: Money::from_units(i64::MAX),
            unit_price: Money::from_units(i64::MAX),
        },
    ];
    let r = try_build_invoice(
        "inv-1".to_string(),
        "INV-2025-00001".to_string(),
        InvoiceStatus::Draft,
        "client-1".to_string(),
        "profile-1".to_string(),
        d(2025, 1, 1),
        d(2025, 1, 31),
        Currency::USD,
        &inputs,
        vec![],
        None,
        PaymentTerms::Net30,
        None,
        None,
        "t0".to_string(),
    );
    assert_eq!(r.err(), Some(StoreError::Invalid));
}

#[test]
fn test_analytics_group_by_status() {
    let mut db = Database::new();
    let client = ClientRepository::new().create(&mut db, "Acme", None, None).unwrap();
    let profile = BusinessProfileRepository::new().get_profile(&mut db).unwrap();
    let repo = InvoiceRepository::new();
    let mut make = |id: &str, number: &str, price: &str| {
        let inputs = vec![ItemInput {
            description: "Work".to_string(),
            quantity: dec("1"),
            unit_price: dec(price),
        }];
        let inv = try_build_invoice(
            id.to_string(),
            number.to_string(),
            InvoiceStatus::Draft,
            client.id.clone(),
            profile.id.clone(),
            d(2025, 1, 1),
            d(2025, 1, 31),
            Currency::USD,
            &inputs,
            vec![],
            None,
            PaymentTerms::Net30,
            None,
            None,
            "t0".to_string(),
        )
        .unwrap();
        repo.create(&mut db, inv).unwrap();
    };
    make("a", "INV-2025-00001", "100.00");
    make("b", "INV-2025-00002", "40.00");
    make("c", "INV-2025-00003", "10.00");
    // a: paid; b: overdue; c: stays draft.
    repo.update_status(&mut db, "a", "Pending").unwrap();
    repo.update_status(&mut db, "a", "Sent").unwrap();
    repo.update_status(&mut db, "a", "Paid").unwrap();
    repo.update_status(&mut db, "b", "Pending").unwrap();
    repo.update_status(&mut db, "b", "Sent").unwrap();
    repo.update_status(&mut db, "b", "Overdue").unwrap();

    let m = AnalyticsEngine::new().get_revenue_metrics(&db).unwrap();
    assert_eq!(m.invoice_count, 3);
    assert_eq!(m.paid_count, 1);
    assert_eq!(m.overdue_count, 1);
    assert_eq!(m.total_revenue, dec("100.00"));
    assert_eq!(m.total_outstanding, dec("50.00"));
    assert_eq!(m.total_overdue, dec("40.00"));
}

#[test]
fn test_item_row_decoding_with_fallbacks() {
    let row = InvoiceItemRow {
        id: "it-1".to_string(),
        invoice_id: "inv-1".to_string(),
        description: "Work".to_string(),
        quantity: "1.5".to_string(),
        unit_price: "99.98".to_string(),
        amount: "not a number".to_string(),
        tax_rate_name: None,
        sort_order: 3,
    };
    let item = row.into_item();
    assert_eq!(item.quantity, dec("1.5"));
    assert_eq!(item.unit_price, dec("99.98"));
    assert_eq!(item.amount, Money::zero());
    assert_eq!(item.sort_order, 3);
}

#[test]
fn test_invoice_row_decoding() {
    let row = FullInvoiceRow {
        id: "inv-1".to_string(),
        number: "INV-2025-00001".to_string(),
        status: "Sent".to_string(),
        client_id: "c-1".to_string(),
        business_profile_id: "p-1".to_string(),
        issue_date: "2025-01-01".to_string(),
        due_date: "bad date".to_string(),
        currency: "CHF".to_string(),
        subtotal: "200.00".to_string(),
        tax_total: "20.00".to_string(),
        discount_total: "0".to_string(),
        total: "220.00".to_string(),
        amount_paid: "0".to_string(),
        amount_due: "220.00".to_string(),
        payment_terms: "Net30".to_string(),
        notes: None,
        terms_and_conditions: None,
        created_at: "t0".to_string(),
        updated_at: "t1".to_string(),
    };
    let inv = row.into_invoice(vec![]).unwrap();
    assert_eq!(inv.status, InvoiceStatus::Sent);
    assert_eq!(inv.issue_date, d(2025, 1, 1));
    assert_eq!(inv.due_date, d(1970, 1, 1));
    assert!(matches!(inv.currency, Currency::Custom(_)));
    assert_eq!(inv.total, dec("220.00"));
}

#[test]
fn test_invoice_row_rejects_unknown_status() {
    let row = FullInvoiceRow {
        id: "inv-1".to_string(),
        number: "INV-2025-00001".to_string(),
        status: "draft".to_string(),
        client_id: "c-1".to_string(),
        business_profile_id: "p-1".to_string(),
        issue_date: "2025-01-01".to_string(),
        due_date: "2025-01-31".to_string(),
        currency: "USD".to_string(),
        subtotal: "0".to_string(),
        tax_total: "0".to_string(),
        discount_total: "0".to_string(),
        total: "0".to_string(),
        amount_paid: "0".to_string(),
        amount_due: "0".to_string(),
        payment_terms: "Net30".to_string(),
        notes: None,
        terms_and_conditions: None,
        created_at: "t0".to_string(),
        updated_at: "t1".to_string(),
    };
    assert_eq!(row.into_invoice(vec![]).err(), Some(StoreError::Invalid));
}

#[test]
fn test_summary_row_passthrough() {
    let row = InvoiceSummaryRow {
        id: "inv-1".to_string(),
        number: "INV-2025-00001".to_string(),
        status: "Draft".to_string(),
        client_id: "c-1".to_string(),
        issue_date: "2025-01-01".to_string(),
        due_date: "2025-01-31".to_string(),
        currency: "USD".to_string(),
        total: "200.00".to_string(),
        amount_due: "200.00".to_string(),
    };
    let s = row.into_summary();
    assert_eq!(s.id, "inv-1");
    assert_eq!(s.number, "INV-2025-00001");
    assert_eq!(s.amount_due, "200.00");
}
