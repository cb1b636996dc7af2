//! Status lifecycle, currency codes and payment terms.

use invoiceflow::types::{Currency, InvoiceStatus, PaymentTerms};

#[test]
fn test_status_parse_known_names() {
    assert_eq!(InvoiceStatus::parse("Draft"), Some(InvoiceStatus::Draft));
    assert_eq!(InvoiceStatus::parse("Pending"), Some(InvoiceStatus::Pending));
    assert_eq!(InvoiceStatus::parse("Sent"), Some(InvoiceStatus::Sent));
    assert_eq!(InvoiceStatus::parse("Viewed"), Some(InvoiceStatus::Viewed));
    assert_eq!(InvoiceStatus::parse("Paid"), Some(InvoiceStatus::Paid));
    assert_eq!(InvoiceStatus::parse("Overdue"), Some(InvoiceStatus::Overdue));
    assert_eq!(InvoiceStatus::parse("Cancelled"), Some(InvoiceStatus::Cancelled));
}

#[test]
fn test_status_parse_rejects_unknown_names() {
    // Unknown statuses are rejected, not coerced to a default.
    assert_eq!(InvoiceStatus::parse("draft"), None);
    assert_eq!(InvoiceStatus::parse(""), None);
    assert_eq!(InvoiceStatus::parse("Open"), None);
}

#[test]
fn test_status_round_trips_through_name() {
    for st in [
        InvoiceStatus::Draft,
        InvoiceStatus::Pending,
        InvoiceStatus::Sent,
        InvoiceStatus::Viewed,
        InvoiceStatus::Paid,
        InvoiceStatus::Overdue,
        InvoiceStatus::Cancelled,
    ] {
        assert_eq!(InvoiceStatus::parse(st.as_str()), Some(st));
    }
}

#[test]
fn test_lifecycle_graph() {
    assert!(InvoiceStatus::Draft.can_transition(InvoiceStatus::Pending));
    assert!(InvoiceStatus::Draft.can_transition(InvoiceStatus::Cancelled));
    assert!(!InvoiceStatus::Draft.can_transition(InvoiceStatus::Paid));
    assert!(InvoiceStatus::Pending.can_transition(InvoiceStatus::Sent));
    assert!(!InvoiceStatus::Pending.can_transition(InvoiceStatus::Viewed));
    assert!(InvoiceStatus::Sent.can_transition(InvoiceStatus::Viewed));
    assert!(InvoiceStatus::Sent.can_transition(InvoiceStatus::Paid));
    assert!(InvoiceStatus::Sent.can_transition(InvoiceStatus::Overdue));
    assert!(InvoiceStatus::Viewed.can_transition(InvoiceStatus::Paid));
    assert!(InvoiceStatus::Overdue.can_transition(InvoiceStatus::Paid));
    assert!(!InvoiceStatus::Paid.can_transition(InvoiceStatus::Draft));
    assert!(!InvoiceStatus::Cancelled.can_transition(InvoiceStatus::Draft));
}

#[test]
fn test_currency_codes() {
    assert!(matches!(Currency::from_code("USD"), Currency::USD));
    assert!(matches!(Currency::from_code("EUR"), Currency::EUR));
    assert!(matches!(Currency::from_code("GBP"), Currency::GBP));
    assert!(matches!(Currency::from_code("INR"), Currency::INR));
    assert!(matches!(Currency::from_code("AED"), Currency::AED));
    match Currency::from_code("CHF") {
        Currency::Custom(code) => assert_eq!(code, "CHF"),
        _ => panic!("unknown code must carry through"),
    }
    assert_eq!(Currency::from_code("USD").code(), "USD");
    assert_eq!(Currency::from_code("CHF").code(), "CHF");
}

#[test]
fn test_payment_terms_labels() {
    assert!(matches!(PaymentTerms::parse("Net30"), PaymentTerms::Net30));
    assert!(matches!(
        PaymentTerms::parse("DueOnReceipt"),
        PaymentTerms::DueOnReceipt
    ));
    match PaymentTerms::parse("Whenever") {
        PaymentTerms::Custom { days, label } => {
            assert_eq!(days, 30);
            assert_eq!(label, "Whenever");
        }
        _ => panic!("unknown label must carry through as custom"),
    }
    assert_eq!(PaymentTerms::parse("Net15").label(), "Net15");
    assert_eq!(PaymentTerms::parse("Whenever").label(), "Whenever");
}
