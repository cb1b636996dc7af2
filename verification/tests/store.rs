//! Store behaviour: atomic creation, uniqueness, read-back, lifecycle.

use invoiceflow::builder::{try_build_invoice, ItemInput};
use invoiceflow::business_profile_repo::BusinessProfileRepository;
use invoiceflow::client_repo::ClientRepository;
use invoiceflow::dates::Date;
use invoiceflow::invoice_repo::InvoiceRepository;
use invoiceflow::money::Money;
use invoiceflow::store::{Database, StoreError};
use invoiceflow::types::{Currency, InvoiceStatus, PaymentTerms};

fn dec(s: &str) -> Money {
    Money::from_decimal_str(s).unwrap()
}

fn setup() -> (Database, String, String) {
    let mut db = Database::new();
    let client = ClientRepository::new()
        .create(&mut db, "Acme Corp", Some("acme@example.com"), None)
        .unwrap();
    let profile = BusinessProfileRepository::new().get_profile(&mut db).unwrap();
    (db, client.id, profile.id)
}

fn sample_invoice(id: &str, number: &str, client_id: &str, profile_id: &str) -> invoiceflow::models::Invoice {
    let inputs = vec![
        ItemInput {
            description: "Design work".to_string(),
            quantity: dec("2"),
            unit_price: dec("50.00"),
        },
        ItemInput {
            description: "Development".to_string(),
            quantity: dec("1"),
            unit_price: dec("100.00"),
        },
    ];
    try_build_invoice(
        id.to_string(),
        number.to_string(),
        InvoiceStatus::Draft,
        client_id.to_string(),
        profile_id.to_string(),
        Date { year: 2025, month: 1, day: 1 },
        Date { year: 2025, month: 1, day: 31 },
        Currency::USD,
        &inputs,
        vec![],
        None,
        PaymentTerms::Net30,
        None,
        None,
        "2025-01-01T00:00:00+00:00".to_string(),
    )
    .unwrap()
}

#[test]
fn test_create_then_read_back_is_identical() {
    let (mut db, client_id, profile_id) = setup();
    let inv = sample_invoice("inv-1", "INV-2025-00001", &client_id, &profile_id);
    let repo = InvoiceRepository::new();
    repo.create(&mut db, inv).unwrap();

    let back = repo.get_by_id(&db, "inv-1").unwrap();
    assert_eq!(back.number, "INV-2025-00001");
    assert_eq!(back.items.len(), 2);
    assert_eq!(back.items[0].description, "Design work");
    assert_eq!(back.items[0].sort_order, 0);
    assert_eq!(back.items[0].amount, dec("100.00"));
    assert_eq!(back.items[1].description, "Development");
    assert_eq!(back.items[1].sort_order, 1);
    assert_eq!(back.items[1].amount, dec("100.00"));
    assert_eq!(back.subtotal, dec("200.00"));
    assert_eq!(back.total, dec("200.00"));
    assert_eq!(back.amount_due, dec("200.00"));
    assert_eq!(back.amount_paid, Money::zero());
}

#[test]
fn test_failed_create_leaves_no_rows() {
    let (mut db, client_id, profile_id) = setup();
    let mut inv = sample_invoice("inv-1", "INV-2025-00001", &client_id, &profile_id);
    // Corrupt the derived totals mid-aggregate: creation must reject
    // the whole unit, and no part of it may be visible afterwards.
    inv.total = dec("999.99");
    let repo = InvoiceRepository::new();
    assert_eq!(repo.create(&mut db, inv), Err(StoreError::Invalid));
    assert!(repo.get_by_id(&db, "inv-1").is_none());
    assert_eq!(repo.list_all(&db).len(), 0);
}

#[test]
fn test_duplicate_number_conflicts() {
    let (mut db, client_id, profile_id) = setup();
    let repo = InvoiceRepository::new();
    // Two creations racing with the same generator-proposed number:
    // exactly one succeeds, the other answers Conflict.
    let first = sample_invoice("inv-1", "INV-2025-00001", &client_id, &profile_id);
    let second = sample_invoice("inv-2", "INV-2025-00001", &client_id, &profile_id);
    assert_eq!(repo.create(&mut db, first), Ok(()));
    assert_eq!(repo.create(&mut db, second), Err(StoreError::Conflict));
    assert_eq!(repo.list_all(&db).len(), 1);
}

#[test]
fn test_create_requires_existing_references() {
    let (mut db, client_id, profile_id) = setup();
    let repo = InvoiceRepository::new();
    let inv = sample_invoice("inv-1", "INV-2025-00001", "no-such-client", &profile_id);
    assert_eq!(repo.create(&mut db, inv), Err(StoreError::NotFound));
    let inv2 = sample_invoice("inv-2", "INV-2025-00002", &client_id, "no-such-profile");
    assert_eq!(repo.create(&mut db, inv2), Err(StoreError::NotFound));
}

#[test]
fn test_list_all_most_recent_first() {
    let (mut db, client_id, profile_id) = setup();
    let repo = InvoiceRepository::new();
    repo.create(&mut db, sample_invoice("inv-1", "INV-2025-00001", &client_id, &profile_id))
        .unwrap();
    repo.create(&mut db, sample_invoice("inv-2", "INV-2025-00002", &client_id, &profile_id))
        .unwrap();
    let all = repo.list_all(&db);
    assert_eq!(all.len(), 2);
    assert_eq!(all[0].number, "INV-2025-00002");
    assert_eq!(all[1].number, "INV-2025-00001");
    assert_eq!(all[0].total, "200.00");
    assert_eq!(all[0].status, "Draft");
    assert_eq!(all[0].issue_date, "2025-01-01");
    assert_eq!(all[0].currency, "USD");
}

#[test]
fn test_update_status_follows_lifecycle() {
    let (mut db, client_id, profile_id) = setup();
    let repo = InvoiceRepository::new();
    repo.create(&mut db, sample_invoice("inv-1", "INV-2025-00001", &client_id, &profile_id))
        .unwrap();

    // Draft -> Pending -> Sent -> Paid is allowed.
    assert_eq!(repo.update_status(&mut db, "inv-1", "Pending"), Ok(()));
    assert_eq!(repo.update_status(&mut db, "inv-1", "Sent"), Ok(()));
    assert_eq!(repo.update_status(&mut db, "inv-1", "Paid"), Ok(()));
    assert_eq!(
        repo.get_by_id(&db, "inv-1").unwrap().status,
        InvoiceStatus::Paid
    );
    // Paid is terminal.
    assert_eq!(
        repo.update_status(&mut db, "inv-1", "Draft"),
        Err(StoreError::Invalid)
    );
}

#[test]
fn test_update_status_rejects_unknown_names() {
    let (mut db, client_id, profile_id) = setup();
    let repo = InvoiceRepository::new();
    repo.create(&mut db, sample_invoice("inv-1", "INV-2025-00001", &client_id, &profile_id))
        .unwrap();
    assert_eq!(
        repo.update_status(&mut db, "inv-1", "Unknown"),
        Err(StoreError::Invalid)
    );
    assert_eq!(
        repo.get_by_id(&db, "inv-1").unwrap().status,
        InvoiceStatus::Draft
    );
}

#[test]
fn test_update_status_missing_invoice() {
    let (mut db, _, _) = setup();
    let repo = InvoiceRepository::new();
    assert_eq!(
        repo.update_status(&mut db, "no-such-id", "Pending"),
        Err(StoreError::NotFound)
    );
}

#[test]
fn test_delete_cascades_and_is_idempotent() {
    let (mut db, client_id, profile_id) = setup();
    let repo = InvoiceRepository::new();
    repo.create(&mut db, sample_invoice("inv-1", "INV-2025-00001", &client_id, &profile_id))
        .unwrap();
    assert_eq!(repo.delete(&mut db, "inv-1"), Ok(()));
    assert!(repo.get_by_id(&db, "inv-1").is_none());
    assert_eq!(repo.list_all(&db).len(), 0);
    // Deleting again is not an error.
    assert_eq!(repo.delete(&mut db, "inv-1"), Ok(()));
}

#[test]
fn test_client_crud() {
    let mut db = Database::new();
    let repo = ClientRepository::new();
    let c = repo
        .create(&mut db, "Acme", Some("a@example.com"), Some("Acme GmbH"))
        .unwrap();
    assert_eq!(c.name, "Acme");
    assert_eq!(c.email.as_deref(), Some("a@example.com"));
    assert_eq!(c.company.as_deref(), Some("Acme GmbH"));
    assert_eq!(c.id.len(), 36);

    let got = repo.get_by_id(&db, &c.id).unwrap();
    assert_eq!(got.name, "Acme");
    assert_eq!(repo.list_all(&db).len(), 1);

    repo.update(&mut db, &c.id, "Acme Two", None, None).unwrap();
    let got = repo.get_by_id(&db, &c.id).unwrap();
    assert_eq!(got.name, "Acme Two");
    assert_eq!(got.email, None);

    assert_eq!(
        repo.update(&mut db, "missing", "X", None, None),
        Err(StoreError::NotFound)
    );

    repo.delete(&mut db, &c.id).unwrap();
    assert!(repo.get_by_id(&db, &c.id).is_none());
    repo.delete(&mut db, &c.id).unwrap();
}

#[test]
fn test_client_create_with_id_conflict() {
    let mut db = Database::new();
    let repo = ClientRepository::new();
    let a = repo
        .create_with_id(&mut db, "c-1".to_string(), "One", None, None, "t0".to_string())
        .unwrap();
    assert_eq!(a.id, "c-1");
    assert_eq!(
        repo.create_with_id(&mut db, "c-1".to_string(), "Two", None, None, "t1".to_string())
            .err(),
        Some(StoreError::Conflict)
    );
    assert_eq!(repo.list_all(&db).len(), 1);
}

#[test]
fn test_profile_default_then_update() {
    let mut db = Database::new();
    let repo = BusinessProfileRepository::new();
    let p = repo.get_profile(&mut db).unwrap();
    assert_eq!(p.name, "My Company");
    assert_eq!(p.theme_preference, "system");
    assert!(matches!(p.default_currency, Currency::USD));
    assert!(matches!(p.default_payment_terms, PaymentTerms::Net30));

    let mut changed = p.clone();
    changed.name = "Flow Studio".to_string();
    repo.update_profile(&mut db, &changed).unwrap();
    let back = repo.get_profile(&mut db).unwrap();
    assert_eq!(back.name, "Flow Studio");
    assert_eq!(back.created_at, p.created_at);

    let mut missing = p.clone();
    missing.id = "no-such-profile".to_string();
    assert_eq!(
        repo.update_profile(&mut db, &missing),
        Err(StoreError::NotFound)
    );
}
