//! Invoice number generation.

use invoiceflow::number_generator::InvoiceNumberGenerator;

#[test]
fn test_number_generation() {
    let gen = InvoiceNumberGenerator::new("INV");
    let num = gen.next(0);
    assert!(num.starts_with("INV-"));
    assert!(num.ends_with("-00001"));
}

#[test]
fn test_sequential_numbers() {
    let gen = InvoiceNumberGenerator::default();
    let a = gen.next(41);
    assert!(a.ends_with("-00042"));
}

#[test]
fn test_number_for_a_fixed_year() {
    let gen = InvoiceNumberGenerator::new("INV");
    assert_eq!(gen.next_in_year(0, 2025), "INV-2025-00001");
    assert_eq!(gen.next_in_year(41, 2025), "INV-2025-00042");
    // Sequences past five digits are not truncated.
    assert_eq!(gen.next_in_year(123456, 2025), "INV-2025-123457");
}

#[test]
fn test_number_pads_small_years() {
    let gen = InvoiceNumberGenerator::new("X");
    assert_eq!(gen.next_in_year(0, 42), "X-0042-00001");
}

#[test]
fn test_custom_prefix_appears() {
    let gen = InvoiceNumberGenerator::new("ACME");
    let num = gen.next(7);
    assert!(num.starts_with("ACME-"));
    assert!(num.ends_with("-00008"));
}
