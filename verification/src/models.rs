//! The aggregate data model: invoices with their line items, clients,
//! and the business profile. Each type has a structural-equality spec
//! (string fields compared by their characters) and a `Clone` whose
//! contract states that the copy is structurally equal.

use vstd::prelude::*;

use crate::dates::Date;
use crate::money::Money;
use crate::types::{
    currency_eqv, tax_rate_eqv, terms_eqv, Currency, DiscountType, InvoiceStatus, PaymentTerms,
    TaxRate,
};

verus! {

/// Structural equality of optional strings.
pub open spec fn opt_str_eqv(a: Option<String>, b: Option<String>) -> bool {
    match (a, b) {
        (Option::None, Option::None) => true,
        (Option::Some(x), Option::Some(y)) => x@ == y@,
        _ => false,
    }
}

/// Clones an optional string.
pub fn clone_opt_str(s: &Option<String>) -> (r: Option<String>)
    ensures
        opt_str_eqv(r, *s),
{
    match s {
        Option::None => Option::None,
        Option::Some(x) => Option::Some(x.clone()),
    }
}

/// A postal address.
#[derive(Debug)]
pub struct Address {
    pub line1: String,
    pub line2: Option<String>,
    pub city: String,
    pub state: Option<String>,
    pub postal_code: String,
    pub country: String,
}

/// Structural equality of addresses.
pub open spec fn address_eqv(a: Address, b: Address) -> bool {
    &&& a.line1@ == b.line1@
    &&& opt_str_eqv(a.line2, b.line2)
    &&& a.city@ == b.city@
    &&& opt_str_eqv(a.state, b.state)
    &&& a.postal_code@ == b.postal_code@
    &&& a.country@ == b.country@
}

/// Whether every field of the address is empty.
pub open spec fn address_is_empty(a: Address) -> bool {
    &&& a.line1@ == Seq::<char>::empty()
    &&& a.line2 is None
    &&& a.city@ == Seq::<char>::empty()
    &&& a.state is None
    &&& a.postal_code@ == Seq::<char>::empty()
    &&& a.country@ == Seq::<char>::empty()
}

impl Clone for Address {
    fn clone(&self) -> (r: Self)
        ensures
            address_eqv(r, *self),
    {
        Address {
            line1: self.line1.clone(),
            line2: clone_opt_str(&self.line2),
            city: self.city.clone(),
            state: clone_opt_str(&self.state),
            postal_code: self.postal_code.clone(),
            country: self.country.clone(),
        }
    }
}

impl Default for Address {
    /// The empty address.
    fn default() -> (r: Address)
        ensures
            address_is_empty(r),
    {
        Address {
            line1: String::new(),
            line2: Option::None,
            city: String::new(),
            state: Option::None,
            postal_code: String::new(),
            country: String::new(),
        }
    }
}

/// A client that invoices are billed to.
#[derive(Debug)]
pub struct Client {
    pub id: String,
    pub name: String,
    pub email: Option<String>,
    pub phone: Option<String>,
    pub company: Option<String>,
    pub address: Address,
    pub notes: Option<String>,
    pub created_at: String,
    pub updated_at: String,
}

/// Structural equality of clients.
pub open spec fn client_eqv(a: Client, b: Client) -> bool {
    &&& a.id@ == b.id@
    &&& a.name@ == b.name@
    &&& opt_str_eqv(a.email, b.email)
    &&& opt_str_eqv(a.phone, b.phone)
    &&& opt_str_eqv(a.company, b.company)
    &&& address_eqv(a.address, b.address)
    &&& opt_str_eqv(a.notes, b.notes)
    &&& a.created_at@ == b.created_at@
    &&& a.updated_at@ == b.updated_at@
}

impl Clone for Client {
    fn clone(&self) -> (r: Self)
        ensures
            client_eqv(r, *self),
    {
        Client {
            id: self.id.clone(),
            name: self.name.clone(),
            email: clone_opt_str(&self.email),
            phone: clone_opt_str(&self.phone),
            company: clone_opt_str(&self.company),
            address: self.address.clone(),
            notes: clone_opt_str(&self.notes),
            created_at: self.created_at.clone(),
            updated_at: self.updated_at.clone(),
        }
    }
}

/// The issuing business profile.
#[derive(Debug)]
pub struct BusinessProfile {
    pub id: String,
    pub name: String,
    pub email: Option<String>,
    pub phone: Option<String>,
    pub address: Address,
    pub tax_id: Option<String>,
    pub logo_path: Option<String>,
    pub default_currency: Currency,
    pub default_payment_terms: PaymentTerms,
    pub theme_preference: String,
    pub pdf_export_dir: Option<String>,
    pub created_at: String,
    pub updated_at: String,
}

/// Structural equality of business profiles.
pub open spec fn profile_eqv(a: BusinessProfile, b: BusinessProfile) -> bool {
    &&& a.id@ == b.id@
    &&& a.name@ == b.name@
    &&& opt_str_eqv(a.email, b.email)
    &&& opt_str_eqv(a.phone, b.phone)
    &&& address_eqv(a.address, b.address)
    &&& opt_str_eqv(a.tax_id, b.tax_id)
    &&& opt_str_eqv(a.logo_path, b.logo_path)
    &&& currency_eqv(a.default_currency, b.default_currency)
    &&& terms_eqv(a.default_payment_terms, b.default_payment_terms)
    &&& a.theme_preference@ == b.theme_preference@
    &&& opt_str_eqv(a.pdf_export_dir, b.pdf_export_dir)
    &&& a.created_at@ == b.created_at@
    &&& a.updated_at@ == b.updated_at@
}

impl Clone for BusinessProfile {
    fn clone(&self) -> (r: Self)
        ensures
            profile_eqv(r, *self),
    {
        BusinessProfile {
            id: self.id.clone(),
            name: self.name.clone(),
            email: clone_opt_str(&self.email),
            phone: clone_opt_str(&self.phone),
            address: self.address.clone(),
            tax_id: clone_opt_str(&self.tax_id),
            logo_path: clone_opt_str(&self.logo_path),
            default_currency: self.default_currency.clone(),
            default_payment_terms: self.default_payment_terms.clone(),
            theme_preference: self.theme_preference.clone(),
            pdf_export_dir: clone_opt_str(&self.pdf_export_dir),
            created_at: self.created_at.clone(),
            updated_at: self.updated_at.clone(),
        }
    }
}

/// A single line item, owned by exactly one invoice. Its `amount` is
/// the quantity times the unit price at creation time, persisted rather
/// than recomputed.
#[derive(Debug)]
pub struct InvoiceItem {
    pub id: String,
    pub invoice_id: String,
    pub description: String,
    pub quantity: Money,
    pub unit_price: Money,
    pub amount: Money,
    pub tax_rate_name: Option<String>,
    pub sort_order: i32,
}

/// Structural equality of line items.
pub open spec fn item_eqv(a: InvoiceItem, b: InvoiceItem) -> bool {
    &&& a.id@ == b.id@
    &&& a.invoice_id@ == b.invoice_id@
    &&& a.description@ == b.description@
    &&& a.quantity == b.quantity
    &&& a.unit_price == b.unit_price
    &&& a.amount == b.amount
    &&& opt_str_eqv(a.tax_rate_name, b.tax_rate_name)
    &&& a.sort_order == b.sort_order
}

impl Clone for InvoiceItem {
    fn clone(&self) -> (r: Self)
        ensures
            item_eqv(r, *self),
    {
        InvoiceItem {
            id: self.id.clone(),
            invoice_id: self.invoice_id.clone(),
            description: self.description.clone(),
            quantity: self.quantity,
            unit_price: self.unit_price,
            amount: self.amount,
            tax_rate_name: clone_opt_str(&self.tax_rate_name),
            sort_order: self.sort_order,
        }
    }
}

/// Pointwise structural equality of item sequences.
pub open spec fn items_eqv(a: Seq<InvoiceItem>, b: Seq<InvoiceItem>) -> bool {
    a.len() == b.len() && forall|i: int| 0 <= i < a.len() ==> item_eqv(#[trigger] a[i], b[i])
}

/// Clones a vector of line items.
pub fn clone_items(items: &Vec<InvoiceItem>) -> (r: Vec<InvoiceItem>)
    ensures
        items_eqv(r@, items@),
{
    let mut out: Vec<InvoiceItem> = Vec::new();
    let mut i: usize = 0;
    while i < items.len()
        invariant
            i <= items@.len(),
            out@.len() == i,
            forall|j: int| 0 <= j < i ==> item_eqv(#[trigger] out@[j], items@[j]),
        decreases items@.len() - i,
    {
        out.push(items[i].clone());
        i = i + 1;
    }
    out
}

/// Pointwise structural equality of tax-rate sequences.
pub open spec fn tax_rates_eqv(a: Seq<TaxRate>, b: Seq<TaxRate>) -> bool {
    a.len() == b.len() && forall|i: int| 0 <= i < a.len() ==> tax_rate_eqv(#[trigger] a[i], b[i])
}

/// Clones a vector of tax rates.
pub fn clone_tax_rates(rates: &Vec<TaxRate>) -> (r: Vec<TaxRate>)
    ensures
        tax_rates_eqv(r@, rates@),
{
    let mut out: Vec<TaxRate> = Vec::new();
    let mut i: usize = 0;
    while i < rates.len()
        invariant
            i <= rates@.len(),
            out@.len() == i,
            forall|j: int| 0 <= j < i ==> tax_rate_eqv(#[trigger] out@[j], rates@[j]),
        decreases rates@.len() - i,
    {
        out.push(rates[i].clone());
        i = i + 1;
    }
    out
}

/// A saved invoice layout template.
#[derive(Debug)]
pub struct InvoiceTemplate {
    pub id: String,
    pub name: String,
    pub description: Option<String>,
    pub layout_json: String,
    pub is_default: bool,
    pub created_at: String,
    pub updated_at: String,
}

/// Structural equality of templates.
pub open spec fn template_eqv(a: InvoiceTemplate, b: InvoiceTemplate) -> bool {
    &&& a.id@ == b.id@
    &&& a.name@ == b.name@
    &&& opt_str_eqv(a.description, b.description)
    &&& a.layout_json@ == b.layout_json@
    &&& a.is_default == b.is_default
    &&& a.created_at@ == b.created_at@
    &&& a.updated_at@ == b.updated_at@
}

impl Clone for InvoiceTemplate {
    fn clone(&self) -> (r: Self)
        ensures
            template_eqv(r, *self),
    {
        InvoiceTemplate {
            id: self.id.clone(),
            name: self.name.clone(),
            description: clone_opt_str(&self.description),
            layout_json: self.layout_json.clone(),
            is_default: self.is_default,
            created_at: self.created_at.clone(),
            updated_at: self.updated_at.clone(),
        }
    }
}

/// An invoice: the aggregate root. Line items, the tax-rate snapshot
/// and the derived totals are created together and read back as one.
#[derive(Debug)]
pub struct Invoice {
    pub id: String,
    pub number: String,
    pub status: InvoiceStatus,
    pub client_id: String,
    pub business_profile_id: String,
    pub issue_date: Date,
    pub due_date: Date,
    pub currency: Currency,
    pub items: Vec<InvoiceItem>,
    pub tax_rates: Vec<TaxRate>,
    pub discount: Option<DiscountType>,
    pub subtotal: Money,
    pub tax_total: Money,
    pub discount_total: Money,
    pub total: Money,
    pub amount_paid: Money,
    pub amount_due: Money,
    pub payment_terms: PaymentTerms,
    pub notes: Option<String>,
    pub terms_and_conditions: Option<String>,
    pub created_at: String,
    pub updated_at: String,
}

/// Structural equality of invoices: same identity, same items in the
/// same order, same snapshot and same derived totals.
pub open spec fn invoice_eqv(a: Invoice, b: Invoice) -> bool {
    &&& a.id@ == b.id@
    &&& a.number@ == b.number@
    &&& a.status == b.status
    &&& a.client_id@ == b.client_id@
    &&& a.business_profile_id@ == b.business_profile_id@
    &&& a.issue_date == b.issue_date
    &&& a.due_date == b.due_date
    &&& currency_eqv(a.currency, b.currency)
    &&& items_eqv(a.items@, b.items@)
    &&& tax_rates_eqv(a.tax_rates@, b.tax_rates@)
    &&& a.discount == b.discount
    &&& a.subtotal == b.subtotal
    &&& a.tax_total == b.tax_total
    &&& a.discount_total == b.discount_total
    &&& a.total == b.total
    &&& a.amount_paid == b.amount_paid
    &&& a.amount_due == b.amount_due
    &&& terms_eqv(a.payment_terms, b.payment_terms)
    &&& opt_str_eqv(a.notes, b.notes)
    &&& opt_str_eqv(a.terms_and_conditions, b.terms_and_conditions)
    &&& a.created_at@ == b.created_at@
    &&& a.updated_at@ == b.updated_at@
}

impl Clone for Invoice {
    fn clone(&self) -> (r: Self)
        ensures
            invoice_eqv(r, *self),
    {
        Invoice {
            id: self.id.clone(),
            number: self.number.clone(),
            status: self.status,
            client_id: self.client_id.clone(),
            business_profile_id: self.business_profile_id.clone(),
            issue_date: self.issue_date,
            due_date: self.due_date,
            currency: self.currency.clone(),
            items: clone_items(&self.items),
            tax_rates: clone_tax_rates(&self.tax_rates),
            discount: self.discount,
            subtotal: self.subtotal,
            tax_total: self.tax_total,
            discount_total: self.discount_total,
            total: self.total,
            amount_paid: self.amount_paid,
            amount_due: self.amount_due,
            payment_terms: self.payment_terms.clone(),
            notes: clone_opt_str(&self.notes),
            terms_and_conditions: clone_opt_str(&self.terms_and_conditions),
            created_at: self.created_at.clone(),
            updated_at: self.updated_at.clone(),
        }
    }
}

} // verus!
