//! Decoding raw durable rows — every column as text, as the storage
//! layer hands them over — into the typed model. Numeric columns keep
//! the documented tolerance and read as zero when unparsable; dates
//! fall back to 1970-01-01; unknown currency codes and payment-terms
//! labels carry through as custom values. An unknown status name is
//! rejected, never silently coerced.

use vstd::prelude::*;

use crate::dates::{spec_parse_date, Date};
use crate::models::{Address, BusinessProfile, Client, Invoice, InvoiceItem};
use crate::money::{spec_parse_money, Money};
use crate::store::StoreError;
use crate::types::{
    is_currency_of_code, is_terms_of_label, spec_parse_status, Currency, InvoiceStatus,
    PaymentTerms,
};

verus! {

/// The parsed decimal, or zero when the text is unparsable.
pub open spec fn spec_money_or_zero(s: Seq<char>) -> Money {
    match spec_parse_money(s) {
        Option::Some(m) => m,
        Option::None => Money { units: 0 },
    }
}

/// The parsed date, or 1970-01-01 when the text is unparsable.
pub open spec fn spec_date_or_epoch(s: Seq<char>) -> Date {
    match spec_parse_date(s) {
        Option::Some(d) => d,
        Option::None => Date { year: 1970, month: 1, day: 1 },
    }
}

/// Parses a decimal column, reading unparsable text as zero.
pub fn money_or_zero(s: &str) -> (r: Money)
    ensures
        r == spec_money_or_zero(s@),
{
    match Money::from_decimal_str(s) {
        Option::Some(m) => m,
        Option::None => Money::zero(),
    }
}

/// Parses a date column, reading unparsable text as 1970-01-01.
pub fn date_or_epoch(s: &str) -> (r: Date)
    ensures
        r == spec_date_or_epoch(s@),
{
    match Date::parse_ymd(s) {
        Option::Some(d) => d,
        Option::None => Date { year: 1970, month: 1, day: 1 },
    }
}

/// A raw line-item row.
#[derive(Debug)]
pub struct InvoiceItemRow {
    pub id: String,
    pub invoice_id: String,
    pub description: String,
    pub quantity: String,
    pub unit_price: String,
    pub amount: String,
    pub tax_rate_name: Option<String>,
    pub sort_order: i32,
}

impl InvoiceItemRow {
    /// Decodes the row into a line item; the numeric columns read as
    /// zero when unparsable.
    pub fn into_item(self) -> (r: InvoiceItem)
        ensures
            r.id == self.id,
            r.invoice_id == self.invoice_id,
            r.description == self.description,
            r.quantity == spec_money_or_zero(self.quantity@),
            r.unit_price == spec_money_or_zero(self.unit_price@),
            r.amount == spec_money_or_zero(self.amount@),
            r.tax_rate_name == self.tax_rate_name,
            r.sort_order == self.sort_order,
    {
        let quantity = money_or_zero(self.quantity.as_str());
        let unit_price = money_or_zero(self.unit_price.as_str());
        let amount = money_or_zero(self.amount.as_str());
        InvoiceItem {
            id: self.id,
            invoice_id: self.invoice_id,
            description: self.description,
            quantity,
            unit_price,
            amount,
            tax_rate_name: self.tax_rate_name,
            sort_order: self.sort_order,
        }
    }
}

/// A raw invoice header row.
#[derive(Debug)]
pub struct FullInvoiceRow {
    pub id: String,
    pub number: String,
    pub status: String,
    pub client_id: String,
    pub business_profile_id: String,
    pub issue_date: String,
    pub due_date: String,
    pub currency: String,
    pub subtotal: String,
    pub tax_total: String,
    pub discount_total: String,
    pub total: String,
    pub amount_paid: String,
    pub amount_due: String,
    pub payment_terms: String,
    pub notes: Option<String>,
    pub terms_and_conditions: Option<String>,
    pub created_at: String,
    pub updated_at: String,
}

impl FullInvoiceRow {
    /// Assembles the aggregate from the header row and its decoded
    /// items. The status column must name a known status (`Invalid`
    /// otherwise); the other columns keep their permissive fallbacks.
    /// The tax snapshot and discount are stored aside from these
    /// columns and come back empty.
    pub fn into_invoice(self, items: Vec<InvoiceItem>) -> (r: Result<Invoice, StoreError>)
        ensures
            match r {
                Result::Ok(inv) => ({
                    &&& spec_parse_status(self.status@) == Option::Some(inv.status)
                    &&& inv.id == self.id
                    &&& inv.number == self.number
                    &&& inv.client_id == self.client_id
                    &&& inv.business_profile_id == self.business_profile_id
                    &&& inv.issue_date == spec_date_or_epoch(self.issue_date@)
                    &&& inv.due_date == spec_date_or_epoch(self.due_date@)
                    &&& is_currency_of_code(inv.currency, self.currency@)
                    &&& inv.items == items
                    &&& inv.tax_rates@.len() == 0
                    &&& inv.discount is None
                    &&& inv.subtotal == spec_money_or_zero(self.subtotal@)
                    &&& inv.tax_total == spec_money_or_zero(self.tax_total@)
                    &&& inv.discount_total == spec_money_or_zero(self.discount_total@)
                    &&& inv.total == spec_money_or_zero(self.total@)
                    &&& inv.amount_paid == spec_money_or_zero(self.amount_paid@)
                    &&& inv.amount_due == spec_money_or_zero(self.amount_due@)
                    &&& is_terms_of_label(inv.payment_terms, self.payment_terms@)
                    &&& inv.notes == self.notes
                    &&& inv.terms_and_conditions == self.terms_and_conditions
                    &&& inv.created_at == self.created_at
                    &&& inv.updated_at == self.updated_at
                }),
                Result::Err(e) => e == StoreError::Invalid && spec_parse_status(
                    self.status@,
                ) is None,
            },
    {
        let status = match InvoiceStatus::parse(self.status.as_str()) {
            Option::Some(st) => st,
            Option::None => {
                return Result::Err(StoreError::Invalid);
            },
        };
        let issue_date = date_or_epoch(self.issue_date.as_str());
        let due_date = date_or_epoch(self.due_date.as_str());
        let currency = Currency::from_code(self.currency.as_str());
        let subtotal = money_or_zero(self.subtotal.as_str());
        let tax_total = money_or_zero(self.tax_total.as_str());
        let discount_total = money_or_zero(self.discount_total.as_str());
        let total = money_or_zero(self.total.as_str());
        let amount_paid = money_or_zero(self.amount_paid.as_str());
        let amount_due = money_or_zero(self.amount_due.as_str());
        let payment_terms = PaymentTerms::parse(self.payment_terms.as_str());
        Result::Ok(
            Invoice {
                id: self.id,
                number: self.number,
                status,
                client_id: self.client_id,
                business_profile_id: self.business_profile_id,
                issue_date,
                due_date,
                currency,
                items,
                tax_rates: Vec::new(),
                discount: Option::None,
                subtotal,
                tax_total,
                discount_total,
                total,
                amount_paid,
                amount_due,
                payment_terms,
                notes: self.notes,
                terms_and_conditions: self.terms_and_conditions,
                created_at: self.created_at,
                updated_at: self.updated_at,
            },
        )
    }
}

/// A raw client row.
#[derive(Debug)]
pub struct ClientRow {
    pub id: String,
    pub name: String,
    pub email: Option<String>,
    pub phone: Option<String>,
    pub company: Option<String>,
    pub address_line1: String,
    pub address_city: String,
    pub address_postal_code: String,
    pub address_country: String,
    pub notes: Option<String>,
    pub created_at: String,
    pub updated_at: String,
}

impl ClientRow {
    /// Decodes the row into a client; the address columns fill the
    /// address, whose optional parts these rows do not carry.
    pub fn into_client(self) -> (r: Client)
        ensures
            r.id == self.id,
            r.name == self.name,
            r.email == self.email,
            r.phone == self.phone,
            r.company == self.company,
            r.address.line1 == self.address_line1,
            r.address.line2 is None,
            r.address.city == self.address_city,
            r.address.state is None,
            r.address.postal_code == self.address_postal_code,
            r.address.country == self.address_country,
            r.notes == self.notes,
            r.created_at == self.created_at,
            r.updated_at == self.updated_at,
    {
        Client {
            id: self.id,
            name: self.name,
            email: self.email,
            phone: self.phone,
            company: self.company,
            address: Address {
                line1: self.address_line1,
                line2: Option::None,
                city: self.address_city,
                state: Option::None,
                postal_code: self.address_postal_code,
                country: self.address_country,
            },
            notes: self.notes,
            created_at: self.created_at,
            updated_at: self.updated_at,
        }
    }
}

/// A raw business-profile row.
#[derive(Debug)]
pub struct BusinessProfileRow {
    pub id: String,
    pub name: String,
    pub email: Option<String>,
    pub phone: Option<String>,
    pub address_line1: String,
    pub address_line2: Option<String>,
    pub address_city: String,
    pub address_state: Option<String>,
    pub address_postal_code: String,
    pub address_country: String,
    pub tax_id: Option<String>,
    pub logo_path: Option<String>,
    pub default_currency: String,
    pub default_payment_terms: String,
    pub theme_preference: String,
    pub pdf_export_dir: Option<String>,
    pub created_at: String,
    pub updated_at: String,
}

impl BusinessProfileRow {
    /// Decodes the row into a business profile; unknown currency codes
    /// and payment-terms labels carry through as custom values.
    pub fn into_profile(self) -> (r: BusinessProfile)
        ensures
            r.id == self.id,
            r.name == self.name,
            r.email == self.email,
            r.phone == self.phone,
            r.address.line1 == self.address_line1,
            r.address.line2 == self.address_line2,
            r.address.city == self.address_city,
            r.address.state == self.address_state,
            r.address.postal_code == self.address_postal_code,
            r.address.country == self.address_country,
            r.tax_id == self.tax_id,
            r.logo_path == self.logo_path,
            is_currency_of_code(r.default_currency, self.default_currency@),
            is_terms_of_label(r.default_payment_terms, self.default_payment_terms@),
            r.theme_preference == self.theme_preference,
            r.pdf_export_dir == self.pdf_export_dir,
            r.created_at == self.created_at,
            r.updated_at == self.updated_at,
    {
        let default_currency = Currency::from_code(self.default_currency.as_str());
        let default_payment_terms = PaymentTerms::parse(self.default_payment_terms.as_str());
        BusinessProfile {
            id: self.id,
            name: self.name,
            email: self.email,
            phone: self.phone,
            address: Address {
                line1: self.address_line1,
                line2: self.address_line2,
                city: self.address_city,
                state: self.address_state,
                postal_code: self.address_postal_code,
                country: self.address_country,
            },
            tax_id: self.tax_id,
            logo_path: self.logo_path,
            default_currency,
            default_payment_terms,
            theme_preference: self.theme_preference,
            pdf_export_dir: self.pdf_export_dir,
            created_at: self.created_at,
            updated_at: self.updated_at,
        }
    }
}

} // verus!
