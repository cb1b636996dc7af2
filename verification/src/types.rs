//! Domain value types: currency codes, the invoice status lifecycle,
//! payment terms, tax rates and discounts.
//!
//! Status strings parse strictly — an unknown status is rejected, never
//! coerced to a default — while open-ended fields (currency codes,
//! payment-terms labels) keep their permissive custom fallback.

use vstd::prelude::*;
use vstd::string::StringExecFns;

use crate::money::Money;
use crate::text::str_eq;

verus! {

/// Currency of an invoice. Unrecognised codes are carried through as
/// custom codes.
#[derive(Debug)]
pub enum Currency {
    USD,
    EUR,
    GBP,
    INR,
    AED,
    Custom(String),
}

/// Structural equality of currencies, comparing custom codes by their
/// characters.
pub open spec fn currency_eqv(a: Currency, b: Currency) -> bool {
    match (a, b) {
        (Currency::USD, Currency::USD) => true,
        (Currency::EUR, Currency::EUR) => true,
        (Currency::GBP, Currency::GBP) => true,
        (Currency::INR, Currency::INR) => true,
        (Currency::AED, Currency::AED) => true,
        (Currency::Custom(x), Currency::Custom(y)) => x@ == y@,
        _ => false,
    }
}

/// The three-letter code (or the raw custom code) of a currency.
pub open spec fn spec_currency_code(c: Currency) -> Seq<char> {
    match c {
        Currency::USD => "USD"@,
        Currency::EUR => "EUR"@,
        Currency::GBP => "GBP"@,
        Currency::INR => "INR"@,
        Currency::AED => "AED"@,
        Currency::Custom(s) => s@,
    }
}

/// Whether `c` is what parsing the code `s` yields: a known currency,
/// or the input carried through as a custom code.
pub open spec fn is_currency_of_code(c: Currency, s: Seq<char>) -> bool {
    if s == "USD"@ {
        c == Currency::USD
    } else if s == "EUR"@ {
        c == Currency::EUR
    } else if s == "GBP"@ {
        c == Currency::GBP
    } else if s == "INR"@ {
        c == Currency::INR
    } else if s == "AED"@ {
        c == Currency::AED
    } else {
        c matches Currency::Custom(t) && t@ == s
    }
}

impl Clone for Currency {
    fn clone(&self) -> (r: Self)
        ensures
            currency_eqv(r, *self),
    {
        match self {
            Currency::USD => Currency::USD,
            Currency::EUR => Currency::EUR,
            Currency::GBP => Currency::GBP,
            Currency::INR => Currency::INR,
            Currency::AED => Currency::AED,
            Currency::Custom(s) => Currency::Custom(s.clone()),
        }
    }
}

impl Currency {
    /// The code of this currency, e.g. `USD`.
    pub fn code(&self) -> (r: String)
        ensures
            r@ == spec_currency_code(*self),
    {
        match self {
            Currency::USD => "USD".to_owned(),
            Currency::EUR => "EUR".to_owned(),
            Currency::GBP => "GBP".to_owned(),
            Currency::INR => "INR".to_owned(),
            Currency::AED => "AED".to_owned(),
            Currency::Custom(s) => s.clone(),
        }
    }

    /// Parses a currency code, carrying unknown codes through as custom.
    pub fn from_code(s: &str) -> (r: Currency)
        ensures
            is_currency_of_code(r, s@),
    {
        if str_eq(s, "USD") {
            Currency::USD
        } else if str_eq(s, "EUR") {
            Currency::EUR
        } else if str_eq(s, "GBP") {
            Currency::GBP
        } else if str_eq(s, "INR") {
            Currency::INR
        } else if str_eq(s, "AED") {
            Currency::AED
        } else {
            Currency::Custom(s.to_owned())
        }
    }
}

/// Lifecycle state of an invoice.
#[derive(Clone, Copy, PartialEq, Eq, Structural, Debug)]
pub enum InvoiceStatus {
    Draft,
    Pending,
    Sent,
    Viewed,
    Paid,
    Overdue,
    Cancelled,
}

/// The canonical name of a status.
pub open spec fn spec_status_string(s: InvoiceStatus) -> Seq<char> {
    match s {
        InvoiceStatus::Draft => "Draft"@,
        InvoiceStatus::Pending => "Pending"@,
        InvoiceStatus::Sent => "Sent"@,
        InvoiceStatus::Viewed => "Viewed"@,
        InvoiceStatus::Paid => "Paid"@,
        InvoiceStatus::Overdue => "Overdue"@,
        InvoiceStatus::Cancelled => "Cancelled"@,
    }
}

/// What parsing a status string yields; unknown names are rejected.
pub open spec fn spec_parse_status(s: Seq<char>) -> Option<InvoiceStatus> {
    if s == "Draft"@ {
        Some(InvoiceStatus::Draft)
    } else if s == "Pending"@ {
        Some(InvoiceStatus::Pending)
    } else if s == "Sent"@ {
        Some(InvoiceStatus::Sent)
    } else if s == "Viewed"@ {
        Some(InvoiceStatus::Viewed)
    } else if s == "Paid"@ {
        Some(InvoiceStatus::Paid)
    } else if s == "Overdue"@ {
        Some(InvoiceStatus::Overdue)
    } else if s == "Cancelled"@ {
        Some(InvoiceStatus::Cancelled)
    } else {
        None
    }
}

/// The status transition graph: `Paid` and `Cancelled` are terminal.
pub open spec fn spec_can_transition(from: InvoiceStatus, to: InvoiceStatus) -> bool {
    match from {
        InvoiceStatus::Draft => to == InvoiceStatus::Pending || to == InvoiceStatus::Cancelled,
        InvoiceStatus::Pending => to == InvoiceStatus::Sent || to == InvoiceStatus::Cancelled,
        InvoiceStatus::Sent => to == InvoiceStatus::Viewed || to == InvoiceStatus::Paid || to
            == InvoiceStatus::Overdue || to == InvoiceStatus::Cancelled,
        InvoiceStatus::Viewed => to == InvoiceStatus::Paid || to == InvoiceStatus::Overdue || to
            == InvoiceStatus::Cancelled,
        InvoiceStatus::Overdue => to == InvoiceStatus::Paid || to == InvoiceStatus::Cancelled,
        InvoiceStatus::Paid => false,
        InvoiceStatus::Cancelled => false,
    }
}

impl InvoiceStatus {
    /// The canonical name of this status.
    pub fn as_str(&self) -> (r: &'static str)
        ensures
            r@ == spec_status_string(*self),
    {
        match self {
            InvoiceStatus::Draft => "Draft",
            InvoiceStatus::Pending => "Pending",
            InvoiceStatus::Sent => "Sent",
            InvoiceStatus::Viewed => "Viewed",
            InvoiceStatus::Paid => "Paid",
            InvoiceStatus::Overdue => "Overdue",
            InvoiceStatus::Cancelled => "Cancelled",
        }
    }

    /// Parses a status name; unknown names are rejected, not coerced.
    pub fn parse(s: &str) -> (r: Option<InvoiceStatus>)
        ensures
            r == spec_parse_status(s@),
    {
        if str_eq(s, "Draft") {
            Some(InvoiceStatus::Draft)
        } else if str_eq(s, "Pending") {
            Some(InvoiceStatus::Pending)
        } else if str_eq(s, "Sent") {
            Some(InvoiceStatus::Sent)
        } else if str_eq(s, "Viewed") {
            Some(InvoiceStatus::Viewed)
        } else if str_eq(s, "Paid") {
            Some(InvoiceStatus::Paid)
        } else if str_eq(s, "Overdue") {
            Some(InvoiceStatus::Overdue)
        } else if str_eq(s, "Cancelled") {
            Some(InvoiceStatus::Cancelled)
        } else {
            None
        }
    }

    /// Whether the lifecycle allows moving from this status to `to`.
    pub fn can_transition(&self, to: InvoiceStatus) -> (r: bool)
        ensures
            r == spec_can_transition(*self, to),
    {
        match self {
            InvoiceStatus::Draft => to == InvoiceStatus::Pending || to
                == InvoiceStatus::Cancelled,
            InvoiceStatus::Pending => to == InvoiceStatus::Sent || to
                == InvoiceStatus::Cancelled,
            InvoiceStatus::Sent => to == InvoiceStatus::Viewed || to == InvoiceStatus::Paid || to
                == InvoiceStatus::Overdue || to == InvoiceStatus::Cancelled,
            InvoiceStatus::Viewed => to == InvoiceStatus::Paid || to == InvoiceStatus::Overdue
                || to == InvoiceStatus::Cancelled,
            InvoiceStatus::Overdue => to == InvoiceStatus::Paid || to
                == InvoiceStatus::Cancelled,
            InvoiceStatus::Paid => false,
            InvoiceStatus::Cancelled => false,
        }
    }
}

/// Payment terms of an invoice.
#[derive(Debug)]
pub enum PaymentTerms {
    DueOnReceipt,
    Net15,
    Net30,
    Net60,
    Net90,
    Custom { days: u32, label: String },
}

/// Structural equality of payment terms.
pub open spec fn terms_eqv(a: PaymentTerms, b: PaymentTerms) -> bool {
    match (a, b) {
        (PaymentTerms::DueOnReceipt, PaymentTerms::DueOnReceipt) => true,
        (PaymentTerms::Net15, PaymentTerms::Net15) => true,
        (PaymentTerms::Net30, PaymentTerms::Net30) => true,
        (PaymentTerms::Net60, PaymentTerms::Net60) => true,
        (PaymentTerms::Net90, PaymentTerms::Net90) => true,
        (
            PaymentTerms::Custom { days: xd, label: xl },
            PaymentTerms::Custom { days: yd, label: yl },
        ) => xd == yd && xl@ == yl@,
        _ => false,
    }
}

/// The displayed label of payment terms.
pub open spec fn spec_terms_label(t: PaymentTerms) -> Seq<char> {
    match t {
        PaymentTerms::DueOnReceipt => "DueOnReceipt"@,
        PaymentTerms::Net15 => "Net15"@,
        PaymentTerms::Net30 => "Net30"@,
        PaymentTerms::Net60 => "Net60"@,
        PaymentTerms::Net90 => "Net90"@,
        PaymentTerms::Custom { days: _, label } => label@,
    }
}

/// Whether `t` is what parsing `s` yields: a known name, or a custom
/// term of 30 days labelled with the input.
pub open spec fn is_terms_of_label(t: PaymentTerms, s: Seq<char>) -> bool {
    if s == "DueOnReceipt"@ {
        t == PaymentTerms::DueOnReceipt
    } else if s == "Net15"@ {
        t == PaymentTerms::Net15
    } else if s == "Net30"@ {
        t == PaymentTerms::Net30
    } else if s == "Net60"@ {
        t == PaymentTerms::Net60
    } else if s == "Net90"@ {
        t == PaymentTerms::Net90
    } else {
        t matches PaymentTerms::Custom { days, label } && days == 30 && label@ == s
    }
}

impl Clone for PaymentTerms {
    fn clone(&self) -> (r: Self)
        ensures
            terms_eqv(r, *self),
    {
        match self {
            PaymentTerms::DueOnReceipt => PaymentTerms::DueOnReceipt,
            PaymentTerms::Net15 => PaymentTerms::Net15,
            PaymentTerms::Net30 => PaymentTerms::Net30,
            PaymentTerms::Net60 => PaymentTerms::Net60,
            PaymentTerms::Net90 => PaymentTerms::Net90,
            PaymentTerms::Custom { days, label } => PaymentTerms::Custom {
                days: *days,
                label: label.clone(),
            },
        }
    }
}

impl PaymentTerms {
    /// The displayed label of these terms.
    pub fn label(&self) -> (r: String)
        ensures
            r@ == spec_terms_label(*self),
    {
        match self {
            PaymentTerms::DueOnReceipt => "DueOnReceipt".to_owned(),
            PaymentTerms::Net15 => "Net15".to_owned(),
            PaymentTerms::Net30 => "Net30".to_owned(),
            PaymentTerms::Net60 => "Net60".to_owned(),
            PaymentTerms::Net90 => "Net90".to_owned(),
            PaymentTerms::Custom { days: _, label } => label.clone(),
        }
    }

    /// Parses a payment-terms label, carrying unknown labels through as
    /// 30-day custom terms.
    pub fn parse(s: &str) -> (r: PaymentTerms)
        ensures
            is_terms_of_label(r, s@),
    {
        if str_eq(s, "DueOnReceipt") {
            PaymentTerms::DueOnReceipt
        } else if str_eq(s, "Net15") {
            PaymentTerms::Net15
        } else if str_eq(s, "Net30") {
            PaymentTerms::Net30
        } else if str_eq(s, "Net60") {
            PaymentTerms::Net60
        } else if str_eq(s, "Net90") {
            PaymentTerms::Net90
        } else {
            PaymentTerms::Custom { days: 30, label: s.to_owned() }
        }
    }
}

/// A named tax rate, applied as a percentage; compound rates stack on
/// taxes already accumulated.
#[derive(Debug)]
pub struct TaxRate {
    pub name: String,
    pub rate: Money,
    pub is_compound: bool,
}

/// Structural equality of tax rates.
pub open spec fn tax_rate_eqv(a: TaxRate, b: TaxRate) -> bool {
    a.name@ == b.name@ && a.rate == b.rate && a.is_compound == b.is_compound
}

impl Clone for TaxRate {
    fn clone(&self) -> (r: Self)
        ensures
            tax_rate_eqv(r, *self),
    {
        TaxRate { name: self.name.clone(), rate: self.rate, is_compound: self.is_compound }
    }
}

/// A discount on the pre-tax subtotal: a percentage of it, or a fixed
/// amount.
#[derive(Clone, Copy, PartialEq, Eq, Structural, Debug)]
pub enum DiscountType {
    Percentage(Money),
    FixedAmount(Money),
}

} // verus!
