//! Invoice persistence. `create` writes the invoice header and all its
//! line items as one unit: it either appends the whole aggregate or
//! leaves the store untouched, and it rejects a duplicate number or
//! identifier (`Conflict`), a missing client or profile (`NotFound`),
//! and totals inconsistent with the supplied items (`Invalid`).
//! `update_status` parses the status strictly and enforces the
//! lifecycle transition graph inside the store.

use vstd::prelude::*;
use vstd::string::StringExecFns;

use crate::calculator::{lemma_tax_fits_prefix, spec_discount, spec_tax, spec_tax_fits};
use crate::dates::spec_date_string;
use crate::external::now_rfc3339;
use crate::models::{invoice_eqv, Invoice};
use crate::money::{spec_money_string, Money};
use crate::store::{
    client_exists, db_wf, invoice_id_taken, invoice_number_taken, invoice_wf, items_amount_total,
    lemma_find_invoice_bounds, lemma_find_invoice_is, profile_exists, spec_client_exists,
    spec_find_invoice, spec_get_invoice, spec_invoice_id_taken, spec_number_taken,
    spec_profile_exists, Database, StoreError,
};
use crate::text::str_eq;
use crate::types::{
    spec_can_transition, spec_currency_code, spec_parse_status, spec_status_string, DiscountType,
    InvoiceStatus,
};

verus! {

/// The error `create` must give for this invoice against this state:
/// `Conflict` on a taken number or identifier, `NotFound` on a missing
/// client or profile, `Invalid` on an inconsistent invoice; nothing
/// when it must succeed.
pub open spec fn spec_create_err(db: Database, inv: Invoice) -> Option<StoreError> {
    if spec_number_taken(db.invoices@, inv.number@) || spec_invoice_id_taken(
        db.invoices@,
        inv.id@,
    ) {
        Option::Some(StoreError::Conflict)
    } else if !spec_client_exists(db.clients@, inv.client_id@) || !spec_profile_exists(
        db.profiles@,
        inv.business_profile_id@,
    ) {
        Option::Some(StoreError::NotFound)
    } else if !invoice_wf(inv) {
        Option::Some(StoreError::Invalid)
    } else {
        Option::None
    }
}

/// The error `update_status` must give: `Invalid` on an unknown status
/// name, `NotFound` on a missing invoice, `Invalid` on a transition
/// the lifecycle refuses; nothing when it must succeed.
pub open spec fn spec_update_status_err(
    db: Database,
    id: Seq<char>,
    status: Seq<char>,
) -> Option<StoreError> {
    match spec_parse_status(status) {
        Option::None => Option::Some(StoreError::Invalid),
        Option::Some(st) => match spec_find_invoice(db.invoices@, id) {
            Option::None => Option::Some(StoreError::NotFound),
            Option::Some(i) => if !spec_can_transition(db.invoices@[i].status, st) {
                Option::Some(StoreError::Invalid)
            } else {
                Option::None
            },
        },
    }
}

/// The updated invoice equals the old one in every field but the
/// status, which is `st`, and the update timestamp.
pub open spec fn invoice_with_status(a: Invoice, b: Invoice, st: InvoiceStatus) -> bool {
    &&& a.status == st
    &&& a.id == b.id
    &&& a.number == b.number
    &&& a.client_id == b.client_id
    &&& a.business_profile_id == b.business_profile_id
    &&& a.issue_date == b.issue_date
    &&& a.due_date == b.due_date
    &&& a.currency == b.currency
    &&& a.items == b.items
    &&& a.tax_rates == b.tax_rates
    &&& a.discount == b.discount
    &&& a.subtotal == b.subtotal
    &&& a.tax_total == b.tax_total
    &&& a.discount_total == b.discount_total
    &&& a.total == b.total
    &&& a.amount_paid == b.amount_paid
    &&& a.amount_due == b.amount_due
    &&& a.payment_terms == b.payment_terms
    &&& a.notes == b.notes
    &&& a.terms_and_conditions == b.terms_and_conditions
    &&& a.created_at == b.created_at
}

/// Whether the invoice is internally consistent: its stored amounts,
/// subtotal, tax, discount and totals all re-derive from its items
/// and snapshot.
fn check_invoice_wf(inv: &Invoice) -> (r: bool)
    ensures
        r == invoice_wf(*inv),
{
    let n = inv.items.len();
    let mut sum: i128 = 0;
    let mut i: usize = 0;
    while i < n
        invariant
            i <= n,
            n == inv.items@.len(),
            forall|j: int| 0 <= j < i ==> (#[trigger] inv.items@[j]).invoice_id@ == inv.id@,
            forall|j: int|
                0 <= j < i ==> (#[trigger] inv.items@[j]).amount.units == crate::money::mul_val(
                    inv.items@[j].quantity.units as int,
                    inv.items@[j].unit_price.units as int,
                ),
            forall|a: int, b: int|
                0 <= a < b < i ==> (#[trigger] inv.items@[a]).sort_order
                    <= (#[trigger] inv.items@[b]).sort_order,
            sum == items_amount_total(inv.items@.take(i as int)),
            -((i as i128) * 0x8000000000000000) <= sum <= (i as i128) * 0x8000000000000000,
        decreases n - i,
    {
        if !str_eq(inv.items[i].invoice_id.as_str(), inv.id.as_str()) {
            return false;
        }
        match inv.items[i].quantity.checked_mul(inv.items[i].unit_price) {
            Option::Some(m) => {
                if m.units != inv.items[i].amount.units {
                    return false;
                }
            },
            Option::None => {
                return false;
            },
        }
        if i > 0 {
            if inv.items[i - 1].sort_order > inv.items[i].sort_order {
                return false;
            }
            proof {
                assert forall|a: int| 0 <= a < i implies (#[trigger] inv.items@[a]).sort_order
                    <= inv.items@[i as int].sort_order by {
                    if a < i - 1 {
                        assert(inv.items@[a].sort_order <= inv.items@[i - 1].sort_order);
                    }
                }
            }
        }
        proof {
            assert(inv.items@.take(i + 1).drop_last() =~= inv.items@.take(i as int));
            assert(inv.items@.take(i + 1).last() == inv.items@[i as int]);
        }
        sum = sum + inv.items[i].amount.units as i128;
        i = i + 1;
    }
    proof {
        assert(inv.items@.take(n as int) =~= inv.items@);
    }
    if sum != inv.subtotal.units as i128 {
        return false;
    }
    // Re-derive the tax with overflow-checked steps: a step that does
    // not fit contradicts the fits-bound that consistency asks for.
    let sub = inv.subtotal;
    let ghost subv = inv.subtotal.units as int;
    let rn = inv.tax_rates.len();
    let mut base = sub;
    let mut tot = Money::zero();
    let mut k: usize = 0;
    while k < rn
        invariant
            k <= rn,
            rn == inv.tax_rates@.len(),
            subv == inv.subtotal.units as int,
            sub == inv.subtotal,
            spec_tax_fits(subv, inv.tax_rates@.take(k as int)),
            base.units == spec_tax(subv, inv.tax_rates@.take(k as int)).0,
            tot.units == spec_tax(subv, inv.tax_rates@.take(k as int)).1,
        decreases rn - k,
    {
        proof {
            assert(inv.tax_rates@.take(k + 1).drop_last() =~= inv.tax_rates@.take(k as int));
            assert(inv.tax_rates@.take(k + 1).last() == inv.tax_rates@[k as int]);
        }
        let compound = inv.tax_rates[k].is_compound;
        let basis = if compound {
            base
        } else {
            sub
        };
        let tax = match basis.checked_apply_pct(inv.tax_rates[k].rate) {
            Option::Some(t) => t,
            Option::None => {
                proof {
                    if spec_tax_fits(subv, inv.tax_rates@) {
                        lemma_tax_fits_prefix(subv, inv.tax_rates@, k + 1);
                    }
                }
                return false;
            },
        };
        let tot2 = match tot.checked_add(tax) {
            Option::Some(v) => v,
            Option::None => {
                proof {
                    if spec_tax_fits(subv, inv.tax_rates@) {
                        lemma_tax_fits_prefix(subv, inv.tax_rates@, k + 1);
                    }
                }
                return false;
            },
        };
        if compound {
            base = match base.checked_add(tax) {
                Option::Some(b) => b,
                Option::None => {
                    proof {
                        if spec_tax_fits(subv, inv.tax_rates@) {
                            lemma_tax_fits_prefix(subv, inv.tax_rates@, k + 1);
                        }
                    }
                    return false;
                },
            };
        }
        tot = tot2;
        k = k + 1;
    }
    proof {
        assert(inv.tax_rates@.take(rn as int) =~= inv.tax_rates@);
    }
    if tot.units != inv.tax_total.units {
        return false;
    }
    // Discount.
    let disc = match &inv.discount {
        Option::Some(DiscountType::Percentage(p)) => match sub.checked_apply_pct(*p) {
            Option::Some(v) => v,
            Option::None => {
                return false;
            },
        },
        Option::Some(DiscountType::FixedAmount(m)) => *m,
        Option::None => Money::zero(),
    };
    if disc.units != inv.discount_total.units {
        return false;
    }
    // Grand total and amount due, in wide arithmetic.
    let total_wide: i128 = inv.subtotal.units as i128 + inv.tax_total.units as i128
        - inv.discount_total.units as i128;
    if total_wide != inv.total.units as i128 {
        return false;
    }
    let due_wide: i128 = inv.total.units as i128 - inv.amount_paid.units as i128;
    if due_wide != inv.amount_due.units as i128 {
        return false;
    }
    true
}

/// A lightweight invoice listing entry, all fields rendered as text.
#[derive(Debug)]
pub struct InvoiceSummary {
    pub id: String,
    pub number: String,
    pub status: String,
    pub client_id: String,
    pub issue_date: String,
    pub due_date: String,
    pub currency: String,
    pub total: String,
    pub amount_due: String,
}

/// Whether `s` is the listing rendition of `inv`.
pub open spec fn is_summary_of(s: InvoiceSummary, inv: Invoice) -> bool {
    &&& s.id@ == inv.id@
    &&& s.number@ == inv.number@
    &&& s.status@ == spec_status_string(inv.status)
    &&& s.client_id@ == inv.client_id@
    &&& s.issue_date@ == spec_date_string(inv.issue_date)
    &&& s.due_date@ == spec_date_string(inv.due_date)
    &&& s.currency@ == spec_currency_code(inv.currency)
    &&& s.total@ == spec_money_string(inv.total.units as int)
    &&& s.amount_due@ == spec_money_string(inv.amount_due.units as int)
}

/// Renders an invoice as a listing entry.
fn make_summary(inv: &Invoice) -> (r: InvoiceSummary)
    ensures
        is_summary_of(r, *inv),
{
    InvoiceSummary {
        id: inv.id.clone(),
        number: inv.number.clone(),
        status: inv.status.as_str().to_owned(),
        client_id: inv.client_id.clone(),
        issue_date: inv.issue_date.format_ymd(),
        due_date: inv.due_date.format_ymd(),
        currency: inv.currency.code(),
        total: inv.total.to_decimal_string(),
        amount_due: inv.amount_due.to_decimal_string(),
    }
}

/// A raw invoice listing row, as the durable layer hands it over.
#[derive(Debug)]
pub struct InvoiceSummaryRow {
    pub id: String,
    pub number: String,
    pub status: String,
    pub client_id: String,
    pub issue_date: String,
    pub due_date: String,
    pub currency: String,
    pub total: String,
    pub amount_due: String,
}

impl InvoiceSummaryRow {
    /// Repackages the row as a listing entry, field for field.
    pub fn into_summary(self) -> (r: InvoiceSummary)
        ensures
            r.id == self.id,
            r.number == self.number,
            r.status == self.status,
            r.client_id == self.client_id,
            r.issue_date == self.issue_date,
            r.due_date == self.due_date,
            r.currency == self.currency,
            r.total == self.total,
            r.amount_due == self.amount_due,
    {
        InvoiceSummary {
            id: self.id,
            number: self.number,
            status: self.status,
            client_id: self.client_id,
            issue_date: self.issue_date,
            due_date: self.due_date,
            currency: self.currency,
            total: self.total,
            amount_due: self.amount_due,
        }
    }
}

/// Stores invoices: atomic creation, uniqueness of numbers and
/// identifiers, stable read-back, status lifecycle, cascading delete.
pub struct InvoiceRepository;

impl InvoiceRepository {
    /// A handle on invoice storage.
    pub fn new() -> (r: Self) {
        InvoiceRepository
    }

    /// Persists the invoice with all its line items as one unit: on
    /// success the aggregate is appended whole; on any error the store
    /// is exactly as before, so no reader ever sees part of it.
    pub fn create(&self, db: &mut Database, invoice: Invoice) -> (r: Result<(), StoreError>)
        requires
            db_wf(*old(db)),
        ensures
            db_wf(*final(db)),
            match r {
                Result::Ok(()) => ({
                    &&& spec_create_err(*old(db), invoice) is None
                    &&& final(db).invoices@ == old(db).invoices@.push(invoice)
                    &&& final(db).clients@ == old(db).clients@
                    &&& final(db).profiles@ == old(db).profiles@
                }),
                Result::Err(e) => ({
                    &&& Option::Some(e) == spec_create_err(*old(db), invoice)
                    &&& *final(db) == *old(db)
                }),
            },
    {
        if invoice_number_taken(&db.invoices, invoice.number.as_str()) || invoice_id_taken(
            &db.invoices,
            invoice.id.as_str(),
        ) {
            return Result::Err(StoreError::Conflict);
        }
        if !client_exists(&db.clients, invoice.client_id.as_str()) || !profile_exists(
            &db.profiles,
            invoice.business_profile_id.as_str(),
        ) {
            return Result::Err(StoreError::NotFound);
        }
        if !check_invoice_wf(&invoice) {
            return Result::Err(StoreError::Invalid);
        }
        proof {
            let invs = old(db).invoices@;
            let pushed = invs.push(invoice);
            assert forall|a: int, b: int| 0 <= a < b < pushed.len() implies (
            #[trigger] pushed[a]).id@ != (#[trigger] pushed[b]).id@ by {
                if b == invs.len() {
                    assert(pushed[a] == invs[a]);
                    if invs[a].id@ == invoice.id@ {
                        assert(spec_invoice_id_taken(invs, invoice.id@));
                    }
                } else {
                    assert(pushed[a] == invs[a] && pushed[b] == invs[b]);
                }
            }
            assert forall|a: int, b: int| 0 <= a < b < pushed.len() implies (
            #[trigger] pushed[a]).number@ != (#[trigger] pushed[b]).number@ by {
                if b == invs.len() {
                    assert(pushed[a] == invs[a]);
                    if invs[a].number@ == invoice.number@ {
                        assert(spec_number_taken(invs, invoice.number@));
                    }
                } else {
                    assert(pushed[a] == invs[a] && pushed[b] == invs[b]);
                }
            }
            assert forall|i: int| 0 <= i < pushed.len() implies invoice_wf(
                #[trigger] pushed[i],
            ) by {
                if i < invs.len() {
                    assert(pushed[i] == invs[i]);
                } else {
                    assert(pushed[i] == invoice);
                }
            }
        }
        db.invoices.push(invoice);
        Result::Ok(())
    }

    /// The full aggregate with this identifier — header, items in
    /// their stored order and derived totals — or nothing.
    pub fn get_by_id(&self, db: &Database, id: &str) -> (r: Option<Invoice>)
        ensures
            match (r, spec_get_invoice(db.invoices@, id@)) {
                (Option::Some(out), Option::Some(stored)) => invoice_eqv(out, stored),
                (Option::None, Option::None) => true,
                _ => false,
            },
    {
        let n = db.invoices.len();
        let mut i: usize = 0;
        while i < n
            invariant
                i <= n,
                n == db.invoices@.len(),
                forall|j: int| 0 <= j < i ==> (#[trigger] db.invoices@[j]).id@ != id@,
            decreases n - i,
        {
            if str_eq(db.invoices[i].id.as_str(), id) {
                proof {
                    lemma_find_invoice_is(db.invoices@, id@, i as int);
                }
                return Option::Some(db.invoices[i].clone());
            }
            i = i + 1;
        }
        proof {
            lemma_find_invoice_is(db.invoices@, id@, n as int);
        }
        Option::None
    }

    /// Listing entries for every stored invoice, most recently created
    /// first (creation appends, so in reverse stored order).
    pub fn list_all(&self, db: &Database) -> (r: Vec<InvoiceSummary>)
        ensures
            r@.len() == db.invoices@.len(),
            forall|k: int|
                0 <= k < r@.len() ==> is_summary_of(
                    #[trigger] r@[k],
                    db.invoices@[db.invoices@.len() - 1 - k],
                ),
    {
        let n = db.invoices.len();
        let mut out: Vec<InvoiceSummary> = Vec::new();
        let mut i: usize = n;
        while i > 0
            invariant
                i <= n,
                n == db.invoices@.len(),
                out@.len() == n - i,
                forall|k: int|
                    0 <= k < out@.len() ==> is_summary_of(
                        #[trigger] out@[k],
                        db.invoices@[n - 1 - k],
                    ),
            decreases i,
        {
            i = i - 1;
            out.push(make_summary(&db.invoices[i]));
        }
        out
    }

    /// Sets the status of the invoice with this identifier, refreshing
    /// its update timestamp. The status string must name a known
    /// status and the lifecycle must allow the move; otherwise the
    /// store is exactly as before.
    #[verifier::loop_isolation(false)]
    pub fn update_status(&self, db: &mut Database, id: &str, status: &str) -> (r: Result<
        (),
        StoreError,
    >)
        requires
            db_wf(*old(db)),
        ensures
            db_wf(*final(db)),
            match r {
                Result::Ok(()) => ({
                    let st = spec_parse_status(status@).unwrap();
                    let i = spec_find_invoice(old(db).invoices@, id@).unwrap();
                    &&& spec_update_status_err(*old(db), id@, status@) is None
                    &&& final(db).invoices@.len() == old(db).invoices@.len()
                    &&& forall|j: int|
                        0 <= j < old(db).invoices@.len() && j != i ==> final(db).invoices@[j]
                            == old(db).invoices@[j]
                    &&& invoice_with_status(final(db).invoices@[i], old(db).invoices@[i], st)
                    &&& final(db).clients@ == old(db).clients@
                    &&& final(db).profiles@ == old(db).profiles@
                }),
                Result::Err(e) => ({
                    &&& Option::Some(e) == spec_update_status_err(*old(db), id@, status@)
                    &&& *final(db) == *old(db)
                }),
            },
    {
        let st = match InvoiceStatus::parse(status) {
            Option::Some(st) => st,
            Option::None => {
                return Result::Err(StoreError::Invalid);
            },
        };
        let n = db.invoices.len();
        let mut i: usize = 0;
        while i < n
            invariant
                i <= n,
                n == db.invoices@.len(),
                *db == *old(db),
                forall|j: int| 0 <= j < i ==> (#[trigger] db.invoices@[j]).id@ != id@,
            decreases n - i,
        {
            if str_eq(db.invoices[i].id.as_str(), id) {
                proof {
                    lemma_find_invoice_is(db.invoices@, id@, i as int);
                }
                if !db.invoices[i].status.can_transition(st) {
                    return Result::Err(StoreError::Invalid);
                }
                let ghost before = db.invoices@;
                let mut inv = db.invoices.remove(i);
                inv.status = st;
                inv.updated_at = now_rfc3339();
                db.invoices.insert(i, inv);
                proof {
                    let after = db.invoices@;
                    assert(after =~= before.update(i as int, after[i as int]));
                    let ni = after[i as int];
                    let oi = before[i as int];
                    assert(invoice_wf(oi));
                    assert(invoice_wf(ni));
                    assert forall|a: int, b: int|
                        0 <= a < b < after.len() implies ((#[trigger] after[a]).id@
                        != (#[trigger] after[b]).id@ && after[a].number@ != after[b].number@) by {
                        assert(before[a].id@ != before[b].id@);
                        assert(before[a].number@ != before[b].number@);
                        assert(after[a].id@ == before[a].id@ && after[b].id@ == before[b].id@);
                        assert(after[a].number@ == before[a].number@ && after[b].number@
                            == before[b].number@);
                    }
                    assert forall|j: int| 0 <= j < after.len() implies invoice_wf(
                        #[trigger] after[j],
                    ) by {
                        if j != i {
                            assert(after[j] == before[j]);
                        }
                    }
                }
                return Result::Ok(());
            }
            i = i + 1;
        }
        proof {
            lemma_find_invoice_is(db.invoices@, id@, n as int);
        }
        Result::Err(StoreError::NotFound)
    }

    /// Removes the invoice with this identifier together with all its
    /// line items (they live inside the aggregate); removing an absent
    /// identifier is not an error.
    #[verifier::loop_isolation(false)]
    pub fn delete(&self, db: &mut Database, id: &str) -> (r: Result<(), StoreError>)
        requires
            db_wf(*old(db)),
        ensures
            db_wf(*final(db)),
            r is Ok,
            match spec_find_invoice(old(db).invoices@, id@) {
                Option::Some(i) => final(db).invoices@ == old(db).invoices@.remove(i),
                Option::None => *final(db) == *old(db),
            },
            final(db).clients@ == old(db).clients@,
            final(db).profiles@ == old(db).profiles@,
    {
        let n = db.invoices.len();
        let mut i: usize = 0;
        while i < n
            invariant
                i <= n,
                n == db.invoices@.len(),
                *db == *old(db),
                forall|j: int| 0 <= j < i ==> (#[trigger] db.invoices@[j]).id@ != id@,
            decreases n - i,
        {
            if str_eq(db.invoices[i].id.as_str(), id) {
                proof {
                    lemma_find_invoice_is(db.invoices@, id@, i as int);
                }
                let ghost before = db.invoices@;
                db.invoices.remove(i);
                proof {
                    assert forall|a: int, b: int|
                        0 <= a < b < db.invoices@.len() implies ((#[trigger] db.invoices@[a]).id@
                        != (#[trigger] db.invoices@[b]).id@ && db.invoices@[a].number@
                        != db.invoices@[b].number@) by {
                        let a0 = if a < i {
                            a
                        } else {
                            a + 1
                        };
                        let b0 = if b < i {
                            b
                        } else {
                            b + 1
                        };
                        assert(db.invoices@[a] == before[a0] && db.invoices@[b] == before[b0]);
                    }
                    assert forall|j: int| 0 <= j < db.invoices@.len() implies invoice_wf(
                        #[trigger] db.invoices@[j],
                    ) by {
                        let j0 = if j < i {
                            j
                        } else {
                            j + 1
                        };
                        assert(db.invoices@[j] == before[j0]);
                    }
                }
                return Result::Ok(());
            }
            i = i + 1;
        }
        proof {
            lemma_find_invoice_is(db.invoices@, id@, n as int);
        }
        Result::Ok(())
    }
}

/// Law (round trip): an invoice whose identifier is fresh is read
/// back, by that identifier, exactly as it was created — same items in
/// the same order, same derived totals.
pub proof fn lemma_create_round_trip(invs: Seq<Invoice>, inv: Invoice)
    requires
        forall|j: int| 0 <= j < invs.len() ==> (#[trigger] invs[j]).id@ != inv.id@,
    ensures
        spec_get_invoice(invs.push(inv), inv.id@) == Option::Some(inv),
{
    let s = invs.push(inv);
    assert(forall|j: int| 0 <= j < invs.len() ==> #[trigger] s[j] == invs[j]);
    assert(s[invs.len() as int] == inv);
    lemma_find_invoice_is(s, inv.id@, invs.len() as int);
}

/// Law (consistent reads): under the store invariant, an invoice read
/// back by its identifier is internally consistent — its items sum to
/// its subtotal and its totals re-derive from its snapshot.
pub proof fn lemma_read_back_consistent(db: Database, id: Seq<char>)
    requires
        db_wf(db),
    ensures
        match spec_get_invoice(db.invoices@, id) {
            Option::Some(inv) => invoice_wf(inv),
            Option::None => true,
        },
{
    lemma_find_invoice_bounds(db.invoices@, id);
}

/// Law (uniqueness): once a creation with some number has succeeded,
/// a second creation proposing the same number must answer `Conflict`,
/// whatever else it carries.
pub proof fn lemma_duplicate_number_conflict(
    db: Database,
    db2: Database,
    inv1: Invoice,
    inv2: Invoice,
)
    requires
        spec_create_err(db, inv1) is None,
        db2.invoices@ == db.invoices@.push(inv1),
        inv2.number@ == inv1.number@,
    ensures
        spec_create_err(db2, inv2) == Option::Some(StoreError::Conflict),
{
    let n = db.invoices@.len() as int;
    assert(db2.invoices@[n] == inv1);
    assert(spec_number_taken(db2.invoices@, inv2.number@));
}

} // verus!
