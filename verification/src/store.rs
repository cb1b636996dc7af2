//! The owned store state and its invariants. The durable tables —
//! clients, business profiles, invoices with their line items — live
//! in one explicitly owned `Database` value that every repository
//! operation takes as a handle.
//!
//! The store invariant: invoice identifiers and numbers are unique,
//! every stored invoice is internally consistent (its items sum to
//! its subtotal, its tax, discount and totals match its snapshot),
//! and client and profile identifiers are unique. Every operation
//! requires and preserves it, so no reader ever observes a
//! half-written or duplicated invoice.

use vstd::prelude::*;

use crate::calculator::{spec_discount, spec_tax, spec_tax_fits, spec_tax_total};
use crate::models::{BusinessProfile, Client, Invoice, InvoiceItem};
use crate::money::mul_val;
use crate::text::str_eq;

verus! {

/// Typed store errors: a missing referent, a duplicate identifier or
/// number, inconsistent input, or an unavailable durable layer.
#[derive(Clone, Copy, PartialEq, Eq, Structural, Debug)]
pub enum StoreError {
    NotFound,
    Conflict,
    Invalid,
    StorageFailure,
}

/// The owned store state.
pub struct Database {
    pub clients: Vec<Client>,
    pub profiles: Vec<BusinessProfile>,
    pub invoices: Vec<Invoice>,
}

/// Sum of the items' stored amounts, in scale-4 units.
pub open spec fn items_amount_total(items: Seq<InvoiceItem>) -> int
    decreases items.len(),
{
    if items.len() == 0 {
        0
    } else {
        items_amount_total(items.drop_last()) + items.last().amount.units
    }
}

/// Well-formed line items of an invoice: each belongs to it, each
/// stored amount is the quantity times the unit price, and the sort
/// orders are non-decreasing.
pub open spec fn items_wf(inv_id: Seq<char>, items: Seq<InvoiceItem>) -> bool {
    &&& forall|i: int| 0 <= i < items.len() ==> (#[trigger] items[i]).invoice_id@ == inv_id
    &&& forall|i: int|
        0 <= i < items.len() ==> (#[trigger] items[i]).amount.units == mul_val(
            items[i].quantity.units as int,
            items[i].unit_price.units as int,
        )
    &&& forall|i: int, j: int|
        0 <= i < j < items.len() ==> (#[trigger] items[i]).sort_order
            <= (#[trigger] items[j]).sort_order
}

/// An internally consistent invoice: its derived totals are exactly
/// what the calculator yields from its items, snapshot rates and
/// discount, and the amount due is the total less the amount paid.
pub open spec fn invoice_wf(inv: Invoice) -> bool {
    &&& items_wf(inv.id@, inv.items@)
    &&& inv.subtotal.units == items_amount_total(inv.items@)
    &&& spec_tax_fits(inv.subtotal.units as int, inv.tax_rates@)
    &&& inv.tax_total.units == spec_tax_total(inv.subtotal.units as int, inv.tax_rates@)
    &&& inv.discount_total.units == spec_discount(inv.subtotal.units as int, inv.discount)
    &&& inv.total.units == inv.subtotal.units + inv.tax_total.units - inv.discount_total.units
    &&& inv.amount_due.units == inv.total.units - inv.amount_paid.units
}

/// No two stored invoices share an identifier.
pub open spec fn invoice_ids_unique(invs: Seq<Invoice>) -> bool {
    forall|i: int, j: int|
        0 <= i < j < invs.len() ==> (#[trigger] invs[i]).id@ != (#[trigger] invs[j]).id@
}

/// No two stored invoices share a number.
pub open spec fn invoice_numbers_unique(invs: Seq<Invoice>) -> bool {
    forall|i: int, j: int|
        0 <= i < j < invs.len() ==> (#[trigger] invs[i]).number@ != (#[trigger] invs[j]).number@
}

/// No two stored clients share an identifier.
pub open spec fn client_ids_unique(cs: Seq<Client>) -> bool {
    forall|i: int, j: int|
        0 <= i < j < cs.len() ==> (#[trigger] cs[i]).id@ != (#[trigger] cs[j]).id@
}

/// No two stored profiles share an identifier.
pub open spec fn profile_ids_unique(ps: Seq<BusinessProfile>) -> bool {
    forall|i: int, j: int|
        0 <= i < j < ps.len() ==> (#[trigger] ps[i]).id@ != (#[trigger] ps[j]).id@
}

/// The store invariant.
pub open spec fn db_wf(db: Database) -> bool {
    &&& invoice_ids_unique(db.invoices@)
    &&& invoice_numbers_unique(db.invoices@)
    &&& forall|i: int| 0 <= i < db.invoices@.len() ==> invoice_wf(#[trigger] db.invoices@[i])
    &&& client_ids_unique(db.clients@)
    &&& profile_ids_unique(db.profiles@)
}

/// Whether some stored invoice carries this number.
pub open spec fn spec_number_taken(invs: Seq<Invoice>, number: Seq<char>) -> bool {
    exists|i: int| 0 <= i < invs.len() && (#[trigger] invs[i]).number@ == number
}

/// Whether some stored invoice carries this identifier.
pub open spec fn spec_invoice_id_taken(invs: Seq<Invoice>, id: Seq<char>) -> bool {
    exists|i: int| 0 <= i < invs.len() && (#[trigger] invs[i]).id@ == id
}

/// Whether a stored client carries this identifier.
pub open spec fn spec_client_exists(cs: Seq<Client>, id: Seq<char>) -> bool {
    exists|i: int| 0 <= i < cs.len() && (#[trigger] cs[i]).id@ == id
}

/// Whether a stored profile carries this identifier.
pub open spec fn spec_profile_exists(ps: Seq<BusinessProfile>, id: Seq<char>) -> bool {
    exists|i: int| 0 <= i < ps.len() && (#[trigger] ps[i]).id@ == id
}

/// Index of the first stored invoice with this identifier.
pub open spec fn spec_find_invoice(invs: Seq<Invoice>, id: Seq<char>) -> Option<int>
    decreases invs.len(),
{
    if invs.len() == 0 {
        Option::None
    } else if invs[0].id@ == id {
        Option::Some(0)
    } else {
        match spec_find_invoice(invs.skip(1), id) {
            Option::Some(i) => Option::Some(i + 1),
            Option::None => Option::None,
        }
    }
}

/// The first stored invoice with this identifier, if any.
pub open spec fn spec_get_invoice(invs: Seq<Invoice>, id: Seq<char>) -> Option<Invoice> {
    match spec_find_invoice(invs, id) {
        Option::Some(i) => Option::Some(invs[i]),
        Option::None => Option::None,
    }
}

/// Index of the first stored client with this identifier.
pub open spec fn spec_find_client(cs: Seq<Client>, id: Seq<char>) -> Option<int>
    decreases cs.len(),
{
    if cs.len() == 0 {
        Option::None
    } else if cs[0].id@ == id {
        Option::Some(0)
    } else {
        match spec_find_client(cs.skip(1), id) {
            Option::Some(i) => Option::Some(i + 1),
            Option::None => Option::None,
        }
    }
}

/// The first stored client with this identifier, if any.
pub open spec fn spec_get_client(cs: Seq<Client>, id: Seq<char>) -> Option<Client> {
    match spec_find_client(cs, id) {
        Option::Some(i) => Option::Some(cs[i]),
        Option::None => Option::None,
    }
}

/// A position with no match before it, and a match or the end at it,
/// is the first-match index among the clients.
pub proof fn lemma_find_client_is(cs: Seq<Client>, id: Seq<char>, k: int)
    requires
        0 <= k <= cs.len(),
        forall|j: int| 0 <= j < k ==> (#[trigger] cs[j]).id@ != id,
        k < cs.len() ==> cs[k].id@ == id,
    ensures
        spec_find_client(cs, id) == if k < cs.len() {
            Option::Some(k)
        } else {
            Option::<int>::None
        },
    decreases cs.len(),
{
    if cs.len() == 0 {
    } else if cs[0].id@ == id {
    } else {
        let t = cs.skip(1);
        assert(forall|j: int| 0 <= j < k - 1 ==> (#[trigger] t[j]).id@ == cs[j + 1].id@);
        assert(k - 1 < t.len() ==> t[k - 1] == cs[k]);
        lemma_find_client_is(t, id, k - 1);
    }
}

/// Index of the first stored profile with this identifier.
pub open spec fn spec_find_profile(ps: Seq<BusinessProfile>, id: Seq<char>) -> Option<int>
    decreases ps.len(),
{
    if ps.len() == 0 {
        Option::None
    } else if ps[0].id@ == id {
        Option::Some(0)
    } else {
        match spec_find_profile(ps.skip(1), id) {
            Option::Some(i) => Option::Some(i + 1),
            Option::None => Option::None,
        }
    }
}

/// A position with no match before it, and a match or the end at it,
/// is the first-match index among the profiles.
pub proof fn lemma_find_profile_is(ps: Seq<BusinessProfile>, id: Seq<char>, k: int)
    requires
        0 <= k <= ps.len(),
        forall|j: int| 0 <= j < k ==> (#[trigger] ps[j]).id@ != id,
        k < ps.len() ==> ps[k].id@ == id,
    ensures
        spec_find_profile(ps, id) == if k < ps.len() {
            Option::Some(k)
        } else {
            Option::<int>::None
        },
    decreases ps.len(),
{
    if ps.len() == 0 {
    } else if ps[0].id@ == id {
    } else {
        let t = ps.skip(1);
        assert(forall|j: int| 0 <= j < k - 1 ==> (#[trigger] t[j]).id@ == ps[j + 1].id@);
        assert(k - 1 < t.len() ==> t[k - 1] == ps[k]);
        lemma_find_profile_is(t, id, k - 1);
    }
}

/// A position with no match before it, and a match or the end at it,
/// is the first-match index.
pub proof fn lemma_find_invoice_is(invs: Seq<Invoice>, id: Seq<char>, k: int)
    requires
        0 <= k <= invs.len(),
        forall|j: int| 0 <= j < k ==> (#[trigger] invs[j]).id@ != id,
        k < invs.len() ==> invs[k].id@ == id,
    ensures
        spec_find_invoice(invs, id) == if k < invs.len() {
            Option::Some(k)
        } else {
            Option::<int>::None
        },
    decreases invs.len(),
{
    if invs.len() == 0 {
    } else if invs[0].id@ == id {
    } else {
        let t = invs.skip(1);
        assert(forall|j: int| 0 <= j < k - 1 ==> (#[trigger] t[j]).id@ == invs[j + 1].id@);
        assert(k - 1 < t.len() ==> t[k - 1] == invs[k]);
        lemma_find_invoice_is(t, id, k - 1);
    }
}

/// A found index lies in bounds, matches, and nothing before matches.
pub proof fn lemma_find_invoice_bounds(invs: Seq<Invoice>, id: Seq<char>)
    ensures
        match spec_find_invoice(invs, id) {
            Option::Some(i) => 0 <= i < invs.len() && invs[i].id@ == id && forall|j: int|
                0 <= j < i ==> (#[trigger] invs[j]).id@ != id,
            Option::None => forall|j: int|
                0 <= j < invs.len() ==> (#[trigger] invs[j]).id@ != id,
        },
    decreases invs.len(),
{
    if invs.len() > 0 && invs[0].id@ != id {
        let t = invs.skip(1);
        lemma_find_invoice_bounds(t, id);
        assert(forall|j: int| 0 <= j < t.len() ==> #[trigger] t[j] == invs[j + 1]);
        match spec_find_invoice(t, id) {
            Option::Some(i) => {
                assert(t[i] == invs[i + 1]);
                assert forall|j: int| 0 <= j < i + 1 implies (#[trigger] invs[j]).id@ != id by {
                    if j > 0 {
                        assert(t[j - 1] == invs[j]);
                    }
                }
            },
            Option::None => {
                assert forall|j: int| 0 <= j < invs.len() implies (#[trigger] invs[j]).id@
                    != id by {
                    if j > 0 {
                        assert(t[j - 1] == invs[j]);
                    }
                }
            },
        }
    }
}

/// Whether some stored invoice carries this number.
pub(crate) fn invoice_number_taken(invs: &Vec<Invoice>, number: &str) -> (r: bool)
    ensures
        r == spec_number_taken(invs@, number@),
{
    let mut i: usize = 0;
    while i < invs.len()
        invariant
            i <= invs@.len(),
            forall|j: int| 0 <= j < i ==> (#[trigger] invs@[j]).number@ != number@,
        decreases invs@.len() - i,
    {
        if str_eq(invs[i].number.as_str(), number) {
            return true;
        }
        i = i + 1;
    }
    false
}

/// Whether some stored invoice carries this identifier.
pub(crate) fn invoice_id_taken(invs: &Vec<Invoice>, id: &str) -> (r: bool)
    ensures
        r == spec_invoice_id_taken(invs@, id@),
{
    let mut i: usize = 0;
    while i < invs.len()
        invariant
            i <= invs@.len(),
            forall|j: int| 0 <= j < i ==> (#[trigger] invs@[j]).id@ != id@,
        decreases invs@.len() - i,
    {
        if str_eq(invs[i].id.as_str(), id) {
            return true;
        }
        i = i + 1;
    }
    false
}

/// Whether a stored client carries this identifier.
pub(crate) fn client_exists(cs: &Vec<Client>, id: &str) -> (r: bool)
    ensures
        r == spec_client_exists(cs@, id@),
{
    let mut i: usize = 0;
    while i < cs.len()
        invariant
            i <= cs@.len(),
            forall|j: int| 0 <= j < i ==> (#[trigger] cs@[j]).id@ != id@,
        decreases cs@.len() - i,
    {
        if str_eq(cs[i].id.as_str(), id) {
            return true;
        }
        i = i + 1;
    }
    false
}

/// Whether a stored profile carries this identifier.
pub(crate) fn profile_exists(ps: &Vec<BusinessProfile>, id: &str) -> (r: bool)
    ensures
        r == spec_profile_exists(ps@, id@),
{
    let mut i: usize = 0;
    while i < ps.len()
        invariant
            i <= ps@.len(),
            forall|j: int| 0 <= j < i ==> (#[trigger] ps@[j]).id@ != id@,
        decreases ps@.len() - i,
    {
        if str_eq(ps[i].id.as_str(), id) {
            return true;
        }
        i = i + 1;
    }
    false
}

impl Database {
    /// An empty store, which satisfies the invariant.
    pub fn new() -> (r: Database)
        ensures
            db_wf(r),
            r.clients@.len() == 0,
            r.profiles@.len() == 0,
            r.invoices@.len() == 0,
    {
        Database { clients: Vec::new(), profiles: Vec::new(), invoices: Vec::new() }
    }
}

} // verus!
