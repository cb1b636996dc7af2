//! Assembling a new invoice: resolving issue and due dates, building
//! line items from plain inputs, deriving the totals, and producing a
//! consistent aggregate that the store's creation check accepts.

use vstd::prelude::*;

use crate::calculator::{
    lemma_tax_fits_prefix, spec_discount, spec_tax, spec_tax_fits, spec_tax_total,
};
use crate::dates::{date_valid, spec_add_days, spec_parse_date, Date};
use crate::external::{new_uuid, today_utc};
use crate::models::{Invoice, InvoiceItem};
use crate::money::{in_i64, mul_val, Money};
use crate::store::{invoice_wf, items_amount_total};
use crate::types::{Currency, DiscountType, InvoiceStatus, PaymentTerms, TaxRate};

verus! {

/// Plain input for one line item.
#[derive(Debug)]
pub struct ItemInput {
    pub description: String,
    pub quantity: Money,
    pub unit_price: Money,
}

/// Sum of quantity times unit price over the inputs, in scale-4 units.
pub open spec fn spec_inputs_subtotal(inputs: Seq<ItemInput>) -> int
    decreases inputs.len(),
{
    if inputs.len() == 0 {
        0
    } else {
        spec_inputs_subtotal(inputs.drop_last()) + mul_val(
            inputs.last().quantity.units as int,
            inputs.last().unit_price.units as int,
        )
    }
}

/// Machine bound: each input's amount and each running sum fits an
/// `i64`.
pub open spec fn spec_inputs_fit(inputs: Seq<ItemInput>) -> bool
    decreases inputs.len(),
{
    if inputs.len() == 0 {
        true
    } else {
        &&& spec_inputs_fit(inputs.drop_last())
        &&& in_i64(
            mul_val(inputs.last().quantity.units as int, inputs.last().unit_price.units as int),
        )
        &&& in_i64(spec_inputs_subtotal(inputs))
    }
}

/// A bound for the whole input list gives the same bound for each
/// prefix.
pub proof fn lemma_inputs_fit_prefix(inputs: Seq<ItemInput>, k: int)
    requires
        spec_inputs_fit(inputs),
        0 <= k <= inputs.len(),
    ensures
        spec_inputs_fit(inputs.take(k)),
    decreases inputs.len(),
{
    if k == inputs.len() {
        assert(inputs.take(k) =~= inputs);
    } else {
        assert(inputs.drop_last().take(k) =~= inputs.take(k));
        lemma_inputs_fit_prefix(inputs.drop_last(), k);
    }
}

/// Whether the whole derivation fits the machine: the item amounts
/// and subtotal, every tax step, the discount and the grand total.
pub open spec fn spec_build_ok(
    inputs: Seq<ItemInput>,
    tax_rates: Seq<TaxRate>,
    discount: Option<DiscountType>,
) -> bool {
    let sub = spec_inputs_subtotal(inputs);
    let tax = spec_tax_total(sub, tax_rates);
    let disc = spec_discount(sub, discount);
    &&& inputs.len() <= 0x7fffffff
    &&& spec_inputs_fit(inputs)
    &&& spec_tax_fits(sub, tax_rates)
    &&& in_i64(disc)
    &&& in_i64(sub + tax)
    &&& in_i64(sub + tax - disc)
}

/// Today's date (UTC), clamped into the calendar the library carries.
pub fn today() -> (r: Date)
    ensures
        date_valid(r),
{
    let (y, m, d) = today_utc();
    Date::clamped(y, m, d)
}

/// Resolves the issue and due dates: a well-formed `YYYY-MM-DD` string
/// wins; a missing or malformed issue date falls back to today, a
/// missing or malformed due date to thirty days after the issue date.
pub fn resolve_dates(issue: Option<&str>, due: Option<&str>, today: Date) -> (r: (Date, Date))
    requires
        date_valid(today),
    ensures
        r.0 == match issue {
            Option::Some(s) => match spec_parse_date(s@) {
                Option::Some(d) => d,
                Option::None => today,
            },
            Option::None => today,
        },
        r.1 == match due {
            Option::Some(s) => match spec_parse_date(s@) {
                Option::Some(d) => d,
                Option::None => spec_add_days(r.0, 30),
            },
            Option::None => spec_add_days(r.0, 30),
        },
        date_valid(r.0),
        date_valid(r.1),
{
    let issue_date = match issue {
        Option::Some(s) => match Date::parse_ymd(s) {
            Option::Some(d) => d,
            Option::None => today,
        },
        Option::None => today,
    };
    let due_date = match due {
        Option::Some(s) => match Date::parse_ymd(s) {
            Option::Some(d) => d,
            Option::None => issue_date.add_days(30),
        },
        Option::None => issue_date.add_days(30),
    };
    (issue_date, due_date)
}

/// Builds a complete, internally consistent invoice: line items from
/// the plain inputs (fresh item identifiers, list position as sort
/// order, amount = quantity times unit price), totals derived exactly
/// as the calculator states, amount paid zero and amount due the
/// grand total. `Invalid` exactly when some derived quantity cannot
/// be represented.
#[verifier::loop_isolation(false)]
pub fn try_build_invoice(
    id: String,
    number: String,
    status: InvoiceStatus,
    client_id: String,
    business_profile_id: String,
    issue_date: Date,
    due_date: Date,
    currency: Currency,
    inputs: &Vec<ItemInput>,
    tax_rates: Vec<TaxRate>,
    discount: Option<DiscountType>,
    payment_terms: PaymentTerms,
    notes: Option<String>,
    terms_and_conditions: Option<String>,
    created_at: String,
) -> (r: Result<Invoice, crate::store::StoreError>)
    ensures
        match r {
            Result::Ok(inv) => ({
                &&& spec_build_ok(inputs@, tax_rates@, discount)
                &&& invoice_wf(inv)
                &&& inv.id == id
                &&& inv.number == number
                &&& inv.status == status
                &&& inv.client_id == client_id
                &&& inv.business_profile_id == business_profile_id
                &&& inv.issue_date == issue_date
                &&& inv.due_date == due_date
                &&& inv.currency == currency
                &&& inv.items@.len() == inputs@.len()
                &&& forall|i: int|
                    0 <= i < inputs@.len() ==> ({
                        let it = #[trigger] inv.items@[i];
                        &&& it.invoice_id@ == id@
                        &&& it.description@ == inputs@[i].description@
                        &&& it.quantity == inputs@[i].quantity
                        &&& it.unit_price == inputs@[i].unit_price
                        &&& it.amount.units == mul_val(
                            inputs@[i].quantity.units as int,
                            inputs@[i].unit_price.units as int,
                        )
                        &&& it.sort_order == i as i32
                        &&& it.id@.len() == 36
                        &&& it.tax_rate_name is None
                    })
                &&& inv.tax_rates == tax_rates
                &&& inv.discount == discount
                &&& inv.subtotal.units == spec_inputs_subtotal(inputs@)
                &&& inv.tax_total.units == spec_tax_total(inv.subtotal.units as int, tax_rates@)
                &&& inv.discount_total.units == spec_discount(
                    inv.subtotal.units as int,
                    discount,
                )
                &&& inv.total.units == inv.subtotal.units + inv.tax_total.units
                    - inv.discount_total.units
                &&& inv.amount_paid.units == 0
                &&& inv.amount_due == inv.total
                &&& inv.payment_terms == payment_terms
                &&& inv.notes == notes
                &&& inv.terms_and_conditions == terms_and_conditions
                &&& inv.created_at == created_at
                &&& inv.updated_at@ == inv.created_at@
            }),
            Result::Err(e) => e == crate::store::StoreError::Invalid && !spec_build_ok(
                inputs@,
                tax_rates@,
                discount,
            ),
        },
{
    let n = inputs.len();
    if n > 0x7fffffffusize {
        return Result::Err(crate::store::StoreError::Invalid);
    }
    let mut items: Vec<InvoiceItem> = Vec::new();
    let mut subtotal = Money::zero();
    let mut i: usize = 0;
    while i < n
        invariant
            i <= n,
            items@.len() == i,
            spec_inputs_fit(inputs@.take(i as int)),
            subtotal.units == spec_inputs_subtotal(inputs@.take(i as int)),
            forall|j: int|
                0 <= j < i ==> ({
                    let it = #[trigger] items@[j];
                    &&& it.invoice_id@ == id@
                    &&& it.description@ == inputs@[j].description@
                    &&& it.quantity == inputs@[j].quantity
                    &&& it.unit_price == inputs@[j].unit_price
                    &&& it.amount.units == mul_val(
                        inputs@[j].quantity.units as int,
                        inputs@[j].unit_price.units as int,
                    )
                    &&& it.sort_order == j as i32
                    &&& it.id@.len() == 36
                    &&& it.tax_rate_name is None
                }),
        decreases n - i,
    {
        proof {
            assert(inputs@.take(i + 1).drop_last() =~= inputs@.take(i as int));
            assert(inputs@.take(i + 1).last() == inputs@[i as int]);
        }
        let amount = match inputs[i].quantity.checked_mul(inputs[i].unit_price) {
            Option::Some(a) => a,
            Option::None => {
                proof {
                    if spec_inputs_fit(inputs@) {
                        lemma_inputs_fit_prefix(inputs@, i + 1);
                    }
                }
                return Result::Err(crate::store::StoreError::Invalid);
            },
        };
        let sub2 = match subtotal.checked_add(amount) {
            Option::Some(s) => s,
            Option::None => {
                proof {
                    if spec_inputs_fit(inputs@) {
                        lemma_inputs_fit_prefix(inputs@, i + 1);
                    }
                }
                return Result::Err(crate::store::StoreError::Invalid);
            },
        };
        items.push(
            InvoiceItem {
                id: new_uuid(),
                invoice_id: id.clone(),
                description: inputs[i].description.clone(),
                quantity: inputs[i].quantity,
                unit_price: inputs[i].unit_price,
                amount,
                tax_rate_name: Option::None,
                sort_order: i as i32,
            },
        );
        subtotal = sub2;
        i = i + 1;
    }
    proof {
        assert(inputs@.take(n as int) =~= inputs@);
    }

    // Taxes, step by step with overflow checks.
    let rn = tax_rates.len();
    let mut base = subtotal;
    let mut tax_total = Money::zero();
    let mut k: usize = 0;
    while k < rn
        invariant
            k <= rn,
            spec_tax_fits(subtotal.units as int, tax_rates@.take(k as int)),
            base.units == spec_tax(subtotal.units as int, tax_rates@.take(k as int)).0,
            tax_total.units == spec_tax(subtotal.units as int, tax_rates@.take(k as int)).1,
        decreases rn - k,
    {
        proof {
            assert(tax_rates@.take(k + 1).drop_last() =~= tax_rates@.take(k as int));
            assert(tax_rates@.take(k + 1).last() == tax_rates@[k as int]);
        }
        let compound = tax_rates[k].is_compound;
        let basis = if compound {
            base
        } else {
            subtotal
        };
        let tax = match basis.checked_apply_pct(tax_rates[k].rate) {
            Option::Some(t) => t,
            Option::None => {
                proof {
                    if spec_tax_fits(subtotal.units as int, tax_rates@) {
                        lemma_tax_fits_prefix(subtotal.units as int, tax_rates@, k + 1);
                    }
                }
                return Result::Err(crate::store::StoreError::Invalid);
            },
        };
        let tot2 = match tax_total.checked_add(tax) {
            Option::Some(v) => v,
            Option::None => {
                proof {
                    if spec_tax_fits(subtotal.units as int, tax_rates@) {
                        lemma_tax_fits_prefix(subtotal.units as int, tax_rates@, k + 1);
                    }
                }
                return Result::Err(crate::store::StoreError::Invalid);
            },
        };
        if compound {
            base = match base.checked_add(tax) {
                Option::Some(b) => b,
                Option::None => {
                    proof {
                        if spec_tax_fits(subtotal.units as int, tax_rates@) {
                            lemma_tax_fits_prefix(subtotal.units as int, tax_rates@, k + 1);
                        }
                    }
                    return Result::Err(crate::store::StoreError::Invalid);
                },
            };
        }
        tax_total = tot2;
        k = k + 1;
    }
    proof {
        assert(tax_rates@.take(rn as int) =~= tax_rates@);
    }

    // Discount.
    let discount_total = match &discount {
        Option::Some(DiscountType::Percentage(p)) => match subtotal.checked_apply_pct(*p) {
            Option::Some(v) => v,
            Option::None => {
                return Result::Err(crate::store::StoreError::Invalid);
            },
        },
        Option::Some(DiscountType::FixedAmount(m)) => *m,
        Option::None => Money::zero(),
    };

    // Grand total and amount due.
    let with_tax = match subtotal.checked_add(tax_total) {
        Option::Some(v) => v,
        Option::None => {
            return Result::Err(crate::store::StoreError::Invalid);
        },
    };
    let total = match with_tax.checked_sub(discount_total) {
        Option::Some(v) => v,
        Option::None => {
            return Result::Err(crate::store::StoreError::Invalid);
        },
    };

    let updated_at = created_at.clone();
    let inv = Invoice {
        id,
        number,
        status,
        client_id,
        business_profile_id,
        issue_date,
        due_date,
        currency,
        items,
        tax_rates,
        discount,
        subtotal,
        tax_total,
        discount_total,
        total,
        amount_paid: Money::zero(),
        amount_due: total,
        payment_terms,
        notes,
        terms_and_conditions,
        created_at,
        updated_at,
    };
    proof {
        lemma_amount_sum_matches_inputs(inv.items@, inputs@);
    }
    Result::Ok(inv)
}

/// Items whose stored amounts are their quantity times unit price sum,
/// item by item, to the inputs' subtotal.
proof fn lemma_amount_sum_matches_inputs(items: Seq<InvoiceItem>, inputs: Seq<ItemInput>)
    requires
        items.len() == inputs.len(),
        forall|j: int|
            0 <= j < items.len() ==> (#[trigger] items[j]).amount.units == mul_val(
                inputs[j].quantity.units as int,
                inputs[j].unit_price.units as int,
            ),
    ensures
        items_amount_total(items) == spec_inputs_subtotal(inputs),
    decreases items.len(),
{
    if items.len() > 0 {
        lemma_amount_sum_matches_inputs(items.drop_last(), inputs.drop_last());
    }
}

} // verus!
