//! The invoice calculator: subtotal, sequential tax application with
//! compound support, discounts, and the grand total. Pure functions
//! whose contracts pin every computed amount.
//!
//! Tax rates apply in list order. A compound rate applies to the
//! running base (the subtotal plus all compound taxes so far) and
//! grows that base by its own tax; a non-compound rate always applies
//! to the original subtotal and leaves the base unchanged. The base
//! never shrinks and never resets within one application.

use vstd::prelude::*;

use crate::models::InvoiceItem;
use crate::money::{in_i64, mul_val, pct_val, Money};
use crate::types::{DiscountType, TaxRate};

verus! {

/// Sum of quantity times unit price over the items, in scale-4 units.
pub open spec fn spec_subtotal(items: Seq<InvoiceItem>) -> int
    decreases items.len(),
{
    if items.len() == 0 {
        0
    } else {
        spec_subtotal(items.drop_last()) + mul_val(
            items.last().quantity.units as int,
            items.last().unit_price.units as int,
        )
    }
}

/// Machine bound: each item's amount and each running sum fits an `i64`.
pub open spec fn spec_subtotal_fits(items: Seq<InvoiceItem>) -> bool
    decreases items.len(),
{
    if items.len() == 0 {
        true
    } else {
        &&& spec_subtotal_fits(items.drop_last())
        &&& in_i64(
            mul_val(items.last().quantity.units as int, items.last().unit_price.units as int),
        )
        &&& in_i64(spec_subtotal(items))
    }
}

/// The tax computation after applying all of `rates` to `sub`, as the
/// pair (running base, accumulated tax).
pub open spec fn spec_tax(sub: int, rates: Seq<TaxRate>) -> (int, int)
    decreases rates.len(),
{
    if rates.len() == 0 {
        (sub, 0)
    } else {
        let prev = spec_tax(sub, rates.drop_last());
        let r = rates.last();
        let t = pct_val(if r.is_compound { prev.0 } else { sub }, r.rate.units as int);
        (if r.is_compound { prev.0 + t } else { prev.0 }, prev.1 + t)
    }
}

/// The accumulated tax after applying all of `rates` to `sub`.
pub open spec fn spec_tax_total(sub: int, rates: Seq<TaxRate>) -> int {
    spec_tax(sub, rates).1
}

/// Machine bound: each step's tax, running total and running base fit
/// an `i64`.
pub open spec fn spec_tax_fits(sub: int, rates: Seq<TaxRate>) -> bool
    decreases rates.len(),
{
    if rates.len() == 0 {
        true
    } else {
        &&& spec_tax_fits(sub, rates.drop_last())
        &&& {
            let prev = spec_tax(sub, rates.drop_last());
            let r = rates.last();
            let t = pct_val(if r.is_compound { prev.0 } else { sub }, r.rate.units as int);
            &&& in_i64(t)
            &&& in_i64(prev.1 + t)
            &&& (r.is_compound ==> in_i64(prev.0 + t))
        }
    }
}

/// The discount amount: zero without a discount, a rounded percentage
/// of the subtotal, or the fixed amount as given (not clamped).
pub open spec fn spec_discount(sub: int, d: Option<DiscountType>) -> int {
    match d {
        Option::Some(DiscountType::Percentage(p)) => pct_val(sub, p.units as int),
        Option::Some(DiscountType::FixedAmount(m)) => m.units as int,
        Option::None => 0,
    }
}

/// A subtotal bound for the whole list gives the same bound for each
/// prefix.
pub proof fn lemma_subtotal_fits_prefix(items: Seq<InvoiceItem>, k: int)
    requires
        spec_subtotal_fits(items),
        0 <= k <= items.len(),
    ensures
        spec_subtotal_fits(items.take(k)),
    decreases items.len(),
{
    if k == items.len() {
        assert(items.take(k) =~= items);
    } else {
        assert(items.drop_last().take(k) =~= items.take(k));
        lemma_subtotal_fits_prefix(items.drop_last(), k);
    }
}

/// A tax bound for the whole list gives the same bound for each prefix.
pub proof fn lemma_tax_fits_prefix(sub: int, rates: Seq<TaxRate>, k: int)
    requires
        spec_tax_fits(sub, rates),
        0 <= k <= rates.len(),
    ensures
        spec_tax_fits(sub, rates.take(k)),
    decreases rates.len(),
{
    if k == rates.len() {
        assert(rates.take(k) =~= rates);
    } else {
        assert(rates.drop_last().take(k) =~= rates.take(k));
        lemma_tax_fits_prefix(sub, rates.drop_last(), k);
    }
}

/// Calculates invoice financial totals.
pub struct InvoiceCalculator;

impl InvoiceCalculator {
    /// The subtotal of the line items: the exact sum of quantity times
    /// unit price, in list order; empty input yields zero.
    pub fn subtotal(items: &[InvoiceItem]) -> (r: Money)
        requires
            spec_subtotal_fits(items@),
        ensures
            r.units == spec_subtotal(items@),
    {
        let mut acc = Money::zero();
        let mut i: usize = 0;
        while i < items.len()
            invariant
                i <= items@.len(),
                spec_subtotal_fits(items@),
                acc.units == spec_subtotal(items@.take(i as int)),
            decreases items@.len() - i,
        {
            proof {
                lemma_subtotal_fits_prefix(items@, i + 1);
                assert(items@.take(i + 1).drop_last() =~= items@.take(i as int));
                assert(items@.take(i + 1).last() == items@[i as int]);
            }
            let amount = items[i].quantity.mul(items[i].unit_price);
            acc = acc.add(amount);
            i = i + 1;
        }
        proof {
            assert(items@.take(items@.len() as int) =~= items@);
        }
        acc
    }

    /// Total tax from applying the rates to the subtotal, in list
    /// order, with the compound rule of the module description.
    pub fn tax_total(subtotal: Money, tax_rates: &[TaxRate]) -> (r: Money)
        requires
            spec_tax_fits(subtotal.units as int, tax_rates@),
        ensures
            r.units == spec_tax_total(subtotal.units as int, tax_rates@),
    {
        let mut base = subtotal;
        let mut total = Money::zero();
        let mut i: usize = 0;
        while i < tax_rates.len()
            invariant
                i <= tax_rates@.len(),
                spec_tax_fits(subtotal.units as int, tax_rates@),
                base.units == spec_tax(subtotal.units as int, tax_rates@.take(i as int)).0,
                total.units == spec_tax(subtotal.units as int, tax_rates@.take(i as int)).1,
            decreases tax_rates@.len() - i,
        {
            proof {
                lemma_tax_fits_prefix(subtotal.units as int, tax_rates@, i + 1);
                assert(tax_rates@.take(i + 1).drop_last() =~= tax_rates@.take(i as int));
                assert(tax_rates@.take(i + 1).last() == tax_rates@[i as int]);
            }
            let tax = if tax_rates[i].is_compound {
                base.apply_pct(tax_rates[i].rate)
            } else {
                subtotal.apply_pct(tax_rates[i].rate)
            };
            total = total.add(tax);
            if tax_rates[i].is_compound {
                base = base.add(tax);
            }
            i = i + 1;
        }
        proof {
            assert(tax_rates@.take(tax_rates@.len() as int) =~= tax_rates@);
        }
        total
    }

    /// The discount amount derived from the subtotal and the discount.
    pub fn discount_total(subtotal: Money, discount: &Option<DiscountType>) -> (r: Money)
        requires
            in_i64(spec_discount(subtotal.units as int, *discount)),
        ensures
            r.units == spec_discount(subtotal.units as int, *discount),
    {
        match discount {
            Option::Some(DiscountType::Percentage(p)) => subtotal.apply_pct(*p),
            Option::Some(DiscountType::FixedAmount(m)) => *m,
            Option::None => Money::zero(),
        }
    }

    /// Subtotal, tax, discount and the grand total
    /// `subtotal + tax - discount`, composed from the three parts.
    pub fn grand_total(
        items: &[InvoiceItem],
        tax_rates: &[TaxRate],
        discount: &Option<DiscountType>,
    ) -> (r: (Money, Money, Money, Money))
        requires
            spec_subtotal_fits(items@),
            spec_tax_fits(spec_subtotal(items@), tax_rates@),
            in_i64(spec_discount(spec_subtotal(items@), *discount)),
            in_i64(spec_subtotal(items@) + spec_tax_total(spec_subtotal(items@), tax_rates@)),
            in_i64(
                spec_subtotal(items@) + spec_tax_total(spec_subtotal(items@), tax_rates@)
                    - spec_discount(spec_subtotal(items@), *discount),
            ),
        ensures
            r.0.units == spec_subtotal(items@),
            r.1.units == spec_tax_total(r.0.units as int, tax_rates@),
            r.2.units == spec_discount(r.0.units as int, *discount),
            r.3.units == r.0.units + r.1.units - r.2.units,
    {
        let sub = Self::subtotal(items);
        let tax = Self::tax_total(sub, tax_rates);
        let disc = Self::discount_total(sub, discount);
        let total = sub.add(tax).sub(disc);
        (sub, tax, disc, total)
    }
}

} // verus!
