//! Read-only revenue aggregation over the store's invoices: sums and
//! counts grouped by status. Revenue is the grand total of paid
//! invoices; outstanding is the amount due on invoices that are still
//! open (neither paid nor cancelled); overdue is the amount due on
//! overdue invoices.

use vstd::prelude::*;

use crate::models::Invoice;
use crate::money::{in_i64, Money};
use crate::store::{Database, StoreError};
use crate::types::InvoiceStatus;

verus! {

/// Aggregate revenue figures.
#[derive(Clone, Copy, PartialEq, Eq, Structural, Debug)]
pub struct RevenueMetrics {
    pub total_revenue: Money,
    pub total_outstanding: Money,
    pub total_overdue: Money,
    pub invoice_count: u64,
    pub paid_count: u64,
    pub overdue_count: u64,
}

impl Default for RevenueMetrics {
    /// All-zero metrics.
    fn default() -> (r: RevenueMetrics)
        ensures
            r.total_revenue.units == 0,
            r.total_outstanding.units == 0,
            r.total_overdue.units == 0,
            r.invoice_count == 0,
            r.paid_count == 0,
            r.overdue_count == 0,
    {
        RevenueMetrics {
            total_revenue: Money::zero(),
            total_outstanding: Money::zero(),
            total_overdue: Money::zero(),
            invoice_count: 0,
            paid_count: 0,
            overdue_count: 0,
        }
    }
}

/// Whether an invoice still awaits payment.
pub open spec fn spec_is_open(inv: Invoice) -> bool {
    inv.status != InvoiceStatus::Paid && inv.status != InvoiceStatus::Cancelled
}

/// Sum of the grand totals of paid invoices.
pub open spec fn spec_revenue(invs: Seq<Invoice>) -> int
    decreases invs.len(),
{
    if invs.len() == 0 {
        0
    } else {
        spec_revenue(invs.drop_last()) + if invs.last().status == InvoiceStatus::Paid {
            invs.last().total.units as int
        } else {
            0
        }
    }
}

/// Sum of the amounts due on open invoices.
pub open spec fn spec_outstanding(invs: Seq<Invoice>) -> int
    decreases invs.len(),
{
    if invs.len() == 0 {
        0
    } else {
        spec_outstanding(invs.drop_last()) + if spec_is_open(invs.last()) {
            invs.last().amount_due.units as int
        } else {
            0
        }
    }
}

/// Sum of the amounts due on overdue invoices.
pub open spec fn spec_overdue(invs: Seq<Invoice>) -> int
    decreases invs.len(),
{
    if invs.len() == 0 {
        0
    } else {
        spec_overdue(invs.drop_last()) + if invs.last().status == InvoiceStatus::Overdue {
            invs.last().amount_due.units as int
        } else {
            0
        }
    }
}

/// How many invoices carry the given status.
pub open spec fn spec_status_count(invs: Seq<Invoice>, st: InvoiceStatus) -> int
    decreases invs.len(),
{
    if invs.len() == 0 {
        0
    } else {
        spec_status_count(invs.drop_last(), st) + if invs.last().status == st {
            1int
        } else {
            0
        }
    }
}

/// Computes revenue aggregations over the store.
pub struct AnalyticsEngine;

impl AnalyticsEngine {
    /// A handle on the analytics queries.
    pub fn new() -> (r: Self) {
        AnalyticsEngine
    }

    /// The revenue metrics over every stored invoice; `Invalid` when a
    /// sum does not fit the money range.
    #[verifier::loop_isolation(false)]
    pub fn get_revenue_metrics(&self, db: &Database) -> (r: Result<RevenueMetrics, StoreError>)
        requires
            db.invoices@.len() <= 0xffffffffffffffff,
        ensures
            match r {
                Result::Ok(m) => ({
                    &&& m.total_revenue.units == spec_revenue(db.invoices@)
                    &&& m.total_outstanding.units == spec_outstanding(db.invoices@)
                    &&& m.total_overdue.units == spec_overdue(db.invoices@)
                    &&& m.invoice_count == db.invoices@.len()
                    &&& m.paid_count == spec_status_count(db.invoices@, InvoiceStatus::Paid)
                    &&& m.overdue_count == spec_status_count(
                        db.invoices@,
                        InvoiceStatus::Overdue,
                    )
                }),
                Result::Err(e) => ({
                    &&& e == StoreError::Invalid
                    &&& !(in_i64(spec_revenue(db.invoices@)) && in_i64(
                        spec_outstanding(db.invoices@),
                    ) && in_i64(spec_overdue(db.invoices@)))
                }),
            },
    {
        let n = db.invoices.len();
        let mut revenue: i128 = 0;
        let mut outstanding: i128 = 0;
        let mut overdue: i128 = 0;
        let mut paid_count: u64 = 0;
        let mut overdue_count: u64 = 0;
        let mut i: usize = 0;
        while i < n
            invariant
                i <= n,
                revenue == spec_revenue(db.invoices@.take(i as int)),
                outstanding == spec_outstanding(db.invoices@.take(i as int)),
                overdue == spec_overdue(db.invoices@.take(i as int)),
                paid_count == spec_status_count(db.invoices@.take(i as int), InvoiceStatus::Paid),
                overdue_count == spec_status_count(
                    db.invoices@.take(i as int),
                    InvoiceStatus::Overdue,
                ),
                -((i as i128) * 0x8000000000000000) <= revenue <= (i as i128)
                    * 0x8000000000000000,
                -((i as i128) * 0x8000000000000000) <= outstanding <= (i as i128)
                    * 0x8000000000000000,
                -((i as i128) * 0x8000000000000000) <= overdue <= (i as i128)
                    * 0x8000000000000000,
                paid_count <= i,
                overdue_count <= i,
            decreases n - i,
        {
            proof {
                assert(db.invoices@.take(i + 1).drop_last() =~= db.invoices@.take(i as int));
                assert(db.invoices@.take(i + 1).last() == db.invoices@[i as int]);
            }
            let inv = &db.invoices[i];
            let is_paid = matches!(inv.status, InvoiceStatus::Paid);
            let is_cancelled = matches!(inv.status, InvoiceStatus::Cancelled);
            let is_overdue = matches!(inv.status, InvoiceStatus::Overdue);
            if is_paid {
                revenue = revenue + inv.total.units as i128;
                paid_count = paid_count + 1;
            }
            if !is_paid && !is_cancelled {
                outstanding = outstanding + inv.amount_due.units as i128;
            }
            if is_overdue {
                overdue = overdue + inv.amount_due.units as i128;
                overdue_count = overdue_count + 1;
            }
            i = i + 1;
        }
        proof {
            assert(db.invoices@.take(n as int) =~= db.invoices@);
        }
        let lo: i128 = -0x8000000000000000i128;
        let hi: i128 = 0x7fffffffffffffffi128;
        if revenue < lo || revenue > hi || outstanding < lo || outstanding > hi || overdue < lo
            || overdue > hi {
            return Result::Err(StoreError::Invalid);
        }
        Result::Ok(
            RevenueMetrics {
                total_revenue: Money::from_units(revenue as i64),
                total_outstanding: Money::from_units(outstanding as i64),
                total_overdue: Money::from_units(overdue as i64),
                invoice_count: n as u64,
                paid_count,
                overdue_count,
            },
        )
    }
}

} // verus!
