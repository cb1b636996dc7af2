//! Sequential, human-readable invoice numbers:
//! `{prefix}-{year}-{sequence}` with the sequence zero-padded to five
//! digits. The generator is a pure function of the count of invoices
//! already created; under concurrent creation two callers can read
//! the same count, so the store treats the result as a proposal and
//! enforces true uniqueness itself.

use vstd::prelude::*;
use vstd::string::StringExecFns;

use crate::external::current_year_utc;
use crate::text::{push_padded, spec_padded};

verus! {

/// The invoice number built from a prefix, a year and a sequence
/// number: the year zero-padded to four digits (with a leading minus
/// for years before year zero), the sequence to five.
pub open spec fn spec_invoice_number(prefix: Seq<char>, year: int, seq_no: int) -> Seq<char> {
    let year_part = if year < 0 {
        seq!['-'] + spec_padded(-year, 4)
    } else {
        spec_padded(year, 4)
    };
    prefix + seq!['-'] + year_part + seq!['-'] + spec_padded(seq_no, 5)
}

/// Generates sequential invoice numbers with a configurable prefix.
pub struct InvoiceNumberGenerator {
    prefix: String,
}

impl InvoiceNumberGenerator {
    /// The configured prefix.
    pub closed spec fn spec_prefix(&self) -> Seq<char> {
        self.prefix@
    }

    /// A generator with the given prefix.
    pub fn new(prefix: &str) -> (r: Self)
        ensures
            r.spec_prefix() == prefix@,
    {
        InvoiceNumberGenerator { prefix: prefix.to_owned() }
    }

    /// The number proposed after `current_count` invoices, for the
    /// current UTC year: sequence `current_count + 1`.
    pub fn next(&self, current_count: u64) -> (r: String)
        requires
            current_count < u64::MAX,
        ensures
            exists|y: int|
                -9999999999 <= y <= 9999999999 && r@ == #[trigger] spec_invoice_number(
                    self.spec_prefix(),
                    y,
                    current_count as int + 1,
                ),
    {
        let year = current_year_utc();
        let clamped: i64 = if year < -9999999999i64 {
            -9999999999i64
        } else if year > 9999999999i64 {
            9999999999i64
        } else {
            year
        };
        let r = self.next_in_year(current_count, clamped);
        proof {
            assert(r@ == spec_invoice_number(
                self.spec_prefix(),
                clamped as int,
                current_count as int + 1,
            ));
        }
        r
    }

    /// The number for a given year: deterministic in all arguments.
    pub fn next_in_year(&self, current_count: u64, year: i64) -> (r: String)
        requires
            current_count < u64::MAX,
            -9999999999 <= year <= 9999999999,
        ensures
            r@ == spec_invoice_number(self.spec_prefix(), year as int, current_count as int + 1),
    {
        proof {
            reveal_strlit("-");
        }
        let seq_no = current_count + 1;
        let mut s = self.prefix.clone();
        s.append("-");
        if year < 0 {
            s.append("-");
            push_padded((-year) as u64, 4, &mut s);
        } else {
            push_padded(year as u64, 4, &mut s);
        }
        s.append("-");
        push_padded(seq_no, 5, &mut s);
        proof {
            assert(s@ =~= spec_invoice_number(
                self.spec_prefix(),
                year as int,
                current_count as int + 1,
            ));
        }
        s
    }
}

impl Default for InvoiceNumberGenerator {
    /// The default generator, with prefix `INV`.
    fn default() -> (r: Self)
        ensures
            r.spec_prefix() == "INV"@,
    {
        InvoiceNumberGenerator::new("INV")
    }
}

} // verus!
