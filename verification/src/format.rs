//! Display formatting of currency amounts: the code-to-symbol mapping
//! and thousands grouping (Western three-by-three; Indian two-by-two
//! above the last three digits for INR), with two rounded fractional
//! digits.

use vstd::prelude::*;
use vstd::string::StrSliceExecFns;
use vstd::string::StringExecFns;

use crate::money::{rounded_div, spec_parse_money, Money};
use crate::text::{push_digits, push_padded, spec_digits, spec_padded, str_eq};

verus! {

/// The display symbol for a currency code; an unknown code passes
/// through unchanged.
pub open spec fn spec_currency_symbol(c: Seq<char>) -> Seq<char> {
    if c == "USD"@ {
        "$"@
    } else if c == "EUR"@ {
        "€"@
    } else if c == "GBP"@ {
        "£"@
    } else if c == "INR"@ {
        "₹"@
    } else if c == "AED"@ {
        "د.إ"@
    } else {
        c
    }
}

/// Digits grouped in threes from the right: `1234567` to `1,234,567`.
pub open spec fn spec_group_western(ds: Seq<char>) -> Seq<char>
    decreases ds.len(),
{
    if ds.len() <= 3 {
        ds
    } else {
        spec_group_western(ds.take(ds.len() - 3)) + seq![','] + ds.skip(ds.len() - 3)
    }
}

/// Digits grouped in twos from the right.
pub open spec fn spec_group_pairs(ds: Seq<char>) -> Seq<char>
    decreases ds.len(),
{
    if ds.len() <= 2 {
        ds
    } else {
        spec_group_pairs(ds.take(ds.len() - 2)) + seq![','] + ds.skip(ds.len() - 2)
    }
}

/// Indian grouping: the last three digits, then pairs: `1234567` to
/// `12,34,567`.
pub open spec fn spec_group_indian(ds: Seq<char>) -> Seq<char> {
    if ds.len() <= 3 {
        ds
    } else {
        spec_group_pairs(ds.take(ds.len() - 3)) + seq![','] + ds.skip(ds.len() - 3)
    }
}

/// What a formatted amount looks like: symbol, space, sign, grouped
/// integer part, point, two rounded fractional digits. An unparsable
/// amount formats as zero.
pub open spec fn spec_format_currency(amount: Seq<char>, currency: Seq<char>) -> Seq<char> {
    let units = match spec_parse_money(amount) {
        Option::Some(m) => m.units as int,
        Option::None => 0,
    };
    let neg = units < 0;
    let m = if neg {
        -units
    } else {
        units
    };
    let whole = m / 10000;
    let cents = rounded_div(m % 10000, 100);
    let grouped = if currency == "INR"@ {
        spec_group_indian(spec_digits(whole))
    } else {
        spec_group_western(spec_digits(whole))
    };
    let signed = if neg {
        seq!['-'] + grouped
    } else {
        grouped
    };
    spec_currency_symbol(currency) + seq![' '] + signed + seq!['.'] + spec_padded(cents, 2)
}

/// The display symbol for a currency code.
pub fn currency_symbol(currency: &str) -> (r: String)
    ensures
        r@ == spec_currency_symbol(currency@),
{
    if str_eq(currency, "USD") {
        "$".to_owned()
    } else if str_eq(currency, "EUR") {
        "€".to_owned()
    } else if str_eq(currency, "GBP") {
        "£".to_owned()
    } else if str_eq(currency, "INR") {
        "₹".to_owned()
    } else if str_eq(currency, "AED") {
        "د.إ".to_owned()
    } else {
        currency.to_owned()
    }
}

/// Groups digits in threes from the right.
fn group_western(ds: &str) -> (r: String)
    ensures
        r@ == spec_group_western(ds@),
    decreases ds@.len(),
{
    proof {
        reveal_strlit(",");
    }
    let n = ds.unicode_len();
    if n <= 3 {
        ds.to_owned()
    } else {
        let head = ds.substring_char(0, n - 3);
        let tail = ds.substring_char(n - 3, n);
        let mut r = group_western(head);
        r.append(",");
        r.append(tail);
        proof {
            assert(head@ =~= ds@.take(ds@.len() - 3));
            assert(tail@ =~= ds@.skip(ds@.len() - 3));
            assert(r@ =~= spec_group_western(ds@));
        }
        r
    }
}

/// Groups digits in twos from the right.
fn group_pairs(ds: &str) -> (r: String)
    ensures
        r@ == spec_group_pairs(ds@),
    decreases ds@.len(),
{
    proof {
        reveal_strlit(",");
    }
    let n = ds.unicode_len();
    if n <= 2 {
        ds.to_owned()
    } else {
        let head = ds.substring_char(0, n - 2);
        let tail = ds.substring_char(n - 2, n);
        let mut r = group_pairs(head);
        r.append(",");
        r.append(tail);
        proof {
            assert(head@ =~= ds@.take(ds@.len() - 2));
            assert(tail@ =~= ds@.skip(ds@.len() - 2));
            assert(r@ =~= spec_group_pairs(ds@));
        }
        r
    }
}

/// Indian grouping: the last three digits, then pairs.
fn group_indian(ds: &str) -> (r: String)
    ensures
        r@ == spec_group_indian(ds@),
{
    proof {
        reveal_strlit(",");
    }
    let n = ds.unicode_len();
    if n <= 3 {
        ds.to_owned()
    } else {
        let head = ds.substring_char(0, n - 3);
        let tail = ds.substring_char(n - 3, n);
        let mut r = group_pairs(head);
        r.append(",");
        r.append(tail);
        proof {
            assert(head@ =~= ds@.take(ds@.len() - 3));
            assert(tail@ =~= ds@.skip(ds@.len() - 3));
            assert(r@ =~= spec_group_indian(ds@));
        }
        r
    }
}

/// Formats a decimal amount for display in the given currency:
/// symbol, grouped integer part and two rounded fractional digits; an
/// unparsable amount formats as zero.
pub fn format_currency(amount: &str, currency: &str) -> (r: String)
    ensures
        r@ == spec_format_currency(amount@, currency@),
{
    proof {
        reveal_strlit(" ");
        reveal_strlit("-");
        reveal_strlit(".");
    }
    let parsed = match Money::from_decimal_str(amount) {
        Option::Some(m) => m,
        Option::None => Money::zero(),
    };
    let units = parsed.units;
    let neg = units < 0;
    let m: u64 = if neg {
        (-(units as i128)) as u64
    } else {
        units as u64
    };
    let whole = m / 10000;
    let frac = m % 10000;
    let cents = (frac + 50) / 100;
    let mut digits = String::new();
    push_digits(whole, &mut digits);
    let grouped = if str_eq(currency, "INR") {
        group_indian(digits.as_str())
    } else {
        group_western(digits.as_str())
    };
    let mut out = currency_symbol(currency);
    out.append(" ");
    if neg {
        out.append("-");
    }
    out.append(grouped.as_str());
    out.append(".");
    push_padded(cents, 2, &mut out);
    proof {
        assert(out@ =~= spec_format_currency(amount@, currency@));
    }
    out
}

} // verus!
