//! Calendar dates in the proleptic Gregorian calendar, restricted to
//! four-digit years, with `YYYY-MM-DD` parsing and formatting and
//! day-stepping arithmetic (saturating at 9999-12-31).

use vstd::prelude::*;
use vstd::string::StrSliceExecFns;
use vstd::string::StringExecFns;

use crate::text::{
    all_digits, digits_val, lemma_digits_val_bound, lemma_pow10_vals, parse_digits_range,
    push_padded, spec_padded,
};

verus! {

/// A calendar date.
#[derive(Clone, Copy, PartialEq, Eq, Structural, Debug)]
pub struct Date {
    pub year: u32,
    pub month: u32,
    pub day: u32,
}

/// Gregorian leap-year rule.
pub open spec fn spec_is_leap_year(y: int) -> bool {
    (y % 4 == 0 && y % 100 != 0) || y % 400 == 0
}

/// Days in a month of a given year.
pub open spec fn spec_days_in_month(y: int, m: int) -> int {
    if m == 2 {
        if spec_is_leap_year(y) {
            29
        } else {
            28
        }
    } else if m == 4 || m == 6 || m == 9 || m == 11 {
        30
    } else {
        31
    }
}

/// A valid date: four-digit year, real month, real day of that month.
pub open spec fn date_valid(d: Date) -> bool {
    &&& 1 <= d.year <= 9999
    &&& 1 <= d.month <= 12
    &&& 1 <= d.day <= spec_days_in_month(d.year as int, d.month as int)
}

/// The day after `d`, staying at 9999-12-31 once the calendar ends.
pub open spec fn spec_next_day(d: Date) -> Date {
    if d.day < spec_days_in_month(d.year as int, d.month as int) {
        Date { year: d.year, month: d.month, day: (d.day + 1) as u32 }
    } else if d.month < 12 {
        Date { year: d.year, month: (d.month + 1) as u32, day: 1 }
    } else if d.year < 9999 {
        Date { year: (d.year + 1) as u32, month: 1, day: 1 }
    } else {
        d
    }
}

/// `d` stepped forward by `n` days (saturating).
pub open spec fn spec_add_days(d: Date, n: nat) -> Date
    decreases n,
{
    if n == 0 {
        d
    } else {
        spec_next_day(spec_add_days(d, (n - 1) as nat))
    }
}

/// The `YYYY-MM-DD` rendering of a date.
pub open spec fn spec_date_string(d: Date) -> Seq<char> {
    spec_padded(d.year as int, 4) + seq!['-'] + spec_padded(d.month as int, 2) + seq!['-']
        + spec_padded(d.day as int, 2)
}

/// What `YYYY-MM-DD` parsing yields: the date, when the text has
/// exactly that shape and names a valid date; nothing otherwise.
pub open spec fn spec_parse_date(s: Seq<char>) -> Option<Date> {
    if s.len() == 10 && s[4] == '-' && s[7] == '-' && all_digits(s.subrange(0, 4)) && all_digits(
        s.subrange(5, 7),
    ) && all_digits(s.subrange(8, 10)) {
        let d = Date {
            year: digits_val(s.subrange(0, 4)) as u32,
            month: digits_val(s.subrange(5, 7)) as u32,
            day: digits_val(s.subrange(8, 10)) as u32,
        };
        if date_valid(d) {
            Some(d)
        } else {
            None
        }
    } else {
        None
    }
}

/// Days in a month of a given year.
pub fn days_in_month(year: u32, month: u32) -> (r: u32)
    ensures
        r == spec_days_in_month(year as int, month as int),
{
    if month == 2 {
        if (year % 4 == 0 && year % 100 != 0) || year % 400 == 0 {
            29
        } else {
            28
        }
    } else if month == 4 || month == 6 || month == 9 || month == 11 {
        30
    } else {
        31
    }
}

impl Date {
    /// Whether this is a valid calendar date.
    pub fn is_valid(&self) -> (r: bool)
        ensures
            r == date_valid(*self),
    {
        if self.year < 1 || self.year > 9999 || self.month < 1 || self.month > 12 {
            return false;
        }
        self.day >= 1 && self.day <= days_in_month(self.year, self.month)
    }

    /// The nearest valid date: each field clamped into its range. A
    /// valid input comes back unchanged.
    pub fn clamped(year: i64, month: i64, day: i64) -> (r: Date)
        ensures
            date_valid(r),
            (1 <= year <= 9999 && 1 <= month <= 12 && 1 <= day <= spec_days_in_month(
                year as int,
                month as int,
            )) ==> r == (Date { year: year as u32, month: month as u32, day: day as u32 }),
    {
        let y: u32 = if year < 1 {
            1
        } else if year > 9999 {
            9999
        } else {
            year as u32
        };
        let m: u32 = if month < 1 {
            1
        } else if month > 12 {
            12
        } else {
            month as u32
        };
        let dim = days_in_month(y, m);
        let d: u32 = if day < 1 {
            1
        } else if day > dim as i64 {
            dim
        } else {
            day as u32
        };
        Date { year: y, month: m, day: d }
    }

    /// The next calendar day (saturating at 9999-12-31).
    pub fn next_day(self) -> (r: Date)
        requires
            date_valid(self),
        ensures
            r == spec_next_day(self),
            date_valid(r),
    {
        let dim = days_in_month(self.year, self.month);
        if self.day < dim {
            Date { year: self.year, month: self.month, day: self.day + 1 }
        } else if self.month < 12 {
            Date { year: self.year, month: self.month + 1, day: 1 }
        } else if self.year < 9999 {
            Date { year: self.year + 1, month: 1, day: 1 }
        } else {
            self
        }
    }

    /// This date stepped forward by `n` days (saturating).
    pub fn add_days(self, n: u64) -> (r: Date)
        requires
            date_valid(self),
        ensures
            r == spec_add_days(self, n as nat),
            date_valid(r),
    {
        let mut cur = self;
        let mut i: u64 = 0;
        while i < n
            invariant
                i <= n,
                date_valid(cur),
                cur == spec_add_days(self, i as nat),
            decreases n - i,
        {
            cur = cur.next_day();
            i = i + 1;
        }
        cur
    }

    /// Renders this date as `YYYY-MM-DD`.
    pub fn format_ymd(&self) -> (r: String)
        ensures
            r@ == spec_date_string(*self),
    {
        proof {
            reveal_strlit("-");
        }
        let mut s = String::new();
        push_padded(self.year as u64, 4, &mut s);
        s.append("-");
        push_padded(self.month as u64, 2, &mut s);
        s.append("-");
        push_padded(self.day as u64, 2, &mut s);
        proof {
            assert(s@ =~= spec_date_string(*self));
        }
        s
    }

    /// Parses a `YYYY-MM-DD` string into a valid date.
    pub fn parse_ymd(s: &str) -> (r: Option<Date>)
        ensures
            r == spec_parse_date(s@),
    {
        let n = s.unicode_len();
        if n != 10 {
            return None;
        }
        if s.get_char(4) != '-' || s.get_char(7) != '-' {
            return None;
        }
        let year = match parse_digits_range(s, 0, 4) {
            Some(v) => v,
            None => {
                return None;
            },
        };
        let month = match parse_digits_range(s, 5, 7) {
            Some(v) => v,
            None => {
                return None;
            },
        };
        let day = match parse_digits_range(s, 8, 10) {
            Some(v) => v,
            None => {
                return None;
            },
        };
        proof {
            lemma_pow10_vals();
            lemma_digits_val_bound(s@.subrange(0, 4));
            lemma_digits_val_bound(s@.subrange(5, 7));
            lemma_digits_val_bound(s@.subrange(8, 10));
        }
        let d = Date { year: year as u32, month: month as u32, day: day as u32 };
        if d.is_valid() {
            Some(d)
        } else {
            None
        }
    }
}

} // verus!
