//! Exact base-10 fixed-point arithmetic for quantities, prices, rates and
//! totals. A `Money` value is a signed count of ten-thousandths (scale 4),
//! which covers currency minor units (two decimal places) as well as
//! fractional quantities such as hours. Division (percentage application)
//! rounds half away from zero, once per computed quantity.

use vstd::prelude::*;
use vstd::string::StrSliceExecFns;
use vstd::string::StringExecFns;

use crate::text::{
    all_digits, digits_val, is_digit_char, lemma_digits_val_bound, lemma_pow10_vals,
    parse_digits_range, pow10,
    push_digits, push_padded, spec_digits, spec_padded,
};

verus! {

/// Fixed-point units per whole: values are counts of 1/10000.
pub const UNITS_PER_WHOLE: i64 = 10000;

/// `n / d` rounded half away from zero (`d > 0`, `d` even).
pub open spec fn rounded_div(n: int, d: int) -> int
    recommends
        d > 0,
{
    if n >= 0 {
        (n + d / 2) / d
    } else {
        -((-n + d / 2) / d)
    }
}

/// Whether a mathematical integer is representable as an `i64`.
pub open spec fn in_i64(n: int) -> bool {
    i64::MIN <= n <= i64::MAX
}

/// The product of two scale-4 values, in scale-4 units:
/// `(a * b) / 10000`, rounded half away from zero.
pub open spec fn mul_val(a: int, b: int) -> int {
    rounded_div(a * b, 10000)
}

/// `base * rate / 100` (percentage application), rounded half away from
/// zero to whole hundredths (scale 2), expressed in scale-4 units.
pub open spec fn pct_val(base: int, rate: int) -> int {
    rounded_div(base * rate, 100000000) * 100
}

/// Index of the first point in `s`, or its length if it has none.
pub open spec fn dot_index(s: Seq<char>) -> int
    decreases s.len(),
{
    if s.len() == 0 {
        0
    } else if s[0] == '.' {
        0
    } else {
        1 + dot_index(s.skip(1))
    }
}

/// The first-point index lies within the sequence.
pub proof fn lemma_dot_index_le(s: Seq<char>)
    ensures
        0 <= dot_index(s) <= s.len(),
    decreases s.len(),
{
    if s.len() > 0 && s[0] != '.' {
        lemma_dot_index_le(s.skip(1));
    }
}

/// A position with no point before it, and a point or the end at it,
/// is the first-point index.
pub proof fn lemma_dot_index_is(s: Seq<char>, k: int)
    requires
        0 <= k <= s.len(),
        forall|i: int| 0 <= i < k ==> s[i] != '.',
        k < s.len() ==> s[k] == '.',
    ensures
        dot_index(s) == k,
    decreases s.len(),
{
    if s.len() == 0 {
    } else if s[0] == '.' {
    } else {
        let t = s.skip(1);
        assert(forall|i: int| 0 <= i < k - 1 ==> t[i] == s[i + 1]);
        assert(k - 1 < t.len() ==> t[k - 1] == s[k]);
        lemma_dot_index_is(t, k - 1);
    }
}

/// `m` with the sign that `neg` asks for.
pub open spec fn signed_val(neg: bool, m: int) -> int {
    if neg {
        -m
    } else {
        m
    }
}

/// The scale-4 value read from a decimal string, before any range
/// check: an optional minus sign, at least one whole digit, and
/// optionally a point followed by one to four fractional digits.
pub open spec fn spec_money_units(s: Seq<char>) -> Option<int> {
    let neg = s.len() > 0 && s[0] == '-';
    let body = if neg {
        s.skip(1)
    } else {
        s
    };
    let di = dot_index(body);
    let int_part = body.take(di);
    if int_part.len() < 1 || !all_digits(int_part) {
        Option::None
    } else if di == body.len() {
        Option::Some(signed_val(neg, digits_val(int_part) * 10000))
    } else {
        let frac = body.skip(di + 1);
        if 1 <= frac.len() <= 4 && all_digits(frac) {
            Option::Some(
                signed_val(
                    neg,
                    digits_val(int_part) * 10000 + digits_val(frac) * pow10(4 - frac.len() as int),
                ),
            )
        } else {
            Option::None
        }
    }
}

/// What decimal parsing yields: the value, when the text is well
/// formed and the value representable; nothing otherwise.
pub open spec fn spec_parse_money(s: Seq<char>) -> Option<Money> {
    match spec_money_units(s) {
        Option::Some(u) => if in_i64(u) {
            Option::Some(Money { units: u as i64 })
        } else {
            Option::None
        },
        Option::None => Option::None,
    }
}

/// A whole part reading as fifteen digits' worth or more is past any
/// representable scale-4 value.
pub proof fn lemma_units_out_of_range(s: Seq<char>)
    requires
        ({
            let neg = s.len() > 0 && s[0] == '-';
            let body = if neg {
                s.skip(1)
            } else {
                s
            };
            digits_val(body.take(dot_index(body))) >= 1000000000000000
        }),
    ensures
        spec_parse_money(s) == Option::<Money>::None,
{
    let neg = s.len() > 0 && s[0] == '-';
    let body = if neg {
        s.skip(1)
    } else {
        s
    };
    lemma_dot_index_le(body);
    let di = dot_index(body);
    let int_part = body.take(di);
    let dv = digits_val(int_part);
    if int_part.len() >= 1 && all_digits(int_part) {
        if di == body.len() {
        } else {
            let frac = body.skip(di + 1);
            if 1 <= frac.len() <= 4 && all_digits(frac) {
                lemma_digits_val_bound(frac);
                crate::text::lemma_pow10_pos(4 - frac.len() as int);
                assert(digits_val(frac) * pow10(4 - frac.len() as int) >= 0) by (nonlinear_arith)
                    requires
                        digits_val(frac) >= 0,
                        pow10(4 - frac.len() as int) >= 0,
                ;
            }
        }
    }
}

/// The canonical decimal rendering of a scale-4 value: sign, whole
/// part, point, and two fractional digits — four where the value is
/// not whole hundredths.
pub open spec fn spec_money_string(units: int) -> Seq<char> {
    let sign: Seq<char> = if units < 0 {
        seq!['-']
    } else {
        Seq::<char>::empty()
    };
    let m = if units < 0 {
        -units
    } else {
        units
    };
    let whole = m / 10000;
    let frac = m % 10000;
    let frac_part = if frac % 100 == 0 {
        spec_padded(frac / 100, 2)
    } else {
        spec_padded(frac, 4)
    };
    sign + spec_digits(whole) + seq!['.'] + frac_part
}

/// An exact decimal number at scale 4: the represented value is
/// `units / 10000`.
#[derive(Clone, Copy, PartialEq, Eq, Structural, Debug)]
pub struct Money {
    pub units: i64,
}

/// Law (round trip): the decimal rendering of a value parses back to
/// exactly that value.
pub proof fn lemma_money_string_round_trip(m: Money)
    ensures
        spec_parse_money(spec_money_string(m.units as int)) == Option::Some(m),
{
    let units = m.units as int;
    let neg = units < 0;
    let mag = if neg {
        -units
    } else {
        units
    };
    vstd::arithmetic::div_mod::lemma_fundamental_div_mod(mag, 10000);
    vstd::arithmetic::div_mod::lemma_mod_pos_bound(mag, 10000);
    vstd::arithmetic::div_mod::lemma_div_pos_is_pos(mag, 10000);
    let whole = mag / 10000;
    let frac = mag % 10000;
    vstd::arithmetic::div_mod::lemma_fundamental_div_mod(frac, 100);
    vstd::arithmetic::div_mod::lemma_mod_pos_bound(frac, 100);
    vstd::arithmetic::div_mod::lemma_div_pos_is_pos(frac, 100);
    let dw = spec_digits(whole);
    crate::text::lemma_digits_roundtrip(whole);
    crate::text::lemma_digits_len(whole);
    let two_digit = frac % 100 == 0;
    let fval = if two_digit {
        frac / 100
    } else {
        frac
    };
    let fw = if two_digit {
        2int
    } else {
        4int
    };
    let fp = if two_digit {
        spec_padded(frac / 100, 2)
    } else {
        spec_padded(frac, 4)
    };
    crate::text::lemma_digits_len(fval);
    crate::text::lemma_padded_roundtrip(fval, fw);
    assert(spec_digits(fval).len() <= fw);
    assert(fp.len() == fw);
    crate::text::lemma_pow10_vals();

    let s = spec_money_string(units);
    let body = dw + seq!['.'] + fp;
    if neg {
        assert(s =~= seq!['-'] + body);
        assert(s[0] == '-');
        assert(s.skip(1) =~= body);
    } else {
        assert(s =~= body);
        assert(s[0] == dw[0]);
        assert(crate::text::is_digit_char(dw[0]));
        assert(s[0] != '-');
    }
    assert forall|i: int| 0 <= i < dw.len() implies body[i] != '.' by {
        assert(body[i] == dw[i]);
        assert(crate::text::is_digit_char(dw[i]));
    }
    assert(body[dw.len() as int] == '.');
    lemma_dot_index_is(body, dw.len() as int);
    assert(body.take(dw.len() as int) =~= dw);
    assert(body.skip(dw.len() as int + 1) =~= fp);
    assert(digits_val(body.take(dw.len() as int)) == whole);
    assert(digits_val(body.skip(dw.len() as int + 1)) == fval);
    if two_digit {
        assert(fval * pow10(4 - fp.len() as int) == (frac / 100) * 100);
        assert((frac / 100) * 100 == frac);
    } else {
        assert(fval * pow10(4 - fp.len() as int) == frac);
    }
    assert(whole * 10000 + frac == mag);
    assert(spec_money_units(s) == Option::Some(signed_val(neg, mag)));
    assert(signed_val(neg, mag) == units);
    assert(in_i64(units));
}

/// The product of two `i64` values stays strictly inside the `i128` range.
pub proof fn lemma_i64_product_bound(a: int, b: int)
    requires
        i64::MIN <= a <= i64::MAX,
        i64::MIN <= b <= i64::MAX,
    ensures
        -0x40000000000000000000000000000000 <= a * b
            <= 0x40000000000000000000000000000000,
{
    assert(-0x40000000000000000000000000000000 <= a * b
        <= 0x40000000000000000000000000000000) by (nonlinear_arith)
        requires
            -0x8000000000000000 <= a <= 0x7fffffffffffffff,
            -0x8000000000000000 <= b <= 0x7fffffffffffffff,
    ;
}

/// `n / d` rounded half away from zero, for non-negative `n`.
fn div_round_half_u128(n: u128, d: u128) -> (r: u128)
    requires
        0 < d,
        n <= u128::MAX - d,
    ensures
        r == rounded_div(n as int, d as int),
{
    (n + d / 2) / d
}

/// Signed rounded division by a positive even constant, on an `i128`
/// whose magnitude is at most `2^126`.
fn div_round_half_i128(n: i128, d: u128) -> (r: i128)
    requires
        0 < d <= 0x10000000000000000,
        -0x40000000000000000000000000000000 <= n <= 0x40000000000000000000000000000000,
    ensures
        r == rounded_div(n as int, d as int),
{
    if n >= 0 {
        let q = div_round_half_u128(n as u128, d);
        q as i128
    } else {
        let q = div_round_half_u128((-n) as u128, d);
        -(q as i128)
    }
}

impl Money {
    /// The zero value.
    pub fn zero() -> (r: Money)
        ensures
            r.units == 0,
    {
        Money { units: 0 }
    }

    /// The value `units / 10000`.
    pub fn from_units(units: i64) -> (r: Money)
        ensures
            r.units == units,
    {
        Money { units }
    }

    /// The whole number `n`, e.g. a percentage rate given as an integer.
    pub fn from_whole(n: i64) -> (r: Money)
        requires
            -922337203685477 <= n <= 922337203685477,
        ensures
            r.units == n * UNITS_PER_WHOLE,
    {
        Money { units: n * UNITS_PER_WHOLE }
    }

    /// Exact addition.
    pub fn add(self, rhs: Money) -> (r: Money)
        requires
            in_i64(self.units + rhs.units),
        ensures
            r.units == self.units + rhs.units,
    {
        Money { units: self.units + rhs.units }
    }

    /// Exact subtraction.
    pub fn sub(self, rhs: Money) -> (r: Money)
        requires
            in_i64(self.units - rhs.units),
        ensures
            r.units == self.units - rhs.units,
    {
        Money { units: self.units - rhs.units }
    }

    /// Addition that reports instead of overflowing.
    pub fn checked_add(self, rhs: Money) -> (r: Option<Money>)
        ensures
            match r {
                Some(m) => m.units == self.units + rhs.units,
                None => !in_i64(self.units + rhs.units),
            },
    {
        match self.units.checked_add(rhs.units) {
            Some(u) => Some(Money { units: u }),
            None => None,
        }
    }

    /// Subtraction that reports instead of overflowing.
    pub fn checked_sub(self, rhs: Money) -> (r: Option<Money>)
        ensures
            match r {
                Some(m) => m.units == self.units - rhs.units,
                None => !in_i64(self.units - rhs.units),
            },
    {
        match self.units.checked_sub(rhs.units) {
            Some(u) => Some(Money { units: u }),
            None => None,
        }
    }

    /// Multiplication of two scale-4 values, rounded to scale 4.
    pub fn mul(self, rhs: Money) -> (r: Money)
        requires
            in_i64(mul_val(self.units as int, rhs.units as int)),
        ensures
            r.units == mul_val(self.units as int, rhs.units as int),
    {
        proof {
            lemma_i64_product_bound(self.units as int, rhs.units as int);
        }
        let p: i128 = (self.units as i128) * (rhs.units as i128);
        let q = div_round_half_i128(p, 10000);
        Money { units: q as i64 }
    }

    /// Multiplication that reports instead of overflowing.
    pub fn checked_mul(self, rhs: Money) -> (r: Option<Money>)
        ensures
            match r {
                Some(m) => m.units == mul_val(self.units as int, rhs.units as int),
                None => !in_i64(mul_val(self.units as int, rhs.units as int)),
            },
    {
        proof {
            lemma_i64_product_bound(self.units as int, rhs.units as int);
        }
        let p: i128 = (self.units as i128) * (rhs.units as i128);
        let q = div_round_half_i128(p, 10000);
        if -0x8000000000000000i128 <= q && q <= 0x7fffffffffffffffi128 {
            Some(Money { units: q as i64 })
        } else {
            None
        }
    }

    /// `self * rate / 100`, rounded half away from zero to whole
    /// hundredths: percentage application for taxes and discounts.
    pub fn apply_pct(self, rate: Money) -> (r: Money)
        requires
            in_i64(pct_val(self.units as int, rate.units as int)),
        ensures
            r.units == pct_val(self.units as int, rate.units as int),
    {
        proof {
            lemma_i64_product_bound(self.units as int, rate.units as int);
        }
        let p: i128 = (self.units as i128) * (rate.units as i128);
        let h = div_round_half_i128(p, 100000000);
        Money { units: (h * 100) as i64 }
    }

    /// Renders this value as a decimal string: a minus sign for
    /// negative values, the whole part, a point, and two fractional
    /// digits — four where the value is not whole hundredths.
    pub fn to_decimal_string(&self) -> (r: String)
        ensures
            r@ == spec_money_string(self.units as int),
    {
        proof {
            reveal_strlit("-");
            reveal_strlit(".");
        }
        let mut s = String::new();
        let m: u64 = if self.units < 0 {
            s.append("-");
            (-(self.units as i128)) as u64
        } else {
            self.units as u64
        };
        let whole = m / 10000;
        let frac = m % 10000;
        push_digits(whole, &mut s);
        s.append(".");
        if frac % 100 == 0 {
            push_padded(frac / 100, 2, &mut s);
        } else {
            push_padded(frac, 4, &mut s);
        }
        proof {
            assert(s@ =~= spec_money_string(self.units as int));
        }
        s
    }

    /// Parses a decimal string — an optional minus sign, at least one
    /// digit, and optionally a point followed by one to four digits —
    /// into a scale-4 value. Malformed or unrepresentable input yields
    /// nothing.
    #[verifier::loop_isolation(false)]
    #[verifier::rlimit(80)]
    pub fn from_decimal_str(s: &str) -> (r: Option<Money>)
        ensures
            r == spec_parse_money(s@),
    {
        let n = s.unicode_len();
        let neg = n > 0 && s.get_char(0) == '-';
        let start: usize = if neg {
            1
        } else {
            0
        };
        let ghost body = s@.skip(start as int);
        proof {
            assert(body =~= (if neg {
                s@.skip(1)
            } else {
                s@
            }));
        }

        // Find the first point at or after `start`.
        let mut dot: usize = start;
        while dot < n && s.get_char(dot) != '.'
            invariant
                start <= dot <= n,
                n == s@.len(),
                forall|j: int| start <= j < dot ==> s@[j] != '.',
            decreases n - dot,
        {
            dot = dot + 1;
        }
        proof {
            assert(forall|j: int| 0 <= j < dot - start ==> body[j] == s@[start + j]);
            assert(dot < n ==> body[dot - start] == s@[dot as int]);
            lemma_dot_index_is(body, dot - start);
        }

        if start == dot {
            proof {
                assert(body.take(0) =~= Seq::<char>::empty());
            }
            return Option::None;
        }
        // Integer digits, with a bail-out once the value is past any
        // representable magnitude.
        let mut acc: u64 = 0;
        let mut too_big = false;
        let mut i = start;
        while i < dot
            invariant
                start <= i <= dot <= n,
                n == s@.len(),
                start < dot,
                all_digits(s@.subrange(start as int, i as int)),
                !too_big ==> acc == digits_val(s@.subrange(start as int, i as int)) && acc
                    < 1000000000000000,
                too_big ==> digits_val(s@.subrange(start as int, i as int)) >= 1000000000000000,
            decreases dot - i,
        {
            let c = s.get_char(i);
            let u = c as u32;
            if u < 48 || u > 57 {
                proof {
                    assert(body.take(dot - start) =~= s@.subrange(start as int, dot as int));
                    assert(s@.subrange(start as int, dot as int)[i - start] == s@[i as int]);
                    assert(!is_digit_char(s@[i as int]));
                }
                return Option::None;
            }
            proof {
                assert(s@.subrange(start as int, (i + 1) as int).drop_last() =~= s@.subrange(
                    start as int,
                    i as int,
                ));
                assert(s@.subrange(start as int, (i + 1) as int).last() == s@[i as int]);
                lemma_digits_val_bound(s@.subrange(start as int, i as int));
            }
            if !too_big {
                acc = acc * 10 + (u - 48) as u64;
                if acc >= 1000000000000000 {
                    too_big = true;
                }
            }
            i = i + 1;
        }
        proof {
            assert(s@.subrange(start as int, dot as int) =~= body.take(dot - start));
        }
        if too_big {
            proof {
                assert(body.take(dot - start) =~= s@.subrange(start as int, dot as int));
                lemma_units_out_of_range(s@);
            }
            return Option::None;
        }

        // Fraction.
        let units_u: u64;
        if dot == n {
            units_u = acc * 10000;
            proof {
                assert(spec_money_units(s@) == Option::Some(
                    signed_val(neg, units_u as int),
                ));
            }
        } else {
            let flen = n - (dot + 1);
            if flen < 1 || flen > 4 {
                proof {
                    assert(body.skip(dot - start + 1) =~= s@.subrange(dot + 1, n as int));
                }
                return Option::None;
            }
            let fv = match parse_digits_range(s, dot + 1, n) {
                Some(v) => v,
                None => {
                    proof {
                        assert(body.skip(dot - start + 1) =~= s@.subrange(dot + 1, n as int));
                    }
                    return Option::None;
                },
            };
            let scale: u64 = if flen == 1 {
                1000
            } else if flen == 2 {
                100
            } else if flen == 3 {
                10
            } else {
                1
            };
            proof {
                lemma_pow10_vals();
                lemma_digits_val_bound(s@.subrange(dot + 1, n as int));
                assert(body.skip(dot - start + 1) =~= s@.subrange(dot + 1, n as int));
            }
            units_u = acc * 10000 + fv * scale;
            proof {
                assert(spec_money_units(s@) == Option::Some(
                    signed_val(neg, units_u as int),
                ));
            }
        }

        if neg {
            let signed: i128 = -(units_u as i128);
            if signed < -0x8000000000000000i128 {
                return Option::None;
            }
            Option::Some(Money { units: signed as i64 })
        } else {
            if units_u > 0x7fffffffffffffffu64 {
                return Option::None;
            }
            Option::Some(Money { units: units_u as i64 })
        }
    }

    /// Percentage application that reports instead of overflowing.
    pub fn checked_apply_pct(self, rate: Money) -> (r: Option<Money>)
        ensures
            match r {
                Some(m) => m.units == pct_val(self.units as int, rate.units as int),
                None => !in_i64(pct_val(self.units as int, rate.units as int)),
            },
    {
        proof {
            lemma_i64_product_bound(self.units as int, rate.units as int);
        }
        let p: i128 = (self.units as i128) * (rate.units as i128);
        let h = div_round_half_i128(p, 100000000);
        let u: i128 = h * 100;
        if -0x8000000000000000i128 <= u && u <= 0x7fffffffffffffffi128 {
            Some(Money { units: u as i64 })
        } else {
            None
        }
    }
}

} // verus!
