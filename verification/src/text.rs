//! Small verified text helpers: string equality, and rendering
//! non-negative integers as (optionally zero-padded) decimal digits.

use vstd::prelude::*;
use vstd::string::StrSliceExecFns;
use vstd::string::StringExecFns;

verus! {

/// Whether two strings hold the same characters.
pub fn str_eq(a: &str, b: &str) -> (r: bool)
    ensures
        r == (a@ == b@),
{
    let x: String = a.to_owned();
    let y: String = b.to_owned();
    x == y
}

/// The decimal digit character for `d` (0 through 9).
pub open spec fn digit_char(d: int) -> char {
    if d == 0 {
        '0'
    } else if d == 1 {
        '1'
    } else if d == 2 {
        '2'
    } else if d == 3 {
        '3'
    } else if d == 4 {
        '4'
    } else if d == 5 {
        '5'
    } else if d == 6 {
        '6'
    } else if d == 7 {
        '7'
    } else if d == 8 {
        '8'
    } else {
        '9'
    }
}

/// The decimal digits of a non-negative integer, most significant first.
pub open spec fn spec_digits(n: int) -> Seq<char>
    recommends
        n >= 0,
    decreases n,
{
    if n < 10 {
        seq![digit_char(n)]
    } else {
        spec_digits(n / 10).push(digit_char(n % 10))
    }
}

/// `k` zero characters.
pub open spec fn spec_zeros(k: int) -> Seq<char> {
    Seq::new(if k >= 0 { k as nat } else { 0 }, |i| '0')
}

/// The digits of `n`, left-padded with zeros to at least `width` characters.
pub open spec fn spec_padded(n: int, width: int) -> Seq<char> {
    let d = spec_digits(n);
    if d.len() >= width {
        d
    } else {
        spec_zeros(width - d.len()) + d
    }
}

/// How many digits a number has, by decade.
pub proof fn lemma_digits_len(n: int)
    requires
        n >= 0,
    ensures
        n < 10 ==> spec_digits(n).len() == 1,
        10 <= n < 100 ==> spec_digits(n).len() == 2,
        100 <= n < 1000 ==> spec_digits(n).len() == 3,
        1000 <= n < 10000 ==> spec_digits(n).len() == 4,
        10000 <= n < 100000 ==> spec_digits(n).len() == 5,
        n >= 100000 ==> spec_digits(n).len() >= 6,
    decreases n,
{
    if n >= 10 {
        lemma_digits_len(n / 10);
    }
}

/// Whether `c` is a decimal digit.
pub open spec fn is_digit_char(c: char) -> bool {
    48 <= c as int <= 57
}

/// The numeric value of a digit character.
pub open spec fn digit_val(c: char) -> int {
    c as int - 48
}

/// Whether every character of `s` is a decimal digit.
pub open spec fn all_digits(s: Seq<char>) -> bool {
    forall|i: int| 0 <= i < s.len() ==> is_digit_char(#[trigger] s[i])
}

/// The number read from a sequence of digit characters, most
/// significant first; the empty sequence reads as zero.
pub open spec fn digits_val(s: Seq<char>) -> int
    decreases s.len(),
{
    if s.len() == 0 {
        0
    } else {
        digits_val(s.drop_last()) * 10 + digit_val(s.last())
    }
}

/// Ten to the power `k`.
pub open spec fn pow10(k: int) -> int
    decreases k,
{
    if k <= 0 {
        1
    } else {
        10 * pow10(k - 1)
    }
}

/// Powers of ten are at least one.
pub proof fn lemma_pow10_pos(k: int)
    ensures
        pow10(k) >= 1,
    decreases k,
{
    if k > 0 {
        lemma_pow10_pos(k - 1);
    }
}

/// Powers of ten grow with the exponent.
pub proof fn lemma_pow10_mono(a: int, b: int)
    requires
        a <= b,
    ensures
        pow10(a) <= pow10(b),
    decreases b - a,
{
    if a < b {
        lemma_pow10_mono(a, b - 1);
        lemma_pow10_pos(b - 1);
    }
}

/// Small powers of ten, concretely.
pub proof fn lemma_pow10_vals()
    ensures
        pow10(0) == 1,
        pow10(1) == 10,
        pow10(2) == 100,
        pow10(3) == 1000,
        pow10(4) == 10000,
        pow10(5) == 100000,
        pow10(6) == 1000000,
        pow10(7) == 10000000,
        pow10(8) == 100000000,
{
    assert(pow10(0) == 1);
    assert(pow10(1) == 10);
    assert(pow10(2) == 100);
    assert(pow10(3) == 1000);
    assert(pow10(4) == 10000);
    assert(pow10(5) == 100000);
    assert(pow10(6) == 1000000);
    assert(pow10(7) == 10000000);
    assert(pow10(8) == 100000000);
}

/// A sequence of `k` digit characters reads as a number below `10^k`.
pub proof fn lemma_digits_val_bound(s: Seq<char>)
    requires
        all_digits(s),
    ensures
        0 <= digits_val(s) < pow10(s.len() as int),
    decreases s.len(),
{
    if s.len() > 0 {
        assert(all_digits(s.drop_last()));
        lemma_digits_val_bound(s.drop_last());
    }
}

/// Reads the digits of `s` between `from` and `to` as a number;
/// reports when a non-digit stands in that range.
pub fn parse_digits_range(s: &str, from: usize, to: usize) -> (r: Option<u64>)
    requires
        from <= to <= s@.len(),
        to - from <= 8,
    ensures
        match r {
            Some(v) => all_digits(s@.subrange(from as int, to as int)) && v
                == digits_val(s@.subrange(from as int, to as int)),
            None => !all_digits(s@.subrange(from as int, to as int)),
        },
{
    let mut acc: u64 = 0;
    let mut i = from;
    while i < to
        invariant
            from <= i <= to <= s@.len(),
            to - from <= 8,
            all_digits(s@.subrange(from as int, i as int)),
            acc == digits_val(s@.subrange(from as int, i as int)),
            acc < pow10((i - from) as int),
        decreases to - i,
    {
        let c = s.get_char(i);
        let u = c as u32;
        if u < 48 || u > 57 {
            proof {
                assert(s@.subrange(from as int, to as int)[i - from] == s@[i as int]);
            }
            return None;
        }
        proof {
            lemma_pow10_vals();
            lemma_pow10_mono((i - from) as int, 7);
            assert(s@.subrange(from as int, (i + 1) as int).drop_last() =~= s@.subrange(
                from as int,
                i as int,
            ));
            assert(s@.subrange(from as int, (i + 1) as int).last() == s@[i as int]);
            lemma_digits_val_bound(s@.subrange(from as int, (i + 1) as int));
        }
        acc = acc * 10 + (u - 48) as u64;
        i = i + 1;
    }
    proof {
        assert(s@.subrange(from as int, to as int) =~= s@.subrange(from as int, i as int));
    }
    Some(acc)
}

/// The digits a number renders as read back as that number.
pub proof fn lemma_digits_roundtrip(n: int)
    requires
        n >= 0,
    ensures
        all_digits(spec_digits(n)),
        digits_val(spec_digits(n)) == n,
    decreases n,
{
    if n < 10 {
        assert(spec_digits(n) == seq![digit_char(n)]);
        assert(seq![digit_char(n)].drop_last() =~= Seq::<char>::empty());
        assert(digits_val(Seq::<char>::empty()) == 0);
        assert(digits_val(seq![digit_char(n)]) == digit_val(digit_char(n)));
        assert(digit_val(digit_char(n)) == n);
    } else {
        lemma_digits_roundtrip(n / 10);
        let d = spec_digits(n / 10);
        let full = spec_digits(n);
        assert(full.drop_last() =~= d);
        assert(full.last() == digit_char(n % 10));
        assert forall|i: int| 0 <= i < full.len() implies is_digit_char(#[trigger] full[i]) by {
            if i < d.len() {
                assert(full[i] == d[i]);
            }
        }
        vstd::arithmetic::div_mod::lemma_fundamental_div_mod(n, 10);
        vstd::arithmetic::div_mod::lemma_mod_pos_bound(n, 10);
        assert(digit_val(digit_char(n % 10)) == n % 10);
    }
}

/// A run of zeros reads as zero.
pub proof fn lemma_zeros_val(k: int)
    ensures
        digits_val(spec_zeros(k)) == 0,
    decreases k,
{
    if k > 0 {
        assert(spec_zeros(k).drop_last() =~= spec_zeros(k - 1));
        assert(spec_zeros(k).last() == '0');
        lemma_zeros_val(k - 1);
    }
}

/// Leading zeros do not change the number a digit sequence reads as.
pub proof fn lemma_zeros_prefix_val(k: int, d: Seq<char>)
    requires
        k >= 0,
    ensures
        digits_val(spec_zeros(k) + d) == digits_val(d),
    decreases d.len(),
{
    if d.len() == 0 {
        assert(spec_zeros(k) + d =~= spec_zeros(k));
        lemma_zeros_val(k);
    } else {
        assert((spec_zeros(k) + d).drop_last() =~= spec_zeros(k) + d.drop_last());
        assert((spec_zeros(k) + d).last() == d.last());
        lemma_zeros_prefix_val(k, d.drop_last());
    }
}

/// A zero-padded rendering is all digits and still reads as the
/// number; its length is at least the asked-for width.
pub proof fn lemma_padded_roundtrip(n: int, w: int)
    requires
        n >= 0,
    ensures
        all_digits(spec_padded(n, w)),
        digits_val(spec_padded(n, w)) == n,
        spec_padded(n, w).len() >= w,
        spec_padded(n, w).len() >= 1,
{
    lemma_digits_roundtrip(n);
    let d = spec_digits(n);
    if d.len() < w {
        let p = spec_zeros(w - d.len()) + d;
        lemma_zeros_prefix_val(w - d.len(), d);
        assert forall|i: int| 0 <= i < p.len() implies is_digit_char(#[trigger] p[i]) by {
            if i >= w - d.len() {
                assert(p[i] == d[i - (w - d.len())]);
            }
        }
    }
}

/// A single digit as a string slice.
fn digit_str(d: u64) -> (r: &'static str)
    requires
        d < 10,
    ensures
        r@ == seq![digit_char(d as int)],
{
    proof {
        reveal_strlit("0");
        reveal_strlit("1");
        reveal_strlit("2");
        reveal_strlit("3");
        reveal_strlit("4");
        reveal_strlit("5");
        reveal_strlit("6");
        reveal_strlit("7");
        reveal_strlit("8");
        reveal_strlit("9");
    }
    let r = if d == 0 {
        "0"
    } else if d == 1 {
        "1"
    } else if d == 2 {
        "2"
    } else if d == 3 {
        "3"
    } else if d == 4 {
        "4"
    } else if d == 5 {
        "5"
    } else if d == 6 {
        "6"
    } else if d == 7 {
        "7"
    } else if d == 8 {
        "8"
    } else {
        "9"
    };
    proof {
        assert(r@ =~= seq![digit_char(d as int)]);
    }
    r
}

/// Appends the decimal digits of `n` to `out`.
pub fn push_digits(n: u64, out: &mut String)
    ensures
        final(out)@ == old(out)@ + spec_digits(n as int),
    decreases n,
{
    if n >= 10 {
        push_digits(n / 10, out);
        out.append(digit_str(n % 10));
        proof {
            assert(final(out)@ =~= old(out)@ + spec_digits(n as int));
        }
    } else {
        out.append(digit_str(n));
        proof {
            assert(final(out)@ =~= old(out)@ + spec_digits(n as int));
        }
    }
}

/// A run of zeros as a string slice.
fn zeros_str(k: usize) -> (r: &'static str)
    requires
        k <= 4,
    ensures
        r@ == spec_zeros(k as int),
{
    proof {
        reveal_strlit("");
        reveal_strlit("0");
        reveal_strlit("00");
        reveal_strlit("000");
        reveal_strlit("0000");
    }
    let r = if k == 0 {
        ""
    } else if k == 1 {
        "0"
    } else if k == 2 {
        "00"
    } else if k == 3 {
        "000"
    } else {
        "0000"
    };
    proof {
        assert(r@ =~= spec_zeros(k as int));
    }
    r
}

/// The number of digits of `n`, saturated at 6.
fn digit_len_capped(n: u64) -> (r: usize)
    ensures
        n < 100000 ==> r == spec_digits(n as int).len(),
        n >= 100000 ==> r == 6 && spec_digits(n as int).len() >= 6,
{
    proof {
        lemma_digits_len(n as int);
    }
    if n < 10 {
        1
    } else if n < 100 {
        2
    } else if n < 1000 {
        3
    } else if n < 10000 {
        4
    } else if n < 100000 {
        5
    } else {
        6
    }
}

/// Appends the digits of `n`, left-padded with zeros to at least
/// `width` characters.
pub fn push_padded(n: u64, width: usize, out: &mut String)
    requires
        width <= 5,
    ensures
        final(out)@ == old(out)@ + spec_padded(n as int, width as int),
{
    let dl = digit_len_capped(n);
    let pad: usize = if dl < width {
        width - dl
    } else {
        0
    };
    out.append(zeros_str(pad));
    push_digits(n, out);
    proof {
        assert(final(out)@ =~= old(out)@ + spec_padded(n as int, width as int));
    }
}

} // verus!
