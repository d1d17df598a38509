//! Currency strings: parsing money amounts from common currency notation
//! and rendering amounts with two decimal places.
//!
//! Parsing trims surrounding whitespace, drops every dollar sign and
//! grouping comma, and then reads an optionally signed decimal numeral
//! with at most four fractional digits — the resolution of [`Money`] —
//! exactly, never through binary floating point.

use vstd::prelude::*;
use vstd::string::StringExecFns;

use crate::money::{Money, MONEY_MAX_MANTISSA, MONEY_MAX_UNITS, MONEY_SCALE};
use crate::strutil::{dec_string_u128, digit_str, spec_dec_digits, spec_digit_char};
use crate::textscan::{
    chars_of, class_match_exec, digits_to_value, digits_value, is_digit_char, is_space_char,
    run_end, scan_run, CharClass,
};

verus! {

/// The text with trailing whitespace removed.
pub open spec fn spec_trim_end(s: Seq<char>) -> Seq<char>
    decreases s.len(),
{
    if s.len() > 0 && is_space_char(s.last()) {
        spec_trim_end(s.drop_last())
    } else {
        s
    }
}

/// The text with leading whitespace removed.
pub open spec fn spec_trim_start(s: Seq<char>) -> Seq<char>
    decreases s.len(),
{
    if s.len() > 0 && is_space_char(s.first()) {
        spec_trim_start(s.drop_first())
    } else {
        s
    }
}

/// The text with surrounding whitespace removed.
pub open spec fn spec_trim(s: Seq<char>) -> Seq<char> {
    spec_trim_start(spec_trim_end(s))
}

/// The text with every dollar sign and comma removed.
pub open spec fn spec_strip_currency(s: Seq<char>) -> Seq<char> {
    s.filter(|c: char| !(c as u32 == 36 || c as u32 == 44))
}

/// Stripping commutes with appending one character.
proof fn lemma_strip_currency_last(s: Seq<char>)
    requires
        s.len() > 0,
    ensures
        spec_strip_currency(s) == if !(s.last() as u32 == 36 || s.last() as u32 == 44) {
            spec_strip_currency(s.drop_last()).push(s.last())
        } else {
            spec_strip_currency(s.drop_last())
        },
{
    reveal_with_fuel(Seq::filter, 2);
}

/// Ten to the `n`th power.
pub open spec fn spec_pow10(n: nat) -> int
    decreases n,
{
    if n == 0 {
        1
    } else {
        10 * spec_pow10((n - 1) as nat)
    }
}

/// A digit string's value is below ten to its length.
pub proof fn lemma_digits_value_upper(s: Seq<char>)
    requires
        forall|i: int| 0 <= i < s.len() ==> is_digit_char(#[trigger] s[i]),
    ensures
        0 <= digits_value(s) < spec_pow10(s.len()),
    decreases s.len(),
{
    if s.len() > 0 {
        assert(forall|i: int|
            0 <= i < s.drop_last().len() ==> is_digit_char(#[trigger] s.drop_last()[i]));
        lemma_digits_value_upper(s.drop_last());
        assert(is_digit_char(s.last()));
    }
}

/// The scaled-mantissa weight of one fractional digit position when `m`
/// fractional digits are present.
pub open spec fn spec_frac_scale(m: int) -> int {
    if m <= 0 {
        10_000
    } else if m == 1 {
        1_000
    } else if m == 2 {
        100
    } else if m == 3 {
        10
    } else {
        1
    }
}

/// An unsigned decimal numeral as a scaled money mantissa: an integer
/// digit run, optionally a point and up to four fractional digits, at
/// least one digit in all, and a value within the representable money
/// range. Anything else — stray characters, a second point, too many
/// fractional digits, a value out of range — is no amount.
pub open spec fn spec_parse_unsigned(s: Seq<char>) -> Option<int> {
    let d = run_end(s, 0, CharClass::Digit);
    if d == s.len() {
        if d == 0 {
            None
        } else if digits_value(s) <= MONEY_MAX_UNITS as int {
            Some(digits_value(s) * MONEY_SCALE)
        } else {
            None
        }
    } else if s[d] == '.' {
        let f = run_end(s, d + 1, CharClass::Digit);
        if f != s.len() {
            None
        } else if d == 0 && f == d + 1 {
            None
        } else if f - (d + 1) > 4 {
            None
        } else {
            let mantissa = digits_value(s.subrange(0, d)) * MONEY_SCALE + digits_value(
                s.subrange(d + 1, f),
            ) * spec_frac_scale(f - (d + 1));
            if mantissa <= MONEY_MAX_MANTISSA as int {
                Some(mantissa)
            } else {
                None
            }
        }
    } else {
        None
    }
}

/// An optionally signed decimal numeral as a scaled money mantissa.
pub open spec fn spec_parse_decimal(s: Seq<char>) -> Option<int> {
    if s.len() == 0 {
        None
    } else if s.first() == '-' {
        match spec_parse_unsigned(s.drop_first()) {
            Some(v) => Some(-v),
            None => None,
        }
    } else if s.first() == '+' {
        spec_parse_unsigned(s.drop_first())
    } else {
        spec_parse_unsigned(s)
    }
}

/// What parsing a currency string yields: the scaled mantissa of the
/// trimmed, stripped, exactly-parsed numeral.
pub open spec fn spec_parse_currency(s: Seq<char>) -> Option<int> {
    spec_parse_decimal(spec_strip_currency(spec_trim(s)))
}

fn parse_unsigned_chars(v: &Vec<char>) -> (r: Option<i128>)
    ensures
        match r {
            Some(m) => spec_parse_unsigned(v@) == Some(m as int) && 0 <= m
                <= MONEY_MAX_MANTISSA as int,
            None => spec_parse_unsigned(v@) is None,
        },
{
    let n = v.len();
    let d = scan_run(v, 0, CharClass::Digit);
    proof {
        crate::textscan::lemma_run_end(v@, 0, CharClass::Digit);
    }
    if d == n {
        if d == 0 {
            return None;
        }
        proof {
            assert(v@.subrange(0, d as int) =~= v@);
        }
        match digits_to_value(v, 0, d, MONEY_MAX_UNITS as u128) {
            Some(value) => Some((value as i128) * MONEY_SCALE),
            None => None,
        }
    } else if v[d] == '.' {
        let f = scan_run(v, d + 1, CharClass::Digit);
        proof {
            crate::textscan::lemma_run_end(v@, d as int + 1, CharClass::Digit);
        }
        if f != n {
            return None;
        }
        if d == 0 && f == d + 1 {
            return None;
        }
        let m = f - (d + 1);
        if m > 4 {
            return None;
        }
        proof {
            lemma_digits_value_upper(v@.subrange(d as int + 1, f as int));
            lemma_digits_value_upper(v@.subrange(0, d as int));
            assert(spec_frac_scale(f as int - (d as int + 1)) >= 1);
            assert(digits_value(v@.subrange(d as int + 1, f as int)) * spec_frac_scale(
                f as int - (d as int + 1),
            ) >= 0) by (nonlinear_arith)
                requires
                    digits_value(v@.subrange(d as int + 1, f as int)) >= 0,
                    spec_frac_scale(f as int - (d as int + 1)) >= 1,
            ;
        }
        let int_value = match digits_to_value(v, 0, d, MONEY_MAX_UNITS as u128) {
            Some(value) => value,
            None => { return None },
        };
        let frac_value = match digits_to_value(v, d + 1, f, 9_999) {
            Some(value) => value,
            None => {
                proof {
                    reveal_with_fuel(spec_pow10, 5);
                    assert(false);
                }
                return None;
            },
        };
        let scale: u128 = if m == 0 {
            10_000
        } else if m == 1 {
            1_000
        } else if m == 2 {
            100
        } else if m == 3 {
            10
        } else {
            1
        };
        let mantissa: u128 = int_value * 10_000 + frac_value * scale;
        if mantissa > (MONEY_MAX_MANTISSA as u128) {
            None
        } else {
            Some(mantissa as i128)
        }
    } else {
        None
    }
}

/// Parses a currency string into a money amount: surrounding whitespace
/// is trimmed, dollar signs and commas are dropped, and the rest must be
/// an optionally signed decimal numeral with at most four fractional
/// digits whose value fits the representable money range.
pub fn parse_currency_string(input: &str) -> (r: Option<Money>)
    ensures
        match r {
            Some(m) => spec_parse_currency(input@) == Some(m@) && m.wf(),
            None => spec_parse_currency(input@) is None,
        },
{
    let v = chars_of(input);
    let n = v.len();
    proof {
        assert(v@.take(n as int) =~= v@);
    }
    let mut hi = n;
    while hi > 0 && class_match_exec(CharClass::Space, v[hi - 1])
        invariant
            0 <= hi <= n,
            n == v@.len(),
            spec_trim_end(v@) == spec_trim_end(v@.take(hi as int)),
        decreases hi,
    {
        proof {
            assert(v@.take(hi as int).drop_last() =~= v@.take(hi as int - 1));
            assert(v@.take(hi as int).last() == v@[hi as int - 1]);
        }
        hi = hi - 1;
    }
    proof {
        assert(spec_trim_end(v@.take(hi as int)) == v@.take(hi as int));
    }
    let ghost t = v@.take(hi as int);
    proof {
        assert(t.skip(0) =~= t);
    }
    let mut lo: usize = 0;
    while lo < hi && class_match_exec(CharClass::Space, v[lo])
        invariant
            0 <= lo <= hi <= n,
            n == v@.len(),
            t == v@.take(hi as int),
            spec_trim_start(t) == spec_trim_start(t.skip(lo as int)),
        decreases hi - lo,
    {
        proof {
            assert(t.skip(lo as int).first() == v@[lo as int]);
            assert(t.skip(lo as int).drop_first() =~= t.skip(lo as int + 1));
        }
        lo = lo + 1;
    }
    proof {
        assert(spec_trim_start(t.skip(lo as int)) == t.skip(lo as int));
        assert(t.skip(lo as int) =~= v@.subrange(lo as int, hi as int));
        assert(spec_trim(v@) == v@.subrange(lo as int, hi as int));
    }
    let ghost u = v@.subrange(lo as int, hi as int);

    let mut cleaned: Vec<char> = Vec::new();
    let mut k = lo;
    while k < hi
        invariant
            lo <= k <= hi <= n,
            n == v@.len(),
            u == v@.subrange(lo as int, hi as int),
            cleaned@ == spec_strip_currency(u.take(k - lo)),
        decreases hi - k,
    {
        let c = v[k];
        proof {
            assert(u.take(k - lo + 1).drop_last() =~= u.take(k - lo));
            assert(u.take(k - lo + 1).last() == v@[k as int]);
            lemma_strip_currency_last(u.take(k - lo + 1));
        }
        if !((c as u32) == 36 || (c as u32) == 44) {
            cleaned.push(c);
        }
        k = k + 1;
    }
    proof {
        assert(u.take(hi - lo) =~= u);
    }

    let cn = cleaned.len();
    if cn == 0 {
        return None;
    }
    let first = cleaned[0];
    if first == '-' {
        let tail = copy_from(&cleaned, 1);
        proof {
            assert(tail@ =~= cleaned@.drop_first());
        }
        match parse_unsigned_chars(&tail) {
            Some(m) => Some(Money::from_scaled(-m)),
            None => None,
        }
    } else if first == '+' {
        let tail = copy_from(&cleaned, 1);
        proof {
            assert(tail@ =~= cleaned@.drop_first());
        }
        match parse_unsigned_chars(&tail) {
            Some(m) => Some(Money::from_scaled(m)),
            None => None,
        }
    } else {
        match parse_unsigned_chars(&cleaned) {
            Some(m) => Some(Money::from_scaled(m)),
            None => None,
        }
    }
}

/// Copies the characters from position `from` to the end.
fn copy_from(v: &Vec<char>, from: usize) -> (r: Vec<char>)
    requires
        from <= v@.len(),
    ensures
        r@ == v@.skip(from as int),
{
    let n = v.len();
    let mut r: Vec<char> = Vec::new();
    let mut i = from;
    while i < n
        invariant
            from <= i <= n,
            n == v@.len(),
            r@ =~= v@.subrange(from as int, i as int),
        decreases n - i,
    {
        r.push(v[i]);
        proof {
            assert(v@.subrange(from as int, i as int + 1) =~= v@.subrange(
                from as int,
                i as int,
            ).push(v@[i as int]));
        }
        i = i + 1;
    }
    proof {
        assert(v@.subrange(from as int, n as int) =~= v@.skip(from as int));
    }
    r
}

/// Two digit characters for a value below one hundred.
pub open spec fn spec_two_digits(f: int) -> Seq<char> {
    seq![spec_digit_char(f / 10), spec_digit_char(f % 10)]
}

/// What formatting an amount yields: a dollar sign, a minus sign for a
/// negative amount, and the amount rounded to exactly two decimal places
/// (half away from zero).
pub open spec fn spec_format_currency(m: int) -> Seq<char> {
    let a = if m < 0 {
        -m
    } else {
        m
    };
    let cents = (a + 50) / 100;
    "$"@ + (if m < 0 {
        "-"@
    } else {
        Seq::<char>::empty()
    }) + spec_dec_digits((cents / 100) as nat) + "."@ + spec_two_digits(cents % 100)
}

/// Formats an amount as a currency string: a leading dollar sign and
/// exactly two decimal places, rounding half away from zero.
pub fn format_currency(amount: Money) -> (r: String)
    requires
        amount.wf(),
    ensures
        r@ == spec_format_currency(amount@),
{
    let m = amount.mantissa();
    let negative = m < 0;
    let a: u128 = if negative {
        (-m) as u128
    } else {
        m as u128
    };
    let cents = (a + 50) / 100;
    let units = cents / 100;
    let frac = cents % 100;
    let mut s = String::from_str("$");
    if negative {
        s.append("-");
    } else {
        proof {
            assert(s@ + Seq::<char>::empty() =~= s@);
        }
    }
    let digits = dec_string_u128(units);
    s.append(digits.as_str());
    s.append(".");
    s.append(digit_str(frac / 10));
    s.append(digit_str(frac % 10));
    proof {
        assert(s@ =~= spec_format_currency(amount@));
    }
    s
}

} // verus!
