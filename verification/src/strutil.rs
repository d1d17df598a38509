//! Small verified string helpers: rendering unsigned integers as decimal
//! digit strings, and the character classes the text patterns use.

use vstd::prelude::*;

verus! {

/// The decimal digit character for a value in `0 ..= 9`.
pub open spec fn spec_digit_char(d: int) -> char {
    (('0' as u8) + d) as char
}

/// The decimal rendering of a natural number, most significant digit
/// first, with no leading zeros (except for the number `0` itself).
pub open spec fn spec_dec_digits(n: nat) -> Seq<char>
    decreases n,
{
    if n < 10 {
        seq![spec_digit_char(n as int)]
    } else {
        spec_dec_digits(n / 10).push(spec_digit_char((n % 10) as int))
    }
}

/// The decimal digit character for `d`, as a one-character string slice.
pub(crate) fn digit_str(d: u128) -> (r: &'static str)
    requires
        d < 10,
    ensures
        r@ =~= seq![spec_digit_char(d as int)],
{
    proof {
        reveal_strlit("0");
        reveal_strlit("1");
        reveal_strlit("2");
        reveal_strlit("3");
        reveal_strlit("4");
        reveal_strlit("5");
        reveal_strlit("6");
        reveal_strlit("7");
        reveal_strlit("8");
        reveal_strlit("9");
    }
    if d == 0 {
        "0"
    } else if d == 1 {
        "1"
    } else if d == 2 {
        "2"
    } else if d == 3 {
        "3"
    } else if d == 4 {
        "4"
    } else if d == 5 {
        "5"
    } else if d == 6 {
        "6"
    } else if d == 7 {
        "7"
    } else if d == 8 {
        "8"
    } else {
        "9"
    }
}

/// Renders a natural number in decimal, most significant digit first.
pub fn dec_string_u128(n: u128) -> (s: String)
    ensures
        s@ == spec_dec_digits(n as nat),
    decreases n,
{
    if n < 10 {
        String::from_str(digit_str(n))
    } else {
        proof {
            assert(n / 10 < n) by (nonlinear_arith)
                requires
                    n >= 10,
            ;
        }
        let mut s = dec_string_u128(n / 10);
        s.append(digit_str(n % 10));
        proof {
            assert(spec_dec_digits((n / 10) as nat) + seq![
                spec_digit_char((n % 10) as int),
            ] =~= spec_dec_digits((n / 10) as nat).push(spec_digit_char((n % 10) as int)));
        }
        s
    }
}

/// Renders a `u16` in decimal, most significant digit first.
pub fn dec_string_u16(n: u16) -> (s: String)
    ensures
        s@ == spec_dec_digits(n as nat),
{
    dec_string_u128(n as u128)
}

} // verus!
