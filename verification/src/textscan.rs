//! Verified character scanning over text: the character classes the
//! bracket patterns use, maximal-run scanning, literal matching, substring
//! search, and decimal digit-string evaluation.
//!
//! Text is handled as `Vec<char>` with `Seq<char>` as its model, so every
//! helper here has an exact sequence-level specification.

use vstd::prelude::*;
use vstd::string::StrSliceExecFns;

verus! {

/// The character classes the patterns scan runs of.
#[derive(Clone, Copy, Debug, Eq, PartialEq, Structural)]
pub enum CharClass {
    /// An ASCII decimal digit.
    Digit,
    /// A Unicode whitespace character (the White_Space set, which is what
    /// both `str::trim` and the usual pattern escapes treat as spaces).
    Space,
    /// An ASCII decimal digit or a comma, the shape of a grouped number.
    DigitComma,
    /// Anything but a line feed: what a single-line wildcard may cross.
    NotNewline,
}

/// An ASCII decimal digit.
pub open spec fn is_digit_char(c: char) -> bool {
    48 <= c as u32 <= 57
}

/// A Unicode whitespace character: the White_Space set.
pub open spec fn is_space_char(c: char) -> bool {
    ||| c as u32 == 0x09
    ||| c as u32 == 0x0A
    ||| c as u32 == 0x0B
    ||| c as u32 == 0x0C
    ||| c as u32 == 0x0D
    ||| c as u32 == 0x20
    ||| c as u32 == 0x85
    ||| c as u32 == 0xA0
    ||| c as u32 == 0x1680
    ||| 0x2000 <= c as u32 <= 0x200A
    ||| c as u32 == 0x2028
    ||| c as u32 == 0x2029
    ||| c as u32 == 0x202F
    ||| c as u32 == 0x205F
    ||| c as u32 == 0x3000
}

/// Whether a character belongs to a class.
pub open spec fn class_match(cls: CharClass, c: char) -> bool {
    match cls {
        CharClass::Digit => is_digit_char(c),
        CharClass::Space => is_space_char(c),
        CharClass::DigitComma => is_digit_char(c) || c as u32 == 44,
        CharClass::NotNewline => c as u32 != 10,
    }
}

/// Whether a character belongs to a class.
pub fn class_match_exec(cls: CharClass, c: char) -> (r: bool)
    ensures
        r == class_match(cls, c),
{
    let u = c as u32;
    match cls {
        CharClass::Digit => 48 <= u && u <= 57,
        CharClass::Space => u == 0x09 || u == 0x0A || u == 0x0B || u == 0x0C || u == 0x0D || u
            == 0x20 || u == 0x85 || u == 0xA0 || u == 0x1680 || (0x2000 <= u && u <= 0x200A) || u
            == 0x2028 || u == 0x2029 || u == 0x202F || u == 0x205F || u == 0x3000,
        CharClass::DigitComma => (48 <= u && u <= 57) || u == 44,
        CharClass::NotNewline => u != 10,
    }
}

/// The end of the maximal run of class characters starting at `i`: the
/// first position at or after `i` holding no class character, or the end
/// of the text.
pub open spec fn run_end(s: Seq<char>, i: int, cls: CharClass) -> int
    decreases s.len() - i,
    when 0 <= i <= s.len()
{
    if i == s.len() || !class_match(cls, s[i]) {
        i
    } else {
        run_end(s, i + 1, cls)
    }
}

/// What the maximal run means position by position.
pub proof fn lemma_run_end(s: Seq<char>, i: int, cls: CharClass)
    requires
        0 <= i <= s.len(),
    ensures
        i <= run_end(s, i, cls) <= s.len(),
        forall|j: int| i <= j < run_end(s, i, cls) ==> class_match(cls, s[j]),
        run_end(s, i, cls) < s.len() ==> !class_match(cls, s[run_end(s, i, cls)]),
    decreases s.len() - i,
{
    if !(i == s.len() || !class_match(cls, s[i])) {
        lemma_run_end(s, i + 1, cls);
    }
}

/// Scans the maximal run of class characters starting at `i`.
pub fn scan_run(v: &Vec<char>, i: usize, cls: CharClass) -> (r: usize)
    requires
        i <= v@.len(),
    ensures
        r == run_end(v@, i as int, cls),
        i <= r <= v@.len(),
    {
    proof {
        lemma_run_end(v@, i as int, cls);
    }
    let n = v.len();
    let mut j = i;
    while j < n && class_match_exec(cls, v[j])
        invariant
            i <= j <= n,
            n == v@.len(),
            run_end(v@, i as int, cls) == run_end(v@, j as int, cls),
        decreases n - j,
    {
        j = j + 1;
    }
    proof {
        lemma_run_end(v@, j as int, cls);
    }
    j
}

/// The literal `lit` occurs in `s` starting at position `i`.
pub open spec fn lit_at(s: Seq<char>, i: int, lit: Seq<char>) -> bool {
    &&& 0 <= i
    &&& i + lit.len() <= s.len()
    &&& s.subrange(i, i + lit.len()) == lit
}

/// Tests whether the literal occurs at position `i`.
pub fn has_lit_at(v: &Vec<char>, i: usize, lit: &str) -> (r: bool)
    requires
        i <= v@.len(),
    ensures
        r == lit_at(v@, i as int, lit@),
{
    let m = lit.unicode_len();
    let n = v.len();
    if m > n - i {
        proof {
            assert(!lit_at(v@, i as int, lit@));
        }
        return false;
    }
    let mut k: usize = 0;
    while k < m
        invariant
            0 <= k <= m,
            i + m <= n,
            n == v@.len(),
            m == lit@.len(),
            forall|j: int| 0 <= j < k ==> v@[i + j] == lit@[j],
        decreases m - k,
    {
        if v[i + k] != lit.get_char(k) {
            proof {
                assert(v@.subrange(i as int, i + m) != lit@) by {
                    assert(v@.subrange(i as int, i + m)[k as int] == v@[i + k]);
                }
            }
            return false;
        }
        k = k + 1;
    }
    proof {
        assert(v@.subrange(i as int, i + m) =~= lit@);
    }
    true
}

/// The literal occurs somewhere in `s`.
pub open spec fn contains_lit(s: Seq<char>, lit: Seq<char>) -> bool {
    exists|i: int| lit_at(s, i, lit)
}

/// Substring search: whether the literal occurs anywhere in the text.
pub fn find_lit(v: &Vec<char>, lit: &str) -> (r: bool)
    ensures
        r == contains_lit(v@, lit@),
{
    let m = lit.unicode_len();
    let n = v.len();
    if m > n {
        proof {
            assert forall|i: int| !lit_at(v@, i, lit@) by {}
        }
        return false;
    }
    if m == 0 {
        proof {
            assert(v@.subrange(0, 0) =~= lit@);
            assert(lit_at(v@, 0, lit@));
        }
        return true;
    }
    let mut i: usize = 0;
    while i <= n - m
        invariant
            0 <= i <= n - m + 1,
            1 <= m <= n,
            n == v@.len(),
            m == lit@.len(),
            forall|j: int| 0 <= j < i ==> !lit_at(v@, j, lit@),
        decreases n - m + 1 - i,
    {
        if has_lit_at(v, i, lit) {
            proof {
                assert(contains_lit(v@, lit@));
            }
            return true;
        }
        i = i + 1;
    }
    proof {
        assert forall|j: int| !lit_at(v@, j, lit@) by {
            if 0 <= j < i {
            } else if j > n - m {
                assert(!(j + lit@.len() <= v@.len()));
            }
        }
    }
    false
}

/// Converts a string slice to its character sequence.
pub fn chars_of(s: &str) -> (r: Vec<char>)
    ensures
        r@ == s@,
{
    let n = s.unicode_len();
    let mut r: Vec<char> = Vec::new();
    let mut i: usize = 0;
    while i < n
        invariant
            0 <= i <= n,
            n == s@.len(),
            r@ =~= s@.take(i as int),
        decreases n - i,
    {
        r.push(s.get_char(i));
        proof {
            assert(s@.take(i as int + 1) =~= s@.take(i as int).push(s@[i as int]));
        }
        i = i + 1;
    }
    proof {
        assert(s@.take(n as int) =~= s@);
    }
    r
}

/// The numeric value of a digit character.
pub open spec fn spec_digit_val(c: char) -> int {
    c as u32 - 48
}

/// The value of a digit string, most significant digit first.
pub open spec fn digits_value(s: Seq<char>) -> int
    decreases s.len(),
{
    if s.len() == 0 {
        0
    } else {
        digits_value(s.drop_last()) * 10 + spec_digit_val(s.last())
    }
}

/// A digit string's value is non-negative and grows (weakly) with every
/// digit appended.
pub proof fn lemma_digits_value_nonneg(s: Seq<char>)
    requires
        forall|i: int| 0 <= i < s.len() ==> is_digit_char(#[trigger] s[i]),
    ensures
        0 <= digits_value(s),
        s.len() > 0 ==> digits_value(s.drop_last()) <= digits_value(s),
    decreases s.len(),
{
    if s.len() > 0 {
        assert(forall|i: int|
            0 <= i < s.drop_last().len() ==> is_digit_char(#[trigger] s.drop_last()[i]));
        lemma_digits_value_nonneg(s.drop_last());
        assert(digits_value(s.drop_last()) * 10 >= digits_value(s.drop_last())) by (nonlinear_arith)
            requires
                digits_value(s.drop_last()) >= 0,
        ;
        assert(is_digit_char(s.last()));
    }
}

/// Evaluates the digit run `v[from .. to]` as a number, refusing values
/// above `cap`: returns the exact value when it is at most `cap`, `None`
/// otherwise.
pub fn digits_to_value(v: &Vec<char>, from: usize, to: usize, cap: u128) -> (r: Option<u128>)
    requires
        0 <= from <= to <= v@.len(),
        forall|i: int| from <= i < to ==> is_digit_char(#[trigger] v@[i]),
    ensures
        ({
            let value = digits_value(v@.subrange(from as int, to as int));
            match r {
                Some(x) => x == value && value <= cap,
                None => value > cap,
            }
        }),
{
    let ghost whole = v@.subrange(from as int, to as int);
    proof {
        assert(forall|i: int| 0 <= i < whole.len() ==> is_digit_char(#[trigger] whole[i]));
    }
    let mut acc: u128 = 0;
    let mut k = from;
    while k < to
        invariant
            from <= k <= to <= v@.len(),
            whole == v@.subrange(from as int, to as int),
            forall|i: int| 0 <= i < whole.len() ==> is_digit_char(#[trigger] whole[i]),
            forall|i: int| from <= i < to ==> is_digit_char(#[trigger] v@[i]),
            acc == digits_value(whole.take(k - from)),
            acc <= cap,
            cap <= u128::MAX,
        decreases to - k,
    {
        let ghost prefix = whole.take(k - from);
        let d = (v[k] as u32) - 48;
        proof {
            lemma_digits_value_nonneg(prefix);
            assert(whole.take(k - from + 1).drop_last() =~= prefix);
            assert(whole.take(k - from + 1).last() == v@[k as int]);
            assert(forall|i: int|
                0 <= i < whole.take(k - from + 1).len() ==> is_digit_char(
                    #[trigger] whole.take(k - from + 1)[i],
                ));
        }
        if acc > (u128::MAX - (d as u128)) / 10 {
            proof {
                let longer = whole.take(k - from + 1);
                lemma_digits_value_nonneg(longer);
                assert(digits_value(longer) == acc * 10 + d);
                assert(acc * 10 + d > cap) by (nonlinear_arith)
                    requires
                        acc > (u128::MAX - (d as u128)) / 10,
                        cap <= u128::MAX,
                        0 <= d < 10,
                ;
                lemma_digits_prefix_monotone(whole, k - from + 1);
            }
            return None;
        }
        acc = acc * 10 + (d as u128);
        if acc > cap {
            proof {
                lemma_digits_prefix_monotone(whole, k - from + 1);
            }
            return None;
        }
        k = k + 1;
    }
    proof {
        assert(whole.take(to - from) =~= whole);
    }
    Some(acc)
}

/// A digit string's value is at least the value of any of its prefixes.
pub proof fn lemma_digits_prefix_monotone(s: Seq<char>, k: int)
    requires
        0 <= k <= s.len(),
        forall|i: int| 0 <= i < s.len() ==> is_digit_char(#[trigger] s[i]),
    ensures
        digits_value(s.take(k)) <= digits_value(s),
    decreases s.len() - k,
{
    if k < s.len() {
        assert(s.take(k + 1).drop_last() =~= s.take(k));
        assert(forall|i: int|
            0 <= i < s.take(k + 1).len() ==> is_digit_char(#[trigger] s.take(k + 1)[i]));
        lemma_digits_value_nonneg(s.take(k + 1));
        lemma_digits_prefix_monotone(s, k + 1);
    } else {
        assert(s.take(k) =~= s);
    }
}

} // verus!
