//! The two bracket text patterns, as a verified grammar.
//!
//! Fragment text is matched against two shapes, mirroring the usual
//! phrasing of rate announcements:
//!
//! * the *rate pattern*: digits, `%`, then the words `for incomes over`
//!   separated by whitespace runs, then `$` and a run of digits and
//!   commas — "35% for incomes over $243,725";
//! * the *lowest-rate pattern*: digits, `%`, then — on the same line,
//!   with anything in between — `$`, a run of digits and commas,
//!   whitespace, `or`, whitespace, `less` — "lowest rate is 10% ...
//!   $11,600 or less".
//!
//! Matching follows the usual regular-expression conventions: the match
//! starts at the leftmost position where the whole pattern succeeds, digit
//! and digit-comma groups are maximal runs, and the "anything in between"
//! of the second pattern is greedy, so the last viable `$` group on the
//! line is captured. The single-line wildcard never crosses a line feed,
//! while whitespace runs may.

use vstd::prelude::*;

use crate::textscan::{class_match, lit_at, run_end, scan_run, has_lit_at, CharClass};

verus! {

/// Capture positions of a pattern match: the first group (the
/// percentage digits) is `[g1_start, g1_end)`, the second (the grouped
/// dollar figure) is `[g2_start, g2_end)`.
pub ghost struct PatCaps {
    pub g1_start: int,
    pub g1_end: int,
    pub g2_start: int,
    pub g2_end: int,
}

/// A whitespace run of at least one character starting at `j`, followed
/// by the literal `lit`: returns the position right after the literal.
pub open spec fn ws_then_lit(s: Seq<char>, j: int, lit: Seq<char>) -> Option<int> {
    let k = run_end(s, j, CharClass::Space);
    if k > j && lit_at(s, k, lit) {
        Some(k + lit.len())
    } else {
        None
    }
}

/// The rate pattern anchored at `i`: maximal digit run, `%`, then
/// whitespace-separated `for`, `incomes`, `over`, then whitespace, `$`
/// and a maximal non-empty digit-comma run.
pub open spec fn rate_pattern_at(s: Seq<char>, i: int) -> Option<PatCaps> {
    let d = run_end(s, i, CharClass::Digit);
    if d == i || d == s.len() || s[d] != '%' {
        None
    } else {
        match ws_then_lit(s, d + 1, "for"@) {
            Some(a) => match ws_then_lit(s, a, "incomes"@) {
                Some(b) => match ws_then_lit(s, b, "over"@) {
                    Some(c) => {
                        let e = run_end(s, c, CharClass::Space);
                        if e > c && e < s.len() && s[e] == '$' {
                            let g2 = run_end(s, e + 1, CharClass::DigitComma);
                            if g2 > e + 1 {
                                Some(
                                    PatCaps {
                                        g1_start: i,
                                        g1_end: d,
                                        g2_start: e + 1,
                                        g2_end: g2,
                                    },
                                )
                            } else {
                                None
                            }
                        } else {
                            None
                        }
                    },
                    None => None,
                },
                None => None,
            },
            None => None,
        }
    }
}

/// The tail of the lowest-rate pattern anchored at `j` (right after a
/// `$`): a maximal non-empty digit-comma run, whitespace, `or`,
/// whitespace, `less`. Returns the end of the digit-comma group.
pub open spec fn lowest_tail_at(s: Seq<char>, j: int) -> Option<int> {
    let g = run_end(s, j, CharClass::DigitComma);
    if g == j {
        None
    } else {
        match ws_then_lit(s, g, "or"@) {
            Some(a) => match ws_then_lit(s, a, "less"@) {
                Some(_) => Some(g),
                None => None,
            },
            None => None,
        }
    }
}

/// The greedy single-line scan for the `$` of the lowest-rate pattern:
/// the largest position `q` in `[lo, p]` where `$` starts a matching
/// tail. Returns the `$` position and the group end.
pub open spec fn lowest_dollar_scan(s: Seq<char>, lo: int, p: int) -> Option<(int, int)>
    decreases p - lo + 1,
    when 0 <= lo && lo - 1 <= p < s.len()
{
    if p < lo {
        None
    } else if s[p] == '$' && lowest_tail_at(s, p + 1) is Some {
        Some((p, lowest_tail_at(s, p + 1)->Some_0))
    } else {
        lowest_dollar_scan(s, lo, p - 1)
    }
}

/// The lowest-rate pattern anchored at `i`: maximal digit run, `%`, then
/// — without crossing a line feed — a greedy gap, `$`, and the tail.
pub open spec fn lowest_pattern_at(s: Seq<char>, i: int) -> Option<PatCaps> {
    let d = run_end(s, i, CharClass::Digit);
    if d == i || d == s.len() || s[d] != '%' {
        None
    } else {
        let nl = run_end(s, d + 1, CharClass::NotNewline);
        match lowest_dollar_scan(s, d + 1, nl - 1) {
            Some((q, g)) => Some(PatCaps { g1_start: i, g1_end: d, g2_start: q + 1, g2_end: g }),
            None => None,
        }
    }
}

/// The leftmost match of the rate pattern at or after `i`.
pub open spec fn rate_pattern_from(s: Seq<char>, i: int) -> Option<PatCaps>
    decreases s.len() - i,
    when 0 <= i <= s.len()
{
    if i == s.len() {
        None
    } else if rate_pattern_at(s, i) is Some {
        rate_pattern_at(s, i)
    } else {
        rate_pattern_from(s, i + 1)
    }
}

/// The leftmost match of the lowest-rate pattern at or after `i`.
pub open spec fn lowest_pattern_from(s: Seq<char>, i: int) -> Option<PatCaps>
    decreases s.len() - i,
    when 0 <= i <= s.len()
{
    if i == s.len() {
        None
    } else if lowest_pattern_at(s, i) is Some {
        lowest_pattern_at(s, i)
    } else {
        lowest_pattern_from(s, i + 1)
    }
}

/// Every capture of a rate-pattern match is a well-bounded run of its
/// class: group one is digits, group two is digits and commas.
pub proof fn lemma_rate_caps_ranges(s: Seq<char>, i: int)
    requires
        0 <= i <= s.len(),
        rate_pattern_at(s, i) is Some,
    ensures
        ({
            let caps = rate_pattern_at(s, i)->Some_0;
            &&& i == caps.g1_start < caps.g1_end <= s.len()
            &&& 0 <= caps.g2_start < caps.g2_end <= s.len()
            &&& forall|j: int|
                caps.g1_start <= j < caps.g1_end ==> class_match(CharClass::Digit, s[j])
            &&& forall|j: int|
                caps.g2_start <= j < caps.g2_end ==> class_match(CharClass::DigitComma, s[j])
        }),
{
    crate::textscan::lemma_run_end(s, i, CharClass::Digit);
    let d = run_end(s, i, CharClass::Digit);
    let a = ws_then_lit(s, d + 1, "for"@)->Some_0;
    let b = ws_then_lit(s, a, "incomes"@)->Some_0;
    let c = ws_then_lit(s, b, "over"@)->Some_0;
    crate::textscan::lemma_run_end(s, d + 1, CharClass::Space);
    crate::textscan::lemma_run_end(s, run_end(s, d + 1, CharClass::Space) + 3, CharClass::Space);
    let e = run_end(s, c, CharClass::Space);
    crate::textscan::lemma_run_end(s, c, CharClass::Space);
    crate::textscan::lemma_run_end(s, e + 1, CharClass::DigitComma);
}

/// Every capture of a lowest-rate-pattern match is a well-bounded run of
/// its class.
pub proof fn lemma_lowest_caps_ranges(s: Seq<char>, i: int)
    requires
        0 <= i <= s.len(),
        lowest_pattern_at(s, i) is Some,
    ensures
        ({
            let caps = lowest_pattern_at(s, i)->Some_0;
            &&& i == caps.g1_start < caps.g1_end <= s.len()
            &&& 0 <= caps.g2_start < caps.g2_end <= s.len()
            &&& forall|j: int|
                caps.g1_start <= j < caps.g1_end ==> class_match(CharClass::Digit, s[j])
            &&& forall|j: int|
                caps.g2_start <= j < caps.g2_end ==> class_match(CharClass::DigitComma, s[j])
        }),
{
    crate::textscan::lemma_run_end(s, i, CharClass::Digit);
    let d = run_end(s, i, CharClass::Digit);
    crate::textscan::lemma_run_end(s, d + 1, CharClass::NotNewline);
    let nl = run_end(s, d + 1, CharClass::NotNewline);
    lemma_lowest_scan_props(s, d + 1, nl - 1);
    let (q, g) = lowest_dollar_scan(s, d + 1, nl - 1)->Some_0;
    crate::textscan::lemma_run_end(s, q + 1, CharClass::DigitComma);
}

/// What a successful dollar scan guarantees: the found position is in
/// range, holds a `$`, and its tail matches.
pub proof fn lemma_lowest_scan_props(s: Seq<char>, lo: int, p: int)
    requires
        0 <= lo,
        lo - 1 <= p < s.len(),
        lowest_dollar_scan(s, lo, p) is Some,
    ensures
        ({
            let (q, g) = lowest_dollar_scan(s, lo, p)->Some_0;
            &&& lo <= q <= p
            &&& s[q] == '$'
            &&& lowest_tail_at(s, q + 1) == Some(g)
        }),
    decreases p - lo + 1,
{
    if p >= lo && !(s[p] == '$' && lowest_tail_at(s, p + 1) is Some) {
        lemma_lowest_scan_props(s, lo, p - 1);
    }
}

/// Matches the tail of the lowest-rate pattern at `j`.
fn lowest_tail_exec(v: &Vec<char>, j: usize) -> (r: Option<usize>)
    requires
        j <= v@.len(),
    ensures
        match r {
            Some(g) => lowest_tail_at(v@, j as int) == Some(g as int),
            None => lowest_tail_at(v@, j as int) is None,
        },
{
    let g = scan_run(v, j, CharClass::DigitComma);
    if g == j {
        return None;
    }
    match ws_lit_exec(v, g, "or") {
        Some(a) => match ws_lit_exec(v, a, "less") {
            Some(_) => Some(g),
            None => None,
        },
        None => None,
    }
}

/// Matches a whitespace run of at least one character followed by `lit`.
fn ws_lit_exec(v: &Vec<char>, j: usize, lit: &str) -> (r: Option<usize>)
    requires
        j <= v@.len(),
    ensures
        match r {
            Some(a) => ws_then_lit(v@, j as int, lit@) == Some(a as int),
            None => ws_then_lit(v@, j as int, lit@) is None,
        },
{
    let k = scan_run(v, j, CharClass::Space);
    if k > j && has_lit_at(v, k, lit) {
        let m = lit.unicode_len();
        if m > v.len() - k {
            proof {
                assert(false);
            }
        }
        Some(k + m)
    } else {
        None
    }
}

/// Matches the rate pattern anchored at `i`.
pub fn rate_pattern_at_exec(v: &Vec<char>, i: usize) -> (r: Option<(usize, usize, usize)>)
    requires
        i <= v@.len(),
    ensures
        match r {
            Some((g1e, g2s, g2e)) => rate_pattern_at(v@, i as int) == Some(
                PatCaps {
                    g1_start: i as int,
                    g1_end: g1e as int,
                    g2_start: g2s as int,
                    g2_end: g2e as int,
                },
            ),
            None => rate_pattern_at(v@, i as int) is None,
        },
{
    let d = scan_run(v, i, CharClass::Digit);
    if d == i || d == v.len() {
        return None;
    }
    if v[d] != '%' {
        return None;
    }
    let a = match ws_lit_exec(v, d + 1, "for") {
        Some(a) => a,
        None => { return None },
    };
    let b = match ws_lit_exec(v, a, "incomes") {
        Some(b) => b,
        None => { return None },
    };
    let c = match ws_lit_exec(v, b, "over") {
        Some(c) => c,
        None => { return None },
    };
    let e = scan_run(v, c, CharClass::Space);
    if !(e > c && e < v.len()) {
        return None;
    }
    if v[e] != '$' {
        return None;
    }
    let g2 = scan_run(v, e + 1, CharClass::DigitComma);
    if g2 > e + 1 {
        Some((d, e + 1, g2))
    } else {
        None
    }
}

/// Matches the lowest-rate pattern anchored at `i`.
pub fn lowest_pattern_at_exec(v: &Vec<char>, i: usize) -> (r: Option<(usize, usize, usize)>)
    requires
        i <= v@.len(),
    ensures
        match r {
            Some((g1e, g2s, g2e)) => lowest_pattern_at(v@, i as int) == Some(
                PatCaps {
                    g1_start: i as int,
                    g1_end: g1e as int,
                    g2_start: g2s as int,
                    g2_end: g2e as int,
                },
            ),
            None => lowest_pattern_at(v@, i as int) is None,
        },
{
    let d = scan_run(v, i, CharClass::Digit);
    if d == i || d == v.len() {
        return None;
    }
    if v[d] != '%' {
        return None;
    }
    let nl = scan_run(v, d + 1, CharClass::NotNewline);
    let mut q = nl;
    while q > d + 1
        invariant
            d + 1 <= q <= nl,
            i <= v@.len(),
            d == run_end(v@, i as int, CharClass::Digit),
            d != i,
            d < v@.len(),
            v@[d as int] == '%',
            nl == run_end(v@, d as int + 1, CharClass::NotNewline),
            nl <= v@.len(),
            lowest_dollar_scan(v@, d as int + 1, nl as int - 1) == lowest_dollar_scan(
                v@,
                d as int + 1,
                q as int - 1,
            ),
        decreases q,
    {
        q = q - 1;
        if v[q] == '$' {
            match lowest_tail_exec(v, q + 1) {
                Some(g) => {
                    proof {
                        assert(lowest_dollar_scan(v@, d as int + 1, q as int) == Some(
                            (q as int, g as int),
                        ));
                        assert(lowest_dollar_scan(v@, d as int + 1, nl as int - 1) == Some(
                            (q as int, g as int),
                        ));
                        assert(run_end(v@, i as int, CharClass::Digit) == d as int);
                        assert(d != i && d < v@.len() && v@[d as int] == '%');
                        assert(lowest_pattern_at(v@, i as int) == Some(
                            PatCaps {
                                g1_start: i as int,
                                g1_end: d as int,
                                g2_start: q as int + 1,
                                g2_end: g as int,
                            },
                        ));
                    }
                    return Some((d, q + 1, g));
                },
                None => {},
            }
        }
    }
    proof {
        assert(lowest_dollar_scan(v@, d as int + 1, d as int) is None);
    }
    None
}

/// Finds the leftmost match of the rate pattern.
pub fn find_rate_pattern(v: &Vec<char>) -> (r: Option<(usize, usize, usize, usize)>)
    ensures
        match r {
            Some((g1s, g1e, g2s, g2e)) => rate_pattern_from(v@, 0) == Some(
                PatCaps {
                    g1_start: g1s as int,
                    g1_end: g1e as int,
                    g2_start: g2s as int,
                    g2_end: g2e as int,
                },
            ),
            None => rate_pattern_from(v@, 0) is None,
        },
{
    let n = v.len();
    let mut i: usize = 0;
    while i < n
        invariant
            0 <= i <= n,
            n == v@.len(),
            rate_pattern_from(v@, 0) == rate_pattern_from(v@, i as int),
        decreases n - i,
    {
        match rate_pattern_at_exec(v, i) {
            Some((g1e, g2s, g2e)) => {
                return Some((i, g1e, g2s, g2e));
            },
            None => {},
        }
        i = i + 1;
    }
    None
}

/// Finds the leftmost match of the lowest-rate pattern.
pub fn find_lowest_pattern(v: &Vec<char>) -> (r: Option<(usize, usize, usize, usize)>)
    ensures
        match r {
            Some((g1s, g1e, g2s, g2e)) => lowest_pattern_from(v@, 0) == Some(
                PatCaps {
                    g1_start: g1s as int,
                    g1_end: g1e as int,
                    g2_start: g2s as int,
                    g2_end: g2e as int,
                },
            ),
            None => lowest_pattern_from(v@, 0) is None,
        },
{
    let n = v.len();
    let mut i: usize = 0;
    while i < n
        invariant
            0 <= i <= n,
            n == v@.len(),
            lowest_pattern_from(v@, 0) == lowest_pattern_from(v@, i as int),
        decreases n - i,
    {
        match lowest_pattern_at_exec(v, i) {
            Some((g1e, g2s, g2e)) => {
                return Some((i, g1e, g2s, g2e));
            },
            None => {},
        }
        i = i + 1;
    }
    None
}

/// The leftmost rate-pattern match inherits the per-anchor capture
/// properties.
pub proof fn lemma_rate_search_caps(s: Seq<char>, i: int)
    requires
        0 <= i <= s.len(),
        rate_pattern_from(s, i) is Some,
    ensures
        ({
            let caps = rate_pattern_from(s, i)->Some_0;
            &&& 0 <= caps.g1_start < caps.g1_end <= s.len()
            &&& 0 <= caps.g2_start < caps.g2_end <= s.len()
            &&& forall|j: int|
                caps.g1_start <= j < caps.g1_end ==> class_match(CharClass::Digit, s[j])
            &&& forall|j: int|
                caps.g2_start <= j < caps.g2_end ==> class_match(CharClass::DigitComma, s[j])
        }),
    decreases s.len() - i,
{
    if i < s.len() {
        if rate_pattern_at(s, i) is Some {
            lemma_rate_caps_ranges(s, i);
        } else {
            lemma_rate_search_caps(s, i + 1);
        }
    }
}

/// The leftmost lowest-rate-pattern match inherits the per-anchor capture
/// properties.
pub proof fn lemma_lowest_search_caps(s: Seq<char>, i: int)
    requires
        0 <= i <= s.len(),
        lowest_pattern_from(s, i) is Some,
    ensures
        ({
            let caps = lowest_pattern_from(s, i)->Some_0;
            &&& 0 <= caps.g1_start < caps.g1_end <= s.len()
            &&& 0 <= caps.g2_start < caps.g2_end <= s.len()
            &&& forall|j: int|
                caps.g1_start <= j < caps.g1_end ==> class_match(CharClass::Digit, s[j])
            &&& forall|j: int|
                caps.g2_start <= j < caps.g2_end ==> class_match(CharClass::DigitComma, s[j])
        }),
    decreases s.len() - i,
{
    if i < s.len() {
        if lowest_pattern_at(s, i) is Some {
            lemma_lowest_caps_ranges(s, i);
        } else {
            lemma_lowest_search_caps(s, i + 1);
        }
    }
}

} // verus!
