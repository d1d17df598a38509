//! The fallback-ordered fetch plan and its resolution.
//!
//! For a tax year there is an ordered list of candidate source locations:
//! a primary location and alternates reflecting known format variations.
//! Candidates are attempted strictly in order, one at a time; the first
//! success short-circuits the rest, every failure is recorded as the last
//! error, and exhausting the list fails with a fetch error carrying the
//! last recorded detail. The network attempt itself is the runner's
//! business; this module decides the candidate order, when to stop, and
//! what the outcomes resolve to.

use vstd::prelude::*;
use vstd::string::StringExecFns;

use crate::errors::TaxError;
use crate::strutil::{dec_string_u16, spec_dec_digits};

verus! {

/// The candidate source locations for a tax year, in the order they are
/// to be attempted.
pub open spec fn spec_candidate_urls(year: u16) -> Seq<Seq<char>> {
    seq![
        "https://www.irs.gov/newsroom/irs-provides-tax-inflation-adjustments-for-tax-year-"@
            + spec_dec_digits(year as nat),
        "https://www.irs.gov/pub/irs-drop/rp-"@ + spec_dec_digits((year - 1) as nat) + "-23.pdf"@,
        "https://www.irs.gov/newsroom/tax-year-"@ + spec_dec_digits(year as nat)
            + "-inflation-adjustments"@,
    ]
}

/// Builds the ordered candidate locations for a tax year. The second
/// candidate names the year before, so the plan asks for a year after the
/// epoch year zero.
pub fn candidate_urls(year: u16) -> (r: Vec<String>)
    requires
        year >= 1,
    ensures
        r.deep_view() == spec_candidate_urls(year),
        r@.len() == 3,
{
    let digits = dec_string_u16(year);
    let prior = dec_string_u16(year - 1);

    let mut first = String::from_str(
        "https://www.irs.gov/newsroom/irs-provides-tax-inflation-adjustments-for-tax-year-",
    );
    first.append(digits.as_str());

    let mut second = String::from_str("https://www.irs.gov/pub/irs-drop/rp-");
    second.append(prior.as_str());
    second.append("-23.pdf");

    let mut third = String::from_str("https://www.irs.gov/newsroom/tax-year-");
    third.append(digits.as_str());
    third.append("-inflation-adjustments");

    let mut r: Vec<String> = Vec::new();
    r.push(first);
    r.push(second);
    r.push(third);
    proof {
        assert(r.deep_view() =~= spec_candidate_urls(year));
    }
    r
}

/// What one candidate attempt came to: a successful response's body, or
/// the detail of its failure (a non-success status or a transport error,
/// both are recorded alike).
#[derive(Debug)]
pub enum AttemptOutcome {
    /// The candidate answered with a success status; the body follows.
    Success(String),
    /// The candidate failed; the detail describes how.
    Failure(String),
}

/// Whether an outcome ends the fallback walk: the runner stops at the
/// first success and otherwise proceeds to the next candidate.
pub fn is_success(outcome: &AttemptOutcome) -> (r: bool)
    ensures
        r == (outcome is Success),
{
    matches!(outcome, AttemptOutcome::Success(_))
}

/// The body of the first successful outcome, if any.
pub open spec fn spec_first_success(outcomes: Seq<AttemptOutcome>) -> Option<Seq<char>>
    decreases outcomes.len(),
{
    if outcomes.len() == 0 {
        None
    } else {
        match outcomes.first() {
            AttemptOutcome::Success(body) => Some(body@),
            AttemptOutcome::Failure(_) => spec_first_success(outcomes.drop_first()),
        }
    }
}

/// The detail of the last failure among the outcomes; empty when none
/// failed.
pub open spec fn spec_last_failure(outcomes: Seq<AttemptOutcome>) -> Seq<char>
    decreases outcomes.len(),
{
    if outcomes.len() == 0 {
        Seq::<char>::empty()
    } else {
        match outcomes.last() {
            AttemptOutcome::Failure(detail) => detail@,
            AttemptOutcome::Success(_) => spec_last_failure(outcomes.drop_last()),
        }
    }
}

/// The message of the fetch error raised when every candidate failed.
pub open spec fn spec_exhaustion_message(outcomes: Seq<AttemptOutcome>) -> Seq<char> {
    "Failed to fetch IRS data: "@ + spec_last_failure(outcomes)
}

/// A success appended to outcomes that held none becomes the first; one
/// already present stays the first.
proof fn lemma_first_success_push(outcomes: Seq<AttemptOutcome>, x: AttemptOutcome)
    ensures
        spec_first_success(outcomes.push(x)) == if spec_first_success(outcomes) is Some {
            spec_first_success(outcomes)
        } else {
            match x {
                AttemptOutcome::Success(body) => Some(body@),
                AttemptOutcome::Failure(_) => None,
            }
        },
    decreases outcomes.len(),
{
    if outcomes.len() == 0 {
        assert(outcomes.push(x).first() == x);
        assert(outcomes.push(x).drop_first() =~= Seq::<AttemptOutcome>::empty());
        assert(spec_first_success(Seq::<AttemptOutcome>::empty()) is None);
        match x {
            AttemptOutcome::Success(body) => {
                assert(spec_first_success(outcomes.push(x)) == Some(body@));
            },
            AttemptOutcome::Failure(_) => {
                assert(spec_first_success(outcomes.push(x)) is None);
            },
        }
    } else {
        assert(outcomes.push(x).first() == outcomes.first());
        assert(outcomes.push(x).drop_first() =~= outcomes.drop_first().push(x));
        lemma_first_success_push(outcomes.drop_first(), x);
        match outcomes.first() {
            AttemptOutcome::Success(body) => {
                assert(spec_first_success(outcomes.push(x)) == Some(body@));
                assert(spec_first_success(outcomes) == Some(body@));
            },
            AttemptOutcome::Failure(_) => {
                assert(spec_first_success(outcomes.push(x)) == spec_first_success(
                    outcomes.drop_first().push(x),
                ));
                assert(spec_first_success(outcomes) == spec_first_success(
                    outcomes.drop_first(),
                ));
            },
        }
    }
}

/// Resolves the recorded outcomes of a sequential fallback walk: the body
/// of the first success, or — when no candidate succeeded — a fetch error
/// carrying the last recorded failure detail.
pub fn resolve_attempts(outcomes: &Vec<AttemptOutcome>) -> (r: Result<String, TaxError>)
    ensures
        match r {
            Ok(body) => spec_first_success(outcomes@) == Some(body@),
            Err(e) => {
                &&& spec_first_success(outcomes@) is None
                &&& e matches TaxError::FetchError(m) && m@ == spec_exhaustion_message(outcomes@)
            },
        },
{
    let n = outcomes.len();
    proof {
        assert(outcomes@.skip(0) =~= outcomes@);
    }
    let mut last_failure: Option<&String> = None;
    let mut k: usize = 0;
    while k < n
        invariant
            0 <= k <= n,
            n == outcomes@.len(),
            spec_first_success(outcomes@.take(k as int)) is None,
            spec_first_success(outcomes@) == spec_first_success(outcomes@.skip(k as int)),
            match last_failure {
                Some(d) => spec_last_failure(outcomes@.take(k as int)) == d@,
                None => spec_last_failure(outcomes@.take(k as int)) == Seq::<char>::empty(),
            },
        decreases n - k,
    {
        proof {
            assert(outcomes@.skip(k as int).first() == outcomes@[k as int]);
            assert(outcomes@.skip(k as int).drop_first() =~= outcomes@.skip(k as int + 1));
            assert(outcomes@.take(k as int + 1).drop_last() =~= outcomes@.take(k as int));
            assert(outcomes@.take(k as int + 1).last() == outcomes@[k as int]);
            assert(outcomes@.take(k as int + 1) =~= outcomes@.take(k as int).push(
                outcomes@[k as int],
            ));
            lemma_first_success_push(outcomes@.take(k as int), outcomes@[k as int]);
        }
        match &outcomes[k] {
            AttemptOutcome::Success(body) => {
                return Ok(body.clone());
            },
            AttemptOutcome::Failure(detail) => {
                last_failure = Some(detail);
            },
        }
        k = k + 1;
    }
    proof {
        assert(outcomes@.skip(n as int) =~= Seq::<AttemptOutcome>::empty());
        assert(outcomes@.take(n as int) =~= outcomes@);
    }
    let mut message = String::from_str("Failed to fetch IRS data: ");
    match last_failure {
        Some(detail) => {
            message.append(detail.as_str());
        },
        None => {
            proof {
                assert("Failed to fetch IRS data: "@ + Seq::<char>::empty() =~=
                    "Failed to fetch IRS data: "@);
            }
        },
    }
    Err(TaxError::FetchError(message))
}

/// Fallback exhaustion: when every candidate fails, no document comes out
/// and the walk resolves to the last recorded failure detail.
pub proof fn lemma_fallback_exhaustion(outcomes: Seq<AttemptOutcome>)
    requires
        forall|i: int| 0 <= i < outcomes.len() ==> (#[trigger] outcomes[i]) is Failure,
    ensures
        spec_first_success(outcomes) is None,
        outcomes.len() > 0 ==> spec_last_failure(outcomes) == outcomes.last()->Failure_0@,
    decreases outcomes.len(),
{
    if outcomes.len() > 0 {
        assert(outcomes[0] is Failure);
        assert(forall|i: int|
            0 <= i < outcomes.drop_first().len() ==> (#[trigger] outcomes.drop_first()[i])
                == outcomes[i + 1]);
        lemma_fallback_exhaustion(outcomes.drop_first());
    }
}

/// First success wins: the resolved document is the body of the first
/// successful candidate, and the failures before it leave no trace in it.
pub proof fn lemma_fallback_first_success(outcomes: Seq<AttemptOutcome>, k: int)
    requires
        0 <= k < outcomes.len(),
        outcomes[k] is Success,
        forall|i: int| 0 <= i < k ==> (#[trigger] outcomes[i]) is Failure,
    ensures
        spec_first_success(outcomes) == Some(outcomes[k]->Success_0@),
    decreases k,
{
    if k == 0 {
        assert(outcomes.first() == outcomes[0]);
    } else {
        assert(outcomes.first() == outcomes[0] && outcomes[0] is Failure);
        assert(forall|i: int|
            0 <= i < outcomes.drop_first().len() ==> (#[trigger] outcomes.drop_first()[i])
                == outcomes[i + 1]);
        lemma_fallback_first_success(outcomes.drop_first(), k - 1);
    }
}

} // verus!
