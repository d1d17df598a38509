//! Rate-resolution decisions.
//!
//! Resolving a schedule composes the other components: read the cache
//! first and return a hit without touching any rate source; on a miss,
//! select the first source that supports the jurisdiction (failing with
//! an unsupported-jurisdiction error when none does), fetch, and only on
//! success write the cache before returning. A fetch failure is returned
//! to the caller and never cached. The fetch itself suspends on the
//! network, so the loop that performs it lives with the runner; every
//! decision it takes — cache validity, source selection, candidate order,
//! when to stop, what the outcomes resolve to — is a verified function of
//! this crate.

use vstd::prelude::*;

use crate::errors::TaxError;

verus! {

/// Selects the rate source to use: the first one whose support flag is
/// set, by position. Fails with [`TaxError::UnsupportedJurisdiction`]
/// exactly when no source supports the request.
pub fn select_source(supports: &Vec<bool>) -> (r: Result<usize, TaxError>)
    ensures
        match r {
            Ok(i) => {
                &&& i < supports@.len()
                &&& supports@[i as int]
                &&& forall|j: int| 0 <= j < i ==> !supports@[j]
            },
            Err(e) => {
                &&& e == TaxError::UnsupportedJurisdiction
                &&& forall|j: int| 0 <= j < supports@.len() ==> !supports@[j]
            },
        },
{
    let n = supports.len();
    let mut i: usize = 0;
    while i < n
        invariant
            0 <= i <= n,
            n == supports@.len(),
            forall|j: int| 0 <= j < i ==> !supports@[j],
        decreases n - i,
    {
        if supports[i] {
            return Ok(i);
        }
        i = i + 1;
    }
    Err(TaxError::UnsupportedJurisdiction)
}

} // verus!
