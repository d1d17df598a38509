use tax_engine::{
    candidate_urls, is_success, resolve_attempts, select_source, AttemptOutcome, TaxError,
};

#[test]
fn test_candidate_urls_for_2024() {
    let urls = candidate_urls(2024);
    assert_eq!(urls.len(), 3);
    assert_eq!(
        urls[0],
        "https://www.irs.gov/newsroom/irs-provides-tax-inflation-adjustments-for-tax-year-2024"
    );
    assert_eq!(urls[1], "https://www.irs.gov/pub/irs-drop/rp-2023-23.pdf");
    assert_eq!(
        urls[2],
        "https://www.irs.gov/newsroom/tax-year-2024-inflation-adjustments"
    );
}

#[test]
fn test_resolve_attempts_exhaustion_carries_last_failure() {
    let outcomes = vec![
        AttemptOutcome::Failure(String::from("status 404")),
        AttemptOutcome::Failure(String::from("status 403")),
        AttemptOutcome::Failure(String::from("connection timed out")),
    ];
    let result = resolve_attempts(&outcomes);
    match result {
        Err(TaxError::FetchError(detail)) => {
            assert_eq!(detail, "Failed to fetch IRS data: connection timed out");
        }
        other => panic!("expected a fetch error, got {:?}", other),
    }
}

#[test]
fn test_resolve_attempts_second_candidate_wins() {
    // The first candidate's failure leaves no trace in the resolved
    // document: the result is exactly the second candidate's body.
    let outcomes = vec![
        AttemptOutcome::Failure(String::from("status 404")),
        AttemptOutcome::Success(String::from("<p>10% for incomes over $1</p>")),
    ];
    let result = resolve_attempts(&outcomes).unwrap();
    assert_eq!(result, "<p>10% for incomes over $1</p>");
}

#[test]
fn test_resolve_attempts_first_success_short_circuits() {
    let outcomes = vec![
        AttemptOutcome::Success(String::from("first body")),
        AttemptOutcome::Success(String::from("second body")),
    ];
    assert_eq!(resolve_attempts(&outcomes).unwrap(), "first body");
}

#[test]
fn test_resolve_attempts_with_no_outcomes() {
    let outcomes: Vec<AttemptOutcome> = vec![];
    match resolve_attempts(&outcomes) {
        Err(TaxError::FetchError(detail)) => {
            assert_eq!(detail, "Failed to fetch IRS data: ");
        }
        other => panic!("expected a fetch error, got {:?}", other),
    }
}

#[test]
fn test_is_success_distinguishes_outcomes() {
    assert!(is_success(&AttemptOutcome::Success(String::from("body"))));
    assert!(!is_success(&AttemptOutcome::Failure(String::from("status 500"))));
}

#[test]
fn test_select_source_first_match_wins() {
    assert_eq!(select_source(&vec![false, true, true]).unwrap(), 1);
    assert_eq!(select_source(&vec![true]).unwrap(), 0);
    assert!(matches!(
        select_source(&vec![false, false]),
        Err(TaxError::UnsupportedJurisdiction)
    ));
    assert!(matches!(
        select_source(&vec![]),
        Err(TaxError::UnsupportedJurisdiction)
    ));
}
