//! The error taxonomy shared by calculation, caching, fetching and
//! extraction. Every failure is a value returned to the caller; nothing in
//! this crate treats a failure as fatal to the process.

use vstd::prelude::*;
use vstd::string::StringExecFns;

use crate::strutil::spec_dec_digits;

verus! {

/// Everything that can go wrong during a tax operation.
#[derive(Clone, Debug, PartialEq, Eq)]
pub enum TaxError {
    /// The tax year of an entity does not match its schedule's year.
    YearMismatch,
    /// Reserved for schedule validation; construction never raises it.
    InvalidBrackets,
    /// Every fallback candidate was exhausted without a successful
    /// response; the payload carries the last recorded failure detail.
    FetchError(String),
    /// A document was fetched but no bracket pattern matched; the payload
    /// says what went wrong.
    ParseError(String),
    /// No rate source supports the requested jurisdiction.
    UnsupportedJurisdiction,
    /// Extraction produced no usable brackets for this tax year.
    RateNotAvailable(u16),
    /// A transport-level failure, distinct from a non-success status.
    NetworkError(String),
}

/// The human-readable description of an error.
pub open spec fn spec_message(e: TaxError) -> Seq<char> {
    match e {
        TaxError::YearMismatch => "Tax year mismatch between entity and schedule"@,
        TaxError::InvalidBrackets => "Invalid tax bracket configuration"@,
        TaxError::FetchError(d) => "Failed to fetch tax data: "@ + d@,
        TaxError::ParseError(d) => "Failed to parse tax data: "@ + d@,
        TaxError::UnsupportedJurisdiction => "Unsupported jurisdiction"@,
        TaxError::RateNotAvailable(y) => "Rate not available for year "@ + spec_dec_digits(
            y as nat,
        ),
        TaxError::NetworkError(d) => "Network error: "@ + d@,
    }
}

impl TaxError {
    /// Renders this error as a human-readable message.
    pub fn message(&self) -> (r: String)
        ensures
            r@ == spec_message(*self),
    {
        match self {
            TaxError::YearMismatch => String::from_str(
                "Tax year mismatch between entity and schedule",
            ),
            TaxError::InvalidBrackets => String::from_str("Invalid tax bracket configuration"),
            TaxError::FetchError(d) => {
                let mut s = String::from_str("Failed to fetch tax data: ");
                s.append(d.as_str());
                s
            },
            TaxError::ParseError(d) => {
                let mut s = String::from_str("Failed to parse tax data: ");
                s.append(d.as_str());
                s
            },
            TaxError::UnsupportedJurisdiction => String::from_str("Unsupported jurisdiction"),
            TaxError::RateNotAvailable(y) => {
                let mut s = String::from_str("Rate not available for year ");
                let digits = crate::strutil::dec_string_u16(*y);
                s.append(digits.as_str());
                s
            },
            TaxError::NetworkError(d) => {
                let mut s = String::from_str("Network error: ");
                s.append(d.as_str());
                s
            },
        }
    }
}

} // verus!
