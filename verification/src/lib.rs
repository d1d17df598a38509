//! A verified progressive income-tax engine.
//!
//! The crate models money and marginal rates as exact fixed-point decimals,
//! resolves a rate schedule for a jurisdiction through a time-bounded cache
//! and a fallback-ordered document fetch, extracts bracket data from
//! unstructured source text, and computes the resulting tax liability.
//!
//! All arithmetic is exact: amounts and rates are scaled integers, never
//! binary floating point, so the same inputs always produce the same tax
//! bit for bit.

mod bracket;
mod cache;
mod calculator;
mod currency;
mod entity;
mod errors;
mod fetch;
mod jurisdiction;
mod money;
mod patterns;
mod resolver;
mod strutil;
mod textscan;
mod us_federal;

pub use bracket::{sorted_by_lower, TaxBracket, TaxSchedule};
pub use resolver::select_source;
pub use cache::{spec_key_code, lemma_key_code_injective, key_code, spec_entry_valid, spec_cache_lookup, lemma_cache_set_then_get, lemma_cache_set_other_key, CacheEntry, CacheKey, MemoryCache, TaxDataCache};
pub use calculator::{spec_tax, lemma_spec_tax_nonpositive, IncomeTaxCalculator, TAXABLE_LIMIT};
pub use currency::{spec_trim, spec_trim_start, spec_trim_end, spec_strip_currency, spec_parse_unsigned, spec_parse_decimal, spec_parse_currency, spec_format_currency, spec_frac_scale, spec_two_digits, spec_pow10, lemma_digits_value_upper, parse_currency_string, format_currency};
pub use entity::{Deduction, DeductionType, TaxEntity, TaxEntityType, MAX_DEDUCTIONS};
pub use errors::TaxError;
pub use fetch::{spec_candidate_urls, candidate_urls, is_success, spec_first_success, spec_last_failure, spec_exhaustion_message, resolve_attempts, lemma_fallback_exhaustion, lemma_fallback_first_success, AttemptOutcome};
pub use jurisdiction::{CanadianProvince, Country, Jurisdiction, USState};
pub use money::{Money, Rate, TaxAmount};
pub use patterns::{ws_then_lit, rate_pattern_at, lowest_tail_at, lowest_dollar_scan, lowest_pattern_at, rate_pattern_from, lowest_pattern_from, PatCaps};
pub use textscan::{is_digit_char, is_space_char, class_match, run_end, lit_at, contains_lit, digits_value, CharClass};
pub use us_federal::{block_texts_of, lower_of, spec_strip_commas, spec_capture_amount, spec_capture_rate, spec_rate_fragment_bracket, spec_lowest_fragment_bracket, spec_fragment_brackets, spec_extracted, spec_document_brackets, lemma_extraction_deterministic, spec_supports, USFederalScraper};
pub use bracket::{bracket_model, models_of, lemma_models_of_multiset, BracketModel};
pub use money::{MONEY_MAX_MANTISSA, MONEY_MAX_UNITS, MONEY_SCALE, RATE_MAX_MANTISSA, TAX_MAX_MANTISSA, TAX_SCALE};
