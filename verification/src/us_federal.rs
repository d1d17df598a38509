//! US federal rate extraction: heuristic bracket parsing over fetched
//! source text.
//!
//! Source documents are unstructured prose, not a machine-readable feed,
//! so this stage is deliberately heuristic: each block-level text fragment
//! of the document is lower-cased and held against the two bracket
//! patterns, every fragment independently against both. A document that
//! matches nothing is a reported failure, never a silently empty schedule.
//!
//! The HTML-fragment text extractor and Unicode lower-casing are outside
//! collaborators, named by uninterpreted functions and called through
//! trusted wrappers; everything from the fragment texts to the finished
//! schedule is verified against the pattern grammar.

use vstd::prelude::*;
use vstd::string::StringExecFns;

use crate::bracket::{
    bracket_model, models_of, sorted_by_lower, BracketModel, TaxBracket, TaxSchedule,
};
use crate::entity::TaxEntityType;
use crate::errors::TaxError;
use crate::jurisdiction::{Country, Jurisdiction};
use crate::money::{Money, Rate, MONEY_MAX_UNITS, MONEY_SCALE};
use crate::patterns::{
    lemma_lowest_search_caps, lemma_rate_search_caps, lowest_pattern_from, rate_pattern_from,
    find_lowest_pattern, find_rate_pattern, PatCaps,
};
use crate::textscan::{
    chars_of, class_match, contains_lit, digits_to_value, digits_value, find_lit, is_digit_char,
    CharClass,
};

verus! {

/// What the HTML text extractor yields for a document: the concatenated
/// text content of each block-level (`p` or `div`) element, in document
/// order. The result depends on the document text alone.
pub uninterp spec fn block_texts_of(document: Seq<char>) -> Seq<Seq<char>>;

/// Relies on scraper's `Html::parse_document`, `Selector::parse` and
/// `ElementRef::text`: parses the document and yields the concatenated
/// text content of every `p` and `div` element, in document order.
#[verifier::external_body]
fn block_text_fragments(document: &str) -> (r: Vec<String>)
    ensures
        r.deep_view() == block_texts_of(document@),
{
    let mut out = Vec::new();
    if let Ok(selector) = scraper::Selector::parse("p,div") {
        let html = scraper::Html::parse_document(document);
        for element in html.select(&selector) {
            out.push(element.text().collect::<String>());
        }
    }
    out
}

/// What lower-casing yields for a text: the result depends on the
/// characters alone.
pub uninterp spec fn lower_of(s: Seq<char>) -> Seq<char>;

/// Relies on `str::to_lowercase`: the Unicode lowercase rendering of the
/// text.
#[verifier::external_body]
fn lowercase(s: &str) -> (r: String)
    ensures
        r@ == lower_of(s@),
{
    s.to_lowercase()
}

/// A digit-comma capture with its grouping commas removed.
pub open spec fn spec_strip_commas(s: Seq<char>) -> Seq<char> {
    s.filter(|c: char| c as u32 != 44)
}

/// The money mantissa named by a digit-comma capture: its digit value in
/// whole units, when it has at least one digit and fits the representable
/// money range.
pub open spec fn spec_capture_amount(s: Seq<char>) -> Option<int> {
    let digits = spec_strip_commas(s);
    if digits.len() > 0 && digits_value(digits) <= MONEY_MAX_UNITS as int {
        Some(digits_value(digits) * MONEY_SCALE)
    } else {
        None
    }
}

/// The rate mantissa named by a digit capture: the percentage divided by
/// one hundred, scaled exactly — never through floating point — when the
/// percentage fits a 32-bit count.
pub open spec fn spec_capture_rate(s: Seq<char>) -> Option<int> {
    if digits_value(s) <= u32::MAX as int {
        Some(digits_value(s) * 100)
    } else {
        None
    }
}

/// The bracket the rate pattern yields on a lower-cased fragment: its
/// percentage as the rate, its dollar figure as the lower bound, no upper
/// bound. The fragment must carry the literal gate phrase, exactly as the
/// announcements print it, before the pattern is tried.
pub open spec fn spec_rate_fragment_bracket(f: Seq<char>) -> Option<BracketModel> {
    if contains_lit(f, "% for incomes over"@) {
        match rate_pattern_from(f, 0) {
            Some(caps) => {
                let p = spec_capture_rate(f.subrange(caps.g1_start, caps.g1_end));
                let a = spec_capture_amount(f.subrange(caps.g2_start, caps.g2_end));
                if p is Some && a is Some {
                    Some(BracketModel { lower: a->Some_0, upper: None, rate: p->Some_0 })
                } else {
                    None
                }
            },
            None => None,
        }
    } else {
        None
    }
}

/// The bracket the lowest-rate pattern yields on a lower-cased fragment:
/// lower bound zero, its dollar figure as the upper bound. Both gate
/// phrases must be present before the pattern is tried.
pub open spec fn spec_lowest_fragment_bracket(f: Seq<char>) -> Option<BracketModel> {
    if contains_lit(f, "lowest rate is"@) && contains_lit(f, "or less"@) {
        match lowest_pattern_from(f, 0) {
            Some(caps) => {
                let p = spec_capture_rate(f.subrange(caps.g1_start, caps.g1_end));
                let a = spec_capture_amount(f.subrange(caps.g2_start, caps.g2_end));
                if p is Some && a is Some {
                    Some(BracketModel { lower: 0, upper: Some(a->Some_0), rate: p->Some_0 })
                } else {
                    None
                }
            },
            None => None,
        }
    } else {
        None
    }
}

/// The brackets one lower-cased fragment contributes: the rate pattern's
/// bracket, then the lowest-rate pattern's, each tried independently.
pub open spec fn spec_fragment_brackets(f: Seq<char>) -> Seq<BracketModel> {
    (match spec_rate_fragment_bracket(f) {
        Some(b) => seq![b],
        None => seq![],
    }) + (match spec_lowest_fragment_bracket(f) {
        Some(b) => seq![b],
        None => seq![],
    })
}

/// The brackets a fragment sequence yields, in document order, each
/// fragment lower-cased before matching.
pub open spec fn spec_extracted(frags: Seq<Seq<char>>) -> Seq<BracketModel>
    decreases frags.len(),
{
    if frags.len() == 0 {
        seq![]
    } else {
        spec_extracted(frags.drop_last()) + spec_fragment_brackets(lower_of(frags.last()))
    }
}

/// The brackets a whole document yields: extraction over its block-level
/// text fragments.
pub open spec fn spec_document_brackets(document: Seq<char>) -> Seq<BracketModel> {
    spec_extracted(block_texts_of(document))
}

/// Extraction is a pure function of the document text: two parses of the
/// same text always yield structurally identical bracket sequences.
pub proof fn lemma_extraction_deterministic(
    document: Seq<char>,
    r1: Seq<BracketModel>,
    r2: Seq<BracketModel>,
)
    requires
        r1 == spec_document_brackets(document),
        r2 == spec_document_brackets(document),
    ensures
        r1 == r2,
{
}

/// This scraper supports exactly the US federal jurisdiction.
pub open spec fn spec_supports(j: Jurisdiction) -> bool {
    j == Jurisdiction::Federal(Country::USA)
}

/// The US federal rate source: bracket extraction from announcement text.
/// Fetching the text is the fetch plan's and its runner's business; this
/// type turns fetched text into schedules.
pub struct USFederalScraper;

impl USFederalScraper {
    /// Creates a US federal scraper.
    pub fn new() -> (r: USFederalScraper) {
        USFederalScraper
    }

    /// Whether this scraper supports a jurisdiction: only US federal.
    pub fn supports_jurisdiction(&self, jurisdiction: &Jurisdiction) -> (r: bool)
        ensures
            r == spec_supports(*jurisdiction),
    {
        matches!(jurisdiction, Jurisdiction::Federal(Country::USA))
    }

    /// Rejects unsupported request combinations: anything but the US
    /// federal jurisdiction with an individual entity fails with
    /// [`TaxError::UnsupportedJurisdiction`] before any fetch is tried.
    pub fn ensure_supported(
        &self,
        jurisdiction: &Jurisdiction,
        entity_type: &TaxEntityType,
    ) -> (r: Result<(), TaxError>)
        ensures
            r is Ok <==> (*jurisdiction == Jurisdiction::Federal(Country::USA) && *entity_type
                == TaxEntityType::Individual),
            r is Err ==> r->Err_0 == TaxError::UnsupportedJurisdiction,
    {
        match (jurisdiction, entity_type) {
            (Jurisdiction::Federal(Country::USA), TaxEntityType::Individual) => Ok(()),
            _ => Err(TaxError::UnsupportedJurisdiction),
        }
    }

    /// Evaluates the digit-comma capture `v[from .. to]` as a money
    /// amount: commas removed, the digits read as whole currency units.
    /// Yields nothing when no digit remains or the value lies outside the
    /// representable money range.
    pub fn extract_number(&self, v: &Vec<char>, from: usize, to: usize) -> (r: Option<Money>)
        requires
            0 <= from <= to <= v@.len(),
            forall|i: int| from <= i < to ==> class_match(CharClass::DigitComma, #[trigger] v@[i]),
        ensures
            match r {
                Some(m) => spec_capture_amount(v@.subrange(from as int, to as int)) == Some(m@)
                    && m.wf(),
                None => spec_capture_amount(v@.subrange(from as int, to as int)) is None,
            },
    {
        let ghost whole = v@.subrange(from as int, to as int);
        let mut digits: Vec<char> = Vec::new();
        let mut k = from;
        while k < to
            invariant
                from <= k <= to <= v@.len(),
                whole == v@.subrange(from as int, to as int),
                forall|i: int|
                    from <= i < to ==> class_match(CharClass::DigitComma, #[trigger] v@[i]),
                digits@ == spec_strip_commas(whole.take(k - from)),
                forall|i: int| 0 <= i < digits@.len() ==> is_digit_char(#[trigger] digits@[i]),
            decreases to - k,
        {
            let c = v[k];
            proof {
                let prefix = whole.take(k - from);
                assert(whole.take(k - from + 1).drop_last() =~= prefix);
                assert(whole.take(k - from + 1).last() == v@[k as int]);
                lemma_strip_last(whole.take(k - from + 1));
            }
            if (c as u32) != 44 {
                digits.push(c);
            }
            k = k + 1;
        }
        proof {
            assert(whole.take(to - from) =~= whole);
        }
        if digits.len() == 0 {
            return None;
        }
        let dn = digits.len();
        match digits_to_value(&digits, 0, dn, MONEY_MAX_UNITS as u128) {
            Some(value) => {
                proof {
                    assert(digits@.subrange(0, dn as int) =~= digits@);
                }
                Some(Money::from_units(value as i64))
            },
            None => {
                proof {
                    assert(digits@.subrange(0, dn as int) =~= digits@);
                }
                None
            },
        }
    }

    /// Matches a lower-cased fragment against the rate pattern: a bracket
    /// with the captured dollar floor as lower bound and no upper bound.
    pub fn parse_rate_text(&self, text: &str) -> (r: Option<TaxBracket>)
        ensures
            match r {
                Some(b) => spec_rate_fragment_bracket(text@) == Some(bracket_model(b)) && b.wf(),
                None => spec_rate_fragment_bracket(text@) is None,
            },
    {
        let v = chars_of(text);
        if !find_lit(&v, "% for incomes over") {
            return None;
        }
        match find_rate_pattern(&v) {
            Some((g1s, g1e, g2s, g2e)) => {
                proof {
                    lemma_rate_search_caps(v@, 0);
                }
                let p = match digits_to_value(&v, g1s, g1e, 4294967295) {
                    Some(p) => p,
                    None => { return None },
                };
                let amount = match self.extract_number(&v, g2s, g2e) {
                    Some(a) => a,
                    None => { return None },
                };
                let b = TaxBracket {
                    lower_bound: amount,
                    upper_bound: None,
                    rate: Rate::from_percent(p as u32),
                };
                Some(b)
            },
            None => None,
        }
    }

    /// Matches a lower-cased fragment against the lowest-rate pattern: a
    /// bracket from zero up to the captured dollar ceiling.
    pub fn parse_lowest_rate_text(&self, text: &str) -> (r: Option<TaxBracket>)
        ensures
            match r {
                Some(b) => spec_lowest_fragment_bracket(text@) == Some(bracket_model(b)) && b.wf(),
                None => spec_lowest_fragment_bracket(text@) is None,
            },
    {
        let v = chars_of(text);
        if !find_lit(&v, "lowest rate is") {
            return None;
        }
        if !find_lit(&v, "or less") {
            return None;
        }
        match find_lowest_pattern(&v) {
            Some((g1s, g1e, g2s, g2e)) => {
                proof {
                    lemma_lowest_search_caps(v@, 0);
                }
                let p = match digits_to_value(&v, g1s, g1e, 4294967295) {
                    Some(p) => p,
                    None => { return None },
                };
                let amount = match self.extract_number(&v, g2s, g2e) {
                    Some(a) => a,
                    None => { return None },
                };
                let b = TaxBracket {
                    lower_bound: Money::zero(),
                    upper_bound: Some(amount),
                    rate: Rate::from_percent(p as u32),
                };
                Some(b)
            },
            None => None,
        }
    }

    /// Extracts every bracket the document's block-level fragments yield,
    /// in document order. Fails with [`TaxError::ParseError`] exactly when
    /// no fragment matches either pattern.
    pub fn parse_tax_brackets(&self, content: &str, _tax_year: u16) -> (r: Result<
        Vec<TaxBracket>,
        TaxError,
    >)
        ensures
            match r {
                Ok(bs) => {
                    &&& models_of(bs@) == spec_document_brackets(content@)
                    &&& bs@.len() > 0
                    &&& forall|i: int| 0 <= i < bs@.len() ==> (#[trigger] bs@[i]).wf()
                },
                Err(e) => {
                    &&& e matches TaxError::ParseError(m) && m@
                        == "Could not find tax bracket information"@
                    &&& spec_document_brackets(content@).len() == 0
                },
            },
    {
        let fragments = block_text_fragments(content);
        let ghost frags = fragments.deep_view();
        let n = fragments.len();
        let mut out: Vec<TaxBracket> = Vec::new();
        let mut k: usize = 0;
        while k < n
            invariant
                0 <= k <= n,
                n == fragments@.len(),
                frags == fragments.deep_view(),
                frags.len() == n,
                models_of(out@) == spec_extracted(frags.take(k as int)),
                forall|i: int| 0 <= i < out@.len() ==> (#[trigger] out@[i]).wf(),
            decreases n - k,
        {
            let lowered = lowercase(fragments[k].as_str());
            proof {
                assert(fragments@[k as int]@ == frags[k as int]);
                assert(frags.take(k as int + 1).drop_last() =~= frags.take(k as int));
                assert(frags.take(k as int + 1).last() == frags[k as int]);
            }
            let ghost before = out@;
            match self.parse_rate_text(lowered.as_str()) {
                Some(b) => {
                    out.push(b);
                    proof {
                        assert(models_of(before.push(b)) =~= models_of(before).push(
                            bracket_model(b),
                        ));
                    }
                },
                None => {},
            }
            let ghost mid = out@;
            match self.parse_lowest_rate_text(lowered.as_str()) {
                Some(b) => {
                    out.push(b);
                    proof {
                        assert(models_of(mid.push(b)) =~= models_of(mid).push(bracket_model(b)));
                    }
                },
                None => {},
            }
            proof {
                assert(models_of(out@) =~= spec_extracted(frags.take(k as int + 1)));
            }
            k = k + 1;
        }
        proof {
            assert(frags.take(n as int) =~= frags);
        }
        if out.len() == 0 {
            proof {
                assert(models_of(out@).len() == 0);
            }
            return Err(
                TaxError::ParseError(String::from_str("Could not find tax bracket information")),
            );
        }
        proof {
            assert(models_of(out@).len() == out@.len());
        }
        Ok(out)
    }

    /// Turns fetched document text into the schedule for a tax year: the
    /// extracted brackets, sorted ascending by lower bound. Fails with
    /// [`TaxError::ParseError`] exactly when the document yields no
    /// bracket; a non-empty extraction always assembles into a non-empty
    /// schedule, so no rate-unavailable failure can arise from it.
    pub fn schedule_from_document(&self, content: &str, tax_year: u16) -> (r: Result<
        TaxSchedule,
        TaxError,
    >)
        ensures
            match r {
                Ok(s) => {
                    &&& s.tax_year == tax_year
                    &&& sorted_by_lower(s.brackets@)
                    &&& models_of(s.brackets@).to_multiset() == spec_document_brackets(
                        content@,
                    ).to_multiset()
                    &&& s.brackets@.len() == spec_document_brackets(content@).len() > 0
                    &&& s.wf()
                },
                Err(e) => {
                    &&& e matches TaxError::ParseError(m) && m@
                        == "Could not find tax bracket information"@
                    &&& spec_document_brackets(content@).len() == 0
                },
            },
    {
        let brackets = match self.parse_tax_brackets(content, tax_year) {
            Ok(bs) => bs,
            Err(e) => { return Err(e) },
        };
        let ghost unsorted = brackets@;
        let schedule = TaxSchedule::new(tax_year, brackets);
        if schedule.brackets.is_empty() {
            return Err(TaxError::RateNotAvailable(tax_year));
        }
        proof {
            assert(models_of(schedule.brackets@).to_multiset() == models_of(
                unsorted,
            ).to_multiset());
        }
        Ok(schedule)
    }
}

/// A sequence stripped of commas keeps a trailing non-comma and drops a
/// trailing comma.
pub proof fn lemma_strip_last(s: Seq<char>)
    requires
        s.len() > 0,
    ensures
        spec_strip_commas(s) == if s.last() as u32 != 44 {
            spec_strip_commas(s.drop_last()).push(s.last())
        } else {
            spec_strip_commas(s.drop_last())
        },
{
    reveal_with_fuel(Seq::filter, 2);
}

} // verus!
