use tax_engine::{
    Country, Jurisdiction, Money, Rate, TaxEntityType, TaxError, USFederalScraper,
};

const ANNOUNCEMENT: &str = "<html><body>\
<p>The top rate stays at 35% for incomes over $243,725 for single filers.</p>\
<div>The lowest rate is 10% for incomes of single individuals with incomes of \
$11,600 or less.</div>\
<p>Nothing about rates here.</p>\
</body></html>";

#[test]
fn test_parse_rate_text_captures_floor_and_rate() {
    let scraper = USFederalScraper::new();
    let bracket = scraper
        .parse_rate_text("the top rate stays at 35% for incomes over $243,725 for singles")
        .unwrap();
    assert_eq!(bracket.lower_bound, Money::from_units(243_725));
    assert_eq!(bracket.upper_bound, None);
    assert_eq!(bracket.rate, Rate::from_percent(35));
}

#[test]
fn test_parse_rate_text_needs_gate_phrase() {
    let scraper = USFederalScraper::new();
    // The pattern alone is not enough: the literal gate phrase must occur,
    // with single spaces, as the announcements print it.
    assert!(scraper
        .parse_rate_text("35% for  incomes  over $243,725")
        .is_none());
}

#[test]
fn test_parse_lowest_rate_text_captures_ceiling() {
    let scraper = USFederalScraper::new();
    let bracket = scraper
        .parse_lowest_rate_text(
            "the lowest rate is 10% for incomes of single individuals with incomes of $11,600 or less",
        )
        .unwrap();
    assert_eq!(bracket.lower_bound, Money::from_units(0));
    assert_eq!(bracket.upper_bound, Some(Money::from_units(11_600)));
    assert_eq!(bracket.rate, Rate::from_percent(10));
}

#[test]
fn test_parse_lowest_rate_text_takes_last_figure_on_line() {
    let scraper = USFederalScraper::new();
    // The greedy gap captures the last viable dollar figure before "or
    // less" on the same line.
    let bracket = scraper
        .parse_lowest_rate_text("the lowest rate is 10% applies at $5,000 and at $11,600 or less")
        .unwrap();
    assert_eq!(bracket.upper_bound, Some(Money::from_units(11_600)));
}

#[test]
fn test_parse_lowest_rate_text_does_not_cross_lines() {
    let scraper = USFederalScraper::new();
    // The gap between the percentage and the dollar figure never crosses a
    // line feed.
    assert!(scraper
        .parse_lowest_rate_text("the lowest rate is 10%\nfor incomes of $11,600 or less")
        .is_none());
}

#[test]
fn test_parse_tax_brackets_finds_both_patterns() {
    let scraper = USFederalScraper::new();
    let brackets = scraper.parse_tax_brackets(ANNOUNCEMENT, 2024).unwrap();
    assert_eq!(brackets.len(), 2);
}

#[test]
fn test_schedule_from_document_sorts_by_lower_bound() {
    let scraper = USFederalScraper::new();
    let schedule = scraper.schedule_from_document(ANNOUNCEMENT, 2024).unwrap();
    assert_eq!(schedule.tax_year, 2024);
    assert_eq!(schedule.brackets.len(), 2);
    assert_eq!(schedule.brackets[0].rate, Rate::from_percent(10));
    assert_eq!(schedule.brackets[0].lower_bound, Money::from_units(0));
    assert_eq!(
        schedule.brackets[0].upper_bound,
        Some(Money::from_units(11_600))
    );
    assert_eq!(schedule.brackets[1].rate, Rate::from_percent(35));
    assert_eq!(schedule.brackets[1].lower_bound, Money::from_units(243_725));
    assert_eq!(schedule.brackets[1].upper_bound, None);
}

#[test]
fn test_extraction_is_idempotent() {
    let scraper = USFederalScraper::new();
    let first = scraper.parse_tax_brackets(ANNOUNCEMENT, 2024).unwrap();
    let second = scraper.parse_tax_brackets(ANNOUNCEMENT, 2024).unwrap();
    assert_eq!(first, second);

    let s1 = scraper.schedule_from_document(ANNOUNCEMENT, 2024).unwrap();
    let s2 = scraper.schedule_from_document(ANNOUNCEMENT, 2024).unwrap();
    assert_eq!(s1, s2);
}

#[test]
fn test_extraction_lowercases_fragments() {
    let scraper = USFederalScraper::new();
    // The announcement text in capitals still matches: fragments are
    // lower-cased before the patterns are tried.
    let html = "<p>THE LOWEST RATE IS 10% FOR INCOMES OF $11,600 OR LESS.</p>";
    let brackets = scraper.parse_tax_brackets(html, 2024).unwrap();
    assert_eq!(brackets.len(), 1);
    assert_eq!(brackets[0].upper_bound, Some(Money::from_units(11_600)));
}

#[test]
fn test_extraction_respects_element_boundaries() {
    let scraper = USFederalScraper::new();
    // The two halves of the phrase sit in different block elements, so no
    // single fragment matches; text is matched per element, never across
    // the raw markup.
    let html = "<p>lowest rate is 10%</p><p>incomes of $5,000 or less</p>";
    let result = scraper.parse_tax_brackets(html, 2024);
    assert!(matches!(result, Err(TaxError::ParseError(_))));
}

#[test]
fn test_parse_tax_brackets_reports_no_match() {
    let scraper = USFederalScraper::new();
    let result = scraper.parse_tax_brackets("<p>nothing relevant</p>", 2024);
    match result {
        Err(e) => {
            assert!(matches!(e, TaxError::ParseError(_)));
            assert_eq!(
                e.message(),
                "Failed to parse tax data: Could not find tax bracket information"
            );
        }
        Ok(_) => panic!("matched brackets in an empty document"),
    }
}

#[test]
fn test_supports_jurisdiction_only_us_federal() {
    let scraper = USFederalScraper::new();
    assert!(scraper.supports_jurisdiction(&Jurisdiction::Federal(Country::USA)));
    assert!(!scraper.supports_jurisdiction(&Jurisdiction::Federal(Country::Canada)));
}

#[test]
fn test_ensure_supported_rejects_other_requests() {
    let scraper = USFederalScraper::new();
    assert!(scraper
        .ensure_supported(&Jurisdiction::Federal(Country::USA), &TaxEntityType::Individual)
        .is_ok());
    let err = scraper
        .ensure_supported(&Jurisdiction::Federal(Country::Canada), &TaxEntityType::Individual)
        .unwrap_err();
    assert!(matches!(err, TaxError::UnsupportedJurisdiction));
    let err = scraper
        .ensure_supported(&Jurisdiction::Federal(Country::USA), &TaxEntityType::Corporation)
        .unwrap_err();
    assert!(matches!(err, TaxError::UnsupportedJurisdiction));
}

#[test]
fn test_huge_percentages_are_refused() {
    let scraper = USFederalScraper::new();
    // A percentage too large for a 32-bit count yields no bracket.
    assert!(scraper
        .parse_rate_text("99999999999% for incomes over $100")
        .is_none());
    // A dollar figure beyond the representable money range yields none
    // either.
    assert!(scraper
        .parse_rate_text("35% for incomes over $100,000,000,000,000,000")
        .is_none());
}
