use tax_engine::{format_currency, parse_currency_string, Money};

#[test]
fn test_parse_currency_string() {
    assert_eq!(
        parse_currency_string("$1,234.56"),
        Some(Money::from_scaled(12_345_600))
    );
    assert_eq!(
        parse_currency_string("1234.56"),
        Some(Money::from_scaled(12_345_600))
    );
    assert_eq!(parse_currency_string("$1,234"), Some(Money::from_units(1234)));
    assert_eq!(parse_currency_string("invalid"), None);
}

#[test]
fn test_format_currency() {
    assert_eq!(format_currency(Money::from_scaled(12_345_600)), "$1234.56");
    assert_eq!(format_currency(Money::from_scaled(12_345_000)), "$1234.50");
    assert_eq!(format_currency(Money::from_units(1234)), "$1234.00");
}

#[test]
fn test_parse_currency_trims_whitespace() {
    assert_eq!(
        parse_currency_string("  $99.25\t"),
        Some(Money::from_scaled(992_500))
    );
}

#[test]
fn test_parse_currency_negative_amount() {
    assert_eq!(
        parse_currency_string("-$12.50"),
        Some(Money::from_scaled(-125_000))
    );
}

#[test]
fn test_parse_currency_rejects_inner_spaces_and_double_points() {
    assert_eq!(parse_currency_string("12 34"), None);
    assert_eq!(parse_currency_string("1.2.3"), None);
    assert_eq!(parse_currency_string(""), None);
    assert_eq!(parse_currency_string("$"), None);
}

#[test]
fn test_parse_currency_fractional_resolution() {
    // Four fractional digits are the money resolution; five are refused.
    assert_eq!(
        parse_currency_string("0.1234"),
        Some(Money::from_scaled(1234))
    );
    assert_eq!(parse_currency_string("0.12345"), None);
}

#[test]
fn test_format_currency_rounds_half_away_from_zero() {
    // 1.005 rounds up to 1.01; -1.005 rounds away to -1.01.
    assert_eq!(format_currency(Money::from_scaled(10_050)), "$1.01");
    assert_eq!(format_currency(Money::from_scaled(-10_050)), "$-1.01");
    assert_eq!(format_currency(Money::from_scaled(10_049)), "$1.00");
}

#[test]
fn test_parse_then_format_round_trip_two_decimals() {
    let parsed = parse_currency_string("$2,500.75").unwrap();
    assert_eq!(format_currency(parsed), "$2500.75");
}
