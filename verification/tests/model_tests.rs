use tax_engine::{
    format_currency, CanadianProvince, Country, DeductionType, Jurisdiction, Money, Rate,
    TaxBracket, TaxEntity, TaxEntityType, TaxError, TaxSchedule, USState,
};

#[test]
fn test_schedule_new_sorts_any_input_order() {
    let brackets = vec![
        TaxBracket {
            lower_bound: Money::from_units(50000),
            upper_bound: None,
            rate: Rate::from_percent(25),
        },
        TaxBracket {
            lower_bound: Money::from_units(0),
            upper_bound: Some(Money::from_units(20000)),
            rate: Rate::from_percent(10),
        },
        TaxBracket {
            lower_bound: Money::from_units(20000),
            upper_bound: Some(Money::from_units(50000)),
            rate: Rate::from_percent(15),
        },
    ];
    let schedule = TaxSchedule::new(2024, brackets);
    assert_eq!(schedule.brackets.len(), 3);
    for pair in schedule.brackets.windows(2) {
        assert!(pair[0].lower_bound.mantissa() <= pair[1].lower_bound.mantissa());
    }
    assert_eq!(schedule.brackets[0].rate, Rate::from_percent(10));
    assert_eq!(schedule.brackets[1].rate, Rate::from_percent(15));
    assert_eq!(schedule.brackets[2].rate, Rate::from_percent(25));
}

#[test]
fn test_schedule_new_keeps_equal_lower_bounds() {
    let brackets = vec![
        TaxBracket {
            lower_bound: Money::from_units(100),
            upper_bound: None,
            rate: Rate::from_percent(1),
        },
        TaxBracket {
            lower_bound: Money::from_units(100),
            upper_bound: None,
            rate: Rate::from_percent(2),
        },
    ];
    let schedule = TaxSchedule::new(2024, brackets);
    assert_eq!(schedule.brackets.len(), 2);
    let rates: Vec<u64> = schedule.brackets.iter().map(|b| b.rate.mantissa()).collect();
    let mut sorted_rates = rates.clone();
    sorted_rates.sort();
    assert_eq!(sorted_rates, vec![100, 200]);
}

#[test]
fn test_entity_totals_deductions_exactly() {
    let mut entity = TaxEntity::new(TaxEntityType::Individual, Money::from_units(75000), 2024);
    entity.add_deduction(Money::from_units(5000), DeductionType::Personal);
    entity.add_deduction(Money::from_scaled(25_500), DeductionType::Charitable); // 2.55
    assert_eq!(entity.total_deductions(), Money::from_scaled(50_025_500));
    assert_eq!(entity.taxable_income(), Money::from_scaled(699_974_500));
}

#[test]
fn test_entity_taxable_income_can_be_negative() {
    let mut entity = TaxEntity::new(TaxEntityType::Corporation, Money::from_units(100), 2024);
    entity.add_deduction(Money::from_units(250), DeductionType::Business);
    assert_eq!(entity.taxable_income(), Money::from_scaled(-1_500_000));
}

#[test]
fn test_get_country() {
    assert_eq!(
        Jurisdiction::Federal(Country::USA).get_country(),
        Country::USA
    );
    assert_eq!(
        Jurisdiction::Federal(Country::Canada).get_country(),
        Country::Canada
    );
    assert_eq!(
        Jurisdiction::USState(USState::California).get_country(),
        Country::USA
    );
    assert_eq!(
        Jurisdiction::CanadianProvince(CanadianProvince::Ontario).get_country(),
        Country::Canada
    );
}

#[test]
fn test_error_messages() {
    assert_eq!(
        TaxError::YearMismatch.message(),
        "Tax year mismatch between entity and schedule"
    );
    assert_eq!(
        TaxError::InvalidBrackets.message(),
        "Invalid tax bracket configuration"
    );
    assert_eq!(
        TaxError::FetchError(String::from("status 404")).message(),
        "Failed to fetch tax data: status 404"
    );
    assert_eq!(
        TaxError::ParseError(String::from("no match")).message(),
        "Failed to parse tax data: no match"
    );
    assert_eq!(
        TaxError::UnsupportedJurisdiction.message(),
        "Unsupported jurisdiction"
    );
    assert_eq!(
        TaxError::RateNotAvailable(2024).message(),
        "Rate not available for year 2024"
    );
    assert_eq!(
        TaxError::NetworkError(String::from("timed out")).message(),
        "Network error: timed out"
    );
}

#[test]
fn test_money_constructors_agree() {
    assert_eq!(Money::from_units(12), Money::from_scaled(120_000));
    assert_eq!(Money::zero(), Money::from_units(0));
    assert_eq!(Money::from_units(-3).mantissa(), -30_000);
    assert_eq!(Rate::from_percent(15).mantissa(), 1_500);
    assert_eq!(Rate::from_scaled(1_050).mantissa(), 1_050); // 10.5%
    assert_eq!(format_currency(Money::from_units(-3)), "$-3.00");
}
