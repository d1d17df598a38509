use tax_engine::{
    DeductionType, IncomeTaxCalculator, Money, Rate, TaxAmount, TaxBracket, TaxEntity,
    TaxEntityType, TaxError, TaxSchedule,
};

fn two_bracket_schedule(year: u16) -> TaxSchedule {
    TaxSchedule::new(
        year,
        vec![
            TaxBracket {
                lower_bound: Money::from_units(0),
                upper_bound: Some(Money::from_units(50000)),
                rate: Rate::from_percent(15),
            },
            TaxBracket {
                lower_bound: Money::from_units(50000),
                upper_bound: None,
                rate: Rate::from_percent(25),
            },
        ],
    )
}

#[test]
fn test_basic_tax_calculation() {
    let mut entity = TaxEntity::new(TaxEntityType::Individual, Money::from_units(100000), 2024);

    entity.add_deduction(Money::from_units(10000), DeductionType::Personal);

    let schedule = two_bracket_schedule(2024);

    let tax = IncomeTaxCalculator::calculate_tax(&entity, &schedule).unwrap();
    assert_eq!(tax, TaxAmount::from_units(17500));
}

#[test]
fn test_year_mismatch_fails_without_arithmetic() {
    let entity = TaxEntity::new(TaxEntityType::Individual, Money::from_units(100000), 2023);
    let schedule = two_bracket_schedule(2024);

    let result = IncomeTaxCalculator::calculate_tax(&entity, &schedule);
    assert!(matches!(result, Err(TaxError::YearMismatch)));
}

#[test]
fn test_zero_tax_when_deductions_equal_income() {
    let mut entity = TaxEntity::new(TaxEntityType::Individual, Money::from_units(40000), 2024);
    entity.add_deduction(Money::from_units(40000), DeductionType::Business);

    let schedule = two_bracket_schedule(2024);
    let tax = IncomeTaxCalculator::calculate_tax(&entity, &schedule).unwrap();
    assert_eq!(tax, TaxAmount::from_units(0));
}

#[test]
fn test_zero_tax_when_deductions_exceed_income() {
    let mut entity = TaxEntity::new(TaxEntityType::Corporation, Money::from_units(40000), 2024);
    entity.add_deduction(Money::from_units(25000), DeductionType::Business);
    entity.add_deduction(Money::from_units(25000), DeductionType::Charitable);

    // Whatever the bracket configuration, non-positive taxable income owes
    // nothing.
    let schedule = TaxSchedule::new(
        2024,
        vec![TaxBracket {
            lower_bound: Money::from_units(0),
            upper_bound: None,
            rate: Rate::from_percent(99),
        }],
    );
    let tax = IncomeTaxCalculator::calculate_tax(&entity, &schedule).unwrap();
    assert_eq!(tax, TaxAmount::from_units(0));
}

#[test]
fn test_empty_schedule_owes_nothing() {
    let entity = TaxEntity::new(TaxEntityType::Individual, Money::from_units(100000), 2024);
    let schedule = TaxSchedule::new(2024, vec![]);
    let tax = IncomeTaxCalculator::calculate_tax(&entity, &schedule).unwrap();
    assert_eq!(tax, TaxAmount::from_units(0));
}

#[test]
fn test_income_within_first_bracket() {
    let entity = TaxEntity::new(TaxEntityType::Individual, Money::from_units(30000), 2024);
    let schedule = two_bracket_schedule(2024);
    let tax = IncomeTaxCalculator::calculate_tax(&entity, &schedule).unwrap();
    // 30,000 * 0.15 = 4,500
    assert_eq!(tax, TaxAmount::from_units(4500));
}

#[test]
fn test_sub_cent_amounts_are_exact() {
    // One cent of income at 15%: the tax is 0.0015 currency units, held
    // exactly at the tax amount's eight-digit resolution.
    let entity = TaxEntity::new(
        TaxEntityType::Individual,
        Money::from_scaled(100), // 0.01
        2024,
    );
    let schedule = two_bracket_schedule(2024);
    let tax = IncomeTaxCalculator::calculate_tax(&entity, &schedule).unwrap();
    assert_eq!(tax, TaxAmount::from_scaled(150_000)); // 0.0015
}

#[test]
fn test_three_bracket_progression() {
    let schedule = TaxSchedule::new(
        2024,
        vec![
            TaxBracket {
                lower_bound: Money::from_units(20000),
                upper_bound: Some(Money::from_units(60000)),
                rate: Rate::from_percent(20),
            },
            TaxBracket {
                lower_bound: Money::from_units(0),
                upper_bound: Some(Money::from_units(20000)),
                rate: Rate::from_percent(10),
            },
            TaxBracket {
                lower_bound: Money::from_units(60000),
                upper_bound: None,
                rate: Rate::from_percent(30),
            },
        ],
    );
    let entity = TaxEntity::new(TaxEntityType::Partnership, Money::from_units(75000), 2024);
    // 20,000 * 0.10 + 40,000 * 0.20 + 15,000 * 0.30 = 2,000 + 8,000 + 4,500
    let tax = IncomeTaxCalculator::calculate_tax(&entity, &schedule).unwrap();
    assert_eq!(tax, TaxAmount::from_units(14500));
}
