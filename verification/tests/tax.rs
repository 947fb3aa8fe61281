//! Tests for the flat-percentage tax calculator.

use taxator_calculator::money::{Currency, Money};
use taxator_calculator::tax::{CalculationError, TaxCalculator};

#[test]
fn tax_is_zero_in_default_currency_for_empty_incomes() {
    let calculator = TaxCalculator::default();
    let incomes = vec![];

    let tax = calculator.for_incomes(&incomes).unwrap();

    assert_eq!(tax, Money::new(0, Currency::default()));
}

#[test]
fn tax_is_percent_of_total_incomes() {
    let calculator = TaxCalculator::default();
    let incomes = vec![
        Money::new(20000, Currency::UAH),
        Money::new(40000, Currency::UAH),
    ];

    let tax = calculator.for_incomes(&incomes).unwrap();

    assert_eq!(tax, Money::new(3000, Currency::default()));
}

#[test]
fn reject_mixed_incomes_currencies() {
    let calculator = TaxCalculator::default();
    let incomes = vec![
        Money::new(20000, Currency::UAH),
        Money::new(40000, Currency::USD),
    ];

    let result = calculator.for_incomes(&incomes);

    assert!(matches!(result, Err(CalculationError::MixedCurrencies)));
}

#[test]
fn tax_for_single_income() {
    let calculator = TaxCalculator::new(1800);

    let tax = calculator.for_income(&Money::new(50000, Currency::EUR));

    assert_eq!(tax, Money::new(9000, Currency::EUR));
}

#[test]
fn default_rate_is_five_percent() {
    let calculator = TaxCalculator::default();

    let tax = calculator.for_income(&Money::new(10000, Currency::UAH));

    assert_eq!(tax, Money::new(500, Currency::UAH));
}
