//! End-to-end scenario: a ledger of dated incomes, its ordered view, its
//! total, and the tax due on that total.

use taxator_calculator::date::Date;
use taxator_calculator::ledger::{Ledger, LedgerRecord};
use taxator_calculator::money::{Currency, Money};
use taxator_calculator::tax::TaxCalculator;

#[test]
fn ledger_view_total_and_tax() {
    let ledger = Ledger::new(&[
        LedgerRecord::new(
            Money::new(10000, Currency::UAH),
            Date::from_ymd(2024, 1, 22).unwrap(),
        ),
        LedgerRecord::new(
            Money::new(30000, Currency::UAH),
            Date::from_ymd(2024, 1, 24).unwrap(),
        ),
        LedgerRecord::new(
            Money::new(20000, Currency::UAH),
            Date::from_ymd(2024, 1, 23).unwrap(),
        ),
    ]);

    let entries = ledger.iter();
    assert_eq!(entries.len(), 3);
    assert_eq!(entries[0].amount(), Money::new(10000, Currency::UAH));
    assert_eq!(entries[0].date(), Date::from_ymd(2024, 1, 22).unwrap());
    assert_eq!(entries[1].amount(), Money::new(20000, Currency::UAH));
    assert_eq!(entries[1].date(), Date::from_ymd(2024, 1, 23).unwrap());
    assert_eq!(entries[2].amount(), Money::new(30000, Currency::UAH));
    assert_eq!(entries[2].date(), Date::from_ymd(2024, 1, 24).unwrap());

    let total = ledger.total().unwrap();
    assert_eq!(total, Money::new(60000, Currency::UAH));

    let tax = TaxCalculator::default().for_income(&total);
    assert_eq!(tax, Money::new(3000, Currency::UAH));
}

#[test]
fn ledger_total_matches_insertion_order_total() {
    let records = [
        LedgerRecord::new(
            Money::new(70000, Currency::UAH),
            Date::from_ymd(2024, 2, 20).unwrap(),
        ),
        LedgerRecord::new(
            Money::new(5000, Currency::UAH),
            Date::from_ymd(2024, 2, 1).unwrap(),
        ),
        LedgerRecord::new(
            Money::new(12500, Currency::UAH),
            Date::from_ymd(2024, 2, 10).unwrap(),
        ),
    ];
    let amounts_in_insertion_order: Vec<Money> = records.iter().map(|r| r.amount()).collect();
    let ledger = Ledger::new(&records);

    assert_eq!(
        ledger.total().unwrap(),
        Money::total(&amounts_in_insertion_order).unwrap()
    );
}
