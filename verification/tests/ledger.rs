//! Tests for the chronologically ordered ledger.

use taxator_calculator::date::Date;
use taxator_calculator::ledger::{Ledger, LedgerRecord};
use taxator_calculator::money::{Currency, Money, MoneyArithmeticsError};

#[test]
fn items_are_sorted_on_creation() {
    let day = LedgerRecord::new(
        Money::new(1000, Currency::UAH),
        Date::from_ymd(2024, 1, 23).unwrap(),
    );
    let dawn = LedgerRecord::new(
        Money::new(100, Currency::UAH),
        Date::from_ymd(2024, 1, 24).unwrap(),
    );
    let dusk = LedgerRecord::new(
        Money::new(10000, Currency::UAH),
        Date::from_ymd(2024, 1, 22).unwrap(),
    );
    let ledger = Ledger::new(&[dusk, dawn, day]);

    let entries = ledger.iter();

    assert_eq!(entries, &[dusk, day, dawn]);
}

#[test]
fn items_are_sorted_on_add() {
    let day = LedgerRecord::new(
        Money::new(1000, Currency::UAH),
        Date::from_ymd(2024, 1, 23).unwrap(),
    );
    let dawn = LedgerRecord::new(
        Money::new(100, Currency::UAH),
        Date::from_ymd(2024, 1, 24).unwrap(),
    );
    let dusk = LedgerRecord::new(
        Money::new(10000, Currency::UAH),
        Date::from_ymd(2024, 1, 22).unwrap(),
    );
    let mut ledger = Ledger::new(&[dusk, dawn]);

    ledger.add(day);

    let entries = ledger.iter();
    assert_eq!(entries, &[dusk, day, dawn]);
}

#[test]
fn remove_deletes_at_index_keeping_order() {
    let first = LedgerRecord::new(
        Money::new(100, Currency::UAH),
        Date::from_ymd(2024, 3, 1).unwrap(),
    );
    let second = LedgerRecord::new(
        Money::new(200, Currency::UAH),
        Date::from_ymd(2024, 3, 2).unwrap(),
    );
    let third = LedgerRecord::new(
        Money::new(300, Currency::UAH),
        Date::from_ymd(2024, 3, 3).unwrap(),
    );
    let mut ledger = Ledger::new(&[first, second, third]);

    ledger.remove(1);

    assert_eq!(ledger.iter(), &[first, third]);
}

#[test]
fn same_date_records_are_all_kept() {
    let date = Date::from_ymd(2024, 5, 5).unwrap();
    let one = LedgerRecord::new(Money::new(100, Currency::UAH), date);
    let two = LedgerRecord::new(Money::new(200, Currency::UAH), date);
    let mut ledger = Ledger::new(&[one]);

    ledger.add(two);

    let entries = ledger.iter();
    assert_eq!(entries.len(), 2);
    assert!(entries.contains(&one));
    assert!(entries.contains(&two));
}

#[test]
fn total_sums_all_amounts() {
    let ledger = Ledger::new(&[
        LedgerRecord::new(
            Money::new(1500, Currency::EUR),
            Date::from_ymd(2024, 7, 2).unwrap(),
        ),
        LedgerRecord::new(
            Money::new(2500, Currency::EUR),
            Date::from_ymd(2024, 7, 1).unwrap(),
        ),
    ]);

    let total = ledger.total().unwrap();

    assert_eq!(total, Money::new(4000, Currency::EUR));
}

#[test]
fn total_of_empty_ledger_is_zero_in_default_currency() {
    let ledger = Ledger::new(&[]);

    let total = ledger.total().unwrap();

    assert_eq!(total, Money::new(0, Currency::default()));
}

#[test]
fn total_fails_on_mixed_currencies() {
    let ledger = Ledger::new(&[
        LedgerRecord::new(
            Money::new(100, Currency::UAH),
            Date::from_ymd(2024, 7, 1).unwrap(),
        ),
        LedgerRecord::new(
            Money::new(200, Currency::USD),
            Date::from_ymd(2024, 7, 2).unwrap(),
        ),
    ]);

    let total = ledger.total();

    assert!(matches!(
        total,
        Err(MoneyArithmeticsError::CurrencyMismatch(
            Currency::UAH,
            Currency::USD
        ))
    ));
}

#[test]
fn is_empty_reflects_contents() {
    let mut ledger = Ledger::new(&[]);
    assert!(ledger.is_empty());

    ledger.add(LedgerRecord::new(
        Money::new(100, Currency::UAH),
        Date::from_ymd(2024, 1, 1).unwrap(),
    ));
    assert!(!ledger.is_empty());
}

#[test]
fn view_stays_sorted_through_adds() {
    let mut ledger = Ledger::new(&[]);
    let days = [15, 3, 28, 3, 9];
    for (i, day) in days.iter().enumerate() {
        ledger.add(LedgerRecord::new(
            Money::new(100 * (i as i64 + 1), Currency::UAH),
            Date::from_ymd(2024, 6, *day).unwrap(),
        ));
        let entries = ledger.iter();
        for w in entries.windows(2) {
            assert!(w[0].date().le(&w[1].date()));
        }
    }
}
