//! Calculates taxes over money amounts.

use vstd::prelude::*;

use crate::money::{
    percent_amount, prefix_sums_fit, sum_amounts, uniform_currency, Currency, Money,
};

verus! {

/// The default flat tax rate, in hundredths of a percent: 5%.
pub const TAX_PERCENT: i64 = 500;

/// Tax over several incomes needs one shared currency; this error hides the
/// specific currencies behind a coarser, policy-level kind.
#[derive(Debug, Clone, Copy, PartialEq, Eq, Structural)]
pub enum CalculationError {
    MixedCurrencies,
}

/// A stateless flat-percentage tax policy.
#[derive(Debug, Clone, Copy, PartialEq, Eq, Structural)]
pub struct TaxCalculator {
    pub percent: i64,
}

impl Default for TaxCalculator {
    /// A calculator at the default tax rate.
    fn default() -> (r: TaxCalculator)
        ensures
            r == (TaxCalculator { percent: TAX_PERCENT }),
    {
        TaxCalculator { percent: TAX_PERCENT }
    }
}

impl TaxCalculator {
    /// What `for_incomes` returns: zero in the default currency for no
    /// incomes; the scaled total when all currencies agree; otherwise a
    /// `MixedCurrencies` failure.
    pub open spec fn spec_for_incomes(self, s: Seq<Money>) -> Result<Money, CalculationError> {
        if s.len() == 0 {
            Ok(Money { amount: 0, currency: Currency::UAH })
        } else {
            match Money::spec_total(s) {
                Ok(t) => Ok(t.spec_percent(self.percent as int)),
                Err(_) => Err(CalculationError::MixedCurrencies),
            }
        }
    }

    /// Creates a calculator for the specified tax percent (in hundredths of
    /// a percent).
    pub fn new(percent: i64) -> (r: TaxCalculator)
        ensures
            r == (TaxCalculator { percent }),
    {
        TaxCalculator { percent }
    }

    /// The tax due on a single income: its `percent`-scaled amount.
    pub fn for_income(&self, income: &Money) -> (r: Money)
        requires
            i64::MIN <= percent_amount(income.amount as int, self.percent as int) <= i64::MAX,
        ensures
            r == income.spec_percent(self.percent as int),
    {
        income.percent(self.percent)
    }

    /// The tax due on a collection of incomes.
    ///
    /// No income means no tax: an empty collection yields a zero amount in
    /// the default currency. Incomes in several currencies are rejected with
    /// `MixedCurrencies`; otherwise the tax is the scaled total.
    pub fn for_incomes(&self, incomes: &[Money]) -> (r: Result<Money, CalculationError>)
        requires
            prefix_sums_fit(incomes@),
            incomes@.len() > 0 && uniform_currency(incomes@, incomes@[0].currency)
                ==> i64::MIN <= percent_amount(sum_amounts(incomes@), self.percent as int)
                <= i64::MAX,
        ensures
            r == self.spec_for_incomes(incomes@),
    {
        if incomes.len() == 0 {
            return Ok(Money::new(0, Currency::default()));
        }
        match Money::total(incomes) {
            Ok(t) => {
                proof {
                    assert(incomes@.subrange(0, incomes@.len() as int) =~= incomes@);
                }
                Ok(t.percent(self.percent))
            },
            Err(_) => Err(CalculationError::MixedCurrencies),
        }
    }
}

} // verus!
