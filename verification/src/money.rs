//! Monetary amounts tagged with a currency.
//!
//! Amounts are fixed-point values held in minor units: an `amount` of `12345`
//! stands for `123.45` in its currency. Percentages use the same two-decimal
//! convention, so `1250` stands for `12.50%`. Scaling an amount by a
//! percentage divides by [`PERCENT_DIVISOR`], rounding toward negative
//! infinity.

use vstd::prelude::*;

verus! {

/// The currencies this helper operates in. The local currency comes first and
/// is the default.
#[derive(Debug, Clone, Copy, PartialEq, Eq, Structural)]
pub enum Currency {
    UAH,
    USD,
    EUR,
}

impl Default for Currency {
    /// The local currency.
    fn default() -> (r: Currency)
        ensures
            r == Currency::UAH,
    {
        Currency::UAH
    }
}

/// Arithmetic over monetary values refuses to mix currencies; the error
/// carries the two currencies involved, in call order.
#[derive(Debug, Clone, Copy, PartialEq, Eq, Structural)]
pub enum MoneyArithmeticsError {
    CurrencyMismatch(Currency, Currency),
}

/// A monetary amount, in minor units, in a given currency.
#[derive(Debug, Clone, Copy, PartialEq, Eq, Structural)]
pub struct Money {
    pub amount: i64,
    pub currency: Currency,
}

/// Scale divisor of the percentage operation: percentages carry two decimal
/// places, and taking `p` percent of an amount divides by a further `100`.
pub const PERCENT_DIVISOR: i64 = 10000;

/// The amount that is `percent` (in hundredths of a percent) of `amount`,
/// rounded toward negative infinity.
pub open spec fn percent_amount(amount: int, percent: int) -> int {
    (amount * percent) / (PERCENT_DIVISOR as int)
}

impl Default for Money {
    /// A zero amount in the default currency.
    fn default() -> (r: Money)
        ensures
            r == (Money { amount: 0, currency: Currency::UAH }),
    {
        Money { amount: 0, currency: Currency::UAH }
    }
}

impl Money {
    /// What `add` returns: the sum when the currencies agree, otherwise a
    /// `CurrencyMismatch` naming the two currencies in call order.
    pub open spec fn spec_add(a: Money, b: Money) -> Result<Money, MoneyArithmeticsError> {
        if a.currency == b.currency {
            Ok(Money { amount: (a.amount + b.amount) as i64, currency: a.currency })
        } else {
            Err(MoneyArithmeticsError::CurrencyMismatch(a.currency, b.currency))
        }
    }

    /// What `sub` returns, in the same shape as `spec_add`.
    pub open spec fn spec_sub(a: Money, b: Money) -> Result<Money, MoneyArithmeticsError> {
        if a.currency == b.currency {
            Ok(Money { amount: (a.amount - b.amount) as i64, currency: a.currency })
        } else {
            Err(MoneyArithmeticsError::CurrencyMismatch(a.currency, b.currency))
        }
    }

    /// What `percent` returns: the scaled amount in the same currency.
    pub open spec fn spec_percent(self, percent: int) -> Money {
        Money {
            amount: percent_amount(self.amount as int, percent) as i64,
            currency: self.currency,
        }
    }

    pub fn new(amount: i64, currency: Currency) -> (r: Money)
        ensures
            r == (Money { amount, currency }),
    {
        Money { amount, currency }
    }

    /// Creates a new amount which is the given percent (in hundredths of a
    /// percent) of the current amount, in the same currency.
    pub fn percent(&self, percent: i64) -> (r: Money)
        requires
            i64::MIN <= percent_amount(self.amount as int, percent as int) <= i64::MAX,
        ensures
            r == self.spec_percent(percent as int),
    {
        proof {
            assert((self.amount as int) * (percent as int) <= i128::MAX && i128::MIN <= (
            self.amount as int) * (percent as int)) by (nonlinear_arith)
                requires
                    i64::MIN <= self.amount <= i64::MAX,
                    i64::MIN <= percent <= i64::MAX,
            ;
        }
        let num: i128 = (self.amount as i128) * (percent as i128);
        let q: i128 = num.checked_div_euclid(PERCENT_DIVISOR as i128).unwrap();
        Money { amount: q as i64, currency: self.currency }
    }

    /// Adds two monetary amounts of the same currency.
    /// Fails if the currencies differ.
    pub fn add(&self, rhs: &Money) -> (r: Result<Money, MoneyArithmeticsError>)
        requires
            self.currency == rhs.currency ==> i64::MIN <= self.amount + rhs.amount <= i64::MAX,
        ensures
            r == Money::spec_add(*self, *rhs),
    {
        self.assert_currency_match(rhs)?;
        Ok(Money { amount: self.amount + rhs.amount, currency: self.currency })
    }

    /// Subtracts a monetary amount of the same currency from this one.
    /// Fails if the currencies differ.
    pub fn sub(&self, rhs: &Money) -> (r: Result<Money, MoneyArithmeticsError>)
        requires
            self.currency == rhs.currency ==> i64::MIN <= self.amount - rhs.amount <= i64::MAX,
        ensures
            r == Money::spec_sub(*self, *rhs),
    {
        self.assert_currency_match(rhs)?;
        Ok(Money { amount: self.amount - rhs.amount, currency: self.currency })
    }

    pub fn amount(&self) -> (r: i64)
        ensures
            r == self.amount,
    {
        self.amount
    }

    pub fn currency(&self) -> (r: Currency)
        ensures
            r == self.currency,
    {
        self.currency
    }

    /// Checks that the currencies of the two amounts match.
    fn assert_currency_match(&self, rhs: &Money) -> (r: Result<(), MoneyArithmeticsError>)
        ensures
            r is Ok <==> self.currency == rhs.currency,
            self.currency != rhs.currency ==> r == Err::<(), MoneyArithmeticsError>(
                MoneyArithmeticsError::CurrencyMismatch(self.currency, rhs.currency),
            ),
    {
        if self.currency != rhs.currency {
            return Err(MoneyArithmeticsError::CurrencyMismatch(self.currency, rhs.currency));
        }
        Ok(())
    }
}

/// The sum of the amounts of all values in the sequence.
pub open spec fn sum_amounts(s: Seq<Money>) -> int
    decreases s.len(),
{
    if s.len() == 0 {
        0
    } else {
        sum_amounts(s.drop_last()) + s.last().amount
    }
}

/// Every value in the sequence carries the currency `c`.
pub open spec fn uniform_currency(s: Seq<Money>, c: Currency) -> bool {
    forall|i: int| 0 <= i < s.len() ==> s[i].currency == c
}

/// Position `j` holds the first value whose currency differs from the
/// first value's currency.
pub open spec fn is_first_mismatch(s: Seq<Money>, j: int) -> bool {
    &&& 0 <= j < s.len()
    &&& s[j].currency != s[0].currency
    &&& forall|k: int| 0 <= k < j ==> (#[trigger] s[k]).currency == s[0].currency
}

/// The position of the first value whose currency differs from the first
/// value's currency (meaningful only when such a position exists).
pub open spec fn first_mismatch(s: Seq<Money>) -> int {
    choose|j: int| is_first_mismatch(s, j)
}

/// Every same-currency prefix of the sequence sums to an amount that a
/// machine word can hold. A running sum over the sequence never leaves the
/// representable range before it either finishes or hits a currency
/// mismatch.
pub open spec fn prefix_sums_fit(s: Seq<Money>) -> bool {
    forall|n: int|
        0 < n <= s.len() && uniform_currency(#[trigger] s.subrange(0, n), s[0].currency)
            ==> i64::MIN <= sum_amounts(s.subrange(0, n)) <= i64::MAX
}

impl Money {
    /// What `total` returns: zero in the default currency for an empty
    /// sequence; the sum in the shared currency when all currencies agree;
    /// otherwise the mismatch between the first value's currency and the
    /// first differing currency, in that order.
    pub open spec fn spec_total(s: Seq<Money>) -> Result<Money, MoneyArithmeticsError> {
        if s.len() == 0 {
            Ok(Money { amount: 0, currency: Currency::UAH })
        } else if uniform_currency(s, s[0].currency) {
            Ok(Money { amount: sum_amounts(s) as i64, currency: s[0].currency })
        } else {
            Err(
                MoneyArithmeticsError::CurrencyMismatch(
                    s[0].currency,
                    s[first_mismatch(s)].currency,
                ),
            )
        }
    }

    /// The running sum of all values, added pairwise left to right.
    ///
    /// An empty sequence totals to zero in the default currency. A currency
    /// mismatch anywhere aborts the whole aggregation: no partial sum is
    /// returned.
    pub fn total(values: &[Money]) -> (r: Result<Money, MoneyArithmeticsError>)
        requires
            prefix_sums_fit(values@),
        ensures
            r == Money::spec_total(values@),
    {
        if values.len() == 0 {
            return Ok(Money { amount: 0, currency: Currency::default() });
        }
        let mut acc: Money = values[0];
        let mut i: usize = 1;
        proof {
            let p = values@.subrange(0, 1);
            assert(p.drop_last() =~= Seq::<Money>::empty());
            assert(sum_amounts(p.drop_last()) == 0);
            assert(p.last() == values@[0]);
            assert(sum_amounts(p) == values@[0].amount);
        }
        while i < values.len()
            invariant
                1 <= i <= values@.len(),
                prefix_sums_fit(values@),
                acc.currency == values@[0].currency,
                uniform_currency(values@.subrange(0, i as int), values@[0].currency),
                acc.amount == sum_amounts(values@.subrange(0, i as int)),
            decreases values@.len() - i,
        {
            let v = values[i];
            proof {
                assert(values@.subrange(0, i + 1).drop_last() =~= values@.subrange(0, i as int));
                assert(values@.subrange(0, i + 1).last() == values@[i as int]);
            }
            match acc.add(&v) {
                Ok(next) => {
                    acc = next;
                },
                Err(e) => {
                    proof {
                        let s = values@;
                        assert forall|k: int| 0 <= k < i implies (#[trigger] s[k]).currency
                            == s[0].currency by {
                            assert(s.subrange(0, i as int)[k] == s[k]);
                        }
                        assert(is_first_mismatch(s, i as int));
                        lemma_first_mismatch_is_unique(s, i as int);
                    }
                    return Err(e);
                },
            }
            i = i + 1;
        }
        proof {
            assert(values@.subrange(0, values@.len() as int) =~= values@);
        }
        Ok(acc)
    }
}

/// There is at most one first currency mismatch, so `first_mismatch` picks
/// exactly the witnessed position.
proof fn lemma_first_mismatch_is_unique(s: Seq<Money>, j: int)
    requires
        is_first_mismatch(s, j),
    ensures
        first_mismatch(s) == j,
        !uniform_currency(s, s[0].currency),
{
    assert(exists|k: int| is_first_mismatch(s, k));
    assert(is_first_mismatch(s, first_mismatch(s)));
    let m: int = first_mismatch(s);
    if m < j {
        assert(s[m].currency == s[0].currency);
    } else if j < m {
        assert(s[j].currency == s[0].currency);
    }
}

/// Adding an amount and then subtracting it again restores the original
/// value: for same-currency amounts whose sum stays in range,
/// `(a.add(b)).sub(b) == a`.
pub proof fn lemma_add_sub_inverse(a: Money, b: Money)
    requires
        a.currency == b.currency,
        i64::MIN <= a.amount + b.amount <= i64::MAX,
    ensures
        Money::spec_add(a, b) matches Ok(c) && Money::spec_sub(c, b) == Ok::<
            Money,
            MoneyArithmeticsError,
        >(a),
{
}

/// Taking percentages distributes over the percentage argument: when the
/// scaling divisions are exact and the results stay in range,
/// `value.percent(p1).add(value.percent(p2)) == value.percent(p1 + p2)`.
pub proof fn lemma_percent_linear(v: Money, p1: int, p2: int)
    requires
        (v.amount * p1) % (PERCENT_DIVISOR as int) == 0,
        (v.amount * p2) % (PERCENT_DIVISOR as int) == 0,
        i64::MIN <= percent_amount(v.amount as int, p1) <= i64::MAX,
        i64::MIN <= percent_amount(v.amount as int, p2) <= i64::MAX,
        i64::MIN <= percent_amount(v.amount as int, p1 + p2) <= i64::MAX,
    ensures
        Money::spec_add(v.spec_percent(p1), v.spec_percent(p2)) == Ok::<
            Money,
            MoneyArithmeticsError,
        >(v.spec_percent(p1 + p2)),
{
    let d: int = PERCENT_DIVISOR as int;
    let a: int = v.amount as int;
    let q1: int = (a * p1) / d;
    let q2: int = (a * p2) / d;
    vstd::arithmetic::div_mod::lemma_fundamental_div_mod(a * p1, d);
    vstd::arithmetic::div_mod::lemma_fundamental_div_mod(a * p2, d);
    vstd::arithmetic::mul::lemma_mul_is_distributive_add(a, p1, p2);
    vstd::arithmetic::mul::lemma_mul_is_distributive_add(d, q1, q2);
    assert(a * (p1 + p2) == d * (q1 + q2));
    vstd::arithmetic::div_mod::lemma_div_multiples_vanish(q1 + q2, d);
}

/// The sum of a sequence of amounts depends only on which values occur, not
/// on their order: rearranging the sequence leaves the sum unchanged.
pub proof fn lemma_sum_permutation(s1: Seq<Money>, s2: Seq<Money>)
    requires
        s1.to_multiset() == s2.to_multiset(),
    ensures
        sum_amounts(s1) == sum_amounts(s2),
    decreases s1.len(),
{
    vstd::seq_lib::to_multiset_len(s1);
    vstd::seq_lib::to_multiset_len(s2);
    if s1.len() == 0 {
        assert(s2.len() == 0);
    } else {
        let n: int = s1.len() - 1;
        let x = s1.last();
        assert(s1[n] == x);
        assert(s1.contains(x));
        vstd::seq_lib::to_multiset_contains(s1, x);
        vstd::seq_lib::to_multiset_contains(s2, x);
        assert(s2.contains(x));
        let j: int = choose|i: int| 0 <= i < s2.len() && s2[i] == x;
        assert(0 <= j < s2.len() && s2[j] == x);
        vstd::seq_lib::to_multiset_remove(s1, n);
        vstd::seq_lib::to_multiset_remove(s2, j);
        assert(s1.remove(n) =~= s1.drop_last());
        lemma_sum_remove(s2, j);
        lemma_sum_permutation(s1.drop_last(), s2.remove(j));
    }
}

/// Removing one value takes exactly its amount out of the sum.
proof fn lemma_sum_remove(s: Seq<Money>, i: int)
    requires
        0 <= i < s.len(),
    ensures
        sum_amounts(s.remove(i)) == sum_amounts(s) - s[i].amount,
    decreases s.len(),
{
    if i == s.len() - 1 {
        assert(s.remove(i) =~= s.drop_last());
    } else {
        let t = s.remove(i);
        assert(t.drop_last() =~= s.drop_last().remove(i));
        assert(t.last() == s.last());
        lemma_sum_remove(s.drop_last(), i);
    }
}

/// The aggregate `total` is insensitive to reordering: over a single
/// currency, any rearrangement of the values totals to the same result.
pub proof fn lemma_total_permutation(s1: Seq<Money>, s2: Seq<Money>)
    requires
        s1.to_multiset() == s2.to_multiset(),
        s1.len() > 0 ==> uniform_currency(s1, s1[0].currency),
    ensures
        Money::spec_total(s1) == Money::spec_total(s2),
{
    vstd::seq_lib::to_multiset_len(s1);
    vstd::seq_lib::to_multiset_len(s2);
    if s1.len() == 0 {
        assert(s2.len() == 0);
    } else {
        assert(s2.len() == s1.len());
        assert forall|i: int| 0 <= i < s2.len() implies (#[trigger] s2[i]).currency
            == s1[0].currency by {
            assert(s2.contains(s2[i]));
            vstd::seq_lib::to_multiset_contains(s2, s2[i]);
            vstd::seq_lib::to_multiset_contains(s1, s2[i]);
            assert(s1.contains(s2[i]));
            let k: int = choose|k: int| 0 <= k < s1.len() && s1[k] == s2[i];
            assert(s1[k] == s2[i]);
        }
        assert(uniform_currency(s2, s2[0].currency));
        lemma_sum_permutation(s1, s2);
    }
}

} // verus!
