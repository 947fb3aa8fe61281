//! Registry of incomes with income dates.
//!
//! The ledger keeps its entries in chronological order, oldest first, at
//! every observable point: after construction, after `add` and after
//! `remove`. Entries sharing a date may stand in any relative order.

use vstd::prelude::*;

use crate::date::Date;
use crate::money::{Money, MoneyArithmeticsError};

verus! {

broadcast use vstd::seq_lib::group_to_multiset_ensures;

/// A record of one income: an amount and the date it arrived.
#[derive(Debug, Clone, Copy, PartialEq, Eq, Structural)]
pub struct LedgerRecord {
    pub amount: Money,
    pub date: Date,
}

/// A log of incomes by dates, sorted ascending by date.
#[derive(Debug)]
pub struct Ledger {
    pub entries: Vec<LedgerRecord>,
}

/// The sequence is non-decreasing by date.
pub open spec fn sorted_by_date(s: Seq<LedgerRecord>) -> bool {
    forall|i: int, j: int| 0 <= i < j < s.len() ==> s[i].date.spec_le(s[j].date)
}

/// The amounts of the records, in the records' order.
pub open spec fn amounts_of(s: Seq<LedgerRecord>) -> Seq<Money> {
    s.map_values(|r: LedgerRecord| r.amount)
}

impl LedgerRecord {
    pub fn new(amount: Money, date: Date) -> (r: LedgerRecord)
        ensures
            r == (LedgerRecord { amount, date }),
    {
        LedgerRecord { amount, date }
    }

    pub fn amount(&self) -> (r: Money)
        ensures
            r == self.amount,
    {
        self.amount
    }

    pub fn date(&self) -> (r: Date)
        ensures
            r == self.date,
    {
        self.date
    }
}

impl View for Ledger {
    type V = Seq<LedgerRecord>;

    open spec fn view(&self) -> Seq<LedgerRecord> {
        self.entries@
    }
}

impl Default for Ledger {
    /// An empty ledger.
    fn default() -> (r: Ledger)
        ensures
            r@ == Seq::<LedgerRecord>::empty(),
            sorted_by_date(r@),
    {
        Ledger { entries: Vec::new() }
    }
}

impl Ledger {
    /// Builds a ledger holding the given records, sorted ascending by date.
    pub fn new(entries: &[LedgerRecord]) -> (r: Ledger)
        ensures
            sorted_by_date(r@),
            r@.to_multiset() == entries@.to_multiset(),
            r@.len() == entries@.len(),
    {
        let mut ledger = Ledger { entries: Vec::new() };
        let mut i: usize = 0;
        proof {
            assert(entries@.subrange(0, 0) =~= ledger@);
        }
        while i < entries.len()
            invariant
                i <= entries@.len(),
                sorted_by_date(ledger@),
                ledger@.to_multiset() == entries@.subrange(0, i as int).to_multiset(),
                ledger@.len() == i,
            decreases entries@.len() - i,
        {
            let record = entries[i];
            proof {
                assert(entries@.subrange(0, i + 1) =~= entries@.subrange(0, i as int).push(
                    entries@[i as int],
                ));
            }
            ledger.add(record);
            i = i + 1;
        }
        proof {
            assert(entries@.subrange(0, entries@.len() as int) =~= entries@);
        }
        ledger
    }

    /// Adds a new record to the ledger, keeping the entries sorted by date.
    pub fn add(&mut self, entry: LedgerRecord)
        requires
            sorted_by_date(old(self)@),
        ensures
            sorted_by_date(final(self)@),
            final(self)@.to_multiset() == old(self)@.to_multiset().insert(entry),
            final(self)@.len() == old(self)@.len() + 1,
    {
        let mut pos: usize = 0;
        loop
            invariant
                pos <= self.entries@.len(),
                self.entries@ == old(self).entries@,
                sorted_by_date(self.entries@),
                forall|k: int| 0 <= k < pos ==> self.entries@[k].date.spec_le(entry.date),
            ensures
                pos <= self.entries@.len(),
                self.entries@ == old(self).entries@,
                forall|k: int| 0 <= k < pos ==> self.entries@[k].date.spec_le(entry.date),
                pos < self.entries@.len() ==> !self.entries@[pos as int].date.spec_le(entry.date),
            decreases self.entries@.len() - pos,
        {
            if pos >= self.entries.len() {
                break ;
            }
            if !(self.entries[pos].date.le(&entry.date)) {
                break ;
            }
            pos = pos + 1;
        }
        proof {
            let s = self.entries@;
            let t = s.insert(pos as int, entry);
            assert forall|i: int, j: int| 0 <= i < j < t.len() implies t[i].date.spec_le(
                t[j].date,
            ) by {
                if j < pos {
                    assert(t[i] == s[i] && t[j] == s[j]);
                } else if pos < i {
                    assert(t[i] == s[i - 1] && t[j] == s[j - 1]);
                } else if i == pos {
                    assert(t[i] == entry && t[j] == s[j - 1]);
                    assert(!s[pos as int].date.spec_le(entry.date));
                    if pos < j - 1 {
                        assert(s[pos as int].date.spec_le(s[j - 1].date));
                    }
                } else if j == pos {
                    assert(t[i] == s[i] && t[j] == entry);
                } else {
                    assert(t[i] == s[i] && t[j] == s[j - 1]);
                }
            }
            vstd::seq_lib::to_multiset_insert(s, pos as int, entry);
        }
        self.entries.insert(pos, entry);
    }

    /// Deletes the record at the given positional index in the current
    /// (sorted) sequence; the relative order of the rest is preserved.
    pub fn remove(&mut self, idx: usize)
        requires
            idx < old(self)@.len(),
            sorted_by_date(old(self)@),
        ensures
            final(self)@ == old(self)@.remove(idx as int),
            final(self)@.len() == old(self)@.len() - 1,
            sorted_by_date(final(self)@),
    {
        proof {
            let s = self.entries@;
            let t = s.remove(idx as int);
            assert forall|i: int, j: int| 0 <= i < j < t.len() implies t[i].date.spec_le(
                t[j].date,
            ) by {
                if j < idx {
                    assert(t[i] == s[i] && t[j] == s[j]);
                } else if idx <= i {
                    assert(t[i] == s[i + 1] && t[j] == s[j + 1]);
                } else {
                    assert(t[i] == s[i] && t[j] == s[j + 1]);
                }
            }
        }
        self.entries.remove(idx);
    }

    /// Calculates the total of all record amounts in the ledger.
    ///
    /// All records are expected to share one currency; with mixed currencies
    /// the underlying aggregation's `CurrencyMismatch` comes back. An empty
    /// ledger totals to zero in the default currency.
    pub fn total(&self) -> (r: Result<Money, MoneyArithmeticsError>)
        requires
            crate::money::prefix_sums_fit(amounts_of(self@)),
        ensures
            r == Money::spec_total(amounts_of(self@)),
    {
        let mut amounts: Vec<Money> = Vec::new();
        let mut i: usize = 0;
        while i < self.entries.len()
            invariant
                i <= self.entries@.len(),
                amounts@ =~= amounts_of(self.entries@.subrange(0, i as int)),
            decreases self.entries@.len() - i,
        {
            proof {
                assert(self.entries@.subrange(0, i + 1) =~= self.entries@.subrange(
                    0,
                    i as int,
                ).push(self.entries@[i as int]));
            }
            amounts.push(self.entries[i].amount);
            i = i + 1;
        }
        proof {
            assert(self.entries@.subrange(0, self.entries@.len() as int) =~= self.entries@);
            assert(amounts@ =~= amounts_of(self@));
        }
        Money::total(amounts.as_slice())
    }

    /// A slice of all records, oldest first.
    pub fn iter(&self) -> (r: &[LedgerRecord])
        ensures
            r@ == self@,
    {
        self.entries.as_slice()
    }

    pub fn is_empty(&self) -> (r: bool)
        ensures
            r == (self@.len() == 0),
    {
        self.entries.len() == 0
    }
}

/// Rearranging records rearranges their amounts: sequences of records that
/// hold the same records hold the same amounts, as multisets.
proof fn lemma_amounts_keep_multiset(s1: Seq<LedgerRecord>, s2: Seq<LedgerRecord>)
    requires
        s1.to_multiset() == s2.to_multiset(),
    ensures
        amounts_of(s1).to_multiset() == amounts_of(s2).to_multiset(),
    decreases s1.len(),
{
    vstd::seq_lib::to_multiset_len(s1);
    vstd::seq_lib::to_multiset_len(s2);
    if s1.len() == 0 {
        assert(amounts_of(s1) =~= amounts_of(s2));
    } else {
        let n: int = s1.len() - 1;
        let x = s1.last();
        assert(s1[n] == x);
        assert(s1.contains(x));
        vstd::seq_lib::to_multiset_contains(s1, x);
        vstd::seq_lib::to_multiset_contains(s2, x);
        assert(s2.contains(x));
        let j: int = choose|i: int| 0 <= i < s2.len() && s2[i] == x;
        assert(0 <= j < s2.len() && s2[j] == x);
        vstd::seq_lib::to_multiset_remove(s1, n);
        vstd::seq_lib::to_multiset_remove(s2, j);
        assert(s1.remove(n) =~= s1.drop_last());
        lemma_amounts_keep_multiset(s1.drop_last(), s2.remove(j));
        let a1 = amounts_of(s1);
        let a2 = amounts_of(s2);
        assert(a1 =~= amounts_of(s1.drop_last()).push(x.amount));
        vstd::seq_lib::to_multiset_build(amounts_of(s1.drop_last()), x.amount);
        assert(amounts_of(s2.remove(j)) =~= a2.remove(j));
        vstd::seq_lib::to_multiset_remove(a2, j);
        assert(a2[j] == x.amount);
        assert(a2.contains(a2[j]));
        vstd::seq_lib::to_multiset_contains(a2, x.amount);
        assert(a2.to_multiset().count(x.amount) > 0);
        assert(a2.to_multiset().remove(x.amount).insert(x.amount) =~= a2.to_multiset());
    }
}

/// The ledger's total does not depend on the order its records stand in:
/// over one currency, record sequences holding the same records — in
/// particular, the sorted view and the insertion order it came from —
/// total to the same result.
pub proof fn lemma_total_ignores_record_order(s1: Seq<LedgerRecord>, s2: Seq<LedgerRecord>)
    requires
        s1.to_multiset() == s2.to_multiset(),
        s1.len() > 0 ==> crate::money::uniform_currency(
            amounts_of(s1),
            amounts_of(s1)[0].currency,
        ),
    ensures
        Money::spec_total(amounts_of(s1)) == Money::spec_total(amounts_of(s2)),
{
    lemma_amounts_keep_multiset(s1, s2);
    if s1.len() == 0 {
        vstd::seq_lib::to_multiset_len(s1);
        vstd::seq_lib::to_multiset_len(s2);
        assert(amounts_of(s1) =~= amounts_of(s2));
    } else {
        crate::money::lemma_total_permutation(amounts_of(s1), amounts_of(s2));
    }
}

} // verus!
