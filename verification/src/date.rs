//! Calendar dates as plain year/month/day values.
//!
//! The ledger only needs to order its entries chronologically, so a date is
//! three integers compared lexicographically. `from_ymd` is the checked
//! constructor; it accepts exactly the proleptic-Gregorian calendar dates.

use vstd::prelude::*;

verus! {

/// A calendar date (year, month, day), with no time of day.
#[derive(Debug, Clone, Copy, PartialEq, Eq, Structural)]
pub struct Date {
    pub year: i32,
    pub month: u8,
    pub day: u8,
}

/// A leap year in the proleptic Gregorian calendar.
pub open spec fn is_leap_year(year: int) -> bool {
    year % 4 == 0 && (year % 100 != 0 || year % 400 == 0)
}

/// How many days the given month of the given year has.
pub open spec fn days_in_month(year: int, month: int) -> int {
    if month == 2 {
        if is_leap_year(year) {
            29
        } else {
            28
        }
    } else if month == 4 || month == 6 || month == 9 || month == 11 {
        30
    } else {
        31
    }
}

impl Date {
    /// The date exists in the calendar.
    pub open spec fn wf(self) -> bool {
        1 <= self.month <= 12 && 1 <= self.day <= days_in_month(
            self.year as int,
            self.month as int,
        )
    }

    /// Chronological order: `self` is on or before `other`.
    pub open spec fn spec_le(self, other: Date) -> bool {
        self.year < other.year || (self.year == other.year && (self.month < other.month || (
        self.month == other.month && self.day <= other.day)))
    }

    /// Builds a date, or returns `None` when the year/month/day triple does
    /// not exist in the calendar.
    pub fn from_ymd(year: i32, month: u8, day: u8) -> (r: Option<Date>)
        ensures
            r is Some <==> (Date { year, month, day }).wf(),
            r matches Some(d) ==> d == (Date { year, month, day }),
    {
        if month < 1 || month > 12 {
            return None;
        }
        let max_day = Date::days_in_month_exec(year, month);
        if day < 1 || day > max_day {
            return None;
        }
        Some(Date { year, month, day })
    }

    /// Chronological comparison, usable from executable code.
    pub fn le(&self, other: &Date) -> (r: bool)
        ensures
            r == self.spec_le(*other),
    {
        self.year < other.year || (self.year == other.year && (self.month < other.month || (
        self.month == other.month && self.day <= other.day)))
    }

    fn leap_year_exec(year: i32) -> (r: bool)
        ensures
            r == is_leap_year(year as int),
    {
        let rem4: i32 = year.checked_rem_euclid(4).unwrap();
        let rem100: i32 = year.checked_rem_euclid(100).unwrap();
        let rem400: i32 = year.checked_rem_euclid(400).unwrap();
        rem4 == 0 && (rem100 != 0 || rem400 == 0)
    }

    fn days_in_month_exec(year: i32, month: u8) -> (r: u8)
        requires
            1 <= month <= 12,
        ensures
            r as int == days_in_month(year as int, month as int),
    {
        if month == 2 {
            if Date::leap_year_exec(year) {
                29
            } else {
                28
            }
        } else if month == 4 || month == 6 || month == 9 || month == 11 {
            30
        } else {
            31
        }
    }
}

} // verus!
