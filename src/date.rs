//! Calendar dates as plain year, month and day values.

use chrono::Datelike;
use vstd::prelude::*;

verus! {

/// A calendar day. Dates order chronologically: by year, then month, then
/// day.
#[derive(Clone, Copy, Debug, PartialEq, Eq, Structural, PartialOrd, Ord, Hash)]
pub struct Date {
    pub year: i32,
    pub month: u32,
    pub day: u32,
}

/// True for the leap years of the proleptic Gregorian calendar.
pub open spec fn is_leap_year(year: int) -> bool {
    (year % 4 == 0 && year % 100 != 0) || year % 400 == 0
}

/// Number of days in `month` of `year`.
pub open spec fn days_in_month(year: int, month: int) -> int {
    if month == 2 {
        if is_leap_year(year) { 29 } else { 28 }
    } else if month == 4 || month == 6 || month == 9 || month == 11 {
        30
    } else {
        31
    }
}

/// True when year, month and day name a real calendar day.
pub open spec fn is_valid_ymd(year: int, month: int, day: int) -> bool {
    1 <= month <= 12 && 1 <= day <= days_in_month(year, month)
}

/// The calendar day after `d`.
pub open spec fn next_date(d: Date) -> Date {
    if d.day < days_in_month(d.year as int, d.month as int) {
        Date { year: d.year, month: d.month, day: (d.day + 1) as u32 }
    } else if d.month < 12 {
        Date { year: d.year, month: (d.month + 1) as u32, day: 1 }
    } else {
        Date { year: (d.year + 1) as i32, month: 1, day: 1 }
    }
}

/// True when `d` names a real calendar day.
pub open spec fn is_valid_date(d: Date) -> bool {
    is_valid_ymd(d.year as int, d.month as int, d.day as int)
}

/// A number that grows with the date, for real calendar days.
spec fn ordinal(d: Date) -> int {
    d.year * 416 + d.month * 32 + d.day
}

proof fn lemma_ordinal_follows_order(a: Date, b: Date)
    requires
        is_valid_date(a),
        is_valid_date(b),
        a.before(b),
    ensures
        ordinal(a) < ordinal(b),
{
}

/// True when `d` is a real calendar day in the years chrono represents.
pub open spec fn is_chrono_date(d: Date) -> bool {
    is_valid_date(d) && -262143 <= d.year <= 262142
}

/// The day after a real calendar day that comes before another is a real
/// calendar day, comes after it, and comes no later than the other.
pub proof fn lemma_next_date(d: Date, later: Date)
    requires
        is_valid_date(d),
        is_valid_date(later),
        d.before(later),
    ensures
        is_valid_date(next_date(d)),
        d.before(next_date(d)),
        !later.before(next_date(d)),
{
}

/// Relies on chrono's `NaiveDate::from_ymd_opt` and `NaiveDate::succ_opt`:
/// the calendar day after `d`, or `None` when `d` is not a date chrono can
/// represent or is the last one it represents.
#[verifier::external_body]
fn following_day(d: Date) -> (r: Option<Date>)
    ensures
        r matches Some(n) ==> n == next_date(d),
        is_chrono_date(d) && !(d.year == 262142 && d.month == 12 && d.day == 31) ==> r is Some,
{
    match chrono::NaiveDate::from_ymd_opt(d.year, d.month, d.day) {
        Some(date) => match date.succ_opt() {
            Some(n) => Some(Date { year: n.year(), month: n.month(), day: n.day() }),
            None => None,
        },
        None => None,
    }
}

impl Date {
    /// Strict chronological order.
    pub open spec fn before(self, other: Date) -> bool {
        self.year < other.year || (self.year == other.year && (self.month < other.month || (
        self.month == other.month && self.day < other.day)))
    }

    /// The date of `year`, `month` and `day`, which must name a real
    /// calendar day.
    pub fn from_ymd(year: i32, month: u32, day: u32) -> (r: Date)
        requires
            is_valid_ymd(year as int, month as int, day as int),
        ensures
            r == (Date { year, month, day }),
    {
        Date { year, month, day }
    }

    /// The consecutive calendar days from `start` up to, but not including,
    /// `end`: empty unless `start` comes before `end`. Within the years
    /// chrono represents the days reach `end`; outside them they stop where
    /// chrono has no next day to give.
    pub fn range(start: Date, end: Date) -> (r: Vec<Date>)
        requires
            is_valid_date(start),
            is_valid_date(end),
        ensures
            start.before(end) <==> r@.len() > 0,
            r@.len() > 0 ==> r@[0] == start,
            forall|k: int| 0 <= k < r@.len() ==> (#[trigger] r@[k]).before(end),
            forall|k: int| 0 <= k < r@.len() - 1 ==> r@[k + 1] == next_date(#[trigger] r@[k]),
            is_chrono_date(start) && is_chrono_date(end) && r@.len() > 0 ==> next_date(r@.last())
                == end,
    {
        let mut days: Vec<Date> = Vec::new();
        let mut day = start;
        while day.is_before(&end)
            invariant_except_break
                days@.len() > 0 ==> day == next_date(days@.last()),
            invariant
                is_valid_date(day),
                is_valid_date(end),
                days@.len() == 0 ==> day == start,
                days@.len() > 0 ==> days@[0] == start,
                days@.len() > 0 ==> !end.before(day),
                !day.before(start),
                is_chrono_date(start) && is_chrono_date(end) ==> is_chrono_date(day),
                forall|k: int| 0 <= k < days@.len() ==> (#[trigger] days@[k]).before(end),
                forall|k: int| 0 <= k < days@.len() - 1 ==> days@[k + 1] == next_date(#[trigger] days@[k]),
            ensures
                days@.len() == 0 ==> !start.before(end),
                is_chrono_date(start) && is_chrono_date(end) && days@.len() > 0 ==> next_date(
                    days@.last(),
                ) == end,
            decreases ordinal(end) - ordinal(day),
        {
            proof {
                lemma_ordinal_follows_order(day, end);
                lemma_next_date(day, end);
                lemma_ordinal_follows_order(day, next_date(day));
            }
            days.push(day);
            match following_day(day) {
                Some(next) => {
                    day = next;
                },
                None => {
                    assert(!(is_chrono_date(start) && is_chrono_date(end)));
                    break;
                },
            }
        }
        proof {
            if days@.len() > 0 {
                assert(days@[0].before(end));
            }
        }
        days
    }

    /// True if `self` comes strictly before `other`.
    pub fn is_before(&self, other: &Date) -> (r: bool)
        ensures
            r == self.before(*other),
    {
        self.year < other.year || (self.year == other.year && (self.month < other.month || (
        self.month == other.month && self.day < other.day)))
    }
}

/// No date comes before itself.
pub proof fn lemma_before_irreflexive(a: Date)
    ensures
        !a.before(a),
{
}

/// Chronological order is transitive.
pub proof fn lemma_before_transitive(a: Date, b: Date, c: Date)
    requires
        a.before(b),
        b.before(c),
    ensures
        a.before(c),
{
}

} // verus!
