//! Closing prices of one instrument, by date.

use crate::date::Date;
use crate::util::{entries_within, offset_entry, value_on, TimeSeries};
use vstd::prelude::*;

verus! {

/// Daily closing prices of one instrument, in the smallest currency unit.
/// Non-trading days are absent.
#[derive(Debug, PartialEq, Eq)]
pub struct Prices {
    /// Price data.
    pub map: TimeSeries<u64>,
    /// The ticker symbol of the instrument.
    pub symbol: String,
}

impl Prices {
    /// The earliest entry, if any.
    pub fn first_entry(&self) -> (r: Option<(Date, u64)>)
        ensures
            match r {
                Some(e) => self.map@.len() > 0 && e == self.map@[0],
                None => self.map@.len() == 0,
            },
    {
        let entries = self.map.entries();
        if entries.len() == 0 {
            None
        } else {
            Some(entries[0])
        }
    }

    /// The prices dated from `start` to `end`, both included, with the same
    /// symbol.
    pub fn date_range(&self, start: &Date, end: &Date) -> (r: Prices)
        ensures
            r.map@ == entries_within(self.map@, *start, *end),
            r.symbol@ == self.symbol@,
    {
        Prices { map: self.map.range(start, end), symbol: self.symbol.clone() }
    }

    /// The price on `date`, if any.
    pub fn get(&self, date: &Date) -> (r: Option<&u64>)
        ensures
            match r {
                Some(p) => value_on(self.map@, *date) == Some(*p),
                None => value_on(self.map@, *date) is None,
            },
    {
        self.map.get(date)
    }

    /// The entry `days_after` trading days after `date` (the next one when
    /// `days_after` is 0), if `date` has a price and that entry exists.
    pub fn get_after(&self, date: &Date, days_after: u32) -> (r: Option<(Date, u64)>)
        ensures
            r == offset_entry(self.map@, *date, if days_after == 0 { 1 } else { days_after as int }),
    {
        self.map.get_after(date, days_after)
    }

    /// The entry `days_before` trading days before `date` (the previous one
    /// when `days_before` is 0), if `date` has a price and that entry
    /// exists.
    pub fn get_before(&self, date: &Date, days_before: u32) -> (r: Option<(Date, u64)>)
        ensures
            r == offset_entry(
                self.map@,
                *date,
                -(if days_before == 0 { 1 } else { days_before as int }),
            ),
    {
        self.map.get_before(date, days_before)
    }
}

} // verus!
