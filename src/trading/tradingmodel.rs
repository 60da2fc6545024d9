//! Series of trades, one position per date.

use crate::date::Date;
use crate::trading::position::Position;
use crate::util::{value_on, TimeSeries};
use vstd::prelude::*;

verus! {

/// The position to take on each date.
#[derive(Debug, PartialEq, Eq)]
pub struct Trades {
    pub trades: TimeSeries<Position>,
}

impl Trades {
    /// The position for date `k`, if there is one.
    pub fn get(&self, k: &Date) -> (r: Option<&Position>)
        ensures
            match r {
                Some(p) => value_on(self.trades@, *k) == Some(*p),
                None => value_on(self.trades@, *k) is None,
            },
    {
        self.trades.get(k)
    }

    /// Number of dates with a position.
    pub fn len(&self) -> (r: usize)
        ensures
            r == self.trades@.len(),
    {
        self.trades.len()
    }
}

} // verus!
