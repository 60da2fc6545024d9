//! Buys shares on the first day and holds them for the whole period.

use crate::marketdata::prices::Prices;
use crate::trading::position::Position;
use crate::trading::tradingmodel::Trades;
use crate::util::TimeSeries;
use vstd::prelude::*;

verus! {

/// Buys a fixed number of shares on the first day and holds them.
#[derive(Clone, Copy, Debug, PartialEq, Eq, Structural)]
pub struct BuyAndHold {
    /// How many shares to buy and hold.
    pub shares: u64,
}

/// Things that can go wrong with the BuyAndHold model.
#[derive(Clone, Copy, Debug, PartialEq, Eq, Structural)]
pub enum BuyAndHoldError {
    /// The price series has no first day.
    NoFirstDay,
}

impl Default for BuyAndHold {
    /// The model holding 1000 shares.
    fn default() -> (r: BuyAndHold)
        ensures
            r.shares == 1000,
    {
        BuyAndHold { shares: 1000 }
    }
}

impl BuyAndHold {
    /// Goes long on the first date of `prices` and holds on every later
    /// date; fails on an empty series.
    pub fn get_trades(self, prices: &Prices) -> (r: Result<Trades, BuyAndHoldError>)
        ensures
            r is Err <==> prices.map@.len() == 0,
            r matches Err(e) ==> e == BuyAndHoldError::NoFirstDay,
            r matches Ok(t) ==> t.trades@.len() == prices.map@.len() && forall|k: int|
                0 <= k < prices.map@.len() ==> #[trigger] t.trades@[k] == (
                prices.map@[k].0,
                if k == 0 {
                    Position::Long(self.shares)
                } else {
                    Position::Hold
                },
            ),
    {
        let entries = prices.map.entries();
        let n = entries.len();
        if n == 0 {
            return Err(BuyAndHoldError::NoFirstDay);
        }
        let mut trades: TimeSeries<Position> = TimeSeries::new();
        let mut i: usize = 0;
        while i < n
            invariant
                n == prices.map@.len(),
                entries@ == prices.map@,
                crate::util::dates_increasing(prices.map@),
                i <= n,
                trades@.len() == i,
                forall|k: int|
                    0 <= k < i ==> #[trigger] trades@[k] == (
                        prices.map@[k].0,
                        if k == 0 {
                            Position::Long(self.shares)
                        } else {
                            Position::Hold
                        },
                    ),
            decreases n - i,
        {
            let position = if i == 0 {
                Position::Long(self.shares)
            } else {
                Position::Hold
            };
            proof {
                if i > 0 {
                    assert(prices.map@[i - 1].0.before(prices.map@[i as int].0));
                }
            }
            let pushed = trades.push(entries[i].0, position);
            assert(pushed is Ok);
            i += 1;
        }
        Ok(Trades { trades })
    }
}

} // verus!
