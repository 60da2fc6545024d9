//! The BackTester executes a series of trades against a price series and
//! reports the portfolio's value (cash plus equity) on every day.

pub mod performance;

pub use crate::trading::position::Position;

use crate::date::Date;
use crate::marketdata::prices::Prices;
use crate::trading::tradingmodel::Trades;
use crate::util::{has_date, value_on, TimeSeries};
use performance::{PerformanceError, PortfolioPerformance, returns_of};
use vstd::prelude::*;

verus! {

/// Errors that can occur while running a backtest.
#[derive(Clone, Copy, Debug, PartialEq, Eq, Structural)]
pub enum BackTesterError {
    /// No position was given for this trading day.
    NoPositionFound(Date),
    /// The cash or the portfolio value on this day leaves the 64-bit range.
    AmountOverflow(Date),
    /// The price series is empty, so there is nothing to measure.
    NotEnoughDataPoints,
}

/// True when every price date has a trade.
pub open spec fn covers(trades: Seq<(Date, Position)>, prices: Seq<(Date, u64)>) -> bool {
    forall|k: int| 0 <= k < prices.len() ==> has_date(trades, #[trigger] prices[k].0)
}

/// The trade dated like each price (the backtester is only built when the
/// trades cover the prices).
pub open spec fn day_trades(trades: Seq<(Date, Position)>, prices: Seq<(Date, u64)>) -> Seq<
    Position,
> {
    Seq::new(
        prices.len(),
        |k: int|
            match value_on(trades, prices[k].0) {
                Some(p) => p,
                None => Position::Hold,
            },
    )
}

/// The position in force after day `k` (`Out` before the first day).
pub open spec fn resolved_at(raw: Seq<Position>, k: int) -> Position
    decreases k + 1,
{
    if k < 0 {
        Position::Out
    } else {
        raw[k].resolved(resolved_at(raw, k - 1))
    }
}

/// The signed share count held after day `k`.
pub open spec fn shares_at(raw: Seq<Position>, k: int) -> int {
    resolved_at(raw, k).signed_shares()
}

/// The cash after day `k`, starting from `cash`: moving from the shares
/// held before to the shares held after costs their difference at the
/// day's price (buying spends cash, selling or shorting credits it).
pub open spec fn cash_at(raw: Seq<Position>, prices: Seq<(Date, u64)>, cash: int, k: int) -> int
    decreases k + 1,
{
    if k < 0 {
        cash
    } else {
        cash_at(raw, prices, cash, k - 1) + (shares_at(raw, k - 1) - shares_at(raw, k))
            * prices[k].1
    }
}

/// The portfolio value on day `k`: cash plus the shares held at the day's
/// price (negative equity for a short position).
pub open spec fn valuation_at(raw: Seq<Position>, prices: Seq<(Date, u64)>, cash: int, k: int) -> int {
    cash_at(raw, prices, cash, k) + shares_at(raw, k) * prices[k].1
}

/// True when `x` fits in an `i64`.
pub open spec fn in_i64(x: int) -> bool {
    i64::MIN <= x <= i64::MAX
}

/// True when the cash and the value of day `k` fit in an `i64`.
pub open spec fn day_fits(raw: Seq<Position>, prices: Seq<(Date, u64)>, cash: int, k: int) -> bool {
    in_i64(cash_at(raw, prices, cash, k)) && in_i64(valuation_at(raw, prices, cash, k))
}

/// The valuation series of a backtest over the first `n` days.
pub open spec fn valuations(raw: Seq<Position>, prices: Seq<(Date, u64)>, cash: int, n: int) -> Seq<
    (Date, i64),
> {
    Seq::new(n as nat, |k: int| (prices[k].0, valuation_at(raw, prices, cash, k) as i64))
}

/// The cash and the portfolio value after moving from `shares` to
/// `target` shares at `price`, or `None` when either leaves the 64-bit range.
fn day_amounts(cash: i128, shares: i128, target: i128, price: u64) -> (r: Option<(i128, i128)>)
    requires
        in_i64(cash as int),
        -(u64::MAX as int) <= shares <= u64::MAX,
        -(u64::MAX as int) <= target <= u64::MAX,
    ensures
        ({
            let new_cash = cash + (shares - target) * price;
            let value = new_cash + target * price;
            &&& r is Some <==> in_i64(new_cash) && in_i64(value)
            &&& r matches Some(a) ==> a.0 == new_cash && a.1 == value
        }),
{
    let p = price as i128;
    let delta = match (shares - target).checked_mul(p) {
        Some(x) => x,
        None => {
            return None;
        },
    };
    let new_cash = match cash.checked_add(delta) {
        Some(x) => x,
        None => {
            return None;
        },
    };
    if new_cash < i64::MIN as i128 || new_cash > i64::MAX as i128 {
        return None;
    }
    let equity = match target.checked_mul(p) {
        Some(x) => x,
        None => {
            return None;
        },
    };
    let value = match new_cash.checked_add(equity) {
        Some(x) => x,
        None => {
            return None;
        },
    };
    if value < i64::MIN as i128 || value > i64::MAX as i128 {
        return None;
    }
    Some((new_cash, value))
}

/// Backtests a strategy given as a position for every price date.
pub struct BackTester<'a> {
    trades: Trades,
    prices: &'a Prices,
    cash: i64,
}

impl<'a> BackTester<'a> {
    /// Every price date has a trade.
    #[verifier::type_invariant]
    spec fn covered(self) -> bool {
        covers(self.trades.trades@, self.prices.map@)
    }

    /// The trades the backtester executes.
    pub closed spec fn trades_view(&self) -> Seq<(Date, Position)> {
        self.trades.trades@
    }

    /// The prices the backtester executes against.
    pub closed spec fn prices_view(&self) -> Seq<(Date, u64)> {
        self.prices.map@
    }

    /// The cash the portfolio starts with.
    pub closed spec fn initial_cash(&self) -> int {
        self.cash as int
    }

    /// Builds a backtester starting with `cash`. Fails on the first price
    /// date that has no position in `trades`.
    pub fn new(trades: Trades, prices: &'a Prices, cash: i64) -> (r: Result<Self, BackTesterError>)
        ensures
            r is Ok <==> covers(trades.trades@, prices.map@),
            r matches Ok(bt) ==> bt.trades_view() == trades.trades@ && bt.prices_view()
                == prices.map@ && bt.initial_cash() == cash,
            r matches Err(e) ==> exists|k: int|
                0 <= k < prices.map@.len() && e == BackTesterError::NoPositionFound(
                    #[trigger] prices.map@[k].0,
                ) && !has_date(trades.trades@, prices.map@[k].0) && forall|j: int|
                    0 <= j < k ==> has_date(trades.trades@, #[trigger] prices.map@[j].0),
    {
        let entries = prices.map.entries();
        let n = entries.len();
        let mut i: usize = 0;
        while i < n
            invariant
                n == prices.map@.len(),
                entries@ == prices.map@,
                i <= n,
                forall|j: int| 0 <= j < i ==> has_date(trades.trades@, #[trigger] prices.map@[j].0),
            decreases n - i,
        {
            let day = entries[i].0;
            if trades.get(&day).is_none() {
                return Err(BackTesterError::NoPositionFound(day));
            }
            i += 1;
        }
        Ok(BackTester { trades, prices, cash })
    }

    /// The trades the backtester executes.
    pub fn trades(&self) -> (r: &Trades)
        ensures
            r.trades@ == self.trades_view(),
    {
        &self.trades
    }

    /// Runs the backtest: one valuation per price date, in date order,
    /// each equal to that day's cash plus equity. Fails on an empty price
    /// series, or on the first day whose cash or value leaves the 64-bit
    /// range.
    pub fn backtest(&self) -> (r: Result<PortfolioPerformance, BackTesterError>)
        ensures
            ({
                let prices = self.prices_view();
                let raw = day_trades(self.trades_view(), prices);
                let cash = self.initial_cash();
                let n = prices.len() as int;
                &&& r is Ok <==> n > 0 && forall|k: int|
                    0 <= k < n ==> #[trigger] day_fits(raw, prices, cash, k)
                &&& n == 0 ==> r == Err::<PortfolioPerformance, BackTesterError>(
                    BackTesterError::NotEnoughDataPoints,
                )
                &&& r matches Ok(p) ==> p.daily_portvals@ == valuations(raw, prices, cash, n)
                    && p.daily_returns@ == returns_of(p.daily_portvals@)
                &&& r matches Err(BackTesterError::AmountOverflow(d)) ==> exists|k: int|
                    0 <= k < n && d == #[trigger] prices[k].0 && !day_fits(raw, prices, cash, k)
                        && forall|j: int| 0 <= j < k ==> #[trigger] day_fits(raw, prices, cash, j)
                &&& !(r matches Err(BackTesterError::NoPositionFound(_)))
                &&& covers(self.trades_view(), prices)
            }),
    {
        proof {
            use_type_invariant(self);
        }
        let ghost prices = self.prices.map@;
        let ghost raw = day_trades(self.trades.trades@, prices);
        let ghost c = self.cash as int;
        assert(prices == self.prices_view() && c == self.initial_cash() && raw == day_trades(
            self.trades_view(),
            self.prices_view(),
        ));
        let entries = self.prices.map.entries();
        let n = entries.len();
        if n == 0 {
            return Err(BackTesterError::NotEnoughDataPoints);
        }
        let mut vals: TimeSeries<i64> = TimeSeries::new();
        let mut cash: i128 = self.cash as i128;
        let mut shares: i128 = 0;
        let mut current = Position::Out;
        let mut i: usize = 0;
        while i < n
            invariant
                n == prices.len(),
                entries@ == prices,
                prices == self.prices.map@,
                prices == self.prices_view(),
                c == self.initial_cash(),
                raw == day_trades(self.trades_view(), self.prices_view()),
                covers(self.trades_view(), prices),
                crate::util::dates_increasing(prices),
                raw == day_trades(self.trades.trades@, prices),
                c == self.cash as int,
                i <= n,
                current == resolved_at(raw, i - 1),
                !(current is Hold),
                shares == shares_at(raw, i - 1),
                cash == cash_at(raw, prices, c, i - 1),
                in_i64(cash as int),
                forall|j: int| 0 <= j < i ==> #[trigger] day_fits(raw, prices, c, j),
                vals@ =~= valuations(raw, prices, c, i as int),
            decreases n - i,
        {
            let (day, price) = entries[i];
            assert(prices[i as int].0 == day);
            let trade = match self.trades.get(&day) {
                Some(t) => *t,
                None => {
                    // Every price date has a trade, so this arm is never taken.
                    assert(has_date(self.trades.trades@, prices[i as int].0));
                    Position::Hold
                },
            };
            assert(trade == raw[i as int]);
            let next = trade.resolve(current);
            let target: i128 = match next {
                Position::Long(s) => s as i128,
                Position::Short(s) => -(s as i128),
                _ => 0,
            };
            assert(target == shares_at(raw, i as int));
            let (new_cash, value) = match day_amounts(cash, shares, target, price) {
                Some(amounts) => amounts,
                None => {
                    assert(!day_fits(raw, prices, c, i as int));
                    return Err(BackTesterError::AmountOverflow(day));
                },
            };
            proof {
                if i > 0 {
                    assert(prices[i - 1].0.before(prices[i as int].0));
                    assert(vals@.last() == valuations(raw, prices, c, i as int)[i - 1]);
                }
            }
            let pushed = vals.push(day, value as i64);
            assert(pushed is Ok);
            cash = new_cash;
            shares = target;
            current = next;
            i += 1;
        }
        match PortfolioPerformance::new(vals) {
            Ok(p) => Ok(p),
            Err(_) => Err(BackTesterError::NotEnoughDataPoints),
        }
    }
}

/// A backtest yields exactly one valuation per price date, in the price
/// series' ascending date order.
pub proof fn lemma_one_valuation_per_date(
    raw: Seq<Position>,
    prices: Seq<(Date, u64)>,
    cash: int,
)
    requires
        crate::util::dates_increasing(prices),
    ensures
        valuations(raw, prices, cash, prices.len() as int).len() == prices.len(),
        forall|k: int|
            0 <= k < prices.len() ==> (#[trigger] valuations(raw, prices, cash, prices.len() as int)[k]).0
                == prices[k].0,
        crate::util::dates_increasing(valuations(raw, prices, cash, prices.len() as int)),
{
    let v = valuations(raw, prices, cash, prices.len() as int);
    assert forall|i: int, j: int|
        #![trigger v[i], v[j]]
        0 <= i < j < v.len() implies v[i].0.before(v[j].0) by {
        assert(prices[i].0.before(prices[j].0));
    }
}

} // verus!
