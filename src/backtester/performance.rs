//! Portfolio performance of a valuation series: daily returns, returns over
//! date ranges, and the accuracy of the trades behind it.
//!
//! A return is kept as an exact ratio. The return of a value `to` against an
//! earlier value `from` is `to / from - 1`, held as `(to - from) / from`; a
//! zero denominator stands for the division by zero it would be.

use crate::date::Date;
use crate::trading::position::Position;
use crate::trading::tradingmodel::Trades;
use crate::util::{dates_increasing, entries_within, has_date, index_of, lemma_index_of, value_on, TimeSeries};
use vstd::prelude::*;

verus! {

/// The exact ratio `numerator / denominator`.
#[derive(Clone, Copy, Debug, PartialEq, Eq, Structural)]
pub struct Ratio {
    pub numerator: i128,
    pub denominator: i128,
}

/// The return of `to` against `from`, `(to - from) / from`.
pub open spec fn return_between(from: i64, to: i64) -> Ratio {
    Ratio { numerator: (to - from) as i128, denominator: from as i128 }
}

/// The daily return of day `k` of a valuation series: zero on the first
/// day, the return against the day before on every later day.
pub open spec fn daily_return(vals: Seq<(Date, i64)>, k: int) -> Ratio {
    if k == 0 {
        Ratio { numerator: 0, denominator: 1 }
    } else {
        return_between(vals[k - 1].1, vals[k].1)
    }
}

/// The series of daily returns of a valuation series.
pub open spec fn returns_of(vals: Seq<(Date, i64)>) -> Seq<(Date, Ratio)> {
    Seq::new(vals.len(), |k: int| (vals[k].0, daily_return(vals, k)))
}

/// True when a trade closed at `value` after entering at `entry_value` made
/// money: `value / entry_value - 1 > 0`, where a zero entry value gives an
/// infinite ratio of the sign of `value` (none at all when `value` is zero).
pub open spec fn profit_positive(value: int, entry_value: int) -> bool {
    if entry_value > 0 {
        value > entry_value
    } else if entry_value < 0 {
        value < entry_value
    } else {
        value > 0
    }
}

/// True when a trade closed at `value` after entering at `entry_value`
/// counts: `value / entry_value - 1` is not zero. Division by zero never
/// gives zero.
pub open spec fn profit_nonzero(value: int, entry_value: int) -> bool {
    entry_value == 0 || value != entry_value
}

/// The running state of the trade count: last entry (or the exit that
/// closed it), value at that entry, profitable trades, counted trades.
pub type TallyState = (Position, int, int, int);

/// One day of the trade count: an exit from the last entry closes a trade
/// and counts it if its profit is not zero, as profitable if above zero; an
/// entry becomes the new anchor.
pub open spec fn tally_step(t: TallyState, trade: Position, value: int) -> TallyState {
    let closed: TallyState = if trade.exit_from(t.0) {
        (
            trade,
            t.1,
            t.2 + if profit_positive(value, t.1) {
                1int
            } else {
                0int
            },
            t.3 + if profit_nonzero(value, t.1) {
                1int
            } else {
                0int
            },
        )
    } else {
        t
    };
    if trade.entry() {
        (trade, value, closed.2, closed.3)
    } else {
        closed
    }
}

/// The trade count over the first `n` days of `vals`, with each day's trade
/// taken from `trades`.
pub open spec fn tally(vals: Seq<(Date, i64)>, trades: Seq<(Date, Position)>, n: int) -> TallyState
    decreases n,
{
    if n <= 0 {
        (Position::Out, 0, 0, 0)
    } else {
        let trade = match value_on(trades, vals[n - 1].0) {
            Some(p) => p,
            None => Position::Out,
        };
        tally_step(tally(vals, trades, n - 1), trade, vals[n - 1].1 as int)
    }
}

/// Represents portfolio performance.
#[derive(Debug)]
pub struct PortfolioPerformance {
    /// The running total portfolio value.
    pub daily_portvals: TimeSeries<i64>,
    /// The daily portfolio returns.
    pub daily_returns: TimeSeries<Ratio>,
}

/// Errors that may occur during portfolio performance calculation.
#[derive(Clone, Copy, Debug, PartialEq, Eq, Structural)]
pub enum PerformanceError {
    /// There are not enough data points to measure.
    NotEnoughDataPoints,
    /// The date has no trade while calculating trade accuracy.
    DayNotInPerformancePeriod(Date),
}

/// How many trades were closed with a profit, out of those counted.
#[derive(Clone, Copy, Debug, PartialEq, Eq, Structural)]
pub struct Accuracy {
    pub profitable: u64,
    pub counted: u64,
}

impl PortfolioPerformance {
    /// Measures a valuation series, which must have at least one entry.
    pub fn new(daily_portvals: TimeSeries<i64>) -> (r: Result<Self, PerformanceError>)
        ensures
            r is Err <==> daily_portvals@.len() == 0,
            r matches Err(e) ==> e == PerformanceError::NotEnoughDataPoints,
            r matches Ok(p) ==> p.daily_portvals@ == daily_portvals@ && p.daily_returns@
                == returns_of(daily_portvals@),
    {
        let ghost vals = daily_portvals@;
        let n = daily_portvals.len();
        if n == 0 {
            return Err(PerformanceError::NotEnoughDataPoints);
        }
        let mut daily_returns: TimeSeries<Ratio> = TimeSeries::new();
        let entries = daily_portvals.entries();
        let mut i: usize = 0;
        while i < n
            invariant
                n == vals.len(),
                entries@ == vals,
                crate::util::dates_increasing(vals),
                i <= n,
                daily_returns@ =~= returns_of(vals).subrange(0, i as int),
            decreases n - i,
        {
            let (day, value) = entries[i];
            let ret = if i == 0 {
                Ratio { numerator: 0, denominator: 1 }
            } else {
                let before = entries[i - 1].1;
                Ratio { numerator: value as i128 - before as i128, denominator: before as i128 }
            };
            proof {
                if i > 0 {
                    assert(vals[i - 1].0.before(vals[i as int].0));
                    assert(daily_returns@.last() == returns_of(vals)[i - 1]);
                }
            }
            let pushed = daily_returns.push(day, ret);
            assert(pushed is Ok);
            i += 1;
        }
        assert(returns_of(vals).subrange(0, n as int) =~= returns_of(vals));
        Ok(PortfolioPerformance { daily_portvals, daily_returns })
    }

    /// The return from the first to the last value dated between `start`
    /// and `end`, both included (zero when a single value lies there). Fails
    /// when no value lies there.
    pub fn range_return(&self, start: &Date, end: &Date) -> (r: Result<Ratio, PerformanceError>)
        ensures
            ({
                let w = entries_within(self.daily_portvals@, *start, *end);
                &&& r is Err <==> w.len() == 0
                &&& r matches Err(e) ==> e == PerformanceError::NotEnoughDataPoints
                &&& r matches Ok(x) ==> x == return_between(w[0].1, w.last().1)
            }),
    {
        let slice = self.daily_portvals.range(start, end);
        Self::series_return(&slice)
    }

    /// The return from the first to the last value of the whole series
    /// (zero for a single value). Fails on an empty series.
    pub fn total_return(&self) -> (r: Result<Ratio, PerformanceError>)
        ensures
            ({
                let w = self.daily_portvals@;
                &&& r is Err <==> w.len() == 0
                &&& r matches Err(e) ==> e == PerformanceError::NotEnoughDataPoints
                &&& r matches Ok(x) ==> x == return_between(w[0].1, w.last().1)
            }),
    {
        Self::series_return(&self.daily_portvals)
    }

    fn series_return(w: &TimeSeries<i64>) -> (r: Result<Ratio, PerformanceError>)
        ensures
            r is Err <==> w@.len() == 0,
            r matches Err(e) ==> e == PerformanceError::NotEnoughDataPoints,
            r matches Ok(x) ==> x == return_between(w@[0].1, w@.last().1),
    {
        let entries = w.entries();
        let n = entries.len();
        if n == 0 {
            return Err(PerformanceError::NotEnoughDataPoints);
        }
        let first = entries[0].1;
        let last = entries[n - 1].1;
        Ok(Ratio { numerator: last as i128 - first as i128, denominator: first as i128 })
    }

    /// Counts the trades of `trades` over the valuation series. A trade opens
    /// with a long or short position and closes when a later trade exits from
    /// it (going out, or entering the opposite position). A closed trade is
    /// counted when its return is not zero, and is profitable when its return
    /// is above zero. Fails on the first valuation date without a trade.
    pub fn trades_accuracy(&self, trades: &Trades) -> (r: Result<Accuracy, PerformanceError>)
        ensures
            ({
                let vals = self.daily_portvals@;
                let ts = trades.trades@;
                &&& r is Err <==> exists|k: int| 0 <= k < vals.len() && !has_date(ts, #[trigger] vals[k].0)
                &&& r matches Err(e) ==> exists|k: int|
                    0 <= k < vals.len() && e == PerformanceError::DayNotInPerformancePeriod(
                        #[trigger] vals[k].0,
                    ) && !has_date(ts, vals[k].0) && forall|j: int|
                        0 <= j < k ==> has_date(ts, #[trigger] vals[j].0)
                &&& r matches Ok(a) ==> a.profitable == tally(vals, ts, vals.len() as int).2
                    && a.counted == tally(vals, ts, vals.len() as int).3
            }),
    {
        let ghost vals = self.daily_portvals@;
        let ghost ts = trades.trades@;
        let entries = self.daily_portvals.entries();
        let n = entries.len();
        let mut last_entry = Position::Out;
        let mut entry_value: i64 = 0;
        let mut profitable: u64 = 0;
        let mut counted: u64 = 0;
        let mut i: usize = 0;
        while i < n
            invariant
                n == vals.len(),
                entries@ == vals,
                vals == self.daily_portvals@,
                ts == trades.trades@,
                i <= n,
                profitable <= i,
                counted <= i,
                (last_entry, entry_value as int, profitable as int, counted as int) == tally(
                    vals,
                    ts,
                    i as int,
                ),
                forall|j: int| 0 <= j < i ==> has_date(ts, #[trigger] vals[j].0),
            decreases n - i,
        {
            let (day, value) = entries[i];
            let current = match trades.get(&day) {
                Some(p) => *p,
                None => {
                    assert(vals[i as int].0 == day);
                    assert(!has_date(ts, vals[i as int].0));
                    return Err(PerformanceError::DayNotInPerformancePeriod(day));
                },
            };
            if current.is_exit_from(last_entry) {
                let positive = if entry_value > 0 {
                    value > entry_value
                } else if entry_value < 0 {
                    value < entry_value
                } else {
                    value > 0
                };
                if positive {
                    profitable = profitable + 1;
                }
                if entry_value == 0 || value != entry_value {
                    counted = counted + 1;
                }
                last_entry = current;
            }
            if current.is_entry() {
                entry_value = value;
                last_entry = current;
            }
            i += 1;
        }
        Ok(Accuracy { profitable, counted })
    }
}

/// An unclosed entry is not counted: when no position is open after the
/// first `n` days (the tally's anchor is not an entry), a long or short entry
/// on day `n` followed only by holds up to day `m` leaves the profitable and
/// the counted trades as they were after day `n`.
pub proof fn lemma_unclosed_entry_not_counted(
    vals: Seq<(Date, i64)>,
    trades: Seq<(Date, Position)>,
    n: int,
    m: int,
)
    requires
        0 <= n < m <= vals.len(),
        !tally(vals, trades, n).0.entry(),
        value_on(trades, vals[n].0) matches Some(p) && p.entry(),
        forall|k: int| n < k < m ==> value_on(trades, #[trigger] vals[k].0) == Some(Position::Hold),
    ensures
        tally(vals, trades, m).2 == tally(vals, trades, n).2,
        tally(vals, trades, m).3 == tally(vals, trades, n).3,
    decreases m - n,
{
    if m > n + 1 {
        lemma_unclosed_entry_not_counted(vals, trades, n, m - 1);
        assert(value_on(trades, vals[m - 1].0) == Some(Position::Hold));
    }
}

/// The count over the first `n` days depends only on those days' values and
/// trades.
proof fn lemma_tally_prefix(
    vals1: Seq<(Date, i64)>,
    trades1: Seq<(Date, Position)>,
    vals2: Seq<(Date, i64)>,
    trades2: Seq<(Date, Position)>,
    n: int,
)
    requires
        0 <= n <= vals1.len(),
        n <= vals2.len(),
        forall|k: int| 0 <= k < n ==> #[trigger] vals1[k] == vals2[k],
        forall|k: int|
            0 <= k < n ==> value_on(trades1, #[trigger] vals1[k].0) == value_on(trades2, vals1[k].0),
    ensures
        tally(vals1, trades1, n) == tally(vals2, trades2, n),
    decreases n,
{
    if n > 0 {
        lemma_tally_prefix(vals1, trades1, vals2, trades2, n - 1);
        assert(vals1[n - 1] == vals2[n - 1]);
        assert(value_on(trades1, vals1[n - 1].0) == value_on(trades2, vals1[n - 1].0));
    }
}

/// Adding an unclosed entry leaves the accuracy unchanged. The valuations
/// `vals2` and trades `trades2` extend `vals1` and `trades1`; every day of
/// `vals1` has a trade and no position is open after it. The days added after
/// `vals1` trade one long or short entry, then only holds. Then the counts
/// over `vals2` are those over `vals1`.
pub proof fn lemma_unclosed_entry_leaves_accuracy(
    vals1: Seq<(Date, i64)>,
    trades1: Seq<(Date, Position)>,
    vals2: Seq<(Date, i64)>,
    trades2: Seq<(Date, Position)>,
)
    requires
        dates_increasing(trades2),
        trades1.len() <= trades2.len(),
        trades1 == trades2.subrange(0, trades1.len() as int),
        vals1 == vals2.subrange(0, vals1.len() as int),
        vals1.len() < vals2.len(),
        forall|k: int| 0 <= k < vals1.len() ==> has_date(trades1, #[trigger] vals1[k].0),
        !tally(vals1, trades1, vals1.len() as int).0.entry(),
        value_on(trades2, vals2[vals1.len() as int].0) matches Some(p) && p.entry(),
        forall|k: int|
            vals1.len() < k < vals2.len() ==> value_on(trades2, #[trigger] vals2[k].0) == Some(
                Position::Hold,
            ),
    ensures
        tally(vals2, trades2, vals2.len() as int).2 == tally(vals1, trades1, vals1.len() as int).2,
        tally(vals2, trades2, vals2.len() as int).3 == tally(vals1, trades1, vals1.len() as int).3,
{
    let n = vals1.len() as int;
    assert forall|k: int| 0 <= k < n implies #[trigger] vals1[k] == vals2[k] by {}
    assert forall|k: int| 0 <= k < n implies value_on(trades1, #[trigger] vals1[k].0) == value_on(
        trades2,
        vals1[k].0,
    ) by {
        let d = vals1[k].0;
        assert(has_date(trades1, d));
        let i = index_of(trades1, d);
        assert(0 <= i < trades1.len() && trades1[i].0 == d);
        assert(trades2[i] == trades1[i]);
        lemma_index_of(trades2, i);
    }
    lemma_tally_prefix(vals1, trades1, vals2, trades2, n);
    lemma_unclosed_entry_not_counted(vals2, trades2, n, vals2.len() as int);
}

/// A flat valuation series has a zero return on every day.
pub proof fn lemma_flat_series_zero_returns(vals: Seq<(Date, i64)>)
    requires
        forall|k: int| 0 <= k < vals.len() ==> #[trigger] vals[k].1 == vals[0].1,
    ensures
        forall|k: int| 0 <= k < vals.len() ==> (#[trigger] returns_of(vals)[k]).1.numerator == 0,
{
    assert forall|k: int| 0 <= k < vals.len() implies (#[trigger] returns_of(vals)[k]).1.numerator
        == 0 by {
        if k > 0 {
            assert(vals[k - 1].1 == vals[0].1);
        }
    }
}

} // verus!
