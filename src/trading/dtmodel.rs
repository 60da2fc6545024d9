//! A one-vs-rest decision tree trader. Technical indicator signal
//! generators provide the features; returns a fixed number of trading days
//! ahead provide the labels.
//!
//! This module holds the trader's decisions: which dates can be trained on
//! and how each is labelled, and which position each predicted class stands
//! for. The features and the classifier itself work in floating point and
//! are driven by the caller.

use crate::date::Date;
use crate::indicators::SupportedIndicators;
use crate::marketdata::prices::Prices;
use crate::trading::position::Position;
use crate::trading::tradingmodel::Trades;
use crate::util::{offset_entry, value_on, TimeSeries};
use vstd::prelude::*;

verus! {

/// How many trading days ahead the model looks for returns when labelling
/// its training data.
#[derive(Clone, Copy, Debug, PartialEq, Eq, Structural)]
pub struct Horizon(pub u32);

impl Default for Horizon {
    fn default() -> (r: Self)
        ensures
            r.0 == 10,
    {
        Horizon(10)
    }
}

/// How large a forward return must be, in basis points (hundredths of a
/// percent), for the model to label a day long (at least this much) or short
/// (at most its negative).
#[derive(Clone, Copy, Debug, PartialEq, Eq, Structural)]
pub struct DecisionThreshold(pub u32);

impl Default for DecisionThreshold {
    fn default() -> (r: Self)
        ensures
            r.0 == 300,
    {
        DecisionThreshold(300)
    }
}

/// Marks a trader whose classifier has been fitted.
#[derive(Clone, Copy, Debug, PartialEq, Eq, Structural)]
pub struct Trained;

/// Marks a trader whose classifier has not been fitted yet.
#[derive(Clone, Copy, Debug, PartialEq, Eq, Structural)]
pub struct Untrained;

/// Things that can go wrong while training or using a decision tree trader.
#[derive(Debug, PartialEq, Eq)]
pub enum DecisionTreeError {
    /// No price `horizon` trading days after this date.
    NoLookAheadPriceData(Horizon, Date),
    /// The classifier failed to fit, with its message.
    TrainingError(String),
    /// The classifier failed to predict, with its message.
    PredictionError(String),
    /// The classifier predicted a class other than long, out or short.
    InvalidPrediction(i64),
    /// No price on this training date.
    NoPriceFound(Date),
    /// The trader was given no signal generator.
    NoSignalGeneratorsProvided,
}

/// The class a training day is labelled with.
#[derive(Clone, Copy, Debug, PartialEq, Eq, Structural)]
pub enum Label {
    Long,
    Out,
    Short,
}

impl Label {
    /// The class number handed to the classifier: 1 long, 0 out, -1 short.
    pub open spec fn class_spec(self) -> i64 {
        match self {
            Label::Long => 1,
            Label::Out => 0,
            Label::Short => -1i64,
        }
    }

    /// The class number handed to the classifier: 1 long, 0 out, -1 short.
    pub fn class(&self) -> (r: i64)
        ensures
            r == self.class_spec(),
    {
        match self {
            Label::Long => 1,
            Label::Out => 0,
            Label::Short => -1,
        }
    }
}

/// The label of a day priced `price` whose price `horizon` days later is
/// `future`. The forward return `future / price - 1` is compared with the
/// threshold of `bp` basis points: long at or above it, short at or below its
/// negative, out otherwise. A zero price gives an infinite return when
/// `future` is positive (long), and no return at all otherwise (out).
pub open spec fn label_for(price: int, future: int, bp: int) -> Label {
    if price == 0 {
        if future > 0 {
            Label::Long
        } else {
            Label::Out
        }
    } else if future * 10000 >= price * (10000 + bp) {
        Label::Long
    } else if future * 10000 <= price * (10000 - bp) {
        Label::Short
    } else {
        Label::Out
    }
}

/// One labelled training day: its date, its price, and its label.
#[derive(Clone, Copy, Debug, PartialEq, Eq, Structural)]
pub struct TrainingExample {
    pub date: Date,
    pub price: u64,
    pub label: Label,
}

/// The trading days ahead that `horizon` looks (a horizon of 0 looks at the
/// next day).
pub open spec fn lookahead(horizon: Horizon) -> int {
    if horizon.0 == 0 {
        1
    } else {
        horizon.0 as int
    }
}

/// The training example of date `d`, or why there is none.
pub open spec fn example_for(
    prices: Seq<(Date, u64)>,
    d: Date,
    horizon: Horizon,
    threshold: DecisionThreshold,
) -> Result<TrainingExample, DecisionTreeError> {
    match value_on(prices, d) {
        None => Err(DecisionTreeError::NoPriceFound(d)),
        Some(p) => match offset_entry(prices, d, lookahead(horizon)) {
            None => Err(DecisionTreeError::NoLookAheadPriceData(horizon, d)),
            Some(f) => Ok(
                TrainingExample { date: d, price: p, label: label_for(p as int, f.1 as int, threshold.0 as int) },
            ),
        },
    }
}

/// The training examples of `dates`, in order, or the error of the first
/// date that has none.
pub open spec fn training_outcome(
    prices: Seq<(Date, u64)>,
    dates: Seq<Date>,
    horizon: Horizon,
    threshold: DecisionThreshold,
) -> Result<Seq<TrainingExample>, DecisionTreeError>
    decreases dates.len(),
{
    if dates.len() == 0 {
        Ok(Seq::empty())
    } else {
        match training_outcome(prices, dates.drop_last(), horizon, threshold) {
            Err(e) => Err(e),
            Ok(s) => match example_for(prices, dates.last(), horizon, threshold) {
                Err(e) => Err(e),
                Ok(x) => Ok(s.push(x)),
            },
        }
    }
}

/// The position a predicted class stands for, if it is one of the three.
pub open spec fn position_for_class(class: i64, shares: u64) -> Option<Position> {
    if class == 1 {
        Some(Position::Long(shares))
    } else if class == 0 {
        Some(Position::Out)
    } else if class == -1 {
        Some(Position::Short(shares))
    } else {
        None
    }
}

/// The label of a day, computed exactly in integers.
fn label_of(price: u64, future: u64, bp: u32) -> (r: Label)
    ensures
        r == label_for(price as int, future as int, bp as int),
{
    if price == 0 {
        if future > 0 {
            Label::Long
        } else {
            Label::Out
        }
    } else {
        let p = price as u128;
        let up = 10000 + bp as u128;
        let down: u128 = if bp <= 10000 { 10000 - bp as u128 } else { 0 };
        assert(p * up <= 0xffff_ffff_ffff_ffff * 0x1_0000_ffff) by (nonlinear_arith)
            requires
                p <= 0xffff_ffff_ffff_ffff,
                up <= 0x1_0000_ffff,
        ;
        assert(p * down <= p * 10000) by (nonlinear_arith)
            requires
                down <= 10000,
        ;
        let scaled_future = future as u128 * 10000;
        if scaled_future >= p * up {
            Label::Long
        } else if bp <= 10000 && scaled_future <= p * down {
            Label::Short
        } else {
            proof {
                if bp > 10000 {
                    assert(price * (10000 - bp) < 0) by (nonlinear_arith)
                        requires
                            price > 0,
                            bp > 10000,
                    ;
                }
            }
            Label::Out
        }
    }
}

/// A trader that predicts positions with a classifier over the signals of an
/// ordered list of indicators.
#[derive(Debug)]
pub struct DecisionTreeTrader<TrainedState> {
    signal_generators: Vec<SupportedIndicators>,
    max_shares: u32,
    state: TrainedState,
}

impl<S> DecisionTreeTrader<S> {
    /// The indicators that give the features, in order.
    pub closed spec fn generators_view(&self) -> Seq<SupportedIndicators> {
        self.signal_generators@
    }

    /// The share count of a long or short position.
    pub closed spec fn shares_view(&self) -> u32 {
        self.max_shares
    }

    /// The indicators that give the features, in order.
    pub fn signal_generators(&self) -> (r: &Vec<SupportedIndicators>)
        ensures
            r@ == self.generators_view(),
    {
        &self.signal_generators
    }

    /// The share count of a long or short position.
    pub fn max_shares(&self) -> (r: u32)
        ensures
            r == self.shares_view(),
    {
        self.max_shares
    }
}

impl Default for DecisionTreeTrader<Untrained> {
    /// A trader over MACD, relative strength index and Bollinger bands, in
    /// that order, trading 1000 shares.
    fn default() -> (r: Self)
        ensures
            r.generators_view() == seq![
                SupportedIndicators::MACD,
                SupportedIndicators::RelativeStrengthIndex,
                SupportedIndicators::BollingerBands,
            ],
            r.shares_view() == 1000,
    {
        let signal_generators = vec![
            SupportedIndicators::MACD,
            SupportedIndicators::RelativeStrengthIndex,
            SupportedIndicators::BollingerBands,
        ];
        assert(signal_generators@ =~= seq![
            SupportedIndicators::MACD,
            SupportedIndicators::RelativeStrengthIndex,
            SupportedIndicators::BollingerBands,
        ]);
        DecisionTreeTrader { signal_generators, max_shares: 1000, state: Untrained }
    }
}

impl DecisionTreeTrader<Untrained> {
    /// A trader over `signal_generators`, in that order, trading
    /// `max_shares` shares. At least one generator must be given.
    pub fn new(signal_generators: Vec<SupportedIndicators>, max_shares: u32) -> (r: Result<
        Self,
        DecisionTreeError,
    >)
        ensures
            r is Err <==> signal_generators@.len() == 0,
            r matches Err(e) ==> e == DecisionTreeError::NoSignalGeneratorsProvided,
            r matches Ok(t) ==> t.generators_view() == signal_generators@ && t.shares_view()
                == max_shares,
    {
        if signal_generators.len() == 0 {
            return Err(DecisionTreeError::NoSignalGeneratorsProvided);
        }
        Ok(DecisionTreeTrader { signal_generators, max_shares, state: Untrained })
    }

    /// Labels each of `train_dates`, in order: the date's price, and Long,
    /// Short or Out by its return `horizon` trading days ahead against
    /// `threshold`. Fails on the first date without a price or without a
    /// price `horizon` trading days after it.
    pub fn training_examples(
        &self,
        train_prices: &Prices,
        train_dates: &Vec<Date>,
        horizon: Horizon,
        threshold: DecisionThreshold,
    ) -> (r: Result<Vec<TrainingExample>, DecisionTreeError>)
        ensures
            match r {
                Ok(v) => training_outcome(train_prices.map@, train_dates@, horizon, threshold) == Ok::<
                    Seq<TrainingExample>,
                    DecisionTreeError,
                >(v@),
                Err(e) => training_outcome(train_prices.map@, train_dates@, horizon, threshold)
                    == Err::<Seq<TrainingExample>, DecisionTreeError>(e),
            },
    {
        let ghost prices = train_prices.map@;
        let n = train_dates.len();
        let mut out: Vec<TrainingExample> = Vec::new();
        let mut i: usize = 0;
        assert(train_dates@.subrange(0, 0) =~= Seq::<Date>::empty());
        while i < n
            invariant
                n == train_dates@.len(),
                prices == train_prices.map@,
                i <= n,
                training_outcome(prices, train_dates@.subrange(0, i as int), horizon, threshold) == Ok::<
                    Seq<TrainingExample>,
                    DecisionTreeError,
                >(out@),
            decreases n - i,
        {
            let day = train_dates[i];
            let ghost sub = train_dates@.subrange(0, i as int + 1);
            assert(sub.drop_last() =~= train_dates@.subrange(0, i as int));
            assert(sub.last() == day);
            let price = match train_prices.get(&day) {
                Some(p) => *p,
                None => {
                    proof {
                        lemma_outcome_error_persists(prices, train_dates@, i as int + 1, horizon, threshold);
                    }
                    return Err(DecisionTreeError::NoPriceFound(day));
                },
            };
            let future = match train_prices.get_after(&day, horizon.0) {
                Some(entry) => entry.1,
                None => {
                    proof {
                        lemma_outcome_error_persists(prices, train_dates@, i as int + 1, horizon, threshold);
                    }
                    return Err(DecisionTreeError::NoLookAheadPriceData(horizon, day));
                },
            };
            let label = label_of(price, future, threshold.0);
            out.push(TrainingExample { date: day, price, label });
            i += 1;
        }
        assert(train_dates@.subrange(0, n as int) =~= train_dates@);
        Ok(out)
    }

    /// The same trader, marked as having a fitted classifier.
    pub fn trained(self) -> (r: DecisionTreeTrader<Trained>)
        ensures
            r.generators_view() == self.generators_view(),
            r.shares_view() == self.shares_view(),
    {
        DecisionTreeTrader {
            signal_generators: self.signal_generators,
            max_shares: self.max_shares,
            state: Trained,
        }
    }
}

/// Once a prefix of the dates has no training outcome, neither do the dates
/// as a whole, and the error stays the same.
proof fn lemma_outcome_error_persists(
    prices: Seq<(Date, u64)>,
    dates: Seq<Date>,
    k: int,
    horizon: Horizon,
    threshold: DecisionThreshold,
)
    requires
        0 <= k <= dates.len(),
        training_outcome(prices, dates.subrange(0, k), horizon, threshold) is Err,
    ensures
        training_outcome(prices, dates, horizon, threshold) == training_outcome(
            prices,
            dates.subrange(0, k),
            horizon,
            threshold,
        ),
    decreases dates.len() - k,
{
    if k == dates.len() {
        assert(dates.subrange(0, k) =~= dates);
    } else {
        let next = dates.subrange(0, k + 1);
        assert(next.drop_last() =~= dates.subrange(0, k));
        lemma_outcome_error_persists(prices, dates, k + 1, horizon, threshold);
    }
}

impl DecisionTreeTrader<Trained> {
    /// The trades for `prices`, one per date: the position that the
    /// classifier's prediction for that date stands for (1 long, 0 out, -1
    /// short, with the trader's share count). Fails on the first prediction
    /// that is none of these.
    pub fn get_trades(&self, prices: &Prices, predictions: &Vec<i64>) -> (r: Result<
        Trades,
        DecisionTreeError,
    >)
        requires
            predictions@.len() == prices.map@.len(),
        ensures
            r is Ok <==> forall|k: int|
                0 <= k < predictions@.len() ==> #[trigger] position_for_class(
                    predictions@[k],
                    self.shares_view() as u64,
                ) is Some,
            r matches Ok(t) ==> t.trades@.len() == prices.map@.len() && forall|k: int|
                0 <= k < prices.map@.len() ==> Some(#[trigger] t.trades@[k].1) == position_for_class(
                    predictions@[k],
                    self.shares_view() as u64,
                ) && t.trades@[k].0 == prices.map@[k].0,
            r matches Err(e) ==> exists|k: int|
                0 <= k < predictions@.len() && e == DecisionTreeError::InvalidPrediction(
                    #[trigger] predictions@[k],
                ) && position_for_class(predictions@[k], self.shares_view() as u64) is None
                    && forall|j: int|
                    0 <= j < k ==> #[trigger] position_for_class(
                        predictions@[j],
                        self.shares_view() as u64,
                    ) is Some,
    {
        let shares = self.max_shares as u64;
        let entries = prices.map.entries();
        let n = entries.len();
        let mut trades: TimeSeries<Position> = TimeSeries::new();
        let mut i: usize = 0;
        while i < n
            invariant
                n == prices.map@.len(),
                n == predictions@.len(),
                entries@ == prices.map@,
                crate::util::dates_increasing(prices.map@),
                shares == self.shares_view() as u64,
                i <= n,
                trades@.len() == i,
                forall|k: int| 0 <= k < i ==> #[trigger] position_for_class(predictions@[k], shares) is Some,
                forall|k: int|
                    0 <= k < i ==> Some(#[trigger] trades@[k].1) == position_for_class(
                        predictions@[k],
                        shares,
                    ),
                forall|k: int| 0 <= k < i ==> (#[trigger] trades@[k]).0 == prices.map@[k].0,
            decreases n - i,
        {
            let class = predictions[i];
            let position = if class == 1 {
                Position::Long(shares)
            } else if class == 0 {
                Position::Out
            } else if class == -1 {
                Position::Short(shares)
            } else {
                assert(position_for_class(predictions@[i as int], shares) is None);
                return Err(DecisionTreeError::InvalidPrediction(class));
            };
            proof {
                if i > 0 {
                    assert(prices.map@[i - 1].0.before(prices.map@[i as int].0));
                    assert(trades@[i - 1].0 == prices.map@[i - 1].0);
                }
            }
            let pushed = trades.push(entries[i].0, position);
            assert(pushed is Ok);
            i += 1;
        }
        Ok(Trades { trades })
    }
}

/// The labelled examples depend on the prices, dates, horizon and threshold
/// alone: equal inputs give equal examples, or the same error. This covers
/// the labelling only; the classifier fitted to the examples is not part of
/// this library.
pub proof fn lemma_training_deterministic(
    prices_a: Seq<(Date, u64)>,
    prices_b: Seq<(Date, u64)>,
    dates_a: Seq<Date>,
    dates_b: Seq<Date>,
    horizon: Horizon,
    threshold: DecisionThreshold,
)
    requires
        prices_a == prices_b,
        dates_a == dates_b,
    ensures
        training_outcome(prices_a, dates_a, horizon, threshold) == training_outcome(
            prices_b,
            dates_b,
            horizon,
            threshold,
        ),
{
}

} // verus!
