use rustlearn::array::dense::Array;
use rustlearn::multiclass::OneVsRestWrapper;
use rustlearn::traits::SupervisedModel;
use rustlearn::trees::decision_tree::{DecisionTree, Hyperparameters};
use ta::indicators::{BollingerBands, MovingAverageConvergenceDivergence, RelativeStrengthIndex};
use ta::{Next, Reset};
use techalyzer::date::Date;
use techalyzer::marketdata::prices::Prices;
use techalyzer::trading::dtmodel::{DecisionThreshold, DecisionTreeTrader, Horizon};
use techalyzer::trading::tradingmodel::Trades;
use techalyzer::trading::Position;
use techalyzer::util::TimeSeries;
use techalyzer::indicators::SupportedIndicators;

/// A streaming signal of one indicator, as the trader's features. The
/// command-line program holds the generators it trades with; these tests
/// build the same signals from the ta crate to drive the library's
/// labelling and prediction mapping end to end.
enum Generator {
    Macd(MovingAverageConvergenceDivergence, f64),
    Rsi(RelativeStrengthIndex),
    Bb(BollingerBands),
}

impl Generator {
    fn of(i: SupportedIndicators) -> Generator {
        match i {
            SupportedIndicators::MACD => Generator::Macd(MovingAverageConvergenceDivergence::new(12, 26, 9).unwrap(), 0.0),
            SupportedIndicators::RelativeStrengthIndex => Generator::Rsi(RelativeStrengthIndex::new(14).unwrap()),
            _ => Generator::Bb(BollingerBands::new(20, 2.0).unwrap()),
        }
    }

    fn reset(&mut self) {
        match self {
            Generator::Macd(m, prev) => {
                m.reset();
                *prev = 0.0;
            }
            Generator::Rsi(r) => r.reset(),
            Generator::Bb(b) => b.reset(),
        }
    }

    fn next(&mut self, price: f64) -> f32 {
        let signal = match self {
            Generator::Macd(m, prev) => {
                let o = m.next(price);
                let bias = if o.macd > o.signal { 0.5 } else if o.macd < o.signal { -0.5 } else { 0.0 };
                let slope = if *prev == 0.0 { 0.0 } else { ((o.macd - *prev) / *prev) / 2.0 };
                *prev = o.macd;
                slope.max(-0.5).min(0.5) + bias
            }
            Generator::Rsi(r) => -((r.next(price) / 50.0) - 1.0),
            Generator::Bb(b) => {
                let o = b.next(price);
                let raw = -(2.0 * ((price - o.lower) / (o.upper - o.lower) - 0.5));
                if raw.is_nan() { 0.0 } else { raw.max(-1.0).min(1.0) }
            }
        };
        assert!((-1.0..=1.0).contains(&signal));
        signal as f32
    }
}

/// A month of daily prices from 2012-01-02 to 2012-02-02, taken in order
/// from `new_prices`.
fn fixture_setup(new_prices: &[u64]) -> Prices {
    let days = Date::range(Date::from_ymd(2012, 1, 2), Date::from_ymd(2012, 2, 3));
    let entries = days.iter().enumerate().map(|(i, d)| (*d, new_prices[i])).collect();
    Prices { map: TimeSeries::from_entries(entries).unwrap(), symbol: "jpm".to_string() }
}

struct Trained {
    trader: DecisionTreeTrader<techalyzer::trading::dtmodel::Trained>,
    learner: OneVsRestWrapper<DecisionTree>,
}

fn train(indics: Vec<SupportedIndicators>, prices: &Prices, horizon: Horizon, threshold: DecisionThreshold) -> Trained {
    let trader = DecisionTreeTrader::new(indics.clone(), 1000).unwrap();
    let range = Date::range(Date::from_ymd(2012, 1, 2), Date::from_ymd(2012, 1, 30));
    let examples = trader.training_examples(prices, &range, horizon, threshold).unwrap();
    let mut generators: Vec<Generator> = indics.iter().map(|i| Generator::of(*i)).collect();
    let mut x = Vec::new();
    let mut y = Vec::new();
    for e in &examples {
        x.push(generators.iter_mut().map(|g| g.next(e.price as f64)).collect::<Vec<f32>>());
        y.push(e.label.class() as f32);
    }
    let mut learner = Hyperparameters::new(indics.len()).max_features(indics.len()).one_vs_rest();
    learner.fit(&Array::from(&x), &Array::from(y)).unwrap();
    Trained { trader: trader.trained(), learner }
}

fn get_trades(model: &Trained, prices: &Prices) -> Trades {
    let mut generators: Vec<Generator> = model.trader.signal_generators().iter().map(|i| Generator::of(*i)).collect();
    for g in generators.iter_mut() {
        g.reset();
    }
    let mut classes = Vec::new();
    for (_, price) in prices.map.entries().iter() {
        let features: Vec<f32> = generators.iter_mut().map(|g| g.next(*price as f64)).collect();
        let prediction = model.learner.predict(&Array::from(&vec![features])).unwrap();
        classes.push(prediction.data()[0] as i64);
    }
    model.trader.get_trades(prices, &classes).unwrap()
}

fn run_trader_test(indics: Vec<SupportedIndicators>, new_prices: Vec<u64>, horizon: Horizon, threshold: DecisionThreshold) -> Trades {
    let prices = fixture_setup(&new_prices);
    let trained = train(indics, &prices, horizon, threshold);
    get_trades(&trained, &prices)
}

#[test]
fn smoke_test() {
    let prices = fixture_setup(&[30; 40]);
    let trained = train(vec![SupportedIndicators::RelativeStrengthIndex], &prices, Horizon(3), DecisionThreshold(300));

    let bytes = bincode::serialize(&trained.learner).unwrap();
    let loaded: OneVsRestWrapper<DecisionTree> = bincode::deserialize(&bytes).unwrap();
    let trades = get_trades(&trained, &prices);
    let again = Trained { trader: DecisionTreeTrader::new(vec![SupportedIndicators::RelativeStrengthIndex], 1000).unwrap().trained(), learner: loaded };
    let again_trades = get_trades(&again, &prices);
    assert_eq!(trades, again_trades);
}

#[test]
fn bull_market() {
    let new_prices: Vec<u64> = (15..55).collect();
    let trades = run_trader_test(vec![SupportedIndicators::MACD], new_prices, Horizon(3), DecisionThreshold(300));
    assert!(trades.trades.entries().iter().all(|p| p.1 == Position::Long(1000)));
}

#[test]
fn bear_market() {
    let new_prices: Vec<u64> = (15..55).rev().collect();
    let trades = run_trader_test(vec![SupportedIndicators::MACD], new_prices, Horizon(3), DecisionThreshold(300));
    assert!(trades.trades.entries().iter().all(|p| p.1 == Position::Short(1000)));
}

#[test]
fn afraid_to_invest() {
    let new_prices: Vec<u64> = (15..55).rev().collect();
    let trades = run_trader_test(vec![SupportedIndicators::MACD], new_prices, Horizon(3), DecisionThreshold(10000));
    assert!(trades.trades.entries().iter().all(|p| p.1 == Position::Out));
}

#[test]
fn multi_inputs() {
    let indics = vec![
        SupportedIndicators::MACD,
        SupportedIndicators::RelativeStrengthIndex,
        SupportedIndicators::BollingerBands,
    ];
    let new_prices: Vec<u64> = (15..55).rev().collect();
    let _ = run_trader_test(indics, new_prices, Horizon(3), DecisionThreshold(10000));
}

#[test]
fn retraining_predicts_the_same_trades() {
    let new_prices: Vec<u64> = vec![
        30, 31, 29, 35, 36, 30, 28, 40, 41, 39, 38, 42, 45, 44, 40, 37, 36, 38, 41, 43, 46, 44, 42, 40, 39, 41,
        43, 45, 47, 46, 44, 43, 45, 48, 50, 49, 47, 46, 48, 51,
    ];
    let indics = vec![SupportedIndicators::RelativeStrengthIndex, SupportedIndicators::BollingerBands];
    let first = run_trader_test(indics.clone(), new_prices.clone(), Horizon(3), DecisionThreshold(300));
    let second = run_trader_test(indics, new_prices, Horizon(3), DecisionThreshold(300));
    assert_eq!(first, second);
}
