use techalyzer::date::Date;
use techalyzer::indicators::SupportedIndicators;
use techalyzer::marketdata::prices::Prices;
use techalyzer::trading::dtmodel::{
    DecisionThreshold, DecisionTreeError, DecisionTreeTrader, Horizon, Label, TrainingExample,
};
use techalyzer::trading::Position;
use techalyzer::util::TimeSeries;

/// Consecutive days of January 2012, with the given prices.
fn prices_of(values: Vec<u64>) -> Prices {
    let entries = values
        .iter()
        .enumerate()
        .map(|(i, p)| (Date::from_ymd(2012, 1, i as u32 + 1), *p))
        .collect();
    Prices { map: TimeSeries::from_entries(entries).unwrap(), symbol: "jpm".to_string() }
}

fn days(from: u32, to: u32) -> Vec<Date> {
    (from..=to).map(|d| Date::from_ymd(2012, 1, d)).collect()
}

fn trader() -> DecisionTreeTrader<techalyzer::trading::dtmodel::Untrained> {
    DecisionTreeTrader::new(vec![SupportedIndicators::MACD], 1000).unwrap()
}

fn labels(examples: &[TrainingExample]) -> Vec<Label> {
    examples.iter().map(|e| e.label).collect()
}

#[test]
fn needs_a_signal_generator() {
    match DecisionTreeTrader::new(vec![], 1000) {
        Err(e) => assert_eq!(e, DecisionTreeError::NoSignalGeneratorsProvided),
        Ok(_) => panic!("a trader was built without signal generators"),
    }
}

#[test]
fn bull_market_is_labelled_long() {
    let prices = prices_of((15..46).collect());
    let ex = trader().training_examples(&prices, &days(1, 28), Horizon(3), DecisionThreshold(300)).unwrap();
    assert_eq!(ex.len(), 28);
    assert!(labels(&ex).iter().all(|l| *l == Label::Long));
    assert_eq!(ex[0], TrainingExample { date: Date::from_ymd(2012, 1, 1), price: 15, label: Label::Long });
}

#[test]
fn bear_market_is_labelled_short() {
    let prices = prices_of((15..46).rev().collect());
    let ex = trader().training_examples(&prices, &days(1, 28), Horizon(3), DecisionThreshold(300)).unwrap();
    assert!(labels(&ex).iter().all(|l| *l == Label::Short));
}

#[test]
fn high_threshold_is_labelled_out() {
    let prices = prices_of((15..46).rev().collect());
    let ex = trader().training_examples(&prices, &days(1, 28), Horizon(3), DecisionThreshold(10000)).unwrap();
    assert!(labels(&ex).iter().all(|l| *l == Label::Out));
}

#[test]
fn threshold_is_inclusive() {
    // 103 / 100 - 1 is exactly 3%, 97 / 100 - 1 exactly -3%.
    let prices = prices_of(vec![100, 100, 103, 97, 100]);
    let ex = trader().training_examples(&prices, &days(1, 2), Horizon(1), DecisionThreshold(300)).unwrap();
    assert_eq!(labels(&ex), vec![Label::Out, Label::Long]);
    let ex = trader().training_examples(&prices, &days(3, 3), Horizon(1), DecisionThreshold(300)).unwrap();
    assert_eq!(labels(&ex), vec![Label::Short]);
}

#[test]
fn zero_price_labels() {
    let prices = prices_of(vec![0, 5, 0, 0]);
    let ex = trader().training_examples(&prices, &days(1, 3), Horizon(1), DecisionThreshold(300)).unwrap();
    assert_eq!(labels(&ex), vec![Label::Long, Label::Short, Label::Out]);
}

#[test]
fn missing_lookahead_fails() {
    let prices = prices_of(vec![10, 11, 12, 13]);
    let r = trader().training_examples(&prices, &days(1, 3), Horizon(2), DecisionThreshold(300));
    assert_eq!(r, Err(DecisionTreeError::NoLookAheadPriceData(Horizon(2), Date::from_ymd(2012, 1, 3))));
}

#[test]
fn missing_price_fails() {
    let prices = prices_of(vec![10, 11, 12, 13]);
    let r = trader().training_examples(&prices, &days(5, 6), Horizon(1), DecisionThreshold(300));
    assert_eq!(r, Err(DecisionTreeError::NoPriceFound(Date::from_ymd(2012, 1, 5))));
}

#[test]
fn retraining_gives_the_same_examples() {
    let prices = prices_of(vec![30, 31, 29, 35, 36, 30, 28, 40, 41, 39]);
    let t = trader();
    let a = t.training_examples(&prices, &days(1, 7), Horizon(3), DecisionThreshold(300));
    let b = t.training_examples(&prices, &days(1, 7), Horizon(3), DecisionThreshold(300));
    assert_eq!(a, b);
}

#[test]
fn predictions_become_positions() {
    let prices = prices_of(vec![10, 11, 12]);
    let trained = trader().trained();
    let trades = trained.get_trades(&prices, &vec![1, 0, -1]).unwrap();
    assert_eq!(trades.get(&Date::from_ymd(2012, 1, 1)), Some(&Position::Long(1000)));
    assert_eq!(trades.get(&Date::from_ymd(2012, 1, 2)), Some(&Position::Out));
    assert_eq!(trades.get(&Date::from_ymd(2012, 1, 3)), Some(&Position::Short(1000)));
    assert_eq!(trained.max_shares(), 1000);
    assert_eq!(trained.signal_generators(), &vec![SupportedIndicators::MACD]);
}

#[test]
fn unexpected_class_is_refused() {
    let prices = prices_of(vec![10, 11, 12]);
    let trained = trader().trained();
    match trained.get_trades(&prices, &vec![1, 2, -1]) {
        Err(e) => assert_eq!(e, DecisionTreeError::InvalidPrediction(2)),
        Ok(_) => panic!("an unexpected class was accepted"),
    }
}

#[test]
fn label_classes() {
    assert_eq!(Label::Long.class(), 1);
    assert_eq!(Label::Out.class(), 0);
    assert_eq!(Label::Short.class(), -1);
    assert_eq!(Horizon::default(), Horizon(10));
    assert_eq!(DecisionThreshold::default(), DecisionThreshold(300));
}

#[test]
fn default_trader_and_repeatable_trades() {
    let trader: DecisionTreeTrader<techalyzer::trading::dtmodel::Untrained> = Default::default();
    assert_eq!(
        trader.signal_generators(),
        &vec![
            SupportedIndicators::MACD,
            SupportedIndicators::RelativeStrengthIndex,
            SupportedIndicators::BollingerBands,
        ]
    );
    assert_eq!(trader.max_shares(), 1000);
    let prices = prices_of(vec![10, 11, 12, 11]);
    let trained = trader.trained();
    let trades = trained.get_trades(&prices, &vec![1, 1, 0, -1]).unwrap();
    let again = trained.get_trades(&prices, &vec![1, 1, 0, -1]).unwrap();
    assert_eq!(trades, again);
    assert_eq!(trades.len(), 4);
}
