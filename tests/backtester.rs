use techalyzer::backtester::performance::PortfolioPerformance;
use techalyzer::backtester::{BackTester, BackTesterError, Position};
use techalyzer::date::Date;
use techalyzer::marketdata::prices::Prices;
use techalyzer::trading::tradingmodel::Trades;
use techalyzer::util::TimeSeries;

fn prices_of(entries: Vec<(Date, u64)>) -> Prices {
    Prices {
        map: TimeSeries::from_entries(entries).unwrap(),
        symbol: "TLZR".to_string(),
    }
}

fn trades_of(entries: Vec<(Date, Position)>) -> Trades {
    Trades {
        trades: TimeSeries::from_entries(entries).unwrap(),
    }
}

fn run(strat: Vec<(Date, Position)>, prices: Vec<(Date, u64)>, cash: i64) -> PortfolioPerformance {
    let p = prices_of(prices);
    let bt = BackTester::new(trades_of(strat), &p, cash).unwrap();
    bt.backtest().unwrap()
}

fn value_on(result: &PortfolioPerformance, day: &Date) -> i64 {
    *result.daily_portvals.get(day).unwrap()
}

#[test]
fn mod_entry_and_exit() {
    let long = Position::Long(1);
    let short = Position::Short(1);
    let out = Position::Out;
    let hold = Position::Hold;

    assert!(long.is_entry());
    assert!(long.is_entry());
    assert!(!out.is_entry());
    assert!(!hold.is_entry());

    assert!(out.is_exit_from(long));
    assert!(out.is_exit_from(short));
    assert!(!long.is_exit_from(out));
    assert!(!short.is_exit_from(out));

    assert!(long.is_exit_from(short));
    assert!(short.is_exit_from(long));

    assert!(!long.is_exit_from(long));
    assert!(!short.is_exit_from(short));
}

#[test]
fn buy_and_hold_backtest() {
    let day1 = Date::from_ymd(2012, 1, 1);
    let day2 = Date::from_ymd(2012, 1, 2);
    let day3 = Date::from_ymd(2012, 1, 3);

    let strat = vec![
        (day1, Position::Long(1)),
        (day2, Position::Hold),
        (day3, Position::Hold),
    ];
    let prices = vec![(day1, 100), (day2, 105), (day3, 110)];

    let result = run(strat, prices, 100);
    assert_eq!(value_on(&result, &day1), 100);
    assert_eq!(value_on(&result, &day2), 105);
    assert_eq!(value_on(&result, &day3), 110);
}

#[test]
fn partial_sell_backtest() {
    let day1 = Date::from_ymd(2012, 1, 1);
    let day2 = Date::from_ymd(2012, 1, 2);
    let day3 = Date::from_ymd(2012, 1, 3);

    // Buy 2 shares, sell 1, hold the other.
    let strat = vec![
        (day1, Position::Long(2)),
        (day2, Position::Long(1)),
        (day3, Position::Hold),
    ];
    let prices = vec![(day1, 100), (day2, 105), (day3, 110)];

    let result = run(strat, prices, 200);
    assert_eq!(value_on(&result, &day1), 200);
    assert_eq!(value_on(&result, &day2), 210);
    assert_eq!(value_on(&result, &day3), 215);
}

#[test]
fn short_and_hold_backtest() {
    let day1 = Date::from_ymd(2012, 1, 1);
    let day2 = Date::from_ymd(2012, 1, 2);
    let day3 = Date::from_ymd(2012, 1, 3);

    let strat = vec![
        (day1, Position::Short(1)),
        (day2, Position::Hold),
        (day3, Position::Hold),
    ];
    let prices = vec![(day1, 100), (day2, 105), (day3, 110)];

    let result = run(strat, prices, 100);
    assert_eq!(value_on(&result, &day1), 100);
    assert_eq!(value_on(&result, &day2), 95);
    assert_eq!(value_on(&result, &day3), 90);
}

#[test]
fn buy_then_short() {
    let day1 = Date::from_ymd(2012, 1, 1);
    let day2 = Date::from_ymd(2012, 1, 2);
    let day3 = Date::from_ymd(2012, 1, 3);
    let day4 = Date::from_ymd(2012, 1, 4);

    let strat = vec![
        (day1, Position::Long(1)),
        (day2, Position::Hold),
        (day3, Position::Short(1)),
        (day4, Position::Hold),
    ];
    let prices = vec![(day1, 100), (day2, 105), (day3, 110), (day4, 105)];

    let result = run(strat, prices, 100);
    assert_eq!(value_on(&result, &day1), 100);
    assert_eq!(value_on(&result, &day2), 105);
    assert_eq!(value_on(&result, &day3), 110);
    assert_eq!(value_on(&result, &day4), 115);
}

#[test]
fn buy_then_out() {
    let day1 = Date::from_ymd(2012, 1, 1);
    let day2 = Date::from_ymd(2012, 1, 2);
    let day3 = Date::from_ymd(2012, 1, 3);
    let day4 = Date::from_ymd(2012, 1, 4);

    let strat = vec![
        (day1, Position::Long(1)),
        (day2, Position::Hold),
        (day3, Position::Out),
        (day4, Position::Hold),
    ];
    let prices = vec![(day1, 100), (day2, 105), (day3, 110), (day4, 105)];

    let result = run(strat, prices, 100);
    assert_eq!(value_on(&result, &day1), 100);
    assert_eq!(value_on(&result, &day2), 105);
    assert_eq!(value_on(&result, &day3), 110);
    assert_eq!(value_on(&result, &day4), 110);
}

#[test]
fn one_valuation_per_date_in_order() {
    let days: Vec<Date> = (1..=5).map(|d| Date::from_ymd(2015, 6, d)).collect();
    let strat = vec![
        (days[0], Position::Long(3)),
        (days[1], Position::Short(2)),
        (days[2], Position::Hold),
        (days[3], Position::Out),
        (days[4], Position::Long(1)),
    ];
    let prices: Vec<(Date, u64)> = days.iter().zip([50u64, 60, 40, 45, 70]).map(|(d, p)| (*d, p)).collect();
    let result = run(strat, prices, 1000);
    let vals = result.daily_portvals.entries();
    assert_eq!(vals.len(), 5);
    for (i, (d, _)) in vals.iter().enumerate() {
        assert_eq!(*d, days[i]);
    }
    // Long 3 at 50, then short 2 at 60 (sell 5 shares), hold at 40, out at 45,
    // long 1 at 70.
    let values: Vec<i64> = vals.iter().map(|e| e.1).collect();
    assert_eq!(values, vec![1000, 1030, 1070, 1060, 1060]);
    assert_eq!(result.daily_returns.entries().len(), 5);
}

#[test]
fn hold_on_first_day_is_out() {
    let day1 = Date::from_ymd(2012, 1, 1);
    let day2 = Date::from_ymd(2012, 1, 2);
    let strat = vec![(day1, Position::Hold), (day2, Position::Hold)];
    let prices = vec![(day1, 100), (day2, 150)];
    let result = run(strat, prices, 500);
    assert_eq!(value_on(&result, &day1), 500);
    assert_eq!(value_on(&result, &day2), 500);
}

#[test]
fn missing_position_is_refused() {
    let day1 = Date::from_ymd(2012, 1, 1);
    let day2 = Date::from_ymd(2012, 1, 2);
    let p = prices_of(vec![(day1, 100), (day2, 105)]);
    let trades = trades_of(vec![(day1, Position::Long(1))]);
    match BackTester::new(trades, &p, 100) {
        Err(e) => assert_eq!(e, BackTesterError::NoPositionFound(day2)),
        Ok(_) => panic!("a backtester was built without a position for every day"),
    }
}

#[test]
fn extra_trade_dates_are_accepted() {
    let day1 = Date::from_ymd(2012, 1, 1);
    let day2 = Date::from_ymd(2012, 1, 2);
    let p = prices_of(vec![(day2, 100)]);
    let trades = trades_of(vec![(day1, Position::Short(4)), (day2, Position::Long(1))]);
    let bt = BackTester::new(trades, &p, 100).unwrap();
    let result = bt.backtest().unwrap();
    assert_eq!(value_on(&result, &day2), 100);
}

#[test]
fn empty_prices_cannot_be_measured() {
    let p = prices_of(vec![]);
    let bt = BackTester::new(trades_of(vec![]), &p, 100).unwrap();
    match bt.backtest() {
        Err(e) => assert_eq!(e, BackTesterError::NotEnoughDataPoints),
        Ok(_) => panic!("an empty backtest was measured"),
    }
}

#[test]
fn amounts_beyond_64_bits_are_refused() {
    let day1 = Date::from_ymd(2012, 1, 1);
    let day2 = Date::from_ymd(2012, 1, 2);
    let p = prices_of(vec![(day1, 1), (day2, u64::MAX)]);
    let trades = trades_of(vec![(day1, Position::Long(1_000_000)), (day2, Position::Hold)]);
    let bt = BackTester::new(trades, &p, 0).unwrap();
    match bt.backtest() {
        Err(e) => assert_eq!(e, BackTesterError::AmountOverflow(day2)),
        Ok(_) => panic!("an overflowing backtest succeeded"),
    }
}
