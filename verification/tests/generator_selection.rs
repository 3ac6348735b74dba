use papertrade::generator::{
    admit_backtest, downsample_curve, filter_candidates, parse_strategy_type, plan_strategy_rows,
    select_top, strategy_family_name, BacktestSummary, Candidate, GenerateStrategiesRequest,
    StrategyType,
};

const UNIT: i64 = 1_000_000;

fn summary(sharpe: i64, total_return_pct: i64, total_trades: u32) -> BacktestSummary {
    BacktestSummary {
        sharpe,
        total_return_pct,
        max_drawdown_pct: 12 * UNIT,
        win_rate: UNIT / 2,
        profit_factor: 2 * UNIT,
        kelly_fraction: UNIT / 4,
        total_trades,
        equity_curve: vec![1000 * UNIT, 1010 * UNIT, 1020 * UNIT],
    }
}

fn candidate(name: &str, sharpe: i64, total_return_pct: i64, trades: u32) -> Candidate {
    Candidate {
        symbol: String::from("BTCUSDT"),
        interval: String::from("1m"),
        strategy_name: String::from(name),
        strategy_type: StrategyType::DynamicTrend,
        parameters: String::from("{}"),
        metrics: summary(sharpe, total_return_pct, trades),
    }
}

#[test]
fn admission_needs_trades_and_positive_return() {
    assert!(admit_backtest(&summary(UNIT, UNIT, 11)));
    assert!(!admit_backtest(&summary(UNIT, UNIT, 10)));
    assert!(!admit_backtest(&summary(UNIT, 0, 11)));
    assert!(!admit_backtest(&summary(UNIT, -UNIT, 11)));
}

#[test]
fn insert_count_is_min_of_top_n_and_admitted() {
    let all = vec![
        candidate("a", 3 * UNIT, UNIT, 20),
        candidate("b", 2 * UNIT, UNIT, 5),   // too few trades
        candidate("c", 1 * UNIT, -UNIT, 20), // losing
        candidate("d", 4 * UNIT, UNIT, 30),
        candidate("e", 5 * UNIT, UNIT, 30),
    ];
    let rows = plan_strategy_rows(all, 10);
    assert_eq!(rows.len(), 3);

    let all2 = vec![
        candidate("a", 3 * UNIT, UNIT, 20),
        candidate("d", 4 * UNIT, UNIT, 30),
        candidate("e", 5 * UNIT, UNIT, 30),
    ];
    let rows2 = plan_strategy_rows(all2, 2);
    assert_eq!(rows2.len(), 2);
}

#[test]
fn kept_rows_are_ranked_best_sharpe_first() {
    let all = vec![
        candidate("a", 3 * UNIT, UNIT, 20),
        candidate("b", 5 * UNIT, UNIT, 20),
        candidate("c", 1 * UNIT, UNIT, 20),
        candidate("d", 4 * UNIT, UNIT, 20),
    ];
    let rows = plan_strategy_rows(all, 3);
    let sharpes: Vec<i64> = rows.iter().map(|r| r.sharpe).collect();
    assert_eq!(sharpes, vec![5 * UNIT, 4 * UNIT, 3 * UNIT]);
}

#[test]
fn selection_keeps_whole_set_when_top_n_exceeds_it() {
    let all = vec![candidate("a", 3 * UNIT, UNIT, 20), candidate("b", -UNIT, UNIT, 20)];
    let kept = select_top(all, 10);
    assert_eq!(kept.len(), 2);
    assert_eq!(kept[0].metrics.sharpe, 3 * UNIT);
    assert_eq!(kept[1].metrics.sharpe, -UNIT);
}

#[test]
fn filtering_keeps_admitted_candidates_in_order() {
    let all = vec![
        candidate("a", UNIT, UNIT, 20),
        candidate("b", UNIT, UNIT, 3),
        candidate("c", UNIT, UNIT, 40),
    ];
    let kept = filter_candidates(all);
    assert_eq!(kept.len(), 2);
    assert_eq!(kept[0].strategy_name, String::from("a"));
    assert_eq!(kept[1].strategy_name, String::from("c"));
}

#[test]
fn row_names_join_market_interval_and_strategy() {
    let all = vec![candidate("Dynamic Trend", 3 * UNIT, UNIT, 20)];
    let rows = plan_strategy_rows(all, 1);
    assert_eq!(rows[0].name, String::from("BTCUSDT 1m Dynamic Trend"));
    assert_eq!(rows[0].symbol, String::from("BTCUSDT"));
    assert_eq!(rows[0].interval, String::from("1m"));
    assert!(matches!(rows[0].strategy_type, StrategyType::DynamicTrend));
    assert_eq!(rows[0].total_trades, 20);
    assert_eq!(rows[0].kelly_fraction, UNIT / 4);
}

#[test]
fn short_curves_are_kept_whole() {
    let curve: Vec<i64> = (0..20).map(|i| (1000 + i) * UNIT).collect();
    let out = downsample_curve(&curve);
    assert_eq!(out, curve);
}

#[test]
fn long_curves_sample_every_stride_and_keep_the_last() {
    // 250 points: stride 5, so indices 0, 5, 10, ..., 245, then the final
    // value 1249 appended since index 249 was not sampled.
    let curve: Vec<i64> = (0..250).map(|i| (1000 + i) * UNIT).collect();
    let out = downsample_curve(&curve);
    assert_eq!(out.len(), 51);
    assert_eq!(out[0], 1000 * UNIT);
    assert_eq!(out[1], 1005 * UNIT);
    assert_eq!(out[49], 1245 * UNIT);
    assert_eq!(out[50], 1249 * UNIT);
}

#[test]
fn exactly_sampled_curves_do_not_repeat_the_last() {
    // 11 points with stride 1: the final value is already sampled.
    let curve: Vec<i64> = (0..11).map(|i| i * UNIT).collect();
    let out = downsample_curve(&curve);
    assert_eq!(out.len(), 11);
    assert_eq!(*out.last().unwrap(), 10 * UNIT);
}

#[test]
fn empty_curve_downsamples_to_nothing() {
    let out = downsample_curve(&Vec::new());
    assert!(out.is_empty());
}

#[test]
fn family_names_round_trip_through_parsing() {
    let families = [
        StrategyType::DynamicTrend,
        StrategyType::RsiMeanReversion,
        StrategyType::BollingerReversion,
        StrategyType::AtrBreakout,
        StrategyType::VolatilitySqueeze,
        StrategyType::MacdTrend,
        StrategyType::ObvTrend,
        StrategyType::PriceMomentum,
        StrategyType::AdaptiveMaCrossover,
    ];
    for family in families {
        let name = strategy_family_name(family);
        assert_eq!(parse_strategy_type(name), Some(family));
    }
    assert_eq!(parse_strategy_type("GridBot"), None);
    assert_eq!(parse_strategy_type(""), None);
}

#[test]
fn generation_request_defaults() {
    let req = GenerateStrategiesRequest {
        symbols: vec![String::from("BTCUSDT")],
        intervals: vec![String::from("1m")],
        top_n: None,
        limit: None,
        iterations: None,
    };
    assert_eq!(req.resolved_top_n(), 10);
    assert_eq!(req.resolved_limit(), 1000);
    assert_eq!(req.resolved_iterations(), 50);

    let req2 = GenerateStrategiesRequest {
        symbols: Vec::new(),
        intervals: Vec::new(),
        top_n: Some(3),
        limit: Some(500),
        iterations: Some(9),
    };
    assert_eq!(req2.resolved_top_n(), 3);
    assert_eq!(req2.resolved_limit(), 500);
    assert_eq!(req2.resolved_iterations(), 9);
}
