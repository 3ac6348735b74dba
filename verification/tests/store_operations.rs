use papertrade::engine::{execute_paper_trade, EvalInput};
use papertrade::engine::process_kline;
use papertrade::generator::StrategyType;
use papertrade::market::{subscriptions_changed, MarketStream};
use papertrade::model::{AppError, ExecutionMode, SessionStatus, Side, Signal};
use papertrade::store::Store;

const UNIT: i64 = 1_000_000;
const T0: i64 = 1_700_000_040_000;

fn store_with_strategy(symbol: &str) -> (Store, u128) {
    let mut store = Store::new();
    let id = store.create_strategy(
        String::from("BTCUSDT 1m Dynamic Trend"),
        StrategyType::DynamicTrend,
        String::from(symbol),
        String::from("1m"),
        String::from("{}"),
        None,
        None,
        None,
        T0,
    );
    (store, id)
}

#[test]
fn starting_a_session_seeds_its_equity_series() {
    let (mut store, strategy_id) = store_with_strategy("BTCUSDT");
    let r = store.start_session(strategy_id, 1000 * UNIT, ExecutionMode::Sync, T0);
    let session_id = r.ok().expect("strategy exists");

    assert_eq!(store.sessions.len(), 1);
    let s = &store.sessions[0];
    assert_eq!(s.id, session_id);
    assert_eq!(s.strategy_id, strategy_id);
    assert_eq!(s.symbol, String::from("BTCUSDT"));
    assert_eq!(s.initial_capital, 1000 * UNIT);
    assert_eq!(s.current_equity, 1000 * UNIT);
    assert_eq!(s.entry_price, None);
    assert_eq!(s.entry_equity, None);
    assert!(matches!(s.current_position, Signal::Flat));
    assert!(matches!(s.status, SessionStatus::Active));

    assert_eq!(store.snapshots.len(), 1);
    assert_eq!(store.snapshots[0].session_id, session_id);
    assert_eq!(store.snapshots[0].equity, 1000 * UNIT);
    assert_eq!(store.snapshots[0].timestamp, T0);
}

#[test]
fn starting_a_session_of_a_missing_strategy_fails() {
    let mut store = Store::new();
    let r = store.start_session(42, 1000 * UNIT, ExecutionMode::Sync, T0);
    match r {
        Err(AppError::Database(_)) => {},
        _ => panic!("expected a database error for the missing strategy row"),
    }
    assert!(store.sessions.is_empty());
    assert!(store.snapshots.is_empty());
}

#[test]
fn deleting_a_strategy_cascades_to_exactly_its_rows() {
    let (mut store, strat_a) = store_with_strategy("BTCUSDT");
    let strat_b = store.create_strategy(
        String::from("ETHUSDT 1m Macd Trend"),
        StrategyType::MacdTrend,
        String::from("ETHUSDT"),
        String::from("1m"),
        String::from("{}"),
        None,
        None,
        None,
        T0,
    );
    let sess_a = store.start_session(strat_a, 1000 * UNIT, ExecutionMode::Sync, T0).ok().unwrap();
    let sess_b = store.start_session(strat_b, 500 * UNIT, ExecutionMode::Sync, T0).ok().unwrap();

    // Trade once on each session so both have trades and snapshots.
    for (sid, price) in [(sess_a, 100 * UNIT), (sess_b, 200 * UNIT)] {
        let idx = store.sessions.iter().position(|s| s.id == sid).unwrap();
        let session = store.sessions[idx].clone();
        let reason = String::from("enter");
        let step = execute_paper_trade(&session, Signal::Long, price, &reason, T0 + 60_000, Some(T0));
        let snaps: Vec<_> = step.snapshot.into_iter().collect();
        store.apply_session_update(step.session, step.trades, snaps);
    }
    assert_eq!(store.trades.len(), 2);
    assert_eq!(store.snapshots.len(), 4);

    let r = store.delete_strategy(strat_a);
    assert!(r.is_ok());

    assert_eq!(store.strategies.len(), 1);
    assert_eq!(store.strategies[0].id, strat_b);
    assert_eq!(store.sessions.len(), 1);
    assert_eq!(store.sessions[0].id, sess_b);
    assert_eq!(store.trades.len(), 1);
    assert_eq!(store.trades[0].session_id, sess_b);
    assert_eq!(store.snapshots.len(), 2);
    assert!(store.snapshots.iter().all(|s| s.session_id == sess_b));
}

#[test]
fn deleting_a_missing_strategy_reports_not_found() {
    let (mut store, _) = store_with_strategy("BTCUSDT");
    let r = store.delete_strategy(999);
    match r {
        Err(e) => {
            assert!(matches!(e, AppError::NotFound(_)));
            assert_eq!(e.status_code(), 404);
        },
        Ok(_) => panic!("deletion of a missing strategy must fail"),
    }
    assert_eq!(store.strategies.len(), 1);
}

#[test]
fn error_kinds_map_to_http_statuses() {
    assert_eq!(AppError::NotFound(String::from("x")).status_code(), 404);
    assert_eq!(AppError::Database(String::from("x")).status_code(), 500);
    assert_eq!(AppError::MarketApi(String::from("x")).status_code(), 500);
    assert_eq!(AppError::Strategy(String::from("x")).status_code(), 500);
    assert_eq!(AppError::Data(String::from("x")).status_code(), 500);
}

#[test]
fn reset_clears_sessions_trades_and_snapshots_only() {
    let (mut store, strat) = store_with_strategy("BTCUSDT");
    store.start_session(strat, 1000 * UNIT, ExecutionMode::Sync, T0).ok().unwrap();
    store.reset_sessions();
    assert!(store.sessions.is_empty());
    assert!(store.trades.is_empty());
    assert!(store.snapshots.is_empty());
    assert_eq!(store.strategies.len(), 1);
}

#[test]
fn delete_all_clears_strategies_too() {
    let (mut store, strat) = store_with_strategy("BTCUSDT");
    store.start_session(strat, 1000 * UNIT, ExecutionMode::Sync, T0).ok().unwrap();
    store.delete_all_strategies();
    assert!(store.strategies.is_empty());
    assert!(store.sessions.is_empty());
}

#[test]
fn session_lookup_uppercases_the_event_symbol() {
    let (mut store, strat) = store_with_strategy("BTCUSDT");
    store.start_session(strat, 1000 * UNIT, ExecutionMode::Sync, T0).ok().unwrap();
    let found = store.active_sessions_for_symbol("btcusdt");
    assert_eq!(found.len(), 1);
    assert_eq!(found[0].symbol, String::from("BTCUSDT"));
    let missed = store.active_sessions_for_symbol("ethusdt");
    assert!(missed.is_empty());
}

#[test]
fn active_symbols_are_deduplicated() {
    let (mut store, strat) = store_with_strategy("BTCUSDT");
    store.start_session(strat, 1000 * UNIT, ExecutionMode::Sync, T0).ok().unwrap();
    store.start_session(strat, 500 * UNIT, ExecutionMode::Edge, T0).ok().unwrap();
    let symbols = store.active_symbols();
    assert_eq!(symbols.len(), 1);
    assert_eq!(symbols[0], String::from("BTCUSDT"));
}

#[test]
fn subscription_change_detection_ignores_order() {
    let a = vec![String::from("BTCUSDT"), String::from("ETHUSDT")];
    let b = vec![String::from("ETHUSDT"), String::from("BTCUSDT")];
    let c = vec![String::from("BTCUSDT")];
    assert!(!subscriptions_changed(&a, &b));
    assert!(subscriptions_changed(&a, &c));
    assert!(subscriptions_changed(&c, &a));
}

#[test]
fn market_stream_stop_flag() {
    let mut stream = MarketStream::new();
    assert!(stream.is_running());
    stream.stop();
    assert!(!stream.is_running());
}

#[test]
fn rebuilding_the_cache_twice_yields_identical_rows() {
    let (mut store, strat) = store_with_strategy("BTCUSDT");
    let sid = store.start_session(strat, 1000 * UNIT, ExecutionMode::Sync, T0).ok().unwrap();
    let idx = store.sessions.iter().position(|s| s.id == sid).unwrap();
    let session = store.sessions[idx].clone();
    let out = process_kline(
        &session,
        100 * UNIT,
        true,
        Some(&EvalInput {
            latest: Signal::Long,
            previous: Signal::Flat,
            reason: String::from("enter"),
        }),
        T0 + 2 * 60_000,
        Some(T0),
    );
    store.apply_session_update(out.session, out.trades, out.snapshots);

    store.rebuild_portfolio_cache(T0 + 3 * 60_000);
    let first: Vec<(i64, i64)> = store
        .portfolio_cache
        .iter()
        .map(|p| (p.timestamp, p.total_equity))
        .collect();
    assert!(!first.is_empty());
    store.rebuild_portfolio_cache(T0 + 3 * 60_000);
    let second: Vec<(i64, i64)> = store
        .portfolio_cache
        .iter()
        .map(|p| (p.timestamp, p.total_equity))
        .collect();
    assert_eq!(first, second);
}

#[test]
fn one_transition_appends_exactly_one_snapshot_with_the_session_update() {
    let (mut store, strat) = store_with_strategy("BTCUSDT");
    let sid = store.start_session(strat, 1000 * UNIT, ExecutionMode::Sync, T0).ok().unwrap();
    let before_trades = store.trades.len();
    let before_snaps = store.snapshots.len();

    let session = store.sessions[0].clone();
    let reason = String::from("enter long");
    let step = execute_paper_trade(&session, Signal::Long, 100 * UNIT, &reason, T0 + 60_000, Some(T0));
    assert!(step.snapshot.is_some());
    let snaps: Vec<_> = step.snapshot.into_iter().collect();
    store.apply_session_update(step.session, step.trades, snaps);

    assert_eq!(store.trades.len(), before_trades + 1);
    assert_eq!(store.snapshots.len(), before_snaps + 1);
    assert_eq!(store.sessions[0].id, sid);
    assert!(matches!(store.sessions[0].current_position, Signal::Long));

    let audit = store.trades_for_session(sid);
    assert_eq!(audit.len(), 1);
    assert!(matches!(audit[0].side, Side::Buy));
    let curve = store.equity_curve(sid);
    assert_eq!(curve.len(), 2);
    assert_eq!(curve[0].equity, 1000 * UNIT);
    assert_eq!(curve[1].equity, 1000 * UNIT);
}

#[test]
fn bulk_start_counts_only_existing_strategies() {
    let (mut store, strat) = store_with_strategy("BTCUSDT");
    let ids = vec![strat, 555, strat];
    let count = store.bulk_start_sessions(&ids, 1000 * UNIT, ExecutionMode::Sync, T0);
    assert_eq!(count, 2);
    assert_eq!(store.sessions.len(), 2);
}
