use papertrade::engine::{execute_paper_trade, latest_eval, process_kline, resolve_target_signal, EvalInput};
use papertrade::model::{ExecutionMode, Session, SessionStatus, Side, Signal};

const UNIT: i64 = 1_000_000;

fn fresh_session(mode: ExecutionMode) -> Session {
    Session {
        id: 1,
        strategy_id: 7,
        symbol: String::from("BTCUSDT"),
        interval: String::from("1m"),
        initial_capital: 1000 * UNIT,
        current_equity: 1000 * UNIT,
        entry_equity: None,
        current_position: Signal::Flat,
        entry_price: None,
        status: SessionStatus::Active,
        execution_mode: mode,
        created_at: 1_700_000_000_000,
        last_update: 1_700_000_000_000,
    }
}

fn opened_long_at_100(now: i64) -> Session {
    let session = fresh_session(ExecutionMode::Sync);
    let reason = String::from("trend up");
    let step = execute_paper_trade(&session, Signal::Long, 100 * UNIT, &reason, now, None);
    step.session
}

#[test]
fn open_then_hold_emits_one_buy_at_entry() {
    let session = fresh_session(ExecutionMode::Sync);
    let now = 1_700_000_060_000;
    let eval = EvalInput {
        latest: Signal::Long,
        previous: Signal::Flat,
        reason: String::from("trend up"),
    };
    let out = process_kline(&session, 100 * UNIT, true, Some(&eval), now, None);

    assert_eq!(out.trades.len(), 1);
    assert!(matches!(out.trades[0].side, Side::Buy));
    assert_eq!(out.trades[0].price, 100 * UNIT);
    assert_eq!(out.trades[0].quantity, 0);
    assert_eq!(out.trades[0].pnl, Some(0));
    assert_eq!(out.trades[0].reason, String::from("trend up"));

    assert_eq!(out.snapshots.len(), 1);
    assert_eq!(out.snapshots[0].equity, 1000 * UNIT);
    assert_eq!(out.snapshots[0].timestamp, now);

    assert!(matches!(out.session.current_position, Signal::Long));
    assert_eq!(out.session.entry_price, Some(100 * UNIT));
    assert_eq!(out.session.entry_equity, Some(1000 * UNIT));
    assert_eq!(out.session.current_equity, 1000 * UNIT);
    assert_eq!(out.last_snapshot, Some(now));
}

#[test]
fn mtm_on_non_final_updates_equity_without_trades() {
    let t_open = 1_700_000_060_000;
    let session = opened_long_at_100(t_open);
    let now = t_open + 600;
    let out = process_kline(&session, 110 * UNIT, false, None, now, Some(t_open));

    assert!(out.trades.is_empty());
    assert_eq!(out.session.current_equity, 1100 * UNIT);
    // 600 ms since the open's snapshot: inside the cooldown, so none appended.
    assert!(out.snapshots.is_empty());
    assert_eq!(out.last_snapshot, Some(t_open));
}

#[test]
fn mtm_snapshot_appears_after_cooldown() {
    let t_open = 1_700_000_060_000;
    let session = opened_long_at_100(t_open);
    let now = t_open + 1_500;
    let out = process_kline(&session, 110 * UNIT, false, None, now, Some(t_open));

    assert!(out.trades.is_empty());
    assert_eq!(out.session.current_equity, 1100 * UNIT);
    assert_eq!(out.snapshots.len(), 1);
    assert_eq!(out.snapshots[0].equity, 1100 * UNIT);
    assert_eq!(out.last_snapshot, Some(now));
}

#[test]
fn mtm_rate_limit_holds_writes_inside_half_second() {
    let t_open = 1_700_000_060_000;
    let session = opened_long_at_100(t_open);
    // The price moved, but the row is only 300 ms old: nothing is written.
    let out = process_kline(&session, 110 * UNIT, false, None, t_open + 300, Some(t_open));
    assert!(out.trades.is_empty());
    assert!(out.snapshots.is_empty());
    assert_eq!(out.session.current_equity, 1000 * UNIT);
    assert_eq!(out.session.last_update, t_open);
}

#[test]
fn close_long_realizes_profit() {
    let t_open = 1_700_000_060_000;
    let session = opened_long_at_100(t_open);
    let now = t_open + 60_000;
    let reason = String::from("signal gone");
    let step = execute_paper_trade(&session, Signal::Flat, 110 * UNIT, &reason, now, Some(t_open));

    assert_eq!(step.trades.len(), 1);
    assert!(matches!(step.trades[0].side, Side::Sell));
    assert_eq!(step.trades[0].price, 110 * UNIT);
    assert_eq!(step.trades[0].pnl, Some(100 * UNIT));

    assert_eq!(step.session.current_equity, 1100 * UNIT);
    assert!(matches!(step.session.current_position, Signal::Flat));
    assert_eq!(step.session.entry_price, None);
    assert_eq!(step.session.entry_equity, None);

    let snap = step.snapshot.expect("a trade always snapshots");
    assert_eq!(snap.equity, 1100 * UNIT);
    assert_eq!(snap.timestamp, now);
}

#[test]
fn flip_long_to_short_closes_then_opens() {
    let t_open = 1_700_000_060_000;
    let session = opened_long_at_100(t_open);
    let now = t_open + 60_000;
    let reason = String::from("trend reversed");
    let step = execute_paper_trade(&session, Signal::Short, 90 * UNIT, &reason, now, Some(t_open));

    assert_eq!(step.trades.len(), 2);
    // Closing the long at 90 realizes the loss.
    assert!(matches!(step.trades[0].side, Side::Sell));
    assert_eq!(step.trades[0].price, 90 * UNIT);
    assert_eq!(step.trades[0].pnl, Some(-100 * UNIT));
    // Entering the short is its own leg with no realized profit.
    assert!(matches!(step.trades[1].side, Side::Sell));
    assert_eq!(step.trades[1].price, 90 * UNIT);
    assert_eq!(step.trades[1].pnl, Some(0));

    assert_eq!(step.session.current_equity, 900 * UNIT);
    assert!(matches!(step.session.current_position, Signal::Short));
    assert_eq!(step.session.entry_price, Some(90 * UNIT));
    assert_eq!(step.session.entry_equity, Some(900 * UNIT));

    assert_eq!(step.snapshot.expect("one snapshot per transition").equity, 900 * UNIT);
}

#[test]
fn short_position_gains_when_price_falls() {
    let session = fresh_session(ExecutionMode::Sync);
    let t_open = 1_700_000_060_000;
    let reason = String::from("trend down");
    let opened = execute_paper_trade(&session, Signal::Short, 100 * UNIT, &reason, t_open, None);
    let out = process_kline(&opened.session, 80 * UNIT, false, None, t_open + 2_000, Some(t_open));
    assert_eq!(out.session.current_equity, 1200 * UNIT);
}

#[test]
fn edge_mode_suppresses_stale_signal() {
    let session = fresh_session(ExecutionMode::Edge);
    let now = 1_700_000_060_000;
    let eval = EvalInput {
        latest: Signal::Long,
        previous: Signal::Long,
        reason: String::from("held-over signal"),
    };
    let out = process_kline(&session, 100 * UNIT, true, Some(&eval), now, None);

    assert!(out.trades.is_empty());
    assert!(out.snapshots.is_empty());
    assert!(matches!(out.session.current_position, Signal::Flat));
    assert_eq!(out.session.entry_price, None);
}

#[test]
fn edge_mode_acts_on_fresh_crossing() {
    let target = resolve_target_signal(
        ExecutionMode::Edge,
        Signal::Flat,
        Signal::Long,
        Signal::Flat,
    );
    assert!(matches!(target, Signal::Long));
}

#[test]
fn edge_mode_with_open_position_follows_latest() {
    let target = resolve_target_signal(
        ExecutionMode::Edge,
        Signal::Long,
        Signal::Long,
        Signal::Long,
    );
    assert!(matches!(target, Signal::Long));
}

#[test]
fn sync_mode_follows_latest_signal() {
    let target = resolve_target_signal(
        ExecutionMode::Sync,
        Signal::Flat,
        Signal::Long,
        Signal::Long,
    );
    assert!(matches!(target, Signal::Long));
}

#[test]
fn no_price_movement_is_silent_for_any_number_of_events() {
    let t_open = 1_700_000_060_000;
    let mut session = opened_long_at_100(t_open);
    let mut tracker = Some(t_open);
    for k in 0..50 {
        let now = t_open + 700 * (k + 1);
        let out = process_kline(&session, 100 * UNIT, false, None, now, tracker);
        assert!(out.trades.is_empty());
        assert!(out.snapshots.is_empty());
        assert_eq!(out.session.current_equity, 1000 * UNIT);
        assert_eq!(out.session.last_update, t_open);
        session = out.session;
        tracker = out.last_snapshot;
    }
}

#[test]
fn flat_session_never_writes_on_mtm() {
    let session = fresh_session(ExecutionMode::Sync);
    let out = process_kline(&session, 123 * UNIT, false, None, 1_700_000_100_000, None);
    assert!(out.trades.is_empty());
    assert!(out.snapshots.is_empty());
    assert_eq!(out.session.current_equity, 1000 * UNIT);
}

#[test]
fn latest_eval_reads_the_tail_of_the_series() {
    let series = vec![Signal::Flat, Signal::Flat, Signal::Long];
    let eval = latest_eval(&series, Some(String::from("breakout"))).unwrap();
    assert!(matches!(eval.latest, Signal::Long));
    assert!(matches!(eval.previous, Signal::Flat));
    assert_eq!(eval.reason, String::from("breakout"));

    let single = vec![Signal::Short];
    let eval = latest_eval(&single, None).unwrap();
    assert!(matches!(eval.latest, Signal::Short));
    assert!(matches!(eval.previous, Signal::Flat));
    assert_eq!(eval.reason, String::from("No explanation"));

    assert!(latest_eval(&Vec::new(), None).is_none());
}
