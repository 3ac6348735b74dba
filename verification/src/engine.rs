use vstd::prelude::*;
use vstd::math::abs;

use crate::model::{
    EquitySnapshot, ExecutionMode, Session, Side, Signal, Trade, EQUITY_EPSILON, MONEY_MAX,
    MTM_MIN_INTERVAL_MS, SNAPSHOT_COOLDOWN_MS,
};
use crate::model::{money_ok, price_ok, time_ok};

verus! {

// ---------------------------------------------------------------------------
// Mark-to-market arithmetic
// ---------------------------------------------------------------------------

/// Truncating division for a positive divisor: the quotient is rounded
/// towards zero, matching machine division on signed integers.
pub open spec fn div_trunc(n: int, d: int) -> int
    recommends
        d > 0,
{
    if n >= 0 {
        n / d
    } else {
        -((-n) / d)
    }
}

/// Equity of a position marked to `price`: the entry basis scaled by the
/// signed relative move since entry,
/// `basis * (1 + dir * (price - entry) / entry)`,
/// carried out exactly over micro-units.
pub open spec fn mtm_equity_spec(basis: int, entry: int, price: int, dir: int) -> int
    recommends
        entry > 0,
{
    div_trunc(basis * (entry + dir * (price - entry)), entry)
}

/// Mark-to-market equity of a session with an open position.
pub open spec fn session_mtm(s: Session, price: int) -> int
    recommends
        s.wf(),
        s.current_position.sign() != 0,
{
    mtm_equity_spec(
        s.entry_equity->Some_0 as int,
        s.entry_price->Some_0 as int,
        price,
        s.current_position.sign(),
    )
}

/// Computes `mtm_equity_spec` exactly, using wide intermediates so that no
/// step overflows.
pub fn compute_mtm(basis: i64, entry: i64, price: i64, dir: Signal) -> (r: i64)
    requires
        money_ok(basis as int),
        price_ok(entry as int),
        0 <= price <= MONEY_MAX,
        dir.sign() != 0,
        money_ok(mtm_equity_spec(basis as int, entry as int, price as int, dir.sign())),
    ensures
        r as int == mtm_equity_spec(basis as int, entry as int, price as int, dir.sign()),
{
    let adj: i128 = if matches!(dir, Signal::Long) {
        price as i128
    } else {
        2 * (entry as i128) - (price as i128)
    };
    assert(adj == entry + dir.sign() * (price - entry));
    assert(-2 * (MONEY_MAX as int) <= adj <= 2 * (MONEY_MAX as int));
    assert(-2 * (MONEY_MAX as int) * (MONEY_MAX as int) <= (basis as int) * (adj as int) <= 2 * (
    MONEY_MAX as int) * (MONEY_MAX as int)) by (nonlinear_arith)
        requires
            -MONEY_MAX <= basis <= MONEY_MAX,
            -2 * (MONEY_MAX as int) <= adj <= 2 * (MONEY_MAX as int),
    ;
    let gross: i128 = (basis as i128) * adj;
    let e: u128 = entry as u128;
    if gross >= 0 {
        let q: u128 = (gross as u128) / e;
        assert(q == div_trunc(gross as int, entry as int));
        q as i64
    } else {
        let m: u128 = (-gross) as u128;
        let q: u128 = m / e;
        assert(-(q as int) == div_trunc(gross as int, entry as int));
        -(q as i64)
    }
}

// ---------------------------------------------------------------------------
// Persistence gates
// ---------------------------------------------------------------------------

/// The recomputed equity differs from the stored one by more than the noise
/// tolerance.
pub open spec fn equity_moved(s: Session, price: int) -> bool
    recommends
        s.wf(),
        s.current_position.sign() != 0,
{
    abs(session_mtm(s, price) - s.current_equity) > EQUITY_EPSILON
}

/// A mark-to-market pass rewrites the session row exactly when the event
/// forces it, or the equity moved and the row is old enough.
pub open spec fn mtm_should_persist(s: Session, price: int, now: int, force: bool) -> bool
    recommends
        s.wf(),
        s.current_position.sign() != 0,
{
    force || (equity_moved(s, price) && now - s.last_update >= MTM_MIN_INTERVAL_MS)
}

/// A snapshot is due when the write is forced, no snapshot was ever recorded
/// for the session, or the last one is at least the cooldown old.
pub open spec fn snapshot_due(last_snapshot: Option<i64>, now: int, force: bool) -> bool {
    force || match last_snapshot {
        Option::Some(ts) => now - ts >= SNAPSHOT_COOLDOWN_MS,
        Option::None => true,
    }
}

/// The session row after a persisted mark-to-market pass: only the equity and
/// the update time change.
pub open spec fn with_equity(s: Session, equity: i64, now: i64) -> Session {
    Session { current_equity: equity, last_update: now, ..s }
}

// ---------------------------------------------------------------------------
// Mark-to-market step
// ---------------------------------------------------------------------------

/// Effects of one mark-to-market pass over one session: the (possibly
/// rewritten) session row, whether the row was written, and the snapshot
/// appended in the same transaction, if any.
pub struct MtmStep {
    pub session: Session,
    pub persisted: bool,
    pub snapshot: Option<EquitySnapshot>,
}

/// The complete meaning of a mark-to-market pass.
pub open spec fn mtm_step_spec(
    s: Session,
    price: i64,
    now: i64,
    last_snapshot: Option<i64>,
    force: bool,
) -> MtmStep
    recommends
        s.wf(),
{
    if s.current_position.sign() == 0 {
        MtmStep { session: s, persisted: false, snapshot: Option::None }
    } else if !mtm_should_persist(s, price as int, now as int, force) {
        MtmStep { session: s, persisted: false, snapshot: Option::None }
    } else {
        let updated = with_equity(s, session_mtm(s, price as int) as i64, now);
        MtmStep {
            session: updated,
            persisted: true,
            snapshot: if snapshot_due(last_snapshot, now as int, force) {
                Option::Some(
                    EquitySnapshot {
                        session_id: s.id,
                        equity: updated.current_equity,
                        timestamp: now,
                    },
                )
            } else {
                Option::None
            },
        }
    }
}

/// One mark-to-market pass: recompute the open position's equity at `price`
/// and persist it, rate limited, together with a cooldown-limited snapshot.
/// Sessions with no open position are left untouched.
pub fn update_equity_mtm(
    session: &Session,
    price: i64,
    now: i64,
    last_snapshot: Option<i64>,
    force: bool,
) -> (step: MtmStep)
    requires
        session.wf(),
        0 <= price <= MONEY_MAX,
        time_ok(now as int),
        last_snapshot is Some ==> time_ok(last_snapshot->Some_0 as int),
        session.current_position.sign() != 0 ==> money_ok(session_mtm(*session, price as int)),
    ensures
        step == mtm_step_spec(*session, price, now, last_snapshot, force),
        step.session.wf(),
{
    if session.current_position.is_flat() || session.entry_price.is_none() {
        return MtmStep { session: session.clone(), persisted: false, snapshot: Option::None };
    }
    let entry_price = *session.entry_price.as_ref().unwrap();
    let basis = *session.entry_equity.as_ref().unwrap();
    let mtm = compute_mtm(basis, entry_price, price, session.current_position);

    let moved = if mtm >= session.current_equity {
        mtm - session.current_equity
    } else {
        session.current_equity - mtm
    };
    let should_persist = force || (moved > EQUITY_EPSILON && now - session.last_update
        >= MTM_MIN_INTERVAL_MS);
    if !should_persist {
        return MtmStep { session: session.clone(), persisted: false, snapshot: Option::None };
    }

    let mut updated = session.clone();
    updated.current_equity = mtm;
    updated.last_update = now;

    let allow_snapshot = force || match last_snapshot {
        Option::Some(ts) => now - ts >= SNAPSHOT_COOLDOWN_MS,
        Option::None => true,
    };
    let snapshot = if allow_snapshot {
        Option::Some(EquitySnapshot { session_id: session.id, equity: mtm, timestamp: now })
    } else {
        Option::None
    };
    MtmStep { session: updated, persisted: true, snapshot }
}

} // verus!

verus! {

// ---------------------------------------------------------------------------
// Execution-mode filter
// ---------------------------------------------------------------------------

/// The signal the engine acts on. In edge mode a flat session ignores a
/// signal that did not change on this bar: it requires a fresh crossing
/// instead of entering on a pre-existing signal.
pub open spec fn resolve_target_spec(
    mode: ExecutionMode,
    position: Signal,
    latest: Signal,
    previous: Signal,
) -> Signal {
    if mode is Edge && position.sign() == 0 && latest == previous {
        Signal::Flat
    } else {
        latest
    }
}

pub fn resolve_target_signal(
    mode: ExecutionMode,
    position: Signal,
    latest: Signal,
    previous: Signal,
) -> (target: Signal)
    ensures
        target == resolve_target_spec(mode, position, latest, previous),
{
    if matches!(mode, ExecutionMode::Edge) && position.is_flat() && latest == previous {
        Signal::Flat
    } else {
        latest
    }
}

// ---------------------------------------------------------------------------
// Paper-trade execution
// ---------------------------------------------------------------------------

/// Equity once the open position, if any, is settled at `price`.
pub open spec fn settled_equity(s: Session, price: int) -> int
    recommends
        s.wf(),
{
    if s.current_position.sign() != 0 {
        session_mtm(s, price)
    } else {
        s.current_equity as int
    }
}

/// The session row after a position transition: equity settled, position
/// retargeted, and the entry fields set exactly when the new position is
/// open.
pub open spec fn transition_session(s: Session, target: Signal, price: i64, now: i64) -> Session
    recommends
        s.wf(),
{
    Session {
        current_equity: settled_equity(s, price as int) as i64,
        current_position: target,
        entry_price: if target.sign() != 0 {
            Option::Some(price)
        } else {
            Option::None
        },
        entry_equity: if target.sign() != 0 {
            Option::Some(settled_equity(s, price as int) as i64)
        } else {
            Option::None
        },
        last_update: now,
        ..s
    }
}

/// The closing leg of a transition: sells a long or buys back a short, with
/// the realized profit against the entry basis.
pub open spec fn closing_trade(s: Session, price: i64, reason: String, now: i64) -> Trade
    recommends
        s.wf(),
        s.current_position.sign() != 0,
{
    Trade {
        session_id: s.id,
        symbol: s.symbol,
        side: if s.current_position.sign() > 0 {
            Side::Sell
        } else {
            Side::Buy
        },
        price,
        quantity: 0,
        pnl: Option::Some(
            (session_mtm(s, price as int) - s.entry_equity->Some_0 as int) as i64,
        ),
        reason,
        timestamp: now,
    }
}

/// The opening leg of a transition: buys into a long or sells into a short,
/// with no realized profit.
pub open spec fn opening_trade(s: Session, target: Signal, price: i64, reason: String, now: i64) -> Trade {
    Trade {
        session_id: s.id,
        symbol: s.symbol,
        side: if target.sign() > 0 {
            Side::Buy
        } else {
            Side::Sell
        },
        price,
        quantity: 0,
        pnl: Option::Some(0),
        reason,
        timestamp: now,
    }
}

/// The audit records of a transition: a closing leg exactly when a position
/// was open, then an opening leg exactly when the new position is open.
pub open spec fn transition_trades(
    s: Session,
    target: Signal,
    price: i64,
    reason: String,
    now: i64,
) -> Seq<Trade>
    recommends
        s.wf(),
{
    let close = if s.current_position.sign() != 0 {
        seq![closing_trade(s, price, reason, now)]
    } else {
        Seq::<Trade>::empty()
    };
    let open = if target.sign() != 0 {
        seq![opening_trade(s, target, price, reason, now)]
    } else {
        Seq::<Trade>::empty()
    };
    close + open
}

/// Effects of handing one target signal to one session: the session row as it
/// stands afterwards, the appended trades, the snapshot appended in the same
/// transaction, and whether the row was written at all.
pub struct TradeStep {
    pub session: Session,
    pub trades: Vec<Trade>,
    pub snapshot: Option<EquitySnapshot>,
    pub persisted: bool,
}

/// Executes a paper trade against one session.
///
/// When the target equals the current position nothing trades: the call
/// degenerates to an unforced mark-to-market pass. Otherwise, in one
/// transaction: the open position (if any) is settled by a closing trade, the
/// new position (if any) is entered by an opening trade, the session row is
/// rewritten, and exactly one snapshot of the settled equity is appended.
pub fn execute_paper_trade(
    session: &Session,
    target: Signal,
    price: i64,
    reason: &String,
    now: i64,
    last_snapshot: Option<i64>,
) -> (step: TradeStep)
    requires
        session.wf(),
        0 <= price <= MONEY_MAX,
        time_ok(now as int),
        last_snapshot is Some ==> time_ok(last_snapshot->Some_0 as int),
        session.current_position.sign() != 0 ==> money_ok(session_mtm(*session, price as int)),
        target.sign() != 0 ==> price_ok(price as int),
    ensures
        step.session.wf(),
        target == session.current_position ==> {
            let m = mtm_step_spec(*session, price, now, last_snapshot, false);
            &&& step.session == m.session
            &&& step.persisted == m.persisted
            &&& step.snapshot == m.snapshot
            &&& step.trades@ == Seq::<Trade>::empty()
        },
        target != session.current_position ==> {
            &&& step.session == transition_session(*session, target, price, now)
            &&& step.trades@ == transition_trades(*session, target, price, *reason, now)
            &&& step.snapshot == Option::Some(
                EquitySnapshot {
                    session_id: session.id,
                    equity: step.session.current_equity,
                    timestamp: now,
                },
            )
            &&& step.persisted
        },
{
    if target == session.current_position {
        let m = update_equity_mtm(session, price, now, last_snapshot, false);
        return TradeStep {
            session: m.session,
            trades: Vec::new(),
            snapshot: m.snapshot,
            persisted: m.persisted,
        };
    }

    let mut trades: Vec<Trade> = Vec::new();
    let mut new_equity = session.current_equity;

    if !session.current_position.is_flat() {
        let entry_price = *session.entry_price.as_ref().unwrap();
        let basis = *session.entry_equity.as_ref().unwrap();
        let settled = compute_mtm(basis, entry_price, price, session.current_position);
        let pnl = settled - basis;
        new_equity = settled;
        let side = if matches!(session.current_position, Signal::Long) {
            Side::Sell
        } else {
            Side::Buy
        };
        trades.push(
            Trade {
                session_id: session.id,
                symbol: session.symbol.clone(),
                side,
                price,
                quantity: 0,
                pnl: Option::Some(pnl),
                reason: reason.clone(),
                timestamp: now,
            },
        );
    }

    if !target.is_flat() {
        let side = if matches!(target, Signal::Long) {
            Side::Buy
        } else {
            Side::Sell
        };
        trades.push(
            Trade {
                session_id: session.id,
                symbol: session.symbol.clone(),
                side,
                price,
                quantity: 0,
                pnl: Option::Some(0),
                reason: reason.clone(),
                timestamp: now,
            },
        );
    }

    let mut updated = session.clone();
    updated.current_equity = new_equity;
    updated.current_position = target;
    updated.entry_price = if target.is_flat() {
        Option::None
    } else {
        Option::Some(price)
    };
    updated.entry_equity = if target.is_flat() {
        Option::None
    } else {
        Option::Some(new_equity)
    };
    updated.last_update = now;

    let snapshot = EquitySnapshot { session_id: session.id, equity: new_equity, timestamp: now };
    assert(trades@ =~= transition_trades(*session, target, price, *reason, now));
    TradeStep { session: updated, trades, snapshot: Option::Some(snapshot), persisted: true }
}

} // verus!

verus! {

// ---------------------------------------------------------------------------
// Per-event pipeline
// ---------------------------------------------------------------------------

/// The strategy's answer on a final bar: the latest signal, the one before
/// it, and the strategy's explanation of the latest one.
pub struct EvalInput {
    pub latest: Signal,
    pub previous: Signal,
    pub reason: String,
}

/// Everything one kline event does to one session.
pub struct KlineOutcome {
    pub session: Session,
    pub trades: Vec<Trade>,
    pub snapshots: Vec<EquitySnapshot>,
    /// Timestamp of the session's most recent snapshot after this event.
    pub last_snapshot: Option<i64>,
}

pub open spec fn opt_seq<T>(o: Option<T>) -> Seq<T> {
    match o {
        Option::Some(v) => seq![v],
        Option::None => Seq::<T>::empty(),
    }
}

/// The complete meaning of one kline event for one session: a mark-to-market
/// pass, forced on a final bar, then, on a final bar with a strategy answer,
/// a paper trade against the filtered target signal.
pub open spec fn kline_step_spec(
    s: Session,
    price: i64,
    is_final: bool,
    eval: Option<EvalInput>,
    now: i64,
    tracker: Option<i64>,
) -> (Session, Seq<Trade>, Seq<EquitySnapshot>, Option<i64>)
    recommends
        s.wf(),
{
    let m = mtm_step_spec(s, price, now, tracker, is_final);
    let t1 = if m.snapshot is Some {
        Option::Some(now)
    } else {
        tracker
    };
    if is_final && eval is Some {
        let e = eval->Some_0;
        let target = resolve_target_spec(s.execution_mode, s.current_position, e.latest, e.previous);
        if target == s.current_position {
            let m2 = mtm_step_spec(m.session, price, now, t1, false);
            let t2 = if m2.snapshot is Some {
                Option::Some(now)
            } else {
                t1
            };
            (m2.session, Seq::<Trade>::empty(), opt_seq(m.snapshot) + opt_seq(m2.snapshot), t2)
        } else {
            (
                transition_session(m.session, target, price, now),
                transition_trades(m.session, target, price, e.reason, now),
                opt_seq(m.snapshot).push(
                    EquitySnapshot {
                        session_id: s.id,
                        equity: transition_session(m.session, target, price, now).current_equity,
                        timestamp: now,
                    },
                ),
                Option::Some(now),
            )
        }
    } else {
        (m.session, Seq::<Trade>::empty(), opt_seq(m.snapshot), t1)
    }
}

/// Drives one session through one kline event: always a mark-to-market pass
/// (forced when the bar is final), then strategy execution when the bar is
/// final and a strategy answer is at hand.
pub fn process_kline(
    session: &Session,
    price: i64,
    is_final: bool,
    eval: Option<&EvalInput>,
    now: i64,
    last_snapshot: Option<i64>,
) -> (out: KlineOutcome)
    requires
        session.wf(),
        0 <= price <= MONEY_MAX,
        time_ok(now as int),
        last_snapshot is Some ==> time_ok(last_snapshot->Some_0 as int),
        session.current_position.sign() != 0 ==> money_ok(session_mtm(*session, price as int)),
        is_final && eval is Some ==> price_ok(price as int),
    ensures
        out.session.wf(),
        ({
            let spec_eval = match eval {
                Option::Some(e) => Option::Some(*e),
                Option::None => Option::<EvalInput>::None,
            };
            (out.session, out.trades@, out.snapshots@, out.last_snapshot) == kline_step_spec(
                *session,
                price,
                is_final,
                spec_eval,
                now,
                last_snapshot,
            )
        }),
{
    let m = update_equity_mtm(session, price, now, last_snapshot, is_final);
    let tracker1 = if m.snapshot.is_some() {
        Option::Some(now)
    } else {
        last_snapshot
    };
    let mut snapshots: Vec<EquitySnapshot> = Vec::new();
    if let Option::Some(snap) = m.snapshot {
        snapshots.push(snap);
    }
    assert(snapshots@ =~= opt_seq(mtm_step_spec(*session, price, now, last_snapshot, is_final).snapshot));

    if is_final && eval.is_some() {
        let e = eval.unwrap();
        let target = resolve_target_signal(
            session.execution_mode,
            session.current_position,
            e.latest,
            e.previous,
        );
        assert(m.session.current_position == session.current_position);
        assert(m.session.entry_price == session.entry_price);
        assert(m.session.entry_equity == session.entry_equity);
        let step = execute_paper_trade(&m.session, target, price, &e.reason, now, tracker1);
        let mut snaps = snapshots;
        let mut tracker2 = tracker1;
        if let Option::Some(snap) = step.snapshot {
            snaps.push(snap);
            tracker2 = Option::Some(now);
        }
        let result = KlineOutcome {
            session: step.session,
            trades: step.trades,
            snapshots: snaps,
            last_snapshot: tracker2,
        };
        proof {
            let spec_eval = Option::Some(*eval->Some_0);
            let ghost_spec = kline_step_spec(*session, price, is_final, spec_eval, now, last_snapshot);
            if target == session.current_position {
                assert(result.snapshots@ =~= ghost_spec.2);
                assert(result.trades@ =~= ghost_spec.1);
            } else {
                assert(result.snapshots@ =~= ghost_spec.2);
            }
        }
        result
    } else {
        KlineOutcome {
            session: m.session,
            trades: Vec::new(),
            snapshots,
            last_snapshot: tracker1,
        }
    }
}

} // verus!

verus! {

// ---------------------------------------------------------------------------
// Laws of the engine
// ---------------------------------------------------------------------------

/// Marking a position to its own entry price returns exactly the entry basis.
pub proof fn lemma_mtm_at_entry(basis: int, entry: int, dir: int)
    requires
        entry > 0,
    ensures
        mtm_equity_spec(basis, entry, entry, dir) == basis,
{
    assert(entry + dir * (entry - entry) == entry) by (nonlinear_arith);
    if basis >= 0 {
        assert(basis * entry >= 0) by (nonlinear_arith)
            requires
                basis >= 0 && entry > 0,
        ;
        vstd::arithmetic::div_mod::lemma_div_multiples_vanish(basis, entry);
        assert(basis * entry == entry * basis) by (nonlinear_arith);
    } else {
        assert(basis * entry < 0) by (nonlinear_arith)
            requires
                basis < 0 && entry > 0,
        ;
        vstd::arithmetic::div_mod::lemma_div_multiples_vanish(-basis, entry);
        assert(-(basis * entry) == entry * (-basis)) by (nonlinear_arith);
    }
}

/// Between two unforced mark-to-market writes of the same session at least
/// the minimum interval elapses: the first write stamps the row with its own
/// time, and the second only fires when the row is at least that old.
pub proof fn lemma_mtm_rate_limit(
    s: Session,
    price1: i64,
    now1: i64,
    t1: Option<i64>,
    price2: i64,
    now2: i64,
    t2: Option<i64>,
)
    requires
        s.wf(),
        mtm_step_spec(s, price1, now1, t1, false).persisted,
        mtm_step_spec(
            mtm_step_spec(s, price1, now1, t1, false).session,
            price2,
            now2,
            t2,
            false,
        ).persisted,
    ensures
        now2 - now1 >= MTM_MIN_INTERVAL_MS,
{
}

/// Between two snapshots of the same session that both pass the unforced
/// cooldown gate at least the cooldown elapses: the first snapshot sets the
/// per-session tracker to its own timestamp, and the second is emitted only
/// when that tracker is at least the cooldown old.
pub proof fn lemma_snapshot_cooldown(
    s1: Session,
    price1: i64,
    now1: i64,
    t0: Option<i64>,
    s2: Session,
    price2: i64,
    now2: i64,
)
    requires
        s1.wf(),
        s2.wf(),
        mtm_step_spec(s1, price1, now1, t0, false).snapshot is Some,
        mtm_step_spec(s2, price2, now2, Option::Some(now1), false).snapshot is Some,
    ensures
        mtm_step_spec(s1, price1, now1, t0, false).snapshot->Some_0.timestamp == now1,
        mtm_step_spec(s2, price2, now2, Option::Some(now1), false).snapshot->Some_0.timestamp
            == now2,
        now2 - now1 >= SNAPSHOT_COOLDOWN_MS,
{
}

/// A session whose price has not moved since entry (or that is flat).
pub open spec fn no_price_movement(s: Session, price: i64) -> bool {
    s.current_position.sign() != 0 ==> (s.entry_price == Option::Some(price)
        && s.current_equity == s.entry_equity->Some_0)
}

/// A non-final kline at an unmoved price leaves a session entirely alone: no
/// trade, no snapshot, no row write, no tracker change.
pub proof fn lemma_quiet_kline(s: Session, price: i64, now: i64, tracker: Option<i64>)
    requires
        s.wf(),
        no_price_movement(s, price),
    ensures
        kline_step_spec(s, price, false, Option::None, now, tracker) == (
            s,
            Seq::<Trade>::empty(),
            Seq::<EquitySnapshot>::empty(),
            tracker,
        ),
{
    if s.current_position.sign() != 0 {
        lemma_mtm_at_entry(
            s.entry_equity->Some_0 as int,
            s.entry_price->Some_0 as int,
            s.current_position.sign(),
        );
        assert(session_mtm(s, price as int) == s.current_equity as int);
        assert(!equity_moved(s, price as int));
    }
    let step = kline_step_spec(s, price, false, Option::None, now, tracker);
    assert(step.1 =~= Seq::<Trade>::empty());
    assert(step.2 =~= Seq::<EquitySnapshot>::empty());
}

/// A whole stream of non-final kline events, replayed in order over one
/// session. Each pair is a close price and an arrival time.
pub open spec fn replay_klines(
    s: Session,
    events: Seq<(i64, i64)>,
    tracker: Option<i64>,
) -> (Session, Seq<Trade>, Seq<EquitySnapshot>, Option<i64>)
    decreases events.len(),
{
    if events.len() == 0 {
        (s, Seq::<Trade>::empty(), Seq::<EquitySnapshot>::empty(), tracker)
    } else {
        let step = kline_step_spec(s, events[0].0, false, Option::None, events[0].1, tracker);
        let rest = replay_klines(step.0, events.drop_first(), step.3);
        (rest.0, step.1 + rest.1, step.2 + rest.2, rest.3)
    }
}

/// A session with no price movement processes any number of non-final kline
/// events without producing a trade or a snapshot, and without changing.
pub proof fn lemma_quiet_replay(s: Session, events: Seq<(i64, i64)>, tracker: Option<i64>)
    requires
        s.wf(),
        forall|i: int| 0 <= i < events.len() ==> no_price_movement(s, #[trigger] events[i].0),
    ensures
        replay_klines(s, events, tracker) == (
            s,
            Seq::<Trade>::empty(),
            Seq::<EquitySnapshot>::empty(),
            tracker,
        ),
    decreases events.len(),
{
    if events.len() != 0 {
        lemma_quiet_kline(s, events[0].0, events[0].1, tracker);
        assert(forall|i: int|
            0 <= i < events.drop_first().len() ==> no_price_movement(
                s,
                #[trigger] events.drop_first()[i].0,
            ));
        lemma_quiet_replay(s, events.drop_first(), tracker);
        let whole = replay_klines(s, events, tracker);
        assert(whole.1 =~= Seq::<Trade>::empty());
        assert(whole.2 =~= Seq::<EquitySnapshot>::empty());
    }
}

} // verus!

verus! {

/// Reduces a strategy's signal series to what one final bar needs: the last
/// signal, the one before it (flat when the series has just begun), and the
/// strategy's explanation of the last. An empty series carries no answer.
pub fn latest_eval(signals: &Vec<Signal>, reason: Option<String>) -> (r: Option<EvalInput>)
    ensures
        (r is Some) <==> signals@.len() > 0,
        r is Some ==> r->Some_0.latest == signals@.last(),
        r is Some ==> r->Some_0.previous == (if signals@.len() >= 2 {
            signals@[signals@.len() - 2]
        } else {
            Signal::Flat
        }),
        r is Some ==> r->Some_0.reason@ == (match reason {
            Option::Some(s) => s@,
            Option::None => "No explanation"@,
        }),
{
    if signals.len() == 0 {
        return Option::None;
    }
    let latest = signals[signals.len() - 1];
    let previous = if signals.len() >= 2 {
        signals[signals.len() - 2]
    } else {
        Signal::Flat
    };
    let reason_text = match reason {
        Option::Some(s) => s,
        Option::None => String::from_str("No explanation"),
    };
    Option::Some(EvalInput { latest, previous, reason: reason_text })
}

} // verus!

