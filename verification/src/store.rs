use vstd::prelude::*;

use crate::generator::StrategyType;
use crate::model::{
    AppError, CachePoint, EquitySnapshot, ExecutionMode, Session, SessionStatus, Signal, Trade,
    MONEY_MAX,
};
use crate::model::{money_ok, time_ok};
use crate::text::to_upper;
use crate::text::upper_of;

verus! {

/// A stored strategy row: a parameterized, optimized algorithm bound to one
/// market. Immutable once created.
pub struct Strategy {
    pub id: u128,
    pub name: String,
    pub strategy_type: StrategyType,
    pub symbol: String,
    pub interval: String,
    /// Opaque serialized configuration, schema per strategy family.
    pub parameters: String,
    /// Opaque serialized headline metrics, when the generator produced them.
    pub performance_metrics: Option<String>,
    /// Opaque serialized downsampled backtest curve.
    pub backtest_curve: Option<String>,
    pub kelly_fraction: Option<i64>,
    pub created_at: i64,
}

pub open spec fn distinct_strategy_ids(s: Seq<Strategy>) -> bool {
    forall|i: int, j: int| 0 <= i < j < s.len() ==> (#[trigger] s[i]).id != (#[trigger] s[j]).id
}

pub open spec fn distinct_session_ids(s: Seq<Session>) -> bool {
    forall|i: int, j: int| 0 <= i < j < s.len() ==> (#[trigger] s[i]).id != (#[trigger] s[j]).id
}

pub open spec fn has_strategy_id(s: Seq<Strategy>, id: u128) -> bool {
    exists|i: int| 0 <= i < s.len() && (#[trigger] s[i]).id == id
}

pub open spec fn has_session_id(s: Seq<Session>, id: u128) -> bool {
    exists|i: int| 0 <= i < s.len() && (#[trigger] s[i]).id == id
}

/// The index of the strategy row carrying `id`; ids are unique, so the row is
/// determined.
pub open spec fn strategy_index(s: Seq<Strategy>, id: u128) -> int {
    choose|i: int| 0 <= i < s.len() && (#[trigger] s[i]).id == id
}

pub open spec fn strategy_by_id(s: Seq<Strategy>, id: u128) -> Strategy {
    s[strategy_index(s, id)]
}

/// The index of the session row carrying `id`.
pub open spec fn session_index(s: Seq<Session>, id: u128) -> int {
    choose|i: int| 0 <= i < s.len() && (#[trigger] s[i]).id == id
}

/// A strategy id stays resolvable when a row is appended.
proof fn lemma_has_strategy_push(s: Seq<Strategy>, r: Strategy, id: u128)
    requires
        has_strategy_id(s, id),
    ensures
        has_strategy_id(s.push(r), id),
{
    let i = choose|i: int| 0 <= i < s.len() && (#[trigger] s[i]).id == id;
    assert((#[trigger] s.push(r)[i]).id == id);
}

/// A session id stays resolvable when a row is appended.
proof fn lemma_has_session_push(s: Seq<Session>, r: Session, id: u128)
    requires
        has_session_id(s, id),
    ensures
        has_session_id(s.push(r), id),
{
    let i = choose|i: int| 0 <= i < s.len() && (#[trigger] s[i]).id == id;
    assert((#[trigger] s.push(r)[i]).id == id);
}

/// The durable state the three background activities share: strategies,
/// their running sessions, the append-only trade and snapshot logs, and the
/// derived portfolio cache. The collaborator layer mirrors every operation
/// into the relational store, one call per transaction.
pub struct Store {
    pub strategies: Vec<Strategy>,
    pub sessions: Vec<Session>,
    pub trades: Vec<Trade>,
    pub snapshots: Vec<EquitySnapshot>,
    pub portfolio_cache: Vec<CachePoint>,
    /// The next fresh row id.
    pub next_id: u128,
}

impl Store {
    /// Every session is well formed, ids are unique and below the id counter,
    /// and every reference between rows resolves: sessions to strategies,
    /// trades and snapshots to sessions. Snapshot amounts and times stay in
    /// range so that aggregation arithmetic cannot overflow.
    pub open spec fn wf(self) -> bool {
        &&& forall|i: int| 0 <= i < self.sessions@.len() ==> (#[trigger] self.sessions@[i]).wf()
        &&& distinct_strategy_ids(self.strategies@)
        &&& distinct_session_ids(self.sessions@)
        &&& forall|i: int|
            0 <= i < self.strategies@.len() ==> (#[trigger] self.strategies@[i]).id < self.next_id
        &&& forall|i: int|
            0 <= i < self.sessions@.len() ==> (#[trigger] self.sessions@[i]).id < self.next_id
        &&& forall|i: int|
            0 <= i < self.sessions@.len() ==> has_strategy_id(
                self.strategies@,
                (#[trigger] self.sessions@[i]).strategy_id,
            )
        &&& forall|i: int|
            0 <= i < self.trades@.len() ==> has_session_id(
                self.sessions@,
                (#[trigger] self.trades@[i]).session_id,
            )
        &&& forall|i: int|
            0 <= i < self.snapshots@.len() ==> has_session_id(
                self.sessions@,
                (#[trigger] self.snapshots@[i]).session_id,
            )
        &&& forall|i: int|
            0 <= i < self.snapshots@.len() ==> money_ok(
                (#[trigger] self.snapshots@[i]).equity as int,
            )
        &&& forall|i: int|
            0 <= i < self.snapshots@.len() ==> time_ok(
                (#[trigger] self.snapshots@[i]).timestamp as int,
            )
    }

    /// An empty store, as a fresh deployment starts.
    pub fn new() -> (s: Store)
        ensures
            s.wf(),
            s.strategies@ == Seq::<Strategy>::empty(),
            s.sessions@ == Seq::<Session>::empty(),
            s.trades@ == Seq::<Trade>::empty(),
            s.snapshots@ == Seq::<EquitySnapshot>::empty(),
            s.portfolio_cache@ == Seq::<CachePoint>::empty(),
            s.next_id == 0,
    {
        Store {
            strategies: Vec::new(),
            sessions: Vec::new(),
            trades: Vec::new(),
            snapshots: Vec::new(),
            portfolio_cache: Vec::new(),
            next_id: 0,
        }
    }

    fn find_strategy(&self, id: u128) -> (r: Option<usize>)
        ensures
            match r {
                Option::Some(i) => i < self.strategies@.len() && self.strategies@[i as int].id
                    == id,
                Option::None => !has_strategy_id(self.strategies@, id),
            },
    {
        let mut i: usize = 0;
        while i < self.strategies.len()
            invariant
                i <= self.strategies@.len(),
                forall|j: int| 0 <= j < i ==> (#[trigger] self.strategies@[j]).id != id,
            decreases self.strategies@.len() - i,
        {
            if self.strategies[i].id == id {
                return Option::Some(i);
            }
            i = i + 1;
        }
        Option::None
    }

    fn find_session(&self, id: u128) -> (r: Option<usize>)
        ensures
            match r {
                Option::Some(i) => i < self.sessions@.len() && self.sessions@[i as int].id == id,
                Option::None => !has_session_id(self.sessions@, id),
            },
    {
        let mut i: usize = 0;
        while i < self.sessions.len()
            invariant
                i <= self.sessions@.len(),
                forall|j: int| 0 <= j < i ==> (#[trigger] self.sessions@[j]).id != id,
            decreases self.sessions@.len() - i,
        {
            if self.sessions[i].id == id {
                return Option::Some(i);
            }
            i = i + 1;
        }
        Option::None
    }

    /// Creates one strategy row and returns its id.
    pub fn create_strategy(
        &mut self,
        name: String,
        strategy_type: StrategyType,
        symbol: String,
        interval: String,
        parameters: String,
        performance_metrics: Option<String>,
        backtest_curve: Option<String>,
        kelly_fraction: Option<i64>,
        now: i64,
    ) -> (id: u128)
        requires
            old(self).wf(),
            old(self).next_id < u128::MAX,
        ensures
            final(self).wf(),
            id == old(self).next_id,
            final(self).strategies@ == old(self).strategies@.push(
                Strategy {
                    id,
                    name,
                    strategy_type,
                    symbol,
                    interval,
                    parameters,
                    performance_metrics,
                    backtest_curve,
                    kelly_fraction,
                    created_at: now,
                },
            ),
            final(self).sessions@ == old(self).sessions@,
            final(self).trades@ == old(self).trades@,
            final(self).snapshots@ == old(self).snapshots@,
            final(self).portfolio_cache@ == old(self).portfolio_cache@,
            final(self).next_id == old(self).next_id + 1,
    {
        let id = self.next_id;
        self.strategies.push(
            Strategy {
                id,
                name,
                strategy_type,
                symbol,
                interval,
                parameters,
                performance_metrics,
                backtest_curve,
                kelly_fraction,
                created_at: now,
            },
        );
        self.next_id = self.next_id + 1;
        proof {
            assert forall|i: int| 0 <= i < self.sessions@.len() implies has_strategy_id(
                self.strategies@,
                (#[trigger] self.sessions@[i]).strategy_id,
            ) by {
                lemma_has_strategy_push(
                    old(self).strategies@,
                    self.strategies@.last(),
                    self.sessions@[i].strategy_id,
                );
            }
        }
        id
    }

    /// The session a new paper-trade run starts with: flat, at its initial
    /// capital, on the strategy's market.
    pub open spec fn new_session_spec(
        self,
        strategy_id: u128,
        initial_capital: i64,
        execution_mode: ExecutionMode,
        now: i64,
    ) -> Session {
        let strat = strategy_by_id(self.strategies@, strategy_id);
        Session {
            id: self.next_id,
            strategy_id,
            symbol: strat.symbol,
            interval: strat.interval,
            initial_capital,
            current_equity: initial_capital,
            entry_equity: Option::None,
            current_position: Signal::Flat,
            entry_price: Option::None,
            status: SessionStatus::Active,
            execution_mode,
            created_at: now,
            last_update: now,
        }
    }

    /// Starts a paper-trade session of one strategy and seeds its equity
    /// series with the initial capital. Fails exactly when the strategy does
    /// not exist.
    pub fn start_session(
        &mut self,
        strategy_id: u128,
        initial_capital: i64,
        execution_mode: ExecutionMode,
        now: i64,
    ) -> (r: Result<u128, AppError>)
        requires
            old(self).wf(),
            old(self).next_id < u128::MAX,
            0 <= initial_capital <= MONEY_MAX,
            time_ok(now as int),
        ensures
            final(self).wf(),
            r is Ok <==> has_strategy_id(old(self).strategies@, strategy_id),
            r is Err ==> *final(self) == *old(self) && (r->Err_0 is Database),
            r is Ok ==> {
                &&& r->Ok_0 == old(self).next_id
                &&& final(self).sessions@ == old(self).sessions@.push(
                    old(self).new_session_spec(strategy_id, initial_capital, execution_mode, now),
                )
                &&& final(self).snapshots@ == old(self).snapshots@.push(
                    EquitySnapshot {
                        session_id: old(self).next_id,
                        equity: initial_capital,
                        timestamp: now,
                    },
                )
                &&& final(self).strategies@ == old(self).strategies@
                &&& final(self).trades@ == old(self).trades@
                &&& final(self).portfolio_cache@ == old(self).portfolio_cache@
                &&& final(self).next_id == old(self).next_id + 1
            },
    {
        let found = self.find_strategy(strategy_id);
        match found {
            Option::None => Result::Err(
                AppError::Database(String::from_str("no strategy row with the requested id")),
            ),
            Option::Some(i) => {
                let id = self.next_id;
                proof {
                    assert(self.strategies@[i as int].id == strategy_id);
                    let k = strategy_index(self.strategies@, strategy_id);
                    assert(0 <= k < self.strategies@.len() && self.strategies@[k].id
                        == strategy_id);
                    if k != i as int {
                        assert(false);
                    }
                }
                let session = Session {
                    id,
                    strategy_id,
                    symbol: self.strategies[i].symbol.clone(),
                    interval: self.strategies[i].interval.clone(),
                    initial_capital,
                    current_equity: initial_capital,
                    entry_equity: Option::None,
                    current_position: Signal::Flat,
                    entry_price: Option::None,
                    status: SessionStatus::Active,
                    execution_mode,
                    created_at: now,
                    last_update: now,
                };
                self.sessions.push(session);
                self.snapshots.push(
                    EquitySnapshot { session_id: id, equity: initial_capital, timestamp: now },
                );
                self.next_id = self.next_id + 1;
                proof {
                    let news = self.sessions@.last();
                    assert forall|k: int| 0 <= k < self.sessions@.len() implies has_strategy_id(
                        self.strategies@,
                        (#[trigger] self.sessions@[k]).strategy_id,
                    ) by {
                        if k < old(self).sessions@.len() {
                            assert(self.sessions@[k] == old(self).sessions@[k]);
                        } else {
                            assert(self.sessions@[k].strategy_id == strategy_id);
                        }
                    }
                    assert forall|k: int| 0 <= k < self.trades@.len() implies has_session_id(
                        self.sessions@,
                        (#[trigger] self.trades@[k]).session_id,
                    ) by {
                        lemma_has_session_push(
                            old(self).sessions@,
                            news,
                            self.trades@[k].session_id,
                        );
                    }
                    assert forall|k: int| 0 <= k < self.snapshots@.len() implies has_session_id(
                        self.sessions@,
                        (#[trigger] self.snapshots@[k]).session_id,
                    ) by {
                        if k < old(self).snapshots@.len() {
                            assert(self.snapshots@[k] == old(self).snapshots@[k]);
                            lemma_has_session_push(
                                old(self).sessions@,
                                news,
                                self.snapshots@[k].session_id,
                            );
                        } else {
                            assert((#[trigger] self.sessions@[self.sessions@.len() - 1]).id == id);
                        }
                    }
                }
                Result::Ok(id)
            },
        }
    }

    /// The sessions the engine drives for one symbol: the active ones whose
    /// symbol equals the event's symbol, uppercased.
    pub fn active_sessions_for_symbol(&self, symbol: &str) -> (found: Vec<Session>)
        ensures
            found@ == self.sessions@.filter(
                |s: Session| s.status is Active && s.symbol@ == upper_of(symbol@),
            ),
    {
        let wanted = to_upper(symbol);
        let mut found: Vec<Session> = Vec::new();
        let mut i: usize = 0;
        while i < self.sessions.len()
            invariant
                wanted@ == upper_of(symbol@),
                i <= self.sessions@.len(),
                found@ == self.sessions@.take(i as int).filter(
                    |s: Session| s.status is Active && s.symbol@ == upper_of(symbol@),
                ),
            decreases self.sessions@.len() - i,
        {
            proof {
                crate::seqs::lemma_take_push(self.sessions@, i as int);
                crate::seqs::lemma_filter_push(
                    self.sessions@.take(i as int),
                    self.sessions@[i as int],
                    |s: Session| s.status is Active && s.symbol@ == upper_of(symbol@),
                );
            }
            let s = &self.sessions[i];
            if matches!(s.status, SessionStatus::Active) && s.symbol.eq(&wanted) {
                found.push(s.clone());
            }
            i = i + 1;
        }
        proof {
            assert(self.sessions@.take(self.sessions@.len() as int) =~= self.sessions@);
        }
        found
    }

    /// The distinct symbols of the active sessions: what the engine
    /// subscribes to.
    pub fn active_symbols(&self) -> (symbols: Vec<String>)
        ensures
            crate::market::symbol_set(symbols@) == active_symbol_set(self.sessions@),
            forall|i: int, j: int| 0 <= i < j < symbols@.len() ==> (#[trigger] symbols@[i])@ != (
            #[trigger] symbols@[j])@,
    {
        let mut symbols: Vec<String> = Vec::new();
        let mut i: usize = 0;
        while i < self.sessions.len()
            invariant
                i <= self.sessions@.len(),
                forall|a: int, b: int|
                    0 <= a < b < symbols@.len() ==> (#[trigger] symbols@[a])@ != (
                    #[trigger] symbols@[b])@,
                crate::market::symbol_set(symbols@) == active_symbol_set(
                    self.sessions@.take(i as int),
                ),
            decreases self.sessions@.len() - i,
        {
            let s = &self.sessions[i];
            let ghost prev = symbols@;
            if matches!(s.status, SessionStatus::Active) && !crate::market::contains_symbol(
                &symbols,
                &s.symbol,
            ) {
                symbols.push(s.symbol.clone());
                proof {
                    assert forall|a: int, b: int|
                        0 <= a < b < symbols@.len() implies (#[trigger] symbols@[a])@ != (
                    #[trigger] symbols@[b])@ by {
                        if b == symbols@.len() - 1 {
                            assert(prev.map_values(|y: String| y@)[a] == prev[a]@);
                        }
                    }
                }
            }
            i = i + 1;
            proof {
                lemma_active_symbol_set_step(self.sessions@, i as int - 1, prev, symbols@);
            }
        }
        proof {
            assert(self.sessions@.take(self.sessions@.len() as int) =~= self.sessions@);
        }
        symbols
    }
}

/// The set of symbols of the active sessions.
pub open spec fn active_symbol_set(sessions: Seq<Session>) -> Set<Seq<char>> {
    Set::new(
        |x: Seq<char>|
            exists|i: int|
                0 <= i < sessions.len() && (#[trigger] sessions[i]).status is Active
                    && sessions[i].symbol@ == x,
    )
}

/// One step of collecting active symbols: consuming session `i` extends the
/// collected set exactly by that session's symbol when it is active.
proof fn lemma_active_symbol_set_step(
    sessions: Seq<Session>,
    i: int,
    prev: Seq<String>,
    now: Seq<String>,
)
    requires
        0 <= i < sessions.len(),
        crate::market::symbol_set(prev) == active_symbol_set(sessions.take(i)),
        (sessions[i].status is Active && !crate::market::symbol_set(prev).contains(
            sessions[i].symbol@,
        )) ==> now == prev.push(sessions[i].symbol),
        !(sessions[i].status is Active && !crate::market::symbol_set(prev).contains(
            sessions[i].symbol@,
        )) ==> now == prev,
    ensures
        crate::market::symbol_set(now) == active_symbol_set(sessions.take(i + 1)),
{
    let before = active_symbol_set(sessions.take(i));
    let after = active_symbol_set(sessions.take(i + 1));
    assert forall|x: Seq<char>| after.contains(x) implies before.contains(x) || (
    sessions[i].status is Active && sessions[i].symbol@ == x) by {
        let j = choose|j: int|
            0 <= j < sessions.take(i + 1).len() && (#[trigger] sessions.take(i + 1)[j]).status
                is Active && sessions.take(i + 1)[j].symbol@ == x;
        if j < i {
            assert(sessions.take(i)[j] == sessions[j]);
        }
    }
    assert forall|x: Seq<char>| before.contains(x) implies after.contains(x) by {
        let j = choose|j: int|
            0 <= j < sessions.take(i).len() && (#[trigger] sessions.take(i)[j]).status is Active
                && sessions.take(i)[j].symbol@ == x;
        assert(sessions.take(i + 1)[j] == sessions[j]);
    }
    if sessions[i].status is Active {
        assert(sessions.take(i + 1)[i] == sessions[i]);
        assert(after.contains(sessions[i].symbol@));
    }
    if sessions[i].status is Active && !crate::market::symbol_set(prev).contains(
        sessions[i].symbol@,
    ) {
        assert forall|x: Seq<char>| crate::market::symbol_set(now).contains(x) implies
            after.contains(x) by {
            let ms = now.map_values(|y: String| y@);
            let j = choose|j: int| 0 <= j < ms.len() && #[trigger] ms[j] == x;
            if j < prev.len() {
                assert(prev.map_values(|y: String| y@)[j] == x);
            } else {
                assert(now[j] == sessions[i].symbol);
            }
        }
        assert forall|x: Seq<char>| after.contains(x) implies crate::market::symbol_set(
            now,
        ).contains(x) by {
            if before.contains(x) {
                let ms = prev.map_values(|y: String| y@);
                let j = choose|j: int| 0 <= j < ms.len() && #[trigger] ms[j] == x;
                assert(now.map_values(|y: String| y@)[j] == x);
            } else {
                assert(now.map_values(|y: String| y@)[now.len() - 1] == x);
            }
        }
        assert(crate::market::symbol_set(now) =~= after);
    } else {
        assert forall|x: Seq<char>| after.contains(x) implies before.contains(x) by {
            if !before.contains(x) {
                assert(sessions[i].status is Active && sessions[i].symbol@ == x);
                assert(before.contains(x));
            }
        }
        assert(crate::market::symbol_set(now) =~= after);
    }
}

} // verus!

verus! {

// ---------------------------------------------------------------------------
// Cascading deletion
// ---------------------------------------------------------------------------

/// The ids of the sessions a strategy deletion takes with it.
pub open spec fn deleted_session_ids(sessions: Seq<Session>, strategy_id: u128) -> Seq<u128> {
    sessions.filter(|s: Session| s.strategy_id == strategy_id).map_values(|s: Session| s.id)
}

fn ids_contain(ids: &Vec<u128>, id: u128) -> (r: bool)
    ensures
        r == ids@.contains(id),
{
    let mut i: usize = 0;
    while i < ids.len()
        invariant
            i <= ids@.len(),
            forall|j: int| 0 <= j < i ==> ids@[j] != id,
        decreases ids@.len() - i,
    {
        if ids[i] == id {
            return true;
        }
        i = i + 1;
    }
    false
}

fn collect_deleted_ids(sessions: &Vec<Session>, strategy_id: u128) -> (ids: Vec<u128>)
    ensures
        ids@ == deleted_session_ids(sessions@, strategy_id),
{
    let mut ids: Vec<u128> = Vec::new();
    let mut i: usize = 0;
    while i < sessions.len()
        invariant
            i <= sessions@.len(),
            ids@ == deleted_session_ids(sessions@.take(i as int), strategy_id),
        decreases sessions@.len() - i,
    {
        proof {
            crate::seqs::lemma_take_push(sessions@, i as int);
            crate::seqs::lemma_filter_push(
                sessions@.take(i as int),
                sessions@[i as int],
                |s: Session| s.strategy_id == strategy_id,
            );
            let pred = |s: Session| s.strategy_id == strategy_id;
            if pred(sessions@[i as int]) {
                assert(sessions@.take(i as int + 1).filter(pred).map_values(|s: Session| s.id)
                    =~= sessions@.take(i as int).filter(pred).map_values(|s: Session| s.id).push(
                    sessions@[i as int].id,
                ));
            }
        }
        if sessions[i].strategy_id == strategy_id {
            ids.push(sessions[i].id);
        }
        i = i + 1;
    }
    proof {
        assert(sessions@.take(sessions@.len() as int) =~= sessions@);
    }
    ids
}

fn retain_strategies_except(v: &Vec<Strategy>, id: u128) -> (kept: Vec<Strategy>)
    ensures
        kept@ == v@.filter(|x: Strategy| x.id != id),
{
    let mut kept: Vec<Strategy> = Vec::new();
    let mut i: usize = 0;
    while i < v.len()
        invariant
            i <= v@.len(),
            kept@ == v@.take(i as int).filter(|x: Strategy| x.id != id),
        decreases v@.len() - i,
    {
        proof {
            crate::seqs::lemma_take_push(v@, i as int);
            crate::seqs::lemma_filter_push(
                v@.take(i as int),
                v@[i as int],
                |x: Strategy| x.id != id,
            );
        }
        if v[i].id != id {
            let rec = Strategy {
                id: v[i].id,
                name: v[i].name.clone(),
                strategy_type: v[i].strategy_type,
                symbol: v[i].symbol.clone(),
                interval: v[i].interval.clone(),
                parameters: v[i].parameters.clone(),
                performance_metrics: match &v[i].performance_metrics {
                    Option::Some(m) => Option::Some(m.clone()),
                    Option::None => Option::None,
                },
                backtest_curve: match &v[i].backtest_curve {
                    Option::Some(c) => Option::Some(c.clone()),
                    Option::None => Option::None,
                },
                kelly_fraction: v[i].kelly_fraction,
                created_at: v[i].created_at,
            };
            assert(rec == v@[i as int]);
            kept.push(rec);
        }
        i = i + 1;
    }
    proof {
        assert(v@.take(v@.len() as int) =~= v@);
    }
    kept
}

fn retain_sessions_not_of(v: &Vec<Session>, strategy_id: u128) -> (kept: Vec<Session>)
    ensures
        kept@ == v@.filter(|s: Session| s.strategy_id != strategy_id),
{
    let mut kept: Vec<Session> = Vec::new();
    let mut i: usize = 0;
    while i < v.len()
        invariant
            i <= v@.len(),
            kept@ == v@.take(i as int).filter(|s: Session| s.strategy_id != strategy_id),
        decreases v@.len() - i,
    {
        proof {
            crate::seqs::lemma_take_push(v@, i as int);
            crate::seqs::lemma_filter_push(
                v@.take(i as int),
                v@[i as int],
                |s: Session| s.strategy_id != strategy_id,
            );
        }
        if v[i].strategy_id != strategy_id {
            kept.push(v[i].clone());
        }
        i = i + 1;
    }
    proof {
        assert(v@.take(v@.len() as int) =~= v@);
    }
    kept
}

fn retain_trades_not_in(v: &Vec<Trade>, ids: &Vec<u128>) -> (kept: Vec<Trade>)
    ensures
        kept@ == v@.filter(|t: Trade| !ids@.contains(t.session_id)),
{
    let mut kept: Vec<Trade> = Vec::new();
    let mut i: usize = 0;
    while i < v.len()
        invariant
            i <= v@.len(),
            kept@ == v@.take(i as int).filter(|t: Trade| !ids@.contains(t.session_id)),
        decreases v@.len() - i,
    {
        proof {
            crate::seqs::lemma_take_push(v@, i as int);
            crate::seqs::lemma_filter_push(
                v@.take(i as int),
                v@[i as int],
                |t: Trade| !ids@.contains(t.session_id),
            );
        }
        if !ids_contain(ids, v[i].session_id) {
            kept.push(v[i].clone());
        }
        i = i + 1;
    }
    proof {
        assert(v@.take(v@.len() as int) =~= v@);
    }
    kept
}

fn retain_snapshots_not_in(v: &Vec<EquitySnapshot>, ids: &Vec<u128>) -> (kept: Vec<EquitySnapshot>)
    ensures
        kept@ == v@.filter(|s: EquitySnapshot| !ids@.contains(s.session_id)),
{
    let mut kept: Vec<EquitySnapshot> = Vec::new();
    let mut i: usize = 0;
    while i < v.len()
        invariant
            i <= v@.len(),
            kept@ == v@.take(i as int).filter(|s: EquitySnapshot| !ids@.contains(s.session_id)),
        decreases v@.len() - i,
    {
        proof {
            crate::seqs::lemma_take_push(v@, i as int);
            crate::seqs::lemma_filter_push(
                v@.take(i as int),
                v@[i as int],
                |s: EquitySnapshot| !ids@.contains(s.session_id),
            );
        }
        if !ids_contain(ids, v[i].session_id) {
            kept.push(v[i]);
        }
        i = i + 1;
    }
    proof {
        assert(v@.take(v@.len() as int) =~= v@);
    }
    kept
}

} // verus!

verus! {

impl Store {
    /// Deletes one strategy and everything that transitively depends on it:
    /// its sessions, and their trades and snapshots, in one transaction.
    /// Exactly the rows whose reference chain roots at the strategy go; every
    /// other row stays. Fails exactly when the strategy does not exist, in
    /// which case nothing is deleted.
    pub fn delete_strategy(&mut self, strategy_id: u128) -> (r: Result<(), AppError>)
        requires
            old(self).wf(),
        ensures
            final(self).wf(),
            r is Ok <==> has_strategy_id(old(self).strategies@, strategy_id),
            r is Err ==> r->Err_0 is NotFound,
            final(self).strategies@ == old(self).strategies@.filter(
                |x: Strategy| x.id != strategy_id,
            ),
            final(self).sessions@ == old(self).sessions@.filter(
                |s: Session| s.strategy_id != strategy_id,
            ),
            final(self).trades@ == old(self).trades@.filter(
                |t: Trade|
                    !deleted_session_ids(old(self).sessions@, strategy_id).contains(t.session_id),
            ),
            final(self).snapshots@ == old(self).snapshots@.filter(
                |s: EquitySnapshot|
                    !deleted_session_ids(old(self).sessions@, strategy_id).contains(s.session_id),
            ),
            final(self).portfolio_cache@ == old(self).portfolio_cache@,
            final(self).next_id == old(self).next_id,
    {
        broadcast use vstd::seq_lib::group_filter_ensures;

        let found = self.find_strategy(strategy_id);
        let ids = collect_deleted_ids(&self.sessions, strategy_id);
        let new_trades = retain_trades_not_in(&self.trades, &ids);
        let new_snapshots = retain_snapshots_not_in(&self.snapshots, &ids);
        let new_sessions = retain_sessions_not_of(&self.sessions, strategy_id);
        let new_strategies = retain_strategies_except(&self.strategies, strategy_id);
        self.trades = new_trades;
        self.snapshots = new_snapshots;
        self.sessions = new_sessions;
        self.strategies = new_strategies;
        proof {
            let olds = old(self).sessions@;
            let oldst = old(self).strategies@;
            let oldtr = old(self).trades@;
            let oldsn = old(self).snapshots@;
            let del = deleted_session_ids(olds, strategy_id);
            let spred = |s: Session| s.strategy_id != strategy_id;
            let stpred = |x: Strategy| x.id != strategy_id;
            crate::seqs::lemma_filter_subset(olds, spred);
            crate::seqs::lemma_filter_subset(oldst, stpred);
            crate::seqs::lemma_filter_subset(
                oldtr,
                |t: Trade| !del.contains(t.session_id),
            );
            crate::seqs::lemma_filter_subset(
                oldsn,
                |s: EquitySnapshot| !del.contains(s.session_id),
            );
            crate::seqs::lemma_filter_distinct_by(olds, spred, |s: Session| s.id);
            crate::seqs::lemma_filter_distinct_by(oldst, stpred, |x: Strategy| x.id);
            let skey = |s: Session| s.id;
            let stkey = |x: Strategy| x.id;
            assert forall|i: int, j: int| 0 <= i < j < olds.len() implies #[trigger] skey(
                olds[i],
            ) != #[trigger] skey(olds[j]) by {}
            assert forall|i: int, j: int| 0 <= i < j < oldst.len() implies #[trigger] stkey(
                oldst[i],
            ) != #[trigger] stkey(oldst[j]) by {}
            crate::seqs::lemma_filter_distinct_by(olds, spred, skey);
            crate::seqs::lemma_filter_distinct_by(oldst, stpred, stkey);
            assert forall|i: int, j: int|
                0 <= i < j < self.sessions@.len() implies (#[trigger] self.sessions@[i]).id != (
            #[trigger] self.sessions@[j]).id by {
                assert(skey(olds.filter(spred)[i]) != skey(olds.filter(spred)[j]));
            }
            assert forall|i: int, j: int|
                0 <= i < j < self.strategies@.len() implies (#[trigger] self.strategies@[i]).id
                != (#[trigger] self.strategies@[j]).id by {
                assert(stkey(oldst.filter(stpred)[i]) != stkey(oldst.filter(stpred)[j]));
            }

            assert forall|i: int| 0 <= i < self.sessions@.len() implies (
            #[trigger] self.sessions@[i]).wf() && self.sessions@[i].id < self.next_id by {
                let x = self.sessions@[i];
                let k = choose|k: int| 0 <= k < olds.len() && olds[k] == x;
            }
            assert forall|i: int| 0 <= i < self.strategies@.len() implies (
            #[trigger] self.strategies@[i]).id < self.next_id by {
                let x = self.strategies@[i];
                let k = choose|k: int| 0 <= k < oldst.len() && oldst[k] == x;
            }
            assert forall|i: int| 0 <= i < self.sessions@.len() implies has_strategy_id(
                self.strategies@,
                (#[trigger] self.sessions@[i]).strategy_id,
            ) by {
                let x = self.sessions@[i];
                assert(spred(x));
                let k = choose|k: int| 0 <= k < olds.len() && olds[k] == x;
                assert(has_strategy_id(oldst, x.strategy_id));
                let m = choose|m: int| 0 <= m < oldst.len() && (#[trigger] oldst[m]).id
                    == x.strategy_id;
                assert(stpred(oldst[m]));
                assert(self.strategies@.contains(oldst[m]));
                let w = choose|w: int|
                    0 <= w < self.strategies@.len() && self.strategies@[w] == oldst[m];
                assert((#[trigger] self.strategies@[w]).id == x.strategy_id);
            }
            assert forall|i: int|
                0 <= i < olds.len() && spred(#[trigger] olds[i]) implies has_session_id(
                self.sessions@,
                olds[i].id,
            ) by {
                assert(self.sessions@.contains(olds[i]));
                let w = choose|w: int|
                    0 <= w < self.sessions@.len() && self.sessions@[w] == olds[i];
                assert((#[trigger] self.sessions@[w]).id == olds[i].id);
            }
            assert forall|i: int|
                0 <= i < olds.len() && !spred(#[trigger] olds[i]) implies del.contains(
                olds[i].id,
            ) by {
                let fe = olds.filter(|s: Session| s.strategy_id == strategy_id);
                assert(fe.contains(olds[i]));
                let w = choose|w: int| 0 <= w < fe.len() && fe[w] == olds[i];
                assert(del[w] == olds[i].id);
            }
            assert forall|i: int| 0 <= i < self.trades@.len() implies has_session_id(
                self.sessions@,
                (#[trigger] self.trades@[i]).session_id,
            ) by {
                let t = self.trades@[i];
                assert(!del.contains(t.session_id));
                let k = choose|k: int| 0 <= k < oldtr.len() && oldtr[k] == t;
                assert(has_session_id(olds, t.session_id));
                let m = choose|m: int| 0 <= m < olds.len() && (#[trigger] olds[m]).id
                    == t.session_id;
                assert(spred(olds[m]));
            }
            assert forall|i: int| 0 <= i < self.snapshots@.len() implies has_session_id(
                self.sessions@,
                (#[trigger] self.snapshots@[i]).session_id,
            ) && money_ok(self.snapshots@[i].equity as int) && time_ok(
                self.snapshots@[i].timestamp as int,
            ) by {
                let t = self.snapshots@[i];
                assert(!del.contains(t.session_id));
                let k = choose|k: int| 0 <= k < oldsn.len() && oldsn[k] == t;
                assert(has_session_id(olds, t.session_id));
                let m = choose|m: int| 0 <= m < olds.len() && (#[trigger] olds[m]).id
                    == t.session_id;
                assert(spred(olds[m]));
            }
        }
        match found {
            Option::Some(_) => Result::Ok(()),
            Option::None => Result::Err(
                AppError::NotFound(String::from_str("no strategy row with the requested id")),
            ),
        }
    }

    /// Deletes every trade, snapshot and session, in one transaction, keeping
    /// the strategies and the cache.
    pub fn reset_sessions(&mut self)
        requires
            old(self).wf(),
        ensures
            final(self).wf(),
            final(self).trades@ == Seq::<Trade>::empty(),
            final(self).snapshots@ == Seq::<EquitySnapshot>::empty(),
            final(self).sessions@ == Seq::<Session>::empty(),
            final(self).strategies@ == old(self).strategies@,
            final(self).portfolio_cache@ == old(self).portfolio_cache@,
            final(self).next_id == old(self).next_id,
    {
        self.trades.clear();
        self.snapshots.clear();
        self.sessions.clear();
    }

    /// Deletes everything: trades, snapshots, sessions and strategies.
    pub fn delete_all_strategies(&mut self)
        requires
            old(self).wf(),
        ensures
            final(self).wf(),
            final(self).trades@ == Seq::<Trade>::empty(),
            final(self).snapshots@ == Seq::<EquitySnapshot>::empty(),
            final(self).sessions@ == Seq::<Session>::empty(),
            final(self).strategies@ == Seq::<Strategy>::empty(),
            final(self).portfolio_cache@ == old(self).portfolio_cache@,
            final(self).next_id == old(self).next_id,
    {
        self.trades.clear();
        self.snapshots.clear();
        self.sessions.clear();
        self.strategies.clear();
    }
}

} // verus!

verus! {

impl Store {
    /// Applies one engine step to the store in a single transaction: the
    /// session row is rewritten in place, and the step's trades and snapshots
    /// are appended together with it.
    pub fn apply_session_update(
        &mut self,
        session: Session,
        trades: Vec<Trade>,
        snapshots: Vec<EquitySnapshot>,
    )
        requires
            old(self).wf(),
            session.wf(),
            has_session_id(old(self).sessions@, session.id),
            session.strategy_id == old(self).sessions@[session_index(
                old(self).sessions@,
                session.id,
            )].strategy_id,
            forall|i: int|
                0 <= i < trades@.len() ==> (#[trigger] trades@[i]).session_id == session.id,
            forall|i: int|
                0 <= i < snapshots@.len() ==> (#[trigger] snapshots@[i]).session_id == session.id,
            forall|i: int|
                0 <= i < snapshots@.len() ==> money_ok((#[trigger] snapshots@[i]).equity as int),
            forall|i: int|
                0 <= i < snapshots@.len() ==> time_ok((#[trigger] snapshots@[i]).timestamp as int),
        ensures
            final(self).wf(),
            final(self).sessions@ == old(self).sessions@.update(
                session_index(old(self).sessions@, session.id),
                session,
            ),
            final(self).trades@ == old(self).trades@ + trades@,
            final(self).snapshots@ == old(self).snapshots@ + snapshots@,
            final(self).strategies@ == old(self).strategies@,
            final(self).portfolio_cache@ == old(self).portfolio_cache@,
            final(self).next_id == old(self).next_id,
    {
        let found = self.find_session(session.id);
        let i = match found {
            Option::Some(i) => i,
            Option::None => {
                proof {
                    assert(false);
                }
                0
            },
        };
        proof {
            let k = session_index(old(self).sessions@, session.id);
            assert(0 <= k < old(self).sessions@.len() && old(self).sessions@[k].id == session.id);
            if k != i as int {
                assert(false);
            }
        }
        let ghost olds = self.sessions@;
        let _old_row = self.sessions.remove(i);
        self.sessions.insert(i, session);
        proof {
            assert(self.sessions@ =~= olds.update(i as int, session));
        }
        let mut new_trades = trades;
        let mut new_snapshots = snapshots;
        self.trades.append(&mut new_trades);
        self.snapshots.append(&mut new_snapshots);
        proof {
            let upd = self.sessions@;
            assert forall|a: int, b: int|
                0 <= a < b < upd.len() implies (#[trigger] upd[a]).id != (
            #[trigger] upd[b]).id by {
                assert(upd[a].id == olds[a].id);
                assert(upd[b].id == olds[b].id);
            }
            assert forall|x: u128| has_session_id(olds, x) implies has_session_id(upd, x) by {
                let k = choose|k: int| 0 <= k < olds.len() && (#[trigger] olds[k]).id == x;
                assert((#[trigger] upd[k]).id == x);
            }
            assert forall|k: int| 0 <= k < self.trades@.len() implies has_session_id(
                upd,
                (#[trigger] self.trades@[k]).session_id,
            ) by {
                if k >= old(self).trades@.len() {
                    assert(self.trades@[k].session_id == session.id);
                    assert((#[trigger] upd[i as int]).id == session.id);
                }
            }
            assert forall|k: int|
                0 <= k < self.snapshots@.len() implies has_session_id(
                upd,
                (#[trigger] self.snapshots@[k]).session_id,
            ) && money_ok(self.snapshots@[k].equity as int) && time_ok(
                self.snapshots@[k].timestamp as int,
            ) by {
                if k >= old(self).snapshots@.len() {
                    assert(self.snapshots@[k] == snapshots@[k - old(self).snapshots@.len()]);
                    assert((#[trigger] upd[i as int]).id == session.id);
                } else {
                    assert(self.snapshots@[k] == old(self).snapshots@[k]);
                }
            }
        }
    }

    /// The audit trail of one session, in insertion order.
    pub fn trades_for_session(&self, session_id: u128) -> (r: Vec<Trade>)
        ensures
            r@ == self.trades@.filter(|t: Trade| t.session_id == session_id),
    {
        let mut r: Vec<Trade> = Vec::new();
        let mut i: usize = 0;
        while i < self.trades.len()
            invariant
                i <= self.trades@.len(),
                r@ == self.trades@.take(i as int).filter(|t: Trade| t.session_id == session_id),
            decreases self.trades@.len() - i,
        {
            proof {
                crate::seqs::lemma_take_push(self.trades@, i as int);
                crate::seqs::lemma_filter_push(
                    self.trades@.take(i as int),
                    self.trades@[i as int],
                    |t: Trade| t.session_id == session_id,
                );
            }
            if self.trades[i].session_id == session_id {
                r.push(self.trades[i].clone());
            }
            i = i + 1;
        }
        proof {
            assert(self.trades@.take(self.trades@.len() as int) =~= self.trades@);
        }
        r
    }

    /// The equity series of one session, in insertion order.
    pub fn equity_curve(&self, session_id: u128) -> (r: Vec<EquitySnapshot>)
        ensures
            r@ == self.snapshots@.filter(|s: EquitySnapshot| s.session_id == session_id),
    {
        let mut r: Vec<EquitySnapshot> = Vec::new();
        let mut i: usize = 0;
        while i < self.snapshots.len()
            invariant
                i <= self.snapshots@.len(),
                r@ == self.snapshots@.take(i as int).filter(
                    |s: EquitySnapshot| s.session_id == session_id,
                ),
            decreases self.snapshots@.len() - i,
        {
            proof {
                crate::seqs::lemma_take_push(self.snapshots@, i as int);
                crate::seqs::lemma_filter_push(
                    self.snapshots@.take(i as int),
                    self.snapshots@[i as int],
                    |s: EquitySnapshot| s.session_id == session_id,
                );
            }
            if self.snapshots[i].session_id == session_id {
                r.push(self.snapshots[i]);
            }
            i = i + 1;
        }
        proof {
            assert(self.snapshots@.take(self.snapshots@.len() as int) =~= self.snapshots@);
        }
        r
    }
}

/// What one aggregator pass leaves in the cache: the rebuilt timeline, or the
/// old rows when there is nothing to rebuild from (no snapshot, or no minute
/// with a positive total).
pub open spec fn rebuilt_cache(
    snaps: Seq<EquitySnapshot>,
    cache: Seq<CachePoint>,
    end: int,
) -> Seq<CachePoint> {
    let pts = crate::portfolio::portfolio_cache_spec(snaps, end);
    if snaps.len() == 0 || pts.len() == 0 {
        cache
    } else {
        pts
    }
}

/// Rebuilding the cache again, with no new snapshots and the same horizon,
/// leaves exactly the rows of the first rebuild.
pub proof fn lemma_rebuild_idempotent(snaps: Seq<EquitySnapshot>, cache: Seq<CachePoint>, end: int)
    ensures
        rebuilt_cache(snaps, rebuilt_cache(snaps, cache, end), end) == rebuilt_cache(
            snaps,
            cache,
            end,
        ),
{
}

impl Store {
    /// One aggregator pass: rebuilds the whole minute-resolution portfolio
    /// timeline from the snapshots, replacing the cache in one transaction.
    /// With no snapshots, or no positive minute, the cache is left alone.
    pub fn rebuild_portfolio_cache(&mut self, now: i64)
        requires
            old(self).wf(),
            time_ok(now as int),
            forall|i: int, j: int|
                0 <= i <= j < old(self).snapshots@.len() ==> (
                #[trigger] old(self).snapshots@[i]).timestamp <= (
                #[trigger] old(self).snapshots@[j]).timestamp,
            old(self).snapshots@.len() <= crate::portfolio::MAX_AGGREGATED_SNAPSHOTS,
        ensures
            final(self).wf(),
            final(self).portfolio_cache@ == rebuilt_cache(
                old(self).snapshots@,
                old(self).portfolio_cache@,
                now as int,
            ),
            final(self).strategies@ == old(self).strategies@,
            final(self).sessions@ == old(self).sessions@,
            final(self).trades@ == old(self).trades@,
            final(self).snapshots@ == old(self).snapshots@,
            final(self).next_id == old(self).next_id,
    {
        if self.snapshots.len() == 0 {
            return ;
        }
        let points = crate::portfolio::build_cache_points(&self.snapshots, now);
        if points.len() == 0 {
            return ;
        }
        self.portfolio_cache = points;
    }

    /// Starts one session per existing strategy id, each seeded like a single
    /// start; unknown ids are skipped. Returns how many sessions started.
    pub fn bulk_start_sessions(
        &mut self,
        strategy_ids: &Vec<u128>,
        initial_capital: i64,
        execution_mode: ExecutionMode,
        now: i64,
    ) -> (count: usize)
        requires
            old(self).wf(),
            old(self).next_id as int + strategy_ids@.len() <= u128::MAX,
            0 <= initial_capital <= MONEY_MAX,
            time_ok(now as int),
        ensures
            final(self).wf(),
            count == strategy_ids@.filter(
                |id: u128| has_strategy_id(old(self).strategies@, id),
            ).len(),
            final(self).strategies@ == old(self).strategies@,
            final(self).trades@ == old(self).trades@,
            final(self).portfolio_cache@ == old(self).portfolio_cache@,
            final(self).sessions@.len() == old(self).sessions@.len() + count,
    {
        let mut count: usize = 0;
        let mut i: usize = 0;
        while i < strategy_ids.len()
            invariant
                self.wf(),
                i <= strategy_ids@.len(),
                self.strategies@ == old(self).strategies@,
                self.trades@ == old(self).trades@,
                self.portfolio_cache@ == old(self).portfolio_cache@,
                count == strategy_ids@.take(i as int).filter(
                    |id: u128| has_strategy_id(old(self).strategies@, id),
                ).len(),
                count <= i,
                self.sessions@.len() == old(self).sessions@.len() + count,
                self.next_id as int + strategy_ids@.len() - i <= u128::MAX,
                0 <= initial_capital <= MONEY_MAX,
                time_ok(now as int),
            decreases strategy_ids@.len() - i,
        {
            proof {
                crate::seqs::lemma_take_push(strategy_ids@, i as int);
                crate::seqs::lemma_filter_push(
                    strategy_ids@.take(i as int),
                    strategy_ids@[i as int],
                    |id: u128| has_strategy_id(old(self).strategies@, id),
                );
            }
            let r = self.start_session(strategy_ids[i], initial_capital, execution_mode, now);
            if r.is_ok() {
                count = count + 1;
            }
            i = i + 1;
        }
        proof {
            assert(strategy_ids@.take(strategy_ids@.len() as int) =~= strategy_ids@);
        }
        count
    }
}

} // verus!
