use vstd::prelude::*;

verus! {

// Money, prices and equity are fixed-point integers counted in micro-units:
// `MONEY_UNIT` micro-units stand for one unit of the account currency. All
// engine arithmetic is exact integer arithmetic over this representation.
pub const MONEY_UNIT: i64 = 1_000_000;

// Every monetary amount the engine handles stays within this bound, so that
// sums and products of bounded length fit the machine integers they use.
pub const MONEY_MAX: i64 = 1_000_000_000_000;

// Timestamps are milliseconds since the Unix epoch, bounded well below
// overflow territory.
pub const TIME_MAX: i64 = 4_102_444_800_000;

// A session row is rewritten by a mark-to-market pass at most once per this
// many milliseconds, unless a final bar forces the write.
pub const MTM_MIN_INTERVAL_MS: i64 = 500;

// An equity snapshot is appended for a session at most once per this many
// milliseconds, unless a trade or a final bar forces one.
pub const SNAPSHOT_COOLDOWN_MS: i64 = 1_000;

// A mark-to-market move of at most this many micro-units counts as noise and
// is not persisted on its own.
pub const EQUITY_EPSILON: i64 = 1;

pub open spec fn money_ok(v: int) -> bool {
    -MONEY_MAX <= v <= MONEY_MAX
}

pub open spec fn price_ok(p: int) -> bool {
    0 < p <= MONEY_MAX
}

pub open spec fn time_ok(t: int) -> bool {
    0 <= t <= TIME_MAX
}

/// Signed target exposure of a paper-trading session: short, flat, or long.
///
/// The engine encodes sizing purely through this three-valued direction;
/// trade quantity is always zero and notional is tracked through equity.
#[derive(Clone, Copy, PartialEq, Eq, Structural, Debug)]
pub enum Signal {
    Short,
    Flat,
    Long,
}

impl Signal {
    /// The direction as the integer -1, 0, or +1.
    pub open spec fn sign(self) -> int {
        match self {
            Signal::Short => -1,
            Signal::Flat => 0,
            Signal::Long => 1,
        }
    }

    pub fn is_flat(self) -> (r: bool)
        ensures
            r == (self.sign() == 0),
    {
        matches!(self, Signal::Flat)
    }
}

/// Side of an executed paper trade.
#[derive(Clone, Copy, PartialEq, Eq, Structural, Debug)]
pub enum Side {
    Buy,
    Sell,
}

#[derive(Clone, Copy, PartialEq, Eq, Structural, Debug)]
pub enum SessionStatus {
    Active,
    Stopped,
}

/// How the engine reacts to a signal that predates the session.
///
/// In `Sync` mode the latest signal is acted on as observed. In `Edge` mode a
/// flat session only acts on a freshly changed signal, never on a
/// pre-existing one.
#[derive(Clone, Copy, PartialEq, Eq, Structural, Debug)]
pub enum ExecutionMode {
    Sync,
    Edge,
}

/// A running paper-trade instance of one strategy.
pub struct Session {
    pub id: u128,
    pub strategy_id: u128,
    pub symbol: String,
    pub interval: String,
    pub initial_capital: i64,
    pub current_equity: i64,
    /// Equity basis at entry of the current position; set iff a position is open.
    pub entry_equity: Option<i64>,
    pub current_position: Signal,
    /// Price at entry of the current position; set iff a position is open.
    pub entry_price: Option<i64>,
    pub status: SessionStatus,
    pub execution_mode: ExecutionMode,
    pub created_at: i64,
    pub last_update: i64,
}

impl Session {
    /// A position is open exactly when both entry fields are set, entry
    /// prices are positive, and every amount and timestamp is in range.
    pub open spec fn wf(self) -> bool {
        &&& (self.current_position.sign() != 0) <==> self.entry_price is Some
        &&& (self.current_position.sign() != 0) <==> self.entry_equity is Some
        &&& self.entry_price is Some ==> price_ok(self.entry_price->Some_0 as int)
        &&& self.entry_equity is Some ==> money_ok(self.entry_equity->Some_0 as int)
        &&& money_ok(self.current_equity as int)
        &&& 0 <= self.initial_capital <= MONEY_MAX
        &&& time_ok(self.created_at as int)
        &&& time_ok(self.last_update as int)
    }
}

impl Clone for Session {
    fn clone(&self) -> (res: Self)
        ensures
            res == self,
    {
        Session {
            id: self.id,
            strategy_id: self.strategy_id,
            symbol: self.symbol.clone(),
            interval: self.interval.clone(),
            initial_capital: self.initial_capital,
            current_equity: self.current_equity,
            entry_equity: self.entry_equity,
            current_position: self.current_position,
            entry_price: self.entry_price,
            status: self.status,
            execution_mode: self.execution_mode,
            created_at: self.created_at,
            last_update: self.last_update,
        }
    }
}

/// Append-only audit record of one leg of a paper trade.
pub struct Trade {
    pub session_id: u128,
    pub symbol: String,
    pub side: Side,
    pub price: i64,
    /// Always zero: sizing is carried by the session's position, not here.
    pub quantity: i64,
    /// Realized profit of a closing leg; zero on an opening leg.
    pub pnl: Option<i64>,
    /// Human-readable explanation handed down from the strategy.
    pub reason: String,
    pub timestamp: i64,
}

impl Clone for Trade {
    fn clone(&self) -> (res: Self)
        ensures
            res == self,
    {
        Trade {
            session_id: self.session_id,
            symbol: self.symbol.clone(),
            side: self.side,
            price: self.price,
            quantity: self.quantity,
            pnl: self.pnl,
            reason: self.reason.clone(),
            timestamp: self.timestamp,
        }
    }
}

/// Append-only point of a per-session equity time series.
#[derive(Clone, Copy, PartialEq, Eq, Structural, Debug)]
pub struct EquitySnapshot {
    pub session_id: u128,
    pub equity: i64,
    pub timestamp: i64,
}

/// One minute of the derived portfolio-wide equity timeline.
#[derive(Clone, Copy, PartialEq, Eq, Structural, Debug)]
pub struct CachePoint {
    pub timestamp: i64,
    pub total_equity: i64,
}

/// The error kinds the platform distinguishes.
pub enum AppError {
    Database(String),
    MarketApi(String),
    Strategy(String),
    Data(String),
    NotFound(String),
}

impl AppError {
    /// HTTP status the collaborator layer maps this error to.
    pub fn status_code(&self) -> (code: u16)
        ensures
            code == (if self is NotFound {
                404int
            } else {
                500int
            }),
    {
        match self {
            AppError::NotFound(_) => 404,
            _ => 500,
        }
    }
}

/// Static configuration of the platform, read from the environment by the
/// collaborator layer.
pub struct Config {
    pub database_url: String,
    pub server_addr: String,
    pub binance_api_key: Option<String>,
    pub binance_secret_key: Option<String>,
}

} // verus!
