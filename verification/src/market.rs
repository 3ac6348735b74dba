use vstd::prelude::*;

verus! {

/// Backoff after an engine cycle ends on purpose, in milliseconds.
pub const STOP_BACKOFF_MS: u64 = 2_000;

/// Backoff after an engine cycle ends on an error, in milliseconds.
pub const ERROR_BACKOFF_MS: u64 = 3_000;

/// Wait between polls while no session is active, in milliseconds.
pub const IDLE_SLEEP_MS: u64 = 5_000;

/// Period of the subscription-refresh tick, in milliseconds.
pub const REFRESH_INTERVAL_MS: u64 = 30_000;

/// The cooperative stop flag of one live market stream: the reader exits
/// after the current event once the flag is cleared.
pub struct MarketStream {
    keep_running: bool,
}

impl MarketStream {
    /// A fresh stream runs until told otherwise.
    pub fn new() -> (s: Self)
        ensures
            s.running(),
    {
        MarketStream { keep_running: true }
    }

    pub closed spec fn running(self) -> bool {
        self.keep_running
    }

    /// Asks the reader to exit after the event it is handling.
    pub fn stop(&mut self)
        ensures
            !final(self).running(),
    {
        self.keep_running = false;
    }

    pub fn is_running(&self) -> (r: bool)
        ensures
            r == self.running(),
    {
        self.keep_running
    }
}

/// How long the supervisor backs off before restarting a cycle: a little
/// longer after an error than after an intentional stop.
pub fn restart_backoff_ms(errored: bool) -> (ms: u64)
    ensures
        ms == if errored {
            ERROR_BACKOFF_MS
        } else {
            STOP_BACKOFF_MS
        },
{
    if errored {
        ERROR_BACKOFF_MS
    } else {
        STOP_BACKOFF_MS
    }
}

/// The set of symbols a list subscribes, ignoring order and duplicates.
pub open spec fn symbol_set(v: Seq<String>) -> Set<Seq<char>> {
    v.map_values(|s: String| s@).to_set()
}

/// Whether a symbol list already names a symbol.
pub fn contains_symbol(v: &Vec<String>, s: &String) -> (r: bool)
    ensures
        r == symbol_set(v@).contains(s@),
{
    let mut i: usize = 0;
    while i < v.len()
        invariant
            i <= v@.len(),
            forall|j: int| 0 <= j < i ==> (#[trigger] v@[j])@ != s@,
        decreases v@.len() - i,
    {
        if v[i].eq(s) {
            assert(v@.map_values(|x: String| x@)[i as int] == s@);
            assert(v@.map_values(|x: String| x@).contains(s@));
            return true;
        }
        i = i + 1;
    }
    proof {
        let ms = v@.map_values(|y: String| y@);
        if ms.contains(s@) {
            let j = choose|j: int| 0 <= j < ms.len() && #[trigger] ms[j] == s@;
            assert(v@[j]@ == s@);
        }
    }
    false
}

/// The active subscription set changed exactly when the two lists name
/// different symbol sets.
pub fn subscriptions_changed(current: &Vec<String>, refreshed: &Vec<String>) -> (r: bool)
    ensures
        r == (symbol_set(current@) != symbol_set(refreshed@)),
{
    let mut i: usize = 0;
    while i < current.len()
        invariant
            i <= current@.len(),
            forall|j: int|
                0 <= j < i ==> symbol_set(refreshed@).contains((#[trigger] current@[j])@),
        decreases current@.len() - i,
    {
        if !contains_symbol(refreshed, &current[i]) {
            proof {
                assert(current@.map_values(|y: String| y@)[i as int] == current@[i as int]@);
                assert(symbol_set(current@).contains(current@[i as int]@));
            }
            return true;
        }
        i = i + 1;
    }
    let mut k: usize = 0;
    while k < refreshed.len()
        invariant
            forall|j: int|
                0 <= j < current@.len() ==> symbol_set(refreshed@).contains(
                    (#[trigger] current@[j])@,
                ),
            k <= refreshed@.len(),
            forall|j: int|
                0 <= j < k ==> symbol_set(current@).contains((#[trigger] refreshed@[j])@),
        decreases refreshed@.len() - k,
    {
        if !contains_symbol(current, &refreshed[k]) {
            proof {
                assert(refreshed@.map_values(|y: String| y@)[k as int] == refreshed@[k as int]@);
                assert(symbol_set(refreshed@).contains(refreshed@[k as int]@));
            }
            return true;
        }
        k = k + 1;
    }
    proof {
        assert forall|x: Seq<char>| symbol_set(current@).contains(x) implies symbol_set(
            refreshed@,
        ).contains(x) by {
            let ms = current@.map_values(|y: String| y@);
            let j = choose|j: int| 0 <= j < ms.len() && #[trigger] ms[j] == x;
            assert(current@[j]@ == x);
        }
        assert forall|x: Seq<char>| symbol_set(refreshed@).contains(x) implies symbol_set(
            current@,
        ).contains(x) by {
            let ms = refreshed@.map_values(|y: String| y@);
            let j = choose|j: int| 0 <= j < ms.len() && #[trigger] ms[j] == x;
            assert(refreshed@[j]@ == x);
        }
        assert(symbol_set(current@) =~= symbol_set(refreshed@));
    }
    false
}

} // verus!
