use vstd::prelude::*;

use crate::model::{CachePoint, EquitySnapshot, MONEY_MAX, TIME_MAX};
use crate::model::{money_ok, time_ok};
use crate::seqs::{lemma_filter_all_false, lemma_filter_all_true};

verus! {

/// One minute, in milliseconds: the resolution of the portfolio timeline.
pub const MINUTE_MS: i64 = 60_000;

/// The aggregator refuses snapshot sets beyond this size, so that every
/// partial equity total provably fits a machine integer.
pub const MAX_AGGREGATED_SNAPSHOTS: usize = 4_000_000;

// ---------------------------------------------------------------------------
// Minute grid
// ---------------------------------------------------------------------------

/// A timestamp truncated down to its minute.
pub open spec fn minute_floor_spec(ts: int) -> int {
    ts - ts % (MINUTE_MS as int)
}

pub fn minute_floor(ts: i64) -> (r: i64)
    requires
        time_ok(ts as int),
    ensures
        r as int == minute_floor_spec(ts as int),
        0 <= r <= ts,
{
    let t = ts as u64;
    let m = t % 60_000;
    (t - m) as i64
}

// ---------------------------------------------------------------------------
// The forward-fill state: latest equity per session
// ---------------------------------------------------------------------------

/// Updates the first entry with the key, or appends one: the forward-fill
/// state keyed by session, in first-seen order.
pub open spec fn upsert_spec(m: Seq<(u128, i64)>, key: u128, val: i64) -> Seq<(u128, i64)>
    decreases m.len(),
{
    if m.len() == 0 {
        seq![(key, val)]
    } else if m[0].0 == key {
        seq![(key, val)] + m.drop_first()
    } else {
        seq![m[0]] + upsert_spec(m.drop_first(), key, val)
    }
}

/// The forward-fill state after consuming the snapshots in order: each
/// session maps to its latest consumed equity.
pub open spec fn fills(snaps: Seq<EquitySnapshot>) -> Seq<(u128, i64)>
    decreases snaps.len(),
{
    if snaps.len() == 0 {
        Seq::<(u128, i64)>::empty()
    } else {
        upsert_spec(fills(snaps.drop_last()), snaps.last().session_id, snaps.last().equity)
    }
}

/// The portfolio-wide total: the sum of every session's filled equity.
pub open spec fn entries_total(m: Seq<(u128, i64)>) -> int
    decreases m.len(),
{
    if m.len() == 0 {
        0
    } else {
        entries_total(m.drop_last()) + m.last().1
    }
}

pub proof fn lemma_upsert_len(m: Seq<(u128, i64)>, key: u128, val: i64)
    ensures
        m.len() <= upsert_spec(m, key, val).len() <= m.len() + 1,
    decreases m.len(),
{
    if m.len() != 0 && m[0].0 != key {
        lemma_upsert_len(m.drop_first(), key, val);
    }
}

pub proof fn lemma_upsert_bounded(m: Seq<(u128, i64)>, key: u128, val: i64)
    requires
        forall|j: int| 0 <= j < m.len() ==> money_ok((#[trigger] m[j]).1 as int),
        money_ok(val as int),
    ensures
        forall|j: int|
            0 <= j < upsert_spec(m, key, val).len() ==> money_ok(
                (#[trigger] upsert_spec(m, key, val)[j]).1 as int,
            ),
    decreases m.len(),
{
    if m.len() == 0 {
        assert forall|j: int|
            0 <= j < upsert_spec(m, key, val).len() implies money_ok(
            (#[trigger] upsert_spec(m, key, val)[j]).1 as int,
        ) by {
            assert(upsert_spec(m, key, val)[j] == (key, val));
        }
    } else if m[0].0 == key {
        assert forall|j: int|
            0 <= j < upsert_spec(m, key, val).len() implies money_ok(
            (#[trigger] upsert_spec(m, key, val)[j]).1 as int,
        ) by {
            if j > 0 {
                assert(upsert_spec(m, key, val)[j] == m[j]);
            }
        }
    } else {
        assert(forall|j: int|
            0 <= j < m.drop_first().len() ==> money_ok((#[trigger] m.drop_first()[j]).1 as int));
        lemma_upsert_bounded(m.drop_first(), key, val);
        assert forall|j: int|
            0 <= j < upsert_spec(m, key, val).len() implies money_ok(
            (#[trigger] upsert_spec(m, key, val)[j]).1 as int,
        ) by {
            if j > 0 {
                assert(upsert_spec(m, key, val)[j] == upsert_spec(m.drop_first(), key, val)[j
                    - 1]);
            }
        }
    }
}

/// Replaces the first matching entry in place, or appends one.
fn upsert(m: &mut Vec<(u128, i64)>, key: u128, val: i64)
    ensures
        final(m)@ == upsert_spec(old(m)@, key, val),
{
    let ghost orig = m@;
    let mut i: usize = 0;
    while i < m.len()
        invariant
            orig == old(m)@,
            m@ == orig,
            i <= orig.len(),
            forall|j: int| 0 <= j < i ==> (#[trigger] orig[j]).0 != key,
        decreases orig.len() - i,
    {
        if m[i].0 == key {
            let _replaced = m.remove(i);
            m.insert(i, (key, val));
            proof {
                lemma_upsert_at(orig, key, val, i as int);
                assert(m@ == orig.remove(i as int).insert(i as int, (key, val)));
                assert(m@ == upsert_spec(orig, key, val));
            }
            return ;
        }
        i = i + 1;
    }
    m.push((key, val));
    proof {
        lemma_upsert_missing(orig, key, val);
    }
}

/// When the key first occurs at `i`, the upsert is an in-place update there.
proof fn lemma_upsert_at(m: Seq<(u128, i64)>, key: u128, val: i64, i: int)
    requires
        0 <= i < m.len(),
        m[i].0 == key,
        forall|j: int| 0 <= j < i ==> (#[trigger] m[j]).0 != key,
    ensures
        upsert_spec(m, key, val) == m.remove(i).insert(i, (key, val)),
    decreases m.len(),
{
    if i == 0 {
        assert(upsert_spec(m, key, val) =~= m.remove(0).insert(0, (key, val)));
    } else {
        assert(forall|j: int|
            0 <= j < i - 1 ==> (#[trigger] m.drop_first()[j]).0 != key);
        lemma_upsert_at(m.drop_first(), key, val, i - 1);
        assert(upsert_spec(m, key, val) =~= m.remove(i).insert(i, (key, val)));
    }
}

/// When the key is absent, the upsert is an append.
proof fn lemma_upsert_missing(m: Seq<(u128, i64)>, key: u128, val: i64)
    requires
        forall|j: int| 0 <= j < m.len() ==> (#[trigger] m[j]).0 != key,
    ensures
        upsert_spec(m, key, val) == m.push((key, val)),
    decreases m.len(),
{
    if m.len() != 0 {
        assert(forall|j: int|
            0 <= j < m.drop_first().len() ==> (#[trigger] m.drop_first()[j]).0 != key);
        lemma_upsert_missing(m.drop_first(), key, val);
        assert(upsert_spec(m, key, val) =~= m.push((key, val)));
    } else {
        assert(upsert_spec(m, key, val) =~= m.push((key, val)));
    }
}

/// Sums the filled equities, staying within machine bounds.
fn entries_sum(m: &Vec<(u128, i64)>) -> (total: i64)
    requires
        m@.len() <= MAX_AGGREGATED_SNAPSHOTS,
        forall|j: int| 0 <= j < m@.len() ==> money_ok((#[trigger] m@[j]).1 as int),
    ensures
        total as int == entries_total(m@),
{
    let mut total: i64 = 0;
    let mut i: usize = 0;
    while i < m.len()
        invariant
            i <= m@.len(),
            m@.len() <= MAX_AGGREGATED_SNAPSHOTS,
            forall|j: int| 0 <= j < m@.len() ==> money_ok((#[trigger] m@[j]).1 as int),
            total as int == entries_total(m@.take(i as int)),
            -(i as int) * (MONEY_MAX as int) <= total as int <= (i as int) * (MONEY_MAX as int),
        decreases m@.len() - i,
    {
        proof {
            assert(m@.take(i as int + 1).drop_last() =~= m@.take(i as int));
            assert(m@.take(i as int + 1).last() == m@[i as int]);
            assert(((i + 1) as int) * (MONEY_MAX as int) == (i as int) * (MONEY_MAX as int)
                + MONEY_MAX) by (nonlinear_arith);
        }
        total = total + m[i].1;
        i = i + 1;
    }
    proof {
        assert(m@.take(m@.len() as int) =~= m@);
    }
    total
}

} // verus!

verus! {

// ---------------------------------------------------------------------------
// The minute walk
// ---------------------------------------------------------------------------

/// The snapshots consumed by minute `t`: those taken at or before it.
pub open spec fn snaps_le(snaps: Seq<EquitySnapshot>, t: int) -> Seq<EquitySnapshot> {
    snaps.filter(|s: EquitySnapshot| s.timestamp as int <= t)
}

/// The portfolio total at minute `t`: every session's latest equity at or
/// before `t`, forward-filled, summed.
pub open spec fn total_at(snaps: Seq<EquitySnapshot>, t: int) -> int {
    entries_total(fills(snaps_le(snaps, t)))
}

/// The cache rows from minute `curr` through `end`: one row per minute whose
/// forward-filled total is positive.
pub open spec fn cache_points_spec(snaps: Seq<EquitySnapshot>, curr: int, end: int) -> Seq<
    CachePoint,
>
    decreases vstd::math::max(0, end + (MINUTE_MS as int) - curr),
{
    if curr > end {
        Seq::<CachePoint>::empty()
    } else {
        let total = total_at(snaps, curr);
        let rest = cache_points_spec(snaps, curr + MINUTE_MS, end);
        if total > 0 {
            seq![CachePoint { timestamp: curr as i64, total_equity: total as i64 }] + rest
        } else {
            rest
        }
    }
}

/// The whole portfolio timeline: from the first snapshot's minute through
/// `end`, or nothing when no snapshot exists.
pub open spec fn portfolio_cache_spec(snaps: Seq<EquitySnapshot>, end: int) -> Seq<CachePoint> {
    if snaps.len() == 0 {
        Seq::<CachePoint>::empty()
    } else {
        cache_points_spec(snaps, minute_floor_spec(snaps[0].timestamp as int), end)
    }
}

/// Cache rows are strictly increasing, minute by minute.
pub proof fn lemma_cache_points_increasing(snaps: Seq<EquitySnapshot>, curr: int, end: int)
    requires
        0 <= curr,
        end <= TIME_MAX,
    ensures
        forall|i: int|
            0 <= i < cache_points_spec(snaps, curr, end).len() ==> (#[trigger] cache_points_spec(
                snaps,
                curr,
                end,
            )[i]).timestamp as int >= curr,
        forall|i: int, j: int|
            0 <= i < j < cache_points_spec(snaps, curr, end).len() ==> cache_points_spec(
                snaps,
                curr,
                end,
            )[i].timestamp + MINUTE_MS <= cache_points_spec(snaps, curr, end)[j].timestamp,
    decreases vstd::math::max(0, end + (MINUTE_MS as int) - curr),
{
    if curr <= end {
        lemma_cache_points_increasing(snaps, curr + MINUTE_MS, end);
        let res = cache_points_spec(snaps, curr, end);
        let rest = cache_points_spec(snaps, curr + MINUTE_MS, end);
        let total = total_at(snaps, curr);
        if total > 0 {
            assert(res[0].timestamp as int == curr);
            assert(forall|i: int| 0 <= i < rest.len() ==> res[i + 1] == rest[i]);
        }
    }
}

/// Builds the dense minute-resolution portfolio timeline from the per-session
/// snapshots, ordered by time: a merge of the snapshot stream into a
/// forward-filled per-session equity state, summed at every minute.
///
/// The result is exactly `portfolio_cache_spec`, and its rows are strictly
/// increasing in timestamp, one minute or more apart.
pub fn build_cache_points(snaps: &Vec<EquitySnapshot>, end_time: i64) -> (points: Vec<CachePoint>)
    requires
        forall|i: int, j: int|
            0 <= i <= j < snaps@.len() ==> (#[trigger] snaps@[i]).timestamp <= (
            #[trigger] snaps@[j]).timestamp,
        forall|i: int| 0 <= i < snaps@.len() ==> time_ok((#[trigger] snaps@[i]).timestamp as int),
        forall|i: int| 0 <= i < snaps@.len() ==> money_ok((#[trigger] snaps@[i]).equity as int),
        snaps@.len() <= MAX_AGGREGATED_SNAPSHOTS,
        time_ok(end_time as int),
    ensures
        points@ == portfolio_cache_spec(snaps@, end_time as int),
        forall|i: int, j: int|
            0 <= i < j < points@.len() ==> points@[i].timestamp + MINUTE_MS <= points@[j].timestamp,
{
    let ghost sv = snaps@;
    let mut points: Vec<CachePoint> = Vec::new();
    if snaps.len() == 0 {
        return points;
    }
    let start = minute_floor(snaps[0].timestamp);
    let mut fill: Vec<(u128, i64)> = Vec::new();
    let mut idx: usize = 0;
    let mut curr: i64 = start;
    while curr <= end_time
        invariant
            sv == snaps@,
            forall|i: int, j: int|
                0 <= i <= j < sv.len() ==> (#[trigger] sv[i]).timestamp <= (
                #[trigger] sv[j]).timestamp,
            forall|i: int| 0 <= i < sv.len() ==> time_ok((#[trigger] sv[i]).timestamp as int),
            forall|i: int| 0 <= i < sv.len() ==> money_ok((#[trigger] sv[i]).equity as int),
            sv.len() <= MAX_AGGREGATED_SNAPSHOTS,
            time_ok(end_time as int),
            sv.len() > 0,
            start as int == minute_floor_spec(sv[0].timestamp as int),
            0 <= start <= curr,
            idx <= sv.len(),
            fill@ == fills(sv.take(idx as int)),
            fill@.len() <= idx,
            forall|j: int| 0 <= j < fill@.len() ==> money_ok((#[trigger] fill@[j]).1 as int),
            forall|j: int| 0 <= j < idx ==> (#[trigger] sv[j]).timestamp <= curr,
            cache_points_spec(sv, start as int, end_time as int) == points@ + cache_points_spec(
                sv,
                curr as int,
                end_time as int,
            ),
        decreases end_time + MINUTE_MS - curr,
    {
        while idx < snaps.len() && snaps[idx].timestamp <= curr
            invariant
                sv == snaps@,
                forall|i: int| 0 <= i < sv.len() ==> money_ok((#[trigger] sv[i]).equity as int),
                sv.len() <= MAX_AGGREGATED_SNAPSHOTS,
                idx <= sv.len(),
                fill@ == fills(sv.take(idx as int)),
                fill@.len() <= idx,
                forall|j: int| 0 <= j < fill@.len() ==> money_ok((#[trigger] fill@[j]).1 as int),
                forall|j: int| 0 <= j < idx ==> (#[trigger] sv[j]).timestamp <= curr,
            decreases sv.len() - idx,
        {
            let s = snaps[idx];
            let ghost prev_fill = fill@;
            proof {
                lemma_upsert_len(prev_fill, s.session_id, s.equity);
                lemma_upsert_bounded(prev_fill, s.session_id, s.equity);
            }
            upsert(&mut fill, s.session_id, s.equity);
            idx = idx + 1;
            proof {
                assert(sv.take(idx as int).drop_last() =~= sv.take(idx as int - 1));
                assert(sv.take(idx as int).last() == sv[idx as int - 1]);
            }
        }
        proof {
            let pred = |s: EquitySnapshot| s.timestamp as int <= curr as int;
            assert(sv =~= sv.take(idx as int) + sv.skip(idx as int));
            assert(forall|j: int|
                0 <= j < sv.take(idx as int).len() ==> pred(#[trigger] sv.take(idx as int)[j]));
            lemma_filter_all_true(sv.take(idx as int), pred);
            assert(forall|j: int|
                0 <= j < sv.skip(idx as int).len() ==> !pred(#[trigger] sv.skip(idx as int)[j]));
            lemma_filter_all_false(sv.skip(idx as int), pred);
            Seq::<EquitySnapshot>::filter_distributes_over_add(
                sv.take(idx as int),
                sv.skip(idx as int),
                pred,
            );
            assert(snaps_le(sv, curr as int) == sv.take(idx as int));
        }
        let total = entries_sum(&fill);
        assert(total as int == total_at(sv, curr as int));
        let ghost prev_points = points@;
        if total > 0 {
            points.push(CachePoint { timestamp: curr, total_equity: total });
        }
        proof {
            let whole = cache_points_spec(sv, curr as int, end_time as int);
            let rest = cache_points_spec(sv, curr as int + MINUTE_MS, end_time as int);
            if total > 0 {
                assert(whole =~= seq![
                    CachePoint { timestamp: curr, total_equity: total },
                ] + rest);
                assert(prev_points + whole =~= points@ + rest);
            } else {
                assert(prev_points + whole =~= points@ + rest);
            }
        }
        curr = curr + MINUTE_MS;
    }
    proof {
        assert(cache_points_spec(sv, curr as int, end_time as int) =~= Seq::<CachePoint>::empty());
        assert(points@ =~= points@ + Seq::<CachePoint>::empty());
        lemma_cache_points_increasing(sv, start as int, end_time as int);
    }
    points
}

} // verus!

verus! {

// ---------------------------------------------------------------------------
// History read parameters
// ---------------------------------------------------------------------------

/// How a dashboard wants the portfolio timeline drawn.
#[derive(Clone, Copy, PartialEq, Eq, Structural, Debug)]
pub enum HistoryStyle {
    Line,
    Candle,
}

/// The bucket width each interval name stands for, in seconds; unknown names
/// fall back to a quarter hour.
pub open spec fn interval_step_spec(s: Seq<char>) -> u32 {
    if s == "1m"@ {
        60u32
    } else if s == "3m"@ {
        180u32
    } else if s == "5m"@ {
        300u32
    } else if s == "15m"@ {
        900u32
    } else if s == "30m"@ {
        1800u32
    } else if s == "1h"@ {
        3600u32
    } else if s == "4h"@ {
        14400u32
    } else if s == "12h"@ {
        43200u32
    } else if s == "1d"@ {
        86400u32
    } else {
        900u32
    }
}

pub fn interval_step_seconds(interval: &str) -> (r: u32)
    ensures
        r == interval_step_spec(interval@),
{
    if crate::text::str_eq(interval, "1m") {
        60
    } else if crate::text::str_eq(interval, "3m") {
        180
    } else if crate::text::str_eq(interval, "5m") {
        300
    } else if crate::text::str_eq(interval, "15m") {
        900
    } else if crate::text::str_eq(interval, "30m") {
        1800
    } else if crate::text::str_eq(interval, "1h") {
        3600
    } else if crate::text::str_eq(interval, "4h") {
        14400
    } else if crate::text::str_eq(interval, "12h") {
        43200
    } else if crate::text::str_eq(interval, "1d") {
        86400
    } else {
        900
    }
}

/// The range a history read covers: the requested day count, at least one
/// day, seven by default.
pub fn resolve_range_days(range_days: Option<i64>) -> (d: i64)
    ensures
        d == vstd::math::max(
            1,
            match range_days {
                Option::Some(v) => v as int,
                Option::None => 7,
            },
        ),
{
    let v = match range_days {
        Option::Some(v) => v,
        Option::None => 7,
    };
    if v < 1 {
        1
    } else {
        v
    }
}

/// The drawing style a request names; anything but "candle" draws a line.
pub open spec fn history_style_spec(s: Seq<char>) -> HistoryStyle {
    if s == "candle"@ {
        HistoryStyle::Candle
    } else {
        HistoryStyle::Line
    }
}

pub fn parse_history_style(style: Option<&str>) -> (r: HistoryStyle)
    ensures
        r == match style {
            Option::Some(s) => history_style_spec(s@),
            Option::None => HistoryStyle::Line,
        },
{
    match style {
        Option::Some(s) => {
            if crate::text::str_eq(s, "candle") {
                HistoryStyle::Candle
            } else {
                HistoryStyle::Line
            }
        },
        Option::None => HistoryStyle::Line,
    }
}

} // verus!

verus! {

// ---------------------------------------------------------------------------
// What the forward-fill state means
// ---------------------------------------------------------------------------

/// The equity a forward-fill state records for one session, if any.
pub open spec fn lookup(m: Seq<(u128, i64)>, key: u128) -> Option<i64>
    decreases m.len(),
{
    if m.len() == 0 {
        Option::None
    } else if m[0].0 == key {
        Option::Some(m[0].1)
    } else {
        lookup(m.drop_first(), key)
    }
}

/// The equity of a session's latest snapshot in a consumed prefix, if any.
pub open spec fn last_equity_of(snaps: Seq<EquitySnapshot>, session_id: u128) -> Option<i64>
    decreases snaps.len(),
{
    if snaps.len() == 0 {
        Option::None
    } else if snaps.last().session_id == session_id {
        Option::Some(snaps.last().equity)
    } else {
        last_equity_of(snaps.drop_last(), session_id)
    }
}

proof fn lemma_lookup_upsert_hit(m: Seq<(u128, i64)>, key: u128, val: i64)
    ensures
        lookup(upsert_spec(m, key, val), key) == Option::Some(val),
    decreases m.len(),
{
    if m.len() != 0 && m[0].0 != key {
        lemma_lookup_upsert_hit(m.drop_first(), key, val);
        assert(upsert_spec(m, key, val).drop_first() =~= upsert_spec(m.drop_first(), key, val));
    }
}

proof fn lemma_lookup_upsert_miss(m: Seq<(u128, i64)>, key: u128, val: i64, other: u128)
    requires
        other != key,
    ensures
        lookup(upsert_spec(m, key, val), other) == lookup(m, other),
    decreases m.len(),
{
    reveal_with_fuel(lookup, 3);
    if m.len() == 0 {
        assert(upsert_spec(m, key, val)[0] == (key, val));
        assert(upsert_spec(m, key, val).drop_first() =~= Seq::<(u128, i64)>::empty());
        assert(lookup(upsert_spec(m, key, val), other) == lookup(m, other));
    } else if m[0].0 == key {
        assert(upsert_spec(m, key, val)[0] == (key, val));
        assert(upsert_spec(m, key, val).drop_first() =~= m.drop_first());
        assert(lookup(upsert_spec(m, key, val), other) == lookup(m, other));
    } else {
        lemma_lookup_upsert_miss(m.drop_first(), key, val, other);
        assert(upsert_spec(m, key, val)[0] == m[0]);
        assert(upsert_spec(m, key, val).drop_first() =~= upsert_spec(m.drop_first(), key, val));
        assert(lookup(upsert_spec(m, key, val), other) == lookup(m, other));
    }
}

/// Consuming snapshots in order leaves each session mapped to exactly the
/// equity of its latest consumed snapshot: the forward-fill law.
pub proof fn lemma_fills_are_latest_equities(snaps: Seq<EquitySnapshot>, session_id: u128)
    ensures
        lookup(fills(snaps), session_id) == last_equity_of(snaps, session_id),
    decreases snaps.len(),
{
    if snaps.len() != 0 {
        lemma_fills_are_latest_equities(snaps.drop_last(), session_id);
        let rest = fills(snaps.drop_last());
        if snaps.last().session_id == session_id {
            lemma_lookup_upsert_hit(rest, session_id, snaps.last().equity);
        } else {
            lemma_lookup_upsert_miss(
                rest,
                snaps.last().session_id,
                snaps.last().equity,
                session_id,
            );
        }
    }
}

} // verus!
