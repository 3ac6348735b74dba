use vstd::prelude::*;
use vstd::multiset::Multiset;

use crate::seqs::lemma_filter_push;
use crate::text::{join_spaced, str_eq};

verus! {

// ---------------------------------------------------------------------------
// The closed strategy catalogue
// ---------------------------------------------------------------------------

/// The closed set of strategy families the platform understands. The
/// discriminator travels as a string through storage and configuration.
#[derive(Clone, Copy, PartialEq, Eq, Structural, Debug)]
pub enum StrategyType {
    DynamicTrend,
    RsiMeanReversion,
    BollingerReversion,
    AtrBreakout,
    VolatilitySqueeze,
    MacdTrend,
    ObvTrend,
    PriceMomentum,
    AdaptiveMaCrossover,
}

/// The storage name of each strategy family.
pub open spec fn family_name(t: StrategyType) -> Seq<char> {
    match t {
        StrategyType::DynamicTrend => "DynamicTrend"@,
        StrategyType::RsiMeanReversion => "RsiMeanReversion"@,
        StrategyType::BollingerReversion => "BollingerReversion"@,
        StrategyType::AtrBreakout => "AtrBreakout"@,
        StrategyType::VolatilitySqueeze => "VolatilitySqueeze"@,
        StrategyType::MacdTrend => "MacdTrend"@,
        StrategyType::ObvTrend => "ObvTrend"@,
        StrategyType::PriceMomentum => "PriceMomentum"@,
        StrategyType::AdaptiveMaCrossover => "AdaptiveMaCrossover"@,
    }
}

/// The family a discriminator string names, if any.
pub open spec fn parse_type_spec(s: Seq<char>) -> Option<StrategyType> {
    if s == family_name(StrategyType::DynamicTrend) {
        Option::Some(StrategyType::DynamicTrend)
    } else if s == family_name(StrategyType::RsiMeanReversion) {
        Option::Some(StrategyType::RsiMeanReversion)
    } else if s == family_name(StrategyType::BollingerReversion) {
        Option::Some(StrategyType::BollingerReversion)
    } else if s == family_name(StrategyType::AtrBreakout) {
        Option::Some(StrategyType::AtrBreakout)
    } else if s == family_name(StrategyType::VolatilitySqueeze) {
        Option::Some(StrategyType::VolatilitySqueeze)
    } else if s == family_name(StrategyType::MacdTrend) {
        Option::Some(StrategyType::MacdTrend)
    } else if s == family_name(StrategyType::ObvTrend) {
        Option::Some(StrategyType::ObvTrend)
    } else if s == family_name(StrategyType::PriceMomentum) {
        Option::Some(StrategyType::PriceMomentum)
    } else if s == family_name(StrategyType::AdaptiveMaCrossover) {
        Option::Some(StrategyType::AdaptiveMaCrossover)
    } else {
        Option::None
    }
}

pub fn strategy_family_name(t: StrategyType) -> (r: &'static str)
    ensures
        r@ == family_name(t),
{
    match t {
        StrategyType::DynamicTrend => "DynamicTrend",
        StrategyType::RsiMeanReversion => "RsiMeanReversion",
        StrategyType::BollingerReversion => "BollingerReversion",
        StrategyType::AtrBreakout => "AtrBreakout",
        StrategyType::VolatilitySqueeze => "VolatilitySqueeze",
        StrategyType::MacdTrend => "MacdTrend",
        StrategyType::ObvTrend => "ObvTrend",
        StrategyType::PriceMomentum => "PriceMomentum",
        StrategyType::AdaptiveMaCrossover => "AdaptiveMaCrossover",
    }
}

/// Parses a storage discriminator back into the closed catalogue. An unknown
/// discriminator parses to nothing and its events are skipped, not failed.
pub fn parse_strategy_type(s: &str) -> (r: Option<StrategyType>)
    ensures
        r == parse_type_spec(s@),
{
    if str_eq(s, "DynamicTrend") {
        Option::Some(StrategyType::DynamicTrend)
    } else if str_eq(s, "RsiMeanReversion") {
        Option::Some(StrategyType::RsiMeanReversion)
    } else if str_eq(s, "BollingerReversion") {
        Option::Some(StrategyType::BollingerReversion)
    } else if str_eq(s, "AtrBreakout") {
        Option::Some(StrategyType::AtrBreakout)
    } else if str_eq(s, "VolatilitySqueeze") {
        Option::Some(StrategyType::VolatilitySqueeze)
    } else if str_eq(s, "MacdTrend") {
        Option::Some(StrategyType::MacdTrend)
    } else if str_eq(s, "ObvTrend") {
        Option::Some(StrategyType::ObvTrend)
    } else if str_eq(s, "PriceMomentum") {
        Option::Some(StrategyType::PriceMomentum)
    } else if str_eq(s, "AdaptiveMaCrossover") {
        Option::Some(StrategyType::AdaptiveMaCrossover)
    } else {
        Option::None
    }
}

// ---------------------------------------------------------------------------
// Backtest candidates
// ---------------------------------------------------------------------------

/// Metrics of one optimized backtest, in micro-units (percentages in
/// micro-percentage points).
pub struct BacktestSummary {
    pub sharpe: i64,
    pub total_return_pct: i64,
    pub max_drawdown_pct: i64,
    pub win_rate: i64,
    pub profit_factor: i64,
    pub kelly_fraction: i64,
    pub total_trades: u32,
    pub equity_curve: Vec<i64>,
}

/// One optimized strategy awaiting ranking: where it ran, what it is, its
/// serialized configuration, and how it performed.
pub struct Candidate {
    pub symbol: String,
    pub interval: String,
    pub strategy_name: String,
    pub strategy_type: StrategyType,
    /// Serialized configuration as the optimizer handed it over; opaque here.
    pub parameters: String,
    pub metrics: BacktestSummary,
}

/// A backtest earns a slot only with more than ten trades and a positive
/// total return.
pub open spec fn backtest_admitted(m: BacktestSummary) -> bool {
    m.total_trades > 10 && m.total_return_pct > 0
}

pub open spec fn candidate_admitted(c: Candidate) -> bool {
    backtest_admitted(c.metrics)
}

pub fn admit_backtest(m: &BacktestSummary) -> (r: bool)
    ensures
        r == backtest_admitted(*m),
{
    m.total_trades > 10 && m.total_return_pct > 0
}

/// Keeps exactly the candidates whose backtests earn a slot, in order.
pub fn filter_candidates(all: Vec<Candidate>) -> (kept: Vec<Candidate>)
    ensures
        kept@ == all@.filter(|c: Candidate| candidate_admitted(c)),
{
    let ghost original = all@;
    let mut rest = all;
    let mut kept: Vec<Candidate> = Vec::new();
    let ghost mut seen: Seq<Candidate> = Seq::empty();
    while rest.len() > 0
        invariant
            original == seen + rest@,
            kept@ == seen.filter(|c: Candidate| candidate_admitted(c)),
        decreases rest@.len(),
    {
        let c = rest.remove(0);
        proof {
            assert(seen.push(c) + rest@ =~= original);
            lemma_filter_push(seen, c, |x: Candidate| candidate_admitted(x));
        }
        if admit_backtest(&c.metrics) {
            kept.push(c);
        }
        proof {
            seen = seen.push(c);
        }
    }
    proof {
        assert(seen =~= original);
    }
    kept
}

// ---------------------------------------------------------------------------
// Curve downsampling
// ---------------------------------------------------------------------------

/// The sampling stride: every fiftieth share of the curve, at least one.
pub open spec fn downsample_stride(len: int) -> int {
    vstd::math::max(1, len / 50)
}

/// Every stride-th point of the curve from `i` on.
pub open spec fn sampled_from(c: Seq<i64>, i: int, stride: int) -> Seq<i64>
    decreases vstd::math::max(0, c.len() - i)
        when 0 <= i && stride >= 1
{
    if i >= c.len() {
        Seq::<i64>::empty()
    } else {
        seq![c[i]] + sampled_from(c, i + stride, stride)
    }
}

/// The persisted form of a backtest equity curve: every stride-th point, with
/// the final value appended when the stride would drop it.
pub open spec fn downsampled_curve(c: Seq<i64>) -> Seq<i64> {
    if c.len() == 0 {
        Seq::<i64>::empty()
    } else {
        let s = sampled_from(c, 0, downsample_stride(c.len() as int));
        if s.len() > 0 && s.last() == c.last() {
            s
        } else {
            s.push(c.last())
        }
    }
}

/// Downsamples a backtest equity curve for storage, always keeping the final
/// value.
pub fn downsample_curve(curve: &Vec<i64>) -> (out: Vec<i64>)
    ensures
        out@ == downsampled_curve(curve@),
        curve@.len() > 0 ==> out@.len() > 0 && out@.last() == curve@.last(),
{
    let mut out: Vec<i64> = Vec::new();
    if curve.len() == 0 {
        return out;
    }
    let stride: usize = {
        let s = curve.len() / 50;
        if s == 0 {
            1
        } else {
            s
        }
    };
    let mut i: usize = 0;
    while i < curve.len()
        invariant
            stride == downsample_stride(curve@.len() as int),
            stride >= 1,
            i <= curve@.len(),
            sampled_from(curve@, 0, stride as int) == out@ + sampled_from(
                curve@,
                i as int,
                stride as int,
            ),
        decreases curve@.len() - i,
    {
        let ghost prev_i = i as int;
        let ghost prev_out = out@;
        out.push(curve[i]);
        if curve.len() - i <= stride {
            i = curve.len();
        } else {
            i = i + stride;
        }
        proof {
            assert(sampled_from(curve@, prev_i, stride as int) == seq![curve@[prev_i]]
                + sampled_from(curve@, prev_i + stride, stride as int));
            if prev_i + stride >= curve@.len() {
                assert(sampled_from(curve@, prev_i + stride, stride as int) =~= Seq::<
                    i64,
                >::empty());
                assert(sampled_from(curve@, i as int, stride as int) =~= Seq::<i64>::empty());
            }
            assert(prev_out + sampled_from(curve@, prev_i, stride as int) =~= out@
                + sampled_from(curve@, i as int, stride as int));
        }
    }
    proof {
        assert(sampled_from(curve@, i as int, stride as int) =~= Seq::<i64>::empty());
        assert(out@ =~= out@ + Seq::<i64>::empty());
        assert(out@ == sampled_from(curve@, 0, stride as int));
        assert(sampled_from(curve@, 0, stride as int).len() > 0);
    }
    let last = curve[curve.len() - 1];
    if out[out.len() - 1] != last {
        out.push(last);
    }
    out
}

} // verus!

verus! {

// ---------------------------------------------------------------------------
// Ranking and selection
// ---------------------------------------------------------------------------

/// Descending order of Sharpe ratios.
pub open spec fn sharpe_order() -> spec_fn(i64, i64) -> bool {
    |a: i64, b: i64| a >= b
}

/// The Sharpe ratios of a candidate list, in list order.
pub open spec fn sharpes(s: Seq<Candidate>) -> Seq<i64> {
    s.map_values(|c: Candidate| c.metrics.sharpe)
}

/// The Sharpe ratios of a candidate list, best first.
pub open spec fn ranked_sharpes(s: Seq<Candidate>) -> Seq<i64> {
    sharpes(s).sort_by(sharpe_order())
}

pub proof fn lemma_sharpe_order_total()
    ensures
        vstd::relations::total_ordering(sharpe_order()),
{
    let r = sharpe_order();
    assert forall|x: i64| #[trigger] r(x, x) by {}
    assert forall|x: i64, y: i64| #[trigger] r(x, y) && #[trigger] r(y, x) implies x == y by {}
    assert forall|x: i64, y: i64, z: i64| #[trigger] r(x, y) && #[trigger] r(y, z) implies r(
        x,
        z,
    ) by {}
    assert forall|x: i64, y: i64| #[trigger] r(x, y) || #[trigger] r(y, x) by {}
}

/// Ranks candidates by Sharpe ratio, best first, and keeps the first
/// `top_n`: the kept Sharpe ratios are exactly the best-first prefix of the
/// whole candidate set's ranking.
pub fn select_top(cands: Vec<Candidate>, top_n: usize) -> (kept: Vec<Candidate>)
    ensures
        kept@.len() == vstd::math::min(top_n as int, cands@.len() as int),
        vstd::relations::sorted_by(sharpes(kept@), sharpe_order()),
        sharpes(kept@) == ranked_sharpes(cands@).take(kept@.len() as int),
        kept@.to_multiset().subset_of(cands@.to_multiset()),
        forall|i: int| 0 <= i < kept@.len() ==> cands@.contains(#[trigger] kept@[i]),
{
    broadcast use vstd::seq_lib::group_to_multiset_ensures;

    let ghost original = cands@;
    let mut rest = cands;
    let mut out: Vec<Candidate> = Vec::new();
    while rest.len() > 0
        invariant
            out@.to_multiset().add(rest@.to_multiset()) == original.to_multiset(),
            sharpes(out@).to_multiset().add(sharpes(rest@).to_multiset()) == sharpes(
                original,
            ).to_multiset(),
            vstd::relations::sorted_by(sharpes(out@), sharpe_order()),
            forall|i: int, j: int|
                0 <= i < out@.len() && 0 <= j < rest@.len() ==> out@[i].metrics.sharpe
                    >= rest@[j].metrics.sharpe,
        decreases rest@.len(),
    {
        broadcast use vstd::seq_lib::group_to_multiset_ensures;

        let mut best: usize = 0;
        let mut k: usize = 1;
        while k < rest.len()
            invariant
                rest@.len() > 0,
                best < k,
                k <= rest@.len(),
                forall|i: int|
                    0 <= i < k ==> rest@[best as int].metrics.sharpe
                        >= #[trigger] rest@[i].metrics.sharpe,
            decreases rest@.len() - k,
        {
            if rest[k].metrics.sharpe > rest[best].metrics.sharpe {
                best = k;
            }
            k = k + 1;
        }
        let ghost prev_rest = rest@;
        let ghost prev_out = out@;
        let c = rest.remove(best);
        out.push(c);
        proof {
            assert(sharpes(prev_out.push(c)) =~= sharpes(prev_out).push(c.metrics.sharpe));
            assert(sharpes(prev_rest.remove(best as int)) =~= sharpes(prev_rest).remove(
                best as int,
            ));
            assert(sharpes(prev_rest)[best as int] == c.metrics.sharpe);
            assert(out@.to_multiset().add(rest@.to_multiset()) =~= original.to_multiset());
            assert(sharpes(out@).to_multiset().add(sharpes(rest@).to_multiset()) =~= sharpes(
                original,
            ).to_multiset());
            assert forall|i: int, j: int|
                0 <= i < out@.len() && 0 <= j < rest@.len() implies out@[i].metrics.sharpe
                >= rest@[j].metrics.sharpe by {
                assert(rest@[j] == if j < best { prev_rest[j] } else { prev_rest[j + 1] });
            }
            assert forall|i: int, j: int|
                0 <= i < j < sharpes(out@).len() implies sharpe_order()(
                sharpes(out@)[i],
                sharpes(out@)[j],
            ) by {}
        }
    }
    proof {
        assert(rest@.to_multiset() =~= Multiset::<Candidate>::empty());
        assert(sharpes(rest@).to_multiset() =~= Multiset::<i64>::empty());
        assert(out@.to_multiset() =~= original.to_multiset());
        assert(sharpes(out@).to_multiset() =~= sharpes(original).to_multiset());
        lemma_sharpe_order_total();
        sharpes(original).lemma_sort_by_ensures(sharpe_order());
        vstd::seq_lib::lemma_sorted_unique(
            sharpes(out@),
            ranked_sharpes(original),
            sharpe_order(),
        );
        assert(sharpes(out@) == ranked_sharpes(original));
        assert(out@.len() == out@.to_multiset().len());
        assert(original.len() == original.to_multiset().len());
        assert(out@.len() == original.len());
    }
    let ghost full = out@;
    out.truncate(top_n);
    proof {
        broadcast use vstd::seq_lib::group_to_multiset_ensures;

        assert(out@ == full.take(out@.len() as int));
        assert(sharpes(out@) =~= ranked_sharpes(original).take(out@.len() as int));
        assert(full =~= full.take(out@.len() as int) + full.skip(out@.len() as int));
        vstd::seq_lib::lemma_multiset_commutative(
            full.take(out@.len() as int),
            full.skip(out@.len() as int),
        );
        assert(out@.to_multiset().subset_of(original.to_multiset())) by {
            broadcast use vstd::multiset::group_multiset_axioms;

            assert(full.to_multiset() == out@.to_multiset().add(
                full.skip(out@.len() as int).to_multiset(),
            ));
        }
        assert forall|i: int| 0 <= i < out@.len() implies original.contains(
            #[trigger] out@[i],
        ) by {
            assert(full.contains(full[i]));
            assert(full.to_multiset().count(full[i]) > 0);
        }
    }
    out
}

} // verus!

verus! {

// ---------------------------------------------------------------------------
// Persisted strategy rows
// ---------------------------------------------------------------------------

/// One strategy row ready to persist: named after its market and family,
/// carrying the serialized configuration, the headline metrics, and the
/// downsampled backtest curve.
pub struct NewStrategy {
    pub name: String,
    pub strategy_type: StrategyType,
    pub symbol: String,
    pub interval: String,
    pub parameters: String,
    pub sharpe: i64,
    pub total_return_pct: i64,
    pub max_drawdown_pct: i64,
    pub win_rate: i64,
    pub profit_factor: i64,
    pub total_trades: u32,
    pub backtest_curve: Vec<i64>,
    pub kelly_fraction: i64,
}

/// The row carries the candidate over unchanged: the name is the market, the
/// interval and the family name joined by spaces, the metrics are copied, and
/// the curve is downsampled.
pub open spec fn row_matches(r: NewStrategy, c: Candidate) -> bool {
    &&& r.name@ == c.symbol@ + " "@ + c.interval@ + " "@ + c.strategy_name@
    &&& r.strategy_type == c.strategy_type
    &&& r.symbol == c.symbol
    &&& r.interval == c.interval
    &&& r.parameters == c.parameters
    &&& r.sharpe == c.metrics.sharpe
    &&& r.total_return_pct == c.metrics.total_return_pct
    &&& r.max_drawdown_pct == c.metrics.max_drawdown_pct
    &&& r.win_rate == c.metrics.win_rate
    &&& r.profit_factor == c.metrics.profit_factor
    &&& r.total_trades == c.metrics.total_trades
    &&& r.backtest_curve@ == downsampled_curve(c.metrics.equity_curve@)
    &&& r.kelly_fraction == c.metrics.kelly_fraction
}

/// Turns ranked candidates into persistable rows, one for one, in order.
pub fn build_strategy_rows(kept: Vec<Candidate>) -> (rows: Vec<NewStrategy>)
    ensures
        rows@.len() == kept@.len(),
        forall|i: int| 0 <= i < kept@.len() ==> row_matches(#[trigger] rows@[i], kept@[i]),
{
    let ghost original = kept@;
    let mut rest = kept;
    let mut rows: Vec<NewStrategy> = Vec::new();
    while rest.len() > 0
        invariant
            original == original.take(rows@.len() as int) + rest@,
            rows@.len() + rest@.len() == original.len(),
            forall|i: int| 0 <= i < rows@.len() ==> row_matches(#[trigger] rows@[i], original[i]),
        decreases rest@.len(),
    {
        let ghost done = rows@.len() as int;
        let c = rest.remove(0);
        assert(c == original[done]);
        let name = join_spaced(c.symbol.as_str(), c.interval.as_str(), c.strategy_name.as_str());
        let curve = downsample_curve(&c.metrics.equity_curve);
        let row = NewStrategy {
            name,
            strategy_type: c.strategy_type,
            symbol: c.symbol,
            interval: c.interval,
            parameters: c.parameters,
            sharpe: c.metrics.sharpe,
            total_return_pct: c.metrics.total_return_pct,
            max_drawdown_pct: c.metrics.max_drawdown_pct,
            win_rate: c.metrics.win_rate,
            profit_factor: c.metrics.profit_factor,
            total_trades: c.metrics.total_trades,
            backtest_curve: curve,
            kelly_fraction: c.metrics.kelly_fraction,
        };
        rows.push(row);
        proof {
            assert(original =~= original.take(rows@.len() as int) + rest@);
        }
    }
    rows
}

/// Admission, ranking and row building in one pass: of all optimized
/// candidates, exactly the admitted ones compete, and exactly
/// `min(top_n, admitted)` rows come back, best Sharpe first.
pub fn plan_strategy_rows(all: Vec<Candidate>, top_n: usize) -> (rows: Vec<NewStrategy>)
    ensures
        rows@.len() == vstd::math::min(
            top_n as int,
            all@.filter(|c: Candidate| candidate_admitted(c)).len() as int,
        ),
        rows@.map_values(|r: NewStrategy| r.sharpe) == ranked_sharpes(
            all@.filter(|c: Candidate| candidate_admitted(c)),
        ).take(rows@.len() as int),
        forall|i: int, j: int|
            0 <= i < j < rows@.len() ==> rows@[i].sharpe >= rows@[j].sharpe,
{
    let kept = filter_candidates(all);
    let ranked = select_top(kept, top_n);
    let ghost ranked_view = ranked@;
    let rows = build_strategy_rows(ranked);
    proof {
        assert(rows@.map_values(|r: NewStrategy| r.sharpe) =~= sharpes(ranked_view));
        assert forall|i: int, j: int|
            0 <= i < j < rows@.len() implies rows@[i].sharpe >= rows@[j].sharpe by {
            assert(sharpe_order()(sharpes(ranked_view)[i], sharpes(ranked_view)[j]));
        }
    }
    rows
}

// ---------------------------------------------------------------------------
// Generation requests
// ---------------------------------------------------------------------------

/// A request to search the strategy matrix: which markets and intervals to
/// scan, how many winners to keep, how deep the candle history goes, and how
/// many optimizer rounds to run.
pub struct GenerateStrategiesRequest {
    pub symbols: Vec<String>,
    pub intervals: Vec<String>,
    pub top_n: Option<usize>,
    pub limit: Option<u16>,
    pub iterations: Option<usize>,
}

impl GenerateStrategiesRequest {
    pub fn resolved_top_n(&self) -> (n: usize)
        ensures
            n == match self.top_n {
                Option::Some(v) => v,
                Option::None => 10usize,
            },
    {
        match self.top_n {
            Option::Some(v) => v,
            Option::None => 10,
        }
    }

    pub fn resolved_limit(&self) -> (n: u16)
        ensures
            n == match self.limit {
                Option::Some(v) => v,
                Option::None => 1000u16,
            },
    {
        match self.limit {
            Option::Some(v) => v,
            Option::None => 1000,
        }
    }

    pub fn resolved_iterations(&self) -> (n: usize)
        ensures
            n == match self.iterations {
                Option::Some(v) => v,
                Option::None => 50usize,
            },
    {
        match self.iterations {
            Option::Some(v) => v,
            Option::None => 50,
        }
    }
}

} // verus!
