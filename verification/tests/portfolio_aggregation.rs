use papertrade::model::EquitySnapshot;
use papertrade::portfolio::{
    build_cache_points, interval_step_seconds, minute_floor, parse_history_style,
    resolve_range_days, HistoryStyle, MINUTE_MS,
};

const UNIT: i64 = 1_000_000;

fn snap(session_id: u128, equity: i64, timestamp: i64) -> EquitySnapshot {
    EquitySnapshot { session_id, equity, timestamp }
}

#[test]
fn forward_fill_merges_two_sessions() {
    let t0 = 1_700_000_040_000 / MINUTE_MS * MINUTE_MS;
    let snaps = vec![
        snap(1, 100 * UNIT, t0),
        snap(2, 50 * UNIT, t0 + 2 * MINUTE_MS),
        snap(1, 120 * UNIT, t0 + 3 * MINUTE_MS),
    ];
    let points = build_cache_points(&snaps, t0 + 3 * MINUTE_MS);

    assert_eq!(points.len(), 4);
    assert_eq!(points[0].timestamp, t0);
    assert_eq!(points[0].total_equity, 100 * UNIT);
    assert_eq!(points[1].timestamp, t0 + MINUTE_MS);
    assert_eq!(points[1].total_equity, 100 * UNIT);
    assert_eq!(points[2].timestamp, t0 + 2 * MINUTE_MS);
    assert_eq!(points[2].total_equity, 150 * UNIT);
    assert_eq!(points[3].timestamp, t0 + 3 * MINUTE_MS);
    assert_eq!(points[3].total_equity, 170 * UNIT);
}

#[test]
fn forward_fill_carries_totals_past_the_last_snapshot() {
    let t0 = 1_700_000_040_000 / MINUTE_MS * MINUTE_MS;
    let snaps = vec![
        snap(1, 100 * UNIT, t0),
        snap(2, 50 * UNIT, t0 + 2 * MINUTE_MS),
        snap(1, 120 * UNIT, t0 + 3 * MINUTE_MS),
    ];
    let points = build_cache_points(&snaps, t0 + 5 * MINUTE_MS);
    assert_eq!(points.len(), 6);
    assert_eq!(points[4].total_equity, 170 * UNIT);
    assert_eq!(points[5].total_equity, 170 * UNIT);
    assert_eq!(points[5].timestamp, t0 + 5 * MINUTE_MS);
}

#[test]
fn aggregation_is_identical_when_rerun_on_same_snapshots() {
    let t0 = 1_700_000_040_000 / MINUTE_MS * MINUTE_MS;
    let snaps = vec![
        snap(1, 100 * UNIT, t0),
        snap(2, 50 * UNIT, t0 + 2 * MINUTE_MS),
        snap(1, 120 * UNIT, t0 + 3 * MINUTE_MS),
    ];
    let first = build_cache_points(&snaps, t0 + 3 * MINUTE_MS);
    let second = build_cache_points(&snaps, t0 + 3 * MINUTE_MS);
    assert_eq!(first.len(), second.len());
    for (a, b) in first.iter().zip(second.iter()) {
        assert_eq!(a.timestamp, b.timestamp);
        assert_eq!(a.total_equity, b.total_equity);
    }
}

#[test]
fn cache_rows_are_strictly_increasing_by_minute() {
    let t0 = 1_700_000_040_000 / MINUTE_MS * MINUTE_MS;
    let snaps = vec![
        snap(1, 100 * UNIT, t0 + 30_000),
        snap(1, 90 * UNIT, t0 + 90_000),
        snap(2, 10 * UNIT, t0 + 90_500),
    ];
    let points = build_cache_points(&snaps, t0 + 10 * MINUTE_MS);
    for w in points.windows(2) {
        assert!(w[0].timestamp + MINUTE_MS <= w[1].timestamp);
    }
}

#[test]
fn minutes_with_no_positive_total_are_skipped() {
    let t0 = 1_700_000_040_000 / MINUTE_MS * MINUTE_MS;
    // The lone session is deep under water from the start.
    let snaps = vec![snap(1, -5 * UNIT, t0)];
    let points = build_cache_points(&snaps, t0 + 2 * MINUTE_MS);
    assert!(points.is_empty());
}

#[test]
fn empty_snapshot_set_yields_no_rows() {
    let snaps: Vec<EquitySnapshot> = Vec::new();
    let points = build_cache_points(&snaps, 1_700_000_000_000);
    assert!(points.is_empty());
}

#[test]
fn a_late_snapshot_overrides_within_its_minute() {
    let t0 = 1_700_000_040_000 / MINUTE_MS * MINUTE_MS;
    // Two snapshots of the same session inside one minute: the later wins as
    // soon as a minute covers them.
    let snaps = vec![snap(1, 100 * UNIT, t0 + 1_000), snap(1, 103 * UNIT, t0 + 2_000)];
    let points = build_cache_points(&snaps, t0 + MINUTE_MS);
    assert_eq!(points.len(), 1);
    assert_eq!(points[0].timestamp, t0 + MINUTE_MS);
    assert_eq!(points[0].total_equity, 103 * UNIT);
}

#[test]
fn minute_floor_truncates_to_the_minute() {
    assert_eq!(minute_floor(1_700_000_059_999), 1_700_000_040_000);
    assert_eq!(minute_floor(1_700_000_040_000), 1_700_000_040_000);
    assert_eq!(minute_floor(0), 0);
}

#[test]
fn interval_names_map_to_seconds() {
    assert_eq!(interval_step_seconds("1m"), 60);
    assert_eq!(interval_step_seconds("3m"), 180);
    assert_eq!(interval_step_seconds("5m"), 300);
    assert_eq!(interval_step_seconds("15m"), 900);
    assert_eq!(interval_step_seconds("30m"), 1800);
    assert_eq!(interval_step_seconds("1h"), 3600);
    assert_eq!(interval_step_seconds("4h"), 14400);
    assert_eq!(interval_step_seconds("12h"), 43200);
    assert_eq!(interval_step_seconds("1d"), 86400);
    assert_eq!(interval_step_seconds("2w"), 900);
}

#[test]
fn history_defaults_are_seven_days_line_style() {
    assert_eq!(resolve_range_days(None), 7);
    assert_eq!(resolve_range_days(Some(30)), 30);
    assert_eq!(resolve_range_days(Some(0)), 1);
    assert_eq!(resolve_range_days(Some(-3)), 1);
    assert!(matches!(parse_history_style(None), HistoryStyle::Line));
    assert!(matches!(parse_history_style(Some("candle")), HistoryStyle::Candle));
    assert!(matches!(parse_history_style(Some("line")), HistoryStyle::Line));
    assert!(matches!(parse_history_style(Some("sparkline")), HistoryStyle::Line));
}
