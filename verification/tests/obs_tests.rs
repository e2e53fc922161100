use zoid::obs::{
    overview_error_row, percent_capped, ErrEntry, EventLevel, FieldGrab, ObsState, RollingStats, ToolStat, MAX_ERR_RING,
    MAX_LOG_RING, ROLL_CAP,
};

#[test]
fn rolling_stats_tracks_count_last_avg_p90() {
    let mut r = RollingStats::default();
    assert_eq!((r.count(), r.last(), r.avg(), r.p90()), (0, 0, 0, 0));
    for v in [10u64, 20, 30, 40, 50, 60, 70, 80, 90, 100] {
        r.record(v);
    }
    assert_eq!(r.count(), 10);
    assert_eq!(r.last(), 100);
    assert_eq!(r.avg(), 55);
    assert_eq!(r.p90(), 100);
}

#[test]
fn rolling_stats_window_max_returns_peak_or_zero() {
    let mut r = RollingStats::default();
    assert_eq!(r.window_max(), 0);
    for v in [10u64, 90, 30] {
        r.record(v);
    }
    assert_eq!(r.window_max(), 90);
}

#[test]
fn rolling_stats_window_caps_at_capacity() {
    let mut r = RollingStats::default();
    for v in 0..200u64 {
        r.record(v);
    }
    assert_eq!(r.count(), 200);
    assert_eq!(r.last(), 199);
    assert_eq!(r.avg(), 167);
}

#[test]
fn p90_picks_the_ceiling_rank() {
    let mut r = RollingStats::new();
    for v in [5u64, 1, 4, 2, 3] {
        r.record(v);
    }
    // Index ceil(5 * 0.9) = 5, clamped to the last → the largest.
    assert_eq!(r.p90(), 5);
    let mut q = RollingStats::new();
    for v in 1..=20u64 {
        q.record(21 - v);
    }
    // Index ceil(20 * 0.9) = 18 of the sorted window (1..=20) → 19.
    assert_eq!(q.p90(), 19);
}

#[test]
fn provider_tps_default_is_zero() {
    let s = ObsState::default();
    assert_eq!(s.provider_tps.avg(), 0, "empty window → avg 0");
}

#[test]
fn provider_tps_records_and_averages() {
    let mut s = ObsState::default();
    s.provider_tps.record(100);
    s.provider_tps.record(200);
    s.provider_tps.record(300);
    assert_eq!(s.provider_tps.avg(), 200, "(100+200+300)/3 = 200");
}

#[test]
fn provider_tps_rolling_eviction() {
    let mut s = ObsState::default();
    for _ in 0..ROLL_CAP {
        s.provider_tps.record(100);
    }
    s.provider_tps.record(200);
    let expected = (63 * 100 + 200) / ROLL_CAP as u64;
    assert_eq!(s.provider_tps.avg(), expected, "oldest sample evicted");
}

#[test]
fn obsstate_folds_tools_and_caps_errors() {
    let mut s = ObsState::default();
    s.record_tool("read_file", 10);
    s.record_tool("read_file", 20);
    s.record_tool("shell", 240);
    assert_eq!(s.tools.get("read_file").unwrap().count, 2);
    assert_eq!(s.tools.get("read_file").unwrap().avg_ms(), 15);
    assert_eq!(s.tools.get("shell").unwrap().avg_ms(), 240);

    for i in 0..30 {
        s.record_error(i, "warn", "ctx".into(), format!("err {i}"));
    }
    assert_eq!(s.errors.len(), MAX_ERR_RING);
    assert_eq!(s.errors.back().unwrap().message, "err 29");
    assert_eq!(s.errors.front().unwrap().message, format!("err {}", 30 - MAX_ERR_RING));
}

#[test]
fn obsstate_folds_frame_cache_ratio() {
    let mut s = ObsState::default();
    s.record_frame(7, Some(true), false);
    s.record_frame(11, Some(true), true);
    s.record_frame(16, Some(false), false);
    assert_eq!(s.frame.count(), 3);
    assert_eq!(s.cache_total, 3);
    assert_eq!(s.cache_hits, 2);
    assert_eq!(s.proj_rebuilds, 1);
    s.record_frame(5, None, false);
    assert_eq!(s.frame.count(), 4);
    assert_eq!(s.cache_total, 3);
    assert_eq!(s.cache_hits, 2);
}

#[test]
fn take_logs_drains_and_returns_entries() {
    let mut s = ObsState::default();
    s.record_log(1, "warn", "test message", None);
    s.record_log(2, "error", "another", None);
    let entries = s.take_logs();
    assert_eq!(entries.len(), 2);
    assert_eq!(entries[0].message, "test message");
    assert!(s.logs.is_empty(), "take_logs must drain the ring");
}

#[test]
fn log_ring_drops_oldest_when_full() {
    let mut s = ObsState::default();
    for i in 0..(MAX_LOG_RING + 5) {
        s.record_log(i as i64, "warn", &format!("fill entry {i}"), None);
    }
    assert_eq!(s.logs.len(), MAX_LOG_RING);
    assert_eq!(s.logs[0].message, "fill entry 5");
}

#[test]
fn tool_stat_average_of_nothing_is_zero() {
    assert_eq!(ToolStat { count: 0, total_ms: 0 }.avg_ms(), 0);
    assert_eq!(ToolStat { count: 3, total_ms: 10 }.avg_ms(), 3);
}

#[test]
fn folded_events_feed_the_named_aggregate() {
    let mut s = ObsState::default();
    let mut g = FieldGrab::new();
    assert!(g.route_str("kind", "tool"));
    assert!(g.route_str("name", "shell"));
    assert!(g.route_u64("ms", 240));
    assert!(!g.route_bool("ok", true), "unknown fields stay with the caller");
    s.fold_event(&g, EventLevel::Info, None, 0, 0);
    assert_eq!(s.tools.get("shell").unwrap().avg_ms(), 240);

    let mut t = FieldGrab::new();
    t.route_str("kind", "turn");
    t.route_u64("ms", 4200);
    t.route_u64("iterations", 3);
    s.fold_event(&t, EventLevel::Info, None, 0, 0);
    assert_eq!(s.turn.last(), 4200);
    assert_eq!(s.iterations.last(), 3);

    let mut f = FieldGrab::new();
    f.route_str("kind", "frame");
    f.route_u64("ms", 7);
    f.route_bool("cache_hit", true);
    f.route_bool("proj_rebuilt", false);
    s.fold_event(&f, EventLevel::Trace, None, 0, 0);
    assert_eq!(s.frame.last(), 7);
    assert_eq!(s.cache_hits, 1);

    let mut w = FieldGrab::new();
    w.route_str("ctx", "provider");
    w.route_str("message", "HTTP 429");
    s.fold_event(&w, EventLevel::Warn, Some("{\"extra\":1}".to_string()), 10, 11);
    assert_eq!(s.errors.len(), 1);
    assert_eq!(s.errors.back().unwrap().context, "provider");
    assert_eq!(s.logs.len(), 1);
    assert_eq!(s.logs[0].level, "warn");
}

#[test]
fn percent_is_capped_and_zero_without_a_base() {
    assert_eq!(percent_capped(20, 100), 20);
    assert_eq!(percent_capped(1, 3), 33);
    assert_eq!(percent_capped(300, 100), 100);
    assert_eq!(percent_capped(5, 0), 0);
    assert_eq!(percent_capped(0, 7), 0);
}

#[test]
fn overview_error_rows_show_icon_age_and_context() {
    let e = ErrEntry { ts_ms: 1_000, level: "error", context: "tool bash".into(), message: "exit 1".into() };
    assert_eq!(overview_error_row(&e, 46_000), ("⛔ 45s tool bash".to_string(), "exit 1".to_string()));
    let w = ErrEntry { ts_ms: 0, level: "warn", context: "provider".into(), message: "slow".into() };
    assert_eq!(overview_error_row(&w, 7_200_000).0, "⚠ 2h provider");
}
