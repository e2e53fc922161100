use zoid::projection::{Event, EventKind};
use zoid::wake::{
    cancel_message, drain_step, fire_at_for, should_wake_after_delegation, validate_schedule,
    wake_injection_text, DrainStep, PendingWakes, WakeFlags, WAKE_MAX_DELAY_SECS,
};

fn ev(kind: EventKind) -> Event {
    Event { ts: 0, tokens: None, kind }
}

fn scheduled(id: &str, at: i64, note: &str) -> Event {
    ev(EventKind::WakeScheduled { wake_id: id.into(), fire_at_ms: at, note: note.into() })
}

#[test]
fn wake_injection_text_stamps_late_only_when_overdue() {
    assert_eq!(wake_injection_text("check CI", 10_000, 10_200), "⏰ scheduled: check CI");
    assert_eq!(
        wake_injection_text("check CI", 10_000, 20_000),
        "⏰ scheduled: check CI (fired late)"
    );
}

#[test]
fn wake_injection_text_exactly_five_seconds_late_is_on_time() {
    assert_eq!(wake_injection_text("n", 0, 5_000), "⏰ scheduled: n");
    assert_eq!(wake_injection_text("n", 0, 5_001), "⏰ scheduled: n (fired late)");
}

#[test]
fn validate_schedule_enforces_switch_floor_and_cap() {
    assert!(validate_schedule(false, 0, 60).is_err(), "disabled → reject");
    assert!(validate_schedule(true, 0, 29).is_err(), "below 30s floor → reject");
    assert!(validate_schedule(true, 16, 60).is_err(), "at 16 pending cap → reject");
    assert!(validate_schedule(true, 15, 30).is_ok(), "enabled, 30s, under cap → ok");
    assert!(validate_schedule(true, 0, WAKE_MAX_DELAY_SECS + 1).is_err(), "above 30-day cap → reject");
    assert!(validate_schedule(true, 0, WAKE_MAX_DELAY_SECS).is_ok(), "exactly at cap → ok");
}

#[test]
fn validate_schedule_error_messages() {
    assert_eq!(
        validate_schedule(false, 0, 60).unwrap_err(),
        "scheduled wake-ups are disabled ([wake] enabled = false)"
    );
    assert_eq!(validate_schedule(true, 0, 29).unwrap_err(), "delay must be at least 30s");
    assert_eq!(
        validate_schedule(true, 0, WAKE_MAX_DELAY_SECS + 1).unwrap_err(),
        "delay must be at most 2592000s (30 days)"
    );
    assert_eq!(validate_schedule(true, 16, 60).unwrap_err(), "too many pending wakes (max 16)");
}

#[test]
fn fire_time_saturates() {
    assert_eq!(fire_at_for(1_000, 30), 31_000);
    assert_eq!(fire_at_for(i64::MAX - 10, 30), i64::MAX);
    assert_eq!(fire_at_for(0, u64::MAX), i64::MAX);
}

#[test]
fn should_wake_after_delegation_truth_table() {
    assert!(should_wake_after_delegation(false, false), "idle + not yielded → wake");
    assert!(!should_wake_after_delegation(true, false), "a turn is still streaming → do not wake now");
    assert!(!should_wake_after_delegation(false, true), "session yielded/taken over → do not wake");
    assert!(!should_wake_after_delegation(true, true), "streaming and yielded → do not wake");
}

#[test]
fn delegation_wake_idle_spawns_and_busy_defers() {
    let mut f = WakeFlags { streaming: false, yielded: false, wake_after_delegation: false };
    assert!(f.plan_delegation_wake());
    assert!(f.streaming);
    let mut g = WakeFlags { streaming: true, yielded: false, wake_after_delegation: false };
    assert!(!g.plan_delegation_wake());
    assert!(g.wake_after_delegation, "armed for TurnComplete");
}

#[test]
fn deferred_delegation_wake_fires_once_then_clears() {
    let mut f = WakeFlags { streaming: false, yielded: false, wake_after_delegation: true };
    assert!(f.take_deferred_delegation_wake());
    assert!(!f.take_deferred_delegation_wake(), "second take never fires");
}

#[test]
fn deferred_delegation_wake_dropped_when_yielded() {
    let mut f = WakeFlags { streaming: false, yielded: true, wake_after_delegation: true };
    assert!(!f.take_deferred_delegation_wake());
    assert!(!f.wake_after_delegation);
}

#[test]
fn rebuild_pending_wakes_projects_unfired_uncancelled() {
    let evs = vec![
        scheduled("a", 300, "later"),
        scheduled("b", 100, "soon"),
        scheduled("c", 200, "gone"),
        ev(EventKind::WakeFired { wake_id: "b".into() }),
        ev(EventKind::WakeCancelled { wake_id: "c".into() }),
    ];
    let pending = PendingWakes::from_events(&evs);
    assert_eq!(pending.len(), 1, "only the un-fired, un-cancelled wake survives");
    assert_eq!(pending.get(300, "a"), Some("later".to_string()));
    assert_eq!(pending.earliest_fire_at(), Some(300));
}

#[test]
fn rescheduling_an_id_keeps_only_its_latest_schedule() {
    let evs = vec![scheduled("a", 500, "first"), scheduled("a", 100, "second")];
    let pending = PendingWakes::from_events(&evs);
    assert_eq!(pending.len(), 1);
    assert_eq!(pending.get(100, "a"), Some("second".to_string()));
    assert_eq!(pending.get(500, "a"), None);
}

#[test]
fn earliest_fire_at_is_the_min_key() {
    let mut pending = PendingWakes::new();
    assert_eq!(pending.earliest_fire_at(), None, "empty → None (watcher parks)");
    pending.insert(500, "a".to_string(), "n".to_string());
    pending.insert(100, "b".to_string(), "n".to_string());
    assert_eq!(pending.earliest_fire_at(), Some(100), "earliest fire_at wins");
}

#[test]
fn same_millisecond_schedules_order_by_id() {
    let mut pending = PendingWakes::new();
    pending.insert(100, "b".to_string(), "nb".to_string());
    pending.insert(100, "a".to_string(), "na".to_string());
    assert_eq!(pending.entry(0), (100, "a".to_string(), "na".to_string()));
    assert_eq!(pending.entry(1), (100, "b".to_string(), "nb".to_string()));
}

#[test]
fn insert_on_an_existing_key_replaces_the_note() {
    let mut pending = PendingWakes::new();
    pending.insert(100, "a".to_string(), "old".to_string());
    pending.insert(100, "a".to_string(), "new".to_string());
    assert_eq!(pending.len(), 1);
    assert_eq!(pending.get(100, "a"), Some("new".to_string()));
}

#[test]
fn due_includes_exactly_now_and_excludes_future() {
    let mut pending = PendingWakes::new();
    pending.insert(100, "a".to_string(), "x".to_string());
    pending.insert(200, "b".to_string(), "y".to_string());
    pending.insert(300, "c".to_string(), "z".to_string());
    assert_eq!(pending.due(200), vec![(100, "a".to_string()), (200, "b".to_string())]);
    assert!(pending.due(99).is_empty());
}

#[test]
fn schedule_then_cancel_roundtrips_the_pending_set() {
    let mut pending = PendingWakes::new();
    let t = pending.plan_schedule(true, 60, "check CI", 1_000).unwrap();
    assert_eq!(t, 61_000);
    pending.insert(t, "W1".to_string(), "check CI".to_string());
    assert_eq!(pending.len(), 1);
    let targets = pending.keys_for(Some("W1"));
    assert_eq!(targets, vec![(61_000, "W1".to_string())]);
    for (at, id) in &targets {
        assert_eq!(pending.remove(*at, id), Some("check CI".to_string()));
    }
    assert_eq!(pending.len(), 0, "cancel removes it");
    assert_eq!(cancel_message(false, targets.len()), "cancelled 1 wake(s)");
}

#[test]
fn cancel_all_lists_every_key() {
    let mut pending = PendingWakes::new();
    pending.insert(5, "x".to_string(), "n1".to_string());
    pending.insert(7, "y".to_string(), "n2".to_string());
    let all = pending.keys_for(None);
    assert_eq!(all.len(), 2);
    assert_eq!(cancel_message(true, all.len()), "cancelled all 2 pending wake(s)");
    assert!(pending.keys_for(Some("nope")).is_empty());
    assert_eq!(cancel_message(false, 0), "cancelled 0 wake(s)");
}

#[test]
fn handle_schedule_wake_rejects_duplicate_note() {
    let mut pending = PendingWakes::new();
    pending.insert(100, "a".to_string(), "same".to_string());
    let err = pending.plan_schedule(true, 60, "same", 0).unwrap_err();
    assert!(err.starts_with("a pending wake with this note already exists"));
    assert!(pending.plan_schedule(true, 60, "other", 0).is_ok());
    assert!(pending.has_note("same"));
    assert!(!pending.has_note("other"));
}

#[test]
fn remove_of_missing_key_is_none() {
    let mut pending = PendingWakes::new();
    pending.insert(1, "a".to_string(), "n".to_string());
    assert_eq!(pending.remove(2, "a"), None);
    assert_eq!(pending.remove(1, "b"), None);
    assert_eq!(pending.len(), 1);
}

#[test]
fn busy_drain_parks_and_idle_drain_fires() {
    assert_eq!(drain_step(0, false, false), DrainStep::Nothing);
    assert_eq!(drain_step(2, false, false), DrainStep::Fire);
    assert_eq!(drain_step(2, true, false), DrainStep::Park);
    assert_eq!(drain_step(2, false, true), DrainStep::Park);
}
