use zoid::fmt::{
    cancel_escalation, CancelTier,
    config_warning_hint, copied_hint, derive_session_name, feedback_problem, fmt_age, fmt_duration, fmt_since,
    layer_warning_line, osc52_sequence, subagent_kill_decision, truncate_for_hint,
};

#[test]
fn derives_name_from_first_message_else_timestamp() {
    let long = "fix the 500 error on GET /users/:id when the row is missing entirely";
    let n = derive_session_name(Some(long), 0, 0);
    assert!(n.chars().count() <= 40);
    assert!(n.starts_with("fix the 500"));
    assert_eq!(derive_session_name(None, 49_500_000, 0), "session 13:45");
    assert_eq!(derive_session_name(Some("   "), 0, 0), "session 00:00");
}

#[test]
fn session_name_keeps_first_line_and_cuts_at_forty() {
    assert_eq!(derive_session_name(Some("  hello\nworld  "), 0, 0), "hello");
    let forty = "a".repeat(40);
    assert_eq!(derive_session_name(Some(&forty), 0, 0), forty);
    let forty_one = "b".repeat(41);
    assert_eq!(derive_session_name(Some(&forty_one), 0, 0), format!("{}…", "b".repeat(39)));
}

#[test]
fn session_clock_uses_offset_and_wraps_negative_times() {
    // 00:30 UTC shifted one hour back is 23:30 the previous day.
    assert_eq!(derive_session_name(None, 1_800_000, -3600), "session 23:30");
    // One millisecond before the epoch is 23:59.
    assert_eq!(derive_session_name(None, -1, 0), "session 23:59");
}

#[test]
fn truncate_for_hint_mirrors_session_name_cut() {
    assert_eq!(truncate_for_hint("short\nsecond"), "short");
    let long = "x".repeat(45);
    assert_eq!(truncate_for_hint(&long), format!("{}…", "x".repeat(39)));
    assert_eq!(truncate_for_hint(""), "");
}

#[test]
fn layer_warning_line_is_file_qualified() {
    assert_eq!(
        layer_warning_line("config.toml", "economy.context_ceiling"),
        "config.toml: ignored unknown key economy.context_ceiling"
    );
}

#[test]
fn config_warning_hint_none_one_many() {
    assert_eq!(config_warning_hint(&[]), None);
    assert_eq!(
        config_warning_hint(&["economy.context_ceiling".to_string()]),
        Some("config: 1 key ignored (economy.context_ceiling)".to_string())
    );
    assert_eq!(
        config_warning_hint(&["a".to_string(), "b".to_string()]),
        Some("config: 2 keys ignored — see log".to_string())
    );
}

#[test]
fn subagent_kill_decision_arms_then_fires() {
    let (next, fire, hint) = subagent_kill_decision(false, 3);
    assert!(next, "first press arms");
    assert!(!fire, "first press must not fire");
    assert!(hint.contains("Esc again"), "first press asks to confirm: {hint}");
    let (next, fire, hint) = subagent_kill_decision(true, 3);
    assert!(!next, "second press disarms");
    assert!(fire, "second press fires");
    assert!(hint.contains("killing"), "second press reports the kill: {hint}");
}

#[test]
fn subagent_kill_decision_exact_hints() {
    assert_eq!(subagent_kill_decision(false, 2).2, "kill 2 subagent(s)? Esc again to confirm");
    assert_eq!(subagent_kill_decision(true, 2).2, "killing 2 subagent(s)…");
}

#[test]
fn relative_times() {
    assert_eq!(fmt_since(0, 12 * 60_000), "12m ago");
    assert_eq!(fmt_since(0, 3 * 3_600_000), "3h ago");
    assert_eq!(fmt_since(0, 2 * 86_400_000), "2d ago");
    assert_eq!(fmt_since(10, 0), "0m ago");
    assert_eq!(fmt_duration(0, 12 * 60_000), "12m");
    assert_eq!(fmt_duration(0, 63 * 60_000), "1h3m");
    assert_eq!(fmt_age(45_000), "45s");
    assert_eq!(fmt_age(12 * 60_000), "12m");
    assert_eq!(fmt_age(3 * 3_600_000), "3h");
    assert_eq!(fmt_age(-5), "0s");
}

#[test]
fn copied_hint_counts_lines() {
    assert_eq!(copied_hint("one"), "copied 1 line");
    assert_eq!(copied_hint(""), "copied 1 line");
    assert_eq!(copied_hint("a\nb\nc"), "copied 3 lines");
}

#[test]
fn osc52_wraps_base64_of_the_utf8_bytes() {
    assert_eq!(osc52_sequence("hi"), "\x1b]52;c;aGk=\x07");
    assert_eq!(osc52_sequence(""), "\x1b]52;c;\x07");
    assert_eq!(osc52_sequence("é"), "\x1b]52;c;w6k=\x07");
}

#[test]
fn feedback_needs_title_and_description() {
    let msg = Some("Title and description are required.".to_string());
    assert_eq!(feedback_problem("  ", "body"), msg);
    assert_eq!(feedback_problem("title", "\n\t"), msg);
    assert_eq!(feedback_problem("", ""), msg);
    assert_eq!(feedback_problem("crash on save", "steps: ..."), None);
}

#[test]
fn second_cancel_escalates_to_hard() {
    // First Esc: graceful only.
    let mut graceful_fired = false;
    let (tier, hint) = cancel_escalation(graceful_fired);
    assert_eq!((tier, hint.as_str()), (CancelTier::Graceful, "cancelling… (Esc again to force)"));
    graceful_fired = tier == CancelTier::Graceful;
    // Second Esc: escalate to hard.
    let (tier, hint) = cancel_escalation(graceful_fired);
    assert_eq!((tier, hint.as_str()), (CancelTier::Hard, "force-stopping…"));
}
