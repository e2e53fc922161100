use zoid::projection::{
    latest_open_question, latest_tool_error, rebuild_last_tokens, rebuild_question_ids, ChatMsg, Event, EventKind, Projection, ProjectionImpact, QuestionCardState,
    QuestionKind, TaskItem, TaskStatus, TokenStat,
};

fn ev(ts: i64, kind: EventKind) -> Event {
    Event { ts, tokens: None, kind }
}

#[test]
fn apply_event_usage_returns_economy_and_accumulates() {
    let mut cache = Projection::new();
    let mut e = ev(0, EventKind::Usage);
    e.tokens = Some(TokenStat { input: 100, output: 50, cached: 20, thinking: 5 });
    let impact = cache.apply_event(&e);
    assert_eq!(impact, ProjectionImpact::Economy);
    assert_eq!(cache.ledger_total, 150);
    assert_eq!(cache.cached_total, 20);
    assert_eq!(cache.thinking_total, 5);
    assert_eq!(cache.last_input_tokens, Some(100));
    assert_eq!(cache.last_output_tokens, Some(50));
    assert!(cache.churn_dirty);
    assert!(cache.msgs.is_empty());
}

#[test]
fn apply_event_tool_call_sets_churn_dirty() {
    let mut cache = Projection::new();
    cache.apply_event(&ev(0, EventKind::UserMessage { text: "hi".into() }));
    cache.churn_dirty = false;
    let impact = cache.apply_event(&ev(
        1,
        EventKind::ToolCall { id: "t1".into(), name: "read".into(), args: r#"{"path":"f.rs"}"#.into() },
    ));
    assert!(cache.churn_dirty, "ToolCall must set churn_dirty");
    assert!(matches!(impact, ProjectionImpact::MsgsMutated { .. }));
}

#[test]
fn apply_event_model_delta_returns_msgs_mutated_none() {
    let mut cache = Projection::new();
    cache.msgs.push(ChatMsg::Assistant { text: "hello".into(), tool_calls: vec![], ts: 0, thinking: None });
    let impact = cache.apply_event(&ev(0, EventKind::ModelDelta { text: " world".into() }));
    assert_eq!(impact, ProjectionImpact::MsgsMutated { mutated_index: None });
}

#[test]
fn apply_event_model_thinking_flushes_when_pending() {
    let mut cache = Projection::new();
    cache.apply_event(&ev(0, EventKind::ModelDelta { text: "partial".into() }));
    let impact = cache.apply_event(&ev(1, EventKind::ModelThinking { text: "hmm".into() }));
    assert_eq!(impact, ProjectionImpact::MsgsMutated { mutated_index: None });
    assert_eq!(cache.msgs.len(), 1, "pending assistant turn was flushed");
    match &cache.msgs[0] {
        ChatMsg::Assistant { thinking, text, .. } => {
            assert_eq!(text, "partial");
            assert!(thinking.is_none(), "thinking goes to next message, not the flushed one");
        }
        _ => panic!("expected Assistant"),
    }
    assert!(cache.pending_thinking.is_some(), "thinking stashed for next message");
}

#[test]
fn apply_event_model_thinking_no_op_when_no_pending() {
    let mut cache = Projection::new();
    let impact = cache.apply_event(&ev(0, EventKind::ModelThinking { text: "hmm".into() }));
    assert_eq!(impact, ProjectionImpact::Economy);
    assert!(cache.msgs.is_empty(), "no message pushed");
    assert!(cache.pending_thinking.is_some());
}

#[test]
fn finalize_pending_emits_standalone_thinking() {
    let mut cache = Projection::new();
    cache.apply_event(&ev(0, EventKind::ModelThinking { text: "deep thoughts".into() }));
    assert!(cache.msgs.is_empty());
    let impact = cache.finalize_pending();
    assert_eq!(impact, ProjectionImpact::MsgsAppended);
    assert_eq!(cache.msgs.len(), 1);
    match &cache.msgs[0] {
        ChatMsg::Assistant { text, thinking, .. } => {
            assert!(text.is_empty());
            assert_eq!(thinking.as_deref(), Some("deep thoughts"));
        }
        _ => panic!("expected standalone thinking Assistant"),
    }
}

#[test]
fn finalize_with_nothing_pending_is_economy() {
    let mut cache = Projection::new();
    assert_eq!(cache.finalize_pending(), ProjectionImpact::Economy);
    assert!(cache.msgs.is_empty());
}

#[test]
fn apply_event_tool_result_suppressed_for_non_approval_question() {
    let mut cache = Projection::new();
    cache.apply_event(&ev(
        0,
        EventKind::QuestionAsked {
            id: "q1".into(),
            kind: QuestionKind::Ask,
            question: "which?".into(),
            choices: vec!["a".into()],
        },
    ));
    assert_eq!(cache.msgs.len(), 1, "question card pushed");
    let impact = cache.apply_event(&ev(
        1,
        EventKind::ToolResult { id: "q1".into(), name: "ask_user".into(), output: "answer".into(), is_error: false },
    ));
    assert_eq!(cache.msgs.len(), 1, "ToolResult suppressed — no new msg");
    assert!(matches!(impact, ProjectionImpact::MsgsMutated { .. }));
}

#[test]
fn apply_event_tool_result_not_suppressed_for_approval_question() {
    let mut cache = Projection::new();
    cache.apply_event(&ev(
        0,
        EventKind::QuestionAsked {
            id: "q2".into(),
            kind: QuestionKind::Approval,
            question: "approve?".into(),
            choices: vec!["yes".into(), "no".into()],
        },
    ));
    let impact = cache.apply_event(&ev(
        1,
        EventKind::ToolResult { id: "q2".into(), name: "shell".into(), output: "done".into(), is_error: false },
    ));
    assert_eq!(cache.msgs.len(), 2, "ToolResult NOT suppressed for Approval");
    assert_eq!(impact, ProjectionImpact::MsgsAppended);
}

#[test]
fn apply_event_tool_result_compacted_non_last_mutates_index() {
    let mut cache = Projection::new();
    cache.apply_event(&ev(
        0,
        EventKind::ToolResult { id: "t1".into(), name: "read".into(), output: "full output".into(), is_error: false },
    ));
    cache.apply_event(&ev(1, EventKind::AssistantMessage { text: "ok".into() }));
    assert_eq!(cache.msgs.len(), 2);
    let impact = cache.apply_event(&ev(2, EventKind::ToolResultCompacted { id: "t1".into(), summary: "summary".into() }));
    assert_eq!(impact, ProjectionImpact::MsgsMutated { mutated_index: Some(0) });
    match &cache.msgs[0] {
        ChatMsg::ToolResult { output, compacted, .. } => {
            assert_eq!(output, "summary");
            assert!(*compacted);
        }
        _ => panic!("expected ToolResult at index 0"),
    }
}

#[test]
fn apply_event_question_answered_miss_returns_economy() {
    let mut cache = Projection::new();
    let impact = cache.apply_event(&ev(0, EventKind::QuestionAnswered { id: "nonexistent".into(), answer: "x".into() }));
    assert_eq!(impact, ProjectionImpact::Economy);
    assert!(cache.msgs.is_empty());
}

#[test]
fn apply_event_tasks_replaces_vec() {
    let mut cache = Projection::new();
    let t1 = TaskItem { text: "a".into(), status: TaskStatus::Done };
    cache.apply_event(&ev(0, EventKind::Tasks { items: vec![t1.clone()] }));
    assert_eq!(cache.tasks.len(), 1);
    let t2 = TaskItem { text: "b".into(), status: TaskStatus::Active };
    let impact = cache.apply_event(&ev(1, EventKind::Tasks { items: vec![t2.clone()] }));
    assert_eq!(impact, ProjectionImpact::Economy);
    assert_eq!(cache.tasks.len(), 1, "last-write-wins");
    assert_eq!(cache.tasks[0].text, "b");
}

#[test]
fn apply_event_wake_scheduled_is_noop() {
    let mut cache = Projection::new();
    let impact = cache.apply_event(&ev(
        0,
        EventKind::WakeScheduled { wake_id: "w1".into(), fire_at_ms: 99999, note: "reminder".into() },
    ));
    assert_eq!(impact, ProjectionImpact::Economy);
    assert!(cache.msgs.is_empty());
    assert!(!cache.window_dirty);
    assert!(!cache.churn_dirty);
}

#[test]
fn apply_event_pending_turn_flush_on_tool_result() {
    let mut cache = Projection::new();
    cache.apply_event(&ev(0, EventKind::ModelDelta { text: "partial".into() }));
    assert!(cache.msgs.is_empty(), "delta accumulates in pending, not msgs");
    cache.apply_event(&ev(1, EventKind::ToolCall { id: "t1".into(), name: "read".into(), args: "{}".into() }));
    assert!(cache.msgs.is_empty(), "tool call accumulates in pending");
    let impact = cache.apply_event(&ev(
        2,
        EventKind::ToolResult { id: "t1".into(), name: "read".into(), output: "ok".into(), is_error: false },
    ));
    assert_eq!(impact, ProjectionImpact::MsgsAppended);
    assert_eq!(cache.msgs.len(), 2, "flushed Assistant + ToolResult");
    match &cache.msgs[0] {
        ChatMsg::Assistant { text, tool_calls, ts, .. } => {
            assert_eq!(text, "partial");
            assert_eq!(tool_calls.len(), 1);
            assert_eq!(*ts, 0, "the turn's first event stamps it");
        }
        _ => panic!("expected Assistant"),
    }
}

#[test]
fn apply_event_tool_result_compacted_in_place() {
    let mut cache = Projection::new();
    cache.apply_event(&ev(
        0,
        EventKind::ToolResult { id: "t1".into(), name: "read".into(), output: "full output".into(), is_error: false },
    ));
    assert_eq!(cache.msgs.len(), 1);
    let impact = cache.apply_event(&ev(1, EventKind::ToolResultCompacted { id: "t1".into(), summary: "summary".into() }));
    assert!(matches!(impact, ProjectionImpact::MsgsMutated { mutated_index: Some(0) }));
    assert_eq!(cache.msgs.len(), 1, "no new msg — in-place mutation");
    match &cache.msgs[0] {
        ChatMsg::ToolResult { output, compacted, .. } => {
            assert_eq!(output, "summary");
            assert!(*compacted);
        }
        _ => panic!("expected ToolResult"),
    }
}

#[test]
fn apply_event_question_answered_in_place() {
    let mut cache = Projection::new();
    cache.apply_event(&ev(
        0,
        EventKind::QuestionAsked {
            id: "q1".into(),
            kind: QuestionKind::Ask,
            question: "which?".into(),
            choices: vec!["a".into(), "b".into()],
        },
    ));
    assert_eq!(cache.msgs.len(), 1);
    let impact = cache.apply_event(&ev(1, EventKind::QuestionAnswered { id: "q1".into(), answer: "a".into() }));
    assert!(matches!(impact, ProjectionImpact::MsgsMutated { mutated_index: Some(0) }));
    match &cache.msgs[0] {
        ChatMsg::Question { state, .. } => match state {
            QuestionCardState::Answered { answer } => assert_eq!(answer, "a"),
            _ => panic!("expected Answered"),
        },
        _ => panic!("expected Question"),
    }
}

#[test]
fn every_event_advances_the_count() {
    let mut cache = Projection::new();
    assert_eq!(cache.events_len, None);
    cache.apply_event(&ev(0, EventKind::TurnsDropped));
    cache.apply_event(&ev(1, EventKind::DelegationResult { summary: "done".into(), ok: true }));
    cache.apply_event(&ev(
        2,
        EventKind::TurnsEvicted { reclaimed_tokens: 1000, evicted_topics: vec!["topic".into()], rescue: None },
    ));
    assert_eq!(cache.events_len, Some(3));
    assert_eq!(cache.msgs.len(), 2);
    assert!(cache.window_dirty);
    match &cache.msgs[1] {
        ChatMsg::Evicted { reclaimed_tokens, evicted_topics, .. } => {
            assert_eq!(*reclaimed_tokens, 1000);
            assert_eq!(evicted_topics, &vec!["topic".to_string()]);
        }
        _ => panic!("expected Evicted"),
    }
}

#[test]
fn latest_open_question_clears_on_its_answer() {
    let asked = |id: &str| {
        ev(0, EventKind::QuestionAsked { id: id.into(), kind: QuestionKind::Ask, question: "q".into(), choices: vec![] })
    };
    let answered = |id: &str| ev(0, EventKind::QuestionAnswered { id: id.into(), answer: "a".into() });
    assert_eq!(latest_open_question(&vec![]), None);
    assert_eq!(latest_open_question(&vec![asked("q1")]), Some(0));
    assert_eq!(latest_open_question(&vec![asked("q1"), answered("q1")]), None);
    assert_eq!(latest_open_question(&vec![asked("q1"), answered("other")]), Some(0));
    assert_eq!(latest_open_question(&vec![asked("q1"), asked("q2"), answered("q1")]), Some(1));
}

#[test]
fn latest_tool_error_is_the_most_recent_failure() {
    let res = |id: &str, out: &str, is_error: bool| {
        ev(0, EventKind::ToolResult { id: id.into(), name: "bash".into(), output: out.into(), is_error })
    };
    let events = vec![
        res("1", "first failure", true),
        res("2", "fine", false),
        res("3", "second failure", true),
        ev(0, EventKind::UserMessage { text: "hi".into() }),
        res("4", "fine again", false),
    ];
    assert_eq!(latest_tool_error(&events), Some("second failure".to_string()));
    assert_eq!(latest_tool_error(&events[..2].to_vec()), Some("first failure".to_string()));
    assert_eq!(latest_tool_error(&vec![res("5", "ok", false)]), None);
    assert_eq!(latest_tool_error(&Vec::new()), None);
}

fn tok(input: u64, output: u64) -> Option<TokenStat> {
    Some(TokenStat { input, output, cached: 0, thinking: 0 })
}

fn asked(id: &str, kind: QuestionKind) -> EventKind {
    EventKind::QuestionAsked { id: id.into(), kind, question: "?".into(), choices: vec![] }
}

#[test]
fn incremental_token_memory_matches_rebuild() {
    let mut events = vec![
        ev(1, EventKind::UserMessage { text: "hello".into() }),
        ev(2, EventKind::ModelDelta { text: "res".into() }),
        ev(3, asked("q1", QuestionKind::Ask)),
        ev(4, asked("a1", QuestionKind::Approval)),
        ev(5, EventKind::QuestionAnswered { id: "q1".into(), answer: "a".into() }),
        ev(6, EventKind::Usage),
    ];
    events[1].tokens = tok(100, 50);
    events[5].tokens = tok(120, 7);
    let mut cache = Projection::new();
    for e in &events {
        cache.apply_event(e);
    }
    assert_eq!(rebuild_last_tokens(&events), (Some(120), Some(7)));
    assert_eq!((cache.last_input_tokens, cache.last_output_tokens), rebuild_last_tokens(&events));
    assert_eq!(rebuild_question_ids(&events), vec!["q1".to_string()]);
    assert_eq!(cache.question_ids, rebuild_question_ids(&events));
}

#[test]
fn rebuild_forgets_counts_the_last_usage_zeroed() {
    // Where the parity law's condition fails: the last token-carrying event
    // reports no input. The incremental cache keeps the earlier count; a
    // rebuild reads none.
    let mut events = vec![ev(1, EventKind::Usage), ev(2, EventKind::Usage)];
    events[0].tokens = tok(100, 50);
    events[1].tokens = tok(0, 9);
    let mut cache = Projection::new();
    for e in &events {
        cache.apply_event(e);
    }
    assert_eq!(cache.last_input_tokens, Some(100));
    assert_eq!(rebuild_last_tokens(&events), (None, Some(9)));
    assert_eq!(rebuild_last_tokens(&Vec::new()), (None, None));
}

#[test]
fn rebuild_keeps_repeated_question_ids() {
    let events = vec![ev(1, asked("q", QuestionKind::Ask)), ev(2, asked("q", QuestionKind::Ask))];
    assert_eq!(rebuild_question_ids(&events), vec!["q".to_string(), "q".to_string()]);
    let mut cache = Projection::new();
    for e in &events {
        cache.apply_event(e);
    }
    assert_eq!(cache.question_ids, vec!["q".to_string()]);
}
