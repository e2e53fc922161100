use zoid::picker::{
    boot_decision, drawer_delete_check, last4, pick_choice, picker_scroll_offset, resolve_resume_id,
    selection_after_relist, session_row_name, BootPath, DrawerDelete,
    PickKey, PickOutcome, Picker, PickerAction, PickerKey, ResumeIdError, SessionInfo,
};

fn mk_session_info(id_val: u128, name: &str) -> SessionInfo {
    SessionInfo {
        id: id_val,
        name: name.into(),
        root_path: "/repo".into(),
        created_ts: 0,
        last_touched_ts: 0,
        token_total: 0,
        active: false,
        active_pid: None,
        active_heartbeat: None,
    }
}

fn ulid_string(v: u128) -> String {
    ulid::Ulid::from(v).to_string()
}

#[test]
fn pick_choice_down_advances_selection() {
    assert_eq!(pick_choice(3, 0, PickKey::Down), PickOutcome::Pending(1));
}

#[test]
fn pick_choice_up_wraps() {
    assert_eq!(pick_choice(3, 0, PickKey::Up), PickOutcome::Pending(3));
}

#[test]
fn pick_choice_down_wraps() {
    assert_eq!(pick_choice(3, 3, PickKey::Down), PickOutcome::Pending(0));
}

#[test]
fn pick_choice_enter_on_session_resumes() {
    assert_eq!(pick_choice(3, 1, PickKey::Enter), PickOutcome::Resume(1));
    assert_eq!(pick_choice(3, 3, PickKey::Enter), PickOutcome::Resume(3));
}

#[test]
fn pick_choice_enter_on_create_new() {
    assert_eq!(pick_choice(3, 0, PickKey::Enter), PickOutcome::CreateNew);
}

#[test]
fn pick_choice_esc_aborts() {
    assert_eq!(pick_choice(3, 0, PickKey::Esc), PickOutcome::Abort);
}

#[test]
fn pick_choice_clamps_selection_to_total_rows() {
    assert_eq!(pick_choice(2, 5, PickKey::Down), PickOutcome::Pending(0));
}

#[test]
fn pick_choice_delete_on_session_row() {
    assert_eq!(pick_choice(2, 1, PickKey::Delete), PickOutcome::DeleteConfirm(1));
    assert_eq!(pick_choice(2, 2, PickKey::Delete), PickOutcome::DeleteConfirm(2));
}

#[test]
fn pick_choice_delete_on_create_new_is_noop() {
    assert_eq!(pick_choice(2, 0, PickKey::Delete), PickOutcome::Pending(0));
}

#[test]
fn down_then_up_returns_to_the_same_row() {
    for start in 0..=4usize {
        let down = match pick_choice(4, start, PickKey::Down) {
            PickOutcome::Pending(i) => i,
            other => panic!("unexpected {other:?}"),
        };
        assert_eq!(pick_choice(4, down, PickKey::Up), PickOutcome::Pending(start));
    }
}

#[test]
fn scroll_offset_zero_when_everything_fits() {
    assert_eq!(picker_scroll_offset(2, 20), 0);
    assert_eq!(picker_scroll_offset(5, 20), 0);
}

#[test]
fn scroll_offset_advances_when_cursor_moves_below_view() {
    assert_eq!(picker_scroll_offset(5, 4), 2);
}

#[test]
fn scroll_offset_keeps_last_session_row_visible() {
    assert_eq!(picker_scroll_offset(12, 5), 8);
}

#[test]
fn scroll_offset_create_new_never_triggers_scroll() {
    assert_eq!(picker_scroll_offset(2, 20), 0);
    assert_eq!(picker_scroll_offset(2, 5), 0);
    assert_eq!(picker_scroll_offset(2, 3), 0);
}

#[test]
fn scroll_offset_only_grows_never_shrinks_jumps_back() {
    assert_eq!(picker_scroll_offset(3, 4), 0);
    assert_eq!(picker_scroll_offset(2, 4), 0);
}

#[test]
fn scroll_offset_clamps_when_cursor_far_above_window() {
    assert_eq!(picker_scroll_offset(2, 4), 0);
}

#[test]
fn scroll_offset_zero_when_visible_height_exceeds_content() {
    assert_eq!(picker_scroll_offset(0, 100), 0);
    assert_eq!(picker_scroll_offset(50, 100), 0);
}

#[test]
fn boot_decision_no_sessions_creates() {
    assert_eq!(boot_decision(0, false, None), BootPath::AutoCreate);
}

#[test]
fn boot_decision_one_session_auto_resumes() {
    assert_eq!(boot_decision(1, false, None), BootPath::AutoResume);
}

#[test]
fn boot_decision_two_sessions_shows_picker() {
    assert_eq!(boot_decision(2, false, None), BootPath::Picker);
}

#[test]
fn boot_decision_new_flag_forces_create() {
    assert_eq!(boot_decision(5, true, None), BootPath::ForceNew);
}

#[test]
fn boot_decision_resume_flag_forces_resume() {
    assert_eq!(
        boot_decision(5, false, Some("ABCD")),
        BootPath::ForceResume("ABCD".to_string())
    );
}

#[test]
fn boot_decision_resume_wins_over_new() {
    assert_eq!(
        boot_decision(0, true, Some("WXYZ")),
        BootPath::ForceResume("WXYZ".to_string())
    );
}

#[test]
fn resolve_resume_id_full_ulid_match() {
    let sessions = vec![mk_session_info(123456789, "test")];
    let result = resolve_resume_id(&sessions, &ulid_string(123456789));
    assert_eq!(result.unwrap(), 123456789u128);
}

#[test]
fn resolve_resume_id_last4_match() {
    let sessions = vec![mk_session_info(123456789, "test")];
    let l4 = last4(&ulid_string(123456789));
    let result = resolve_resume_id(&sessions, &l4);
    assert_eq!(result.unwrap(), 123456789u128);
}

#[test]
fn resolve_resume_id_not_found() {
    let sessions = vec![mk_session_info(1, "test")];
    let result = resolve_resume_id(&sessions, "ABCD");
    assert!(matches!(result, Err(ResumeIdError::NotFound)));
}

#[test]
fn resolve_resume_id_not_found_empty() {
    let sessions: Vec<SessionInfo> = Vec::new();
    let result = resolve_resume_id(&sessions, "ABCD");
    assert!(matches!(result, Err(ResumeIdError::NotFound)));
}

#[test]
fn resolve_resume_id_ambiguous_real_collision() {
    let la = last4(&ulid_string(100));
    let lb = last4(&ulid_string(200));
    let sessions = vec![mk_session_info(100, "a"), mk_session_info(200, "b")];
    if la == lb {
        let result = resolve_resume_id(&sessions, &la);
        assert!(matches!(result, Err(ResumeIdError::Ambiguous(_))));
    } else {
        assert_eq!(resolve_resume_id(&sessions, &la).unwrap(), 100u128);
        assert_eq!(resolve_resume_id(&sessions, &lb).unwrap(), 200u128);
    }
}

#[test]
fn resolve_resume_id_ambiguous_lists_full_ids() {
    // Same value in two rows shares its last four characters.
    let sessions = vec![mk_session_info(7, "a"), mk_session_info(7, "b")];
    let q = last4(&ulid_string(7));
    match resolve_resume_id(&sessions, &q) {
        Err(ResumeIdError::Ambiguous(ids)) => {
            assert_eq!(ids, vec![ulid_string(7), ulid_string(7)]);
        }
        other => panic!("expected Ambiguous, got {other:?}"),
    }
}

#[test]
fn resolve_resume_id_invalid_length() {
    let result = resolve_resume_id(&[], "ABC");
    assert!(matches!(result, Err(ResumeIdError::InvalidLength)));
}

#[test]
fn resolve_resume_id_invalid_ulid_syntax() {
    let result = resolve_resume_id(&[], "!!!!!!!!!!!!!!!!!!!!!!!!!!");
    assert!(result.is_err());
}

#[test]
fn resolve_resume_id_accepts_lowercase_full_id() {
    let sessions = vec![mk_session_info(987654321, "s")];
    let lower = ulid_string(987654321).to_lowercase();
    assert_eq!(resolve_resume_id(&sessions, &lower).unwrap(), 987654321u128);
}

#[test]
fn resolve_resume_id_full_id_of_unknown_session_is_not_found() {
    let sessions = vec![mk_session_info(1, "s")];
    let result = resolve_resume_id(&sessions, &ulid_string(2));
    assert!(matches!(result, Err(ResumeIdError::NotFound)));
}

#[test]
fn last4_of_short_string_is_whole_string() {
    assert_eq!(last4("abc"), "abc");
    assert_eq!(last4("abcdef"), "cdef");
}

#[test]
fn picker_deletes_after_confirmation_and_resumes_on_enter() {
    let mut p = Picker::new(3);
    assert_eq!(p.selected, 1);
    let live = [false, false, false];
    assert_eq!(p.key(PickerKey::Down, &live), PickerAction::Redraw);
    assert_eq!(p.selected, 2);
    assert_eq!(p.key(PickerKey::Enter, &live), PickerAction::Resume(1));
    assert_eq!(p.key(PickerKey::Esc, &live), PickerAction::Abort);
}

#[test]
fn session_row_name_is_the_text_before_the_first_separator() {
    assert_eq!(session_row_name("fix login  ·  3m ago  ·  12k"), "fix login");
    assert_eq!(session_row_name("no separator here"), "no separator here");
    assert_eq!(session_row_name("a · b"), "a · b");
    assert_eq!(session_row_name(""), "");
    assert_eq!(session_row_name("  ·  tail"), "");
}

#[test]
fn drawer_delete_refuses_busy_and_live_sessions() {
    assert_eq!(drawer_delete_check(true, true, false), DrawerDelete::Busy);
    assert_eq!(drawer_delete_check(false, false, false), DrawerDelete::NoSelection);
    assert_eq!(drawer_delete_check(false, true, true), DrawerDelete::InUse);
    assert_eq!(drawer_delete_check(false, true, false), DrawerDelete::Confirm);
}

#[test]
fn selection_resets_when_the_list_shrinks_past_it() {
    assert_eq!(selection_after_relist(2, 3), 2);
    assert_eq!(selection_after_relist(3, 3), 0);
    assert_eq!(selection_after_relist(0, 0), 0);
}
