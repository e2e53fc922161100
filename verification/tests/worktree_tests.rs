use zoid::worktree::{deleted_branch_note, enter_guard, exit_guard, retained_branch_warning};

#[test]
fn enter_guard_already_in_worktree_errors() {
    assert_eq!(
        enter_guard(true, false, true).unwrap_err(),
        "already in a worktree — exit with :worktree exit first"
    );
}

#[test]
fn enter_guard_subagent_running_errors() {
    assert_eq!(
        enter_guard(false, true, true).unwrap_err(),
        "cannot enter worktree while a subagent is running"
    );
    assert_eq!(enter_guard(false, false, false).unwrap_err(), "not a git repository");
    assert!(enter_guard(false, false, true).is_ok());
}

#[test]
fn exit_guard_not_in_worktree_errors() {
    assert_eq!(exit_guard(false, false).unwrap_err(), "not in a worktree");
    assert_eq!(
        exit_guard(true, true).unwrap_err(),
        "cannot exit worktree while a subagent is running"
    );
    assert!(exit_guard(true, false).is_ok());
}

#[test]
fn exit_messages() {
    assert_eq!(
        retained_branch_warning("feat"),
        "exited worktree — branch 'feat' retained (has unmerged commits). Merge to main or delete with: git branch -d feat"
    );
    assert_eq!(
        deleted_branch_note("feat", "Some(1)", "None"),
        "exited worktree (branch 'feat' deleted — no unmerged commits detected; branch_oid=Some(1) head_oid=None)"
    );
}
