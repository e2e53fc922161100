//! The guards and messages of entering and leaving a git worktree.

use crate::text::{chars_of, extend_str, string_of};
use vstd::prelude::*;

verus! {

/// Why entering a worktree is refused, checking in order: already in one, a
/// subagent running, not a git repository.
pub open spec fn enter_refusal(in_worktree: bool, subagent_running: bool, is_repo: bool) -> Option<Seq<char>> {
    if in_worktree {
        Some("already in a worktree — exit with :worktree exit first"@)
    } else if subagent_running {
        Some("cannot enter worktree while a subagent is running"@)
    } else if !is_repo {
        Some("not a git repository"@)
    } else {
        None
    }
}

/// Check whether a worktree may be entered now.
pub fn enter_guard(in_worktree: bool, subagent_running: bool, is_repo: bool) -> (r: Result<(), String>)
    ensures
        match enter_refusal(in_worktree, subagent_running, is_repo) {
            Some(m) => r matches Err(e) && e@ == m,
            None => r is Ok,
        },
{
    if in_worktree {
        return Err(String::from_str("already in a worktree — exit with :worktree exit first"));
    }
    if subagent_running {
        return Err(String::from_str("cannot enter worktree while a subagent is running"));
    }
    if !is_repo {
        return Err(String::from_str("not a git repository"));
    }
    Ok(())
}

/// Why leaving the worktree is refused: not in one, or a subagent running
/// (the session is then kept).
pub open spec fn exit_refusal(in_worktree: bool, subagent_running: bool) -> Option<Seq<char>> {
    if !in_worktree {
        Some("not in a worktree"@)
    } else if subagent_running {
        Some("cannot exit worktree while a subagent is running"@)
    } else {
        None
    }
}

/// Check whether the active worktree may be left now.
pub fn exit_guard(in_worktree: bool, subagent_running: bool) -> (r: Result<(), String>)
    ensures
        match exit_refusal(in_worktree, subagent_running) {
            Some(m) => r matches Err(e) && e@ == m,
            None => r is Ok,
        },
{
    if !in_worktree {
        return Err(String::from_str("not in a worktree"));
    }
    if subagent_running {
        return Err(String::from_str("cannot exit worktree while a subagent is running"));
    }
    Ok(())
}

/// The warning when a clean exit keeps the branch because it has commits
/// not merged into the main checkout.
pub fn retained_branch_warning(branch: &str) -> (r: String)
    ensures
        r@ == "exited worktree — branch '"@ + branch@ + "' retained (has unmerged commits). Merge to main or delete with: git branch -d "@ + branch@,
{
    let mut s = chars_of("exited worktree — branch '");
    extend_str(&mut s, branch);
    extend_str(&mut s, "' retained (has unmerged commits). Merge to main or delete with: git branch -d ");
    extend_str(&mut s, branch);
    string_of(&s)
}

/// The note when a clean exit deleted the branch, with the branch and head
/// object ids as rendered by the caller.
pub fn deleted_branch_note(branch: &str, branch_oid: &str, head_oid: &str) -> (r: String)
    ensures
        r@ == "exited worktree (branch '"@ + branch@ + "' deleted — no unmerged commits detected; branch_oid="@
            + branch_oid@ + " head_oid="@ + head_oid@ + ")"@,
{
    let mut s = chars_of("exited worktree (branch '");
    extend_str(&mut s, branch);
    extend_str(&mut s, "' deleted — no unmerged commits detected; branch_oid=");
    extend_str(&mut s, branch_oid);
    extend_str(&mut s, " head_oid=");
    extend_str(&mut s, head_oid);
    extend_str(&mut s, ")");
    string_of(&s)
}

} // verus!
