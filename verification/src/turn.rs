//! Per-turn settings derived from the session: the context-budget note a
//! small-context model gets in its system prompt, the working directory,
//! and the subagent guardrail timeouts.

use crate::text::{chars_of, decimal, decimal_chars, extend_chars, extend_str, string_of};
use vstd::prelude::*;

verus! {

/// The note appended to the system prompt of a model with a context window
/// of `ctx_k` thousand tokens.
pub open spec fn budget_note(ctx_k: nat) -> Seq<char> {
    "\n\n## Context budget\nYou have a "@ + decimal(ctx_k)
        + "K token context window. Be context-efficient:\n- Use `grep` or `glob` to find what you need before reading files.\n- Use the `limit` and `offset` parameters on `read` for large files.\n- Avoid reading more files than necessary. Read the most relevant file first.\n- If you need to read multiple files, prioritize by relevance and stop early.\n- Large tool outputs are compacted automatically; use `recall` to retrieve them."@
}

/// The system prompt a turn runs with: a model whose context window is
/// known and under 64K tokens gets a note asking it to spend context
/// sparingly; others get the prompt unchanged.
pub fn turn_system_prompt(system: &str, ctx_ceiling: u64) -> (r: String)
    ensures
        0 < ctx_ceiling < 64_000 ==> r@ == system@ + budget_note((ctx_ceiling / 1000) as nat),
        !(0 < ctx_ceiling < 64_000) ==> r@ == system@,
{
    if ctx_ceiling > 0 && ctx_ceiling < 64_000 {
        let mut out = chars_of(system);
        extend_str(&mut out, "\n\n## Context budget\nYou have a ");
        let k = decimal_chars(ctx_ceiling / 1000);
        extend_chars(&mut out, &k);
        extend_str(
            &mut out,
            "K token context window. Be context-efficient:\n- Use `grep` or `glob` to find what you need before reading files.\n- Use the `limit` and `offset` parameters on `read` for large files.\n- Avoid reading more files than necessary. Read the most relevant file first.\n- If you need to read multiple files, prioritize by relevance and stop early.\n- Large tool outputs are compacted automatically; use `recall` to retrieve them.",
        );
        string_of(&out)
    } else {
        String::from_str(system)
    }
}

/// The directory a turn works in: the active worktree's, else the
/// session's.
pub fn turn_cwd(active_worktree: Option<&str>, cwd: &str) -> (r: String)
    ensures
        match active_worktree {
            Some(w) => r@ == w@,
            None => r@ == cwd@,
        },
{
    match active_worktree {
        Some(w) => String::from_str(w),
        None => String::from_str(cwd),
    }
}

/// A subagent guardrail timeout from its configured seconds: 0 disables it.
pub fn guard_timeout(secs: u64) -> (r: Option<u64>)
    ensures
        secs == 0 ==> r is None,
        secs > 0 ==> r == Some(secs),
{
    if secs > 0 {
        Some(secs)
    } else {
        None
    }
}

} // verus!
