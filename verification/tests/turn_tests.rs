use zoid::turn::{guard_timeout, turn_cwd, turn_system_prompt};

#[test]
fn small_context_models_get_the_budget_note() {
    let p = turn_system_prompt("SYS", 32_768);
    assert!(p.starts_with("SYS\n\n## Context budget\nYou have a 32K token context window. Be context-efficient:\n"));
    assert!(p.ends_with("- Large tool outputs are compacted automatically; use `recall` to retrieve them."));
    assert_eq!(p.lines().filter(|l| l.starts_with("- ")).count(), 5);
}

#[test]
fn large_or_unknown_context_keeps_the_prompt() {
    assert_eq!(turn_system_prompt("SYS", 64_000), "SYS");
    assert_eq!(turn_system_prompt("SYS", 200_000), "SYS");
    assert_eq!(turn_system_prompt("SYS", 0), "SYS");
    assert!(turn_system_prompt("SYS", 63_999).contains("You have a 63K token"));
    assert!(turn_system_prompt("SYS", 999).contains("You have a 0K token"));
}

#[test]
fn worktree_overrides_the_turn_directory() {
    assert_eq!(turn_cwd(Some("/repo/.zoid/worktrees/wt1"), "/repo"), "/repo/.zoid/worktrees/wt1");
    assert_eq!(turn_cwd(None, "/repo"), "/repo");
}

#[test]
fn zero_seconds_disables_a_guardrail() {
    assert_eq!(guard_timeout(0), None);
    assert_eq!(guard_timeout(90), Some(90));
}
