use std::path::PathBuf;
use zoid::paths::{
    expand_tilde, home_dir, join, keep_first_modes, mcp_target_path, resolve_cache_dir,
    resolve_config_dir, resolve_data_dir, resolve_db_path, resolve_mode_dirs,
    resolve_secret_key_path, resolve_skill_dirs, Env, McpTarget,
};

fn env_of(pairs: &[(&str, &str)]) -> Env {
    Env::new(
        pairs
            .iter()
            .map(|(k, v)| (k.to_string(), v.to_string()))
            .collect(),
    )
}

#[test]
fn zoid_db_overrides_everything() {
    let p = resolve_db_path(&env_of(&[("ZOID_DB", "/tmp/x.db"), ("HOME", "/home/u")]));
    assert_eq!(PathBuf::from(p), PathBuf::from("/tmp/x.db"));
}

#[test]
fn xdg_data_home_wins_over_home() {
    let p = resolve_db_path(&env_of(&[("XDG_DATA_HOME", "/xdg"), ("HOME", "/home/u")]));
    assert_eq!(PathBuf::from(p), PathBuf::from("/xdg/zoid/zoid.db"));
}

#[test]
fn falls_back_to_home_local_share() {
    let p = resolve_db_path(&env_of(&[("HOME", "/home/u")]));
    assert_eq!(PathBuf::from(p), PathBuf::from("/home/u/.local/share/zoid/zoid.db"));
}

#[test]
fn userprofile_fallback_when_home_unset() {
    let p = resolve_db_path(&env_of(&[("USERPROFILE", r"C:\Users\u")]));
    assert_eq!(
        PathBuf::from(p),
        PathBuf::from(r"C:\Users\u").join(".local/share/zoid/zoid.db")
    );
}

#[test]
fn home_preferred_over_userprofile() {
    let p = resolve_db_path(&env_of(&[("HOME", "/home/u"), ("USERPROFILE", r"C:\Users\u")]));
    assert_eq!(PathBuf::from(p), PathBuf::from("/home/u/.local/share/zoid/zoid.db"));
}

#[test]
fn config_dir_userprofile_fallback() {
    let p = resolve_config_dir(&env_of(&[("USERPROFILE", r"C:\Users\u")]));
    assert_eq!(PathBuf::from(p), PathBuf::from(r"C:\Users\u").join(".config/zoid"));
}

#[test]
fn resolve_config_dir_prefers_xdg_then_home() {
    let x = resolve_config_dir(&env_of(&[("XDG_CONFIG_HOME", "/x/cfg")]));
    assert_eq!(PathBuf::from(x), PathBuf::from("/x/cfg/zoid"));
    let h = resolve_config_dir(&env_of(&[("HOME", "/home/u")]));
    assert_eq!(PathBuf::from(h), PathBuf::from("/home/u/.config/zoid"));
}

#[test]
fn mode_import_resolve_prepends_convention_dirs_and_expands_tilde() {
    let dirs = resolve_mode_dirs(
        &["~/m".to_string(), "/abs/x".to_string()],
        "/home/u/.config/zoid",
        "/proj",
        Some("/home/u"),
    );
    let got: Vec<PathBuf> = dirs.into_iter().map(PathBuf::from).collect();
    assert_eq!(
        got,
        vec![
            PathBuf::from("/home/u/.config/zoid/modes"),
            PathBuf::from("/proj/.zoid/modes"),
            PathBuf::from("/home/u/m"),
            PathBuf::from("/abs/x"),
        ]
    );
}

#[test]
fn skill_import_resolve_prepends_convention_dirs_and_expands_tilde() {
    let dirs = resolve_skill_dirs(
        &["~/sp".to_string(), "/abs/x".to_string()],
        "/home/u/.config/zoid",
        "/proj",
        Some("/home/u"),
    );
    let got: Vec<PathBuf> = dirs.into_iter().map(PathBuf::from).collect();
    assert_eq!(
        got,
        vec![
            PathBuf::from("/home/u/.config/zoid/skills"),
            PathBuf::from("/proj/.zoid/skills"),
            PathBuf::from("/home/u/sp"),
            PathBuf::from("/abs/x"),
        ]
    );
}

#[test]
fn user_target_is_config_mcp_json() {
    let p = mcp_target_path(McpTarget::User, "/cfg", "/repo");
    assert_eq!(PathBuf::from(p), PathBuf::from("/cfg/mcp.json"));
}

#[test]
fn project_target_is_cwd_dot_mcp_json() {
    let p = mcp_target_path(McpTarget::Project, "/cfg", "/repo");
    assert_eq!(PathBuf::from(p), PathBuf::from("/repo/.mcp.json"));
}

#[test]
fn cache_and_secret_and_data_dirs_follow_xdg_then_home() {
    assert_eq!(resolve_cache_dir(&env_of(&[("XDG_CACHE_HOME", "/c")])), "/c/zoid");
    assert_eq!(resolve_cache_dir(&env_of(&[("HOME", "/h")])), "/h/.cache/zoid");
    assert_eq!(
        resolve_data_dir(&env_of(&[("HOME", "/h")])),
        "/h/.local/share/zoid"
    );
    assert_eq!(
        resolve_secret_key_path(&env_of(&[("HOME", "/h")])),
        "/h/.local/share/zoid/secret.key"
    );
    assert_eq!(resolve_cache_dir(&env_of(&[])), ".cache/zoid");
}

#[test]
fn empty_xdg_var_falls_through_to_home() {
    let p = resolve_config_dir(&env_of(&[("XDG_CONFIG_HOME", ""), ("HOME", "/home/u")]));
    assert_eq!(p, "/home/u/.config/zoid");
}

#[test]
fn home_dir_prefers_home_then_userprofile() {
    assert_eq!(home_dir(&env_of(&[("HOME", "/a"), ("USERPROFILE", "/b")])), Some("/a".to_string()));
    assert_eq!(home_dir(&env_of(&[("USERPROFILE", "/b")])), Some("/b".to_string()));
    assert_eq!(home_dir(&env_of(&[])), None);
}

#[test]
fn tilde_expansion_only_for_leading_tilde() {
    assert_eq!(expand_tilde("~", Some("/h")), "/h");
    assert_eq!(expand_tilde("~/x", Some("/h")), "/h/x");
    assert_eq!(expand_tilde("~x", Some("/h")), "~x");
    assert_eq!(expand_tilde("~/x", None), "~/x");
}

#[test]
fn join_replaces_base_for_absolute_component() {
    assert_eq!(join("/a", "b"), "/a/b");
    assert_eq!(join("/a/", "b"), "/a/b");
    assert_eq!(join("/a", "/b"), "/b");
}

#[test]
fn first_mode_with_a_name_wins_and_base_name_is_reserved() {
    let names = vec![
        "alpha".to_string(),
        "default".to_string(),
        "beta".to_string(),
        "alpha".to_string(),
    ];
    assert_eq!(keep_first_modes("default", &names), vec![true, false, true, false]);
}
