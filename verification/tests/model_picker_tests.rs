use zoid::config::TomlValue;
use zoid::model_picker::{
    apply_models_fetched, apply_switch_models_fetched, config_pick, cycle_index, switch_apply_writes, effort_options, model_options, move_to_choosable,
    open_cursor, sort_names, AfterPick, PickOption, PickedRow,
};

fn names(v: &[&str]) -> Vec<String> {
    v.iter().map(|s| s.to_string()).collect()
}

fn ids(opts: &[PickOption]) -> Vec<&str> {
    opts.iter().map(|o| o.id.as_str()).collect()
}

#[test]
fn apply_models_fetched_replaces_open_model_picker() {
    let (opts, sel) =
        apply_models_fetched("ollama", "ollama", true, true, names(&["live-b", "live-a"]), "live-b").unwrap();
    assert_eq!(ids(&opts), vec!["live-a", "live-b"]);
    assert!(opts.iter().all(|o| o.selectable));
    assert_eq!(sel, 1);
    assert!(opts[1].is_current && !opts[0].is_current);
    assert_eq!(opts[0].label, "live-a");
    assert_eq!(opts[0].detail, "");
    // Empty fetch result: the list on screen is left untouched.
    assert!(apply_models_fetched("ollama", "ollama", true, true, Vec::new(), "live-b").is_none());
}

#[test]
fn stale_provider_fetch_is_dropped() {
    assert!(apply_models_fetched("some-other-provider", "ollama", true, true, names(&["stale-a", "stale-b"]), "m")
        .is_none());
}

#[test]
fn apply_models_fetched_ignored_when_model_picker_not_open() {
    assert!(apply_models_fetched("ollama", "ollama", false, true, names(&["live-a"]), "m").is_none());
    // Focus moved off the model row.
    assert!(apply_models_fetched("ollama", "ollama", true, false, names(&["live-a"]), "m").is_none());
}

#[test]
fn unknown_current_model_highlights_the_top() {
    let (_, sel) = apply_models_fetched("p", "p", true, true, names(&["b", "a"]), "zzz").unwrap();
    assert_eq!(sel, 0);
}

#[test]
fn switch_model_pane_takes_live_fetch_for_highlighted_provider() {
    let live = names(&["qwen3-coder:cloud", "glm-5.2:cloud"]);
    // A fetch for a different (scrolled-past) provider is dropped.
    assert!(apply_switch_models_fetched(true, Some("ollama-cloud"), "anthropic-api", names(&["ignored"]), "m", None)
        .is_none());
    // A fetch for the highlighted provider replaces the list.
    let (opts, sel) = apply_switch_models_fetched(true, Some("ollama-cloud"), "ollama-cloud", live.clone(), "m", None)
        .unwrap();
    assert_eq!(ids(&opts), vec!["glm-5.2:cloud", "qwen3-coder:cloud"]);
    assert!(opts.iter().all(|o| o.selectable));
    assert_eq!(sel, 0);
    // An empty fetch keeps the list.
    assert!(apply_switch_models_fetched(true, Some("ollama-cloud"), "ollama-cloud", Vec::new(), "m", None).is_none());
    // Overlay closed: inert.
    assert!(apply_switch_models_fetched(false, Some("ollama-cloud"), "ollama-cloud", names(&["late"]), "m", None)
        .is_none());
    // No provider highlighted: inert.
    assert!(apply_switch_models_fetched(true, None, "ollama-cloud", names(&["late"]), "m", None).is_none());
}

#[test]
fn switch_keeps_the_highlight_then_falls_back_to_current_then_top() {
    let live = names(&["c", "a", "b"]);
    let (_, sel) = apply_switch_models_fetched(true, Some("p"), "p", live.clone(), "a", Some("c")).unwrap();
    assert_eq!(sel, 2);
    let (_, sel) = apply_switch_models_fetched(true, Some("p"), "p", live.clone(), "b", Some("gone")).unwrap();
    assert_eq!(sel, 1);
    let (_, sel) = apply_switch_models_fetched(true, Some("p"), "p", live, "gone", None).unwrap();
    assert_eq!(sel, 0);
}

#[test]
fn names_sort_as_strings_do() {
    let v = names(&["b", "B", "a", "é", "ab", "a", ""]);
    let mut expected = v.clone();
    expected.sort();
    assert_eq!(sort_names(v), expected);
}

#[test]
fn options_mark_every_copy_of_the_current_model() {
    let opts = model_options(names(&["x", "m", "m"]), "m");
    assert_eq!(ids(&opts), vec!["m", "m", "x"]);
    assert_eq!(opts.iter().filter(|o| o.is_current).count(), 2);
}

fn opt(id: &str, selectable: bool, is_current: bool) -> PickOption {
    PickOption { id: id.into(), label: id.into(), detail: String::new(), is_current, selectable }
}

#[test]
fn effort_picker_lists_auto_then_levels() {
    let opts = effort_options("medium");
    assert_eq!(ids(&opts), vec!["", "low", "medium", "high", "max"]);
    assert_eq!(opts[0].label, "(auto)");
    assert_eq!(opts.iter().filter(|o| o.is_current).count(), 1);
    assert!(opts[2].is_current);
    assert!(effort_options("")[0].is_current);
    assert!(effort_options("turbo").iter().all(|o| !o.is_current));
}

#[test]
fn picker_opens_on_current_else_first_choosable() {
    assert_eq!(open_cursor(&vec![opt("a", true, false), opt("b", true, true)]), 1);
    assert_eq!(open_cursor(&vec![opt("--", false, false), opt("b", true, false)]), 1);
    assert_eq!(open_cursor(&vec![opt("--", false, false)]), 0);
    assert_eq!(open_cursor(&Vec::new()), 0);
}

#[test]
fn config_picker_move_skips_headers() {
    let opts = vec![opt("a", true, false), opt("--", false, false), opt("c", true, false)];
    assert_eq!(move_to_choosable(&opts, 0, 1), 2);
    assert_eq!(move_to_choosable(&opts, 2, 1), 0);
    assert_eq!(move_to_choosable(&opts, 0, -1), 2);
    assert_eq!(move_to_choosable(&Vec::new(), 4, 1), 4);
}

#[test]
fn choosing_a_provider_writes_it_and_asks_for_a_missing_key() {
    let (writes, next) = config_pick(PickedRow::Provider, Some("anthropic-api"), Some("https://api.anthropic.com"), Some("ANTHROPIC_API_KEY"));
    assert_eq!(
        writes,
        vec![
            ("provider".to_string(), TomlValue::Str("anthropic-api".into())),
            ("base_url".to_string(), TomlValue::Str("https://api.anthropic.com".into())),
            ("model".to_string(), TomlValue::Unset),
        ]
    );
    assert_eq!(next, AfterPick::KeyPrompt("ANTHROPIC_API_KEY".into()));
    let (_, next) = config_pick(PickedRow::Provider, Some("ollama-local"), None, None);
    assert_eq!(next, AfterPick::ModelPicker);
}

#[test]
fn choosing_effort_or_model_writes_and_closes() {
    assert_eq!(
        config_pick(PickedRow::Effort, Some(""), None, None),
        (vec![("thinking.effort".to_string(), TomlValue::Unset)], AfterPick::Close)
    );
    assert_eq!(
        config_pick(PickedRow::Effort, Some("high"), None, None),
        (vec![("thinking.effort".to_string(), TomlValue::Str("high".into()))], AfterPick::Close)
    );
    assert_eq!(
        config_pick(PickedRow::Model, Some("qwen3"), None, None),
        (vec![("model".to_string(), TomlValue::Str("qwen3".into()))], AfterPick::Close)
    );
    assert_eq!(config_pick(PickedRow::Model, None, None, None), (Vec::new(), AfterPick::Nothing));
    assert_eq!(config_pick(PickedRow::Other, Some("x"), None, None), (Vec::new(), AfterPick::Nothing));
}

#[test]
fn quick_switch_writes_provider_base_url_and_model() {
    assert_eq!(
        switch_apply_writes(Some("ollama-cloud"), Some("glm-5.2:cloud"), Some("https://ollama.com")),
        vec![
            ("provider".to_string(), TomlValue::Str("ollama-cloud".into())),
            ("base_url".to_string(), TomlValue::Str("https://ollama.com".into())),
            ("model".to_string(), TomlValue::Str("glm-5.2:cloud".into())),
        ]
    );
    // No model chosen: the stale model is cleared.
    assert_eq!(switch_apply_writes(Some("ollama-local"), None, None)[2], ("model".to_string(), TomlValue::Unset));
    assert!(switch_apply_writes(None, Some("m"), None).is_empty());
}

#[test]
fn cycling_wraps_both_ways() {
    assert_eq!(cycle_index(0, -1, 3), 2);
    assert_eq!(cycle_index(2, 1, 3), 0);
    assert_eq!(cycle_index(1, 1, 3), 2);
    assert_eq!(cycle_index(0, -7, 3), 2);
}
