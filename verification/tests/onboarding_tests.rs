use zoid::config::TomlValue;
use zoid::model_picker::PickOption;
use zoid::onboarding::{OnboardingNext, OnboardingState, OnboardingStep};

fn opt(id: &str, selectable: bool) -> PickOption {
    PickOption { id: id.into(), label: id.into(), detail: String::new(), is_current: false, selectable }
}

fn providers() -> Vec<PickOption> {
    vec![opt("ollama-local", true), opt("-- cloud --", false), opt("anthropic-api", true)]
}

fn w(key: &str, v: TomlValue) -> (String, TomlValue) {
    (key.to_string(), v)
}

#[test]
fn highlight_skips_headers_and_wraps() {
    let mut s = OnboardingState::start(providers(), None);
    s.move_highlight(1);
    assert_eq!(s.list_sel, 2);
    s.move_highlight(1);
    assert_eq!(s.list_sel, 0);
    s.move_highlight(-1);
    assert_eq!(s.list_sel, 2);
    s.move_highlight(-1);
    assert_eq!(s.list_sel, 0);
}

#[test]
fn highlight_stays_when_nothing_is_choosable() {
    let mut s = OnboardingState::start(vec![opt("a", false), opt("b", false)], None);
    s.list_sel = 1;
    s.move_highlight(1);
    assert_eq!(s.list_sel, 1);
    let mut empty = OnboardingState::start(Vec::new(), None);
    empty.move_highlight(1);
    assert_eq!(empty.list_sel, 0);
}

#[test]
fn keyless_provider_finishes_the_wizard() {
    let s = OnboardingState::start(providers(), None);
    let out = s.select(false, Some("http://localhost:11434"));
    assert_eq!(
        out.writes,
        vec![
            w("provider", TomlValue::Str("ollama-local".into())),
            w("base_url", TomlValue::Str("http://localhost:11434".into())),
            w("model", TomlValue::Unset),
        ]
    );
    assert!(out.secret.is_none());
    assert!(matches!(out.next, OnboardingNext::Done));
}

#[test]
fn provider_needing_a_key_moves_to_the_key_step() {
    let mut s = OnboardingState::start(providers(), Some("ollama".into()));
    s.list_sel = 2;
    let out = s.select(true, None);
    assert_eq!(out.writes[1], w("base_url", TomlValue::Unset));
    match out.next {
        OnboardingNext::Advance(k) => {
            assert_eq!(k.step, OnboardingStep::ApiKey);
            assert_eq!(k.chosen_provider, "anthropic-api");
            assert_eq!(k.list_sel, 0);
            assert!(k.key_buffer.is_empty());
            assert!(k.env_shadow.is_none());
        }
        other => panic!("{other:?}"),
    }
}

#[test]
fn unchoosable_row_changes_nothing() {
    let mut s = OnboardingState::start(providers(), None);
    s.list_sel = 1;
    let out = s.select(true, None);
    assert!(out.writes.is_empty());
    assert!(matches!(out.next, OnboardingNext::Stay(ref st) if st.list_sel == 1));
}

fn key_step(key: &str) -> OnboardingState {
    let mut s = OnboardingState::start(providers(), None);
    s.step = OnboardingStep::ApiKey;
    s.chosen_provider = "anthropic-api".into();
    s.key_buffer = key.into();
    s
}

#[test]
fn empty_key_is_a_no_op() {
    let out = key_step("").submit_key("ANTHROPIC_API_KEY", vec![opt("m1", true), opt("m2", true)]);
    assert!(out.secret.is_none());
    assert!(out.writes.is_empty());
    assert!(matches!(out.next, OnboardingNext::Stay(_)));
}

#[test]
fn key_with_several_models_moves_to_model_step() {
    let out = key_step("sk-1").submit_key("ANTHROPIC_API_KEY", vec![opt("m1", true), opt("m2", true)]);
    assert_eq!(out.secret, Some(("ANTHROPIC_API_KEY".to_string(), "sk-1".to_string())));
    assert!(out.writes.is_empty());
    match out.next {
        OnboardingNext::Advance(m) => {
            assert_eq!(m.step, OnboardingStep::Model);
            assert_eq!(m.chosen_provider, "anthropic-api");
            let ids: Vec<&str> = m.options.iter().map(|o| o.id.as_str()).collect();
            assert_eq!(ids, vec!["", "m1", "m2"]);
            assert_eq!(m.options[0].label, "use default");
            assert!(m.key_buffer.is_empty());
        }
        other => panic!("{other:?}"),
    }
}

#[test]
fn key_with_one_model_finishes_and_clears_model() {
    let out = key_step("sk-1").submit_key("ANTHROPIC_API_KEY", vec![opt("m1", true)]);
    assert!(out.secret.is_some());
    assert_eq!(out.writes, vec![w("model", TomlValue::Unset)]);
    assert!(matches!(out.next, OnboardingNext::Done));
}

#[test]
fn model_step_writes_choice_or_default() {
    let model_step = |sel: usize| {
        let mut s = OnboardingState::start(vec![opt("", true), opt("m1", true), opt("m2", true)], None);
        s.step = OnboardingStep::Model;
        s.list_sel = sel;
        s
    };
    let out = model_step(0).select(true, None);
    assert_eq!(out.writes, vec![w("model", TomlValue::Str(String::new()))]);
    assert!(matches!(out.next, OnboardingNext::Done));
    let out = model_step(2).select(true, None);
    assert_eq!(out.writes, vec![w("model", TomlValue::Str("m2".into()))]);
}

#[test]
fn back_returns_to_providers_with_previous_choice_highlighted() {
    let mut s = key_step("partial");
    s.back(providers());
    assert_eq!(s.step, OnboardingStep::Provider);
    assert_eq!(s.list_sel, 2);
    assert!(s.key_buffer.is_empty());
    let mut t = key_step("x");
    t.chosen_provider = "gone".into();
    t.back(providers());
    assert_eq!(t.list_sel, 0);
}

#[test]
fn highlight_past_the_end_wraps_back_into_the_list() {
    let mut s = OnboardingState::start(providers(), None);
    s.list_sel = 5;
    s.move_highlight(1);
    assert_eq!(s.list_sel, 0);
}
