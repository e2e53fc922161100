use zoid::mode_wizard::{ScannedFile, UpstreamScan};
use zoid::plugin::{
    applied_effects, effect_gate, effective_kinds, install_precheck, install_report, is_skills_kind, pinned_ref,
    skills_installed_hint, KindOverride, plan_plugin_install, safe_effects, source_tree_url, valid_plugin_id, AppliedEffect, Effect, GateRefusal, RiskTier,
};

#[test]
fn rejects_dangerous_effect_in_v1() {
    let effects = vec![Effect::SetConfig { key: "provider".into(), value: "x".into() }];
    assert_eq!(
        effect_gate(&effects, &vec![RiskTier::Dangerous]),
        Err(GateRefusal::NeedsConfirmation(0))
    );
}

#[test]
fn rejects_safe_setconfig_in_v1() {
    let effects = vec![Effect::Activate, Effect::SetConfig { key: "skills.source_dirs".into(), value: "x".into() }];
    assert_eq!(
        effect_gate(&effects, &vec![RiskTier::Safe, RiskTier::Safe]),
        Err(GateRefusal::ConfigEffect(1))
    );
}

#[test]
fn gate_passes_activate_and_hints() {
    let effects = vec![Effect::Activate, Effect::OnboardingHint { text: "hi".into() }];
    assert_eq!(effect_gate(&effects, &vec![RiskTier::Safe, RiskTier::Safe]), Ok(()));
    assert_eq!(
        applied_effects(&effects),
        vec![AppliedEffect::Activate, AppliedEffect::OnboardingHint { text: "hi".into() }]
    );
}

#[test]
fn safe_effects_keep_only_safe_ones_in_order() {
    let effects = vec![
        Effect::Activate,
        Effect::OnboardingHint { text: "a".into() },
        Effect::OnboardingHint { text: "b".into() },
    ];
    let risks = vec![RiskTier::Safe, RiskTier::Dangerous, RiskTier::Safe];
    assert_eq!(
        safe_effects(&effects, &risks),
        vec![Effect::Activate, Effect::OnboardingHint { text: "b".into() }]
    );
}

fn scan() -> UpstreamScan {
    UpstreamScan {
        url: "u".into(),
        repo: "obra/superpowers".into(),
        resolved_ref: "SHA".into(),
        subtree_path: "skills".into(),
        files: vec![ScannedFile {
            upstream_path: "skills/brainstorming/SKILL.md".into(),
            sha: "c".into(),
            content: "---\nname: brainstorming\ndescription: creative\n---\nbody\n".into(),
        }],
    }
}

#[test]
fn install_plan_stamps_sidecar_and_returns_safe_effects() {
    let effects = vec![Effect::Activate, Effect::OnboardingHint { text: "try /mode".into() }];
    let risks = vec![RiskTier::Safe, RiskTier::Safe];
    let plan = plan_plugin_install(&effects, &risks, &scan(), "superpowers", "d884ae0", "bundled", "2024-01-01T00:00:00Z")
        .unwrap();
    assert_eq!(plan.sidecar.schema, 1);
    assert_eq!(plan.sidecar.plugin.id, "superpowers");
    assert_eq!(plan.sidecar.plugin.manifest_ref, "d884ae0");
    assert_eq!(plan.sidecar.plugin.installed_at, "2024-01-01T00:00:00Z");
    assert_eq!(plan.sidecar.source.repo, "obra/superpowers");
    assert_eq!(plan.sidecar.source.ref_, "SHA");
    assert_eq!(plan.sidecar.source.subtree, "skills");
    assert_eq!(plan.sidecar.source.origin, "bundled");
    assert!(plan.sidecar.files.is_empty());
    assert_eq!(
        plan.sidecar.effects_applied,
        vec![AppliedEffect::Activate, AppliedEffect::OnboardingHint { text: "try /mode".into() }]
    );
    assert_eq!(plan.safe_effects, effects);
}

#[test]
fn install_plan_refuses_before_anything_is_built() {
    let effects = vec![Effect::Activate, Effect::SetConfig { key: "skills.source_dirs".into(), value: "x".into() }];
    let risks = vec![RiskTier::Safe, RiskTier::Safe];
    let r = plan_plugin_install(&effects, &risks, &scan(), "superpowers", "d884ae0", "bundled", "t");
    assert!(matches!(r, Err(GateRefusal::ConfigEffect(1))));
    let r = plan_plugin_install(&vec![Effect::Activate], &vec![RiskTier::Dangerous], &scan(), "p", "m", "url", "t");
    assert!(matches!(r, Err(GateRefusal::NeedsConfirmation(0))));
}

#[test]
fn plugin_ids_are_lowercase_url_safe() {
    assert!(valid_plugin_id("superpowers"));
    assert!(valid_plugin_id("doc-tools_2.0"));
    assert!(valid_plugin_id(""));
    assert!(!valid_plugin_id("Super"));
    assert!(!valid_plugin_id("a/b"));
    assert!(!valid_plugin_id("a b"));
    assert!(!valid_plugin_id("é"));
}

#[test]
fn install_precheck_gives_usage_busy_and_invalid_id_hints() {
    assert_eq!(
        install_precheck("   ", false, None),
        Some("usage: :plugin install <id|github-url> [--mode|--skills]".to_string())
    );
    assert_eq!(
        install_precheck("superpowers", true, Some("superpowers")),
        Some("a plugin install is already in progress…".to_string())
    );
    assert_eq!(install_precheck("Bad/Id", false, Some("Bad/Id")), Some("invalid plugin id 'Bad/Id'".to_string()));
    assert_eq!(install_precheck("superpowers", false, Some("superpowers")), None);
    assert_eq!(install_precheck("https://github.com/o/r", false, None), None);
}

#[test]
fn source_tree_url_names_the_pinned_subtree() {
    assert_eq!(source_tree_url("obra/superpowers", "d884ae0", "skills"), "github.com/obra/superpowers/tree/d884ae0/skills");
}

fn strings(v: &[&str]) -> Vec<String> {
    v.iter().map(|s| s.to_string()).collect()
}

#[test]
fn kind_override_replaces_declared_kinds() {
    let declared = strings(&["mode", "skills"]);
    assert_eq!(effective_kinds(&declared, KindOverride::Declared), declared);
    assert_eq!(effective_kinds(&declared, KindOverride::Mode), strings(&["mode"]));
    assert_eq!(effective_kinds(&declared, KindOverride::Skills), strings(&["skills"]));
}

#[test]
fn skills_pack_needs_skills_without_mode() {
    assert!(is_skills_kind(&strings(&["skills"])));
    assert!(is_skills_kind(&strings(&["other", "skills"])));
    assert!(!is_skills_kind(&strings(&["skills", "mode"])));
    assert!(!is_skills_kind(&strings(&["mode"])));
    assert!(!is_skills_kind(&Vec::new()));
}

#[test]
fn apply_plugin_scan_skills_kind_reports_restart_hint_not_activation_error() {
    let mut s = scan();
    s.files.push(ScannedFile { upstream_path: "skills/using-superpowers/SKILL.md".into(), sha: "a".into(), content: String::new() });
    s.files.push(ScannedFile { upstream_path: "skills/README.md".into(), sha: "r".into(), content: String::new() });
    let hint = skills_installed_hint("superpowers", &s);
    assert_eq!(hint, "plugin 'superpowers' installed (2 skills). Restart zoid to load them.");
    assert!(hint.contains("Restart") && hint.contains("installed"));
    assert!(!hint.contains("could not be activated"));
}

#[test]
fn apply_plugin_scan_reports_honest_status_and_clears_guard() {
    let effects = vec![Effect::Activate, Effect::OnboardingHint { text: "Superpowers mode installed and active.".into() }];
    let r = install_report(&effects, true, "superpowers");
    assert!(r.activate && !r.restore_previous);
    assert_eq!(r.status, "Superpowers mode installed and active.");
    // The mode did not surface: never claim it is active.
    let r = install_report(&effects, false, "superpowers");
    assert!(!r.activate && r.restore_previous);
    assert_eq!(r.status, "plugin 'superpowers' installed but could not be activated.");
}

#[test]
fn install_report_without_hint_or_activation() {
    let r = install_report(&vec![Effect::Activate], true, "demo");
    assert_eq!(r.status, "plugin 'demo' installed and active.");
    let r = install_report(&Vec::new(), false, "demo");
    assert!(!r.activate && !r.restore_previous);
    assert_eq!(r.status, "plugin 'demo' installed.");
    let r = install_report(&vec![Effect::OnboardingHint { text: "a".into() }, Effect::OnboardingHint { text: "b".into() }], false, "demo");
    assert_eq!(r.status, "b");
}

#[test]
fn pin_prefers_declared_ref() {
    assert_eq!(pinned_ref(Some("d884ae0"), "SHA"), "d884ae0");
    assert_eq!(pinned_ref(None, "SHA"), "SHA");
}
