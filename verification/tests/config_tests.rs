use zoid::config::{
    base_url_write_for, busy_block_hint, key_prompt_commit, toggle_write, companion_change, config_write_path, credential, live_model, current_write, effective_base_url, env_overrides, provider_choice, env_ref_unset, field_target,
    key_env_for, parse_thinking_env, policy_from_config, provider_label, resolve_thinking,
    value_from_buffer, wizard_needed, CompanionChange, ConfigSnapshot, EffortLevel, EnvOverrides, ProviderChoice, FieldTarget, PartialThinking, ThinkingMode,
    TomlTy, TomlValue,
};
use zoid::paths::Env;

fn toml(key: &str, ty: TomlTy) -> Option<FieldTarget> {
    Some(FieldTarget::Toml { key: key.to_string(), ty })
}

#[test]
fn config_field_target_and_value_mapping() {
    assert_eq!(field_target("OLLAMA_API_KEY", true), Some(FieldTarget::Secret));
    assert_eq!(field_target("provider", false), toml("provider", TomlTy::Str));
    assert_eq!(field_target("model", false), toml("model", TomlTy::Str));
    assert_eq!(
        field_target("context target", false),
        toml("economy.context_target", TomlTy::U64Unset)
    );
    assert_eq!(field_target("base_url", false), toml("base_url", TomlTy::StrUnsetEmpty));
    assert!(field_target("reduced motion", false).is_none());
    assert!(field_target("auto-evict cold", false).is_none());
    assert!(field_target("eviction", false).is_none());

    assert_eq!(value_from_buffer(TomlTy::U64Unset, ""), Some(TomlValue::Unset));
    assert_eq!(value_from_buffer(TomlTy::U64Unset, "(none)"), Some(TomlValue::Unset));
    assert_eq!(value_from_buffer(TomlTy::U64Unset, "512000"), Some(TomlValue::Int(512_000)));
    assert_eq!(value_from_buffer(TomlTy::U64Unset, "bogus"), Some(TomlValue::Unset));
    assert_eq!(value_from_buffer(TomlTy::StrUnsetEmpty, "  "), Some(TomlValue::Unset));
    assert_eq!(
        value_from_buffer(TomlTy::StrUnsetEmpty, "http://x"),
        Some(TomlValue::Str("http://x".into()))
    );
    assert_eq!(value_from_buffer(TomlTy::U8Pct, "150"), Some(TomlValue::Int(100)));
    assert_eq!(value_from_buffer(TomlTy::U8Pct, "80"), Some(TomlValue::Int(80)));
    assert_eq!(value_from_buffer(TomlTy::U8Pct, "xx"), None);
    assert_eq!(value_from_buffer(TomlTy::UintPlain, "4"), Some(TomlValue::Int(4)));
    assert_eq!(value_from_buffer(TomlTy::UintPlain, "-1"), None);
    assert_eq!(value_from_buffer(TomlTy::UintPlain, "xx"), None);
}

#[test]
fn remaining_field_targets() {
    assert_eq!(
        field_target("compact at %", false),
        toml("economy.compact_threshold_pct", TomlTy::U8Pct)
    );
    assert_eq!(
        field_target("band headroom %", false),
        toml("economy.band_headroom_pct", TomlTy::U8Pct)
    );
    assert_eq!(
        field_target("protected turns", false),
        toml("economy.min_protected_turns", TomlTy::UintPlain)
    );
    assert_eq!(field_target("protection pct", false), toml("economy.protection_pct", TomlTy::U8Pct));
    assert_eq!(field_target("provider", true), Some(FieldTarget::Secret));
}

#[test]
fn value_coercions_at_the_edges() {
    assert_eq!(value_from_buffer(TomlTy::U8Pct, " -7 "), Some(TomlValue::Int(0)));
    assert_eq!(value_from_buffer(TomlTy::Str, "  keep  "), Some(TomlValue::Str("  keep  ".into())));
    assert_eq!(
        value_from_buffer(TomlTy::U64Unset, "18446744073709551615"),
        Some(TomlValue::Int(-1))
    );
    assert_eq!(value_from_buffer(TomlTy::UintPlain, "+9"), Some(TomlValue::Int(9)));
}

#[test]
fn policy_from_config_maps_pct_to_absolute() {
    let p = policy_from_config(80, false, 200_000);
    assert!(!p.auto_evict_cold);
    assert_eq!(p.token_ceiling, None);
    assert_eq!(p.compact_threshold, Some(160_000));
    assert_eq!(policy_from_config(0, false, 200_000).compact_threshold, None);
}

#[test]
fn policy_threshold_saturates() {
    assert_eq!(policy_from_config(50, true, u64::MAX).compact_threshold, Some(u64::MAX / 100));
}

#[test]
fn resolve_thinking_forces_off_when_unsupported() {
    assert_eq!(resolve_thinking(true, Some("high"), true, false, false), ThinkingMode::Off);
}

#[test]
fn resolve_thinking_off_when_config_disabled() {
    assert_eq!(resolve_thinking(false, None, false, true, true), ThinkingMode::Off);
}

#[test]
fn resolve_thinking_auto_when_enabled_no_effort() {
    assert_eq!(resolve_thinking(true, None, false, false, true), ThinkingMode::Auto);
}

#[test]
fn resolve_thinking_effort_when_enabled_with_effort() {
    assert_eq!(
        resolve_thinking(true, Some("max"), false, false, true),
        ThinkingMode::Effort(EffortLevel::Max)
    );
}

#[test]
fn resolve_thinking_provider_default_flips_on_for_ollama_local() {
    assert_eq!(resolve_thinking(false, None, true, true, true), ThinkingMode::Auto);
}

#[test]
fn resolve_thinking_provider_default_off_for_cloud() {
    assert_eq!(resolve_thinking(false, None, true, false, true), ThinkingMode::Off);
}

#[test]
fn resolve_thinking_provider_default_off_when_capability_none() {
    assert_eq!(resolve_thinking(false, None, true, true, false), ThinkingMode::Off);
}

#[test]
fn resolve_thinking_env_override_wins_over_provider_default() {
    assert_eq!(resolve_thinking(false, None, false, true, true), ThinkingMode::Off);
}

#[test]
fn resolve_thinking_effort_only_section_flows_through() {
    assert_eq!(
        resolve_thinking(false, Some("high"), true, true, true),
        ThinkingMode::Effort(EffortLevel::High)
    );
}

#[test]
fn resolve_thinking_canonical_id_matches_legacy_ollama_spelling() {
    // "ollama" canonicalizes to the cloud provider, so the local default does not apply.
    assert_eq!(resolve_thinking(false, None, true, false, true), ThinkingMode::Off);
}

#[test]
fn unknown_effort_reads_as_high() {
    assert_eq!(
        resolve_thinking(true, Some("extreme"), false, false, true),
        ThinkingMode::Effort(EffortLevel::High)
    );
    assert_eq!(
        resolve_thinking(true, Some("low"), false, false, true),
        ThinkingMode::Effort(EffortLevel::Low)
    );
    assert_eq!(
        resolve_thinking(true, Some("medium"), false, false, true),
        ThinkingMode::Effort(EffortLevel::Medium)
    );
}

#[test]
fn parse_thinking_env_maps_values() {
    assert_eq!(
        parse_thinking_env("off"),
        Some(PartialThinking { enabled: Some(false), effort: None })
    );
    assert_eq!(
        parse_thinking_env("auto"),
        Some(PartialThinking { enabled: Some(true), effort: None })
    );
    assert_eq!(
        parse_thinking_env("low"),
        Some(PartialThinking { enabled: Some(true), effort: Some("low".into()) })
    );
    assert_eq!(
        parse_thinking_env("medium"),
        Some(PartialThinking { enabled: Some(true), effort: Some("medium".into()) })
    );
    assert_eq!(
        parse_thinking_env("high"),
        Some(PartialThinking { enabled: Some(true), effort: Some("high".into()) })
    );
    assert_eq!(
        parse_thinking_env("max"),
        Some(PartialThinking { enabled: Some(true), effort: Some("max".into()) })
    );
    assert!(parse_thinking_env("").is_none());
    assert!(parse_thinking_env("garbage").is_none());
    assert_eq!(
        parse_thinking_env("HIGH"),
        Some(PartialThinking { enabled: Some(true), effort: Some("high".into()) })
    );
}

#[test]
fn parse_thinking_env_synonyms_and_whitespace() {
    for v in ["disabled", "false", "0", " OFF "] {
        assert_eq!(parse_thinking_env(v).unwrap().enabled, Some(false), "{v}");
    }
    for v in ["on", "true", "1", "Auto"] {
        assert_eq!(parse_thinking_env(v).unwrap().enabled, Some(true), "{v}");
    }
    assert!(parse_thinking_env("   ").is_none());
}

#[test]
fn gate_fires_for_first_time_empty_provider() {
    assert!(wizard_needed(true, "", false, false, true));
}

#[test]
fn gate_fires_for_first_time_key_required_no_key() {
    assert!(wizard_needed(true, "anthropic-api", false, false, true));
}

#[test]
fn gate_skips_ollama_local() {
    assert!(!wizard_needed(true, "ollama-local", true, false, true));
}

#[test]
fn gate_skips_when_key_present() {
    assert!(!wizard_needed(true, "anthropic-api", false, true, true));
}

#[test]
fn gate_skips_returning_user() {
    assert!(!wizard_needed(false, "", false, false, true));
}

#[test]
fn gate_skips_when_secrets_unavailable() {
    assert!(!wizard_needed(true, "", false, false, false));
}

#[test]
fn gate_ignores_ambient_key_for_empty_provider() {
    assert!(wizard_needed(true, "", false, true, true));
}

#[test]
fn key_env_for_family() {
    assert_eq!(key_env_for(true, Some("anthropic")), Some("ANTHROPIC_API_KEY".to_string()));
    assert_eq!(key_env_for(true, Some("ollama")), Some("OLLAMA_API_KEY".to_string()));
    assert_eq!(key_env_for(false, Some("ollama")), None);
}

#[test]
fn key_env_for_opencode_go_is_opencode_go_api_key() {
    assert_eq!(key_env_for(true, Some("opencode-go")), Some("OPENCODE_GO_API_KEY".to_string()));
}

#[test]
fn key_env_for_opencode_zen_maps_to_shared_go_key() {
    assert_eq!(key_env_for(true, Some("opencode-zen")), Some("OPENCODE_GO_API_KEY".to_string()));
    assert_eq!(key_env_for(true, Some("opencode-go")), Some("OPENCODE_GO_API_KEY".to_string()));
}

#[test]
fn key_env_for_zai_coding_plan_is_zai_api_key() {
    assert_eq!(key_env_for(true, Some("zai")), Some("ZAI_API_KEY".to_string()));
}

#[test]
fn key_env_for_unknown_id_needs_the_ollama_key() {
    assert_eq!(key_env_for(true, None), Some("OLLAMA_API_KEY".to_string()));
}

#[test]
fn effective_base_url_prefers_override_then_registry() {
    assert_eq!(effective_base_url(None, Some("https://ollama.com")), "https://ollama.com");
    assert_eq!(effective_base_url(None, Some("http://localhost:11434")), "http://localhost:11434");
    assert_eq!(
        effective_base_url(Some("http://127.0.0.1:1234"), Some("http://localhost:11434")),
        "http://127.0.0.1:1234"
    );
    assert_eq!(effective_base_url(Some("   "), Some("http://localhost:11434")), "http://localhost:11434");
    assert_eq!(effective_base_url(None, None), "");
}

#[test]
fn base_url_write_seeds_registry_default_or_unsets() {
    assert_eq!(
        base_url_write_for(Some("http://localhost:11434")),
        TomlValue::Str("http://localhost:11434".into())
    );
    assert_eq!(base_url_write_for(None), TomlValue::Unset);
}

#[test]
fn provider_label_falls_back_to_offline() {
    assert_eq!(provider_label("anthropic", true), "anthropic");
    assert_eq!(provider_label("anthropic", false), "offline");
}

#[test]
fn env_refs_flag_only_unset_variables() {
    let env = Env::new(vec![("SET".to_string(), "v".to_string())]);
    assert!(!env_ref_unset("literal", &env));
    assert!(!env_ref_unset("${SET}", &env));
    assert!(env_ref_unset("a ${SET} b ${MISSING}", &env));
    assert!(!env_ref_unset("${UNTERMINATED", &env));
    assert!(env_ref_unset("$${MISSING}", &env));
}

#[test]
fn busy_hint_names_subagents_or_turn() {
    assert_eq!(busy_block_hint(0), "finish the current turn first");
    assert_eq!(
        busy_block_hint(1),
        "1 subagent running — press Esc to kill them or wait for completion"
    );
    assert_eq!(
        busy_block_hint(3),
        "3 subagents running — press Esc to kill them or wait for completion"
    );
}

fn live_config() -> ConfigSnapshot {
    ConfigSnapshot {
        provider: "ollama".to_string(),
        model: "qwen3".to_string(),
        base_url: None,
        context_target: Some(200_000),
        eviction_enabled: true,
        auto_evict_cold: false,
        compact_threshold_pct: 80,
        band_headroom_pct: 20,
        min_protected_turns: 3,
        protection_pct: 15,
        reduced_motion: false,
        thinking_enabled: true,
        thinking_effort: Some("high".to_string()),
        companion_enabled: false,
    }
}

#[test]
fn current_write_copies_live_values_to_their_keys() {
    let c = live_config();
    assert_eq!(
        current_write(&c, "provider", false),
        Some(("provider".to_string(), TomlValue::Str("ollama".into())))
    );
    assert_eq!(current_write(&c, "base_url", false), Some(("base_url".to_string(), TomlValue::Unset)));
    assert_eq!(
        current_write(&c, "context target", false),
        Some(("economy.context_target".to_string(), TomlValue::Int(200_000)))
    );
    assert_eq!(
        current_write(&c, "compact at %", false),
        Some(("economy.compact_threshold_pct".to_string(), TomlValue::Int(80)))
    );
    assert_eq!(
        current_write(&c, "protected turns", false),
        Some(("economy.min_protected_turns".to_string(), TomlValue::Int(3)))
    );
    assert_eq!(current_write(&c, "eviction", false), Some(("eviction.enabled".to_string(), TomlValue::Bool(true))));
    assert_eq!(
        current_write(&c, "effort", false),
        Some(("thinking.effort".to_string(), TomlValue::Str("high".into())))
    );
    assert_eq!(current_write(&c, "reduced motion", false), Some(("reduced_motion".to_string(), TomlValue::Bool(false))));
}

#[test]
fn current_write_never_copies_secrets_or_unknown_rows() {
    let c = live_config();
    assert_eq!(current_write(&c, "OLLAMA_API_KEY", true), None);
    assert_eq!(current_write(&c, "provider", true), None);
    assert_eq!(current_write(&c, "no such row", false), None);
}

#[test]
fn copied_key_matches_edited_key_for_every_text_row() {
    let c = live_config();
    for label in ["provider", "model", "base_url", "context target", "compact at %", "band headroom %", "protected turns", "protection pct"] {
        let edit_key = match field_target(label, false) {
            Some(FieldTarget::Toml { key, .. }) => key,
            other => panic!("{label}: {other:?}"),
        };
        let (copy_key, _) = current_write(&c, label, false).unwrap();
        assert_eq!(copy_key, edit_key);
    }
}

#[test]
fn select_provider_ollama_local_is_ready_without_key() {
    let c = provider_choice(true, Some("ollama"));
    assert_eq!(c, ProviderChoice { label: "ollama".into(), key_env: None });
}

#[test]
fn provider_choice_reads_the_family_secret() {
    let c = |f: Option<&str>| provider_choice(false, f);
    assert_eq!(c(Some("anthropic")), ProviderChoice { label: "anthropic".into(), key_env: Some("ANTHROPIC_API_KEY".into()) });
    assert_eq!(c(Some("opencode-zen")).key_env, Some("OPENCODE_GO_API_KEY".into()));
    assert_eq!(c(Some("opencode-zen")).label, "opencode-zen");
    assert_eq!(c(Some("zai")).key_env, Some("ZAI_API_KEY".into()));
    assert_eq!(c(Some("ollama")), ProviderChoice { label: "ollama".into(), key_env: Some("OLLAMA_API_KEY".into()) });
    assert_eq!(c(None), ProviderChoice { label: "ollama".into(), key_env: Some("OLLAMA_API_KEY".into()) });
    // Selection reads the secret the wizard stores.
    for f in ["anthropic", "opencode-go", "opencode-zen", "zai", "ollama", "other"] {
        assert_eq!(c(Some(f)).key_env, key_env_for(true, Some(f)));
    }
}

#[test]
fn environment_credential_wins_unless_empty() {
    assert_eq!(credential(Some("env-key"), Some("stored".into())), Some("env-key".into()));
    assert_eq!(credential(Some(""), Some("stored".into())), Some("stored".into()));
    assert_eq!(credential(None, Some("stored".into())), Some("stored".into()));
    assert_eq!(credential(None, None), None);
}

#[test]
fn env_layer_reads_each_override() {
    let env = Env::new(
        [
            ("ZOID_MODEL", "qwen3"),
            ("ZOID_THINKING", " HIGH "),
            ("ZOID_CONTEXT_CEILING", " 128000 "),
            ("ZOID_REDUCED_MOTION", "x"),
            ("ZOID_COMPANION_PORT", "+8080"),
            ("ZOID_COMPANION_OPEN", " yes"),
            ("ZOID_COMPANION_ENABLED", "no"),
            ("ZOID_EVICTION_ENABLED", "1"),
        ]
        .iter()
        .map(|(k, v)| (k.to_string(), v.to_string()))
        .collect(),
    );
    assert_eq!(
        env_overrides(&env),
        EnvOverrides {
            model: Some("qwen3".into()),
            thinking: Some(PartialThinking { enabled: Some(true), effort: Some("high".into()) }),
            context_target: Some(128_000),
            reduced_motion: Some(true),
            companion_port: Some(8080),
            companion_open: Some(true),
            companion_enabled: Some(false),
            eviction_enabled: Some(true),
        }
    );
}

#[test]
fn env_layer_ignores_empty_and_unparseable_values() {
    let env = Env::new(
        [
            ("ZOID_MODEL", ""),
            ("ZOID_THINKING", "sometimes"),
            ("ZOID_CONTEXT_CEILING", "0"),
            ("ZOID_REDUCED_MOTION", ""),
            ("ZOID_COMPANION_PORT", "70000"),
        ]
        .iter()
        .map(|(k, v)| (k.to_string(), v.to_string()))
        .collect(),
    );
    let o = env_overrides(&env);
    assert_eq!(
        o,
        EnvOverrides {
            model: None,
            thinking: None,
            context_target: None,
            reduced_motion: None,
            companion_port: None,
            companion_open: None,
            companion_enabled: None,
            eviction_enabled: None,
        }
    );
}

#[test]
fn config_writes_go_to_repo_or_user_file() {
    assert_eq!(config_write_path(true, "/home/u/.config/zoid"), "./.zoid/config.toml");
    assert_eq!(config_write_path(false, "/home/u/.config/zoid"), "/home/u/.config/zoid/config.toml");
}

#[test]
fn companion_follows_the_reloaded_config() {
    assert_eq!(companion_change(true, false), CompanionChange::Start);
    assert_eq!(companion_change(false, true), CompanionChange::Stop);
    assert_eq!(companion_change(true, true), CompanionChange::Keep);
    assert_eq!(companion_change(false, false), CompanionChange::Keep);
}

#[test]
fn empty_configured_model_means_the_default() {
    assert_eq!(live_model("", "qwen3"), "qwen3");
    assert_eq!(live_model("llama3", "qwen3"), "llama3");
}

#[test]
fn toggling_a_switch_writes_its_flipped_value() {
    let c = live_config();
    assert_eq!(toggle_write(&c, "eviction"), Some(("eviction.enabled".to_string(), TomlValue::Bool(false))));
    assert_eq!(toggle_write(&c, "auto-evict cold"), Some(("economy.auto_evict_cold".to_string(), TomlValue::Bool(true))));
    assert_eq!(toggle_write(&c, "reduced motion"), Some(("reduced_motion".to_string(), TomlValue::Bool(true))));
    assert_eq!(toggle_write(&c, "thinking"), Some(("thinking.enabled".to_string(), TomlValue::Bool(false))));
    assert_eq!(toggle_write(&c, "companion"), Some(("companion.enabled".to_string(), TomlValue::Bool(true))));
    assert_eq!(toggle_write(&c, "model"), None);
    // The toggled key is the copied key, with the opposite value.
    for label in ["eviction", "auto-evict cold", "reduced motion", "thinking"] {
        let (k1, v1) = toggle_write(&c, label).unwrap();
        let (k2, v2) = current_write(&c, label, false).unwrap();
        assert_eq!(k1, k2);
        match (v1, v2) {
            (TomlValue::Bool(a), TomlValue::Bool(b)) => assert_eq!(a, !b),
            other => panic!("{other:?}"),
        }
    }
}

#[test]
fn blank_key_commit_does_not_store_or_ready() {
    assert_eq!(key_prompt_commit("   "), None);
    assert_eq!(key_prompt_commit(""), None);
    assert_eq!(key_prompt_commit("  sk-abc \n"), Some("sk-abc".to_string()));
}
