use zoid::json::Json;
use zoid::mode_wizard::{
    approval_summary, build_reconciliation_brief, build_sidecar, imported_hint,
    materialize_failed_hint, mode_manifest_text, no_provenance_hint, parse_mapping_args,
    plan_materialize, propose_text, render_scan, slugify, stale_paths, update_source_url,
    validate_mapping, wizard_step, Answer, MappingEntry, MaterializeError, ModeImportWizard,
    ModeMapping, ProvenanceEntry, ProvenanceFile, ProvenanceSource, ScannedFile, UpstreamScan,
    WizardStep,
};

fn scan() -> UpstreamScan {
    UpstreamScan {
        url: "https://github.com/o/r/tree/main/skills".into(),
        repo: "o/r".into(),
        resolved_ref: "abc123".into(),
        subtree_path: "skills".into(),
        files: vec![
            ScannedFile {
                upstream_path: "skills/using-superpowers/SKILL.md".into(),
                sha: "sha-u".into(),
                content: "---\nname: using-superpowers\ndescription: d\n---\nLOADER\n".into(),
            },
            ScannedFile {
                upstream_path: "skills/brainstorming/SKILL.md".into(),
                sha: "sha-b".into(),
                content: "---\nname: brainstorming\ndescription: d\n---\nBODY\n".into(),
            },
            ScannedFile {
                upstream_path: "skills/README.md".into(),
                sha: "sha-r".into(),
                content: "# readme".into(),
            },
        ],
    }
}

fn mapping() -> ModeMapping {
    ModeMapping {
        mode_name: "Superpowers".into(),
        mode_description: "sp".into(),
        mode_body: "LOADER\n".into(),
        entries: vec![
            MappingEntry::Materialize {
                canonical_path: "mode.md".into(),
                source: "skills/using-superpowers/SKILL.md".into(),
                summary: "loader as mode body".into(),
            },
            MappingEntry::Materialize {
                canonical_path: "brainstorming/SKILL.md".into(),
                source: "skills/brainstorming/SKILL.md".into(),
                summary: "brainstorming skill".into(),
            },
            MappingEntry::Skip {
                upstream_path: "skills/README.md".into(),
                reason: "repo readme".into(),
            },
        ],
    }
}

fn all_parse(s: &UpstreamScan) -> Vec<Option<String>> {
    s.files.iter().map(|_| None).collect()
}

fn s(x: &str) -> Json {
    Json::Str(x.to_string())
}

fn obj(fields: Vec<(&str, Json)>) -> Json {
    let (k, v): (Vec<String>, Vec<Json>) = fields.into_iter().map(|(k, v)| (k.to_string(), v)).unzip();
    Json::Object(k, v)
}

#[test]
fn slugify_lowercases_and_kebab_cases() {
    assert_eq!(slugify("Superpowers"), "superpowers");
    assert_eq!(slugify("My Cool Mode"), "my-cool-mode");
    assert_eq!(slugify("a__b!!c"), "a-b-c");
}

#[test]
fn slugify_trims_and_drops_edge_dashes() {
    assert_eq!(slugify("  --Hello, World!--  "), "hello-world");
    assert_eq!(slugify("!!!"), "");
    assert_eq!(slugify("Ünïcode Mode"), "ünïcode-mode");
}

#[test]
fn materialize_plan_writes_files_and_sidecar() {
    let plan = plan_materialize(&mapping(), &scan(), &all_parse(&scan()), "2026-07-05T12:00:00Z").unwrap();
    let paths: Vec<&str> = plan.writes.iter().map(|(p, _)| p.as_str()).collect();
    assert_eq!(paths, vec!["mode.md", "brainstorming/SKILL.md"]);
    assert_eq!(plan.writes[0].1, "---\nname: Superpowers\ndescription: sp\n---\nLOADER\n");
    assert_eq!(plan.writes[1].1, "---\nname: brainstorming\ndescription: d\n---\nBODY\n");
    assert_eq!(plan.sidecar.mode_name, "Superpowers");
    assert_eq!(plan.sidecar.files.len(), 2);
    assert_eq!(plan.sidecar.files[0].canonical_path, "mode.md");
    assert_eq!(plan.sidecar.files[0].upstream_sha, "sha-u");
    assert_eq!(plan.sidecar.files[0].upstream_snapshot, plan.writes[0].1);
    assert_eq!(plan.sidecar.source.fetched_at, "2026-07-05T12:00:00Z");
    assert_eq!(plan.sidecar.schema, 1);
}

#[test]
fn materialize_rejects_default_name() {
    let mut m = mapping();
    m.mode_name = "default".into();
    let err = plan_materialize(&m, &scan(), &all_parse(&scan()), "t").unwrap_err();
    assert!(err.problems.iter().any(|p| p.contains("default")));
}

#[test]
fn materialize_rejects_duplicate_canonical_path() {
    let mut m = mapping();
    m.entries.push(MappingEntry::Materialize {
        canonical_path: "mode.md".into(),
        source: "skills/brainstorming/SKILL.md".into(),
        summary: "dup".into(),
    });
    let err = plan_materialize(&m, &scan(), &all_parse(&scan()), "t").unwrap_err();
    assert!(err.problems.iter().any(|p| p.contains("duplicate canonical path 'mode.md'")));
}

#[test]
fn materialize_rejects_bad_source() {
    let mut m = mapping();
    m.entries.push(MappingEntry::Materialize {
        canonical_path: "x/SKILL.md".into(),
        source: "skills/nope.md".into(),
        summary: "x".into(),
    });
    let err = plan_materialize(&m, &scan(), &all_parse(&scan()), "t").unwrap_err();
    assert!(err.problems.iter().any(|p| p.contains("not in scan")));
}

#[test]
fn materialize_rejects_unparseable_skill_md() {
    let sc = scan();
    let mut verdicts = all_parse(&sc);
    verdicts[1] = Some("missing frontmatter".to_string());
    let err = plan_materialize(&mapping(), &sc, &verdicts, "t").unwrap_err();
    assert!(err.problems.iter().any(|p| p.contains("fails parse")));
    assert_eq!(
        err.problems,
        vec!["proposed 'brainstorming/SKILL.md' (from skills/brainstorming/SKILL.md) fails parse: missing frontmatter".to_string()]
    );
}

#[test]
fn mode_md_is_synthesized_so_its_source_is_not_parse_checked() {
    let sc = scan();
    let mut verdicts = all_parse(&sc);
    verdicts[0] = Some("bad".to_string());
    assert!(validate_mapping(&mapping(), &sc, &verdicts).is_empty());
}

#[test]
fn empty_name_problems() {
    let mut m = mapping();
    m.mode_name = "".into();
    let problems = validate_mapping(&m, &scan(), &all_parse(&scan()));
    assert_eq!(
        problems,
        vec![
            "mode name slugifies to empty".to_string(),
            "mode.md entry but mode_name is empty".to_string()
        ]
    );
}

#[test]
fn manifest_omits_empty_description() {
    let mut m = mapping();
    m.mode_description = "".into();
    assert_eq!(mode_manifest_text(&m), "---\nname: Superpowers\n---\nLOADER\n");
}

#[test]
fn sidecar_skips_sources_missing_from_scan() {
    let mut m = mapping();
    m.entries.push(MappingEntry::Materialize {
        canonical_path: "gone/SKILL.md".into(),
        source: "skills/gone/SKILL.md".into(),
        summary: "".into(),
    });
    let side = build_sidecar(&m, &scan(), "t");
    assert_eq!(side.files.len(), 2);
    assert_eq!(side.source.repo, "o/r");
    assert_eq!(side.source.ref_, "abc123");
}

#[test]
fn stale_paths_lists_old_files_no_longer_mapped() {
    let old = build_sidecar(&mapping(), &scan(), "t");
    let mut m = mapping();
    m.entries.remove(1);
    assert_eq!(stale_paths(&old, &m), vec!["brainstorming/SKILL.md".to_string()]);
    assert!(stale_paths(&old, &mapping()).is_empty());
}

#[test]
fn propose_tool_returns_scan_as_text() {
    let wiz = ModeImportWizard::new_import(scan());
    let out = propose_text(&wiz);
    assert!(out.contains("skills/brainstorming/SKILL.md"));
    assert!(out.contains("BODY"));
    assert!(out.starts_with(
        "Upstream scan of https://github.com/o/r/tree/main/skills (repo o/r, ref abc123, subtree skills):\n\n"
    ));
}

#[test]
fn propose_text_prefers_the_reconciliation_brief() {
    let wiz = ModeImportWizard::new_update(scan(), "Superpowers".into(), "BRIEF".into());
    assert_eq!(propose_text(&wiz), "BRIEF");
    assert_eq!(wiz.mode_name_target.as_deref(), Some("Superpowers"));
}

#[test]
fn render_scan_blocks() {
    let mut sc = scan();
    sc.files.truncate(1);
    assert_eq!(
        render_scan(&sc),
        "Upstream scan of https://github.com/o/r/tree/main/skills (repo o/r, ref abc123, subtree skills):\n\n---\npath: skills/using-superpowers/SKILL.md\nsha: sha-u\ncontent:\n---\nname: using-superpowers\ndescription: d\n---\nLOADER\n\n\n"
    );
}

#[test]
fn reconciliation_brief_lists_old_and_new_files() {
    let old = ProvenanceFile {
        schema: 1,
        source: ProvenanceSource {
            url: "u".into(),
            repo: "o/r".into(),
            ref_: "abc".into(),
            subtree_path: "skills".into(),
            fetched_at: "t".into(),
        },
        mode_name: "Superpowers".into(),
        files: vec![ProvenanceEntry {
            canonical_path: "mode.md".into(),
            upstream_path: "skills/using-superpowers/SKILL.md".into(),
            upstream_sha: "sha-u".into(),
            upstream_ref: "abc".into(),
            upstream_snapshot: "x".into(),
        }],
    };
    let brief = build_reconciliation_brief(&old, &scan(), &vec!["unchanged".to_string()]);
    assert!(brief.starts_with("Update reconciliation for mode 'Superpowers' (fresh scan: 3 files):\n\n"));
    assert!(brief.contains("- mode.md (upstream skills/using-superpowers/SKILL.md): unchanged\n"));
    assert!(brief.contains("- (new upstream) skills/brainstorming/SKILL.md: upstream added\n"));
    assert!(!brief.contains("- (new upstream) skills/using-superpowers/SKILL.md"));
    assert!(brief.ends_with("drop or keep upstream-deleted."));
    assert_eq!(
        update_source_url(&old),
        "https://github.com/o/r/tree/abc/skills"
    );
}

#[test]
fn parse_mapping_args_round_trip() {
    let args = obj(vec![
        ("mode_name", s("Superpowers")),
        ("mode_description", s("sp")),
        ("mode_body", s("LOADER")),
        (
            "entries",
            Json::Array(vec![
                obj(vec![(
                    "Materialize",
                    obj(vec![
                        ("canonical_path", s("mode.md")),
                        ("source", s("skills/u/SKILL.md")),
                        ("summary", s("loader")),
                    ]),
                )]),
                obj(vec![(
                    "Skip",
                    obj(vec![("upstream_path", s("skills/README.md")), ("reason", s("readme"))]),
                )]),
            ]),
        ),
    ]);
    let m = parse_mapping_args(&args).unwrap();
    assert_eq!(m.mode_name, "Superpowers");
    assert_eq!(m.entries.len(), 2);
    assert!(matches!(m.entries[0], MappingEntry::Materialize { .. }));
    assert!(matches!(m.entries[1], MappingEntry::Skip { .. }));
}

#[test]
fn parse_mapping_args_rejects_missing_name() {
    let err = parse_mapping_args(&obj(vec![("entries", Json::Array(vec![]))])).unwrap_err();
    assert!(err.contains("mode_name"));
}

#[test]
fn parse_mapping_args_errors_in_order() {
    assert_eq!(
        parse_mapping_args(&obj(vec![("mode_name", s("")), ("entries", Json::Array(vec![]))])).unwrap_err(),
        "mode_name is empty"
    );
    assert_eq!(
        parse_mapping_args(&obj(vec![("mode_name", s("M"))])).unwrap_err(),
        "missing 'entries' array"
    );
    assert_eq!(
        parse_mapping_args(&obj(vec![
            ("mode_name", s("M")),
            ("entries", Json::Array(vec![obj(vec![("canonical_path", s("a"))]), Json::Null]))
        ]))
        .unwrap_err(),
        "entries[0] is neither Materialize nor Skip"
    );
}

#[test]
fn parse_mapping_args_accepts_bare_entries_and_defaults() {
    let m = parse_mapping_args(&obj(vec![
        ("mode_name", s("M")),
        (
            "entries",
            Json::Array(vec![
                obj(vec![("canonical_path", s("a/SKILL.md")), ("source", s("x"))]),
                obj(vec![("upstream_path", s("y"))]),
            ]),
        ),
    ]))
    .unwrap();
    assert_eq!(m.mode_description, "");
    assert_eq!(m.mode_body, "");
    match &m.entries[0] {
        MappingEntry::Materialize { canonical_path, source, summary } => {
            assert_eq!((canonical_path.as_str(), source.as_str(), summary.as_str()), ("a/SKILL.md", "x", ""));
        }
        _ => panic!("expected Materialize"),
    }
    match &m.entries[1] {
        MappingEntry::Skip { upstream_path, reason } => {
            assert_eq!((upstream_path.as_str(), reason.as_str()), ("y", ""));
        }
        _ => panic!("expected Skip"),
    }
}

#[test]
fn approval_summary_counts_skills_and_skips() {
    let sm = approval_summary(&mapping());
    assert!(sm.contains("Superpowers"));
    assert!(sm.contains("1 skills"));
    assert!(sm.contains("1 skipped"));
    assert_eq!(sm, "Proposed mode 'Superpowers': 1 skills, 1 skipped. Approve?");
}

#[test]
fn materialize_error_one_holds_a_single_problem() {
    let e = MaterializeError::one("boom".to_string());
    assert_eq!(e.problems, vec!["boom".to_string()]);
    let two = MaterializeError { problems: vec!["a".into(), "b".into()] };
    assert_eq!(materialize_failed_hint(&two), "materialize failed: a; b. Re-run :mode import to retry.");
}

#[test]
fn approval_answers() {
    assert_eq!(wizard_step(&Answer::Choice("Approve".into())), WizardStep::Materialize);
    assert_eq!(wizard_step(&Answer::Choice("Reject".into())), WizardStep::Cancelled);
    assert_eq!(wizard_step(&Answer::Choice("tweak".into())), WizardStep::Adjust("tweak".into()));
    assert_eq!(wizard_step(&Answer::FreeText("more".into())), WizardStep::Adjust("more".into()));
    assert_eq!(wizard_step(&Answer::LetYouDecide), WizardStep::Keep);
    assert_eq!(imported_hint("X"), "imported 'X' — Shift+Tab to it");
    assert_eq!(
        no_provenance_hint("X"),
        "mode 'X' has no import provenance; it was not imported from a URL. Use :mode import <url> instead."
    );
}
