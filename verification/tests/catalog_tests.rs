use zoid::catalog::{catalog_confirm_awaits, catalog_rows, CatalogEntry, CatalogRow};

fn entry(id: &str, kind: &[&str], repo: &str, rf: &str) -> CatalogEntry {
    CatalogEntry {
        id: id.into(),
        name: format!("{id} name"),
        kind: kind.iter().map(|k| k.to_string()).collect(),
        description: format!("{id} does things"),
        source_repo: repo.into(),
        source_ref: rf.into(),
        license: Some("MIT".into()),
    }
}

#[test]
fn awaits_only_the_selected_loading_row() {
    let rows = ["a", "b"];
    let cursor = 1;
    let selected = rows.get(cursor).copied();
    // List mode: not awaiting any fetch yet.
    assert!(!catalog_confirm_awaits(false, selected, "b"));
    // Confirm-loading: only the row whose fetch was spawned.
    assert!(catalog_confirm_awaits(true, selected, "b"));
    assert!(!catalog_confirm_awaits(true, selected, "a"));
    assert!(!catalog_confirm_awaits(true, None, "b"));
}

#[test]
fn catalog_skips_uninstallable_kinds_and_keeps_order() {
    let entries = vec![
        entry("sp", &["mode"], "obra/superpowers", "d884ae0f00"),
        entry("theme", &["theme"], "x/y", "abc"),
        entry("fs", &["mcp"], "", ""),
        entry("docs", &["other", "skills"], "o/docs", "v1"),
    ];
    let rows = catalog_rows(&entries);
    let ids: Vec<&str> = rows.iter().map(|r| r.id.as_str()).collect();
    assert_eq!(ids, vec!["sp", "fs", "docs"]);
    assert_eq!(
        rows[0],
        CatalogRow {
            id: "sp".into(),
            name: "sp name".into(),
            kind_label: "mode".into(),
            description: "sp does things".into(),
            source_label: "obra/superpowers @ d884ae0".into(),
            license: Some("MIT".into()),
        }
    );
    // An mcp entry has no source: blank label.
    assert_eq!(rows[1].source_label, "");
    // The first declared kind labels the row; a short ref is kept whole.
    assert_eq!(rows[2].kind_label, "other");
    assert_eq!(rows[2].source_label, "o/docs @ v1");
}

#[test]
fn source_ref_is_cut_by_characters_not_bytes() {
    let rows = catalog_rows(&vec![entry("u", &["skills"], "o/r", "ééééééééé")]);
    assert_eq!(rows[0].source_label, "o/r @ ééééééé");
}
