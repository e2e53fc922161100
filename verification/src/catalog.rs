//! The plugin catalog overlay: which catalog entries it lists and how each
//! row is labelled, and when a fetched manifest still belongs to the row the
//! user is confirming.

use crate::text::{chars_eq, chars_of, extend_chars, extend_str, string_of, sub_chars};
use vstd::prelude::*;

verus! {

/// One entry of the loaded catalog index.
#[derive(Debug, Clone, PartialEq, Eq)]
pub struct CatalogEntry {
    pub id: String,
    pub name: String,
    pub kind: Vec<String>,
    pub description: String,
    pub source_repo: String,
    pub source_ref: String,
    pub license: Option<String>,
}

/// One row of the catalog overlay.
#[derive(Debug, Clone, PartialEq, Eq)]
pub struct CatalogRow {
    pub id: String,
    pub name: String,
    pub kind_label: String,
    pub description: String,
    pub source_label: String,
    pub license: Option<String>,
}

/// A catalog row as plain text.
pub struct CatalogRowView {
    pub id: Seq<char>,
    pub name: Seq<char>,
    pub kind_label: Seq<char>,
    pub description: Seq<char>,
    pub source_label: Seq<char>,
    pub license: Option<Seq<char>>,
}

pub open spec fn opt_text(o: Option<String>) -> Option<Seq<char>> {
    match o {
        Some(s) => Some(s@),
        None => None,
    }
}

impl View for CatalogRow {
    type V = CatalogRowView;

    open spec fn view(&self) -> CatalogRowView {
        CatalogRowView {
            id: self.id@,
            name: self.name@,
            kind_label: self.kind_label@,
            description: self.description@,
            source_label: self.source_label@,
            license: opt_text(self.license),
        }
    }
}

/// A kind the overlay can install.
pub open spec fn installable_kind(k: Seq<char>) -> bool {
    k == "mode"@ || k == "skills"@ || k == "mcp"@
}

/// The entry declares at least one installable kind.
pub open spec fn listed(e: CatalogEntry) -> bool {
    exists|i: int| 0 <= i < e.kind@.len() && installable_kind(#[trigger] e.kind@[i]@)
}

/// The source label: `repo @ ref`, the ref cut to its first seven
/// characters; blank for an entry with no source repo (an mcp entry).
pub open spec fn source_label(repo: Seq<char>, rf: Seq<char>) -> Seq<char> {
    if repo.len() == 0 {
        Seq::empty()
    } else {
        repo + " @ "@ + rf.take(if rf.len() < 7 { rf.len() as int } else { 7 })
    }
}

/// The row an entry becomes: its first declared kind labels it.
pub open spec fn row_of(e: CatalogEntry) -> CatalogRowView {
    CatalogRowView {
        id: e.id@,
        name: e.name@,
        kind_label: if e.kind@.len() > 0 { e.kind@[0]@ } else { Seq::empty() },
        description: e.description@,
        source_label: source_label(e.source_repo@, e.source_ref@),
        license: opt_text(e.license),
    }
}

/// The rows of the listed entries, in catalog order.
pub open spec fn catalog_view(entries: Seq<CatalogEntry>) -> Seq<CatalogRowView>
    decreases entries.len(),
{
    if entries.len() == 0 {
        Seq::empty()
    } else {
        let n = entries.len() - 1;
        let head = catalog_view(entries.take(n));
        if listed(entries[n]) {
            head.push(row_of(entries[n]))
        } else {
            head
        }
    }
}

fn is_installable(k: &String) -> (r: bool)
    ensures
        r == installable_kind(k@),
{
    let c = chars_of(k.as_str());
    chars_eq(&c, &chars_of("mode")) || chars_eq(&c, &chars_of("skills")) || chars_eq(
        &c,
        &chars_of("mcp"),
    )
}

fn entry_listed(e: &CatalogEntry) -> (r: bool)
    ensures
        r == listed(*e),
{
    let mut i: usize = 0;
    while i < e.kind.len()
        invariant
            i <= e.kind@.len(),
            forall|j: int| 0 <= j < i ==> !installable_kind(#[trigger] e.kind@[j]@),
        decreases e.kind@.len() - i,
    {
        if is_installable(&e.kind[i]) {
            return true;
        }
        i += 1;
    }
    false
}

fn make_source_label(repo: &String, rf: &String) -> (r: String)
    ensures
        r@ == source_label(repo@, rf@),
{
    proof {
        reveal_strlit("");
    }
    let repo_c = chars_of(repo.as_str());
    if repo_c.len() == 0 {
        return String::from_str("");
    }
    let rf_c = chars_of(rf.as_str());
    let cut: usize = if rf_c.len() < 7 {
        rf_c.len()
    } else {
        7
    };
    let mut out = repo_c;
    extend_str(&mut out, " @ ");
    let head = sub_chars(&rf_c, 0, cut);
    extend_chars(&mut out, &head);
    assert(rf_c@.subrange(0, cut as int) =~= rf_c@.take(cut as int));
    string_of(&out)
}

fn clone_opt(o: &Option<String>) -> (r: Option<String>)
    ensures
        opt_text(r) == opt_text(*o),
{
    match o {
        Some(s) => Some(s.clone()),
        None => None,
    }
}

/// The overlay's rows for a loaded catalog: entries with no installable
/// kind (`mode`, `skills`, `mcp`) are skipped; the rest keep their order.
pub fn catalog_rows(entries: &Vec<CatalogEntry>) -> (r: Vec<CatalogRow>)
    ensures
        r@.map_values(|row: CatalogRow| row@) == catalog_view(entries@),
{
    proof {
        reveal_strlit("");
    }
    let mut out: Vec<CatalogRow> = Vec::new();
    let mut i: usize = 0;
    while i < entries.len()
        invariant
            i <= entries@.len(),
            out@.map_values(|row: CatalogRow| row@) == catalog_view(entries@.take(i as int)),
        decreases entries@.len() - i,
    {
        let e = &entries[i];
        assert(entries@.take(i + 1).take(i as int) =~= entries@.take(i as int));
        assert(entries@.take(i + 1)[i as int] == entries@[i as int]);
        if entry_listed(e) {
            let kind_label = if e.kind.len() > 0 {
                e.kind[0].clone()
            } else {
                String::from_str("")
            };
            let row = CatalogRow {
                id: e.id.clone(),
                name: e.name.clone(),
                kind_label,
                description: e.description.clone(),
                source_label: make_source_label(&e.source_repo, &e.source_ref),
                license: clone_opt(&e.license),
            };
            assert(row@ == row_of(*e));
            let ghost before = out@;
            out.push(row);
            assert(out@.map_values(|x: CatalogRow| x@) =~= before.map_values(|x: CatalogRow| x@).push(
                row_of(*e),
            ));
        }
        i += 1;
    }
    assert(entries@.take(i as int) =~= entries@);
    out
}

/// A fetched manifest fills the overlay only while the overlay is waiting
/// for a manifest (`confirm_loading`) and the row under the cursor is the
/// one the fetch was for; a fetch for a row the user moved away from is
/// dropped.
pub fn catalog_confirm_awaits(confirm_loading: bool, selected_id: Option<&str>, arrived_id: &str) -> (r: bool)
    ensures
        r == (confirm_loading && (selected_id matches Some(s) && s@ == arrived_id@)),
{
    if !confirm_loading {
        return false;
    }
    match selected_id {
        Some(s) => chars_eq(&chars_of(s), &chars_of(arrived_id)),
        None => false,
    }
}

} // verus!
