//! The URL import wizard's pure half: the mapping a model proposes from an
//! upstream scan, its validation, the files and provenance sidecar that a
//! successful import writes, the slug of a mode name, and the texts the
//! wizard shows (scan, reconciliation brief, approval summary).

use crate::json::{get, get_str, jget, jstr, Json};
use crate::text::{
    chars_eq, chars_of, decimal, decimal_chars, extend_chars, extend_str, string_of, trim,
    trim_chars,
};
use vstd::prelude::*;

verus! {

// ---------------------------------------------------------------------------
// Data
// ---------------------------------------------------------------------------

/// One file of an upstream scan.
#[derive(Debug, Clone)]
pub struct ScannedFile {
    pub upstream_path: String,
    pub sha: String,
    pub content: String,
}

/// A fetched upstream subtree: where it came from and the files in it.
#[derive(Debug, Clone)]
pub struct UpstreamScan {
    pub url: String,
    pub repo: String,
    pub resolved_ref: String,
    pub subtree_path: String,
    pub files: Vec<ScannedFile>,
}

/// One line of a proposed mapping: copy an upstream file to a canonical
/// path, or skip an upstream file with a reason.
#[derive(Debug, Clone)]
pub enum MappingEntry {
    Materialize { canonical_path: String, source: String, summary: String },
    Skip { upstream_path: String, reason: String },
}

/// A mapping entry as plain values.
pub enum EntryView {
    Materialize { canonical_path: Seq<char>, source: Seq<char>, summary: Seq<char> },
    Skip { upstream_path: Seq<char>, reason: Seq<char> },
}

impl View for MappingEntry {
    type V = EntryView;

    open spec fn view(&self) -> EntryView {
        match self {
            MappingEntry::Materialize { canonical_path, source, summary } => EntryView::Materialize {
                canonical_path: canonical_path@,
                source: source@,
                summary: summary@,
            },
            MappingEntry::Skip { upstream_path, reason } => EntryView::Skip {
                upstream_path: upstream_path@,
                reason: reason@,
            },
        }
    }
}

/// The model's proposal: the mode's name, description and overlay body, and
/// what becomes of each upstream file.
#[derive(Debug, Clone)]
pub struct ModeMapping {
    pub mode_name: String,
    pub mode_description: String,
    pub mode_body: String,
    pub entries: Vec<MappingEntry>,
}

/// A mode mapping as plain values.
pub struct MappingView {
    pub mode_name: Seq<char>,
    pub mode_description: Seq<char>,
    pub mode_body: Seq<char>,
    pub entries: Seq<EntryView>,
}

impl View for ModeMapping {
    type V = MappingView;

    open spec fn view(&self) -> MappingView {
        MappingView {
            mode_name: self.mode_name@,
            mode_description: self.mode_description@,
            mode_body: self.mode_body@,
            entries: self.entries@.map_values(|e: MappingEntry| e@),
        }
    }
}

/// One materialized file's provenance.
#[derive(Debug, Clone)]
pub struct ProvenanceEntry {
    pub canonical_path: String,
    pub upstream_path: String,
    pub upstream_sha: String,
    pub upstream_ref: String,
    pub upstream_snapshot: String,
}

/// Where an imported mode came from.
#[derive(Debug, Clone)]
pub struct ProvenanceSource {
    pub url: String,
    pub repo: String,
    pub ref_: String,
    pub subtree_path: String,
    pub fetched_at: String,
}

/// The `.zoid-provenance.json` sidecar written beside an imported mode.
#[derive(Debug, Clone)]
pub struct ProvenanceFile {
    pub schema: u32,
    pub source: ProvenanceSource,
    pub mode_name: String,
    pub files: Vec<ProvenanceEntry>,
}

/// The wizard state held while an import or update is in flight. `scan` is
/// cached so the chat-iterate loop never re-fetches; `mode_name_target` is
/// the mode being updated (`None` for an import).
#[derive(Debug, Clone)]
pub struct ModeImportWizard {
    pub scan: UpstreamScan,
    pub mode_name_target: Option<String>,
    pub reconciliation_brief: Option<String>,
}

impl ModeImportWizard {
    /// The wizard for a fresh import.
    pub fn new_import(scan: UpstreamScan) -> (r: Self)
        ensures
            r.scan == scan,
            r.mode_name_target is None,
            r.reconciliation_brief is None,
    {
        ModeImportWizard { scan, mode_name_target: None, reconciliation_brief: None }
    }

    /// The wizard for updating the mode `target`, with its reconciliation
    /// brief.
    pub fn new_update(scan: UpstreamScan, target: String, brief: String) -> (r: Self)
        ensures
            r.scan == scan,
            r.mode_name_target == Some(target),
            r.reconciliation_brief == Some(brief),
    {
        ModeImportWizard { scan, mode_name_target: Some(target), reconciliation_brief: Some(brief) }
    }
}

/// A structured materialize failure: every problem found.
#[derive(Debug, Clone)]
pub struct MaterializeError {
    pub problems: Vec<String>,
}

impl MaterializeError {
    /// A failure with a single problem.
    pub fn one(msg: String) -> (r: Self)
        ensures
            r.problems@.len() == 1,
            r.problems@[0] == msg,
    {
        let mut problems: Vec<String> = Vec::new();
        problems.push(msg);
        MaterializeError { problems }
    }
}

// ---------------------------------------------------------------------------
// Slugs
// ---------------------------------------------------------------------------

/// What `str::to_lowercase` returns for a string.
pub uninterp spec fn str_lowercase(s: Seq<char>) -> Seq<char>;

/// What `char::is_alphanumeric` returns for a character.
pub uninterp spec fn char_alphanumeric(c: char) -> bool;

/// `str::to_lowercase`, the Unicode lowercase mapping of a whole string.
/// The contract only names the result: it is a function of the text alone.
#[verifier::external_body]
fn to_lowercase(s: &str) -> (r: String)
    ensures
        r@ == str_lowercase(s@),
{
    s.to_lowercase()
}

/// `char::is_alphanumeric`, Unicode `Alphabetic` or `Numeric`. The contract
/// only names the result: it is a function of the character alone.
#[verifier::external_body]
fn is_alphanumeric(c: char) -> (r: bool)
    ensures
        r == char_alphanumeric(c),
{
    c.is_alphanumeric()
}

/// Every character that is not alphanumeric becomes `-`.
pub open spec fn dash_non_alnum(s: Seq<char>) -> Seq<char> {
    s.map_values(|c: char| if char_alphanumeric(c) { c } else { '-' })
}

/// Runs of `-` squeezed to one, with no `-` at the front.
pub open spec fn squeeze_dashes(s: Seq<char>) -> Seq<char>
    decreases s.len(),
{
    if s.len() == 0 {
        s
    } else {
        let p = squeeze_dashes(s.drop_last());
        if s.last() == '-' {
            if p.len() == 0 || p.last() == '-' {
                p
            } else {
                p.push('-')
            }
        } else {
            p.push(s.last())
        }
    }
}

/// `s` without leading `-`.
pub open spec fn trim_start_dashes(s: Seq<char>) -> Seq<char>
    decreases s.len(),
{
    if s.len() > 0 && s[0] == '-' {
        trim_start_dashes(s.drop_first())
    } else {
        s
    }
}

/// `s` without trailing `-`.
pub open spec fn trim_end_dashes(s: Seq<char>) -> Seq<char>
    decreases s.len(),
{
    if s.len() > 0 && s.last() == '-' {
        trim_end_dashes(s.drop_last())
    } else {
        s
    }
}

/// The lowercase-kebab-case slug of a mode name: trimmed, lowercased, every
/// non-alphanumeric character a dash, runs of dashes squeezed to one, no
/// dash at either end.
pub open spec fn slug(name: Seq<char>) -> Seq<char> {
    trim_end_dashes(trim_start_dashes(squeeze_dashes(dash_non_alnum(str_lowercase(trim(name))))))
}

proof fn lemma_squeeze_shape(s: Seq<char>)
    ensures
        squeeze_dashes(s).len() > 0 ==> squeeze_dashes(s)[0] != '-',
        forall|i: int|
            0 <= i < squeeze_dashes(s).len() - 1 ==> !(#[trigger] squeeze_dashes(s)[i] == '-'
                && squeeze_dashes(s)[i + 1] == '-'),
    decreases s.len(),
{
    if s.len() > 0 {
        lemma_squeeze_shape(s.drop_last());
        let p = squeeze_dashes(s.drop_last());
        let q = squeeze_dashes(s);
        assert forall|i: int| 0 <= i < q.len() - 1 implies !(#[trigger] q[i] == '-' && q[i + 1] == '-') by {
            if i < p.len() - 1 {
                assert(q[i] == p[i] && q[i + 1] == p[i + 1]);
            }
        }
    }
}

proof fn lemma_trim_start_dashes_shape(s: Seq<char>)
    requires
        forall|i: int| 0 <= i < s.len() - 1 ==> !(#[trigger] s[i] == '-' && s[i + 1] == '-'),
    ensures
        trim_start_dashes(s).len() > 0 ==> trim_start_dashes(s)[0] != '-',
        forall|i: int|
            0 <= i < trim_start_dashes(s).len() - 1 ==> !(#[trigger] trim_start_dashes(s)[i] == '-'
                && trim_start_dashes(s)[i + 1] == '-'),
    decreases s.len(),
{
    if s.len() > 0 && s[0] == '-' {
        let t = s.drop_first();
        assert forall|i: int| 0 <= i < t.len() - 1 implies !(#[trigger] t[i] == '-' && t[i + 1] == '-') by {
            assert(t[i] == s[i + 1] && t[i + 1] == s[i + 2]);
        }
        lemma_trim_start_dashes_shape(t);
    }
}

proof fn lemma_trim_end_dashes_shape(s: Seq<char>)
    requires
        s.len() > 0 ==> s[0] != '-',
        forall|i: int| 0 <= i < s.len() - 1 ==> !(#[trigger] s[i] == '-' && s[i + 1] == '-'),
    ensures
        trim_end_dashes(s).len() > 0 ==> trim_end_dashes(s)[0] != '-' && trim_end_dashes(s).last() != '-',
        forall|i: int|
            0 <= i < trim_end_dashes(s).len() - 1 ==> !(#[trigger] trim_end_dashes(s)[i] == '-'
                && trim_end_dashes(s)[i + 1] == '-'),
    decreases s.len(),
{
    if s.len() > 0 && s.last() == '-' {
        let t = s.drop_last();
        assert forall|i: int| 0 <= i < t.len() - 1 implies !(#[trigger] t[i] == '-' && t[i + 1] == '-') by {
            assert(t[i] == s[i] && t[i + 1] == s[i + 1]);
        }
        if t.len() > 0 {
            assert(t[0] == s[0]);
        }
        lemma_trim_end_dashes_shape(t);
    }
}

/// A slug is kebab-shaped: it neither starts nor ends with a dash, and no
/// two dashes stand side by side.
pub proof fn lemma_slug_is_kebab(name: Seq<char>)
    ensures
        slug(name).len() > 0 ==> slug(name)[0] != '-' && slug(name).last() != '-',
        forall|i: int| 0 <= i < slug(name).len() - 1 ==> !(#[trigger] slug(name)[i] == '-' && slug(name)[i + 1] == '-'),
{
    let s = squeeze_dashes(dash_non_alnum(str_lowercase(trim(name))));
    lemma_squeeze_shape(dash_non_alnum(str_lowercase(trim(name))));
    lemma_trim_start_dashes_shape(s);
    lemma_trim_end_dashes_shape(trim_start_dashes(s));
}

/// `s` with every `-` taken out.
pub open spec fn undashed(s: Seq<char>) -> Seq<char>
    decreases s.len(),
{
    if s.len() == 0 {
        s
    } else if s.last() == '-' {
        undashed(s.drop_last())
    } else {
        undashed(s.drop_last()).push(s.last())
    }
}

/// The alphanumeric characters of `s` other than `-`, in order.
pub open spec fn alnum_chars(s: Seq<char>) -> Seq<char>
    decreases s.len(),
{
    if s.len() == 0 {
        s
    } else if char_alphanumeric(s.last()) && s.last() != '-' {
        alnum_chars(s.drop_last()).push(s.last())
    } else {
        alnum_chars(s.drop_last())
    }
}

proof fn lemma_undashed_push(p: Seq<char>, c: char)
    ensures
        undashed(p.push(c)) == (if c == '-' {
            undashed(p)
        } else {
            undashed(p).push(c)
        }),
{
    assert(p.push(c).drop_last() =~= p);
}

proof fn lemma_undashed_drop_first(s: Seq<char>)
    requires
        s.len() > 0,
    ensures
        undashed(s) == (if s[0] == '-' {
            undashed(s.drop_first())
        } else {
            seq![s[0]] + undashed(s.drop_first())
        }),
    decreases s.len(),
{
    if s.len() == 1 {
        assert(undashed(s.drop_last()) =~= Seq::<char>::empty());
        assert(undashed(s.drop_first()) =~= Seq::<char>::empty());
        assert(s.last() == s[0]);
        assert(seq![s[0]] + Seq::<char>::empty() =~= Seq::<char>::empty().push(s[0]));
    } else {
        let d = s.drop_last();
        lemma_undashed_drop_first(d);
        assert(d[0] == s[0]);
        assert(s.drop_first().drop_last() =~= d.drop_first());
        assert(s.drop_first().last() == s.last());
        let x = undashed(d.drop_first());
        if s[0] != '-' && s.last() != '-' {
            assert((seq![s[0]] + x).push(s.last()) =~= seq![s[0]] + x.push(s.last()));
        }
    }
}

proof fn lemma_undashed_dash_non_alnum(s: Seq<char>)
    ensures
        undashed(dash_non_alnum(s)) == alnum_chars(s),
    decreases s.len(),
{
    if s.len() > 0 {
        lemma_undashed_dash_non_alnum(s.drop_last());
        assert(dash_non_alnum(s) =~= dash_non_alnum(s.drop_last()).push(dash_non_alnum(s).last()));
        assert(dash_non_alnum(s).last() == (if char_alphanumeric(s.last()) {
            s.last()
        } else {
            '-'
        }));
        lemma_undashed_push(dash_non_alnum(s.drop_last()), dash_non_alnum(s).last());
    }
}

proof fn lemma_undashed_squeeze(s: Seq<char>)
    ensures
        undashed(squeeze_dashes(s)) == undashed(s),
    decreases s.len(),
{
    if s.len() > 0 {
        lemma_undashed_squeeze(s.drop_last());
        let p = squeeze_dashes(s.drop_last());
        lemma_undashed_push(p, s.last());
    }
}

proof fn lemma_undashed_trim_start(s: Seq<char>)
    ensures
        undashed(trim_start_dashes(s)) == undashed(s),
    decreases s.len(),
{
    if s.len() > 0 && s[0] == '-' {
        lemma_undashed_drop_first(s);
        lemma_undashed_trim_start(s.drop_first());
    }
}

proof fn lemma_undashed_trim_end(s: Seq<char>)
    ensures
        undashed(trim_end_dashes(s)) == undashed(s),
    decreases s.len(),
{
    if s.len() > 0 && s.last() == '-' {
        lemma_undashed_trim_end(s.drop_last());
    }
}

/// A slug keeps every alphanumeric character of the trimmed, lowercased
/// name (digits included), in order: taking the dashes out of the slug
/// leaves exactly those characters, so only what is not alphanumeric turns
/// into a dash.
pub proof fn lemma_slug_keeps_every_alphanumeric(name: Seq<char>)
    ensures
        undashed(slug(name)) == alnum_chars(str_lowercase(trim(name))),
{
    let l = str_lowercase(trim(name));
    lemma_undashed_dash_non_alnum(l);
    lemma_undashed_squeeze(dash_non_alnum(l));
    lemma_undashed_trim_start(squeeze_dashes(dash_non_alnum(l)));
    lemma_undashed_trim_end(trim_start_dashes(squeeze_dashes(dash_non_alnum(l))));
}

/// Lowercase-kebab-case filesystem-safe slug from a mode name.
pub fn slugify(name: &str) -> (r: String)
    ensures
        r@ == slug(name@),
{
    let t = string_of(&trim_chars(&chars_of(name)));
    let low = chars_of(to_lowercase(t.as_str()).as_str());
    let ghost raw = dash_non_alnum(low@);
    let mut out: Vec<char> = Vec::new();
    let mut i: usize = 0;
    while i < low.len()
        invariant
            i <= low@.len(),
            raw == dash_non_alnum(low@),
            out@ == squeeze_dashes(raw.take(i as int)),
        decreases low@.len() - i,
    {
        let c0 = low[i];
        let c = if is_alphanumeric(c0) {
            c0
        } else {
            '-'
        };
        assert(raw[i as int] == c);
        assert(raw.take(i + 1).drop_last() =~= raw.take(i as int));
        if c == '-' {
            if out.len() > 0 && out[out.len() - 1] != '-' {
                out.push('-');
            }
        } else {
            out.push(c);
        }
        i += 1;
    }
    assert(raw.take(i as int) =~= raw);
    let ghost sq = out@;
    assert(sq.subrange(0, sq.len() as int) =~= sq);
    let mut a: usize = 0;
    while a < out.len() && out[a] == '-'
        invariant
            a <= out@.len(),
            trim_start_dashes(sq) == trim_start_dashes(sq.subrange(a as int, sq.len() as int)),
            sq == out@,
        decreases out@.len() - a,
    {
        assert(sq.subrange(a as int, sq.len() as int).drop_first() =~= sq.subrange(a + 1, sq.len() as int));
        a += 1;
    }
    assert(trim_start_dashes(sq) == sq.subrange(a as int, sq.len() as int));
    let ghost st = sq.subrange(a as int, sq.len() as int);
    let mut b: usize = out.len();
    while b > a && out[b - 1] == '-'
        invariant
            a <= b <= out@.len(),
            sq == out@,
            st == sq.subrange(a as int, sq.len() as int),
            trim_end_dashes(st) == trim_end_dashes(sq.subrange(a as int, b as int)),
        decreases b,
    {
        assert(sq.subrange(a as int, b as int).drop_last() =~= sq.subrange(a as int, b - 1));
        b -= 1;
    }
    let mut res: Vec<char> = Vec::new();
    let mut k: usize = a;
    while k < b
        invariant
            a <= k <= b <= out@.len(),
            res@ =~= out@.subrange(a as int, k as int),
        decreases b - k,
    {
        res.push(out[k]);
        k += 1;
    }
    assert(trim_end_dashes(st) == res@);
    string_of(&res)
}

// ---------------------------------------------------------------------------
// Validation and materialization plan
// ---------------------------------------------------------------------------

/// `s` ends with `suffix`.
pub open spec fn ends_with(s: Seq<char>, suffix: Seq<char>) -> bool {
    s.len() >= suffix.len() && s.skip(s.len() - suffix.len()) == suffix
}

/// A canonical path whose content must parse as a skill: a `SKILL.md` that
/// is not the synthesized `mode.md`.
pub open spec fn requires_parse(cp: Seq<char>) -> bool {
    ends_with(cp, "SKILL.md"@) && cp != "mode.md"@
}

/// Index of the first scanned file at or after `i` whose upstream path is
/// `src`, or `files.len()` when there is none.
pub open spec fn file_index_from(files: Seq<ScannedFile>, src: Seq<char>, i: int) -> int
    decreases files.len() - i,
{
    if i >= files.len() {
        files.len() as int
    } else if files[i].upstream_path@ == src {
        i
    } else {
        file_index_from(files, src, i + 1)
    }
}

/// Index of the first scanned file whose upstream path is `src`, or
/// `files.len()` when there is none.
pub open spec fn file_index(files: Seq<ScannedFile>, src: Seq<char>) -> int {
    file_index_from(files, src, 0)
}

proof fn lemma_file_index_from(files: Seq<ScannedFile>, src: Seq<char>, i: int)
    requires
        0 <= i <= files.len(),
    ensures
        i <= file_index_from(files, src, i) <= files.len(),
        file_index_from(files, src, i) < files.len() ==> files[file_index_from(files, src, i)].upstream_path@ == src,
    decreases files.len() - i,
{
    if i < files.len() && files[i].upstream_path@ != src {
        lemma_file_index_from(files, src, i + 1);
    }
}

/// Parse verdicts as plain values: `Some(reason)` for a file that fails.
pub open spec fn verdicts_view(v: Seq<Option<String>>) -> Seq<Option<Seq<char>>> {
    v.map_values(|o: Option<String>| match o {
        Some(s) => Some(s@),
        None => None,
    })
}

/// One entry's effect on the (seen canonical paths, problems) state of
/// validation.
pub open spec fn check_entry(
    name: Seq<char>,
    files: Seq<ScannedFile>,
    verdicts: Seq<Option<Seq<char>>>,
    state: (Seq<Seq<char>>, Seq<Seq<char>>),
    e: EntryView,
) -> (Seq<Seq<char>>, Seq<Seq<char>>) {
    let (seen, probs) = state;
    match e {
        EntryView::Skip { .. } => state,
        EntryView::Materialize { canonical_path: cp, source: src, .. } => {
            if seen.contains(cp) {
                (seen, probs.push("duplicate canonical path '"@ + cp + "'"@))
            } else {
                let seen2 = seen.push(cp);
                let p1 = if cp == "mode.md"@ && name.len() == 0 {
                    probs.push("mode.md entry but mode_name is empty"@)
                } else {
                    probs
                };
                let j = file_index(files, src);
                if j >= files.len() {
                    (seen2, p1.push("entry references upstream path '"@ + src + "' not in scan"@))
                } else if requires_parse(cp) && verdicts[j] is Some {
                    (
                        seen2,
                        p1.push(
                            "proposed '"@ + cp + "' (from "@ + src + ") fails parse: "@ + verdicts[j]->0,
                        ),
                    )
                } else {
                    (seen2, p1)
                }
            }
        },
    }
}

/// Validation state after a run of entries.
pub open spec fn check_entries(
    name: Seq<char>,
    files: Seq<ScannedFile>,
    verdicts: Seq<Option<Seq<char>>>,
    es: Seq<EntryView>,
) -> (Seq<Seq<char>>, Seq<Seq<char>>)
    decreases es.len(),
{
    if es.len() == 0 {
        (Seq::empty(), Seq::empty())
    } else {
        check_entry(name, files, verdicts, check_entries(name, files, verdicts, es.drop_last()), es.last())
    }
}

/// Problems with the mode name itself.
pub open spec fn name_problems(name: Seq<char>) -> Seq<Seq<char>> {
    let a: Seq<Seq<char>> = if slug(name).len() == 0 {
        seq!["mode name slugifies to empty"@]
    } else {
        Seq::empty()
    };
    if name == "default"@ {
        a.push("mode name 'default' collides with the Chat floor"@)
    } else {
        a
    }
}

/// Every problem with a mapping against a scan, given for each scanned file
/// whether its content parses as a skill (`Some(reason)` when it does not).
pub open spec fn mapping_problems(m: MappingView, files: Seq<ScannedFile>, verdicts: Seq<Option<Seq<char>>>) -> Seq<Seq<char>> {
    name_problems(m.mode_name) + check_entries(m.mode_name, files, verdicts, m.entries).1
}

/// The synthesized `mode.md`: frontmatter with the name and (when not
/// empty) the description, then the body.
pub open spec fn mode_manifest(m: MappingView) -> Seq<char> {
    "---\nname: "@ + m.mode_name + "\n"@ + (if m.mode_description.len() > 0 {
        "description: "@ + m.mode_description + "\n"@
    } else {
        Seq::empty()
    }) + "---\n"@ + m.mode_body
}

fn eq_str(a: &str, b: &str) -> (r: bool)
    ensures
        r == (a@ == b@),
{
    chars_eq(&chars_of(a), &chars_of(b))
}

fn ends_with_str(s: &str, suffix: &str) -> (r: bool)
    ensures
        r == ends_with(s@, suffix@),
{
    let a = chars_of(s);
    let b = chars_of(suffix);
    if a.len() < b.len() {
        return false;
    }
    let off = a.len() - b.len();
    let mut i: usize = 0;
    while i < b.len()
        invariant
            off + b@.len() == a@.len(),
            a@.len() == a.len(),
            b@.len() == b.len(),
            a@ == s@,
            b@ == suffix@,
            i <= b@.len(),
            forall|j: int| 0 <= j < i ==> a@[off + j] == b@[j],
        decreases b@.len() - i,
    {
        if a[off + i] != b[i] {
            assert(a@.skip(off as int)[i as int] != b@[i as int]);
            return false;
        }
        i += 1;
    }
    assert(a@.skip(off as int) =~= b@);
    true
}

fn contains_str(v: &Vec<String>, x: &str) -> (r: bool)
    ensures
        r == v@.map_values(|s: String| s@).contains(x@),
{
    let ghost vs = v@.map_values(|s: String| s@);
    let mut i: usize = 0;
    while i < v.len()
        invariant
            i <= v@.len(),
            vs == v@.map_values(|s: String| s@),
            forall|j: int| 0 <= j < i ==> vs[j] != x@,
        decreases v@.len() - i,
    {
        if eq_str(v[i].as_str(), x) {
            assert(vs[i as int] == x@);
            return true;
        }
        i += 1;
    }
    false
}

fn find_file(files: &Vec<ScannedFile>, src: &str) -> (r: usize)
    ensures
        r == file_index(files@, src@),
        r <= files@.len(),
        r < files@.len() ==> files@[r as int].upstream_path@ == src@,
{
    proof {
        lemma_file_index_from(files@, src@, 0);
    }
    let mut i: usize = 0;
    while i < files.len()
        invariant
            i <= files@.len(),
            file_index_from(files@, src@, i as int) == file_index(files@, src@),
        decreases files@.len() - i,
    {
        if eq_str(files[i].upstream_path.as_str(), src) {
            return i;
        }
        i += 1;
    }
    i
}

fn push_str_vec(v: &mut Vec<String>, parts: &Vec<char>)
    ensures
        final(v)@.map_values(|s: String| s@) == old(v)@.map_values(|s: String| s@).push(parts@),
{
    let ghost before = v@.map_values(|s: String| s@);
    v.push(string_of(parts));
    assert(v@.map_values(|s: String| s@) =~= before.push(parts@));
}

/// Validate a proposed mapping against the scan, given for each scanned file
/// whether its content parses as a skill (`Some(reason)` when it does not).
/// Returns every problem found, in order.
pub fn validate_mapping(mapping: &ModeMapping, scan: &UpstreamScan, parse_errors: &Vec<Option<String>>) -> (r: Vec<String>)
    requires
        parse_errors@.len() == scan.files@.len(),
    ensures
        r@.map_values(|s: String| s@) == mapping_problems(mapping@, scan.files@, verdicts_view(parse_errors@)),
{
    let ghost m = mapping@;
    let ghost files = scan.files@;
    let ghost vs = verdicts_view(parse_errors@);
    let mut probs: Vec<String> = Vec::new();
    let slug_s = slugify(mapping.mode_name.as_str());
    if chars_of(slug_s.as_str()).len() == 0 {
        probs.push(String::from_str("mode name slugifies to empty"));
    }
    if eq_str(mapping.mode_name.as_str(), "default") {
        probs.push(String::from_str("mode name 'default' collides with the Chat floor"));
    }
    proof {
        reveal_strlit("mode name slugifies to empty");
        assert(probs@.map_values(|s: String| s@) =~= name_problems(m.mode_name));
    }
    let ghost base = probs@.map_values(|s: String| s@);
    let mut seen: Vec<String> = Vec::new();
    let mut i: usize = 0;
    while i < mapping.entries.len()
        invariant
            i <= mapping.entries@.len(),
            m == mapping@,
            files == scan.files@,
            vs == verdicts_view(parse_errors@),
            parse_errors@.len() == files.len(),
            base == name_problems(m.mode_name),
            seen@.map_values(|s: String| s@) == check_entries(m.mode_name, files, vs, m.entries.take(i as int)).0,
            probs@.map_values(|s: String| s@) == base + check_entries(m.mode_name, files, vs, m.entries.take(i as int)).1,
        decreases mapping.entries@.len() - i,
    {
        let ghost st = check_entries(m.mode_name, files, vs, m.entries.take(i as int));
        assert(m.entries.take(i + 1).drop_last() =~= m.entries.take(i as int));
        assert(m.entries.take(i + 1).last() == mapping.entries@[i as int]@);
        match &mapping.entries[i] {
            MappingEntry::Skip { .. } => {},
            MappingEntry::Materialize { canonical_path, source, .. } => {
                if contains_str(&seen, canonical_path.as_str()) {
                    let mut msg = chars_of("duplicate canonical path '");
                    extend_str(&mut msg, canonical_path.as_str());
                    extend_str(&mut msg, "'");
                    push_str_vec(&mut probs, &msg);
                    assert(probs@.map_values(|s: String| s@) =~= base + st.1.push(msg@));
                } else {
                    let ghost seen0 = seen@.map_values(|s: String| s@);
                    seen.push(canonical_path.clone());
                    assert(seen@.map_values(|s: String| s@) =~= seen0.push(canonical_path@));
                    let is_mode = eq_str(canonical_path.as_str(), "mode.md");
                    if is_mode && chars_of(mapping.mode_name.as_str()).len() == 0 {
                        push_str_vec(&mut probs, &chars_of("mode.md entry but mode_name is empty"));
                    }
                    let ghost p1 = probs@.map_values(|s: String| s@);
                    let j = find_file(&scan.files, source.as_str());
                    if j >= scan.files.len() {
                        let mut msg = chars_of("entry references upstream path '");
                        extend_str(&mut msg, source.as_str());
                        extend_str(&mut msg, "' not in scan");
                        push_str_vec(&mut probs, &msg);
                    } else {
                        let rp = ends_with_str(canonical_path.as_str(), "SKILL.md") && !is_mode;
                        match &parse_errors[j] {
                            Some(reason) => {
                                assert(vs[j as int] == Some(reason@));
                                if rp {
                                    let mut msg = chars_of("proposed '");
                                    extend_str(&mut msg, canonical_path.as_str());
                                    extend_str(&mut msg, "' (from ");
                                    extend_str(&mut msg, source.as_str());
                                    extend_str(&mut msg, ") fails parse: ");
                                    extend_str(&mut msg, reason.as_str());
                                    push_str_vec(&mut probs, &msg);
                                }
                            },
                            None => {
                                assert(vs[j as int] is None);
                            },
                        }
                    }
                }
            },
        }
        i += 1;
    }
    assert(m.entries.take(i as int) =~= m.entries);
    probs
}

/// The text of the synthesized `mode.md` for a mapping.
pub fn mode_manifest_text(mapping: &ModeMapping) -> (r: String)
    ensures
        r@ == mode_manifest(mapping@),
{
    let mut s = chars_of("---\nname: ");
    extend_str(&mut s, mapping.mode_name.as_str());
    extend_str(&mut s, "\n");
    let ghost before = s@;
    if chars_of(mapping.mode_description.as_str()).len() > 0 {
        extend_str(&mut s, "description: ");
        extend_str(&mut s, mapping.mode_description.as_str());
        extend_str(&mut s, "\n");
    } else {
        assert(s@ =~= before + Seq::<char>::empty());
    }
    extend_str(&mut s, "---\n");
    extend_str(&mut s, mapping.mode_body.as_str());
    string_of(&s)
}

/// The files a valid mapping writes, in entry order: each materialized
/// canonical path with its content (the synthesized manifest for `mode.md`,
/// else the scanned file's content verbatim).
pub open spec fn plan_writes(m: MappingView, files: Seq<ScannedFile>, es: Seq<EntryView>) -> Seq<(Seq<char>, Seq<char>)>
    decreases es.len(),
{
    if es.len() == 0 {
        Seq::empty()
    } else {
        let prev = plan_writes(m, files, es.drop_last());
        match es.last() {
            EntryView::Skip { .. } => prev,
            EntryView::Materialize { canonical_path: cp, source: src, .. } => prev.push(
                (
                    cp,
                    if cp == "mode.md"@ {
                        mode_manifest(m)
                    } else {
                        files[file_index(files, src)].content@
                    },
                ),
            ),
        }
    }
}

/// A provenance entry as plain values: (canonical path, upstream path,
/// upstream sha, upstream ref, snapshot).
pub open spec fn prov_view(e: ProvenanceEntry) -> (Seq<char>, Seq<char>, Seq<char>, Seq<char>, Seq<char>) {
    (e.canonical_path@, e.upstream_path@, e.upstream_sha@, e.upstream_ref@, e.upstream_snapshot@)
}

/// The sidecar's file list: one entry per materialized path whose source is
/// in the scan, snapshotting what was written there.
pub open spec fn sidecar_entries(m: MappingView, files: Seq<ScannedFile>, rref: Seq<char>, es: Seq<EntryView>) -> Seq<(Seq<char>, Seq<char>, Seq<char>, Seq<char>, Seq<char>)>
    decreases es.len(),
{
    if es.len() == 0 {
        Seq::empty()
    } else {
        let prev = sidecar_entries(m, files, rref, es.drop_last());
        match es.last() {
            EntryView::Skip { .. } => prev,
            EntryView::Materialize { canonical_path: cp, source: src, .. } => {
                let j = file_index(files, src);
                if j >= files.len() {
                    prev
                } else {
                    prev.push(
                        (
                            cp,
                            src,
                            files[j].sha@,
                            rref,
                            if cp == "mode.md"@ {
                                mode_manifest(m)
                            } else {
                                files[j].content@
                            },
                        ),
                    )
                }
            },
        }
    }
}

/// The provenance sidecar for a materialized mapping (schema 1): the scan's
/// origin, the fetch time, the mode name and one entry per materialized file
/// whose source is in the scan.
pub fn build_sidecar(mapping: &ModeMapping, scan: &UpstreamScan, fetched_at: &str) -> (r: ProvenanceFile)
    ensures
        r.schema == 1,
        r.source.url@ == scan.url@,
        r.source.repo@ == scan.repo@,
        r.source.ref_@ == scan.resolved_ref@,
        r.source.subtree_path@ == scan.subtree_path@,
        r.source.fetched_at@ == fetched_at@,
        r.mode_name@ == mapping.mode_name@,
        r.files@.map_values(|e: ProvenanceEntry| prov_view(e)) == sidecar_entries(mapping@, scan.files@, scan.resolved_ref@, mapping@.entries),
{
    let ghost m = mapping@;
    let manifest = mode_manifest_text(mapping);
    let mut out: Vec<ProvenanceEntry> = Vec::new();
    let mut i: usize = 0;
    while i < mapping.entries.len()
        invariant
            i <= mapping.entries@.len(),
            m == mapping@,
            manifest@ == mode_manifest(m),
            out@.map_values(|e: ProvenanceEntry| prov_view(e)) == sidecar_entries(m, scan.files@, scan.resolved_ref@, m.entries.take(i as int)),
        decreases mapping.entries@.len() - i,
    {
        let ghost prev = out@.map_values(|e: ProvenanceEntry| prov_view(e));
        assert(m.entries.take(i + 1).drop_last() =~= m.entries.take(i as int));
        assert(m.entries.take(i + 1).last() == mapping.entries@[i as int]@);
        match &mapping.entries[i] {
            MappingEntry::Skip { .. } => {},
            MappingEntry::Materialize { canonical_path, source, .. } => {
                let j = find_file(&scan.files, source.as_str());
                if j < scan.files.len() {
                    let f = &scan.files[j];
                    let snapshot = if eq_str(canonical_path.as_str(), "mode.md") {
                        manifest.clone()
                    } else {
                        f.content.clone()
                    };
                    let e = ProvenanceEntry {
                        canonical_path: canonical_path.clone(),
                        upstream_path: source.clone(),
                        upstream_sha: f.sha.clone(),
                        upstream_ref: scan.resolved_ref.clone(),
                        upstream_snapshot: snapshot,
                    };
                    out.push(e);
                    assert(out@.map_values(|e: ProvenanceEntry| prov_view(e)) =~= prev.push(prov_view(e)));
                }
            },
        }
        i += 1;
    }
    assert(m.entries.take(i as int) =~= m.entries);
    ProvenanceFile {
        schema: 1,
        source: ProvenanceSource {
            url: scan.url.clone(),
            repo: scan.repo.clone(),
            ref_: scan.resolved_ref.clone(),
            subtree_path: scan.subtree_path.clone(),
            fetched_at: String::from_str(fetched_at),
        },
        mode_name: mapping.mode_name.clone(),
        files: out,
    }
}

/// Every materialized entry's source is among the scanned files.
pub open spec fn sources_found(files: Seq<ScannedFile>, es: Seq<EntryView>) -> bool {
    forall|i: int|
        0 <= i < es.len() ==> (#[trigger] es[i] matches EntryView::Materialize { source, .. } ==> file_index(
            files,
            source,
        ) < files.len())
}

/// Each sidecar entry records the scanned file found at its upstream path:
/// that file's sha, the scan's resolved ref, and, as its upstream snapshot,
/// exactly the content written at its canonical path (the file's content
/// for every path but `mode.md`, the synthesized manifest for `mode.md`).
/// When every source is in the scan, the sidecar lists the written files one
/// for one, in order.
pub proof fn lemma_sidecar_snapshots_the_written_content(
    m: MappingView,
    files: Seq<ScannedFile>,
    rref: Seq<char>,
    es: Seq<EntryView>,
)
    ensures
        forall|i: int|
            #![trigger sidecar_entries(m, files, rref, es)[i]]
            0 <= i < sidecar_entries(m, files, rref, es).len() ==> {
                let e = sidecar_entries(m, files, rref, es)[i];
                &&& e.3 == rref
                &&& e.0 == "mode.md"@ ==> e.4 == mode_manifest(m)
                &&& exists|j: int|
                    0 <= j < files.len() && (#[trigger] files[j]).upstream_path@ == e.1 && files[j].sha@ == e.2 && (e.0
                        != "mode.md"@ ==> files[j].content@ == e.4)
            },
        sources_found(files, es) ==> sidecar_entries(m, files, rref, es).len() == plan_writes(
            m,
            files,
            es,
        ).len(),
        sources_found(files, es) ==> forall|i: int|
            0 <= i < plan_writes(m, files, es).len() ==> (#[trigger] sidecar_entries(m, files, rref, es)[i]).0
                == plan_writes(m, files, es)[i].0 && sidecar_entries(m, files, rref, es)[i].4 == plan_writes(
                m,
                files,
                es,
            )[i].1,
    decreases es.len(),
{
    if es.len() > 0 {
        let d = es.drop_last();
        assert(sources_found(files, es) ==> sources_found(files, d)) by {
            if sources_found(files, es) {
                assert forall|i: int| 0 <= i < d.len() implies (#[trigger] d[i] matches EntryView::Materialize {
                    source,
                    ..
                } ==> file_index(files, source) < files.len()) by {
                    assert(d[i] == es[i]);
                }
            }
        }
        lemma_sidecar_snapshots_the_written_content(m, files, rref, d);
        let ps = sidecar_entries(m, files, rref, d);
        let s = sidecar_entries(m, files, rref, es);
        let pw = plan_writes(m, files, d);
        let w = plan_writes(m, files, es);
        match es.last() {
            EntryView::Skip { .. } => {},
            EntryView::Materialize { canonical_path: cp, source: src, .. } => {
                lemma_file_index_from(files, src, 0);
                let j = file_index(files, src);
                if j < files.len() {
                    assert forall|i: int| #![trigger s[i]] 0 <= i < s.len() implies {
                        let e = s[i];
                        &&& e.3 == rref
                        &&& e.0 == "mode.md"@ ==> e.4 == mode_manifest(m)
                        &&& exists|k: int|
                            0 <= k < files.len() && (#[trigger] files[k]).upstream_path@ == e.1 && files[k].sha@
                                == e.2 && (e.0 != "mode.md"@ ==> files[k].content@ == e.4)
                    } by {
                        if i < ps.len() {
                            assert(s[i] == ps[i]);
                        } else {
                            assert(files[j].upstream_path@ == s[i].1 && files[j].sha@ == s[i].2);
                        }
                    }
                    if sources_found(files, es) {
                        assert forall|i: int| 0 <= i < w.len() implies (#[trigger] s[i]).0 == w[i].0
                            && s[i].4 == w[i].1 by {
                            if i < pw.len() {
                                assert(s[i] == ps[i] && w[i] == pw[i]);
                            }
                        }
                    }
                } else {
                    assert(!sources_found(files, es)) by {
                        assert(es[es.len() - 1] == es.last());
                    }
                }
            },
        }
    }
}

/// What a valid mapping writes: each (canonical path, content) in order,
/// then the provenance sidecar.
#[derive(Debug, Clone)]
pub struct MaterializePlan {
    pub writes: Vec<(String, String)>,
    pub sidecar: ProvenanceFile,
}

/// Validate a mapping and, when it has no problem, lay out the files to
/// write and the sidecar. `parse_errors[j]` is `Some(reason)` when the
/// content of scanned file `j` does not parse as a skill.
#[verifier::spinoff_prover]
pub fn plan_materialize(
    mapping: &ModeMapping,
    scan: &UpstreamScan,
    parse_errors: &Vec<Option<String>>,
    fetched_at: &str,
) -> (r: Result<MaterializePlan, MaterializeError>)
    requires
        parse_errors@.len() == scan.files@.len(),
    ensures
        r is Err <==> mapping_problems(mapping@, scan.files@, verdicts_view(parse_errors@)).len() > 0,
        r matches Err(e) ==> e.problems@.map_values(|s: String| s@) == mapping_problems(mapping@, scan.files@, verdicts_view(parse_errors@)),
        r matches Ok(p) ==> p.writes@.map_values(|w: (String, String)| (w.0@, w.1@)) == plan_writes(mapping@, scan.files@, mapping@.entries)
            && p.sidecar.schema == 1
            && p.sidecar.source.url@ == scan.url@
            && p.sidecar.source.repo@ == scan.repo@
            && p.sidecar.source.ref_@ == scan.resolved_ref@
            && p.sidecar.source.subtree_path@ == scan.subtree_path@
            && p.sidecar.source.fetched_at@ == fetched_at@
            && p.sidecar.mode_name@ == mapping.mode_name@
            && p.sidecar.files@.map_values(|e: ProvenanceEntry| prov_view(e)) == sidecar_entries(mapping@, scan.files@, scan.resolved_ref@, mapping@.entries),
{
    let problems = validate_mapping(mapping, scan, parse_errors);
    if problems.len() > 0 {
        return Err(MaterializeError { problems });
    }
    let ghost m = mapping@;
    let ghost files = scan.files@;
    let ghost vs = verdicts_view(parse_errors@);
    assert(check_entries(m.mode_name, files, vs, m.entries).1.len() == 0) by {
        assert(mapping_problems(m, files, vs).len() == 0);
    }
    let manifest = mode_manifest_text(mapping);
    let mut writes: Vec<(String, String)> = Vec::new();
    let mut i: usize = 0;
    while i < mapping.entries.len()
        invariant
            i <= mapping.entries@.len(),
            m == mapping@,
            files == scan.files@,
            manifest@ == mode_manifest(m),
            check_entries(m.mode_name, files, vs, m.entries).1.len() == 0,
            writes@.map_values(|w: (String, String)| (w.0@, w.1@)) == plan_writes(m, files, m.entries.take(i as int)),
        decreases mapping.entries@.len() - i,
    {
        let ghost prev = writes@.map_values(|w: (String, String)| (w.0@, w.1@));
        assert(m.entries.take(i + 1).drop_last() =~= m.entries.take(i as int));
        assert(m.entries.take(i + 1).last() == mapping.entries@[i as int]@);
        match &mapping.entries[i] {
            MappingEntry::Skip { .. } => {},
            MappingEntry::Materialize { canonical_path, source, .. } => {
                let content = if eq_str(canonical_path.as_str(), "mode.md") {
                    manifest.clone()
                } else {
                    let j = find_file(&scan.files, source.as_str());
                    proof {
                        lemma_no_problem_source_found(m.mode_name, files, vs, m.entries, i as int);
                    }
                    scan.files[j].content.clone()
                };
                let w = (canonical_path.clone(), content);
                writes.push(w);
                assert(writes@.map_values(|w: (String, String)| (w.0@, w.1@)) =~= prev.push((w.0@, w.1@)));
            },
        }
        i += 1;
    }
    assert(m.entries.take(i as int) =~= m.entries);
    let sidecar = build_sidecar(mapping, scan, fetched_at);
    Ok(MaterializePlan { writes, sidecar })
}

proof fn lemma_check_entries_grow(name: Seq<char>, files: Seq<ScannedFile>, vs: Seq<Option<Seq<char>>>, es: Seq<EntryView>, k: int)
    requires
        0 <= k <= es.len(),
    ensures
        check_entries(name, files, vs, es.take(k)).1.len() <= check_entries(name, files, vs, es).1.len(),
    decreases es.len() - k,
{
    if k < es.len() {
        lemma_check_entries_grow(name, files, vs, es.drop_last(), k);
        assert(es.drop_last().take(k) =~= es.take(k));
    } else {
        assert(es.take(k) =~= es);
    }
}

proof fn lemma_no_problem_source_found(name: Seq<char>, files: Seq<ScannedFile>, vs: Seq<Option<Seq<char>>>, es: Seq<EntryView>, i: int)
    requires
        0 <= i < es.len(),
        check_entries(name, files, vs, es).1.len() == 0,
        es[i] is Materialize,
    ensures
        file_index(files, es[i]->Materialize_source) < files.len(),
{
    lemma_check_entries_grow(name, files, vs, es, i + 1);
    assert(es.take(i + 1).drop_last() =~= es.take(i));
    assert(es.take(i + 1).last() == es[i]);
    let st = check_entries(name, files, vs, es.take(i));
    assert(check_entries(name, files, vs, es.take(i + 1)) == check_entry(name, files, vs, st, es[i]));
}

/// Canonical paths a mapping materializes, in order.
pub open spec fn materialize_paths(es: Seq<EntryView>) -> Seq<Seq<char>>
    decreases es.len(),
{
    if es.len() == 0 {
        Seq::empty()
    } else {
        let prev = materialize_paths(es.drop_last());
        match es.last() {
            EntryView::Materialize { canonical_path, .. } => prev.push(canonical_path),
            EntryView::Skip { .. } => prev,
        }
    }
}

/// On an update, the canonical paths of the old sidecar that the new
/// mapping no longer materializes (to be deleted), in sidecar order.
pub fn stale_paths(old: &ProvenanceFile, mapping: &ModeMapping) -> (r: Vec<String>)
    ensures
        r@.map_values(|s: String| s@) == old.files@.map_values(|e: ProvenanceEntry| e.canonical_path@).filter(
            |p: Seq<char>| !materialize_paths(mapping@.entries).contains(p),
        ),
{
    let ghost m = mapping@;
    let mut keep: Vec<String> = Vec::new();
    let mut i: usize = 0;
    while i < mapping.entries.len()
        invariant
            i <= mapping.entries@.len(),
            m == mapping@,
            keep@.map_values(|s: String| s@) == materialize_paths(m.entries.take(i as int)),
        decreases mapping.entries@.len() - i,
    {
        let ghost prev = keep@.map_values(|s: String| s@);
        assert(m.entries.take(i + 1).drop_last() =~= m.entries.take(i as int));
        assert(m.entries.take(i + 1).last() == mapping.entries@[i as int]@);
        match &mapping.entries[i] {
            MappingEntry::Materialize { canonical_path, .. } => {
                keep.push(canonical_path.clone());
                assert(keep@.map_values(|s: String| s@) =~= prev.push(canonical_path@));
            },
            MappingEntry::Skip { .. } => {},
        }
        i += 1;
    }
    assert(m.entries.take(i as int) =~= m.entries);
    let ghost keepv = materialize_paths(m.entries);
    let ghost olds = old.files@.map_values(|e: ProvenanceEntry| e.canonical_path@);
    let ghost pred = |p: Seq<char>| !keepv.contains(p);
    let mut out: Vec<String> = Vec::new();
    let mut k: usize = 0;
    while k < old.files.len()
        invariant
            k <= old.files@.len(),
            keep@.map_values(|s: String| s@) == keepv,
            olds == old.files@.map_values(|e: ProvenanceEntry| e.canonical_path@),
            pred == (|p: Seq<char>| !keepv.contains(p)),
            out@.map_values(|s: String| s@) == olds.take(k as int).filter(pred),
        decreases old.files@.len() - k,
    {
        let ghost prev = out@.map_values(|s: String| s@);
        assert(olds.take(k + 1) =~= olds.take(k as int).push(olds[k as int]));
        proof {
            olds.take(k as int).lemma_filter_push(olds[k as int], pred);
        }
        let cp = &old.files[k].canonical_path;
        if !contains_str(&keep, cp.as_str()) {
            out.push(cp.clone());
            assert(out@.map_values(|s: String| s@) =~= prev.push(cp@));
        }
        k += 1;
    }
    assert(olds.take(k as int) =~= olds);
    out
}

// ---------------------------------------------------------------------------
// Texts
// ---------------------------------------------------------------------------

/// The scanned files rendered one block each.
pub open spec fn scan_files_text(files: Seq<ScannedFile>) -> Seq<char>
    decreases files.len(),
{
    if files.len() == 0 {
        Seq::empty()
    } else {
        let f = files.last();
        scan_files_text(files.drop_last()) + "---\npath: "@ + f.upstream_path@ + "\nsha: "@ + f.sha@
            + "\ncontent:\n"@ + f.content@ + "\n\n"@
    }
}

/// The scan as the text block the model reads.
pub open spec fn scan_text(scan: UpstreamScan) -> Seq<char> {
    "Upstream scan of "@ + scan.url@ + " (repo "@ + scan.repo@ + ", ref "@ + scan.resolved_ref@
        + ", subtree "@ + scan.subtree_path@ + "):\n\n"@ + scan_files_text(scan.files@)
}

/// Render the scan as a text block the model can read.
pub fn render_scan(scan: &UpstreamScan) -> (r: String)
    ensures
        r@ == scan_text(*scan),
{
    let mut s = chars_of("Upstream scan of ");
    extend_str(&mut s, scan.url.as_str());
    extend_str(&mut s, " (repo ");
    extend_str(&mut s, scan.repo.as_str());
    extend_str(&mut s, ", ref ");
    extend_str(&mut s, scan.resolved_ref.as_str());
    extend_str(&mut s, ", subtree ");
    extend_str(&mut s, scan.subtree_path.as_str());
    extend_str(&mut s, "):\n\n");
    let ghost head = s@;
    let mut i: usize = 0;
    while i < scan.files.len()
        invariant
            i <= scan.files@.len(),
            s@ == head + scan_files_text(scan.files@.take(i as int)),
        decreases scan.files@.len() - i,
    {
        assert(scan.files@.take(i + 1).drop_last() =~= scan.files@.take(i as int));
        let f = &scan.files[i];
        extend_str(&mut s, "---\npath: ");
        extend_str(&mut s, f.upstream_path.as_str());
        extend_str(&mut s, "\nsha: ");
        extend_str(&mut s, f.sha.as_str());
        extend_str(&mut s, "\ncontent:\n");
        extend_str(&mut s, f.content.as_str());
        extend_str(&mut s, "\n\n");
        i += 1;
        assert(s@ =~= head + scan_files_text(scan.files@.take(i as int)));
    }
    assert(scan.files@.take(i as int) =~= scan.files@);
    string_of(&s)
}

/// What the propose tool answers: the reconciliation brief on an update,
/// else the rendered scan.
pub fn propose_text(wizard: &ModeImportWizard) -> (r: String)
    ensures
        r@ == (match wizard.reconciliation_brief {
            Some(b) => b@,
            None => scan_text(wizard.scan),
        }),
{
    match &wizard.reconciliation_brief {
        Some(b) => b.clone(),
        None => render_scan(&wizard.scan),
    }
}

/// One brief line per old sidecar entry with its classification.
pub open spec fn brief_old_lines(es: Seq<ProvenanceEntry>, classes: Seq<String>) -> Seq<char>
    decreases es.len(),
{
    if es.len() == 0 {
        Seq::empty()
    } else {
        let k = es.len() - 1;
        brief_old_lines(es.drop_last(), classes) + "- "@ + es[k].canonical_path@ + " (upstream "@
            + es[k].upstream_path@ + "): "@ + classes[k]@ + "\n"@
    }
}

/// One brief line per freshly scanned file the old sidecar does not know.
pub open spec fn brief_new_lines(files: Seq<ScannedFile>, old_paths: Seq<Seq<char>>) -> Seq<char>
    decreases files.len(),
{
    if files.len() == 0 {
        Seq::empty()
    } else {
        let f = files.last();
        brief_new_lines(files.drop_last(), old_paths) + if old_paths.contains(f.upstream_path@) {
            Seq::empty()
        } else {
            "- (new upstream) "@ + f.upstream_path@ + ": upstream added\n"@
        }
    }
}

/// The closing instruction of a reconciliation brief.
pub open spec fn brief_trailer() -> Seq<char> {
    "\nPropose a merged mapping: carry unchanged, re-materialize upstream-moved (if local untouched), keep local-only-changed, decide for both-changed, add new-upstream, drop or keep upstream-deleted."@
}

/// The update flow's reconciliation brief.
pub open spec fn brief_text(old: ProvenanceFile, fresh: UpstreamScan, classes: Seq<String>) -> Seq<char> {
    "Update reconciliation for mode '"@ + old.mode_name@ + "' (fresh scan: "@ + decimal(
        fresh.files@.len(),
    ) + " files):\n\n"@ + brief_old_lines(old.files@, classes) + brief_new_lines(
        fresh.files@,
        old.files@.map_values(|e: ProvenanceEntry| e.upstream_path@),
    ) + brief_trailer()
}

/// Build the reconciliation brief for the update flow from the old sidecar,
/// the fresh scan, and the classification of each old entry
/// (`classes[i]` for `old.files[i]`).
pub fn build_reconciliation_brief(old: &ProvenanceFile, fresh: &UpstreamScan, classes: &Vec<String>) -> (r: String)
    requires
        classes@.len() == old.files@.len(),
    ensures
        r@ == brief_text(*old, *fresh, classes@),
{
    let mut s = chars_of("Update reconciliation for mode '");
    extend_str(&mut s, old.mode_name.as_str());
    extend_str(&mut s, "' (fresh scan: ");
    extend_chars(&mut s, &decimal_chars(fresh.files.len() as u64));
    extend_str(&mut s, " files):\n\n");
    let ghost head = s@;
    let mut i: usize = 0;
    while i < old.files.len()
        invariant
            i <= old.files@.len(),
            classes@.len() == old.files@.len(),
            s@ == head + brief_old_lines(old.files@.take(i as int), classes@),
        decreases old.files@.len() - i,
    {
        assert(old.files@.take(i + 1).drop_last() =~= old.files@.take(i as int));
        let e = &old.files[i];
        extend_str(&mut s, "- ");
        extend_str(&mut s, e.canonical_path.as_str());
        extend_str(&mut s, " (upstream ");
        extend_str(&mut s, e.upstream_path.as_str());
        extend_str(&mut s, "): ");
        extend_str(&mut s, classes[i].as_str());
        extend_str(&mut s, "\n");
        i += 1;
        assert(s@ =~= head + brief_old_lines(old.files@.take(i as int), classes@));
    }
    assert(old.files@.take(i as int) =~= old.files@);
    let mut old_paths: Vec<String> = Vec::new();
    let mut k: usize = 0;
    while k < old.files.len()
        invariant
            k <= old.files@.len(),
            old_paths@.map_values(|s: String| s@) == old.files@.take(k as int).map_values(|e: ProvenanceEntry| e.upstream_path@),
        decreases old.files@.len() - k,
    {
        let ghost prev = old_paths@.map_values(|s: String| s@);
        old_paths.push(old.files[k].upstream_path.clone());
        assert(old_paths@.map_values(|s: String| s@) =~= prev.push(old.files@[k as int].upstream_path@));
        assert(old.files@.take(k + 1).map_values(|e: ProvenanceEntry| e.upstream_path@) =~= old.files@.take(
            k as int,
        ).map_values(|e: ProvenanceEntry| e.upstream_path@).push(old.files@[k as int].upstream_path@));
        k += 1;
    }
    assert(old.files@.take(k as int) =~= old.files@);
    let ghost opv = old.files@.map_values(|e: ProvenanceEntry| e.upstream_path@);
    let ghost mid = s@;
    let mut j: usize = 0;
    while j < fresh.files.len()
        invariant
            j <= fresh.files@.len(),
            old_paths@.map_values(|s: String| s@) == opv,
            s@ == mid + brief_new_lines(fresh.files@.take(j as int), opv),
        decreases fresh.files@.len() - j,
    {
        assert(fresh.files@.take(j + 1).drop_last() =~= fresh.files@.take(j as int));
        let f = &fresh.files[j];
        if !contains_str(&old_paths, f.upstream_path.as_str()) {
            extend_str(&mut s, "- (new upstream) ");
            extend_str(&mut s, f.upstream_path.as_str());
            extend_str(&mut s, ": upstream added\n");
        }
        j += 1;
        assert(s@ =~= mid + brief_new_lines(fresh.files@.take(j as int), opv));
    }
    assert(fresh.files@.take(j as int) =~= fresh.files@);
    extend_str(
        &mut s,
        "\nPropose a merged mapping: carry unchanged, re-materialize upstream-moved (if local untouched), keep local-only-changed, decide for both-changed, add new-upstream, drop or keep upstream-deleted.",
    );
    string_of(&s)
}

/// Materialized skills in a run of entries: canonical paths that must parse
/// as a skill.
pub open spec fn skill_count(es: Seq<EntryView>) -> nat
    decreases es.len(),
{
    if es.len() == 0 {
        0
    } else {
        skill_count(es.drop_last()) + match es.last() {
            EntryView::Materialize { canonical_path, .. } => if requires_parse(canonical_path) {
                1nat
            } else {
                0nat
            },
            EntryView::Skip { .. } => 0nat,
        }
    }
}

/// Skipped entries in a run of entries.
pub open spec fn skip_count(es: Seq<EntryView>) -> nat
    decreases es.len(),
{
    if es.len() == 0 {
        0
    } else {
        skip_count(es.drop_last()) + match es.last() {
            EntryView::Skip { .. } => 1nat,
            EntryView::Materialize { .. } => 0nat,
        }
    }
}

proof fn lemma_counts_bounded(es: Seq<EntryView>)
    ensures
        skill_count(es) <= es.len(),
        skip_count(es) <= es.len(),
    decreases es.len(),
{
    if es.len() > 0 {
        lemma_counts_bounded(es.drop_last());
    }
}

/// A one-line approval summary: mode name, skill count, skipped count.
pub fn approval_summary(mapping: &ModeMapping) -> (r: String)
    ensures
        r@ == "Proposed mode '"@ + mapping.mode_name@ + "': "@ + decimal(skill_count(mapping@.entries))
            + " skills, "@ + decimal(skip_count(mapping@.entries)) + " skipped. Approve?"@,
{
    let ghost m = mapping@;
    let mut skills: usize = 0;
    let mut skipped: usize = 0;
    let mut i: usize = 0;
    while i < mapping.entries.len()
        invariant
            i <= mapping.entries@.len(),
            m == mapping@,
            skills == skill_count(m.entries.take(i as int)),
            skipped == skip_count(m.entries.take(i as int)),
        decreases mapping.entries@.len() - i,
    {
        assert(m.entries.take(i + 1).drop_last() =~= m.entries.take(i as int));
        assert(m.entries.take(i + 1).last() == mapping.entries@[i as int]@);
        proof {
            lemma_counts_bounded(m.entries.take(i as int));
        }
        match &mapping.entries[i] {
            MappingEntry::Materialize { canonical_path, .. } => {
                if ends_with_str(canonical_path.as_str(), "SKILL.md") && !eq_str(canonical_path.as_str(), "mode.md") {
                    skills = skills + 1;
                }
            },
            MappingEntry::Skip { .. } => {
                skipped = skipped + 1;
            },
        }
        i += 1;
    }
    assert(m.entries.take(i as int) =~= m.entries);
    let mut s = chars_of("Proposed mode '");
    extend_str(&mut s, mapping.mode_name.as_str());
    extend_str(&mut s, "': ");
    extend_chars(&mut s, &decimal_chars(skills as u64));
    extend_str(&mut s, " skills, ");
    extend_chars(&mut s, &decimal_chars(skipped as u64));
    extend_str(&mut s, " skipped. Approve?");
    string_of(&s)
}

// ---------------------------------------------------------------------------
// Reading a proposal from tool-call arguments
// ---------------------------------------------------------------------------

/// The text of an optional string, or empty.
pub open spec fn text_or_empty(o: Option<Seq<char>>) -> Seq<char> {
    match o {
        Some(s) => s,
        None => Seq::empty(),
    }
}

/// One `entries` item: `{ "Materialize": { canonical_path, source, summary } }`
/// (or those fields bare), else `{ "Skip": { upstream_path, reason } }` (or
/// bare); nothing when it is neither.
pub open spec fn parse_entry(e: Json) -> Option<EntryView> {
    let mat = match jget(e, "Materialize"@) {
        Some(m) => m,
        None => e,
    };
    match (jstr(jget(mat, "canonical_path"@)), jstr(jget(mat, "source"@))) {
        (Some(cp), Some(src)) => Some(
            EntryView::Materialize {
                canonical_path: cp,
                source: src,
                summary: text_or_empty(jstr(jget(mat, "summary"@))),
            },
        ),
        _ => {
            let skip = match jget(e, "Skip"@) {
                Some(s) => s,
                None => e,
            };
            match jstr(jget(skip, "upstream_path"@)) {
                Some(up) => Some(
                    EntryView::Skip { upstream_path: up, reason: text_or_empty(jstr(jget(skip, "reason"@))) },
                ),
                None => None,
            }
        },
    }
}

/// All `entries` items, or the index of the first one that is neither form.
pub open spec fn parse_entries(items: Seq<Json>) -> Result<Seq<EntryView>, nat>
    decreases items.len(),
{
    if items.len() == 0 {
        Ok(Seq::empty())
    } else {
        match parse_entries(items.drop_last()) {
            Err(i) => Err(i),
            Ok(es) => match parse_entry(items.last()) {
                Some(e) => Ok(es.push(e)),
                None => Err((items.len() - 1) as nat),
            },
        }
    }
}

/// A mode mapping read from `apply_mode_mapping` arguments, or why not.
pub open spec fn parse_mapping(args: Json) -> Result<MappingView, Seq<char>> {
    match jstr(jget(args, "mode_name"@)) {
        None => Err("missing 'mode_name'"@),
        Some(name) => if name.len() == 0 {
            Err("mode_name is empty"@)
        } else {
            match jget(args, "entries"@) {
                Some(Json::Array(items)) => match parse_entries(items@) {
                    Ok(es) => Ok(
                        MappingView {
                            mode_name: name,
                            mode_description: text_or_empty(jstr(jget(args, "mode_description"@))),
                            mode_body: text_or_empty(jstr(jget(args, "mode_body"@))),
                            entries: es,
                        },
                    ),
                    Err(i) => Err("entries["@ + decimal(i) + "] is neither Materialize nor Skip"@),
                },
                _ => Err("missing 'entries' array"@),
            }
        },
    }
}

fn str_or_empty(o: Option<String>) -> (r: String)
    ensures
        match o {
            Some(s) => r@ == s@,
            None => r@ == Seq::<char>::empty(),
        },
{
    proof {
        reveal_strlit("");
    }
    match o {
        Some(s) => s,
        None => String::from_str(""),
    }
}

fn parse_entry_value(e: &Json) -> (r: Option<MappingEntry>)
    ensures
        match parse_entry(*e) {
            Some(v) => r matches Some(x) && x@ == v,
            None => r is None,
        },
{
    proof {
        reveal_strlit("");
    }
    let mat = match get(e, "Materialize") {
        Some(m) => m,
        None => e,
    };
    let cp = get_str(mat, "canonical_path");
    let src = get_str(mat, "source");
    if let Some(cp) = cp {
        if let Some(src) = src {
            let summary = str_or_empty(get_str(mat, "summary"));
            return Some(MappingEntry::Materialize { canonical_path: cp, source: src, summary });
        }
    }
    let skip = match get(e, "Skip") {
        Some(s) => s,
        None => e,
    };
    match get_str(skip, "upstream_path") {
        Some(up) => {
            let reason = str_or_empty(get_str(skip, "reason"));
            Some(MappingEntry::Skip { upstream_path: up, reason })
        },
        None => None,
    }
}

/// Read a `ModeMapping` from the `apply_mode_mapping` tool-call arguments,
/// or say what is malformed.
pub fn parse_mapping_args(args: &Json) -> (r: Result<ModeMapping, String>)
    ensures
        match parse_mapping(*args) {
            Ok(v) => r matches Ok(m) && m@ == v,
            Err(msg) => r matches Err(e) && e@ == msg,
        },
{
    proof {
        reveal_strlit("");
    }
    let mode_name = match get_str(args, "mode_name") {
        Some(n) => n,
        None => {
            return Err(String::from_str("missing 'mode_name'"));
        },
    };
    if chars_of(mode_name.as_str()).len() == 0 {
        return Err(String::from_str("mode_name is empty"));
    }
    let mode_description = str_or_empty(get_str(args, "mode_description"));
    let mode_body = str_or_empty(get_str(args, "mode_body"));
    let items = match get(args, "entries") {
        Some(Json::Array(items)) => items,
        _ => {
            return Err(String::from_str("missing 'entries' array"));
        },
    };
    let mut entries: Vec<MappingEntry> = Vec::new();
    assert(items@.take(0) =~= Seq::<Json>::empty());
    assert(entries@.map_values(|e: MappingEntry| e@) =~= Seq::<EntryView>::empty());
    let mut i: usize = 0;
    while i < items.len()
        invariant
            i <= items@.len(),
            jget(*args, "entries"@) == Some(Json::Array(*items)),
            jstr(jget(*args, "mode_name"@)) == Some(mode_name@),
            mode_name@.len() > 0,
            mode_description@ == text_or_empty(jstr(jget(*args, "mode_description"@))),
            mode_body@ == text_or_empty(jstr(jget(*args, "mode_body"@))),
            parse_entries(items@.take(i as int)) == Ok::<Seq<EntryView>, nat>(entries@.map_values(|e: MappingEntry| e@)),
        decreases items@.len() - i,
    {
        let ghost prev = entries@.map_values(|e: MappingEntry| e@);
        assert(items@.take(i + 1).drop_last() =~= items@.take(i as int));
        assert(items@.take(i + 1).last() == items@[i as int]);
        match parse_entry_value(&items[i]) {
            Some(en) => {
                entries.push(en);
                assert(entries@.map_values(|e: MappingEntry| e@) =~= prev.push(en@));
            },
            None => {
                proof {
                    lemma_parse_entries_err_stays(items@, i as int + 1);
                }
                let mut m = chars_of("entries[");
                extend_chars(&mut m, &decimal_chars(i as u64));
                extend_str(&mut m, "] is neither Materialize nor Skip");
                return Err(string_of(&m));
            },
        }
        i += 1;
    }
    assert(items@.take(i as int) =~= items@);
    Ok(ModeMapping { mode_name, mode_description, mode_body, entries })
}

proof fn lemma_parse_entries_err_stays(items: Seq<Json>, k: int)
    requires
        0 < k <= items.len(),
        parse_entries(items.take(k)) is Err,
    ensures
        parse_entries(items) == parse_entries(items.take(k)),
    decreases items.len() - k,
{
    if k < items.len() {
        assert(items.drop_last().take(k) =~= items.take(k));
        lemma_parse_entries_err_stays(items.drop_last(), k);
    } else {
        assert(items.take(k) =~= items);
    }
}

// ---------------------------------------------------------------------------
// The approval question
// ---------------------------------------------------------------------------

/// A user's answer to a question.
#[derive(Debug, Clone, PartialEq, Eq)]
pub enum Answer {
    Choice(String),
    FreeText(String),
    LetYouDecide,
    Feedback,
}

/// What an answer to the mapping-approval question does: materialize the
/// mapping, cancel the import (the wizard stays open for a re-proposal),
/// send the text back to the model as an adjustment, or nothing more.
#[derive(Debug, Clone, PartialEq, Eq)]
pub enum WizardStep {
    Materialize,
    Cancelled,
    Adjust(String),
    Keep,
}

/// Decide what an answer to the mapping-approval question does.
pub fn wizard_step(ans: &Answer) -> (r: WizardStep)
    ensures
        match ans {
            Answer::Choice(c) => if c@ == "Approve"@ {
                r == WizardStep::Materialize
            } else if c@ == "Reject"@ {
                r == WizardStep::Cancelled
            } else {
                r matches WizardStep::Adjust(t) && t@ == c@
            },
            Answer::FreeText(s) => r matches WizardStep::Adjust(t) && t@ == s@,
            Answer::LetYouDecide => r == WizardStep::Keep,
            Answer::Feedback => r == WizardStep::Keep,
        },
{
    match ans {
        Answer::Choice(c) => {
            if eq_str(c.as_str(), "Approve") {
                WizardStep::Materialize
            } else if eq_str(c.as_str(), "Reject") {
                WizardStep::Cancelled
            } else {
                WizardStep::Adjust(c.clone())
            }
        },
        Answer::FreeText(s) => WizardStep::Adjust(s.clone()),
        Answer::LetYouDecide => WizardStep::Keep,
        Answer::Feedback => WizardStep::Keep,
    }
}

/// The hint after a successful import.
pub fn imported_hint(mode_name: &str) -> (r: String)
    ensures
        r@ == "imported '"@ + mode_name@ + "' — Shift+Tab to it"@,
{
    let mut s = chars_of("imported '");
    extend_str(&mut s, mode_name);
    extend_str(&mut s, "' — Shift+Tab to it");
    string_of(&s)
}

/// Texts joined with a separator.
pub open spec fn joined(parts: Seq<Seq<char>>, sep: Seq<char>) -> Seq<char>
    decreases parts.len(),
{
    if parts.len() == 0 {
        Seq::empty()
    } else if parts.len() == 1 {
        parts[0]
    } else {
        joined(parts.drop_last(), sep) + sep + parts.last()
    }
}

/// The hint after a failed materialize: every problem, joined by `; `.
pub fn materialize_failed_hint(err: &MaterializeError) -> (r: String)
    ensures
        r@ == "materialize failed: "@ + joined(err.problems@.map_values(|s: String| s@), "; "@)
            + ". Re-run :mode import to retry."@,
{
    let ghost ps = err.problems@.map_values(|s: String| s@);
    let mut s = chars_of("materialize failed: ");
    let ghost head = s@;
    let mut i: usize = 0;
    while i < err.problems.len()
        invariant
            i <= err.problems@.len(),
            ps == err.problems@.map_values(|s: String| s@),
            s@ == head + joined(ps.take(i as int), "; "@),
        decreases err.problems@.len() - i,
    {
        assert(ps.take(i + 1).drop_last() =~= ps.take(i as int));
        assert(ps.take(i + 1).last() == err.problems@[i as int]@);
        if i > 0 {
            extend_str(&mut s, "; ");
        }
        extend_str(&mut s, err.problems[i].as_str());
        proof {
            if i == 0 {
                assert(ps.take(1) =~= seq![err.problems@[0]@]);
                assert(joined(ps.take(0), "; "@) =~= Seq::<char>::empty());
            }
        }
        i += 1;
        assert(s@ =~= head + joined(ps.take(i as int), "; "@));
    }
    assert(ps.take(i as int) =~= ps);
    extend_str(&mut s, ". Re-run :mode import to retry.");
    string_of(&s)
}

/// The GitHub URL an update re-fetches: the imported repo's subtree at the
/// recorded ref.
pub fn update_source_url(old: &ProvenanceFile) -> (r: String)
    ensures
        r@ == "https://github.com/"@ + old.source.repo@ + "/tree/"@ + old.source.ref_@ + "/"@
            + old.source.subtree_path@,
{
    let mut s = chars_of("https://github.com/");
    extend_str(&mut s, old.source.repo.as_str());
    extend_str(&mut s, "/tree/");
    extend_str(&mut s, old.source.ref_.as_str());
    extend_str(&mut s, "/");
    extend_str(&mut s, old.source.subtree_path.as_str());
    string_of(&s)
}

/// The hint for `:mode update` on a mode that was not imported from a URL.
pub fn no_provenance_hint(name: &str) -> (r: String)
    ensures
        r@ == "mode '"@ + name@ + "' has no import provenance; it was not imported from a URL. Use :mode import <url> instead."@,
{
    let mut s = chars_of("mode '");
    extend_str(&mut s, name);
    extend_str(&mut s, "' has no import provenance; it was not imported from a URL. Use :mode import <url> instead.");
    string_of(&s)
}

/// A mapping whose mode is named `default` always has a problem, so it
/// never materializes.
pub proof fn lemma_default_name_rejected(m: MappingView, files: Seq<ScannedFile>, verdicts: Seq<Option<Seq<char>>>)
    requires
        m.mode_name == "default"@,
    ensures
        mapping_problems(m, files, verdicts).len() > 0,
{
}

proof fn lemma_seen_grows(name: Seq<char>, files: Seq<ScannedFile>, vs: Seq<Option<Seq<char>>>, es: Seq<EntryView>, k: int)
    requires
        0 <= k <= es.len(),
    ensures
        forall|c: Seq<char>| #[trigger] check_entries(name, files, vs, es.take(k)).0.contains(c) ==> check_entries(name, files, vs, es).0.contains(c),
    decreases es.len() - k,
{
    if k < es.len() {
        lemma_seen_grows(name, files, vs, es.drop_last(), k);
        assert(es.drop_last().take(k) =~= es.take(k));
        let st = check_entries(name, files, vs, es.drop_last());
        assert forall|c: Seq<char>| #[trigger] st.0.contains(c) implies check_entries(name, files, vs, es).0.contains(c) by {
            let j = choose|j: int| 0 <= j < st.0.len() && st.0[j] == c;
            let s2 = check_entries(name, files, vs, es).0;
            if s2 != st.0 {
                assert(s2[j] == c);
            }
        }
    } else {
        assert(es.take(k) =~= es);
    }
}

/// Two entries that materialize the same canonical path always give a
/// problem, so such a mapping never materializes.
pub proof fn lemma_duplicate_path_rejected(
    m: MappingView,
    files: Seq<ScannedFile>,
    verdicts: Seq<Option<Seq<char>>>,
    i: int,
    j: int,
)
    requires
        0 <= i < j < m.entries.len(),
        m.entries[i] is Materialize,
        m.entries[j] is Materialize,
        m.entries[i]->Materialize_canonical_path == m.entries[j]->Materialize_canonical_path,
    ensures
        mapping_problems(m, files, verdicts).len() > 0,
{
    let es = m.entries;
    let name = m.mode_name;
    let cp = es[i]->Materialize_canonical_path;
    assert(es.take(i + 1).drop_last() =~= es.take(i));
    assert(es.take(i + 1).last() == es[i]);
    let si = check_entries(name, files, verdicts, es.take(i));
    let si1 = check_entries(name, files, verdicts, es.take(i + 1));
    assert(si1.0.contains(cp)) by {
        if !si.0.contains(cp) {
            assert(si1.0[si.0.len() as int] == cp);
        }
    }
    lemma_seen_grows(name, files, verdicts, es.take(j), i + 1);
    assert(es.take(j).take(i + 1) =~= es.take(i + 1));
    assert(es.take(j + 1).drop_last() =~= es.take(j));
    assert(es.take(j + 1).last() == es[j]);
    let sj1 = check_entries(name, files, verdicts, es.take(j + 1));
    assert(sj1.1.len() > 0);
    lemma_check_entries_grow(name, files, verdicts, es, j + 1);
}

} // verus!
