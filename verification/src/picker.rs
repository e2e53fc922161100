//! The startup session picker and boot path: which session to resume or
//! whether to create one, from the session count, the CLI flags and the
//! user's keystrokes.

use crate::ids::{lemma_ulid_round_trip, ulid_decode, ulid_parse, ulid_text, ulid_to_string};
use vstd::string::StringSliceAdditionalSpecFns;
use crate::text::{chars_eq, chars_of, string_of, sub_chars};
use vstd::prelude::*;

verus! {

/// A key the startup picker recognizes.
#[derive(Debug, Clone, Copy, PartialEq, Eq, Structural)]
pub enum PickKey {
    Up,
    Down,
    Enter,
    Esc,
    Delete,
}

/// The outcome of a single keystroke in the startup picker.
#[derive(Debug, Clone, PartialEq, Eq, Structural)]
pub enum PickOutcome {
    /// The cursor moved; the new logical index.
    Pending(usize),
    /// A session row was picked (logical index, `1..=n_sessions`).
    Resume(usize),
    /// The "Create new session" row was picked.
    CreateNew,
    /// Esc: abort to a clean exit.
    Abort,
    /// Ask to delete the session row at this logical index.
    DeleteConfirm(usize),
}

/// `pick_choice` as a function of the clamped cursor: logical row 0 is
/// "Create new", rows `1..=n_sessions` are sessions, and Up/Down wrap.
pub open spec fn pick_spec(n_sessions: nat, selected: nat, key: PickKey) -> PickOutcome {
    let total = n_sessions + 1;
    let cur = if selected < total - 1 {
        selected
    } else {
        (total - 1) as nat
    };
    match key {
        PickKey::Up => PickOutcome::Pending(
            if cur == 0 {
                (total - 1) as usize
            } else {
                (cur - 1) as usize
            },
        ),
        PickKey::Down => PickOutcome::Pending(
            if cur + 1 >= total {
                0
            } else {
                (cur + 1) as usize
            },
        ),
        PickKey::Enter => if cur == 0 {
            PickOutcome::CreateNew
        } else {
            PickOutcome::Resume(cur as usize)
        },
        PickKey::Esc => PickOutcome::Abort,
        PickKey::Delete => if cur == 0 {
            PickOutcome::Pending(cur as usize)
        } else {
            PickOutcome::DeleteConfirm(cur as usize)
        },
    }
}

/// Handle one keystroke in the startup picker.
pub fn pick_choice(n_sessions: usize, selected: usize, key: PickKey) -> (r: PickOutcome)
    requires
        n_sessions < usize::MAX,
    ensures
        r == pick_spec(n_sessions as nat, selected as nat, key),
        r matches PickOutcome::Pending(i) ==> i <= n_sessions,
        r matches PickOutcome::Resume(i) ==> 1 <= i <= n_sessions,
        r matches PickOutcome::DeleteConfirm(i) ==> 1 <= i <= n_sessions,
{
    let total = n_sessions + 1;
    let cur = if selected < total - 1 {
        selected
    } else {
        total - 1
    };
    match key {
        PickKey::Up => {
            let next = if cur == 0 {
                total - 1
            } else {
                cur - 1
            };
            PickOutcome::Pending(next)
        },
        PickKey::Down => {
            let next = if cur + 1 >= total {
                0
            } else {
                cur + 1
            };
            PickOutcome::Pending(next)
        },
        PickKey::Enter => {
            if cur == 0 {
                PickOutcome::CreateNew
            } else {
                PickOutcome::Resume(cur)
            }
        },
        PickKey::Esc => PickOutcome::Abort,
        PickKey::Delete => {
            if cur == 0 {
                PickOutcome::Pending(cur)
            } else {
                PickOutcome::DeleteConfirm(cur)
            }
        },
    }
}

/// Moving the cursor down and then up returns it to where it was, for any
/// cursor on a row of the list.
pub proof fn lemma_down_then_up(n_sessions: nat, selected: nat)
    requires
        selected <= n_sessions,
        n_sessions < usize::MAX,
    ensures
        pick_spec(n_sessions, selected, PickKey::Down) matches PickOutcome::Pending(d) && pick_spec(
            n_sessions,
            d as nat,
            PickKey::Up,
        ) == PickOutcome::Pending(selected as usize),
{
}

/// Moving the cursor up and then down returns it to where it was, for any
/// cursor on a row of the list.
pub proof fn lemma_up_then_down(n_sessions: nat, selected: nat)
    requires
        selected <= n_sessions,
        n_sessions < usize::MAX,
    ensures
        pick_spec(n_sessions, selected, PickKey::Up) matches PickOutcome::Pending(u) && pick_spec(
            n_sessions,
            u as nat,
            PickKey::Down,
        ) == PickOutcome::Pending(selected as usize),
{
}

/// Vertical scroll offset of the picker's paragraph: 0 while the selected
/// line fits in the first screen, else the offset that makes it the last
/// visible row (truncated to `u16`, as the paragraph's scroll type is).
pub fn picker_scroll_offset(selected_line: usize, visible_height: usize) -> (r: u16)
    ensures
        visible_height == 0 || selected_line < visible_height ==> r == 0,
        visible_height > 0 && selected_line >= visible_height ==> r == ((selected_line
            - visible_height + 1) as usize) as u16,
{
    if visible_height == 0 {
        return 0;
    }
    if selected_line < visible_height {
        return 0;
    }
    #[verifier::truncate]
    ((selected_line - visible_height + 1) as u16)
}

/// With a non-zero height and an offset that fits in `u16`, the selected line
/// lies inside the visible window `[offset, offset + visible_height)`.
pub proof fn lemma_scroll_keeps_selection_visible(selected_line: usize, visible_height: usize)
    requires
        visible_height > 0,
        selected_line < visible_height || selected_line - visible_height + 1 <= u16::MAX,
    ensures
        ({
            let off: int = if selected_line < visible_height {
                0
            } else {
                selected_line - visible_height + 1
            };
            off <= selected_line < off + visible_height
        }),
{
}

/// Which startup path to take.
#[derive(Debug, Clone, PartialEq, Eq)]
pub enum BootPath {
    /// No sessions: create one silently.
    AutoCreate,
    /// One session: resume it silently.
    AutoResume,
    /// Two or more: show the picker.
    Picker,
    /// `--new`: create a fresh session.
    ForceNew,
    /// `--resume <id>`: resume this id.
    ForceResume(String),
}

/// The startup path: `--resume` wins over `--new`, which wins over the
/// count-based paths.
pub fn boot_decision(n_sessions: usize, new: bool, resume: Option<&str>) -> (r: BootPath)
    ensures
        resume matches Some(id) ==> r matches BootPath::ForceResume(s) && s@ == id@,
        resume is None && new ==> r == BootPath::ForceNew,
        resume is None && !new && n_sessions == 0 ==> r == BootPath::AutoCreate,
        resume is None && !new && n_sessions == 1 ==> r == BootPath::AutoResume,
        resume is None && !new && n_sessions >= 2 ==> r == BootPath::Picker,
{
    if let Some(id) = resume {
        return BootPath::ForceResume(String::from_str(id));
    }
    if new {
        return BootPath::ForceNew;
    }
    if n_sessions == 0 {
        BootPath::AutoCreate
    } else if n_sessions == 1 {
        BootPath::AutoResume
    } else {
        BootPath::Picker
    }
}

/// One stored session for the current directory.
#[derive(Debug, Clone)]
pub struct SessionInfo {
    /// The session's ULID as its 128-bit value.
    pub id: u128,
    pub name: String,
    pub root_path: String,
    pub created_ts: i64,
    pub last_touched_ts: i64,
    pub token_total: u64,
    pub active: bool,
    pub active_pid: Option<i64>,
    pub active_heartbeat: Option<i64>,
}

/// The last four characters (the whole string when shorter).
pub open spec fn last4_of(s: Seq<char>) -> Seq<char> {
    if s.len() >= 4 {
        s.subrange(s.len() - 4, s.len() as int)
    } else {
        s
    }
}

/// Last 4 chars of a string (the short session id in the dashboard header).
pub fn last4(s: &str) -> (r: String)
    ensures
        r@ == last4_of(s@),
{
    let v = chars_of(s);
    let start = if v.len() >= 4 {
        v.len() - 4
    } else {
        0
    };
    let t = sub_chars(&v, start, v.len());
    proof {
        if v.len() < 4 {
            assert(v@.subrange(0, v@.len() as int) =~= v@);
        }
    }
    string_of(&t)
}

/// Why `resolve_resume_id` failed.
#[derive(Debug)]
pub enum ResumeIdError {
    /// No session for this directory matched the query.
    NotFound,
    /// Several sessions share the queried last four characters; carries
    /// their full ids, in session order.
    Ambiguous(Vec<String>),
    /// The query is neither 4 nor 26 bytes long.
    InvalidLength,
}

/// The ids whose text ends in `q`, in order.
pub open spec fn last4_matches(ids: Seq<u128>, q: Seq<char>) -> Seq<u128>
    decreases ids.len(),
{
    if ids.len() == 0 {
        Seq::empty()
    } else {
        let rest = last4_matches(ids.drop_last(), q);
        if last4_of(ulid_text(ids.last())) == q {
            rest.push(ids.last())
        } else {
            rest
        }
    }
}

/// The ids of a list of sessions.
pub open spec fn session_ids(sessions: Seq<SessionInfo>) -> Seq<u128> {
    sessions.map_values(|s: SessionInfo| s.id)
}

/// Resolve a `--resume <id>` query: a 4-byte query is matched against each
/// session id's last four characters, a 26-byte query is parsed as a full
/// ULID, any other length is rejected.
pub fn resolve_resume_id(sessions: &[SessionInfo], query: &str) -> (r: Result<u128, ResumeIdError>)
    ensures
        query.len() == 4 ==> ({
            let m = last4_matches(session_ids(sessions@), query@);
            &&& m.len() == 0 ==> (r matches Err(ResumeIdError::NotFound))
            &&& m.len() == 1 ==> r == Ok::<u128, ResumeIdError>(m[0])
            &&& m.len() > 1 ==> (r matches Err(ResumeIdError::Ambiguous(v)) && v@.map_values(
                |s: String| s@,
            ) == m.map_values(|id: u128| ulid_text(id)))
        }),
        query.len() == 26 ==> match ulid_decode(query@) {
            Some(id) => if session_ids(sessions@).contains(id) {
                r == Ok::<u128, ResumeIdError>(id)
            } else {
                r matches Err(ResumeIdError::NotFound)
            },
            None => r matches Err(ResumeIdError::NotFound),
        },
        query.len() != 4 && query.len() != 26 ==> r matches Err(
            ResumeIdError::InvalidLength,
        ),
{
    let qlen = query.len();
    let ghost ids = session_ids(sessions@);
    if qlen == 4 {
        let q = chars_of(query);
        let mut found: Vec<u128> = Vec::new();
        let mut texts: Vec<String> = Vec::new();
        let mut i: usize = 0;
        while i < sessions.len()
            invariant
                i <= sessions@.len(),
                ids == session_ids(sessions@),
                q@ == query@,
                found@ == last4_matches(ids.subrange(0, i as int), query@),
                texts@.map_values(|s: String| s@) == found@.map_values(|id: u128| ulid_text(id)),
            decreases sessions@.len() - i,
        {
            let id = sessions[i].id;
            let text = ulid_to_string(id);
            let l4 = last4(text.as_str());
            let lc = chars_of(l4.as_str());
            proof {
                assert(ids.subrange(0, i + 1).drop_last() =~= ids.subrange(0, i as int));
                assert(ids[i as int] == id);
            }
            if chars_eq(&lc, &q) {
                let ghost tb = texts@;
                let ghost fb = found@;
                found.push(id);
                texts.push(text);
                assert(texts@.map_values(|s: String| s@) =~= tb.map_values(|s: String| s@).push(
                    ulid_text(id),
                ));
                assert(found@.map_values(|x: u128| ulid_text(x)) =~= fb.map_values(
                    |x: u128| ulid_text(x),
                ).push(ulid_text(id)));
            }
            i += 1;
        }
        assert(ids.subrange(0, sessions@.len() as int) =~= ids);
        if found.len() == 0 {
            Err(ResumeIdError::NotFound)
        } else if found.len() == 1 {
            Ok(found[0])
        } else {
            Err(ResumeIdError::Ambiguous(texts))
        }
    } else if qlen == 26 {
        match ulid_parse(query) {
            Some(id) => {
                let mut i: usize = 0;
                while i < sessions.len()
                    invariant
                        i <= sessions@.len(),
                        ids == session_ids(sessions@),
                        forall|j: int| 0 <= j < i ==> ids[j] != id,
                        query.len() == 26,
                        ulid_decode(query@) == Some(id),
                    decreases sessions@.len() - i,
                {
                    if sessions[i].id == id {
                        assert(ids[i as int] == id);
                        return Ok(sessions[i].id);
                    }
                    i += 1;
                }
                assert(!ids.contains(id));
                Err(ResumeIdError::NotFound)
            },
            None => Err(ResumeIdError::NotFound),
        }
    } else {
        Err(ResumeIdError::InvalidLength)
    }
}

/// What the picker loop should do after a key.
#[derive(Debug, Clone, PartialEq, Eq, Structural)]
pub enum PickerAction {
    /// Nothing to do but redraw.
    Redraw,
    /// Resume the session at this index of the session list.
    Resume(usize),
    /// Create a fresh session.
    CreateNew,
    /// Abort to a clean exit.
    Abort,
    /// Delete the session at this index of the session list, then relist
    /// and call `Picker::relisted`.
    DeleteSession(usize),
}

/// A key as the picker loop sees it.
#[derive(Debug, Clone, Copy, PartialEq, Eq, Structural)]
pub enum PickerKey {
    Up,
    Down,
    Enter,
    Esc,
    Delete,
    Backspace,
    Char(char),
    Other,
}

/// The picker's cursor state: `n` session rows, the logical cursor, and the
/// row awaiting delete confirmation.
#[derive(Debug, Clone, Copy, PartialEq, Eq, Structural)]
pub struct Picker {
    pub n: usize,
    pub selected: usize,
    pub pending_delete: Option<usize>,
}

impl Picker {
    /// Start on the most recent session when there is one, else on
    /// "Create new".
    pub fn new(n: usize) -> (r: Self)
        ensures
            r.n == n,
            r.selected == (if n > 0 {
                1usize
            } else {
                0usize
            }),
            r.pending_delete is None,
    {
        Picker { n, selected: if n > 0 {
            1
        } else {
            0
        }, pending_delete: None }
    }

    /// The paragraph line of the cursor: "Create new" is line 2, session
    /// row `k` is line `2 + k`.
    pub fn selected_line(&self) -> (r: usize)
        requires
            self.selected <= usize::MAX - 2,
        ensures
            r == (if self.selected == 0 {
                2
            } else {
                2 + self.selected
            }),
    {
        if self.selected == 0 {
            2
        } else {
            2 + self.selected
        }
    }

    /// Apply one key. While a delete awaits confirmation, `y`/`Y`/Enter
    /// confirm it and `n`/`N`/Esc cancel it; every other key is ignored.
    /// Otherwise the key drives `pick_choice`; a delete request on a live
    /// session (`live[i]` for session `i`) is ignored.
    pub fn key(&mut self, key: PickerKey, live: &[bool]) -> (act: PickerAction)
        requires
            old(self).n < usize::MAX,
            old(self).pending_delete matches Some(i) ==> 1 <= i <= old(self).n,
        ensures
            final(self).n == old(self).n,
            old(self).pending_delete matches Some(idx) ==> match key {
                PickerKey::Enter | PickerKey::Char('y') | PickerKey::Char('Y') => act
                    == PickerAction::DeleteSession((idx - 1) as usize) && *final(self) == *old(self),
                PickerKey::Esc | PickerKey::Char('n') | PickerKey::Char('N') => act
                    == PickerAction::Redraw && final(self).pending_delete is None
                    && final(self).selected == old(self).selected,
                _ => act == PickerAction::Redraw && *final(self) == *old(self),
            },
            old(self).pending_delete is None ==> match key {
                PickerKey::Char(_) | PickerKey::Other => act == PickerAction::Redraw && *final(self) == *old(self),
                _ => {
                    let pk = match key {
                        PickerKey::Up => PickKey::Up,
                        PickerKey::Down => PickKey::Down,
                        PickerKey::Enter => PickKey::Enter,
                        PickerKey::Esc => PickKey::Esc,
                        _ => PickKey::Delete,
                    };
                    match pick_spec(old(self).n as nat, old(self).selected as nat, pk) {
                        PickOutcome::Pending(s) => act == PickerAction::Redraw && final(self).selected
                            == s && final(self).pending_delete is None,
                        PickOutcome::Resume(i) => act == PickerAction::Resume((i - 1) as usize)
                            && *final(self) == *old(self),
                        PickOutcome::CreateNew => act == PickerAction::CreateNew && *final(self)
                            == *old(self),
                        PickOutcome::Abort => act == PickerAction::Abort && *final(self) == *old(self),
                        PickOutcome::DeleteConfirm(i) => act == PickerAction::Redraw
                            && final(self).selected == old(self).selected && final(self).pending_delete == (if (i - 1) < live.len() && live[i - 1] {
                            None
                        } else {
                            Some(i)
                        }),
                    }
                },
            },
            final(self).pending_delete matches Some(i) ==> 1 <= i <= final(self).n,
    {
        if let Some(idx) = self.pending_delete {
            match key {
                PickerKey::Enter | PickerKey::Char('y') | PickerKey::Char('Y') => {
                    return PickerAction::DeleteSession(idx - 1);
                },
                PickerKey::Esc | PickerKey::Char('n') | PickerKey::Char('N') => {
                    self.pending_delete = None;
                    return PickerAction::Redraw;
                },
                _ => {
                    return PickerAction::Redraw;
                },
            }
        }
        let pk = match key {
            PickerKey::Up => PickKey::Up,
            PickerKey::Down => PickKey::Down,
            PickerKey::Enter => PickKey::Enter,
            PickerKey::Esc => PickKey::Esc,
            PickerKey::Delete | PickerKey::Backspace => PickKey::Delete,
            PickerKey::Char(_) | PickerKey::Other => {
                return PickerAction::Redraw;
            },
        };
        match pick_choice(self.n, self.selected, pk) {
            PickOutcome::Pending(s) => {
                self.selected = s;
                PickerAction::Redraw
            },
            PickOutcome::Resume(i) => PickerAction::Resume(i - 1),
            PickOutcome::CreateNew => PickerAction::CreateNew,
            PickOutcome::Abort => PickerAction::Abort,
            PickOutcome::DeleteConfirm(i) => {
                let is_live = if i - 1 < live.len() {
                    live[i - 1]
                } else {
                    false
                };
                if !is_live {
                    self.pending_delete = Some(i);
                }
                PickerAction::Redraw
            },
        }
    }

    /// After a confirmed delete and a relist of `n` sessions: clear the
    /// confirmation and keep the cursor on a session row (or on "Create new"
    /// when none remain).
    pub fn relisted(&mut self, n: usize)
        ensures
            final(self).n == n,
            final(self).pending_delete is None,
            final(self).selected == (if n == 0 {
                0
            } else if old(self).selected > n {
                n
            } else {
                old(self).selected
            }),
    {
        self.n = n;
        if n == 0 {
            self.selected = 0;
        } else if self.selected > n {
            self.selected = n;
        }
        self.pending_delete = None;
    }
}

/// The full text of a session id resolves to that session: it is 26 bytes
/// long and decodes to the id, so `resolve_resume_id` answers `Ok(id)` for
/// it whenever a listed session has that id.
pub proof fn lemma_full_id_resolves(q: &str, id: u128)
    requires
        q@ == ulid_text(id),
    ensures
        q.spec_bytes().len() == 26,
        ulid_decode(q@) == Some(id),
{
    lemma_ulid_round_trip(id);
    vstd::string::is_ascii_spec_bytes(q);
}

/// Whether the five characters of `s` at `i` are the row separator
/// `"  ·  "`.
pub open spec fn sep_here(s: Seq<char>, i: int) -> bool {
    0 <= i && i + 5 <= s.len() && s.subrange(i, i + 5) == "  ·  "@
}

/// Index of the first separator at or after `i`, or the length.
pub open spec fn sep_from(s: Seq<char>, i: int) -> int
    decreases s.len() - i,
{
    if i < 0 || i + 5 > s.len() {
        s.len() as int
    } else if sep_here(s, i) {
        i
    } else {
        sep_from(s, i + 1)
    }
}

proof fn lemma_sep_from_bounds(s: Seq<char>, i: int)
    requires
        0 <= i,
    ensures
        sep_from(s, i) <= s.len(),
        i <= sep_from(s, i) || sep_from(s, i) == s.len(),
    decreases s.len() - i,
{
    if i + 5 <= s.len() && !sep_here(s, i) {
        lemma_sep_from_bounds(s, i + 1);
    }
}

/// The session name at the start of a session-list row
/// (`name  ·  age  ·  tokens`): the text before the first separator, or the
/// whole row when it has none.
pub fn session_row_name(row: &str) -> (r: String)
    ensures
        r@ == row@.take(sep_from(row@, 0)),
{
    proof {
        reveal_strlit("  ·  ");
        lemma_sep_from_bounds(row@, 0);
    }
    let v = chars_of(row);
    let sep = chars_of("  ·  ");
    let n = v.len();
    let mut i: usize = 0;
    while i < n && n - i >= 5
        invariant
            i <= n,
            n == v@.len(),
            v@ == row@,
            sep@ == "  ·  "@,
            sep_from(v@, 0) == sep_from(v@, i as int),
        decreases n - i,
    {
        let w = sub_chars(&v, i, i + 5);
        if chars_eq(&w, &sep) {
            assert(sep_here(v@, i as int));
            return string_of(&sub_chars(&v, 0, i));
        }
        assert(!sep_here(v@, i as int));
        i += 1;
    }
    assert(sep_from(v@, i as int) == n);
    assert(v@.take(n as int) =~= v@);
    string_of(&v)
}

/// What a delete press in the session drawer does.
#[derive(Debug, Clone, Copy, PartialEq, Eq, Structural)]
pub enum DrawerDelete {
    /// A turn or subagents are running: show the busy hint and close.
    Busy,
    /// No session row is selected: nothing.
    NoSelection,
    /// The session is open in a running process: refuse.
    InUse,
    /// Ask to confirm the delete.
    Confirm,
}

/// Decide a delete press in the session drawer: refused while busy, a
/// no-op without a selected row, refused for a session in use, else a
/// confirmation.
pub fn drawer_delete_check(busy: bool, has_selection: bool, live: bool) -> (r: DrawerDelete)
    ensures
        busy ==> r == DrawerDelete::Busy,
        !busy && !has_selection ==> r == DrawerDelete::NoSelection,
        !busy && has_selection && live ==> r == DrawerDelete::InUse,
        !busy && has_selection && !live ==> r == DrawerDelete::Confirm,
{
    if busy {
        DrawerDelete::Busy
    } else if !has_selection {
        DrawerDelete::NoSelection
    } else if live {
        DrawerDelete::InUse
    } else {
        DrawerDelete::Confirm
    }
}

/// The drawer's selection after the session list was reloaded: kept when
/// still on a row, else back to the top.
pub fn selection_after_relist(selected: usize, len: usize) -> (r: usize)
    ensures
        selected < len ==> r == selected,
        selected >= len ==> r == 0,
{
    if selected >= len {
        0
    } else {
        selected
    }
}

} // verus!
