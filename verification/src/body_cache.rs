//! When the rendered conversation body can be reused: the inputs that shape
//! it, and whether a frame is a cache hit, re-renders only the last message,
//! or rebuilds the whole transcript.

use vstd::prelude::*;

verus! {

/// How much of each message the conversation shows.
#[derive(Debug, Clone, Copy, PartialEq, Eq, Structural)]
pub enum Zoom {
    Summary,
    Normal,
    Detail,
}

/// The inputs that determine the rendered conversation body. The scroll
/// offset is not among them: scrolling reuses the body.
#[derive(Debug, Clone, Copy, PartialEq, Eq, Structural)]
pub struct BodyKey {
    pub zoom: Zoom,
    pub width: usize,
    pub streaming: bool,
    /// Whether the caret shows; it only matters while streaming.
    pub caret: bool,
    /// The time-zone offset, in seconds, timestamps are shown in.
    pub tz: i32,
    /// A revision of the open question's buffer; 0 when none is open.
    pub question_rev: u64,
}

/// How a frame refreshed the body.
#[derive(Debug, Clone, Copy, PartialEq, Eq, Structural)]
pub enum RefreshKind {
    /// Nothing changed: the cached body was reused as it was.
    Hit,
    /// Only the last message changed and was re-rendered.
    Incremental,
    /// The whole transcript was re-rendered.
    Full,
}

/// The inputs whose change forces a full rebuild: all but the question's
/// revision, since the open question is always the last message.
pub open spec fn same_structure(a: BodyKey, b: BodyKey) -> bool {
    a.zoom == b.zoom && a.width == b.width && a.streaming == b.streaming && a.caret == b.caret && a.tz
        == b.tz
}

impl BodyKey {
    /// Whether the two keys agree on every input that forces a full
    /// rebuild.
    pub fn matches_structure(&self, other: &BodyKey) -> (r: bool)
        ensures
            r == same_structure(*self, *other),
    {
        self.zoom == other.zoom && self.width == other.width && self.streaming == other.streaming
            && self.caret == other.caret && self.tz == other.tz
    }
}

/// The refresh a frame with `key` over `n` messages takes, given the key
/// and message count the cached body was built from: a hit when idle and
/// nothing changed; the last message alone when the structure and the count
/// are unchanged (a streaming reply growing, a question being edited); else
/// a full rebuild.
pub open spec fn refresh_kind(cached: Option<BodyKey>, cached_count: nat, key: BodyKey, n: nat) -> RefreshKind {
    if !key.streaming && cached == Some(key) && cached_count == n {
        RefreshKind::Hit
    } else if cached matches Some(k) && same_structure(k, key) && cached_count == n && n > 0 {
        RefreshKind::Incremental
    } else {
        RefreshKind::Full
    }
}

/// What the cached body was built from.
#[derive(Debug, Clone, Copy, PartialEq, Eq)]
pub struct BodyCacheKey {
    pub key: Option<BodyKey>,
    pub msg_count: usize,
}

impl BodyCacheKey {
    /// An empty cache: the first frame rebuilds.
    pub fn new() -> (r: BodyCacheKey)
        ensures
            r.key is None,
            r.msg_count == 0,
    {
        BodyCacheKey { key: None, msg_count: 0 }
    }

    /// Decide how the frame with `key` over `msg_count` messages refreshes
    /// the body, and record what the body is now built from.
    pub fn refresh(&mut self, key: BodyKey, msg_count: usize) -> (r: RefreshKind)
        ensures
            r == refresh_kind(old(self).key, old(self).msg_count as nat, key, msg_count as nat),
            final(self).key == Some(key),
            final(self).msg_count == msg_count,
    {
        if !key.streaming && self.msg_count == msg_count {
            if let Some(k) = self.key {
                if k == key {
                    return RefreshKind::Hit;
                }
            }
        }
        let structural = match self.key {
            Some(k) => k.matches_structure(&key),
            None => false,
        };
        if structural && self.msg_count == msg_count && self.msg_count > 0 {
            self.key = Some(key);
            return RefreshKind::Incremental;
        }
        self.msg_count = msg_count;
        self.key = Some(key);
        RefreshKind::Full
    }
}

/// Redrawing an idle frame with the same inputs reuses the body.
pub proof fn lemma_idle_redraw_hits(c: BodyCacheKey, key: BodyKey, n: usize)
    requires
        c.key == Some(key),
        c.msg_count == n,
        !key.streaming,
    ensures
        refresh_kind(c.key, c.msg_count as nat, key, n as nat) == RefreshKind::Hit,
{
}

/// Editing an open question (only its revision changes) never rebuilds the
/// whole transcript.
pub proof fn lemma_question_edit_is_incremental(c: BodyCacheKey, key: BodyKey, n: usize)
    requires
        c.key matches Some(k) && same_structure(k, key) && k.question_rev != key.question_rev,
        c.msg_count == n,
        n > 0,
    ensures
        refresh_kind(c.key, c.msg_count as nat, key, n as nat) == RefreshKind::Incremental,
{
}

/// A change of zoom, width, streaming, caret or time zone, or a new
/// message, rebuilds the whole transcript.
pub proof fn lemma_structural_change_rebuilds(c: BodyCacheKey, key: BodyKey, n: usize)
    requires
        c.key is None || !same_structure(c.key->0, key) || c.msg_count != n,
    ensures
        refresh_kind(c.key, c.msg_count as nat, key, n as nat) == RefreshKind::Full,
{
}

} // verus!
