//! Scheduled wake-ups: the runaway guards on a schedule request, the pending
//! set projected from the event log (ordered by fire time, then id), which
//! wakes are due, and the delegation-wake decisions of the orchestrator.

use crate::text::{
    chars_eq, chars_of, compare_chars, decimal, decimal_chars, extend_chars, extend_str,
    lemma_seq_lt_irrefl, lemma_seq_lt_total, lemma_seq_lt_trans, seq_lt, string_of, Order,
};
use crate::projection::{Event, EventKind};
use vstd::prelude::*;

verus! {

/// Shortest delay an agent may schedule, in seconds.
pub const WAKE_MIN_DELAY_SECS: u64 = 30;

/// Most wakes that may be pending at once.
pub const WAKE_MAX_PENDING: usize = 16;

/// Longest delay an agent may schedule: 30 days, in seconds.
pub const WAKE_MAX_DELAY_SECS: u64 = 2_592_000;

/// A fire more than this many milliseconds overdue is stamped as late.
pub const WAKE_LATE_STAMP_MS: i64 = 5_000;

/// Why a `schedule_wake` request is refused, checking the master switch, the
/// 30 s floor, the 30-day ceiling and the 16-pending cap in that order;
/// `None` when it is accepted.
pub open spec fn schedule_error(enabled: bool, pending_count: int, delay_secs: u64) -> Option<Seq<char>> {
    if !enabled {
        Some("scheduled wake-ups are disabled ([wake] enabled = false)"@)
    } else if delay_secs < WAKE_MIN_DELAY_SECS {
        Some("delay must be at least "@ + decimal(WAKE_MIN_DELAY_SECS as nat) + "s"@)
    } else if delay_secs > WAKE_MAX_DELAY_SECS {
        Some("delay must be at most "@ + decimal(WAKE_MAX_DELAY_SECS as nat) + "s (30 days)"@)
    } else if pending_count >= WAKE_MAX_PENDING {
        Some("too many pending wakes (max "@ + decimal(WAKE_MAX_PENDING as nat) + ")"@)
    } else {
        None
    }
}

/// Validate a `schedule_wake` request against the master switch, the 30 s
/// floor, the 30-day ceiling and the 16-pending cap, in that order.
pub fn validate_schedule(enabled: bool, pending_count: usize, delay_secs: u64) -> (r: Result<(), String>)
    ensures
        r is Ok <==> schedule_error(enabled, pending_count as int, delay_secs) is None,
        r matches Err(e) ==> schedule_error(enabled, pending_count as int, delay_secs) == Some(e@),
{
    if !enabled {
        return Err(String::from_str("scheduled wake-ups are disabled ([wake] enabled = false)"));
    }
    if delay_secs < WAKE_MIN_DELAY_SECS {
        let mut m = chars_of("delay must be at least ");
        extend_chars(&mut m, &decimal_chars(WAKE_MIN_DELAY_SECS));
        extend_str(&mut m, "s");
        return Err(string_of(&m));
    }
    if delay_secs > WAKE_MAX_DELAY_SECS {
        let mut m = chars_of("delay must be at most ");
        extend_chars(&mut m, &decimal_chars(WAKE_MAX_DELAY_SECS));
        extend_str(&mut m, "s (30 days)");
        return Err(string_of(&m));
    }
    if pending_count >= WAKE_MAX_PENDING {
        let mut m = chars_of("too many pending wakes (max ");
        extend_chars(&mut m, &decimal_chars(WAKE_MAX_PENDING as u64));
        extend_str(&mut m, ")");
        return Err(string_of(&m));
    }
    Ok(())
}

/// The fire time of a wake scheduled `delay_secs` from `now_ms`, saturating
/// at the ends of the `i64` range.
pub open spec fn fire_at_spec(now_ms: i64, delay_secs: u64) -> i64 {
    let d: int = if delay_secs <= i64::MAX {
        delay_secs as int
    } else {
        i64::MAX as int
    };
    let ms: int = if d * 1000 > i64::MAX {
        i64::MAX as int
    } else {
        d * 1000
    };
    let t: int = now_ms + ms;
    (if t > i64::MAX {
        i64::MAX as int
    } else {
        t
    }) as i64
}

/// `now_ms.saturating_add(i64::try_from(delay_secs).unwrap_or(i64::MAX).saturating_mul(1000))`.
pub fn fire_at_for(now_ms: i64, delay_secs: u64) -> (r: i64)
    ensures
        r == fire_at_spec(now_ms, delay_secs),
{
    let d: i64 = if delay_secs <= i64::MAX as u64 {
        delay_secs as i64
    } else {
        i64::MAX
    };
    let ms: i64 = if d > i64::MAX / 1000 {
        i64::MAX
    } else {
        d * 1000
    };
    assert(d > i64::MAX / 1000 <==> d * 1000 > i64::MAX) by (nonlinear_arith)
        requires
            d >= 0,
    ;
    if now_ms > i64::MAX - ms {
        i64::MAX
    } else {
        now_ms + ms
    }
}

/// A wake fires exactly `delay_secs` seconds after it was scheduled whenever
/// that instant fits in an `i64` of milliseconds (every delay the guards
/// accept, from 30 s to 30 days, at any present-day clock), and never before
/// the moment it was scheduled.
pub proof fn lemma_fire_time_is_now_plus_delay(now_ms: i64, delay_secs: u64)
    ensures
        1000 * delay_secs <= i64::MAX && now_ms + 1000 * delay_secs <= i64::MAX
            ==> fire_at_spec(now_ms, delay_secs) == now_ms + 1000 * delay_secs,
        fire_at_spec(now_ms, delay_secs) >= now_ms,
        delay_secs <= WAKE_MAX_DELAY_SECS && now_ms <= i64::MAX - 1000 * WAKE_MAX_DELAY_SECS
            ==> fire_at_spec(now_ms, delay_secs) == now_ms + 1000 * delay_secs,
{
}

/// The synthetic user message a fired wake injects; ` (fired late)` is
/// appended only when the fire is more than 5 s overdue.
pub fn wake_injection_text(note: &str, fire_at_ms: i64, now_ms: i64) -> (r: String)
    requires
        i64::MIN <= now_ms - fire_at_ms <= i64::MAX,
    ensures
        r@ == "⏰ scheduled: "@ + note@ + (if now_ms - fire_at_ms > WAKE_LATE_STAMP_MS {
            " (fired late)"@
        } else {
            Seq::<char>::empty()
        }),
{
    let mut m = chars_of("⏰ scheduled: ");
    extend_str(&mut m, note);
    if now_ms - fire_at_ms > WAKE_LATE_STAMP_MS {
        extend_str(&mut m, " (fired late)");
    } else {
        assert(m@ =~= m@ + Seq::<char>::empty());
    }
    string_of(&m)
}

/// Whether a just-recorded delegation result should wake the orchestrator
/// now: only when no turn is streaming and the session is not yielded.
pub fn should_wake_after_delegation(streaming: bool, yielded: bool) -> (r: bool)
    ensures
        r == (!streaming && !yielded),
{
    !streaming && !yielded
}

/// The orchestrator flags the delegation-wake decisions read and write.
#[derive(Debug, Clone, Copy, PartialEq, Eq, Structural)]
pub struct WakeFlags {
    pub streaming: bool,
    pub yielded: bool,
    pub wake_after_delegation: bool,
}

impl WakeFlags {
    /// A delegation result arrived. Idle: start a continuation turn now
    /// (returns `true`, marks streaming). Busy or yielded: no turn now, and
    /// unless yielded arm the deferred wake for `TurnComplete`.
    pub fn plan_delegation_wake(&mut self) -> (spawn: bool)
        ensures
            spawn == (!old(self).streaming && !old(self).yielded),
            spawn ==> final(self).streaming && !final(self).wake_after_delegation,
            !spawn ==> final(self).streaming == old(self).streaming,
            !spawn ==> final(self).wake_after_delegation == (old(self).wake_after_delegation
                || !old(self).yielded),
            final(self).yielded == old(self).yielded,
    {
        let wake = should_wake_after_delegation(self.streaming, self.yielded);
        if wake {
            self.wake_after_delegation = false;
            self.streaming = true;
            true
        } else {
            if !self.yielded {
                self.wake_after_delegation = true;
            }
            false
        }
    }

    /// At `TurnComplete` with no queued message consumed: fire the deferred
    /// wake if armed and not yielded; the flag is cleared either way.
    pub fn take_deferred_delegation_wake(&mut self) -> (spawn: bool)
        ensures
            spawn == (old(self).wake_after_delegation && !old(self).yielded),
            !final(self).wake_after_delegation,
            final(self).streaming == (old(self).streaming || spawn),
            final(self).yielded == old(self).yielded,
    {
        let wake = self.wake_after_delegation && !self.yielded;
        self.wake_after_delegation = false;
        if wake {
            self.streaming = true;
        }
        wake
    }
}

/// A deferred delegation wake fires at most once: a second
/// `take_deferred_delegation_wake` right after the first never spawns.
pub proof fn lemma_deferred_wake_fires_once(f: WakeFlags)
    ensures
        ({
            let after = WakeFlags { wake_after_delegation: false, ..f };
            !(after.wake_after_delegation && !after.yielded)
        }),
{
}

/// Order on pending keys: by fire time, then by id.
pub open spec fn key_lt(a: (i64, Seq<char>), b: (i64, Seq<char>)) -> bool {
    a.0 < b.0 || (a.0 == b.0 && seq_lt(a.1, b.1))
}

proof fn lemma_key_lt_trans(a: (i64, Seq<char>), b: (i64, Seq<char>), c: (i64, Seq<char>))
    requires
        key_lt(a, b),
        key_lt(b, c),
    ensures
        key_lt(a, c),
{
    if a.0 == b.0 && b.0 == c.0 {
        lemma_seq_lt_trans(a.1, b.1, c.1);
    }
}

proof fn lemma_key_lt_ne(a: (i64, Seq<char>), b: (i64, Seq<char>))
    requires
        key_lt(a, b),
    ensures
        a != b,
        !key_lt(b, a),
{
    lemma_seq_lt_irrefl(a.1);
    lemma_seq_lt_total(a.1, b.1);
}

/// A pending entry: (fire time, id, note).
pub type WakeTriple = (i64, Seq<char>, Seq<char>);

/// The key an entry is ordered and found by.
pub open spec fn key_of(e: WakeTriple) -> (i64, Seq<char>) {
    (e.0, e.1)
}

/// An executable entry seen as plain values.
pub open spec fn triple_view(e: (i64, String, String)) -> WakeTriple {
    (e.0, e.1@, e.2@)
}

/// A vector of entries seen as plain values.
pub open spec fn triples_view(v: Seq<(i64, String, String)>) -> Seq<WakeTriple> {
    v.map_values(|e: (i64, String, String)| triple_view(e))
}

/// Keys strictly ascending (so no key occurs twice).
pub open spec fn pending_ok(s: Seq<WakeTriple>) -> bool {
    forall|i: int, j: int| 0 <= i < j < s.len() ==> key_lt(key_of(#[trigger] s[i]), key_of(#[trigger] s[j]))
}

/// The fold over the log: the latest schedule per id, dropped once fired or
/// cancelled. Returns the surviving (fire time, note) per id.
pub open spec fn wake_fold(events: Seq<Event>) -> Map<Seq<char>, (i64, Seq<char>)>
    decreases events.len(),
{
    if events.len() == 0 {
        Map::empty()
    } else {
        let m = wake_fold(events.drop_last());
        match events.last().kind {
            EventKind::WakeScheduled { wake_id, fire_at_ms, note } => m.insert(wake_id@, (fire_at_ms, note@)),
            EventKind::WakeFired { wake_id } => m.remove(wake_id@),
            EventKind::WakeCancelled { wake_id } => m.remove(wake_id@),
            _ => m,
        }
    }
}

/// The entries `s` are exactly the surviving schedules `m`, one per id.
pub open spec fn represents(s: Seq<WakeTriple>, m: Map<Seq<char>, (i64, Seq<char>)>) -> bool {
    &&& forall|e: WakeTriple| #[trigger] s.contains(e) ==> m.contains_key(e.1) && m[e.1] == (e.0, e.2)
    &&& forall|k: Seq<char>| #[trigger] m.contains_key(k) ==> s.contains((m[k].0, k, m[k].1))
}

/// Some pending entry carries exactly this note.
pub open spec fn has_note_in(s: Seq<WakeTriple>, note: Seq<char>) -> bool {
    exists|i: int| 0 <= i < s.len() && #[trigger] s[i].2 == note
}

/// The refusal for a note that is already pending.
pub open spec fn duplicate_note_error() -> Seq<char> {
    "a pending wake with this note already exists — cancel it first with cancel_wake, or wait for it to fire. Do not schedule duplicate wakes for the same event."@
}

/// Keys of a vector of (fire time, id) pairs, as plain values.
pub open spec fn keys_view(v: Seq<(i64, String)>) -> Seq<(i64, Seq<char>)> {
    v.map_values(|k: (i64, String)| (k.0, k.1@))
}

/// Three-way comparison of two keys.
fn key_order(t: i64, id: &Vec<char>, u: i64, jd: &Vec<char>) -> (r: Order)
    ensures
        r == Order::Less <==> key_lt((t, id@), (u, jd@)),
        r == Order::Equal <==> (t, id@) == (u, jd@),
        r == Order::Greater <==> key_lt((u, jd@), (t, id@)),
{
    if t < u {
        Order::Less
    } else if t > u {
        Order::Greater
    } else {
        compare_chars(id, jd)
    }
}

/// The wakes that are scheduled and neither fired nor cancelled, ordered by
/// (fire time, id), each key once: a map from (fire time, id) to note.
pub struct PendingWakes {
    entries: Vec<(i64, String, String)>,
}

impl PendingWakes {
    /// The pending entries in key order.
    pub closed spec fn view_seq(&self) -> Seq<WakeTriple> {
        triples_view(self.entries@)
    }

    #[verifier::type_invariant]
    spec fn inv(&self) -> bool {
        pending_ok(self.view_seq())
    }

    /// Whether (fire time, id, note) is pending.
    pub open spec fn has(&self, t: i64, id: Seq<char>, note: Seq<char>) -> bool {
        self.view_seq().contains((t, id, note))
    }

    /// Nothing pending.
    pub fn new() -> (r: Self)
        ensures
            r.view_seq().len() == 0,
    {
        let r = PendingWakes { entries: Vec::new() };
        assert(r.view_seq() =~= Seq::empty());
        r
    }

    /// Number of pending wakes.
    pub fn len(&self) -> (r: usize)
        ensures
            r == self.view_seq().len(),
            pending_ok(self.view_seq()),
    {
        proof {
            use_type_invariant(self);
        }
        self.entries.len()
    }

    /// The `i`-th pending wake as (fire time, id, note).
    pub fn entry(&self, i: usize) -> (r: (i64, String, String))
        requires
            i < self.view_seq().len(),
        ensures
            triple_view(r) == self.view_seq()[i as int],
    {
        let e = &self.entries[i];
        (e.0, e.1.clone(), e.2.clone())
    }

    /// Where the key (t, id) stands: the first index whose key is not below
    /// it, and whether that entry has exactly this key.
    fn locate(&self, t: i64, idc: &Vec<char>) -> (r: (usize, bool))
        ensures
            r.0 <= self.view_seq().len(),
            forall|j: int| 0 <= j < r.0 ==> key_lt(key_of(#[trigger] self.view_seq()[j]), (t, idc@)),
            forall|j: int|
                r.0 < j < self.view_seq().len() ==> key_lt((t, idc@), key_of(#[trigger] self.view_seq()[j])),
            r.1 <==> (r.0 < self.view_seq().len() && key_of(self.view_seq()[r.0 as int]) == (t, idc@)),
            r.0 < self.view_seq().len() && !r.1 ==> key_lt((t, idc@), key_of(self.view_seq()[r.0 as int])),
            pending_ok(self.view_seq()),
    {
        proof {
            use_type_invariant(self);
        }
        let ghost s = self.view_seq();
        let ghost k = (t, idc@);
        let mut p: usize = 0;
        while p < self.entries.len()
            invariant
                p <= self.entries@.len(),
                s == self.view_seq(),
                s.len() == self.entries@.len(),
                pending_ok(s),
                k == (t, idc@),
                forall|j: int| 0 <= j < p ==> key_lt(key_of(#[trigger] s[j]), k),
            decreases self.entries@.len() - p,
        {
            let e = &self.entries[p];
            let ec = chars_of(e.1.as_str());
            assert(key_of(s[p as int]) == (e.0, ec@));
            match key_order(e.0, &ec, t, idc) {
                Order::Less => {
                    p += 1;
                },
                Order::Equal => {
                    proof {
                        assert forall|j: int| p < j < s.len() implies key_lt(k, key_of(#[trigger] s[j])) by {
                            assert(key_lt(key_of(s[p as int]), key_of(s[j])));
                        }
                    }
                    return (p, true);
                },
                Order::Greater => {
                    proof {
                        lemma_key_lt_ne(k, key_of(s[p as int]));
                        assert forall|j: int| p < j < s.len() implies key_lt(k, key_of(#[trigger] s[j])) by {
                            assert(key_lt(key_of(s[p as int]), key_of(s[j])));
                            lemma_key_lt_trans(k, key_of(s[p as int]), key_of(s[j]));
                        }
                    }
                    return (p, false);
                },
            }
        }
        (p, false)
    }

    /// The note of the wake with key (t, id), if pending.
    pub fn get(&self, t: i64, id: &str) -> (r: Option<String>)
        ensures
            r matches Some(n) ==> self.has(t, id@, n@),
            r is None ==> forall|e: WakeTriple|
                #[trigger] self.view_seq().contains(e) ==> key_of(e) != (t, id@),
    {
        let idc = chars_of(id);
        let (p, found) = self.locate(t, &idc);
        let ghost s = self.view_seq();
        if found {
            let n = self.entries[p].2.clone();
            assert(s[p as int] == triple_view(self.entries@[p as int]));
            assert(s[p as int] == (t, id@, n@));
            Some(n)
        } else {
            proof {
                assert forall|e: WakeTriple| #[trigger] s.contains(e) implies key_of(e) != (t, id@) by {
                    let j = choose|j: int| 0 <= j < s.len() && s[j] == e;
                    if j < p {
                        lemma_key_lt_ne(key_of(s[j]), (t, idc@));
                    } else if j > p {
                        lemma_key_lt_ne((t, idc@), key_of(s[j]));
                    } else {
                        lemma_key_lt_ne((t, idc@), key_of(s[j]));
                    }
                }
            }
            None
        }
    }

    /// Insert (or replace the note of) the wake with key (t, id).
    pub fn insert(&mut self, t: i64, id: String, note: String)
        ensures
            forall|e: WakeTriple|
                #[trigger] final(self).view_seq().contains(e) <==> (old(self).view_seq().contains(e)
                    && key_of(e) != (t, id@)) || e == (t, id@, note@),
    {
        let idc = chars_of(id.as_str());
        let (p, found) = self.locate(t, &idc);
        let ghost s = self.view_seq();
        let ghost x: WakeTriple = (t, id@, note@);
        let ghost k = (t, id@);
        let mut v: Vec<(i64, String, String)> = Vec::new();
        std::mem::swap(&mut v, &mut self.entries);
        assert(triples_view(v@) == s);
        if found {
            let ghost v0 = v@;
            v.set(p, (t, id, note));
            proof {
                let ns = triples_view(v@);
                assert(ns =~= s.update(p as int, x));
                assert forall|i: int, j: int| 0 <= i < j < ns.len() implies key_lt(key_of(#[trigger] ns[i]), key_of(#[trigger] ns[j])) by {
                    assert(key_lt(key_of(s[i]), key_of(s[j])));
                }
                assert forall|e: WakeTriple| #[trigger] ns.contains(e) <==> (s.contains(e) && key_of(e) != k) || e == x by {
                    if ns.contains(e) {
                        let j = choose|j: int| 0 <= j < ns.len() && ns[j] == e;
                        if j != p {
                            assert(s[j] == e);
                            if j < p {
                                lemma_key_lt_ne(key_of(s[j]), key_of(s[p as int]));
                            } else {
                                lemma_key_lt_ne(key_of(s[p as int]), key_of(s[j]));
                            }
                        }
                    }
                    if e == x {
                        assert(ns[p as int] == e);
                    } else if s.contains(e) && key_of(e) != k {
                        let j = choose|j: int| 0 <= j < s.len() && s[j] == e;
                        assert(j != p);
                        assert(ns[j] == e);
                    }
                }
            }
        } else {
            v.insert(p, (t, id, note));
            proof {
                let ns = triples_view(v@);
                assert(ns =~= s.insert(p as int, x));
                assert forall|i: int, j: int| 0 <= i < j < ns.len() implies key_lt(key_of(#[trigger] ns[i]), key_of(#[trigger] ns[j])) by {
                    if j < p {
                        assert(key_lt(key_of(s[i]), key_of(s[j])));
                    } else if j == p {
                    } else if i < p {
                        lemma_key_lt_trans(key_of(s[i]), k, key_of(s[j - 1]));
                    } else if i == p {
                    } else {
                        assert(key_lt(key_of(s[i - 1]), key_of(s[j - 1])));
                    }
                }
                assert forall|e: WakeTriple| #[trigger] ns.contains(e) <==> (s.contains(e) && key_of(e) != k) || e == x by {
                    if ns.contains(e) {
                        let j = choose|j: int| 0 <= j < ns.len() && ns[j] == e;
                        if j < p {
                            assert(s[j] == e);
                            lemma_key_lt_ne(key_of(s[j]), k);
                        } else if j > p {
                            assert(s[j - 1] == e);
                            lemma_key_lt_ne(k, key_of(s[j - 1]));
                        }
                    }
                    if e == x {
                        assert(ns[p as int] == e);
                    } else if s.contains(e) && key_of(e) != k {
                        let j = choose|j: int| 0 <= j < s.len() && s[j] == e;
                        if j < p {
                            assert(ns[j] == e);
                        } else {
                            assert(ns[j + 1] == e);
                        }
                    }
                }
            }
        }
        self.entries = v;
    }

    /// Remove the wake with key (t, id), returning its note.
    pub fn remove(&mut self, t: i64, id: &str) -> (r: Option<String>)
        ensures
            forall|e: WakeTriple|
                #[trigger] final(self).view_seq().contains(e) <==> old(self).view_seq().contains(e)
                    && key_of(e) != (t, id@),
            r matches Some(n) ==> old(self).has(t, id@, n@),
            r is None ==> forall|e: WakeTriple|
                #[trigger] old(self).view_seq().contains(e) ==> key_of(e) != (t, id@),
    {
        let idc = chars_of(id);
        let (p, found) = self.locate(t, &idc);
        let ghost s = self.view_seq();
        let ghost k = (t, id@);
        if !found {
            proof {
                assert forall|e: WakeTriple| #[trigger] s.contains(e) implies key_of(e) != k by {
                    let j = choose|j: int| 0 <= j < s.len() && s[j] == e;
                    if j < p {
                        lemma_key_lt_ne(key_of(s[j]), k);
                    } else {
                        lemma_key_lt_ne(k, key_of(s[j]));
                    }
                }
            }
            return None;
        }
        let mut v: Vec<(i64, String, String)> = Vec::new();
        std::mem::swap(&mut v, &mut self.entries);
        assert(triples_view(v@) == s);
        let removed = v.remove(p);
        proof {
            assert(triple_view(removed) == s[p as int]);
            let ns = triples_view(v@);
            assert(ns =~= s.remove(p as int));
            assert forall|i: int, j: int| 0 <= i < j < ns.len() implies key_lt(key_of(#[trigger] ns[i]), key_of(#[trigger] ns[j])) by {
                if j < p {
                    assert(key_lt(key_of(s[i]), key_of(s[j])));
                } else if i < p {
                    assert(key_lt(key_of(s[i]), key_of(s[j + 1])));
                } else {
                    assert(key_lt(key_of(s[i + 1]), key_of(s[j + 1])));
                }
            }
            assert forall|e: WakeTriple| #[trigger] ns.contains(e) <==> s.contains(e) && key_of(e) != k by {
                if ns.contains(e) {
                    let j = choose|j: int| 0 <= j < ns.len() && ns[j] == e;
                    if j < p {
                        assert(s[j] == e);
                        lemma_key_lt_ne(key_of(s[j]), k);
                    } else {
                        assert(s[j + 1] == e);
                        assert(key_lt(key_of(s[p as int]), key_of(s[j + 1])));
                        lemma_key_lt_ne(k, key_of(s[j + 1]));
                    }
                }
                if s.contains(e) && key_of(e) != k {
                    let j = choose|j: int| 0 <= j < s.len() && s[j] == e;
                    if j < p {
                        assert(ns[j] == e);
                    } else {
                        assert(j != p);
                        assert(ns[j - 1] == e);
                    }
                }
            }
        }
        self.entries = v;
        Some(removed.2)
    }

    /// Drop every wake whose id is `w`.
    pub fn remove_id(&mut self, w: &str)
        ensures
            forall|e: WakeTriple|
                #[trigger] final(self).view_seq().contains(e) <==> old(self).view_seq().contains(e)
                    && e.1 != w@,
    {
        proof {
            use_type_invariant(&*self);
        }
        let ghost s = self.view_seq();
        let wc = chars_of(w);
        let mut out: Vec<(i64, String, String)> = Vec::new();
        let mut i: usize = 0;
        while i < self.entries.len()
            invariant
                i <= self.entries@.len(),
                s == self.view_seq(),
                s.len() == self.entries@.len(),
                pending_ok(s),
                wc@ == w@,
                pending_ok(triples_view(out@)),
                forall|a: int|
                    #![trigger triples_view(out@)[a]]
                    0 <= a < out@.len() ==> exists|q: int|
                        0 <= q < i && #[trigger] s[q] == triples_view(out@)[a] && s[q].1 != w@,
                forall|q: int| 0 <= q < i && s[q].1 != w@ ==> triples_view(out@).contains(#[trigger] s[q]),
            decreases self.entries@.len() - i,
        {
            let ghost ov = triples_view(out@);
            let e = &self.entries[i];
            assert(s[i as int] == triple_view(self.entries@[i as int]));
            let ec = chars_of(e.1.as_str());
            if !chars_eq(&ec, &wc) {
                out.push((e.0, e.1.clone(), e.2.clone()));
                proof {
                    let nv = triples_view(out@);
                    assert(nv =~= ov.push(s[i as int]));
                    assert forall|a: int, b: int| 0 <= a < b < nv.len() implies key_lt(key_of(#[trigger] nv[a]), key_of(#[trigger] nv[b])) by {
                        if b == ov.len() {
                            let q = choose|q: int| 0 <= q < i && #[trigger] s[q] == ov[a] && s[q].1 != w@;
                            assert(key_lt(key_of(s[q]), key_of(s[i as int])));
                        } else {
                            assert(nv[a] == ov[a] && nv[b] == ov[b]);
                        }
                    }
                    assert forall|a: int| #![trigger nv[a]] 0 <= a < nv.len() implies exists|q: int|
                        0 <= q < i + 1 && #[trigger] s[q] == nv[a] && s[q].1 != w@ by {
                        if a < ov.len() {
                            let q = choose|q: int| 0 <= q < i && #[trigger] s[q] == ov[a] && s[q].1 != w@;
                            assert(s[q] == nv[a]);
                        } else {
                            assert(s[i as int] == nv[a]);
                        }
                    }
                    assert forall|q: int| 0 <= q < i + 1 && s[q].1 != w@ implies nv.contains(#[trigger] s[q]) by {
                        if q < i {
                            let a = choose|a: int| 0 <= a < ov.len() && ov[a] == s[q];
                            assert(nv[a] == s[q]);
                        } else {
                            assert(nv[ov.len() as int] == s[q]);
                        }
                    }
                }
            }
            i += 1;
        }
        proof {
            let nv = triples_view(out@);
            assert forall|e: WakeTriple| #[trigger] nv.contains(e) <==> s.contains(e) && e.1 != w@ by {
                if nv.contains(e) {
                    let a = choose|a: int| 0 <= a < nv.len() && nv[a] == e;
                    let q = choose|q: int| 0 <= q < i && #[trigger] s[q] == nv[a] && s[q].1 != w@;
                    assert(s[q] == e);
                }
                if s.contains(e) && e.1 != w@ {
                    let q = choose|q: int| 0 <= q < s.len() && s[q] == e;
                    assert(nv.contains(s[q]));
                }
            }
        }
        self.entries = out;
    }

    /// Project the pending set from the event log: every schedule whose id
    /// has no later fire or cancel, keyed by (fire time, id).
    pub fn from_events(events: &Vec<Event>) -> (r: Self)
        ensures
            represents(r.view_seq(), wake_fold(events@)),
    {
        let mut acc = PendingWakes::new();
        let mut i: usize = 0;
        while i < events.len()
            invariant
                i <= events@.len(),
                represents(acc.view_seq(), wake_fold(events@.take(i as int))),
            decreases events@.len() - i,
        {
            let ghost m = wake_fold(events@.take(i as int));
            assert(events@.take(i + 1).drop_last() =~= events@.take(i as int));
            assert(events@.take(i + 1).last() == events@[i as int]);
            match &events[i].kind {
                EventKind::WakeScheduled { wake_id, fire_at_ms, note } => {
                    acc.remove_id(wake_id.as_str());
                    acc.insert(*fire_at_ms, wake_id.clone(), note.clone());
                    proof {
                        let m2 = m.insert(wake_id@, (*fire_at_ms, note@));
                        assert(wake_fold(events@.take(i + 1)) == m2);
                        assert forall|k: Seq<char>| #[trigger] m2.contains_key(k) implies acc.view_seq().contains((m2[k].0, k, m2[k].1)) by {
                            if k != wake_id@ {
                                assert(m.contains_key(k));
                            }
                        }
                    }
                },
                EventKind::WakeFired { wake_id } => {
                    acc.remove_id(wake_id.as_str());
                    proof {
                        let m2 = m.remove(wake_id@);
                        assert(wake_fold(events@.take(i + 1)) == m2);
                        assert forall|k: Seq<char>| #[trigger] m2.contains_key(k) implies acc.view_seq().contains((m2[k].0, k, m2[k].1)) by {
                            assert(m.contains_key(k));
                        }
                    }
                },
                EventKind::WakeCancelled { wake_id } => {
                    acc.remove_id(wake_id.as_str());
                    proof {
                        let m2 = m.remove(wake_id@);
                        assert(wake_fold(events@.take(i + 1)) == m2);
                        assert forall|k: Seq<char>| #[trigger] m2.contains_key(k) implies acc.view_seq().contains((m2[k].0, k, m2[k].1)) by {
                            assert(m.contains_key(k));
                        }
                    }
                },
                _ => {
                    assert(wake_fold(events@.take(i + 1)) == m);
                },
            }
            i += 1;
        }
        assert(events@.take(events@.len() as int) =~= events@);
        acc
    }

    /// The earliest fire time (the watcher's next deadline), `None` when
    /// nothing is pending.
    pub fn earliest_fire_at(&self) -> (r: Option<i64>)
        ensures
            self.view_seq().len() == 0 ==> r is None,
            self.view_seq().len() > 0 ==> r == Some(self.view_seq()[0].0),
            r matches Some(t) ==> forall|i: int|
                0 <= i < self.view_seq().len() ==> t <= #[trigger] self.view_seq()[i].0,
    {
        proof {
            use_type_invariant(self);
        }
        if self.entries.len() == 0 {
            None
        } else {
            let r = self.entries[0].0;
            assert(self.view_seq()[0].0 == r);
            assert forall|i: int| 0 <= i < self.view_seq().len() implies r
                <= #[trigger] self.view_seq()[i].0 by {
                if i > 0 {
                    assert(key_lt(key_of(self.view_seq()[0]), key_of(self.view_seq()[i])));
                }
            }
            Some(r)
        }
    }

    /// Whether some pending wake carries exactly this note.
    pub fn has_note(&self, note: &str) -> (r: bool)
        ensures
            r == has_note_in(self.view_seq(), note@),
    {
        let n = chars_of(note);
        let mut i: usize = 0;
        while i < self.entries.len()
            invariant
                i <= self.entries@.len(),
                n@ == note@,
                forall|j: int| 0 <= j < i ==> #[trigger] self.view_seq()[j].2 != note@,
            decreases self.entries@.len() - i,
        {
            let c = chars_of(self.entries[i].2.as_str());
            assert(self.view_seq()[i as int].2 == self.entries@[i as int].2@);
            if chars_eq(&c, &n) {
                return true;
            }
            i += 1;
        }
        false
    }

    /// Check a `schedule_wake` request against the guards and the pending
    /// notes; on success, the fire time the new wake gets.
    pub fn plan_schedule(&self, enabled: bool, delay_secs: u64, note: &str, now_ms: i64) -> (r: Result<i64, String>)
        ensures
            match r {
                Ok(t) => schedule_error(enabled, self.view_seq().len() as int, delay_secs) is None
                    && !has_note_in(self.view_seq(), note@) && t == fire_at_spec(now_ms, delay_secs),
                Err(e) => match schedule_error(enabled, self.view_seq().len() as int, delay_secs) {
                    Some(m) => e@ == m,
                    None => has_note_in(self.view_seq(), note@) && e@ == duplicate_note_error(),
                },
            },
    {
        let n = self.len();
        match validate_schedule(enabled, n, delay_secs) {
            Err(e) => {
                return Err(e);
            },
            Ok(()) => {},
        }
        if self.has_note(note) {
            return Err(String::from_str(
                "a pending wake with this note already exists — cancel it first with cancel_wake, or wait for it to fire. Do not schedule duplicate wakes for the same event.",
            ));
        }
        Ok(fire_at_for(now_ms, delay_secs))
    }

    /// The keys of the wakes due at `now_ms` (fire time `<= now_ms`), in
    /// order: the range `..(now_ms + 1, "")` of the ordered map.
    pub fn due(&self, now_ms: i64) -> (r: Vec<(i64, String)>)
        ensures
            r@.len() <= self.view_seq().len(),
            keys_view(r@) == self.view_seq().take(r@.len() as int).map_values(|e: WakeTriple| key_of(e)),
            forall|i: int| 0 <= i < r@.len() ==> #[trigger] self.view_seq()[i].0 <= now_ms,
            forall|i: int|
                r@.len() <= i < self.view_seq().len() ==> #[trigger] self.view_seq()[i].0 > now_ms,
    {
        proof {
            use_type_invariant(self);
        }
        let ghost s = self.view_seq();
        let mut out: Vec<(i64, String)> = Vec::new();
        let mut i: usize = 0;
        while i < self.entries.len() && self.entries[i].0 <= now_ms
            invariant
                i <= self.entries@.len(),
                s == self.view_seq(),
                s.len() == self.entries@.len(),
                out@.len() == i,
                keys_view(out@) == s.take(i as int).map_values(|e: WakeTriple| key_of(e)),
                forall|j: int| 0 <= j < i ==> #[trigger] s[j].0 <= now_ms,
            decreases self.entries@.len() - i,
        {
            assert(s[i as int] == triple_view(self.entries@[i as int]));
            let ghost ov = keys_view(out@);
            out.push((self.entries[i].0, self.entries[i].1.clone()));
            assert(keys_view(out@) =~= ov.push(key_of(s[i as int])));
            assert(s.take(i + 1).map_values(|e: WakeTriple| key_of(e)) =~= s.take(i as int).map_values(
                |e: WakeTriple| key_of(e),
            ).push(key_of(s[i as int])));
            i += 1;
        }
        proof {
            assert forall|j: int| i <= j < s.len() implies #[trigger] s[j].0 > now_ms by {
                assert(s[i as int].0 == self.entries@[i as int].0);
                if j > i {
                    assert(key_lt(key_of(s[i as int]), key_of(s[j])));
                }
            }
        }
        out
    }

    /// The keys of the wakes with id `id`, or of every wake when `id` is
    /// `None`, in key order.
    pub fn keys_for(&self, id: Option<&str>) -> (r: Vec<(i64, String)>)
        ensures
            keys_view(r@) == (match id {
                None => self.view_seq().map_values(|e: WakeTriple| key_of(e)),
                Some(w) => self.view_seq().map_values(|e: WakeTriple| key_of(e)).filter(
                    |k: (i64, Seq<char>)| k.1 == w@,
                ),
            }),
    {
        let ghost s = self.view_seq();
        let ghost ks = s.map_values(|e: WakeTriple| key_of(e));
        let ghost wv: Seq<char> = match id {
            None => Seq::empty(),
            Some(w) => w@,
        };
        let ghost pred = |k: (i64, Seq<char>)| k.1 == wv;
        let want = match id {
            Some(w) => Some(chars_of(w)),
            None => None,
        };
        let mut out: Vec<(i64, String)> = Vec::new();
        let mut i: usize = 0;
        while i < self.entries.len()
            invariant
                i <= self.entries@.len(),
                s == self.view_seq(),
                s.len() == self.entries@.len(),
                ks == s.map_values(|e: WakeTriple| key_of(e)),
                want is None <==> id is None,
                want matches Some(wc) ==> wc@ == wv,
                id matches Some(w) ==> wv == w@,
                pred == (|k: (i64, Seq<char>)| k.1 == wv),
                id is None ==> keys_view(out@) == ks.take(i as int),
                id is Some ==> keys_view(out@) == ks.take(i as int).filter(pred),
            decreases self.entries@.len() - i,
        {
            assert(s[i as int] == triple_view(self.entries@[i as int]));
            assert(ks.take(i + 1) =~= ks.take(i as int).push(ks[i as int]));
            proof {
                ks.take(i as int).lemma_filter_push(ks[i as int], pred);
            }
            let keep = match &want {
                None => true,
                Some(wc) => {
                    let c = chars_of(self.entries[i].1.as_str());
                    chars_eq(&c, wc)
                },
            };
            let ghost ov = keys_view(out@);
            if keep {
                out.push((self.entries[i].0, self.entries[i].1.clone()));
                assert(keys_view(out@) =~= ov.push(ks[i as int]));
            }
            i += 1;
        }
        proof {
            assert(ks.take(i as int) =~= ks);
            match id {
                Some(w) => {
                    assert(pred =~= (|k: (i64, Seq<char>)| k.1 == w@));
                },
                None => {},
            }
        }
        out
    }
}

/// What a due-wake check does: nothing due; due but the orchestrator is busy
/// or yielded, so park the watcher and leave the wakes pending; or fire them.
#[derive(Debug, Clone, Copy, PartialEq, Eq, Structural)]
pub enum DrainStep {
    Nothing,
    Park,
    Fire,
}

/// Decide what to do with `due_count` due wakes.
pub fn drain_step(due_count: usize, streaming: bool, yielded: bool) -> (r: DrainStep)
    ensures
        due_count == 0 ==> r == DrainStep::Nothing,
        due_count > 0 && !streaming && !yielded ==> r == DrainStep::Fire,
        due_count > 0 && (streaming || yielded) ==> r == DrainStep::Park,
{
    if due_count == 0 {
        DrainStep::Nothing
    } else if !streaming && !yielded {
        DrainStep::Fire
    } else {
        DrainStep::Park
    }
}

/// The reply to `cancel_wake`: how many wakes were cancelled, for one id or
/// for all.
pub fn cancel_message(all: bool, n: usize) -> (r: String)
    ensures
        r@ == (if all {
            "cancelled all "@ + decimal(n as nat) + " pending wake(s)"@
        } else {
            "cancelled "@ + decimal(n as nat) + " wake(s)"@
        }),
{
    let mut m = if all {
        chars_of("cancelled all ")
    } else {
        chars_of("cancelled ")
    };
    extend_chars(&mut m, &decimal_chars(n as u64));
    if all {
        extend_str(&mut m, " pending wake(s)");
    } else {
        extend_str(&mut m, " wake(s)");
    }
    string_of(&m)
}

/// Scheduling a wake under a key that is not pending and then removing that
/// key (as a cancel or a fire does) leaves exactly the wakes that were
/// pending before: `s1` is what `insert` leaves of `s0`, `s2` what `remove`
/// leaves of `s1`.
pub proof fn lemma_insert_then_remove(s0: Seq<WakeTriple>, s1: Seq<WakeTriple>, s2: Seq<WakeTriple>, x: WakeTriple)
    requires
        forall|e: WakeTriple| #[trigger] s0.contains(e) ==> key_of(e) != key_of(x),
        forall|e: WakeTriple|
            #[trigger] s1.contains(e) <==> (s0.contains(e) && key_of(e) != key_of(x)) || e == x,
        forall|e: WakeTriple| #[trigger] s2.contains(e) <==> s1.contains(e) && key_of(e) != key_of(x),
    ensures
        forall|e: WakeTriple| #[trigger] s2.contains(e) <==> s0.contains(e),
{
    assert forall|e: WakeTriple| #[trigger] s2.contains(e) <==> s0.contains(e) by {
        if s0.contains(e) {
            assert(s1.contains(e));
        }
    }
}

} // verus!
