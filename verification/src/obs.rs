//! Observability aggregates: bounded rolling latency windows, per-tool timing
//! folds, and the warn/error rings that back the Overview page. Every
//! aggregate is bounded; nothing here panics on any input its contract admits.

use crate::fmt::{age_text, fmt_age};
use crate::text::{
    chars_eq, chars_of, compare_chars, extend_chars, extend_str, lemma_seq_lt_irrefl, lemma_seq_lt_total,
    lemma_seq_lt_trans, seq_lt, string_of, Order,
};
use std::collections::VecDeque;
use vstd::prelude::*;

verus! {

broadcast use vstd::seq_lib::group_to_multiset_ensures;

/// Capacity of the error ring.
pub const MAX_ERR_RING: usize = 20;

/// Capacity of the warn/error log ring.
pub const MAX_LOG_RING: usize = 500;

/// Capacity of a rolling latency window.
pub const ROLL_CAP: usize = 64;

/// Sum of a sequence of samples.
pub open spec fn sum_of(s: Seq<u64>) -> nat
    decreases s.len(),
{
    if s.len() == 0 {
        0
    } else {
        sum_of(s.drop_last()) + (s.last() as nat)
    }
}

/// Largest sample, or 0 for an empty sequence.
pub open spec fn max_of(s: Seq<u64>) -> u64
    decreases s.len(),
{
    if s.len() == 0 {
        0
    } else {
        let m = max_of(s.drop_last());
        if s.last() > m {
            s.last()
        } else {
            m
        }
    }
}

/// Non-decreasing order.
pub open spec fn sorted_u64(s: Seq<u64>) -> bool {
    forall|i: int, j: int| 0 <= i <= j < s.len() ==> s[i] <= s[j]
}

/// Index of the 90th-percentile sample in a sorted window of `len` samples:
/// `ceil(len * 0.9)` clamped to the last index. For every window length the
/// window can have (at most `ROLL_CAP`), `ceil(len * 0.9) == (9 * len + 9) / 10`.
pub open spec fn p90_index(len: nat) -> int {
    let c = (9 * len + 9) / 10;
    if c < len {
        c as int
    } else {
        len - 1
    }
}

/// The window after one more sample: the oldest sample leaves once the window
/// is full.
pub open spec fn roll(window: Seq<u64>, sample: u64) -> Seq<u64> {
    if window.len() == ROLL_CAP {
        window.drop_first().push(sample)
    } else {
        window.push(sample)
    }
}

/// Bounded rolling window: total count + last value + avg/p90 over the last
/// `ROLL_CAP` samples.
#[derive(Debug)]
pub struct RollingStats {
    window: VecDeque<u64>,
    count: u64,
    last: u64,
}

impl RollingStats {
    #[verifier::type_invariant]
    spec fn inv(&self) -> bool {
        self.window@.len() <= ROLL_CAP
    }

    /// The samples currently in the window, oldest first.
    pub closed spec fn samples(&self) -> Seq<u64> {
        self.window@
    }

    /// How many samples were ever recorded.
    pub closed spec fn total(&self) -> u64 {
        self.count
    }

    /// The most recent sample (0 before the first).
    pub closed spec fn latest(&self) -> u64 {
        self.last
    }

    /// An empty window with nothing recorded.
    pub fn new() -> (r: Self)
        ensures
            r.samples() == Seq::<u64>::empty(),
            r.total() == 0,
            r.latest() == 0,
    {
        RollingStats { window: VecDeque::new(), count: 0, last: 0 }
    }

    /// Record one sample.
    pub fn record(&mut self, sample: u64)
        requires
            old(self).total() < u64::MAX,
        ensures
            final(self).total() == old(self).total() + 1,
            final(self).latest() == sample,
            final(self).samples() == roll(old(self).samples(), sample),
            final(self).samples().len() <= ROLL_CAP,
    {
        proof {
            use_type_invariant(&*self);
        }
        let mut w: VecDeque<u64> = VecDeque::new();
        std::mem::swap(&mut w, &mut self.window);
        if w.len() == ROLL_CAP {
            w.pop_front();
        }
        w.push_back(sample);
        self.window = w;
        self.count = self.count + 1;
        self.last = sample;
    }

    /// Total number of samples ever recorded.
    pub fn count(&self) -> (r: u64)
        ensures
            r == self.total(),
            self.samples().len() <= ROLL_CAP,
    {
        proof {
            use_type_invariant(self);
        }
        self.count
    }

    /// The most recent sample.
    pub fn last(&self) -> (r: u64)
        ensures
            r == self.latest(),
    {
        self.last
    }

    /// Mean of the window (integer division), 0 when empty.
    pub fn avg(&self) -> (r: u64)
        requires
            sum_of(self.samples()) <= u64::MAX,
        ensures
            self.samples().len() == 0 ==> r == 0,
            self.samples().len() > 0 ==> r == sum_of(self.samples()) / self.samples().len(),
    {
        proof {
            use_type_invariant(self);
        }
        let n = self.window.len();
        if n == 0 {
            return 0;
        }
        let mut total: u64 = 0;
        let mut i: usize = 0;
        while i < n
            invariant
                n == self.window@.len(),
                i <= n,
                total as nat == sum_of(self.window@.subrange(0, i as int)),
                sum_of(self.window@) <= u64::MAX,
            decreases n - i,
        {
            proof {
                let w = self.window@;
                assert(w.subrange(0, i + 1).drop_last() =~= w.subrange(0, i as int));
                lemma_sum_prefix_le(w, i + 1);
            }
            total = total + self.window[i];
            i += 1;
        }
        assert(self.window@.subrange(0, n as int) =~= self.window@);
        total / (n as u64)
    }

    /// Largest sample in the window; 0 when empty.
    pub fn window_max(&self) -> (r: u64)
        ensures
            r == max_of(self.samples()),
    {
        let n = self.window.len();
        let mut m: u64 = 0;
        let mut i: usize = 0;
        while i < n
            invariant
                n == self.window@.len(),
                i <= n,
                m == max_of(self.window@.subrange(0, i as int)),
            decreases n - i,
        {
            proof {
                let w = self.window@;
                assert(w.subrange(0, i + 1).drop_last() =~= w.subrange(0, i as int));
            }
            if self.window[i] > m {
                m = self.window[i];
            }
            i += 1;
        }
        assert(self.window@.subrange(0, n as int) =~= self.window@);
        m
    }

    /// 90th-percentile sample: the value at index `p90_index(len)` of the
    /// window sorted ascending; 0 when empty.
    pub fn p90(&self) -> (r: u64)
        ensures
            self.samples().len() == 0 ==> r == 0,
            self.samples().len() > 0 ==> exists|s: Seq<u64>|
                #![trigger sorted_u64(s)]
                sorted_u64(s) && s.to_multiset() =~= self.samples().to_multiset() && s.len()
                    == self.samples().len() && r == s[p90_index(self.samples().len())],
    {
        proof {
            use_type_invariant(self);
        }
        let n = self.window.len();
        if n == 0 {
            return 0;
        }
        let v = sorted_copy(&self.window);
        let c: usize = (9 * n + 9) / 10;
        let idx: usize = if c < n {
            c
        } else {
            n - 1
        };
        let r = v[idx];
        assert(sorted_u64(v@));
        r
    }
}

proof fn lemma_sum_prefix_le(w: Seq<u64>, i: int)
    requires
        0 <= i <= w.len(),
    ensures
        sum_of(w.subrange(0, i)) <= sum_of(w),
    decreases w.len() - i,
{
    if i < w.len() {
        lemma_sum_prefix_le(w.drop_last(), i);
        assert(w.drop_last().subrange(0, i) =~= w.subrange(0, i));
    } else {
        assert(w.subrange(0, i) =~= w);
    }
}

/// A sorted copy of a window (insertion into a sorted vector).
fn sorted_copy(w: &VecDeque<u64>) -> (v: Vec<u64>)
    ensures
        sorted_u64(v@),
        v@.to_multiset() =~= w@.to_multiset(),
        v@.len() == w@.len(),
{
    let n = w.len();
    let mut v: Vec<u64> = Vec::new();
    let mut i: usize = 0;
    while i < n
        invariant
            n == w@.len(),
            i <= n,
            sorted_u64(v@),
            v@.to_multiset() =~= w@.subrange(0, i as int).to_multiset(),
            v@.len() == i,
        decreases n - i,
    {
        let x = w[i];
        let mut pos: usize = 0;
        while pos < v.len() && v[pos] <= x
            invariant
                pos <= v@.len(),
                sorted_u64(v@),
                forall|j: int| 0 <= j < pos ==> v@[j] <= x,
            decreases v@.len() - pos,
        {
            pos += 1;
        }
        let ghost old_v = v@;
        v.insert(pos, x);
        proof {
            assert(v@ =~= old_v.insert(pos as int, x));
            assert forall|a: int, b: int| 0 <= a <= b < v@.len() implies v@[a] <= v@[b] by {
                if pos < old_v.len() {
                    assert(x < old_v[pos as int]);
                }
            }
            assert(w@.subrange(0, i + 1) =~= w@.subrange(0, i as int).push(x));
        }
        i += 1;
    }
    assert(w@.subrange(0, n as int) =~= w@);
    v
}

impl Default for RollingStats {
    fn default() -> (r: Self)
        ensures
            r.samples() == Seq::<u64>::empty(),
            r.total() == 0,
            r.latest() == 0,
    {
        RollingStats::new()
    }
}


/// Per-tool call count and cumulative milliseconds.
#[derive(Clone, Copy, Debug)]
pub struct ToolStat {
    pub count: u64,
    pub total_ms: u64,
}

impl ToolStat {
    /// Mean duration per call (integer division), 0 before the first call.
    pub fn avg_ms(&self) -> (r: u64)
        ensures
            r == (if self.count == 0 {
                0
            } else {
                self.total_ms / self.count
            }),
    {
        if self.count == 0 {
            0
        } else {
            self.total_ms / self.count
        }
    }
}

/// The first value stored under key `k` in an association list.
pub open spec fn assoc_get(s: Seq<(Seq<char>, ToolStat)>, k: Seq<char>) -> Option<ToolStat>
    decreases s.len(),
{
    if s.len() == 0 {
        None
    } else if s[0].0 == k {
        Some(s[0].1)
    } else {
        assoc_get(s.drop_first(), k)
    }
}

/// Keys strictly increasing in `seq_lt` order (hence pairwise distinct).
pub open spec fn keys_ascending(s: Seq<(Seq<char>, ToolStat)>) -> bool {
    forall|i: int, j: int| 0 <= i < j < s.len() ==> seq_lt(s[i].0, s[j].0)
}

proof fn lemma_assoc_get(s: Seq<(Seq<char>, ToolStat)>, k: Seq<char>)
    requires
        keys_ascending(s),
    ensures
        forall|i: int| 0 <= i < s.len() && s[i].0 == k ==> assoc_get(s, k) == Some(s[i].1),
        (forall|i: int| 0 <= i < s.len() ==> s[i].0 != k) ==> assoc_get(s, k) is None,
    decreases s.len(),
{
    if s.len() > 0 {
        let t = s.drop_first();
        assert(keys_ascending(t));
        lemma_assoc_get(t, k);
        assert forall|i: int| 0 <= i < s.len() && s[i].0 == k implies assoc_get(s, k) == Some(
            s[i].1,
        ) by {
            if i > 0 && s[0].0 == k {
                assert(seq_lt(s[0].0, s[i].0));
                lemma_seq_lt_irrefl(k);
            }
            if i > 0 {
                assert(t[i - 1] == s[i]);
            }
        }
        assert((forall|i: int| 0 <= i < s.len() ==> s[i].0 != k) ==> (forall|i: int|
            0 <= i < t.len() ==> t[i].0 != k)) by {
            if forall|i: int| 0 <= i < s.len() ==> s[i].0 != k {
                assert forall|i: int| 0 <= i < t.len() implies t[i].0 != k by {
                    assert(t[i] == s[i + 1]);
                }
            }
        }
    }
}

/// Per-tool timing folds, kept in ascending name order.
#[derive(Debug)]
pub struct ToolStats {
    entries: Vec<(String, ToolStat)>,
}

impl ToolStats {
    /// The (name, stat) pairs in iteration order.
    pub closed spec fn entries_view(&self) -> Seq<(Seq<char>, ToolStat)> {
        self.entries@.map_values(|e: (String, ToolStat)| (e.0@, e.1))
    }

    #[verifier::type_invariant]
    spec fn inv(&self) -> bool {
        keys_ascending(self.entries_view())
    }

    /// The stat recorded under `name`, if any.
    pub open spec fn spec_get(&self, name: Seq<char>) -> Option<ToolStat> {
        assoc_get(self.entries_view(), name)
    }

    /// No tools recorded.
    pub fn new() -> (r: Self)
        ensures
            r.entries_view().len() == 0,
    {
        let r = ToolStats { entries: Vec::new() };
        assert(r.entries_view() =~= Seq::empty());
        r
    }

    /// Number of distinct tools.
    pub fn len(&self) -> (r: usize)
        ensures
            r == self.entries_view().len(),
            keys_ascending(self.entries_view()),
    {
        proof {
            use_type_invariant(self);
        }
        self.entries.len()
    }

    /// The stat recorded under `name`.
    pub fn get(&self, name: &str) -> (r: Option<ToolStat>)
        ensures
            r == self.spec_get(name@),
    {
        proof {
            use_type_invariant(self);
            lemma_assoc_get(self.entries_view(), name@);
        }
        let key = chars_of(name);
        let mut i: usize = 0;
        while i < self.entries.len()
            invariant
                i <= self.entries@.len(),
                key@ == name@,
                keys_ascending(self.entries_view()),
                forall|j: int| 0 <= j < i ==> self.entries_view()[j].0 != name@,
            decreases self.entries@.len() - i,
        {
            let ki = chars_of(self.entries[i].0.as_str());
            if chars_eq(&ki, &key) {
                proof {
                    lemma_assoc_get(self.entries_view(), name@);
                }
                assert(self.entries_view()[i as int] == (
                    self.entries@[i as int].0@,
                    self.entries@[i as int].1,
                ));
                return Some(self.entries[i].1);
            }
            i += 1;
        }
        None
    }

    /// The `i`-th (name, stat) pair in ascending name order.
    pub fn entry(&self, i: usize) -> (r: (String, ToolStat))
        requires
            i < self.entries_view().len(),
        ensures
            r.0@ == self.entries_view()[i as int].0,
            r.1 == self.entries_view()[i as int].1,
    {
        let name = self.entries[i].0.clone();
        (name, self.entries[i].1)
    }

    /// Fold one tool call of `ms` milliseconds into the stat for `name`.
    pub fn record(&mut self, name: &str, ms: u64)
        requires
            old(self).spec_get(name@) matches Some(st) ==> st.count < u64::MAX && st.total_ms + ms
                <= u64::MAX,
        ensures
            final(self).spec_get(name@) == Some(
                match old(self).spec_get(name@) {
                    Some(st) => ToolStat { count: (st.count + 1) as u64, total_ms: (st.total_ms + ms) as u64 },
                    None => ToolStat { count: 1, total_ms: ms },
                },
            ),
            forall|k: Seq<char>| k != name@ ==> final(self).spec_get(k) == old(self).spec_get(k),
            keys_ascending(final(self).entries_view()),
    {
        proof {
            use_type_invariant(&*self);
            lemma_assoc_get(self.entries_view(), name@);
        }
        let key = chars_of(name);
        let mut es: Vec<(String, ToolStat)> = Vec::new();
        std::mem::swap(&mut es, &mut self.entries);
        let ghost s = es@.map_values(|e: (String, ToolStat)| (e.0@, e.1));
        assert(s == old(self).entries_view());
        let mut i: usize = 0;
        let mut found = false;
        let mut stop = false;
        while i < es.len() && !found && !stop
            invariant
                i <= es@.len(),
                key@ == name@,
                s == es@.map_values(|e: (String, ToolStat)| (e.0@, e.1)),
                keys_ascending(s),
                forall|j: int| 0 <= j < i ==> seq_lt(#[trigger] s[j].0, name@),
                found ==> i < es@.len() && s[i as int].0 == name@,
                stop ==> i < es@.len() && seq_lt(name@, s[i as int].0),
            decreases es@.len() - i + (if found || stop { 0int } else { 1int }),
        {
            let ki = chars_of(es[i].0.as_str());
            assert(s[i as int] == (es@[i as int].0@, es@[i as int].1));
            match compare_chars(&ki, &key) {
                Order::Less => {
                    i += 1;
                },
                Order::Equal => {
                    found = true;
                },
                Order::Greater => {
                    stop = true;
                },
            }
        }
        if found {
            proof {
                lemma_assoc_get(s, name@);
                assert(s[i as int] == (es@[i as int].0@, es@[i as int].1));
            }
            let (nm, st) = es.remove(i);
            let ns = ToolStat { count: st.count + 1, total_ms: st.total_ms + ms };
            es.insert(i, (nm, ns));
            proof {
                let t = es@.map_values(|e: (String, ToolStat)| (e.0@, e.1));
                assert(t =~= s.update(i as int, (name@, ns)));
                assert(keys_ascending(t));
                lemma_assoc_get(t, name@);
                assert(t[i as int] == (name@, ns));
                assert(assoc_get(t, name@) == Some(ns));
                assert(assoc_get(s, name@) == Some(st));
                assert forall|k: Seq<char>| k != name@ implies assoc_get(t, k) == assoc_get(s, k) by {
                    lemma_assoc_get(t, k);
                    lemma_assoc_get(s, k);
                    if exists|j: int| 0 <= j < s.len() && s[j].0 == k {
                        let j = choose|j: int| 0 <= j < s.len() && s[j].0 == k;
                        assert(t[j] == s[j]);
                    } else {
                        assert forall|j: int| 0 <= j < t.len() implies t[j].0 != k by {
                            if j != i {
                                assert(t[j] == s[j]);
                            }
                        }
                    }
                }
            }
        } else {
            proof {
                lemma_assoc_get(s, name@);
            }
            let nm = String::from_str(name);
            es.insert(i, (nm, ToolStat { count: 1, total_ms: ms }));
            proof {
                let t = es@.map_values(|e: (String, ToolStat)| (e.0@, e.1));
                let v = ToolStat { count: 1, total_ms: ms };
                assert(t =~= s.insert(i as int, (name@, v)));
                assert forall|a: int, b: int| 0 <= a < b < t.len() implies seq_lt(
                    t[a].0,
                    t[b].0,
                ) by {
                    if b < i {
                    } else if a < i && b == i {
                    } else if a < i && b > i {
                        assert(t[b] == s[b - 1]);
                    } else if a == i && b > i {
                        assert(t[b] == s[b - 1]);
                        if b - 1 > i {
                            lemma_seq_lt_trans(name@, s[i as int].0, s[b - 1].0);
                        }
                    } else {
                        assert(t[a] == s[a - 1]);
                        assert(t[b] == s[b - 1]);
                    }
                }
                lemma_assoc_get(t, name@);
                assert(t[i as int] == (name@, v));
                assert(assoc_get(t, name@) == Some(v));
                assert forall|k: Seq<char>| k != name@ implies assoc_get(t, k) == assoc_get(s, k) by {
                    lemma_assoc_get(t, k);
                    lemma_assoc_get(s, k);
                    if exists|j: int| 0 <= j < s.len() && s[j].0 == k {
                        let j = choose|j: int| 0 <= j < s.len() && s[j].0 == k;
                        if j < i {
                            assert(t[j] == s[j]);
                        } else {
                            assert(t[j + 1] == s[j]);
                        }
                    } else {
                        assert forall|j: int| 0 <= j < t.len() implies t[j].0 != k by {
                            if j < i {
                                assert(t[j] == s[j]);
                            } else if j > i {
                                assert(t[j] == s[j - 1]);
                            }
                        }
                    }
                }
                assert forall|j: int| 0 <= j < s.len() implies s[j].0 != name@ by {
                    if j < i {
                        lemma_seq_lt_irrefl(name@);
                    } else {
                        if j > i {
                            lemma_seq_lt_trans(name@, s[i as int].0, s[j].0);
                        }
                        lemma_seq_lt_irrefl(name@);
                    }
                }
            }
        }
        self.entries = es;
    }
}


/// One entry of the error ring.
#[derive(Debug, Clone)]
pub struct ErrEntry {
    pub ts_ms: i64,
    pub level: &'static str,
    pub context: String,
    pub message: String,
}

/// One entry of the warn/error log ring.
#[derive(Debug, Clone)]
pub struct LogEntry {
    pub ts: i64,
    pub level: String,
    pub message: String,
    pub fields: Option<String>,
}

/// A bounded ring after appending `e`: the oldest entry leaves when the ring
/// is exactly at capacity.
pub open spec fn ring_push<T>(s: Seq<T>, e: T, cap: nat) -> Seq<T> {
    if s.len() == cap {
        s.drop_first().push(e)
    } else {
        s.push(e)
    }
}

/// The in-memory aggregate behind the Overview page.
#[derive(Debug)]
pub struct ObsState {
    pub turn: RollingStats,
    pub iterations: RollingStats,
    pub provider_ttft: RollingStats,
    pub provider_total: RollingStats,
    /// Per-turn tokens-per-second rolling average.
    pub provider_tps: RollingStats,
    pub frame: RollingStats,
    pub tools: ToolStats,
    pub cache_hits: u64,
    pub cache_total: u64,
    pub proj_rebuilds: u64,
    pub errors: VecDeque<ErrEntry>,
    pub logs: VecDeque<LogEntry>,
}

impl ObsState {
    /// Everything empty and zero.
    pub fn new() -> (r: Self)
        ensures
            r.turn.total() == 0 && r.turn.samples().len() == 0,
            r.iterations.total() == 0 && r.iterations.samples().len() == 0,
            r.provider_ttft.total() == 0 && r.provider_ttft.samples().len() == 0,
            r.provider_total.total() == 0 && r.provider_total.samples().len() == 0,
            r.provider_tps.total() == 0 && r.provider_tps.samples().len() == 0,
            r.frame.total() == 0 && r.frame.samples().len() == 0,
            r.tools.entries_view().len() == 0,
            r.cache_hits == 0,
            r.cache_total == 0,
            r.proj_rebuilds == 0,
            r.errors@.len() == 0,
            r.logs@.len() == 0,
    {
        ObsState {
            turn: RollingStats::new(),
            iterations: RollingStats::new(),
            provider_ttft: RollingStats::new(),
            provider_total: RollingStats::new(),
            provider_tps: RollingStats::new(),
            frame: RollingStats::new(),
            tools: ToolStats::new(),
            cache_hits: 0,
            cache_total: 0,
            proj_rebuilds: 0,
            errors: VecDeque::new(),
            logs: VecDeque::new(),
        }
    }

    /// Fold one finished turn: its duration and loop iterations.
    pub fn record_turn(&mut self, ms: u64, iterations: u64)
        requires
            old(self).turn.total() < u64::MAX,
            old(self).iterations.total() < u64::MAX,
        ensures
            final(self).turn.samples() == roll(old(self).turn.samples(), ms),
            final(self).turn.total() == old(self).turn.total() + 1,
            final(self).turn.latest() == ms,
            final(self).iterations.samples() == roll(old(self).iterations.samples(), iterations),
            final(self).iterations.total() == old(self).iterations.total() + 1,
            final(self).iterations.latest() == iterations,
            final(self).provider_ttft == old(self).provider_ttft,
            final(self).provider_total == old(self).provider_total,
            final(self).provider_tps == old(self).provider_tps,
            final(self).frame == old(self).frame,
            final(self).tools == old(self).tools,
            final(self).cache_hits == old(self).cache_hits,
            final(self).cache_total == old(self).cache_total,
            final(self).proj_rebuilds == old(self).proj_rebuilds,
            final(self).errors == old(self).errors,
            final(self).logs == old(self).logs,
    {
        self.turn.record(ms);
        self.iterations.record(iterations);
    }

    /// Fold one tool call.
    pub fn record_tool(&mut self, name: &str, ms: u64)
        requires
            old(self).tools.spec_get(name@) matches Some(st) ==> st.count < u64::MAX && st.total_ms
                + ms <= u64::MAX,
        ensures
            final(self).tools.spec_get(name@) == Some(
                match old(self).tools.spec_get(name@) {
                    Some(st) => ToolStat { count: (st.count + 1) as u64, total_ms: (st.total_ms + ms) as u64 },
                    None => ToolStat { count: 1, total_ms: ms },
                },
            ),
            forall|k: Seq<char>|
                k != name@ ==> final(self).tools.spec_get(k) == old(self).tools.spec_get(k),
            keys_ascending(final(self).tools.entries_view()),
            final(self).turn == old(self).turn,
            final(self).iterations == old(self).iterations,
            final(self).provider_ttft == old(self).provider_ttft,
            final(self).provider_total == old(self).provider_total,
            final(self).provider_tps == old(self).provider_tps,
            final(self).frame == old(self).frame,
            final(self).cache_hits == old(self).cache_hits,
            final(self).cache_total == old(self).cache_total,
            final(self).proj_rebuilds == old(self).proj_rebuilds,
            final(self).errors == old(self).errors,
            final(self).logs == old(self).logs,
    {
        self.tools.record(name, ms);
    }

    /// Fold one provider call: time to first token and total streaming time.
    pub fn record_provider(&mut self, ttft_ms: u64, total_ms: u64)
        requires
            old(self).provider_ttft.total() < u64::MAX,
            old(self).provider_total.total() < u64::MAX,
        ensures
            final(self).provider_ttft.samples() == roll(old(self).provider_ttft.samples(), ttft_ms),
            final(self).provider_ttft.total() == old(self).provider_ttft.total() + 1,
            final(self).provider_ttft.latest() == ttft_ms,
            final(self).provider_total.samples() == roll(
                old(self).provider_total.samples(),
                total_ms,
            ),
            final(self).provider_total.total() == old(self).provider_total.total() + 1,
            final(self).provider_total.latest() == total_ms,
            final(self).turn == old(self).turn,
            final(self).iterations == old(self).iterations,
            final(self).provider_tps == old(self).provider_tps,
            final(self).frame == old(self).frame,
            final(self).tools == old(self).tools,
            final(self).cache_hits == old(self).cache_hits,
            final(self).cache_total == old(self).cache_total,
            final(self).proj_rebuilds == old(self).proj_rebuilds,
            final(self).errors == old(self).errors,
            final(self).logs == old(self).logs,
    {
        self.provider_ttft.record(ttft_ms);
        self.provider_total.record(total_ms);
    }

    /// Fold one rendered frame. A frame with no cache signal (`None`) records
    /// its timing but takes no part in the cache-hit ratio.
    pub fn record_frame(&mut self, ms: u64, cache_hit: Option<bool>, proj_rebuilt: bool)
        requires
            old(self).frame.total() < u64::MAX,
            cache_hit is Some ==> old(self).cache_total < u64::MAX,
            cache_hit == Some(true) ==> old(self).cache_hits < u64::MAX,
            proj_rebuilt ==> old(self).proj_rebuilds < u64::MAX,
        ensures
            final(self).frame.samples() == roll(old(self).frame.samples(), ms),
            final(self).frame.total() == old(self).frame.total() + 1,
            final(self).frame.latest() == ms,
            final(self).cache_total == old(self).cache_total + (if cache_hit is Some {
                1int
            } else {
                0int
            }),
            final(self).cache_hits == old(self).cache_hits + (if cache_hit == Some(true) {
                1int
            } else {
                0int
            }),
            final(self).proj_rebuilds == old(self).proj_rebuilds + (if proj_rebuilt {
                1int
            } else {
                0int
            }),
            final(self).turn == old(self).turn,
            final(self).iterations == old(self).iterations,
            final(self).provider_ttft == old(self).provider_ttft,
            final(self).provider_total == old(self).provider_total,
            final(self).provider_tps == old(self).provider_tps,
            final(self).tools == old(self).tools,
            final(self).errors == old(self).errors,
            final(self).logs == old(self).logs,
    {
        self.frame.record(ms);
        if let Some(hit) = cache_hit {
            self.cache_total = self.cache_total + 1;
            if hit {
                self.cache_hits = self.cache_hits + 1;
            }
        }
        if proj_rebuilt {
            self.proj_rebuilds = self.proj_rebuilds + 1;
        }
    }

    /// Append to the error ring, dropping the oldest entry when it is full.
    pub fn record_error(&mut self, ts_ms: i64, level: &'static str, context: String, message: String)
        ensures
            final(self).errors@ == ring_push(
                old(self).errors@,
                ErrEntry { ts_ms, level, context, message },
                MAX_ERR_RING as nat,
            ),
            final(self).turn == old(self).turn,
            final(self).iterations == old(self).iterations,
            final(self).provider_ttft == old(self).provider_ttft,
            final(self).provider_total == old(self).provider_total,
            final(self).provider_tps == old(self).provider_tps,
            final(self).frame == old(self).frame,
            final(self).tools == old(self).tools,
            final(self).cache_hits == old(self).cache_hits,
            final(self).cache_total == old(self).cache_total,
            final(self).proj_rebuilds == old(self).proj_rebuilds,
            final(self).logs == old(self).logs,
    {
        if self.errors.len() == MAX_ERR_RING {
            self.errors.pop_front();
        }
        self.errors.push_back(ErrEntry { ts_ms, level, context, message });
    }

    /// Append to the log ring, dropping the oldest entry when it is full.
    pub fn record_log(&mut self, ts: i64, level: &str, message: &str, fields: Option<String>)
        ensures
            ({
                let kept = if old(self).logs@.len() == MAX_LOG_RING {
                    old(self).logs@.drop_first()
                } else {
                    old(self).logs@
                };
                &&& final(self).logs@.len() == kept.len() + 1
                &&& final(self).logs@.drop_last() == kept
                &&& final(self).logs@.last().ts == ts
                &&& final(self).logs@.last().level@ == level@
                &&& final(self).logs@.last().message@ == message@
                &&& final(self).logs@.last().fields == fields
            }),
            final(self).turn == old(self).turn,
            final(self).iterations == old(self).iterations,
            final(self).provider_ttft == old(self).provider_ttft,
            final(self).provider_total == old(self).provider_total,
            final(self).provider_tps == old(self).provider_tps,
            final(self).frame == old(self).frame,
            final(self).tools == old(self).tools,
            final(self).cache_hits == old(self).cache_hits,
            final(self).cache_total == old(self).cache_total,
            final(self).proj_rebuilds == old(self).proj_rebuilds,
            final(self).errors == old(self).errors,
    {
        if self.logs.len() == MAX_LOG_RING {
            self.logs.pop_front();
        }
        let ghost kept = self.logs@;
        self.logs.push_back(
            LogEntry {
                ts,
                level: String::from_str(level),
                message: String::from_str(message),
                fields,
            },
        );
        assert(self.logs@.drop_last() =~= kept);
    }

    /// Drain and return all entries from the log ring, oldest first.
    pub fn take_logs(&mut self) -> (r: Vec<LogEntry>)
        ensures
            r@ == old(self).logs@,
            final(self).logs@.len() == 0,
            final(self).turn == old(self).turn,
            final(self).iterations == old(self).iterations,
            final(self).provider_ttft == old(self).provider_ttft,
            final(self).provider_total == old(self).provider_total,
            final(self).provider_tps == old(self).provider_tps,
            final(self).frame == old(self).frame,
            final(self).tools == old(self).tools,
            final(self).cache_hits == old(self).cache_hits,
            final(self).cache_total == old(self).cache_total,
            final(self).proj_rebuilds == old(self).proj_rebuilds,
            final(self).errors == old(self).errors,
    {
        let mut out: Vec<LogEntry> = Vec::new();
        let mut q: VecDeque<LogEntry> = VecDeque::new();
        std::mem::swap(&mut q, &mut self.logs);
        let ghost all = q@;
        while q.len() > 0
            invariant
                all == out@ + q@,
            decreases q@.len(),
        {
            let e = q.pop_front().unwrap();
            out.push(e);
            assert(all =~= out@ + q@);
        }
        assert(out@ =~= all);
        out
    }
}

impl Default for ObsState {
    fn default() -> (r: Self)
        ensures
            r.cache_hits == 0 && r.cache_total == 0 && r.proj_rebuilds == 0,
            r.errors@.len() == 0 && r.logs@.len() == 0,
            r.tools.entries_view().len() == 0,
    {
        ObsState::new()
    }
}


/// One rolling window advanced by `sample` when `record`, untouched otherwise.
pub open spec fn stats_step(old: RollingStats, new: RollingStats, record: bool, sample: u64) -> bool {
    if record {
        &&& new.samples() == roll(old.samples(), sample)
        &&& new.total() == old.total() + 1
        &&& new.latest() == sample
    } else {
        new == old
    }
}

/// Severity of a traced event.
#[derive(Clone, Copy, Debug, PartialEq, Eq, Structural)]
pub enum EventLevel {
    Trace,
    Debug,
    Info,
    Warn,
    Error,
}

/// The recognised fields of one traced event. Fields with any other name
/// are not routed here (the caller keeps them as extra fields).
#[derive(Debug)]
pub struct FieldGrab {
    pub kind: Option<String>,
    pub name: Option<String>,
    pub ctx: Option<String>,
    pub message: Option<String>,
    pub ms: u64,
    pub ttft_ms: u64,
    pub total_ms: u64,
    pub iterations: u64,
    pub cache_hit: bool,
    /// Whether `cache_hit` was present on the event at all.
    pub cache_hit_present: bool,
    pub proj_rebuilt: bool,
}

/// Whether an optional string holds exactly `lit`.
pub open spec fn opt_is(o: Option<String>, lit: Seq<char>) -> bool {
    o matches Some(s) && s@ == lit
}

/// The characters of an optional string, or the empty sequence.
pub open spec fn opt_chars(o: Option<String>) -> Seq<char> {
    match o {
        Some(s) => s@,
        None => Seq::empty(),
    }
}

fn opt_is_lit(o: &Option<String>, lit: &str) -> (r: bool)
    ensures
        r == opt_is(*o, lit@),
{
    match o {
        Some(s) => {
            let a = chars_of(s.as_str());
            let b = chars_of(lit);
            chars_eq(&a, &b)
        },
        None => false,
    }
}

fn opt_clone_or_empty(o: &Option<String>) -> (r: String)
    ensures
        r@ == opt_chars(*o),
{
    match o {
        Some(s) => s.clone(),
        None => String::new(),
    }
}

impl FieldGrab {
    /// Nothing recorded yet.
    pub fn new() -> (r: Self)
        ensures
            r.kind is None && r.name is None && r.ctx is None && r.message is None,
            r.ms == 0 && r.ttft_ms == 0 && r.total_ms == 0 && r.iterations == 0,
            !r.cache_hit && !r.cache_hit_present && !r.proj_rebuilt,
    {
        FieldGrab {
            kind: None,
            name: None,
            ctx: None,
            message: None,
            ms: 0,
            ttft_ms: 0,
            total_ms: 0,
            iterations: 0,
            cache_hit: false,
            cache_hit_present: false,
            proj_rebuilt: false,
        }
    }

    /// Route an unsigned field; `false` when `field` is not one of
    /// `ms`, `ttft_ms`, `total_ms`, `iterations` (then nothing changes).
    pub fn route_u64(&mut self, field: &str, value: u64) -> (used: bool)
        ensures
            used == (field@ == "ms"@ || field@ == "ttft_ms"@ || field@ == "total_ms"@ || field@
                == "iterations"@),
            final(self).ms == (if field@ == "ms"@ {
                value
            } else {
                old(self).ms
            }),
            final(self).ttft_ms == (if field@ != "ms"@ && field@ == "ttft_ms"@ {
                value
            } else {
                old(self).ttft_ms
            }),
            final(self).total_ms == (if field@ != "ms"@ && field@ != "ttft_ms"@ && field@
                == "total_ms"@ {
                value
            } else {
                old(self).total_ms
            }),
            final(self).iterations == (if field@ != "ms"@ && field@ != "ttft_ms"@ && field@
                != "total_ms"@ && field@ == "iterations"@ {
                value
            } else {
                old(self).iterations
            }),
            final(self).kind == old(self).kind,
            final(self).name == old(self).name,
            final(self).ctx == old(self).ctx,
            final(self).message == old(self).message,
            final(self).cache_hit == old(self).cache_hit,
            final(self).cache_hit_present == old(self).cache_hit_present,
            final(self).proj_rebuilt == old(self).proj_rebuilt,
    {
        let f = chars_of(field);
        if chars_eq(&f, &chars_of("ms")) {
            self.ms = value;
            true
        } else if chars_eq(&f, &chars_of("ttft_ms")) {
            self.ttft_ms = value;
            true
        } else if chars_eq(&f, &chars_of("total_ms")) {
            self.total_ms = value;
            true
        } else if chars_eq(&f, &chars_of("iterations")) {
            self.iterations = value;
            true
        } else {
            false
        }
    }

    /// Route a boolean field; `false` unless `field` is `cache_hit` or
    /// `proj_rebuilt`. `cache_hit` also marks the signal as present.
    pub fn route_bool(&mut self, field: &str, value: bool) -> (used: bool)
        ensures
            used == (field@ == "cache_hit"@ || field@ == "proj_rebuilt"@),
            field@ == "cache_hit"@ ==> final(self).cache_hit == value
                && final(self).cache_hit_present && final(self).proj_rebuilt
                == old(self).proj_rebuilt,
            field@ != "cache_hit"@ && field@ == "proj_rebuilt"@ ==> final(self).proj_rebuilt
                == value && final(self).cache_hit == old(self).cache_hit
                && final(self).cache_hit_present == old(self).cache_hit_present,
            !used ==> final(self).cache_hit == old(self).cache_hit
                && final(self).cache_hit_present == old(self).cache_hit_present
                && final(self).proj_rebuilt == old(self).proj_rebuilt,
            final(self).kind == old(self).kind,
            final(self).name == old(self).name,
            final(self).ctx == old(self).ctx,
            final(self).message == old(self).message,
            final(self).ms == old(self).ms,
            final(self).ttft_ms == old(self).ttft_ms,
            final(self).total_ms == old(self).total_ms,
            final(self).iterations == old(self).iterations,
    {
        let f = chars_of(field);
        if chars_eq(&f, &chars_of("cache_hit")) {
            self.cache_hit = value;
            self.cache_hit_present = true;
            true
        } else if chars_eq(&f, &chars_of("proj_rebuilt")) {
            self.proj_rebuilt = value;
            true
        } else {
            false
        }
    }

    /// Route a string field; `false` unless `field` is `kind`, `name`,
    /// `ctx` or `message`, each of which then holds `value`.
    pub fn route_str(&mut self, field: &str, value: &str) -> (used: bool)
        ensures
            used == (field@ == "kind"@ || field@ == "name"@ || field@ == "ctx"@ || field@
                == "message"@),
            final(self).kind == (if field@ == "kind"@ {
                final(self).kind
            } else {
                old(self).kind
            }),
            field@ == "kind"@ ==> opt_is(final(self).kind, value@),
            final(self).name == (if field@ != "kind"@ && field@ == "name"@ {
                final(self).name
            } else {
                old(self).name
            }),
            field@ != "kind"@ && field@ == "name"@ ==> opt_is(final(self).name, value@),
            final(self).ctx == (if field@ != "kind"@ && field@ != "name"@ && field@ == "ctx"@ {
                final(self).ctx
            } else {
                old(self).ctx
            }),
            field@ != "kind"@ && field@ != "name"@ && field@ == "ctx"@ ==> opt_is(
                final(self).ctx,
                value@,
            ),
            final(self).message == (if field@ != "kind"@ && field@ != "name"@ && field@ != "ctx"@
                && field@ == "message"@ {
                final(self).message
            } else {
                old(self).message
            }),
            field@ != "kind"@ && field@ != "name"@ && field@ != "ctx"@ && field@ == "message"@
                ==> opt_is(final(self).message, value@),
            final(self).ms == old(self).ms,
            final(self).ttft_ms == old(self).ttft_ms,
            final(self).total_ms == old(self).total_ms,
            final(self).iterations == old(self).iterations,
            final(self).cache_hit == old(self).cache_hit,
            final(self).cache_hit_present == old(self).cache_hit_present,
            final(self).proj_rebuilt == old(self).proj_rebuilt,
    {
        let f = chars_of(field);
        if chars_eq(&f, &chars_of("kind")) {
            self.kind = Some(String::from_str(value));
            true
        } else if chars_eq(&f, &chars_of("name")) {
            self.name = Some(String::from_str(value));
            true
        } else if chars_eq(&f, &chars_of("ctx")) {
            self.ctx = Some(String::from_str(value));
            true
        } else if chars_eq(&f, &chars_of("message")) {
            self.message = Some(String::from_str(value));
            true
        } else {
            false
        }
    }

    /// Route a field that only has a `Debug` rendering (`rendered`). The
    /// event's implicit message arrives this way: it fills `message` unless
    /// an explicit `message` was already recorded. Returns `false` for any
    /// field other than `message` (an extra field for the caller).
    pub fn route_debug(&mut self, field: &str, rendered: String) -> (used: bool)
        ensures
            used == (field@ == "message"@),
            field@ == "message"@ && old(self).message is None ==> final(self).message == Some(
                rendered,
            ),
            !(field@ == "message"@ && old(self).message is None) ==> final(self).message == old(self).message,
            final(self).kind == old(self).kind,
            final(self).name == old(self).name,
            final(self).ctx == old(self).ctx,
            final(self).ms == old(self).ms,
            final(self).ttft_ms == old(self).ttft_ms,
            final(self).total_ms == old(self).total_ms,
            final(self).iterations == old(self).iterations,
            final(self).cache_hit == old(self).cache_hit,
            final(self).cache_hit_present == old(self).cache_hit_present,
            final(self).proj_rebuilt == old(self).proj_rebuilt,
    {
        let f = chars_of(field);
        if chars_eq(&f, &chars_of("message")) {
            if self.message.is_none() {
                self.message = Some(rendered);
            }
            true
        } else {
            false
        }
    }
}

/// What `fold_event` needs of the counters it may bump.
pub open spec fn fold_fits(s: &ObsState, g: &FieldGrab) -> bool {
    &&& opt_is(g.kind, "turn"@) ==> s.turn.total() < u64::MAX && s.iterations.total() < u64::MAX
    &&& opt_is(g.kind, "tool"@) ==> (s.tools.spec_get(
        if g.name is Some {
            opt_chars(g.name)
        } else {
            "?"@
        },
    ) matches Some(st) ==> st.count < u64::MAX && st.total_ms + g.ms <= u64::MAX)
    &&& opt_is(g.kind, "provider"@) ==> s.provider_ttft.total() < u64::MAX
        && s.provider_total.total() < u64::MAX
    &&& opt_is(g.kind, "frame"@) ==> s.frame.total() < u64::MAX && s.cache_total < u64::MAX
        && s.cache_hits < u64::MAX && s.proj_rebuilds < u64::MAX
}

impl ObsState {
    /// Fold one traced event: `kind` selects the aggregate it feeds
    /// (`turn`, `tool`, `provider`, `frame`; anything else feeds none), and a
    /// `Warn`/`Error` event is also appended to the error ring (timestamp
    /// `err_ts`) and the log ring (timestamp `log_ts`, extra fields `fields`).
    pub fn fold_event(
        &mut self,
        g: &FieldGrab,
        level: EventLevel,
        fields: Option<String>,
        err_ts: i64,
        log_ts: i64,
    )
        requires
            fold_fits(old(self), g),
        ensures
            stats_step(old(self).turn, final(self).turn, opt_is(g.kind, "turn"@), g.ms),
            stats_step(
                old(self).iterations,
                final(self).iterations,
                opt_is(g.kind, "turn"@),
                g.iterations,
            ),
            opt_is(g.kind, "tool"@) ==> ({
                let nm = if g.name is Some {
                    opt_chars(g.name)
                } else {
                    "?"@
                };
                &&& final(self).tools.spec_get(nm) == Some(
                    match old(self).tools.spec_get(nm) {
                        Some(st) => ToolStat { count: (st.count + 1) as u64, total_ms: (st.total_ms + g.ms) as u64 },
                        None => ToolStat { count: 1, total_ms: g.ms },
                    },
                )
                &&& forall|k: Seq<char>|
                    k != nm ==> final(self).tools.spec_get(k) == old(self).tools.spec_get(k)
            }),
            !opt_is(g.kind, "tool"@) ==> final(self).tools == old(self).tools,
            stats_step(
                old(self).provider_ttft,
                final(self).provider_ttft,
                opt_is(g.kind, "provider"@),
                g.ttft_ms,
            ),
            stats_step(
                old(self).provider_total,
                final(self).provider_total,
                opt_is(g.kind, "provider"@),
                g.total_ms,
            ),
            stats_step(old(self).frame, final(self).frame, opt_is(g.kind, "frame"@), g.ms),
            final(self).cache_total == old(self).cache_total + (if opt_is(g.kind, "frame"@)
                && g.cache_hit_present {
                1int
            } else {
                0int
            }),
            final(self).cache_hits == old(self).cache_hits + (if opt_is(g.kind, "frame"@)
                && g.cache_hit_present && g.cache_hit {
                1int
            } else {
                0int
            }),
            final(self).proj_rebuilds == old(self).proj_rebuilds + (if opt_is(g.kind, "frame"@)
                && g.proj_rebuilt {
                1int
            } else {
                0int
            }),
            final(self).provider_tps == old(self).provider_tps,
            level != EventLevel::Warn && level != EventLevel::Error ==> final(self).errors
                == old(self).errors && final(self).logs == old(self).logs,
            level == EventLevel::Warn || level == EventLevel::Error ==> ({
                let lvl = if level == EventLevel::Error {
                    "error"@
                } else {
                    "warn"@
                };
                let kept_e = if old(self).errors@.len() == MAX_ERR_RING {
                    old(self).errors@.drop_first()
                } else {
                    old(self).errors@
                };
                let kept_l = if old(self).logs@.len() == MAX_LOG_RING {
                    old(self).logs@.drop_first()
                } else {
                    old(self).logs@
                };
                &&& final(self).errors@.drop_last() == kept_e
                &&& final(self).errors@.len() == kept_e.len() + 1
                &&& final(self).errors@.last().ts_ms == err_ts
                &&& final(self).errors@.last().level@ == lvl
                &&& final(self).errors@.last().context@ == opt_chars(g.ctx)
                &&& final(self).errors@.last().message@ == opt_chars(g.message)
                &&& final(self).logs@.drop_last() == kept_l
                &&& final(self).logs@.len() == kept_l.len() + 1
                &&& final(self).logs@.last().ts == log_ts
                &&& final(self).logs@.last().level@ == lvl
                &&& final(self).logs@.last().message@ == opt_chars(g.message)
                &&& final(self).logs@.last().fields == fields
            }),
    {
        proof {
            reveal_strlit("turn");
            reveal_strlit("tool");
            reveal_strlit("provider");
            reveal_strlit("frame");
            assert("turn"@[2] != "tool"@[2]);
            assert("turn"@ != "tool"@);
            assert("turn"@.len() != "provider"@.len());
            assert("turn"@.len() != "frame"@.len());
            assert("tool"@.len() != "provider"@.len());
            assert("tool"@.len() != "frame"@.len());
            assert("provider"@.len() != "frame"@.len());
        }
        if opt_is_lit(&g.kind, "turn") {
            self.record_turn(g.ms, g.iterations);
        } else if opt_is_lit(&g.kind, "tool") {
            match &g.name {
                Some(n) => self.record_tool(n.as_str(), g.ms),
                None => self.record_tool("?", g.ms),
            }
        } else if opt_is_lit(&g.kind, "provider") {
            self.record_provider(g.ttft_ms, g.total_ms);
        } else if opt_is_lit(&g.kind, "frame") {
            let hit = if g.cache_hit_present {
                Some(g.cache_hit)
            } else {
                None
            };
            self.record_frame(g.ms, hit, g.proj_rebuilt);
        }
        if level == EventLevel::Warn || level == EventLevel::Error {
            let lvl: &'static str = if level == EventLevel::Error {
                "error"
            } else {
                "warn"
            };
            let ctx = opt_clone_or_empty(&g.ctx);
            let msg = opt_clone_or_empty(&g.message);
            let msg2 = opt_clone_or_empty(&g.message);
            let ghost before = self.errors@;
            self.record_error(err_ts, lvl, ctx, msg);
            assert(self.errors@.drop_last() =~= (if before.len() == MAX_ERR_RING {
                before.drop_first()
            } else {
                before
            }));
            self.record_log(log_ts, lvl, msg2.as_str(), fields);
        }
    }
}

/// `part` as a percentage of `whole`, capped at 100; 0 when `whole` is 0
/// (a cache-hit rate with nothing to hit yet).
pub fn percent_capped(part: u64, whole: u64) -> (r: u8)
    requires
        part * 100 <= u64::MAX,
    ensures
        whole == 0 ==> r == 0,
        whole > 0 ==> r as int == if (part * 100) / (whole as int) > 100 { 100 } else { (part * 100) / (whole as int) },
{
    if whole == 0 {
        return 0;
    }
    let p: u64 = part * 100 / whole;
    if p > 100 {
        100
    } else {
        p as u8
    }
}

/// The Overview page's row for a recorded warning or error: a stop sign
/// for an error (a warning sign otherwise), its age and its context; then
/// its message.
pub fn overview_error_row(e: &ErrEntry, now_ms: i64) -> (r: (String, String))
    requires
        i64::MIN <= now_ms - e.ts_ms <= i64::MAX,
    ensures
        r.0@ == seq![if e.level@ == "error"@ { '⛔' } else { '⚠' }] + " "@ + age_text((now_ms - e.ts_ms) as i64)
            + " "@ + e.context@,
        r.1@ == e.message@,
{
    let is_error = chars_eq(&chars_of(e.level), &chars_of("error"));
    let mut line: Vec<char> = Vec::new();
    line.push(if is_error {
        '⛔'
    } else {
        '⚠'
    });
    extend_str(&mut line, " ");
    let age = fmt_age(now_ms - e.ts_ms);
    extend_str(&mut line, age.as_str());
    extend_str(&mut line, " ");
    extend_str(&mut line, e.context.as_str());
    (string_of(&line), e.message.clone())
}

} // verus!
