//! Reading what git prints: `git diff --numstat` totals and the branch a
//! `HEAD` file names.

use crate::text::{
    chars_of, lines, lines_of, parse_u64, parse_unsigned, string_of, sub_chars, trim, trim_chars,
};
use vstd::prelude::*;

verus! {

/// Index of the first tab at or after `i`, or `s.len()` if there is none.
pub open spec fn tab_index(s: Seq<char>, i: int) -> int
    decreases s.len() - i,
{
    if i >= s.len() {
        s.len() as int
    } else if s[i] == '\t' {
        i
    } else {
        tab_index(s, i + 1)
    }
}

proof fn lemma_tab_index_bounds(s: Seq<char>, i: int)
    requires
        0 <= i <= s.len(),
    ensures
        i <= tab_index(s, i) <= s.len(),
        tab_index(s, i) < s.len() ==> s[tab_index(s, i)] == '\t',
        forall|j: int| i <= j < tab_index(s, i) ==> s[j] != '\t',
    decreases s.len() - i,
{
    if i < s.len() && s[i] != '\t' {
        lemma_tab_index_bounds(s, i + 1);
    }
}

/// The counts one numstat line contributes: `None` for a line with fewer
/// than three tab-separated columns (no path), else the added and removed
/// columns parsed as `usize`, with zero for anything unparseable (`-`).
pub open spec fn numstat_line(l: Seq<char>) -> Option<(nat, nat)> {
    let t1 = tab_index(l, 0);
    let t2 = tab_index(l, t1 + 1);
    if t1 >= l.len() || t2 >= l.len() {
        None
    } else {
        let a = match parse_unsigned(l.subrange(0, t1), usize::MAX as nat) {
            Some(v) => v,
            None => 0,
        };
        let r = match parse_unsigned(l.subrange(t1 + 1, t2), usize::MAX as nat) {
            Some(v) => v,
            None => 0,
        };
        Some((a, r))
    }
}

/// (added, removed, files) over a list of lines, skipping blank lines and
/// lines without a path.
pub open spec fn numstat_fold(ls: Seq<Seq<char>>) -> (nat, nat, nat)
    decreases ls.len(),
{
    if ls.len() == 0 {
        (0, 0, 0)
    } else {
        let acc = numstat_fold(ls.drop_last());
        let l = ls.last();
        if trim(l).len() == 0 {
            acc
        } else {
            match numstat_line(l) {
                None => acc,
                Some((a, r)) => (acc.0 + a, acc.1 + r, acc.2 + 1),
            }
        }
    }
}

/// `git diff --numstat` output summed to (added, removed, files).
pub open spec fn numstat(out: Seq<char>) -> (nat, nat, nat) {
    numstat_fold(lines(out))
}

proof fn lemma_numstat_fold_mono(ls: Seq<Seq<char>>, i: int)
    requires
        0 <= i <= ls.len(),
    ensures
        numstat_fold(ls.take(i)).0 <= numstat_fold(ls).0,
        numstat_fold(ls.take(i)).1 <= numstat_fold(ls).1,
        numstat_fold(ls.take(i)).2 <= numstat_fold(ls).2,
    decreases ls.len() - i,
{
    if i < ls.len() {
        lemma_numstat_fold_mono(ls.drop_last(), i);
        assert(ls.drop_last().take(i) =~= ls.take(i));
    } else {
        assert(ls.take(i) =~= ls);
    }
}

fn parse_usize_chars(v: &Vec<char>) -> (r: usize)
    ensures
        r == (match parse_unsigned(v@, usize::MAX as nat) {
            Some(x) => x,
            None => 0,
        }),
{
    match parse_u64(v) {
        Some(x) => {
            if x <= usize::MAX as u64 {
                x as usize
            } else {
                0
            }
        },
        None => 0,
    }
}

fn tab_at(l: &Vec<char>, from: usize) -> (r: usize)
    requires
        from <= l.len(),
    ensures
        r == tab_index(l@, from as int),
        from <= r <= l.len(),
{
    proof {
        lemma_tab_index_bounds(l@, from as int);
    }
    let mut i = from;
    while i < l.len() && l[i] != '\t'
        invariant
            from <= i <= l.len(),
            tab_index(l@, i as int) == tab_index(l@, from as int),
        decreases l.len() - i,
    {
        i += 1;
    }
    i
}

/// Parse `git diff --numstat` output into (added, removed, files). Binary
/// files show `-` for both counts: counted as a file with zero lines.
pub fn parse_numstat(out: &str) -> (r: (usize, usize, usize))
    requires
        numstat(out@).0 <= usize::MAX,
        numstat(out@).1 <= usize::MAX,
        numstat(out@).2 <= usize::MAX,
    ensures
        r.0 == numstat(out@).0,
        r.1 == numstat(out@).1,
        r.2 == numstat(out@).2,
{
    let ls = lines_of(&chars_of(out));
    let ghost all = lines(out@);
    let mut added: usize = 0;
    let mut removed: usize = 0;
    let mut files: usize = 0;
    let mut i: usize = 0;
    while i < ls.len()
        invariant
            i <= ls@.len(),
            ls@.len() == all.len(),
            forall|j: int| 0 <= j < ls@.len() ==> #[trigger] ls@[j]@ == all[j],
            all == lines(out@),
            numstat_fold(all).0 <= usize::MAX,
            numstat_fold(all).1 <= usize::MAX,
            numstat_fold(all).2 <= usize::MAX,
            added == numstat_fold(all.take(i as int)).0,
            removed == numstat_fold(all.take(i as int)).1,
            files == numstat_fold(all.take(i as int)).2,
        decreases ls@.len() - i,
    {
        let l = &ls[i];
        proof {
            assert(all.take(i + 1).drop_last() =~= all.take(i as int));
            assert(all.take(i + 1).last() == l@);
            lemma_numstat_fold_mono(all, i + 1);
        }
        let t = trim_chars(l);
        if t.len() > 0 {
            let t1 = tab_at(l, 0);
            if t1 < l.len() {
                let t2 = tab_at(l, t1 + 1);
                if t2 < l.len() {
                    let a = parse_usize_chars(&sub_chars(l, 0, t1));
                    let r = parse_usize_chars(&sub_chars(l, t1 + 1, t2));
                    added = added + a;
                    removed = removed + r;
                    files = files + 1;
                }
            }
        }
        i += 1;
    }
    assert(all.take(i as int) =~= all);
    (added, removed, files)
}

/// The branch a `.git/HEAD` file names: its trimmed text after
/// `ref: refs/heads/`, or `None` for a detached or unreadable head.
pub open spec fn head_branch_spec(head: Seq<char>) -> Option<Seq<char>> {
    let t = trim(head);
    let p = "ref: refs/heads/"@;
    if t.len() >= p.len() && t.take(p.len() as int) == p {
        Some(t.skip(p.len() as int))
    } else {
        None
    }
}

/// The branch named by the text of a `.git/HEAD` file, if it names one.
pub fn head_branch(head: &str) -> (r: Option<String>)
    ensures
        match head_branch_spec(head@) {
            Some(b) => r matches Some(s) && s@ == b,
            None => r is None,
        },
{
    let t = trim_chars(&chars_of(head));
    let p = chars_of("ref: refs/heads/");
    if t.len() < p.len() {
        return None;
    }
    let mut i: usize = 0;
    while i < p.len()
        invariant
            i <= p.len() <= t.len(),
            forall|j: int| 0 <= j < i ==> t@[j] == p@[j],
            p@ == "ref: refs/heads/"@,
            t@ == trim(head@),
        decreases p.len() - i,
    {
        if t[i] != p[i] {
            assert(t@.take(p@.len() as int)[i as int] != p@[i as int]);
            return None;
        }
        i += 1;
    }
    assert(t@.take(p@.len() as int) =~= p@);
    let b = sub_chars(&t, p.len(), t.len());
    assert(b@ =~= t@.skip(p@.len() as int));
    Some(string_of(&b))
}

/// `parse_numstat` for any output: `None` when a total would not fit in
/// `usize`.
pub fn numstat_totals(out: &str) -> (r: Option<(usize, usize, usize)>)
    ensures
        match r {
            Some(t) => t.0 == numstat(out@).0 && t.1 == numstat(out@).1 && t.2 == numstat(out@).2,
            None => numstat(out@).0 > usize::MAX || numstat(out@).1 > usize::MAX || numstat(out@).2
                > usize::MAX,
        },
{
    let ls = lines_of(&chars_of(out));
    let ghost all = lines(out@);
    let mut added: usize = 0;
    let mut removed: usize = 0;
    let mut files: usize = 0;
    let mut i: usize = 0;
    while i < ls.len()
        invariant
            i <= ls@.len(),
            ls@.len() == all.len(),
            forall|j: int| 0 <= j < ls@.len() ==> #[trigger] ls@[j]@ == all[j],
            all == lines(out@),
            added == numstat_fold(all.take(i as int)).0,
            removed == numstat_fold(all.take(i as int)).1,
            files == numstat_fold(all.take(i as int)).2,
        decreases ls@.len() - i,
    {
        let l = &ls[i];
        proof {
            assert(all.take(i + 1).drop_last() =~= all.take(i as int));
            assert(all.take(i + 1).last() == l@);
        }
        let t = trim_chars(l);
        if t.len() > 0 {
            let t1 = tab_at(l, 0);
            if t1 < l.len() {
                let t2 = tab_at(l, t1 + 1);
                if t2 < l.len() {
                    let a = parse_usize_chars(&sub_chars(l, 0, t1));
                    let r = parse_usize_chars(&sub_chars(l, t1 + 1, t2));
                    match (added.checked_add(a), removed.checked_add(r), files.checked_add(1)) {
                        (Some(x), Some(y), Some(z)) => {
                            added = x;
                            removed = y;
                            files = z;
                        },
                        _ => {
                            proof {
                                lemma_numstat_fold_mono(all, i + 1);
                            }
                            return None;
                        },
                    }
                }
            }
        }
        i += 1;
    }
    assert(all.take(i as int) =~= all);
    Some((added, removed, files))
}

} // verus!
