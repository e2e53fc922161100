//! Pickers: live model lists arriving from a provider (which fetches still
//! apply, the sorted options they become, the highlight afterwards), moving
//! a highlight past options that cannot be chosen, and the config pane's
//! pickers (the effort list, where a picker opens, and what choosing does).

use crate::text::{chars_eq, chars_of, compare_chars, lemma_seq_lt_total, lemma_seq_lt_trans, seq_lt, Order};
use crate::config::{base_url_write_for, TomlValue, TomlValueView};
use vstd::prelude::*;
use vstd::relations::{sorted_by, total_ordering};

verus! {

broadcast use vstd::seq_lib::group_to_multiset_ensures;

/// `String`'s order: lexicographic by code point, equal strings included.
pub open spec fn text_le(a: Seq<char>, b: Seq<char>) -> bool {
    a == b || seq_lt(a, b)
}

/// The order as a relation.
pub open spec fn text_order() -> spec_fn(Seq<char>, Seq<char>) -> bool {
    |a: Seq<char>, b: Seq<char>| text_le(a, b)
}

/// The texts of a list of strings.
pub open spec fn texts(v: Seq<String>) -> Seq<Seq<char>> {
    v.map_values(|s: String| s@)
}

/// A list of model names in the order `sort` leaves them.
pub open spec fn sorted_names(v: Seq<String>) -> Seq<Seq<char>> {
    texts(v).sort_by(text_order())
}

/// `text_le` is a total order.
pub proof fn lemma_text_order_total()
    ensures
        total_ordering(text_order()),
{
    let r = text_order();
    assert forall|a: Seq<char>| #[trigger] r(a, a) by {}
    assert forall|a: Seq<char>, b: Seq<char>| #[trigger] r(a, b) && #[trigger] r(b, a) implies a == b by {
        lemma_seq_lt_total(a, b);
    }
    assert forall|a: Seq<char>, b: Seq<char>, c: Seq<char>| #[trigger] r(a, b) && #[trigger] r(b, c) implies r(a, c) by {
        if a != b && b != c {
            lemma_seq_lt_trans(a, b, c);
        }
    }
    assert forall|a: Seq<char>, b: Seq<char>| #[trigger] r(a, b) || #[trigger] r(b, a) by {
        lemma_seq_lt_total(a, b);
    }
}

/// Sort model names by `String`'s order.
pub fn sort_names(names: Vec<String>) -> (r: Vec<String>)
    ensures
        texts(r@) == sorted_names(names@),
{
    let mut out: Vec<String> = Vec::new();
    let mut i: usize = 0;
    proof {
        lemma_text_order_total();
    }
    while i < names.len()
        invariant
            i <= names@.len(),
            total_ordering(text_order()),
            sorted_by(texts(out@), text_order()),
            texts(out@).to_multiset() == texts(names@.take(i as int)).to_multiset(),
        decreases names@.len() - i,
    {
        let m = names[i].clone();
        let mc = chars_of(m.as_str());
        let mut p: usize = 0;
        while p < out.len() && compare_chars(&chars_of(out[p].as_str()), &mc) != Order::Greater
            invariant
                p <= out@.len(),
                mc@ == m@,
                forall|k: int| 0 <= k < p ==> text_le(#[trigger] out@[k]@, m@),
            decreases out@.len() - p,
        {
            p += 1;
        }
        let ghost before = texts(out@);
        proof {
            assert forall|k: int| p <= k < out@.len() implies text_le(m@, #[trigger] texts(out@)[k]) by {
                assert(seq_lt(m@, out@[p as int]@));
                if k > p {
                    assert(text_order()(texts(out@)[p as int], texts(out@)[k]));
                    if out@[p as int]@ != out@[k]@ {
                        lemma_seq_lt_trans(m@, out@[p as int]@, out@[k]@);
                    }
                }
            }
        }
        out.insert(p, m);
        proof {
            assert(texts(out@) =~= before.insert(p as int, m@));
            vstd::seq_lib::to_multiset_insert(before, p as int, m@);
            assert(names@.take(i + 1) =~= names@.take(i as int).push(names@[i as int]));
            assert(texts(names@.take(i + 1)) =~= texts(names@.take(i as int)).push(m@));
            assert(sorted_by(texts(out@), text_order())) by {
                assert forall|a: int, b: int| 0 <= a < b < texts(out@).len() implies #[trigger] text_order()(
                    texts(out@)[a],
                    texts(out@)[b],
                ) by {
                    if b < p {
                        assert(text_order()(before[a], before[b]));
                    } else if a < p && b == p {
                        assert(text_le(out@[a]@, m@));
                    } else if a < p {
                        assert(text_le(before[a], m@));
                        assert(text_le(m@, before[b - 1]));
                        assert(text_order()(before[a], m@));
                        assert(text_order()(m@, before[b - 1]));
                    } else if a == p {
                        assert(text_le(m@, before[b - 1]));
                    } else {
                        assert(text_order()(before[a - 1], before[b - 1]));
                    }
                }
            }
        }
        i += 1;
    }
    proof {
        assert(names@.take(i as int) =~= names@);
        texts(names@).lemma_sort_by_ensures(text_order());
        vstd::seq_lib::lemma_sorted_unique(texts(out@), sorted_names(names@), text_order());
    }
    out
}

/// One option of a picker.
#[derive(Debug, Clone, PartialEq, Eq)]
pub struct PickOption {
    pub id: String,
    pub label: String,
    pub detail: String,
    pub is_current: bool,
    pub selectable: bool,
}

/// The option a fetched model name becomes: it is its own id and label,
/// has no detail, is selectable, and is marked when it is the model in use.
pub open spec fn model_option(o: PickOption, name: Seq<char>, current: Seq<char>) -> bool {
    &&& o.id@ == name
    &&& o.label@ == name
    &&& o.detail@ == Seq::<char>::empty()
    &&& o.is_current == (name == current)
    &&& o.selectable
}

/// The options of a sorted live list.
pub open spec fn options_of(r: Seq<PickOption>, names: Seq<Seq<char>>, current: Seq<char>) -> bool {
    &&& r.len() == names.len()
    &&& forall|i: int| 0 <= i < r.len() ==> model_option(#[trigger] r[i], names[i], current)
}

/// The picker options for a live model list: sorted, the model in use
/// marked current.
pub fn model_options(models: Vec<String>, current: &str) -> (r: Vec<PickOption>)
    ensures
        options_of(r@, sorted_names(models@), current@),
{
    proof {
        reveal_strlit("");
    }
    let sorted = sort_names(models);
    let cur = chars_of(current);
    let mut out: Vec<PickOption> = Vec::new();
    let mut i: usize = 0;
    while i < sorted.len()
        invariant
            i <= sorted@.len(),
            cur@ == current@,
            out@.len() == i,
            forall|k: int| 0 <= k < i ==> model_option(#[trigger] out@[k], sorted@[k]@, current@),
        decreases sorted@.len() - i,
    {
        proof {
            reveal_strlit("");
        }
        let name = &sorted[i];
        let is_current = chars_eq(&chars_of(name.as_str()), &cur);
        out.push(
            PickOption {
                id: name.clone(),
                label: name.clone(),
                detail: String::from_str(""),
                is_current,
                selectable: true,
            },
        );
        assert(out@[i as int].detail@ == Seq::<char>::empty());
        assert(model_option(out@[i as int], sorted@[i as int]@, current@));
        i += 1;
    }
    proof {
        assert forall|k: int| 0 <= k < out@.len() implies model_option(#[trigger] out@[k], sorted_names(models@)[k], current@) by {
            assert(texts(sorted@)[k] == sorted@[k]@);
        }
    }
    out
}

/// The index of the first option marked current, if any.
pub open spec fn first_current(r: Seq<PickOption>) -> Option<int> {
    if exists|i: int| 0 <= i < r.len() && r[i].is_current {
        Some(choose|i: int| 0 <= i < r.len() && r[i].is_current && forall|j: int| 0 <= j < i ==> !r[j].is_current)
    } else {
        None
    }
}

/// The index of the first option with id `id`, if any.
pub open spec fn first_with_id(r: Seq<PickOption>, id: Seq<char>) -> Option<int> {
    if exists|i: int| 0 <= i < r.len() && r[i].id@ == id {
        Some(choose|i: int| 0 <= i < r.len() && r[i].id@ == id && forall|j: int| 0 <= j < i ==> r[j].id@ != id)
    } else {
        None
    }
}

fn position_current(r: &Vec<PickOption>) -> (p: Option<usize>)
    ensures
        match p {
            Some(i) => i < r@.len() && r@[i as int].is_current && forall|j: int| 0 <= j < i ==> !r@[j].is_current,
            None => forall|j: int| 0 <= j < r@.len() ==> !r@[j].is_current,
        },
{
    let mut i: usize = 0;
    while i < r.len()
        invariant
            i <= r@.len(),
            forall|j: int| 0 <= j < i ==> !r@[j].is_current,
        decreases r@.len() - i,
    {
        if r[i].is_current {
            return Some(i);
        }
        i += 1;
    }
    None
}

pub(crate) fn position_id(r: &Vec<PickOption>, id: &str) -> (p: Option<usize>)
    ensures
        match p {
            Some(i) => i < r@.len() && r@[i as int].id@ == id@ && forall|j: int| 0 <= j < i ==> r@[j].id@ != id@,
            None => forall|j: int| 0 <= j < r@.len() ==> r@[j].id@ != id@,
        },
{
    let want = chars_of(id);
    let mut i: usize = 0;
    while i < r.len()
        invariant
            i <= r@.len(),
            want@ == id@,
            forall|j: int| 0 <= j < i ==> r@[j].id@ != id@,
        decreases r@.len() - i,
    {
        if chars_eq(&chars_of(r[i].id.as_str()), &want) {
            return Some(i);
        }
        i += 1;
    }
    None
}

proof fn lemma_first_current(r: Seq<PickOption>, i: int)
    requires
        0 <= i < r.len(),
        r[i].is_current,
        forall|j: int| 0 <= j < i ==> !r[j].is_current,
    ensures
        first_current(r) == Some(i),
{
    let c = choose|k: int| 0 <= k < r.len() && r[k].is_current && forall|j: int| 0 <= j < k ==> !r[j].is_current;
    assert(0 <= c < r.len() && r[c].is_current && forall|j: int| 0 <= j < c ==> !r[j].is_current);
    if c < i {
    } else if c > i {
        assert(!r[i].is_current);
    }
}

pub(crate) proof fn lemma_first_with_id(r: Seq<PickOption>, id: Seq<char>, i: int)
    requires
        0 <= i < r.len(),
        r[i].id@ == id,
        forall|j: int| 0 <= j < i ==> r[j].id@ != id,
    ensures
        first_with_id(r, id) == Some(i),
{
    let c = choose|k: int| 0 <= k < r.len() && r[k].id@ == id && forall|j: int| 0 <= j < k ==> r[j].id@ != id;
    assert(0 <= c < r.len() && r[c].id@ == id && forall|j: int| 0 <= j < c ==> r[j].id@ != id);
    if c < i {
    } else if c > i {
        assert(r[i].id@ != id);
    }
}

/// The highlight in the config pane's model picker after a live list
/// replaces it: the model in use, else the top.
pub open spec fn picker_selection(r: Seq<PickOption>) -> int {
    match first_current(r) {
        Some(i) => i,
        None => 0,
    }
}

/// A live model list fetched for `fetched_for` replaces the config pane's
/// open model picker: only when the fetch is for the configured provider
/// (a fetch from before a provider switch is dropped), the list is not
/// empty (an empty result keeps the built-in list), a picker is open and
/// the row under the cursor is `model`. Returns the new options and
/// highlight, or `None` to leave the screen as it is.
pub fn apply_models_fetched(
    fetched_for: &str,
    configured_provider: &str,
    picker_open: bool,
    field_is_model: bool,
    models: Vec<String>,
    current_model: &str,
) -> (r: Option<(Vec<PickOption>, usize)>)
    ensures
        r is Some <==> (fetched_for@ == configured_provider@ && models@.len() > 0 && picker_open && field_is_model),
        r matches Some((opts, sel)) ==> options_of(opts@, sorted_names(models@), current_model@)
            && sel == picker_selection(opts@),
{
    if !chars_eq(&chars_of(fetched_for), &chars_of(configured_provider)) {
        return None;
    }
    if models.len() == 0 || !picker_open || !field_is_model {
        return None;
    }
    let opts = model_options(models, current_model);
    let sel = match position_current(&opts) {
        Some(i) => {
            proof {
                lemma_first_current(opts@, i as int);
            }
            i
        },
        None => 0,
    };
    Some((opts, sel))
}

/// The highlight in the quick-switch model pane after a live list replaces
/// it: the model that was highlighted if it is still listed, else the model
/// in use, else the top.
pub open spec fn switch_selection(r: Seq<PickOption>, prev: Option<Seq<char>>) -> int {
    match prev {
        Some(p) if first_with_id(r, p) is Some => first_with_id(r, p)->0,
        _ => picker_selection(r),
    }
}

/// A live model list fetched for `fetched_for` replaces the quick-switch
/// model pane: only while the switch overlay is open, the list is not
/// empty, and the fetch is for the provider highlighted in the provider
/// pane (a fetch for a provider scrolled past is dropped). `previous` is
/// the id of the model highlighted before. Returns the new options and
/// highlight, or `None` to leave the pane as it is.
pub fn apply_switch_models_fetched(
    overlay_open: bool,
    highlighted_provider: Option<&str>,
    fetched_for: &str,
    models: Vec<String>,
    current_model: &str,
    previous: Option<&str>,
) -> (r: Option<(Vec<PickOption>, usize)>)
    ensures
        r is Some <==> (overlay_open && models@.len() > 0 && (highlighted_provider matches Some(h) && h@
            == fetched_for@)),
        r matches Some((opts, sel)) ==> options_of(opts@, sorted_names(models@), current_model@)
            && sel == switch_selection(
            opts@,
            match previous {
                Some(p) => Some(p@),
                None => None,
            },
        ),
{
    if !overlay_open || models.len() == 0 {
        return None;
    }
    match highlighted_provider {
        Some(h) => {
            if !chars_eq(&chars_of(h), &chars_of(fetched_for)) {
                return None;
            }
        },
        None => {
            return None;
        },
    }
    let opts = model_options(models, current_model);
    let by_prev = match previous {
        Some(p) => position_id(&opts, p),
        None => None,
    };
    let sel = match by_prev {
        Some(i) => {
            proof {
                lemma_first_with_id(opts@, previous->0@, i as int);
            }
            i
        },
        None => {
            proof {
                if previous is Some {
                    assert(first_with_id(opts@, previous->0@) is None);
                }
            }
            match position_current(&opts) {
                Some(i) => {
                    proof {
                        lemma_first_current(opts@, i as int);
                    }
                    i
                },
                None => 0,
            }
        },
    };
    Some((opts, sel))
}

/// A live list is offered in ascending order, each fetched name as often
/// as it was fetched and no other.
pub proof fn lemma_live_list_is_sorted_permutation(models: Seq<String>)
    ensures
        sorted_by(sorted_names(models), text_order()),
        sorted_names(models).to_multiset() == texts(models).to_multiset(),
        sorted_names(models).len() == models.len(),
{
    lemma_text_order_total();
    texts(models).lemma_sort_by_ensures(text_order());
    texts(models).to_multiset_ensures();
    sorted_names(models).to_multiset_ensures();
}

/// After a live list replaces the quick-switch pane, a model that was
/// highlighted and is still listed stays highlighted.
pub proof fn lemma_switch_keeps_highlight(r: Seq<PickOption>, names: Seq<Seq<char>>, current: Seq<char>, prev: Seq<char>)
    requires
        options_of(r, names, current),
        names.contains(prev),
    ensures
        0 <= switch_selection(r, Some(prev)) < r.len(),
        r[switch_selection(r, Some(prev))].id@ == prev,
{
    let i = choose|i: int| 0 <= i < names.len() && names[i] == prev;
    assert(model_option(r[i], names[i], current));
    let m = lemma_least_with_id(r, prev, i);
    lemma_first_with_id(r, prev, m);
}

/// The first index holding `id`, at or before an index known to hold it.
pub(crate) proof fn lemma_least_with_id(r: Seq<PickOption>, id: Seq<char>, i: int) -> (m: int)
    requires
        0 <= i < r.len(),
        r[i].id@ == id,
    ensures
        0 <= m <= i,
        r[m].id@ == id,
        forall|j: int| 0 <= j < m ==> r[j].id@ != id,
    decreases i,
{
    if exists|j: int| 0 <= j < i && r[j].id@ == id {
        let j = choose|j: int| 0 <= j < i && r[j].id@ == id;
        lemma_least_with_id(r, id, j)
    } else {
        i
    }
}


/// The index `k` moves of `d` rows away from `i` in a wrapping list of `n`.
pub open spec fn wrap_step(i: int, d: int, k: int, n: int) -> int {
    (i + k * d) % n
}

/// The number of moves the highlight makes: until it lands on a selectable
/// option, at most once round the list.
pub open spec fn moves_from(sel: Seq<bool>, i: int, d: int, k: int) -> int
    decreases sel.len() - k,
{
    if k >= sel.len() {
        sel.len() as int
    } else if sel[wrap_step(i, d, k, sel.len() as int)] {
        k
    } else {
        moves_from(sel, i, d, k + 1)
    }
}

/// Where a move of `d` from `i` lands over options whose selectability is
/// `sel`: the next selectable option in that direction, wrapping round; back
/// at the start (once round) when none is.
pub open spec fn move_target(sel: Seq<bool>, i: int, d: int) -> int {
    wrap_step(i, d, moves_from(sel, i, d, 1), sel.len() as int)
}

proof fn lemma_wrap_next(i: int, d: int, k: int, n: int)
    requires
        n > 0,
    ensures
        (wrap_step(i, d, k, n) + d) % n == wrap_step(i, d, k + 1, n),
        0 <= wrap_step(i, d, k, n) < n,
{
    let a = i + k * d;
    assert(i + (k + 1) * d == a + d) by (nonlinear_arith)
        requires
            a == i + k * d,
    ;
    vstd::arithmetic::div_mod::lemma_add_mod_noop_right(d, a, n);
    assert((a % n) + d == d + (a % n));
    assert(d + a == a + d);
    vstd::arithmetic::div_mod::lemma_mod_bound(a, n);
}

proof fn lemma_moves_from_bounds(sel: Seq<bool>, i: int, d: int, k: int)
    requires
        1 <= k <= sel.len(),
    ensures
        k <= moves_from(sel, i, d, k) <= sel.len(),
        moves_from(sel, i, d, k) < sel.len() ==> sel[wrap_step(i, d, moves_from(sel, i, d, k), sel.len() as int)],
        forall|j: int| k <= j < moves_from(sel, i, d, k) ==> !#[trigger] sel[wrap_step(i, d, j, sel.len() as int)],
    decreases sel.len() - k,
{
    if k < sel.len() && !sel[wrap_step(i, d, k, sel.len() as int)] {
        lemma_moves_from_bounds(sel, i, d, k + 1);
    }
}

proof fn lemma_moves_is_first(sel: Seq<bool>, i: int, d: int, k: int)
    requires
        1 <= k <= sel.len(),
        sel[wrap_step(i, d, k, sel.len() as int)],
        forall|j: int| 1 <= j < k ==> !#[trigger] sel[wrap_step(i, d, j, sel.len() as int)],
    ensures
        k < sel.len() ==> moves_from(sel, i, d, 1) == k,
        k == sel.len() ==> moves_from(sel, i, d, 1) == k,
{
    lemma_moves_from_bounds(sel, i, d, 1);
    let m = moves_from(sel, i, d, 1);
    if m < k {
        assert(!sel[wrap_step(i, d, m, sel.len() as int)]);
    } else if m > k {
        assert(!sel[wrap_step(i, d, k, sel.len() as int)]);
    }
}

proof fn lemma_moves_none(sel: Seq<bool>, i: int, d: int)
    requires
        sel.len() >= 1,
        forall|j: int| 1 <= j <= sel.len() ==> !#[trigger] sel[wrap_step(i, d, j, sel.len() as int)],
    ensures
        moves_from(sel, i, d, 1) == sel.len(),
{
    lemma_moves_from_bounds(sel, i, d, 1);
    let m = moves_from(sel, i, d, 1);
    if m < sel.len() {
        assert(sel[wrap_step(i, d, m, sel.len() as int)]);
    }
}


/// Move a picker's highlight `d` rows from `sel`, skipping options that
/// cannot be chosen and wrapping round the list; an empty list keeps `sel`.
pub fn move_to_choosable(options: &Vec<PickOption>, sel: usize, d: i32) -> (r: usize)
    requires
        options@.len() <= i32::MAX,
        sel <= i32::MAX,
        sel + d <= i32::MAX,
        options@.len() > 0 ==> options@.len() - 1 + d <= i32::MAX,
    ensures
        options@.len() == 0 ==> r == sel,
        options@.len() > 0 ==> r == move_target(options@.map_values(|o: PickOption| o.selectable), sel as int, d as int),
{
    let n = options.len();
    if n == 0 {
        return sel;
    }
    let ghost flags = options@.map_values(|o: PickOption| o.selectable);
    let ghost start = sel as int;
    let nn: i64 = n as i64;
    let mut i: i64 = sel as i64;
    let mut k: usize = 0;
    proof {
        lemma_moves_from_bounds(flags, start, d as int, 1);
    }
    while k < n
        invariant
            n == options@.len(),
            n == flags.len(),
            0 < n <= i32::MAX,
            nn == n,
            0 <= start <= i32::MAX,
            start == sel,
            i32::MIN <= d <= i32::MAX,
            k <= n,
            flags == options@.map_values(|o: PickOption| o.selectable),
            k == 0 ==> i == start,
            k > 0 ==> i as int == wrap_step(start, d as int, k as int, n as int),
            forall|j: int| 1 <= j <= k ==> !#[trigger] flags[wrap_step(start, d as int, j, n as int)],
        decreases n - k,
    {
        proof {
            if k > 0 {
                lemma_wrap_next(start, d as int, k as int, n as int);
            } else {
                assert(start + 1 * d == start + d);
            }
        }
        let t: i64 = i + (d as i64) + nn * 2147483648;
        proof {
            assert(nn * 2147483648 >= 2147483648) by (nonlinear_arith)
                requires
                    nn >= 1,
            ;
            vstd::arithmetic::div_mod::lemma_mod_multiples_vanish(2147483648, i + d, nn as int);
            assert(nn * 2147483648 == (nn as int) * 2147483648);
            assert(t == (nn as int) * 2147483648 + (i + d));
        }
        i = t % nn;
        k += 1;
        if options[i as usize].selectable {
            proof {
                assert(flags[i as int]);
                lemma_moves_is_first(flags, start, d as int, k as int);
            }
            return i as usize;
        }
    }
    proof {
        lemma_moves_none(flags, start, d as int);
    }
    i as usize
}

/// Moving the highlight one row up or down lands on an option that can be
/// chosen whenever the list has one; with none, it stays where it was.
pub proof fn lemma_move_lands_on_choosable(sel: Seq<bool>, i: int, d: int)
    requires
        0 <= i < sel.len(),
        d == 1 || d == -1,
    ensures
        (exists|j: int| 0 <= j < sel.len() && sel[j]) ==> sel[move_target(sel, i, d)],
        (forall|j: int| 0 <= j < sel.len() ==> !sel[j]) ==> move_target(sel, i, d) == i,
{
    let n = sel.len() as int;
    lemma_moves_from_bounds(sel, i, d, 1);
    let m = moves_from(sel, i, d, 1);
    lemma_wrap_next(i, d, m, n);
    if exists|j: int| 0 <= j < n && sel[j] {
        let j = choose|j: int| 0 <= j < n && sel[j];
        // The number of moves from i that reaches j.
        let k: int = if d == 1 {
            if j > i { j - i } else { j - i + n }
        } else {
            if j < i { i - j } else { i - j + n }
        };
        assert(1 <= k <= n);
        assert(wrap_step(i, d, k, n) == j) by {
            if d == 1 {
                assert(i + k * d == i + k);
                if j > i {
                    vstd::arithmetic::div_mod::lemma_small_mod(j as nat, n as nat);
                } else {
                    assert(i + k == j + n);
                    vstd::arithmetic::div_mod::lemma_mod_multiples_vanish(1, j, n);
                    vstd::arithmetic::div_mod::lemma_small_mod(j as nat, n as nat);
                }
            } else {
                assert(i + k * d == i - k);
                if j < i {
                    vstd::arithmetic::div_mod::lemma_small_mod(j as nat, n as nat);
                } else {
                    assert(i - k == j - n);
                    vstd::arithmetic::div_mod::lemma_mod_multiples_vanish(-1, j, n);
                    vstd::arithmetic::div_mod::lemma_small_mod(j as nat, n as nat);
                }
            }
        }
        if m == n {
            if k < n {
                assert(!sel[wrap_step(i, d, k, n)]);
            } else {
                assert(move_target(sel, i, d) == wrap_step(i, d, n, n));
            }
        }
    } else {
        assert(m == n) by {
            if m < n {
                assert(sel[wrap_step(i, d, m, n)]);
            }
        }
        assert(wrap_step(i, d, n, n) == i) by {
            assert(i + n * d == i + d * n) by (nonlinear_arith);
            vstd::arithmetic::div_mod::lemma_mod_multiples_vanish(d, i, n);
            assert(n * d + i == i + n * d);
            vstd::arithmetic::div_mod::lemma_small_mod(i as nat, n as nat);
        }
    }
}

/// The effort levels the config pane offers, in order, the first meaning
/// automatic (no effort set).
pub open spec fn effort_ids() -> Seq<Seq<char>> {
    seq![""@, "low"@, "medium"@, "high"@, "max"@]
}

/// The label of an effort option.
pub open spec fn effort_label(id: Seq<char>) -> Seq<char> {
    if id.len() == 0 {
        "(auto)"@
    } else {
        id
    }
}

fn effort_option(id: &str, label: &str, current: &str) -> (r: PickOption)
    ensures
        r.id@ == id@,
        r.label@ == label@,
        r.detail@ == Seq::<char>::empty(),
        r.selectable,
        r.is_current == (id@ == current@),
{
    proof {
        reveal_strlit("");
    }
    PickOption {
        id: String::from_str(id),
        label: String::from_str(label),
        detail: String::from_str(""),
        selectable: true,
        is_current: chars_eq(&chars_of(id), &chars_of(current)),
    }
}

/// The effort picker: automatic, low, medium, high and max, the configured
/// effort (empty when unset) marked current.
pub fn effort_options(current: &str) -> (r: Vec<PickOption>)
    ensures
        r@.len() == 5,
        forall|i: int| 0 <= i < 5 ==> {
            &&& (#[trigger] r@[i]).id@ == effort_ids()[i]
            &&& r@[i].label@ == effort_label(effort_ids()[i])
            &&& r@[i].detail@ == Seq::<char>::empty()
            &&& r@[i].selectable
            &&& r@[i].is_current == (effort_ids()[i] == current@)
        },
{
    proof {
        reveal_strlit("");
        reveal_strlit("(auto)");
        reveal_strlit("low");
        reveal_strlit("medium");
        reveal_strlit("high");
        reveal_strlit("max");
    }
    let v = vec![
        effort_option("", "(auto)", current),
        effort_option("low", "low", current),
        effort_option("medium", "medium", current),
        effort_option("high", "high", current),
        effort_option("max", "max", current),
    ];
    v
}

/// Where a freshly opened picker's cursor lands: on the current value, else
/// the first option that can be chosen, else the top.
pub open spec fn opening_cursor(r: Seq<PickOption>) -> int {
    match first_current(r) {
        Some(i) => i,
        None => if exists|i: int| 0 <= i < r.len() && r[i].selectable {
            choose|i: int| 0 <= i < r.len() && r[i].selectable && forall|j: int| 0 <= j < i ==> !r[j].selectable
        } else {
            0
        },
    }
}

/// The cursor of a freshly opened picker.
pub fn open_cursor(options: &Vec<PickOption>) -> (r: usize)
    ensures
        r == opening_cursor(options@),
{
    match position_current(options) {
        Some(i) => {
            proof {
                lemma_first_current(options@, i as int);
            }
            i
        },
        None => {
            let mut i: usize = 0;
            while i < options.len()
                invariant
                    i <= options@.len(),
                    forall|j: int| 0 <= j < i ==> !options@[j].selectable,
                    first_current(options@) is None,
                decreases options@.len() - i,
            {
                if options[i].selectable {
                    proof {
                        let c = choose|k: int| 0 <= k < options@.len() && options@[k].selectable && forall|j: int|
                            0 <= j < k ==> !options@[j].selectable;
                        if c < i {
                        } else if c > i {
                            assert(!options@[i as int].selectable);
                        }
                    }
                    return i;
                }
                i += 1;
            }
            0
        },
    }
}

/// Which row's picker was used in the config pane.
#[derive(Debug, Clone, Copy, PartialEq, Eq, Structural)]
pub enum PickedRow {
    Provider,
    Model,
    Effort,
    Other,
}

/// What follows choosing an option in the config pane's picker.
#[derive(Debug, Clone, PartialEq, Eq)]
pub enum AfterPick {
    /// Nothing was chosen (the option cannot be chosen, or the row has no
    /// picker): nothing changes.
    Nothing,
    /// Close the picker.
    Close,
    /// Ask for this secret before going on (the new provider needs a key
    /// that is not stored).
    KeyPrompt(String),
    /// Move to the model row and open its picker.
    ModelPicker,
}

/// Choosing in the config pane's picker: `chosen` is the id of the
/// highlighted option when it can be chosen. A provider writes the provider,
/// its `base_url` default (`base_url_default`) and clears the model, then
/// asks for `missing_key` (the provider's secret when it needs one that is
/// not stored) or opens the model picker. An effort writes
/// `thinking.effort`, cleared for automatic. A model writes the model.
pub fn config_pick(
    row: PickedRow,
    chosen: Option<&str>,
    base_url_default: Option<&str>,
    missing_key: Option<&str>,
) -> (r: (Vec<(String, TomlValue)>, AfterPick))
    ensures
        (chosen is None || row == PickedRow::Other) ==> r.0@.len() == 0 && r.1 == AfterPick::Nothing,
        chosen matches Some(id) ==> row == PickedRow::Provider ==> {
            &&& r.0@.len() == 3
            &&& r.0@[0].0@ == "provider"@ && r.0@[0].1@ == TomlValueView::Str(id@)
            &&& r.0@[1].0@ == "base_url"@ && r.0@[1].1@ == match base_url_default {
                Some(d) => TomlValueView::Str(d@),
                None => TomlValueView::Unset,
            }
            &&& r.0@[2].0@ == "model"@ && r.0@[2].1@ == TomlValueView::Unset
            &&& match missing_key {
                Some(k) => r.1 matches AfterPick::KeyPrompt(s) && s@ == k@,
                None => r.1 == AfterPick::ModelPicker,
            }
        },
        chosen matches Some(id) ==> row == PickedRow::Effort ==> {
            &&& r.0@.len() == 1
            &&& r.0@[0].0@ == "thinking.effort"@
            &&& r.0@[0].1@ == if id@.len() == 0 { TomlValueView::Unset } else { TomlValueView::Str(id@) }
            &&& r.1 == AfterPick::Close
        },
        chosen matches Some(id) ==> row == PickedRow::Model ==> {
            &&& r.0@.len() == 1
            &&& r.0@[0].0@ == "model"@ && r.0@[0].1@ == TomlValueView::Str(id@)
            &&& r.1 == AfterPick::Close
        },
{
    let mut writes: Vec<(String, TomlValue)> = Vec::new();
    let id = match chosen {
        Some(id) => id,
        None => {
            return (writes, AfterPick::Nothing);
        },
    };
    match row {
        PickedRow::Provider => {
            writes.push((String::from_str("provider"), TomlValue::Str(String::from_str(id))));
            writes.push((String::from_str("base_url"), base_url_write_for(base_url_default)));
            writes.push((String::from_str("model"), TomlValue::Unset));
            let next = match missing_key {
                Some(k) => AfterPick::KeyPrompt(String::from_str(k)),
                None => AfterPick::ModelPicker,
            };
            (writes, next)
        },
        PickedRow::Effort => {
            let v = if chars_of(id).len() == 0 {
                TomlValue::Unset
            } else {
                TomlValue::Str(String::from_str(id))
            };
            writes.push((String::from_str("thinking.effort"), v));
            (writes, AfterPick::Close)
        },
        PickedRow::Model => {
            writes.push((String::from_str("model"), TomlValue::Str(String::from_str(id))));
            (writes, AfterPick::Close)
        },
        PickedRow::Other => (writes, AfterPick::Nothing),
    }
}

/// Applying the quick switch: `provider` is the highlighted provider's id
/// and `model` the highlighted model's, each when it can be chosen. A chosen
/// provider writes the provider, its `base_url` default
/// (`base_url_default`) and the chosen model, or clears the model when none
/// is chosen; with no provider chosen nothing is written.
pub fn switch_apply_writes(provider: Option<&str>, model: Option<&str>, base_url_default: Option<&str>) -> (r: Vec<(String, TomlValue)>)
    ensures
        provider is None ==> r@.len() == 0,
        provider matches Some(p) ==> {
            &&& r@.len() == 3
            &&& r@[0].0@ == "provider"@ && r@[0].1@ == TomlValueView::Str(p@)
            &&& r@[1].0@ == "base_url"@ && r@[1].1@ == match base_url_default {
                Some(d) => TomlValueView::Str(d@),
                None => TomlValueView::Unset,
            }
            &&& r@[2].0@ == "model"@ && r@[2].1@ == match model {
                Some(m) => TomlValueView::Str(m@),
                None => TomlValueView::Unset,
            }
        },
{
    let mut writes: Vec<(String, TomlValue)> = Vec::new();
    if let Some(p) = provider {
        writes.push((String::from_str("provider"), TomlValue::Str(String::from_str(p))));
        writes.push((String::from_str("base_url"), base_url_write_for(base_url_default)));
        let m = match model {
            Some(m) => TomlValue::Str(String::from_str(m)),
            None => TomlValue::Unset,
        };
        writes.push((String::from_str("model"), m));
    }
    writes
}

/// `(idx + dir).rem_euclid(n)`: a step through `n` entries that wraps both
/// ways.
pub fn cycle_index(idx: usize, dir: i32, n: usize) -> (r: usize)
    requires
        0 < n <= i32::MAX,
        idx + dir <= i32::MAX,
        idx <= i32::MAX,
    ensures
        r == (idx + dir) % (n as int),
        r < n,
{
    let nn: i64 = n as i64;
    proof {
        assert(2147483648 <= nn * 2147483648 <= 0x7fff_ffff * 2147483648) by (nonlinear_arith)
            requires
                1 <= nn <= 0x7fff_ffff,
        ;
    }
    let t: i64 = idx as i64 + dir as i64 + nn * 2147483648;
    proof {
        vstd::arithmetic::div_mod::lemma_mod_multiples_vanish(2147483648, idx + dir, n as int);
        assert(t == (n as int) * 2147483648 + (idx + dir));
    }
    (t % nn) as usize
}

} // verus!
