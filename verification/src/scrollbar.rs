//! The conversation scrollbar: which scroll offset a click on a track row
//! asks for.

use vstd::prelude::*;

verus! {

/// `a.saturating_sub(b)` on 16-bit values.
pub open spec fn sat_sub(a: int, b: int) -> int {
    if a > b {
        a - b
    } else {
        0
    }
}

/// The offset for track row `rel` (0 at the top, `span` at the bottom) of
/// a track whose rows map linearly onto `0..=max`, rounded to nearest.
pub open spec fn track_offset(rel: int, span: int, max: int) -> int {
    (rel * max + span / 2) / span
}

/// The scroll offset a click at screen row `row` asks for, on a track whose
/// first row is `top` and which is `height` rows tall, scrolling over
/// `0..=max`: the click's row within the track (clamped to it) scaled onto
/// the offsets. `None` when the track is a single row or less.
pub open spec fn row_offset(row: u16, top: u16, height: u16, max: u16) -> Option<int> {
    if height <= 1 {
        None
    } else {
        let span = height - 1;
        let rel = if sat_sub(row as int, top as int) < span {
            sat_sub(row as int, top as int)
        } else {
            span as int
        };
        Some(track_offset(rel, span as int, max as int))
    }
}

proof fn lemma_track_offset_bounds(rel: int, span: int, max: int)
    requires
        0 <= rel <= span,
        span >= 1,
        0 <= max,
    ensures
        0 <= track_offset(rel, span, max) <= max,
        rel == 0 ==> track_offset(rel, span, max) == 0,
        rel == span ==> track_offset(rel, span, max) == max,
{
    assert(0 <= rel * max <= span * max) by (nonlinear_arith)
        requires
            0 <= rel <= span,
            0 <= max,
    ;
    assert(track_offset(rel, span, max) <= max) by (nonlinear_arith)
        requires
            rel * max <= span * max,
            span >= 1,
            0 <= span / 2 < span,
    ;
    if rel == 0 {
        assert(0 * max == 0);
        assert((span / 2) / span == 0) by (nonlinear_arith)
            requires
                span >= 1,
                0 <= span / 2 < span,
        ;
    }
    if rel == span {
        assert((span * max + span / 2) / span == max) by (nonlinear_arith)
            requires
                span >= 1,
                0 <= span / 2 < span,
        ;
    }
}

/// The offset a click on the scrollbar asks for; `None` when the track
/// is too short to scroll.
pub fn scrollbar_row_to_offset(row: u16, top: u16, height: u16, max: u16) -> (r: Option<u16>)
    ensures
        match row_offset(row, top, height, max) {
            Some(o) => r matches Some(v) && v == o,
            None => r is None,
        },
{
    if height <= 1 {
        return None;
    }
    let span: u16 = height - 1;
    let below: u16 = if row > top {
        row - top
    } else {
        0
    };
    let rel: u16 = if below < span {
        below
    } else {
        span
    };
    proof {
        lemma_track_offset_bounds(rel as int, span as int, max as int);
        assert(rel as int * max as int <= 65535 * 65535) by (nonlinear_arith)
            requires
                rel <= 65535,
                max <= 65535,
        ;
    }
    let num: u32 = (rel as u32) * (max as u32) + (span as u32) / 2;
    let o: u32 = num / (span as u32);
    Some(o as u16)
}

/// A click lands within the offsets the conversation can scroll to; the
/// track's top row (or above) asks for the top of the conversation and its
/// bottom row (or below) for the end.
pub proof fn lemma_click_within_range(row: u16, top: u16, height: u16, max: u16)
    requires
        height > 1,
    ensures
        row_offset(row, top, height, max) matches Some(o) && 0 <= o <= max,
        row <= top ==> row_offset(row, top, height, max) == Some(0int),
        row >= top + height - 1 ==> row_offset(row, top, height, max) == Some(max as int),
{
    let span = height - 1;
    let rel = if sat_sub(row as int, top as int) < span {
        sat_sub(row as int, top as int)
    } else {
        span as int
    };
    lemma_track_offset_bounds(rel, span as int, max as int);
}

/// A click further down the track never asks for an earlier offset.
pub proof fn lemma_lower_click_scrolls_further(a: u16, b: u16, top: u16, height: u16, max: u16)
    requires
        height > 1,
        a <= b,
    ensures
        row_offset(a, top, height, max) matches Some(oa) && row_offset(b, top, height, max) matches Some(ob)
            && oa <= ob,
{
    let span = (height - 1) as int;
    let ra = if sat_sub(a as int, top as int) < span {
        sat_sub(a as int, top as int)
    } else {
        span
    };
    let rb = if sat_sub(b as int, top as int) < span {
        sat_sub(b as int, top as int)
    } else {
        span
    };
    assert(ra <= rb);
    assert(track_offset(ra, span, max as int) <= track_offset(rb, span, max as int)) by (nonlinear_arith)
        requires
            0 <= ra <= rb,
            span >= 1,
            max >= 0,
    {
        assert(ra * max <= rb * max) by (nonlinear_arith)
            requires
                ra <= rb,
                max >= 0,
        ;
        vstd::arithmetic::div_mod::lemma_div_is_ordered(ra * max + span / 2, rb * max + span / 2, span);
    }
}

} // verus!
