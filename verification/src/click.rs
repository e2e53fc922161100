//! A left click in the conversation: which transcript line it lands on, and
//! whether it answers the open question with a choice, copies a code block,
//! or only focuses the conversation.

use vstd::prelude::*;

verus! {

/// What a click in the conversation does beyond focusing it.
#[derive(Debug, Clone, Copy, PartialEq, Eq, Structural)]
pub enum ClickAction {
    /// Only focus the conversation.
    Focus,
    /// Answer the open question with this choice.
    Choose(usize),
    /// Copy the code block at this index of the block list.
    Copy(usize),
}

/// The transcript line under screen row `row`, when the conversation's
/// first row is `top` and it is scrolled by `scroll` lines; `None` above it.
pub open spec fn clicked_line(row: u16, top: u16, scroll: u16) -> Option<int> {
    if row < top {
        None
    } else {
        Some(scroll + (row - top))
    }
}

/// The first question choice drawn on `line`: the index of the entry whose
/// line it is.
pub open spec fn choice_at(choices: Seq<(usize, usize)>, line: int) -> Option<int> {
    if exists|i: int| 0 <= i < choices.len() && choices[i].0 == line {
        Some(choose|i: int| 0 <= i < choices.len() && choices[i].0 == line && forall|j: int| 0 <= j < i ==> choices[j].0 != line)
    } else {
        None
    }
}

/// The block's lines, header to last, hold `line`.
pub open spec fn spans(block: (usize, usize), line: int) -> bool {
    block.0 <= line <= block.1
}

/// The first code block whose lines hold `line`.
pub open spec fn block_at(blocks: Seq<(usize, usize)>, line: int) -> Option<int> {
    if exists|i: int| 0 <= i < blocks.len() && spans(#[trigger] blocks[i], line) {
        Some(choose|i: int| 0 <= i < blocks.len() && spans(#[trigger] blocks[i], line) && forall|j: int| 0 <= j < i ==> !spans(#[trigger] blocks[j], line))
    } else {
        None
    }
}

/// What a click does: nothing but focus unless the transcript is at normal
/// zoom (where rows map one to one to lines) and the click is on it; then a
/// click on a choice of the open question (`choices`: the line and choice
/// number of each drawn choice, empty when no question is open) answers
/// with that choice, and else a click within a code block (`blocks`: the
/// header and last line of each) copies it.
pub open spec fn click_action(
    normal_zoom: bool,
    row: u16,
    top: u16,
    scroll: u16,
    choices: Seq<(usize, usize)>,
    blocks: Seq<(usize, usize)>,
) -> ClickAction {
    if !normal_zoom {
        ClickAction::Focus
    } else {
        match clicked_line(row, top, scroll) {
            None => ClickAction::Focus,
            Some(line) => match choice_at(choices, line) {
                Some(i) => ClickAction::Choose(choices[i].1),
                None => match block_at(blocks, line) {
                    Some(i) => ClickAction::Copy(i as usize),
                    None => ClickAction::Focus,
                },
            },
        }
    }
}

proof fn lemma_first_choice(choices: Seq<(usize, usize)>, line: int, i: int)
    requires
        0 <= i < choices.len(),
        choices[i].0 == line,
        forall|j: int| 0 <= j < i ==> choices[j].0 != line,
    ensures
        choice_at(choices, line) == Some(i),
{
    let c = choose|k: int| 0 <= k < choices.len() && choices[k].0 == line && forall|j: int| 0 <= j < k ==> choices[j].0 != line;
    assert(0 <= c < choices.len() && choices[c].0 == line && forall|j: int| 0 <= j < c ==> choices[j].0 != line);
    if c < i {
    } else if c > i {
        assert(choices[i].0 != line);
    }
}

proof fn lemma_first_block(blocks: Seq<(usize, usize)>, line: int, i: int)
    requires
        0 <= i < blocks.len(),
        spans(blocks[i], line),
        forall|j: int| 0 <= j < i ==> !spans(#[trigger] blocks[j], line),
    ensures
        block_at(blocks, line) == Some(i),
{
    let c = choose|k: int| 0 <= k < blocks.len() && spans(#[trigger] blocks[k], line) && forall|j: int| 0 <= j < k ==> !spans(#[trigger] blocks[j], line);
    assert(0 <= c < blocks.len() && spans(blocks[c], line));
    if c < i {
    } else if c > i {
        assert(!spans(blocks[i], line));
    }
}

/// Decide what a left click in the conversation does.
pub fn conversation_click(
    normal_zoom: bool,
    row: u16,
    top: u16,
    scroll: u16,
    choices: &Vec<(usize, usize)>,
    blocks: &Vec<(usize, usize)>,
) -> (r: ClickAction)
    ensures
        r == click_action(normal_zoom, row, top, scroll, choices@, blocks@),
{
    if !normal_zoom || row < top {
        return ClickAction::Focus;
    }
    let line: usize = scroll as usize + (row - top) as usize;
    let mut i: usize = 0;
    while i < choices.len()
        invariant
            i <= choices@.len(),
            normal_zoom,
            top <= row,
            line == scroll + (row - top),
            forall|j: int| 0 <= j < i ==> choices@[j].0 != line,
        decreases choices@.len() - i,
    {
        if choices[i].0 == line {
            proof {
                lemma_first_choice(choices@, line as int, i as int);
            }
            return ClickAction::Choose(choices[i].1);
        }
        i += 1;
    }
    let mut k: usize = 0;
    while k < blocks.len()
        invariant
            k <= blocks@.len(),
            normal_zoom,
            top <= row,
            line == scroll + (row - top),
            forall|j: int| 0 <= j < choices@.len() ==> choices@[j].0 != line,
            forall|j: int| 0 <= j < k ==> !spans(#[trigger] blocks@[j], line as int),
        decreases blocks@.len() - k,
    {
        if blocks[k].0 <= line && line <= blocks[k].1 {
            proof {
                lemma_first_block(blocks@, line as int, k as int);
            }
            return ClickAction::Copy(k);
        }
        k += 1;
    }
    ClickAction::Focus
}

} // verus!
