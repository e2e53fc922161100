//! The event log and the incremental projection the render loop keeps over
//! it: the conversation messages, the task list, the token ledger, the ids
//! of user-facing questions, the assistant turn being streamed, and the
//! dirty flags that tell the caller which economy projections to rebuild.

use crate::mode_wizard::{MappingEntry, MappingView, ModeMapping};
use crate::text::{chars_eq, chars_of, extend_str, string_of};
use vstd::prelude::*;

verus! {

// ---------------------------------------------------------------------------
// Events
// ---------------------------------------------------------------------------

/// Token counts attached to an event.
#[derive(Debug, Clone, Copy, PartialEq, Eq, Structural)]
pub struct TokenStat {
    pub input: u64,
    pub output: u64,
    pub cached: u64,
    pub thinking: u64,
}

/// A tool call the model made.
#[derive(Debug, Clone)]
pub struct ToolCallRef {
    pub id: String,
    pub name: String,
    pub args: String,
}

/// A task's progress.
#[derive(Debug, Clone, Copy, PartialEq, Eq, Structural)]
pub enum TaskStatus {
    Pending,
    Active,
    Done,
}

/// One entry of the agent's task list.
#[derive(Debug, Clone)]
pub struct TaskItem {
    pub text: String,
    pub status: TaskStatus,
}

/// What a question asks for. Tool-approval questions keep their tool
/// result visible; every other kind hides the `ask_user` result behind the
/// question card.
#[derive(Debug, Clone)]
pub enum QuestionKind {
    Ask,
    Approval,
    Feedback,
    ModeMapping { mapping: ModeMapping },
}

/// A question card's state.
#[derive(Debug, Clone)]
pub enum QuestionCardState {
    Open { selected: usize, free_text: String },
    Answered { answer: String },
}

/// A turn the relevance rescue kept, with its bump in thousandths.
#[derive(Debug, Clone)]
pub struct RescuedTurnSummary {
    pub topic_hint: String,
    pub bump_milli: u32,
}

/// The rescue pass of an eviction: its goal, rounded weight, and the turns
/// it kept.
#[derive(Debug, Clone)]
pub struct RescueSummary {
    pub goal_text: String,
    pub weight: u32,
    pub rescued: Vec<RescuedTurnSummary>,
}

/// What happened, as the projection reads it.
#[derive(Debug, Clone)]
pub enum EventKind {
    ModelDelta { text: String },
    ToolCall { id: String, name: String, args: String },
    Usage,
    Tasks { items: Vec<TaskItem> },
    WakeScheduled { wake_id: String, fire_at_ms: i64, note: String },
    WakeFired { wake_id: String },
    WakeCancelled { wake_id: String },
    TurnsDropped,
    ContextMutation,
    DirectiveReasserted,
    TurnsReadmitted,
    UserMessage { text: String },
    AssistantMessage { text: String },
    ModelThinking { text: String },
    ToolResult { id: String, name: String, output: String, is_error: bool },
    QuestionAsked { id: String, kind: QuestionKind, question: String, choices: Vec<String> },
    QuestionAnswered { id: String, answer: String },
    DelegationResult { summary: String, ok: bool },
    TurnsEvicted { reclaimed_tokens: u64, evicted_topics: Vec<String>, rescue: Option<RescueSummary> },
    ToolResultCompacted { id: String, summary: String },
}

/// One logged event: when, what it cost, what happened.
#[derive(Debug, Clone)]
pub struct Event {
    pub ts: i64,
    pub tokens: Option<TokenStat>,
    pub kind: EventKind,
}

// ---------------------------------------------------------------------------
// Conversation messages
// ---------------------------------------------------------------------------

/// One rendered conversation message.
#[derive(Debug, Clone)]
pub enum ChatMsg {
    User { text: String, ts: i64 },
    Assistant { text: String, tool_calls: Vec<ToolCallRef>, ts: i64, thinking: Option<String> },
    ToolResult { id: String, name: String, output: String, is_error: bool, compacted: bool, ts: i64 },
    Question {
        id: String,
        kind: QuestionKind,
        question: String,
        choices: Vec<String>,
        state: QuestionCardState,
        ts: i64,
    },
    Delegated { summary: String, ok: bool },
    Evicted { reclaimed_tokens: u64, evicted_topics: Vec<String>, rescue: Option<RescueSummary>, ts: i64 },
}

/// A question kind as plain values.
pub enum KindView {
    Ask,
    Approval,
    Feedback,
    ModeMapping(MappingView),
}

impl View for QuestionKind {
    type V = KindView;

    open spec fn view(&self) -> KindView {
        match self {
            QuestionKind::Ask => KindView::Ask,
            QuestionKind::Approval => KindView::Approval,
            QuestionKind::Feedback => KindView::Feedback,
            QuestionKind::ModeMapping { mapping } => KindView::ModeMapping(mapping@),
        }
    }
}

/// A card state as plain values.
pub enum CardView {
    Open(usize, Seq<char>),
    Answered(Seq<char>),
}

impl View for QuestionCardState {
    type V = CardView;

    open spec fn view(&self) -> CardView {
        match self {
            QuestionCardState::Open { selected, free_text } => CardView::Open(*selected, free_text@),
            QuestionCardState::Answered { answer } => CardView::Answered(answer@),
        }
    }
}

/// A tool call as plain values: (id, name, args).
pub open spec fn call_view(c: ToolCallRef) -> (Seq<char>, Seq<char>, Seq<char>) {
    (c.id@, c.name@, c.args@)
}

/// Strings as plain values.
pub open spec fn strs_view(v: Seq<String>) -> Seq<Seq<char>> {
    v.map_values(|s: String| s@)
}

/// A rescue summary as plain values: (goal, weight, (topic, bump) per turn).
pub open spec fn rescue_view(r: RescueSummary) -> (Seq<char>, u32, Seq<(Seq<char>, u32)>) {
    (r.goal_text@, r.weight, r.rescued@.map_values(|t: RescuedTurnSummary| (t.topic_hint@, t.bump_milli)))
}

/// A task as plain values.
pub open spec fn task_view(t: TaskItem) -> (Seq<char>, TaskStatus) {
    (t.text@, t.status)
}

/// A message as plain values.
pub enum MsgView {
    User { text: Seq<char>, ts: i64 },
    Assistant {
        text: Seq<char>,
        tool_calls: Seq<(Seq<char>, Seq<char>, Seq<char>)>,
        ts: i64,
        thinking: Option<Seq<char>>,
    },
    ToolResult { id: Seq<char>, name: Seq<char>, output: Seq<char>, is_error: bool, compacted: bool, ts: i64 },
    Question { id: Seq<char>, kind: KindView, question: Seq<char>, choices: Seq<Seq<char>>, state: CardView, ts: i64 },
    Delegated { summary: Seq<char>, ok: bool },
    Evicted {
        reclaimed_tokens: u64,
        evicted_topics: Seq<Seq<char>>,
        rescue: Option<(Seq<char>, u32, Seq<(Seq<char>, u32)>)>,
        ts: i64,
    },
}

/// An optional string as plain values.
pub open spec fn opt_str(o: Option<String>) -> Option<Seq<char>> {
    match o {
        Some(s) => Some(s@),
        None => None,
    }
}

impl View for ChatMsg {
    type V = MsgView;

    open spec fn view(&self) -> MsgView {
        match self {
            ChatMsg::User { text, ts } => MsgView::User { text: text@, ts: *ts },
            ChatMsg::Assistant { text, tool_calls, ts, thinking } => MsgView::Assistant {
                text: text@,
                tool_calls: tool_calls@.map_values(|c: ToolCallRef| call_view(c)),
                ts: *ts,
                thinking: opt_str(*thinking),
            },
            ChatMsg::ToolResult { id, name, output, is_error, compacted, ts } => MsgView::ToolResult {
                id: id@,
                name: name@,
                output: output@,
                is_error: *is_error,
                compacted: *compacted,
                ts: *ts,
            },
            ChatMsg::Question { id, kind, question, choices, state, ts } => MsgView::Question {
                id: id@,
                kind: kind@,
                question: question@,
                choices: strs_view(choices@),
                state: state@,
                ts: *ts,
            },
            ChatMsg::Delegated { summary, ok } => MsgView::Delegated { summary: summary@, ok: *ok },
            ChatMsg::Evicted { reclaimed_tokens, evicted_topics, rescue, ts } => MsgView::Evicted {
                reclaimed_tokens: *reclaimed_tokens,
                evicted_topics: strs_view(evicted_topics@),
                rescue: match rescue {
                    Some(r) => Some(rescue_view(*r)),
                    None => None,
                },
                ts: *ts,
            },
        }
    }
}

// ---------------------------------------------------------------------------
// Copies that keep the value
// ---------------------------------------------------------------------------

fn copy_strings(v: &Vec<String>) -> (r: Vec<String>)
    ensures
        strs_view(r@) == strs_view(v@),
{
    let mut out: Vec<String> = Vec::new();
    let mut i: usize = 0;
    while i < v.len()
        invariant
            i <= v@.len(),
            strs_view(out@) == strs_view(v@.take(i as int)),
        decreases v@.len() - i,
    {
        let ghost prev = strs_view(out@);
        out.push(v[i].clone());
        assert(strs_view(out@) =~= prev.push(v@[i as int]@));
        assert(strs_view(v@.take(i + 1)) =~= strs_view(v@.take(i as int)).push(v@[i as int]@));
        i += 1;
    }
    assert(v@.take(i as int) =~= v@);
    out
}

fn copy_entry(e: &MappingEntry) -> (r: MappingEntry)
    ensures
        r@ == e@,
{
    match e {
        MappingEntry::Materialize { canonical_path, source, summary } => MappingEntry::Materialize {
            canonical_path: canonical_path.clone(),
            source: source.clone(),
            summary: summary.clone(),
        },
        MappingEntry::Skip { upstream_path, reason } => MappingEntry::Skip {
            upstream_path: upstream_path.clone(),
            reason: reason.clone(),
        },
    }
}

fn copy_mapping(m: &ModeMapping) -> (r: ModeMapping)
    ensures
        r@ == m@,
{
    let mut entries: Vec<MappingEntry> = Vec::new();
    let mut i: usize = 0;
    while i < m.entries.len()
        invariant
            i <= m.entries@.len(),
            entries@.map_values(|e: MappingEntry| e@) == m.entries@.take(i as int).map_values(|e: MappingEntry| e@),
        decreases m.entries@.len() - i,
    {
        let ghost prev = entries@.map_values(|e: MappingEntry| e@);
        let c = copy_entry(&m.entries[i]);
        entries.push(c);
        assert(entries@.map_values(|e: MappingEntry| e@) =~= prev.push(m.entries@[i as int]@));
        assert(m.entries@.take(i + 1).map_values(|e: MappingEntry| e@) =~= m.entries@.take(i as int).map_values(
            |e: MappingEntry| e@,
        ).push(m.entries@[i as int]@));
        i += 1;
    }
    assert(m.entries@.take(i as int) =~= m.entries@);
    ModeMapping {
        mode_name: m.mode_name.clone(),
        mode_description: m.mode_description.clone(),
        mode_body: m.mode_body.clone(),
        entries,
    }
}

fn copy_kind(k: &QuestionKind) -> (r: QuestionKind)
    ensures
        r@ == k@,
{
    match k {
        QuestionKind::Ask => QuestionKind::Ask,
        QuestionKind::Approval => QuestionKind::Approval,
        QuestionKind::Feedback => QuestionKind::Feedback,
        QuestionKind::ModeMapping { mapping } => QuestionKind::ModeMapping { mapping: copy_mapping(mapping) },
    }
}

fn copy_tasks(v: &Vec<TaskItem>) -> (r: Vec<TaskItem>)
    ensures
        r@.map_values(|t: TaskItem| task_view(t)) == v@.map_values(|t: TaskItem| task_view(t)),
{
    let mut out: Vec<TaskItem> = Vec::new();
    let mut i: usize = 0;
    while i < v.len()
        invariant
            i <= v@.len(),
            out@.map_values(|t: TaskItem| task_view(t)) == v@.take(i as int).map_values(|t: TaskItem| task_view(t)),
        decreases v@.len() - i,
    {
        let ghost prev = out@.map_values(|t: TaskItem| task_view(t));
        out.push(TaskItem { text: v[i].text.clone(), status: v[i].status });
        assert(out@.map_values(|t: TaskItem| task_view(t)) =~= prev.push(task_view(v@[i as int])));
        assert(v@.take(i + 1).map_values(|t: TaskItem| task_view(t)) =~= v@.take(i as int).map_values(
            |t: TaskItem| task_view(t),
        ).push(task_view(v@[i as int])));
        i += 1;
    }
    assert(v@.take(i as int) =~= v@);
    out
}

fn copy_rescue(r: &RescueSummary) -> (c: RescueSummary)
    ensures
        rescue_view(c) == rescue_view(*r),
{
    let mut out: Vec<RescuedTurnSummary> = Vec::new();
    let mut i: usize = 0;
    while i < r.rescued.len()
        invariant
            i <= r.rescued@.len(),
            out@.map_values(|t: RescuedTurnSummary| (t.topic_hint@, t.bump_milli)) == r.rescued@.take(i as int).map_values(
                |t: RescuedTurnSummary| (t.topic_hint@, t.bump_milli),
            ),
        decreases r.rescued@.len() - i,
    {
        let ghost prev = out@.map_values(|t: RescuedTurnSummary| (t.topic_hint@, t.bump_milli));
        out.push(RescuedTurnSummary { topic_hint: r.rescued[i].topic_hint.clone(), bump_milli: r.rescued[i].bump_milli });
        let ghost x = (r.rescued@[i as int].topic_hint@, r.rescued@[i as int].bump_milli);
        assert(out@.map_values(|t: RescuedTurnSummary| (t.topic_hint@, t.bump_milli)) =~= prev.push(x));
        assert(r.rescued@.take(i + 1).map_values(|t: RescuedTurnSummary| (t.topic_hint@, t.bump_milli)) =~= r.rescued@.take(
            i as int,
        ).map_values(|t: RescuedTurnSummary| (t.topic_hint@, t.bump_milli)).push(x));
        i += 1;
    }
    assert(r.rescued@.take(i as int) =~= r.rescued@);
    RescueSummary { goal_text: r.goal_text.clone(), weight: r.weight, rescued: out }
}

fn copy_calls(v: &Vec<ToolCallRef>) -> (r: Vec<ToolCallRef>)
    ensures
        r@.map_values(|c: ToolCallRef| call_view(c)) == v@.map_values(|c: ToolCallRef| call_view(c)),
{
    let mut out: Vec<ToolCallRef> = Vec::new();
    let mut i: usize = 0;
    while i < v.len()
        invariant
            i <= v@.len(),
            out@.map_values(|c: ToolCallRef| call_view(c)) == v@.take(i as int).map_values(|c: ToolCallRef| call_view(c)),
        decreases v@.len() - i,
    {
        let ghost prev = out@.map_values(|c: ToolCallRef| call_view(c));
        out.push(ToolCallRef { id: v[i].id.clone(), name: v[i].name.clone(), args: v[i].args.clone() });
        assert(out@.map_values(|c: ToolCallRef| call_view(c)) =~= prev.push(call_view(v@[i as int])));
        assert(v@.take(i + 1).map_values(|c: ToolCallRef| call_view(c)) =~= v@.take(i as int).map_values(
            |c: ToolCallRef| call_view(c),
        ).push(call_view(v@[i as int])));
        i += 1;
    }
    assert(v@.take(i as int) =~= v@);
    out
}

fn copy_msg(m: &ChatMsg) -> (r: ChatMsg)
    ensures
        r@ == m@,
{
    match m {
        ChatMsg::User { text, ts } => ChatMsg::User { text: text.clone(), ts: *ts },
        ChatMsg::Assistant { text, tool_calls, ts, thinking } => ChatMsg::Assistant {
            text: text.clone(),
            tool_calls: copy_calls(tool_calls),
            ts: *ts,
            thinking: match thinking {
                Some(t) => Some(t.clone()),
                None => None,
            },
        },
        ChatMsg::ToolResult { id, name, output, is_error, compacted, ts } => ChatMsg::ToolResult {
            id: id.clone(),
            name: name.clone(),
            output: output.clone(),
            is_error: *is_error,
            compacted: *compacted,
            ts: *ts,
        },
        ChatMsg::Question { id, kind, question, choices, state, ts } => ChatMsg::Question {
            id: id.clone(),
            kind: copy_kind(kind),
            question: question.clone(),
            choices: copy_strings(choices),
            state: match state {
                QuestionCardState::Open { selected, free_text } => QuestionCardState::Open {
                    selected: *selected,
                    free_text: free_text.clone(),
                },
                QuestionCardState::Answered { answer } => QuestionCardState::Answered { answer: answer.clone() },
            },
            ts: *ts,
        },
        ChatMsg::Delegated { summary, ok } => ChatMsg::Delegated { summary: summary.clone(), ok: *ok },
        ChatMsg::Evicted { reclaimed_tokens, evicted_topics, rescue, ts } => ChatMsg::Evicted {
            reclaimed_tokens: *reclaimed_tokens,
            evicted_topics: copy_strings(evicted_topics),
            rescue: match rescue {
                Some(r) => Some(copy_rescue(r)),
                None => None,
            },
            ts: *ts,
        },
    }
}

// ---------------------------------------------------------------------------
// The incremental projection
// ---------------------------------------------------------------------------

/// What applying one event changed: nothing in the messages (only economy
/// projections may need a refresh), the message at an index (`None`: the
/// streamed turn at the end), or a new message at the end.
#[derive(Debug, Clone, Copy, PartialEq, Eq, Structural)]
pub enum ProjectionImpact {
    Economy,
    MsgsMutated { mutated_index: Option<usize> },
    MsgsAppended,
    FullRefresh,
}

/// The cached projections over the event log, kept up to date one event at
/// a time.
#[derive(Debug)]
pub struct Projection {
    pub events_len: Option<usize>,
    pub msgs: Vec<ChatMsg>,
    pub tasks: Vec<TaskItem>,
    pub ledger_total: u64,
    pub cached_total: u64,
    pub last_input_tokens: Option<u64>,
    pub last_output_tokens: Option<u64>,
    pub window_dirty: bool,
    pub churn_dirty: bool,
    pub question_ids: Vec<String>,
    pub thinking_total: u64,
    pub pending_text: Option<String>,
    pub pending_calls: Vec<ToolCallRef>,
    pub pending_turn_ts: Option<i64>,
    pub pending_thinking: Option<String>,
}

/// The projection as plain values.
#[verifier::ext_equal]
pub struct ProjView {
    pub events_len: Option<usize>,
    pub msgs: Seq<MsgView>,
    pub tasks: Seq<(Seq<char>, TaskStatus)>,
    pub ledger_total: u64,
    pub cached_total: u64,
    pub last_input_tokens: Option<u64>,
    pub last_output_tokens: Option<u64>,
    pub window_dirty: bool,
    pub churn_dirty: bool,
    pub question_ids: Seq<Seq<char>>,
    pub thinking_total: u64,
    pub pending_text: Option<Seq<char>>,
    pub pending_calls: Seq<(Seq<char>, Seq<char>, Seq<char>)>,
    pub pending_turn_ts: Option<i64>,
    pub pending_thinking: Option<Seq<char>>,
}

/// Messages as plain values.
pub open spec fn msgs_view(v: Seq<ChatMsg>) -> Seq<MsgView> {
    v.map_values(|m: ChatMsg| m@)
}

impl View for Projection {
    type V = ProjView;

    open spec fn view(&self) -> ProjView {
        ProjView {
            events_len: self.events_len,
            msgs: msgs_view(self.msgs@),
            tasks: self.tasks@.map_values(|t: TaskItem| task_view(t)),
            ledger_total: self.ledger_total,
            cached_total: self.cached_total,
            last_input_tokens: self.last_input_tokens,
            last_output_tokens: self.last_output_tokens,
            window_dirty: self.window_dirty,
            churn_dirty: self.churn_dirty,
            question_ids: strs_view(self.question_ids@),
            thinking_total: self.thinking_total,
            pending_text: opt_str(self.pending_text),
            pending_calls: self.pending_calls@.map_values(|c: ToolCallRef| call_view(c)),
            pending_turn_ts: self.pending_turn_ts,
            pending_thinking: opt_str(self.pending_thinking),
        }
    }
}

/// The empty projection.
pub open spec fn empty_view() -> ProjView {
    ProjView {
        events_len: None,
        msgs: Seq::empty(),
        tasks: Seq::empty(),
        ledger_total: 0,
        cached_total: 0,
        last_input_tokens: None,
        last_output_tokens: None,
        window_dirty: false,
        churn_dirty: false,
        question_ids: Seq::empty(),
        thinking_total: 0,
        pending_text: None,
        pending_calls: Seq::empty(),
        pending_turn_ts: None,
        pending_thinking: None,
    }
}

/// The event's tokens summed into the ledger; the last non-zero input and
/// output counts remembered.
pub open spec fn add_tokens(p: ProjView, t: Option<TokenStat>) -> ProjView {
    match t {
        None => p,
        Some(t) => ProjView {
            ledger_total: (p.ledger_total + t.input + t.output) as u64,
            cached_total: (p.cached_total + t.cached) as u64,
            thinking_total: (p.thinking_total + t.thinking) as u64,
            last_input_tokens: if t.input > 0 {
                Some(t.input)
            } else {
                p.last_input_tokens
            },
            last_output_tokens: if t.output > 0 {
                Some(t.output)
            } else {
                p.last_output_tokens
            },
            ..p
        },
    }
}

/// The token ledger has room for the event's tokens, and the event count
/// for one more.
pub open spec fn fits(p: ProjView, ev: Event) -> bool {
    &&& (match p.events_len {
        Some(n) => n < usize::MAX,
        None => true,
    })
    &&& (match ev.tokens {
        Some(t) => p.ledger_total + t.input + t.output <= u64::MAX && p.cached_total + t.cached
            <= u64::MAX && p.thinking_total + t.thinking <= u64::MAX,
        None => true,
    })
}

/// One more event applied.
pub open spec fn counted(p: ProjView) -> ProjView {
    ProjView {
        events_len: Some(
            (match p.events_len {
                Some(n) => n + 1,
                None => 1,
            }) as usize,
        ),
        ..p
    }
}

/// The pending turn cleared.
pub open spec fn cleared(p: ProjView) -> ProjView {
    ProjView { pending_text: None, pending_calls: Seq::empty(), pending_turn_ts: None, pending_thinking: None, ..p }
}

/// Flush the pending assistant turn: when it has text or tool calls, it
/// becomes an assistant message carrying the pending thinking; either way
/// the pending state is cleared (thinking of an empty turn is dropped).
pub open spec fn flush(p: ProjView) -> (ProjView, bool) {
    if p.pending_text is Some || p.pending_calls.len() > 0 {
        (
            ProjView {
                msgs: p.msgs.push(
                    MsgView::Assistant {
                        text: match p.pending_text {
                            Some(t) => t,
                            None => Seq::empty(),
                        },
                        tool_calls: p.pending_calls,
                        ts: match p.pending_turn_ts {
                            Some(t) => t,
                            None => 0,
                        },
                        thinking: p.pending_thinking,
                    },
                ),
                ..cleared(p)
            },
            true,
        )
    } else {
        (cleared(p), false)
    }
}

/// Index of the last question card with this id.
pub open spec fn last_question(msgs: Seq<MsgView>, id: Seq<char>) -> Option<int>
    decreases msgs.len(),
{
    if msgs.len() == 0 {
        None
    } else {
        match msgs.last() {
            MsgView::Question { id: q, .. } => if q == id {
                Some(msgs.len() - 1)
            } else {
                last_question(msgs.drop_last(), id)
            },
            _ => last_question(msgs.drop_last(), id),
        }
    }
}

/// Index of the last tool result with this id.
pub open spec fn last_tool_result(msgs: Seq<MsgView>, id: Seq<char>) -> Option<int>
    decreases msgs.len(),
{
    if msgs.len() == 0 {
        None
    } else {
        match msgs.last() {
            MsgView::ToolResult { id: q, .. } => if q == id {
                Some(msgs.len() - 1)
            } else {
                last_tool_result(msgs.drop_last(), id)
            },
            _ => last_tool_result(msgs.drop_last(), id),
        }
    }
}

proof fn lemma_last_question(msgs: Seq<MsgView>, id: Seq<char>)
    ensures
        last_question(msgs, id) matches Some(i) ==> 0 <= i < msgs.len() && (msgs[i] matches MsgView::Question { id: q, .. } && q == id),
    decreases msgs.len(),
{
    if msgs.len() > 0 {
        lemma_last_question(msgs.drop_last(), id);
    }
}

proof fn lemma_last_tool_result(msgs: Seq<MsgView>, id: Seq<char>)
    ensures
        last_tool_result(msgs, id) matches Some(i) ==> 0 <= i < msgs.len() && (msgs[i] matches MsgView::ToolResult { id: q, .. } && q == id),
    decreases msgs.len(),
{
    if msgs.len() > 0 {
        lemma_last_tool_result(msgs.drop_last(), id);
    }
}

/// `ids` with `id` added when absent (a set insert).
pub open spec fn set_insert(ids: Seq<Seq<char>>, id: Seq<char>) -> Seq<Seq<char>> {
    if ids.contains(id) {
        ids
    } else {
        ids.push(id)
    }
}

/// A new message appended after flushing the pending turn.
pub open spec fn appended(p: ProjView, m: MsgView, window: bool, churn: bool) -> ProjView {
    let f = flush(p).0;
    counted(
        ProjView {
            msgs: f.msgs.push(m),
            window_dirty: f.window_dirty || window,
            churn_dirty: f.churn_dirty || churn,
            ..f
        },
    )
}

/// What applying one event does to the projection, and its impact.
pub open spec fn apply(p0: ProjView, ev: Event) -> (ProjView, ProjectionImpact) {
    let p = add_tokens(p0, ev.tokens);
    match ev.kind {
        EventKind::ModelDelta { text } => (
            counted(
                ProjView {
                    pending_text: Some(
                        match p.pending_text {
                            Some(t) => t,
                            None => Seq::empty(),
                        } + text@,
                    ),
                    pending_turn_ts: match p.pending_turn_ts {
                        Some(t) => Some(t),
                        None => Some(ev.ts),
                    },
                    churn_dirty: true,
                    ..p
                },
            ),
            ProjectionImpact::MsgsMutated { mutated_index: None },
        ),
        EventKind::ToolCall { id, name, args } => (
            counted(
                ProjView {
                    pending_turn_ts: match p.pending_turn_ts {
                        Some(t) => Some(t),
                        None => Some(ev.ts),
                    },
                    pending_calls: p.pending_calls.push((id@, name@, args@)),
                    churn_dirty: true,
                    ..p
                },
            ),
            ProjectionImpact::MsgsMutated { mutated_index: None },
        ),
        EventKind::Usage => (counted(ProjView { churn_dirty: true, ..p }), ProjectionImpact::Economy),
        EventKind::Tasks { items } => (
            counted(ProjView { tasks: items@.map_values(|t: TaskItem| task_view(t)), ..p }),
            ProjectionImpact::Economy,
        ),
        EventKind::WakeScheduled { .. } => (counted(p), ProjectionImpact::Economy),
        EventKind::WakeFired { .. } => (counted(p), ProjectionImpact::Economy),
        EventKind::WakeCancelled { .. } => (counted(p), ProjectionImpact::Economy),
        EventKind::TurnsDropped => (counted(ProjView { window_dirty: true, churn_dirty: true, ..p }), ProjectionImpact::Economy),
        EventKind::ContextMutation => (counted(ProjView { window_dirty: true, churn_dirty: true, ..p }), ProjectionImpact::Economy),
        EventKind::DirectiveReasserted => (counted(ProjView { window_dirty: true, churn_dirty: true, ..p }), ProjectionImpact::Economy),
        EventKind::TurnsReadmitted => (counted(ProjView { window_dirty: true, churn_dirty: true, ..p }), ProjectionImpact::Economy),
        EventKind::UserMessage { text } => (
            appended(p, MsgView::User { text: text@, ts: ev.ts }, true, true),
            ProjectionImpact::MsgsAppended,
        ),
        EventKind::AssistantMessage { text } => (
            appended(
                p,
                MsgView::Assistant { text: text@, tool_calls: Seq::empty(), ts: ev.ts, thinking: None },
                true,
                false,
            ),
            ProjectionImpact::MsgsAppended,
        ),
        EventKind::ModelThinking { text } => {
            let (f, flushed) = flush(p);
            (
                counted(ProjView { pending_thinking: Some(text@), ..f }),
                if flushed {
                    ProjectionImpact::MsgsMutated { mutated_index: None }
                } else {
                    ProjectionImpact::Economy
                },
            )
        },
        EventKind::ToolResult { id, name, output, is_error } => {
            let f = flush(p).0;
            if f.question_ids.contains(id@) {
                (counted(f), ProjectionImpact::MsgsMutated { mutated_index: None })
            } else {
                (
                    appended(
                        p,
                        MsgView::ToolResult {
                            id: id@,
                            name: name@,
                            output: output@,
                            is_error,
                            compacted: false,
                            ts: ev.ts,
                        },
                        true,
                        true,
                    ),
                    ProjectionImpact::MsgsAppended,
                )
            }
        },
        EventKind::QuestionAsked { id, kind, question, choices } => {
            let q = appended(
                p,
                MsgView::Question {
                    id: id@,
                    kind: kind@,
                    question: question@,
                    choices: strs_view(choices@),
                    state: CardView::Open(0, Seq::empty()),
                    ts: ev.ts,
                },
                true,
                true,
            );
            (
                ProjView {
                    question_ids: if kind is Approval {
                        q.question_ids
                    } else {
                        set_insert(q.question_ids, id@)
                    },
                    ..q
                },
                ProjectionImpact::MsgsAppended,
            )
        },
        EventKind::QuestionAnswered { id, answer } => match last_question(p.msgs, id@) {
            Some(i) => (
                counted(
                    ProjView {
                        msgs: p.msgs.update(
                            i,
                            match p.msgs[i] {
                                MsgView::Question { id, kind, question, choices, ts, .. } => MsgView::Question {
                                    id,
                                    kind,
                                    question,
                                    choices,
                                    state: CardView::Answered(answer@),
                                    ts,
                                },
                                m => m,
                            },
                        ),
                        ..p
                    },
                ),
                ProjectionImpact::MsgsMutated { mutated_index: Some(i as usize) },
            ),
            None => (counted(p), ProjectionImpact::Economy),
        },
        EventKind::DelegationResult { summary, ok } => (
            appended(p, MsgView::Delegated { summary: summary@, ok }, true, false),
            ProjectionImpact::MsgsAppended,
        ),
        EventKind::TurnsEvicted { reclaimed_tokens, evicted_topics, rescue } => (
            appended(
                p,
                MsgView::Evicted {
                    reclaimed_tokens,
                    evicted_topics: strs_view(evicted_topics@),
                    rescue: match rescue {
                        Some(r) => Some(rescue_view(r)),
                        None => None,
                    },
                    ts: ev.ts,
                },
                true,
                true,
            ),
            ProjectionImpact::MsgsAppended,
        ),
        EventKind::ToolResultCompacted { id, summary } => match last_tool_result(p.msgs, id@) {
            Some(i) => (
                counted(
                    ProjView {
                        msgs: p.msgs.update(
                            i,
                            match p.msgs[i] {
                                MsgView::ToolResult { id, name, is_error, ts, .. } => MsgView::ToolResult {
                                    id,
                                    name,
                                    output: summary@,
                                    is_error,
                                    compacted: true,
                                    ts,
                                },
                                m => m,
                            },
                        ),
                        window_dirty: true,
                        ..p
                    },
                ),
                ProjectionImpact::MsgsMutated { mutated_index: Some(i as usize) },
            ),
            None => (counted(p), ProjectionImpact::Economy),
        },
    }
}

/// Finish the pending turn after a turn ends: a pending turn with text or
/// tool calls is flushed (without the pending thinking); with neither, a
/// pending thinking becomes a standalone assistant message.
pub open spec fn finalize(p: ProjView) -> (ProjView, ProjectionImpact) {
    let (f, flushed) = flush(ProjView { pending_thinking: None, ..p });
    if flushed {
        (f, ProjectionImpact::MsgsAppended)
    } else {
        match p.pending_thinking {
            Some(t) => (
                ProjView {
                    msgs: f.msgs.push(
                        MsgView::Assistant { text: Seq::empty(), tool_calls: Seq::empty(), ts: 0, thinking: Some(t) },
                    ),
                    ..f
                },
                ProjectionImpact::MsgsAppended,
            ),
            None => (f, ProjectionImpact::Economy),
        }
    }
}

impl Projection {
    /// The empty projection (nothing applied yet).
    pub fn new() -> (r: Self)
        ensures
            r@ == empty_view(),
    {
        let r = Projection {
            events_len: None,
            msgs: Vec::new(),
            tasks: Vec::new(),
            ledger_total: 0,
            cached_total: 0,
            last_input_tokens: None,
            last_output_tokens: None,
            window_dirty: false,
            churn_dirty: false,
            question_ids: Vec::new(),
            thinking_total: 0,
            pending_text: None,
            pending_calls: Vec::new(),
            pending_turn_ts: None,
            pending_thinking: None,
        };
        assert(r@ =~= empty_view());
        r
    }

    fn count_event(&mut self)
        requires
            match old(self).events_len {
                Some(n) => n < usize::MAX,
                None => true,
            },
        ensures
            final(self)@ == counted(old(self)@),
    {
        let n: usize = match self.events_len {
            Some(n) => n,
            None => 0,
        };
        self.events_len = Some(n + 1);
        assert(self@ =~= counted(old(self)@));
    }

    fn push_msg(&mut self, m: ChatMsg)
        ensures
            final(self)@ == (ProjView { msgs: old(self)@.msgs.push(m@), ..old(self)@ }),
    {
        self.msgs.push(m);
        assert(msgs_view(self.msgs@) =~= msgs_view(old(self).msgs@).push(m@));
        assert(self@ =~= ProjView { msgs: old(self)@.msgs.push(m@), ..old(self)@ });
    }

    /// Flush the pending assistant turn into the messages; returns whether a
    /// message was pushed. The pending state is cleared either way.
    pub fn flush_pending_assistant(&mut self) -> (r: bool)
        ensures
            (final(self)@, r) == flush(old(self)@),
    {
        let text = self.pending_text.take();
        let mut calls: Vec<ToolCallRef> = Vec::new();
        std::mem::swap(&mut calls, &mut self.pending_calls);
        let ts = self.pending_turn_ts.take();
        let thinking = self.pending_thinking.take();
        assert(self@ =~= cleared(old(self)@));
        if text.is_some() || calls.len() > 0 {
            let t = match text {
                Some(t) => t,
                None => String::new(),
            };
            let ts0: i64 = match ts {
                Some(x) => x,
                None => 0,
            };
            self.push_msg(ChatMsg::Assistant { text: t, tool_calls: calls, ts: ts0, thinking });
            assert(self@ =~= flush(old(self)@).0);
            true
        } else {
            false
        }
    }

    /// Finish the pending turn once a turn ends (see `finalize`).
    pub fn finalize_pending(&mut self) -> (r: ProjectionImpact)
        ensures
            (final(self)@, r) == finalize(old(self)@),
    {
        let saved = self.pending_thinking.take();
        assert(self@ =~= ProjView { pending_thinking: None, ..old(self)@ });
        let flushed = self.flush_pending_assistant();
        if flushed {
            return ProjectionImpact::MsgsAppended;
        }
        match saved {
            Some(t) => {
                let ts0: i64 = match self.pending_turn_ts.take() {
                    Some(x) => x,
                    None => 0,
                };
                let no_calls: Vec<ToolCallRef> = Vec::new();
                assert(no_calls@.map_values(|c: ToolCallRef| call_view(c)) =~= Seq::empty());
                self.push_msg(ChatMsg::Assistant { text: String::new(), tool_calls: no_calls, ts: ts0, thinking: Some(t) });
                assert(self@ =~= finalize(old(self)@).0);
                ProjectionImpact::MsgsAppended
            },
            None => ProjectionImpact::Economy,
        }
    }

    fn add_event_tokens(&mut self, t: Option<TokenStat>)
        requires
            match t {
                Some(t) => old(self).ledger_total + t.input + t.output <= u64::MAX && old(self).cached_total
                    + t.cached <= u64::MAX && old(self).thinking_total + t.thinking <= u64::MAX,
                None => true,
            },
        ensures
            final(self)@ == add_tokens(old(self)@, t),
    {
        if let Some(t) = t {
            self.ledger_total = self.ledger_total + t.input + t.output;
            self.cached_total = self.cached_total + t.cached;
            self.thinking_total = self.thinking_total + t.thinking;
            if t.input > 0 {
                self.last_input_tokens = Some(t.input);
            }
            if t.output > 0 {
                self.last_output_tokens = Some(t.output);
            }
        }
        assert(self@ =~= add_tokens(old(self)@, t));
    }

    fn append_after_flush(&mut self, m: ChatMsg, window: bool, churn: bool)
        requires
            match old(self).events_len {
                Some(n) => n < usize::MAX,
                None => true,
            },
        ensures
            final(self)@ == appended(old(self)@, m@, window, churn),
    {
        self.flush_pending_assistant();
        self.push_msg(m);
        if window {
            self.window_dirty = true;
        }
        if churn {
            self.churn_dirty = true;
        }
        self.count_event();
        assert(self@ =~= appended(old(self)@, m@, window, churn));
    }

    fn has_question_id(&self, id: &String) -> (r: bool)
        ensures
            r == strs_view(self.question_ids@).contains(id@),
    {
        let ghost ids = strs_view(self.question_ids@);
        let idc = chars_of(id.as_str());
        let mut i: usize = 0;
        while i < self.question_ids.len()
            invariant
                i <= self.question_ids@.len(),
                ids == strs_view(self.question_ids@),
                idc@ == id@,
                forall|j: int| 0 <= j < i ==> ids[j] != id@,
            decreases self.question_ids@.len() - i,
        {
            if chars_eq(&chars_of(self.question_ids[i].as_str()), &idc) {
                assert(ids[i as int] == id@);
                return true;
            }
            i += 1;
        }
        false
    }

    fn find_last_question(&self, id: &String) -> (r: Option<usize>)
        ensures
            r matches Some(k) ==> last_question(msgs_view(self.msgs@), id@) == Some(k as int) && k < self.msgs@.len(),
            r is None ==> last_question(msgs_view(self.msgs@), id@) is None,
    {
        let ghost ms = msgs_view(self.msgs@);
        proof {
            lemma_last_question(ms, id@);
        }
        let idc = chars_of(id.as_str());
        let mut k: usize = self.msgs.len();
        assert(ms.take(k as int) =~= ms);
        while k > 0
            invariant
                k <= self.msgs@.len(),
                ms == msgs_view(self.msgs@),
                idc@ == id@,
                last_question(ms, id@) == last_question(ms.take(k as int), id@),
            decreases k,
        {
            assert(ms.take(k as int).drop_last() =~= ms.take(k - 1));
            assert(ms.take(k as int).last() == self.msgs@[k - 1]@);
            match &self.msgs[k - 1] {
                ChatMsg::Question { id: q, .. } => {
                    if chars_eq(&chars_of(q.as_str()), &idc) {
                        return Some(k - 1);
                    }
                },
                _ => {},
            }
            k -= 1;
        }
        None
    }

    fn find_last_tool_result(&self, id: &String) -> (r: Option<usize>)
        ensures
            r matches Some(k) ==> last_tool_result(msgs_view(self.msgs@), id@) == Some(k as int) && k < self.msgs@.len(),
            r is None ==> last_tool_result(msgs_view(self.msgs@), id@) is None,
    {
        let ghost ms = msgs_view(self.msgs@);
        proof {
            lemma_last_tool_result(ms, id@);
        }
        let idc = chars_of(id.as_str());
        let mut k: usize = self.msgs.len();
        assert(ms.take(k as int) =~= ms);
        while k > 0
            invariant
                k <= self.msgs@.len(),
                ms == msgs_view(self.msgs@),
                idc@ == id@,
                last_tool_result(ms, id@) == last_tool_result(ms.take(k as int), id@),
            decreases k,
        {
            assert(ms.take(k as int).drop_last() =~= ms.take(k - 1));
            assert(ms.take(k as int).last() == self.msgs@[k - 1]@);
            match &self.msgs[k - 1] {
                ChatMsg::ToolResult { id: q, .. } => {
                    if chars_eq(&chars_of(q.as_str()), &idc) {
                        return Some(k - 1);
                    }
                },
                _ => {},
            }
            k -= 1;
        }
        None
    }

    fn set_msg(&mut self, i: usize, m: ChatMsg)
        requires
            i < old(self).msgs@.len(),
        ensures
            final(self)@ == (ProjView { msgs: old(self)@.msgs.update(i as int, m@), ..old(self)@ }),
    {
        self.msgs.set(i, m);
        assert(msgs_view(self.msgs@) =~= msgs_view(old(self).msgs@).update(i as int, m@));
        assert(self@ =~= ProjView { msgs: old(self)@.msgs.update(i as int, m@), ..old(self)@ });
    }

    /// Apply one new event to the cached projections and say what changed
    /// (see `apply`).
    pub fn apply_event(&mut self, ev: &Event) -> (r: ProjectionImpact)
        requires
            fits(old(self)@, *ev),
        ensures
            (final(self)@, r) == apply(old(self)@, *ev),
    {
        self.add_event_tokens(ev.tokens);
        let ghost p = self@;
        match &ev.kind {
            EventKind::ModelDelta { text } => {
                let mut cur = match self.pending_text.take() {
                    Some(s) => chars_of(s.as_str()),
                    None => Vec::new(),
                };
                extend_str(&mut cur, text.as_str());
                self.pending_text = Some(string_of(&cur));
                if self.pending_turn_ts.is_none() {
                    self.pending_turn_ts = Some(ev.ts);
                }
                self.churn_dirty = true;
                self.count_event();
                assert(self@ =~= apply(old(self)@, *ev).0);
                ProjectionImpact::MsgsMutated { mutated_index: None }
            },
            EventKind::ToolCall { id, name, args } => {
                if self.pending_turn_ts.is_none() {
                    self.pending_turn_ts = Some(ev.ts);
                }
                let c = ToolCallRef { id: id.clone(), name: name.clone(), args: args.clone() };
                self.pending_calls.push(c);
                assert(self.pending_calls@.map_values(|c: ToolCallRef| call_view(c)) =~= p.pending_calls.push(
                    (id@, name@, args@),
                ));
                self.churn_dirty = true;
                self.count_event();
                assert(self@ =~= apply(old(self)@, *ev).0);
                ProjectionImpact::MsgsMutated { mutated_index: None }
            },
            EventKind::Usage => {
                self.churn_dirty = true;
                self.count_event();
                assert(self@ =~= apply(old(self)@, *ev).0);
                ProjectionImpact::Economy
            },
            EventKind::Tasks { items } => {
                self.tasks = copy_tasks(items);
                self.count_event();
                assert(self@ =~= apply(old(self)@, *ev).0);
                ProjectionImpact::Economy
            },
            EventKind::WakeScheduled { .. } | EventKind::WakeFired { .. } | EventKind::WakeCancelled { .. } => {
                self.count_event();
                ProjectionImpact::Economy
            },
            EventKind::TurnsDropped | EventKind::ContextMutation | EventKind::DirectiveReasserted
            | EventKind::TurnsReadmitted => {
                self.window_dirty = true;
                self.churn_dirty = true;
                self.count_event();
                assert(self@ =~= apply(old(self)@, *ev).0);
                ProjectionImpact::Economy
            },
            EventKind::UserMessage { text } => {
                self.append_after_flush(ChatMsg::User { text: text.clone(), ts: ev.ts }, true, true);
                ProjectionImpact::MsgsAppended
            },
            EventKind::AssistantMessage { text } => {
                let no_calls: Vec<ToolCallRef> = Vec::new();
                assert(no_calls@.map_values(|c: ToolCallRef| call_view(c)) =~= Seq::empty());
                let m = ChatMsg::Assistant { thinking: None, text: text.clone(), tool_calls: no_calls, ts: ev.ts };
                assert(m@ == (MsgView::Assistant { text: text@, tool_calls: Seq::empty(), ts: ev.ts, thinking: None }));
                self.append_after_flush(m, true, false);
                ProjectionImpact::MsgsAppended
            },
            EventKind::ModelThinking { text } => {
                let flushed = self.flush_pending_assistant();
                self.pending_thinking = Some(text.clone());
                self.count_event();
                assert(self@ =~= apply(old(self)@, *ev).0);
                if flushed {
                    ProjectionImpact::MsgsMutated { mutated_index: None }
                } else {
                    ProjectionImpact::Economy
                }
            },
            EventKind::ToolResult { id, name, output, is_error } => {
                if self.has_question_id(id) {
                    self.flush_pending_assistant();
                    self.count_event();
                    return ProjectionImpact::MsgsMutated { mutated_index: None };
                }
                let m = ChatMsg::ToolResult {
                    id: id.clone(),
                    name: name.clone(),
                    output: output.clone(),
                    is_error: *is_error,
                    compacted: false,
                    ts: ev.ts,
                };
                self.append_after_flush(m, true, true);
                ProjectionImpact::MsgsAppended
            },
            EventKind::QuestionAsked { id, kind, question, choices } => {
                let m = ChatMsg::Question {
                    id: id.clone(),
                    kind: copy_kind(kind),
                    question: question.clone(),
                    choices: copy_strings(choices),
                    state: QuestionCardState::Open { selected: 0, free_text: String::new() },
                    ts: ev.ts,
                };
                self.append_after_flush(m, true, true);
                let approval = match kind {
                    QuestionKind::Approval => true,
                    _ => false,
                };
                if !approval && !self.has_question_id(id) {
                    self.question_ids.push(id.clone());
                    assert(strs_view(self.question_ids@) =~= strs_view(old(self).question_ids@).push(id@));
                }
                assert(self@ =~= apply(old(self)@, *ev).0);
                ProjectionImpact::MsgsAppended
            },
            EventKind::QuestionAnswered { id, answer } => {
                match self.find_last_question(id) {
                    Some(i) => {
                        let nm = match &self.msgs[i] {
                            ChatMsg::Question { id: qid, kind, question, choices, ts, .. } => ChatMsg::Question {
                                id: qid.clone(),
                                kind: copy_kind(kind),
                                question: question.clone(),
                                choices: copy_strings(choices),
                                state: QuestionCardState::Answered { answer: answer.clone() },
                                ts: *ts,
                            },
                            other => copy_msg(other),
                        };
                        self.set_msg(i, nm);
                        self.count_event();
                        assert(self@ =~= apply(old(self)@, *ev).0);
                        ProjectionImpact::MsgsMutated { mutated_index: Some(i) }
                    },
                    None => {
                        self.count_event();
                        ProjectionImpact::Economy
                    },
                }
            },
            EventKind::DelegationResult { summary, ok } => {
                self.append_after_flush(ChatMsg::Delegated { summary: summary.clone(), ok: *ok }, true, false);
                ProjectionImpact::MsgsAppended
            },
            EventKind::TurnsEvicted { reclaimed_tokens, evicted_topics, rescue } => {
                let m = ChatMsg::Evicted {
                    reclaimed_tokens: *reclaimed_tokens,
                    evicted_topics: copy_strings(evicted_topics),
                    rescue: match rescue {
                        Some(r) => Some(copy_rescue(r)),
                        None => None,
                    },
                    ts: ev.ts,
                };
                self.append_after_flush(m, true, true);
                ProjectionImpact::MsgsAppended
            },
            EventKind::ToolResultCompacted { id, summary } => {
                match self.find_last_tool_result(id) {
                    Some(i) => {
                        let nm = match &self.msgs[i] {
                            ChatMsg::ToolResult { id: rid, name, is_error, ts, .. } => ChatMsg::ToolResult {
                                id: rid.clone(),
                                name: name.clone(),
                                output: summary.clone(),
                                is_error: *is_error,
                                compacted: true,
                                ts: *ts,
                            },
                            other => copy_msg(other),
                        };
                        self.set_msg(i, nm);
                        self.window_dirty = true;
                        self.count_event();
                        assert(self@ =~= apply(old(self)@, *ev).0);
                        ProjectionImpact::MsgsMutated { mutated_index: Some(i) }
                    },
                    None => {
                        self.count_event();
                        ProjectionImpact::Economy
                    },
                }
            },
        }
    }
}

/// What one applied event can do to the projection: the event count goes up
/// by one; the ledger grows by exactly the event's input and output tokens;
/// an `Economy` impact leaves the messages alone; an in-place mutation at an
/// index changes only that message; otherwise the old messages stay a
/// prefix, and `MsgsAppended` means at least one message was added.
pub proof fn lemma_apply_impact(p: ProjView, ev: Event)
    requires
        fits(p, ev),
        p.msgs.len() <= usize::MAX,
    ensures
        apply(p, ev).0.events_len == Some(
            (match p.events_len {
                Some(n) => n + 1,
                None => 1,
            }) as usize,
        ),
        apply(p, ev).0.ledger_total == p.ledger_total + match ev.tokens {
            Some(t) => t.input + t.output,
            None => 0,
        },
        apply(p, ev).1 == ProjectionImpact::Economy ==> apply(p, ev).0.msgs == p.msgs,
        apply(p, ev).1 matches ProjectionImpact::MsgsMutated { mutated_index: Some(i) } ==> i < p.msgs.len()
            && apply(p, ev).0.msgs.len() == p.msgs.len() && forall|j: int|
            0 <= j < p.msgs.len() && j != i ==> #[trigger] apply(p, ev).0.msgs[j] == p.msgs[j],
        !(apply(p, ev).1 matches ProjectionImpact::MsgsMutated { mutated_index: Some(_) }) ==> apply(p, ev).0.msgs.len()
            >= p.msgs.len() && apply(p, ev).0.msgs.take(p.msgs.len() as int) == p.msgs,
        apply(p, ev).1 == ProjectionImpact::MsgsAppended ==> apply(p, ev).0.msgs.len() > p.msgs.len(),
{
    let q = add_tokens(p, ev.tokens);
    let f = flush(q).0;
    assert(f.msgs.take(q.msgs.len() as int) =~= q.msgs);
    assert(f.msgs.push(arbitrary()).take(q.msgs.len() as int) =~= q.msgs) by {
        let x: MsgView = arbitrary();
        assert(f.msgs.push(x).take(q.msgs.len() as int) =~= f.msgs.take(q.msgs.len() as int));
    }
    assert(q.msgs.take(q.msgs.len() as int) =~= q.msgs);
    match ev.kind {
        EventKind::QuestionAnswered { id, .. } => {
            lemma_last_question(q.msgs, id@);
            if let Some(i) = last_question(q.msgs, id@) {
                assert((i as usize) as int == i);
            }
        },
        EventKind::ToolResultCompacted { id, .. } => {
            lemma_last_tool_result(q.msgs, id@);
            if let Some(i) = last_tool_result(q.msgs, id@) {
                assert((i as usize) as int == i);
            }
        },
        _ => {},
    }
    let r = apply(p, ev);
    if !(r.1 matches ProjectionImpact::MsgsMutated { mutated_index: Some(_) }) {
        if r.0.msgs.len() > f.msgs.len() {
            assert(r.0.msgs.take(q.msgs.len() as int) =~= q.msgs);
        }
    }
}

/// Where the latest unanswered question stands in a log: the index of its
/// `QuestionAsked` event, cleared when an answer with the same id follows.
pub open spec fn open_question(events: Seq<Event>) -> Option<int>
    decreases events.len(),
{
    if events.len() == 0 {
        None
    } else {
        let prev = open_question(events.drop_last());
        match events.last().kind {
            EventKind::QuestionAsked { .. } => Some(events.len() - 1),
            EventKind::QuestionAnswered { id, .. } => match prev {
                Some(k) => match events[k].kind {
                    EventKind::QuestionAsked { id: asked, .. } => if asked@ == id@ {
                        None
                    } else {
                        prev
                    },
                    _ => prev,
                },
                None => None,
            },
            _ => prev,
        }
    }
}

proof fn lemma_open_question(events: Seq<Event>)
    ensures
        open_question(events) matches Some(k) ==> 0 <= k < events.len() && events[k].kind is QuestionAsked,
    decreases events.len(),
{
    if events.len() > 0 {
        lemma_open_question(events.drop_last());
    }
}

/// The index of the latest `QuestionAsked` event that no later
/// `QuestionAnswered` with its id has answered, if any.
pub fn latest_open_question(events: &Vec<Event>) -> (r: Option<usize>)
    ensures
        r matches Some(k) ==> open_question(events@) == Some(k as int) && k < events@.len(),
        r is None ==> open_question(events@) is None,
{
    let mut asked: Option<usize> = None;
    let mut i: usize = 0;
    while i < events.len()
        invariant
            i <= events@.len(),
            asked matches Some(k) ==> open_question(events@.take(i as int)) == Some(k as int) && k < i,
            asked is None ==> open_question(events@.take(i as int)) is None,
        decreases events@.len() - i,
    {
        proof {
            lemma_open_question(events@.take(i as int));
        }
        assert(events@.take(i + 1).drop_last() =~= events@.take(i as int));
        assert(events@.take(i + 1).last() == events@[i as int]);
        match &events[i].kind {
            EventKind::QuestionAsked { .. } => {
                asked = Some(i);
            },
            EventKind::QuestionAnswered { id, .. } => {
                if let Some(k) = asked {
                    assert(events@.take(i as int)[k as int] == events@[k as int]);
                    if let EventKind::QuestionAsked { id: asked_id, .. } = &events[k].kind {
                        if chars_eq(&chars_of(asked_id.as_str()), &chars_of(id.as_str())) {
                            asked = None;
                        }
                    }
                }
            },
            _ => {},
        }
        i += 1;
    }
    assert(events@.take(i as int) =~= events@);
    asked
}

/// The event is a failed tool result.
pub open spec fn is_tool_error(e: Event) -> bool {
    e.kind matches EventKind::ToolResult { is_error, .. } && is_error
}

/// The output of the most recent failed tool result, for a feedback
/// report's diagnostics; `None` when no tool call has failed.
pub fn latest_tool_error(events: &Vec<Event>) -> (r: Option<String>)
    ensures
        r is None <==> forall|k: int| 0 <= k < events@.len() ==> !is_tool_error(#[trigger] events@[k]),
        r matches Some(out) ==> exists|k: int|
            0 <= k < events@.len() && is_tool_error(#[trigger] events@[k]) && (forall|j: int|
                k < j < events@.len() ==> !is_tool_error(#[trigger] events@[j])) && (events@[k].kind matches EventKind::ToolResult {
                output,
                ..
            } && output@ == out@),
{
    let mut i: usize = events.len();
    while i > 0
        invariant
            i <= events@.len(),
            forall|j: int| i <= j < events@.len() ==> !is_tool_error(#[trigger] events@[j]),
        decreases i,
    {
        i -= 1;
        match &events[i].kind {
            EventKind::ToolResult { output, is_error, .. } => {
                if *is_error {
                    assert(is_tool_error(events@[i as int]));
                    return Some(output.clone());
                }
            },
            _ => {},
        }
    }
    None
}

/// The projection after applying each event of the log in turn to the
/// empty projection.
pub open spec fn fold_apply(events: Seq<Event>) -> ProjView
    decreases events.len(),
{
    if events.len() == 0 {
        empty_view()
    } else {
        apply(fold_apply(events.drop_last()), events.last()).0
    }
}

/// The token counts of the last event in the log that carries any.
pub open spec fn last_tokens(events: Seq<Event>) -> Option<TokenStat>
    decreases events.len(),
{
    if events.len() == 0 {
        None
    } else {
        match events.last().tokens {
            Some(t) => Some(t),
            None => last_tokens(events.drop_last()),
        }
    }
}

/// The last input and output counts a full rebuild reads from the log:
/// those of the last event carrying tokens, each only when non-zero.
pub open spec fn rebuilt_last_tokens(events: Seq<Event>) -> (Option<u64>, Option<u64>) {
    match last_tokens(events) {
        Some(t) => (
            if t.input > 0 { Some(t.input) } else { None },
            if t.output > 0 { Some(t.output) } else { None },
        ),
        None => (None, None),
    }
}

/// The ids of the questions asked in the log, approvals excepted, in order.
pub open spec fn asked_ids(events: Seq<Event>) -> Seq<Seq<char>>
    decreases events.len(),
{
    if events.len() == 0 {
        Seq::empty()
    } else {
        let head = asked_ids(events.drop_last());
        match events.last().kind {
            EventKind::QuestionAsked { id, kind, .. } => if kind is Approval {
                head
            } else {
                head.push(id@)
            },
            _ => head,
        }
    }
}

/// The last token counts a full rebuild of the projection reads from the
/// log: those of the last event that carries any, each kept only when
/// non-zero.
pub fn rebuild_last_tokens(events: &Vec<Event>) -> (r: (Option<u64>, Option<u64>))
    ensures
        r == rebuilt_last_tokens(events@),
{
    let mut i: usize = events.len();
    assert(events@.take(i as int) =~= events@);
    while i > 0
        invariant
            i <= events@.len(),
            last_tokens(events@) == last_tokens(events@.take(i as int)),
        decreases i,
    {
        assert(events@.take(i as int).drop_last() =~= events@.take(i - 1));
        match events[i - 1].tokens {
            Some(t) => {
                assert(last_tokens(events@.take(i as int)) == Some(t));
                let input = if t.input > 0 {
                    Some(t.input)
                } else {
                    None
                };
                let output = if t.output > 0 {
                    Some(t.output)
                } else {
                    None
                };
                return (input, output);
            },
            None => {},
        }
        i -= 1;
    }
    assert(events@.take(0) =~= Seq::<Event>::empty());
    (None, None)
}

/// The ids of the questions asked in the log, approvals excepted, as a
/// full rebuild of the projection collects them.
pub fn rebuild_question_ids(events: &Vec<Event>) -> (r: Vec<String>)
    ensures
        strs_view(r@) == asked_ids(events@),
{
    let mut out: Vec<String> = Vec::new();
    let mut i: usize = 0;
    while i < events.len()
        invariant
            i <= events@.len(),
            strs_view(out@) == asked_ids(events@.take(i as int)),
        decreases events@.len() - i,
    {
        assert(events@.take(i + 1).drop_last() =~= events@.take(i as int));
        assert(events@.take(i + 1).last() == events@[i as int]);
        match &events[i].kind {
            EventKind::QuestionAsked { id, kind, .. } => {
                match kind {
                    QuestionKind::Approval => {},
                    _ => {
                        let ghost before = out@;
                        out.push(id.clone());
                        assert(strs_view(out@) =~= strs_view(before).push(id@));
                    },
                }
            },
            _ => {},
        }
        i += 1;
    }
    assert(events@.take(i as int) =~= events@);
    out
}

proof fn lemma_apply_keeps_token_memory(p: ProjView, ev: Event)
    ensures
        apply(p, ev).0.last_input_tokens == add_tokens(p, ev.tokens).last_input_tokens,
        apply(p, ev).0.last_output_tokens == add_tokens(p, ev.tokens).last_output_tokens,
        apply(p, ev).0.question_ids == match ev.kind {
            EventKind::QuestionAsked { id, kind, .. } => if kind is Approval {
                p.question_ids
            } else {
                set_insert(p.question_ids, id@)
            },
            _ => p.question_ids,
        },
{
}

/// Applying the log one event at a time remembers the same last token
/// counts a full rebuild reads, when every event that carries tokens
/// counts some input and some output; and it knows the same asked
/// questions (approvals excepted), each once.
pub proof fn lemma_incremental_matches_rebuild(events: Seq<Event>)
    requires
        forall|k: int| 0 <= k < events.len() ==> (#[trigger] events[k].tokens matches Some(t) ==> t.input > 0
            && t.output > 0),
    ensures
        (fold_apply(events).last_input_tokens, fold_apply(events).last_output_tokens) == rebuilt_last_tokens(
            events,
        ),
        fold_apply(events).question_ids.to_set() == asked_ids(events).to_set(),
        fold_apply(events).question_ids.no_duplicates(),
    decreases events.len(),
{
    if events.len() > 0 {
        let init = events.drop_last();
        assert forall|k: int| 0 <= k < init.len() implies (#[trigger] init[k].tokens matches Some(t) ==> t.input
            > 0 && t.output > 0) by {
            assert(init[k] == events[k]);
        }
        lemma_incremental_matches_rebuild(init);
        let prev = fold_apply(init);
        let ev = events.last();
        assert(events[events.len() - 1] == ev);
        lemma_apply_keeps_token_memory(prev, ev);
        let ids = prev.question_ids;
        match ev.kind {
            EventKind::QuestionAsked { id, kind, .. } => {
                if !(kind is Approval) {
                    assert(set_insert(ids, id@).to_set() =~= ids.to_set().insert(id@)) by {
                        if !ids.contains(id@) {
                            assert forall|x: Seq<char>| #[trigger] ids.push(id@).contains(x) <==> ids.contains(x) || x == id@ by {
                                if ids.push(id@).contains(x) {
                                    let j = choose|j: int| 0 <= j < ids.push(id@).len() && ids.push(id@)[j] == x;
                                    if j < ids.len() {
                                        assert(ids[j] == x);
                                    }
                                }
                                if ids.contains(x) {
                                    let j = choose|j: int| 0 <= j < ids.len() && ids[j] == x;
                                    assert(ids.push(id@)[j] == x);
                                }
                                if x == id@ {
                                    assert(ids.push(id@)[ids.len() as int] == x);
                                }
                            }
                        }
                    }
                    let h = asked_ids(init);
                    assert(h.push(id@).to_set() =~= h.to_set().insert(id@)) by {
                        assert forall|x: Seq<char>| #[trigger] h.push(id@).contains(x) <==> h.contains(x) || x == id@ by {
                            if h.push(id@).contains(x) {
                                let j = choose|j: int| 0 <= j < h.push(id@).len() && h.push(id@)[j] == x;
                                if j < h.len() {
                                    assert(h[j] == x);
                                }
                            }
                            if h.contains(x) {
                                let j = choose|j: int| 0 <= j < h.len() && h[j] == x;
                                assert(h.push(id@)[j] == x);
                            }
                            if x == id@ {
                                assert(h.push(id@)[h.len() as int] == x);
                            }
                        }
                    }
                    if !ids.contains(id@) {
                        assert(ids.push(id@).no_duplicates()) by {
                            assert forall|a: int, b: int| 0 <= a < b < ids.push(id@).len() implies ids.push(id@)[a]
                                != ids.push(id@)[b] by {
                                if b == ids.len() {
                                    assert(ids[a] == ids.push(id@)[a]);
                                }
                            }
                        }
                    }
                }
            },
            _ => {},
        }
    }
}

/// A tool result that answers no open question is shown as a new last
/// message carrying the call's id, tool name, output and success or
/// failure exactly as the event reports them, not yet compacted, stamped
/// with the event's time; no earlier message is lost.
pub proof fn lemma_tool_result_shows_its_outcome(
    p: ProjView,
    ts: i64,
    tokens: Option<TokenStat>,
    id: String,
    name: String,
    output: String,
    is_error: bool,
)
    requires
        !p.question_ids.contains(id@),
    ensures
        ({
            let q = apply(p, Event { ts, tokens, kind: EventKind::ToolResult { id, name, output, is_error } }).0;
            &&& q.msgs.len() >= p.msgs.len() + 1
            &&& q.msgs.last() == MsgView::ToolResult {
                id: id@,
                name: name@,
                output: output@,
                is_error: is_error,
                compacted: false,
                ts: ts,
            }
            &&& q.msgs.take(p.msgs.len() as int) == p.msgs
        }),
{
    let ev = Event { ts, tokens, kind: EventKind::ToolResult { id, name, output, is_error } };
    let a = add_tokens(p, tokens);
    assert(a.msgs == p.msgs && a.question_ids == p.question_ids);
    let f = flush(a).0;
    assert(f.question_ids == p.question_ids);
    assert(f.msgs.len() >= p.msgs.len());
    assert(f.msgs.take(p.msgs.len() as int) =~= p.msgs);
    let q = apply(p, ev).0;
    assert(q.msgs == f.msgs.push(
        MsgView::ToolResult { id: id@, name: name@, output: output@, is_error, compacted: false, ts },
    ));
    assert(q.msgs.take(p.msgs.len() as int) =~= p.msgs);
}

} // verus!
