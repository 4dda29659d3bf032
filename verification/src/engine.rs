//! The decisions of the agentic loop: how one streamed turn becomes an
//! assistant message, which tools run, and what goes back to the model.
use vstd::prelude::*;

use crate::conversation::{
    blocks_view, copy_blocks, BlockView, ContentBlock, Conversation, ConversationView, Message,
    MessageView, Role,
};
use crate::errors::{error_text, AppError, AppErrorView};
use crate::json::{json_parse, parse_json, Json, JsonView};
use crate::provider::{events_view, PermissionLevel, StopReason, StreamEvent, StreamEventView};
use crate::text::{concat, push_str, to_string};

verus! {

/// Events emitted to callers for live display.
pub enum EngineEvent {
    TextDelta(String),
    ToolStart { name: String, id: String },
    ToolInput { json_chunk: String },
    ToolResult { name: String, output: String, is_error: bool },
    TurnComplete,
    Error(String),
}

pub enum EngineEventView {
    TextDelta(Seq<char>),
    ToolStart { name: Seq<char>, id: Seq<char> },
    ToolInput { json_chunk: Seq<char> },
    ToolResult { name: Seq<char>, output: Seq<char>, is_error: bool },
    TurnComplete,
    Error(Seq<char>),
}

impl View for EngineEvent {
    type V = EngineEventView;

    open spec fn view(&self) -> EngineEventView {
        match self {
            EngineEvent::TextDelta(t) => EngineEventView::TextDelta(t@),
            EngineEvent::ToolStart { name, id } => EngineEventView::ToolStart {
                name: name@,
                id: id@,
            },
            EngineEvent::ToolInput { json_chunk } => EngineEventView::ToolInput {
                json_chunk: json_chunk@,
            },
            EngineEvent::ToolResult { name, output, is_error } => EngineEventView::ToolResult {
                name: name@,
                output: output@,
                is_error: *is_error,
            },
            EngineEvent::TurnComplete => EngineEventView::TurnComplete,
            EngineEvent::Error(m) => EngineEventView::Error(m@),
        }
    }
}

/// Turns the engine may take before giving up.
pub const MAX_TURNS: usize = 20;

// ---------------------------------------------------------------------------
// One streamed turn
// ---------------------------------------------------------------------------

/// What has been read of a turn so far: the finished blocks, the tool use being
/// streamed, the text not yet put in a block, and the stop reason.
pub struct TurnModel {
    pub blocks: Seq<BlockView>,
    pub tool_id: Seq<char>,
    pub tool_name: Seq<char>,
    pub tool_json: Seq<char>,
    pub text: Seq<char>,
    pub stop: StopReason,
}

pub open spec fn turn_start() -> TurnModel {
    TurnModel {
        blocks: Seq::empty(),
        tool_id: Seq::empty(),
        tool_name: Seq::empty(),
        tool_json: Seq::empty(),
        text: Seq::empty(),
        stop: StopReason::EndTurn,
    }
}

/// The turn after one more stream event.
pub open spec fn turn_step(m: TurnModel, ev: StreamEventView) -> TurnModel {
    match ev {
        StreamEventView::ContentDelta { text } => TurnModel { text: m.text + text, ..m },
        StreamEventView::ToolUseStart { id, name } => TurnModel {
            blocks: if m.text.len() > 0 {
                m.blocks.push(BlockView::Text { text: m.text })
            } else {
                m.blocks
            },
            text: Seq::empty(),
            tool_id: id,
            tool_name: name,
            tool_json: Seq::empty(),
            ..m
        },
        StreamEventView::ToolUseDelta { json_chunk } => TurnModel {
            tool_json: m.tool_json + json_chunk,
            ..m
        },
        StreamEventView::Stop { reason } => TurnModel { stop: reason, ..m },
        StreamEventView::Error { .. } => m,
    }
}

/// The turn after a sequence of stream events.
pub open spec fn turn_fold(evs: Seq<StreamEventView>) -> TurnModel
    decreases evs.len(),
{
    if evs.len() == 0 {
        turn_start()
    } else {
        turn_step(turn_fold(evs.drop_last()), evs.last())
    }
}

/// What the caller is shown for a stream event: every event but a stop is
/// passed on with the same text.
pub open spec fn turn_emit(ev: StreamEventView) -> Option<EngineEventView> {
    match ev {
        StreamEventView::ContentDelta { text } => Some(EngineEventView::TextDelta(text)),
        StreamEventView::ToolUseStart { id, name } => Some(
            EngineEventView::ToolStart { name: name, id: id },
        ),
        StreamEventView::ToolUseDelta { json_chunk } => Some(
            EngineEventView::ToolInput { json_chunk: json_chunk },
        ),
        StreamEventView::Stop { .. } => None,
        StreamEventView::Error { message } => Some(EngineEventView::Error(message)),
    }
}

/// The input of a streamed tool use: its JSON text read as JSON, or an empty
/// object when the text is not JSON.
pub open spec fn tool_input(json: Seq<char>) -> JsonView {
    match json_parse(json) {
        Ok(v) => v,
        Err(_) => JsonView::Object(Seq::empty()),
    }
}

/// The blocks of the assistant message once the stream has ended: the text
/// still pending, then the tool use being streamed, if any.
pub open spec fn turn_blocks(m: TurnModel) -> Seq<BlockView> {
    let b1 = if m.text.len() > 0 {
        m.blocks.push(BlockView::Text { text: m.text })
    } else {
        m.blocks
    };
    if m.tool_id.len() > 0 {
        b1.push(
            BlockView::ToolUse { id: m.tool_id, name: m.tool_name, input: tool_input(m.tool_json) },
        )
    } else {
        b1
    }
}

/// What to do after a stream event.
pub enum StreamStep {
    /// Show the event, if any, and read on.
    Continue(Option<EngineEvent>),
    /// Show the error event and end the run with the provider error.
    Abort(EngineEvent, AppError),
}

/// The accumulated state of a turn being streamed.
pub struct TurnState {
    blocks: Vec<ContentBlock>,
    tool_id: String,
    tool_name: String,
    tool_json: String,
    text: String,
    stop: StopReason,
}

impl View for TurnState {
    type V = TurnModel;

    closed spec fn view(&self) -> TurnModel {
        TurnModel {
            blocks: blocks_view(self.blocks@),
            tool_id: self.tool_id@,
            tool_name: self.tool_name@,
            tool_json: self.tool_json@,
            text: self.text@,
            stop: self.stop,
        }
    }
}

impl TurnState {
    /// The state before any event.
    pub fn new() -> (t: TurnState)
        ensures
            t@ == turn_start(),
    {
        let t = TurnState {
            blocks: Vec::new(),
            tool_id: String::new(),
            tool_name: String::new(),
            tool_json: String::new(),
            text: String::new(),
            stop: StopReason::EndTurn,
        };
        assert(blocks_view(t.blocks@) =~= Seq::<BlockView>::empty());
        t
    }

    /// Takes in one stream event.
    pub fn on_event(&mut self, ev: StreamEvent) -> (step: StreamStep)
        ensures
            final(self)@ == turn_step(old(self)@, ev@),
            match step {
                StreamStep::Continue(e) => !(ev@ is Error) && match e {
                    Some(x) => turn_emit(ev@) == Some(x@),
                    None => turn_emit(ev@) is None,
                },
                StreamStep::Abort(e, err) => ev@ matches StreamEventView::Error { message } && e@
                    == EngineEventView::Error(message) && err@ == AppErrorView::Provider(message),
            },
    {
        match ev {
            StreamEvent::ContentDelta { text } => {
                let shown = text.clone();
                push_str(&mut self.text, text.as_str());
                StreamStep::Continue(Some(EngineEvent::TextDelta(shown)))
            },
            StreamEvent::ToolUseStart { id, name } => {
                if !self.text.as_str().is_empty() {
                    let t = self.text.clone();
                    let ghost before = self.blocks@;
                    self.blocks.push(ContentBlock::Text { text: t });
                    proof {
                        assert(blocks_view(self.blocks@) =~= blocks_view(before).push(
                            BlockView::Text { text: old(self).text@ },
                        ));
                    }
                }
                self.text = String::new();
                let shown = EngineEvent::ToolStart { name: name.clone(), id: id.clone() };
                self.tool_id = id;
                self.tool_name = name;
                self.tool_json = String::new();
                StreamStep::Continue(Some(shown))
            },
            StreamEvent::ToolUseDelta { json_chunk } => {
                let shown = json_chunk.clone();
                push_str(&mut self.tool_json, json_chunk.as_str());
                StreamStep::Continue(Some(EngineEvent::ToolInput { json_chunk: shown }))
            },
            StreamEvent::Stop { reason } => {
                self.stop = reason;
                StreamStep::Continue(None)
            },
            StreamEvent::Error { message } => {
                let shown = message.clone();
                StreamStep::Abort(EngineEvent::Error(shown), AppError::Provider(message))
            },
        }
    }

    /// The assistant blocks and the stop reason once the stream has ended.
    pub fn finish(self) -> (r: (Vec<ContentBlock>, StopReason))
        ensures
            blocks_view(r.0@) == turn_blocks(self@),
            r.1 == self@.stop,
    {
        let TurnState { mut blocks, tool_id, tool_name, tool_json, text, stop } = self;
        if !text.as_str().is_empty() {
            let ghost before = blocks@;
            blocks.push(ContentBlock::Text { text });
            proof {
                assert(blocks_view(blocks@) =~= blocks_view(before).push(
                    BlockView::Text { text: self.text@ },
                ));
            }
        }
        if !tool_id.as_str().is_empty() {
            let input = match parse_json(tool_json.as_str()) {
                Ok(v) => v,
                Err(_) => Json::Object(Vec::new()),
            };
            proof {
                if !(json_parse(tool_json@) is Ok) {
                    assert(crate::json::json_members_view(Seq::<(String, Json)>::empty())
                        =~= Seq::<(Seq<char>, JsonView)>::empty());
                }
            }
            let ghost before = blocks@;
            let ghost b = ContentBlock::ToolUse { id: tool_id, name: tool_name, input };
            blocks.push(ContentBlock::ToolUse { id: tool_id, name: tool_name, input });
            proof {
                assert(blocks_view(blocks@) =~= blocks_view(before).push(b@));
            }
        }
        (blocks, stop)
    }
}

/// Runs the events of a whole stream through a fresh turn: the blocks and
/// stop reason of the turn, or the error of the first error event.
pub open spec fn turn_outcome(evs: Seq<StreamEventView>) -> Result<
    (Seq<BlockView>, StopReason),
    Seq<char>,
> {
    if exists|i: int| 0 <= i < evs.len() && evs[i] is Error {
        let i = choose|i: int|
            0 <= i < evs.len() && evs[i] is Error && forall|j: int|
                0 <= j < i ==> !(evs[j] is Error);
        Err(evs[i]->Error_message)
    } else {
        let m = turn_fold(evs);
        Ok((turn_blocks(m), m.stop))
    }
}

/// The first error event of a stream is the one [`turn_outcome`] reports.
proof fn lemma_first_error(evs: Seq<StreamEventView>, i: int)
    requires
        0 <= i < evs.len(),
        evs[i] is Error,
        forall|j: int| 0 <= j < i ==> !(#[trigger] evs[j] is Error),
    ensures
        turn_outcome(evs) == Err::<(Seq<BlockView>, StopReason), Seq<char>>(evs[i]->Error_message),
{
    let k = choose|k: int|
        0 <= k < evs.len() && evs[k] is Error && forall|j: int| 0 <= j < k ==> !(evs[j] is Error);
    assert(0 <= i < evs.len() && evs[i] is Error && forall|j: int| 0 <= j < i ==> !(evs[j] is Error));
    if k < i {
        assert(!(evs[k] is Error));
    }
    if i < k {
        assert(!(evs[i] is Error));
    }
}

/// Runs a whole stream of events through a fresh turn: the assistant blocks
/// and the stop reason, or the provider error of the first error event.
pub fn collect_turn(events: &Vec<StreamEvent>) -> (r: Result<(Vec<ContentBlock>, StopReason), AppError>)
    ensures
        match r {
            Ok((b, s)) => turn_outcome(events_view(events@)) == Ok::<
                (Seq<BlockView>, StopReason),
                Seq<char>,
            >((blocks_view(b@), s)),
            Err(e) => turn_outcome(events_view(events@)) matches Err(m) && e@
                == AppErrorView::Provider(m),
        },
{
    let ghost evs = events_view(events@);
    let mut state = TurnState::new();
    let mut i: usize = 0;
    while i < events.len()
        invariant
            i <= events.len(),
            evs == events_view(events@),
            state@ == turn_fold(evs.take(i as int)),
            forall|j: int| 0 <= j < i ==> !(#[trigger] evs[j] is Error),
        decreases events.len() - i,
    {
        let ev = events[i].copy();
        proof {
            assert(evs.take(i + 1).drop_last() =~= evs.take(i as int));
            assert(evs.take(i + 1).last() == evs[i as int]);
        }
        match state.on_event(ev) {
            StreamStep::Continue(_) => {},
            StreamStep::Abort(_, err) => {
                proof {
                    lemma_first_error(evs, i as int);
                }
                return Err(err);
            },
        }
        i = i + 1;
    }
    proof {
        assert(evs.take(events.len() as int) =~= evs);
    }
    let (blocks, stop) = state.finish();
    Ok((blocks, stop))
}

/// The text of the content deltas of a stream, in order.
pub open spec fn delta_text(evs: Seq<StreamEventView>) -> Seq<char>
    decreases evs.len(),
{
    if evs.len() == 0 {
        Seq::empty()
    } else {
        delta_text(evs.drop_last()) + match evs.last() {
            StreamEventView::ContentDelta { text } => text,
            _ => Seq::empty(),
        }
    }
}

/// A stream of text deltas and stop events makes an assistant message with one
/// text block holding all the text in order (none when there is no text), and
/// the last stop reason.
pub proof fn text_only_turn(evs: Seq<StreamEventView>)
    requires
        forall|i: int| 0 <= i < evs.len() ==> (#[trigger] evs[i] is ContentDelta || evs[i] is Stop),
    ensures
        turn_fold(evs).blocks == Seq::<BlockView>::empty(),
        turn_fold(evs).tool_id == Seq::<char>::empty(),
        turn_fold(evs).text == delta_text(evs),
        turn_blocks(turn_fold(evs)) == if delta_text(evs).len() > 0 {
            seq![BlockView::Text { text: delta_text(evs) }]
        } else {
            Seq::<BlockView>::empty()
        },
    decreases evs.len(),
{
    if evs.len() > 0 {
        let p = evs.drop_last();
        assert forall|i: int| 0 <= i < p.len() implies (#[trigger] p[i] is ContentDelta || p[i] is Stop) by {
            assert(p[i] == evs[i]);
        }
        text_only_turn(p);
        assert(evs.last() == evs[evs.len() - 1]);
    }
    assert(Seq::<BlockView>::empty().push(BlockView::Text { text: delta_text(evs) }) =~= seq![
        BlockView::Text { text: delta_text(evs) },
    ]);
}

// ---------------------------------------------------------------------------
// After the stream
// ---------------------------------------------------------------------------

/// A tool use to execute.
pub struct ToolCall {
    pub id: String,
    pub name: String,
    pub input: Json,
}

pub struct ToolCallView {
    pub id: Seq<char>,
    pub name: Seq<char>,
    pub input: JsonView,
}

impl View for ToolCall {
    type V = ToolCallView;

    open spec fn view(&self) -> ToolCallView {
        ToolCallView { id: self.id@, name: self.name@, input: self.input@ }
    }
}

pub open spec fn calls_view(v: Seq<ToolCall>) -> Seq<ToolCallView> {
    v.map_values(|c: ToolCall| c@)
}

/// The tool uses among `blocks`, in order.
pub open spec fn tool_calls_of(blocks: Seq<BlockView>) -> Seq<ToolCallView>
    decreases blocks.len(),
{
    if blocks.len() == 0 {
        Seq::empty()
    } else {
        let rest = tool_calls_of(blocks.drop_last());
        match blocks.last() {
            BlockView::ToolUse { id, name, input } => rest.push(
                ToolCallView { id: id, name: name, input: input },
            ),
            _ => rest,
        }
    }
}

/// How a turn ends.
pub enum TurnEnd {
    /// The model is done: show `TurnComplete` and return the conversation.
    Complete,
    /// The model asked for tools: run these, in order.
    RunTools(Vec<ToolCall>),
}

/// The conversation with the assistant's message of a turn appended.
pub open spec fn with_assistant(c: ConversationView, blocks: Seq<BlockView>) -> ConversationView {
    ConversationView {
        system: c.system,
        messages: c.messages.push(MessageView { role: Role::Assistant, content: blocks }),
    }
}

/// The conversation with the tools' results appended as a user message.
pub open spec fn with_results(c: ConversationView, results: Seq<BlockView>) -> ConversationView {
    ConversationView {
        system: c.system,
        messages: c.messages.push(MessageView { role: Role::User, content: results }),
    }
}

/// The conversation after the rounds of a run that asked for tools: each round
/// adds the assistant's blocks and then the tools' results.
pub open spec fn after_rounds(
    c: ConversationView,
    rounds: Seq<(Seq<BlockView>, Seq<BlockView>)>,
) -> ConversationView
    decreases rounds.len(),
{
    if rounds.len() == 0 {
        c
    } else {
        with_results(
            with_assistant(after_rounds(c, rounds.drop_last()), rounds.last().0),
            rounds.last().1,
        )
    }
}

/// The conversation after a run: its rounds, then the assistant's final blocks.
pub open spec fn after_run(
    c: ConversationView,
    rounds: Seq<(Seq<BlockView>, Seq<BlockView>)>,
    last: Seq<BlockView>,
) -> ConversationView {
    with_assistant(after_rounds(c, rounds), last)
}

proof fn lemma_rounds_shape(c: ConversationView, rounds: Seq<(Seq<BlockView>, Seq<BlockView>)>)
    ensures
        after_rounds(c, rounds).system == c.system,
        after_rounds(c, rounds).messages.len() == c.messages.len() + 2 * rounds.len(),
        forall|j: int| 0 <= j < c.messages.len() ==> after_rounds(c, rounds).messages[j] == c.messages[j],
        forall|i: int|
            0 <= i < rounds.len() ==> after_rounds(c, rounds).messages[c.messages.len() + 2 * i] == (
            MessageView { role: Role::Assistant, content: (#[trigger] rounds[i]).0 })
                && after_rounds(c, rounds).messages[c.messages.len() + 2 * i + 1] == (MessageView {
                role: Role::User,
                content: rounds[i].1,
            }),
    decreases rounds.len(),
{
    if rounds.len() > 0 {
        let init = rounds.drop_last();
        lemma_rounds_shape(c, init);
        let p = after_rounds(c, init);
        let a = after_rounds(c, rounds);
        let n = c.messages.len();
        assert(a.messages == p.messages.push(MessageView { role: Role::Assistant, content: rounds.last().0 }).push(
            MessageView { role: Role::User, content: rounds.last().1 },
        ));
        assert forall|j: int| 0 <= j < n implies a.messages[j] == c.messages[j] by {
            assert(a.messages[j] == p.messages[j]);
        }
        assert forall|i: int| 0 <= i < rounds.len() implies a.messages[n + 2 * i] == (MessageView {
            role: Role::Assistant,
            content: (#[trigger] rounds[i]).0,
        }) && a.messages[n + 2 * i + 1] == (MessageView { role: Role::User, content: rounds[i].1 }) by {
            if i < rounds.len() - 1 {
                assert(init[i] == rounds[i]);
                assert(a.messages[n + 2 * i] == p.messages[n + 2 * i]);
                assert(a.messages[n + 2 * i + 1] == p.messages[n + 2 * i + 1]);
            }
        }
    }
}

/// A run keeps the system prompt and the earlier messages, and appends
/// messages that alternate between the assistant and the user, starting and
/// ending with the assistant: each round's blocks and results in order, then
/// the final blocks.
pub proof fn run_shape(
    c: ConversationView,
    rounds: Seq<(Seq<BlockView>, Seq<BlockView>)>,
    last: Seq<BlockView>,
)
    ensures
        after_run(c, rounds, last).system == c.system,
        c.messages.is_prefix_of(after_run(c, rounds, last).messages),
        after_run(c, rounds, last).messages.len() == c.messages.len() + 2 * rounds.len() + 1,
        forall|k: int|
            0 <= k <= 2 * rounds.len() ==> #[trigger] after_run(c, rounds, last).messages[c.messages.len()
                + k].role == if k % 2 == 0 {
                Role::Assistant
            } else {
                Role::User
            },
        forall|i: int|
            0 <= i < rounds.len() ==> after_run(c, rounds, last).messages[c.messages.len() + 2 * i].content
                == #[trigger] rounds[i].0 && after_run(c, rounds, last).messages[c.messages.len() + 2 * i
                + 1].content == rounds[i].1,
        after_run(c, rounds, last).messages.last() == (MessageView { role: Role::Assistant, content: last }),
{
    lemma_rounds_shape(c, rounds);
    let a = after_rounds(c, rounds);
    let r = after_run(c, rounds, last);
    let n = c.messages.len();
    assert(r.messages == a.messages.push(MessageView { role: Role::Assistant, content: last }));
    assert forall|j: int| 0 <= j < n implies r.messages[j] == c.messages[j] by {
        assert(r.messages[j] == a.messages[j]);
    }
    assert(c.messages.is_prefix_of(r.messages));
    assert forall|k: int| 0 <= k <= 2 * rounds.len() implies #[trigger] r.messages[n + k].role == if k % 2
        == 0 {
        Role::Assistant
    } else {
        Role::User
    } by {
        if k < 2 * rounds.len() {
            let i = k / 2;
            assert(k == 2 * i + k % 2);
            assert(0 <= i < rounds.len());
            assert(rounds[i] == rounds[i]);
            assert(r.messages[n + 2 * i] == a.messages[n + 2 * i]);
            assert(r.messages[n + 2 * i + 1] == a.messages[n + 2 * i + 1]);
        }
    }
    assert forall|i: int| 0 <= i < rounds.len() implies r.messages[n + 2 * i].content
        == #[trigger] rounds[i].0 && r.messages[n + 2 * i + 1].content == rounds[i].1 by {
        assert(r.messages[n + 2 * i] == a.messages[n + 2 * i]);
        assert(r.messages[n + 2 * i + 1] == a.messages[n + 2 * i + 1]);
    }
}

/// Appends the tools' results to the conversation as a user message.
pub fn record_results(conversation: &mut Conversation, results: Vec<ContentBlock>)
    ensures
        final(conversation)@ == with_results(old(conversation)@, blocks_view(results@)),
{
    conversation.push(results_message(results));
}

/// Records the assistant's blocks in the conversation and decides how the turn
/// ends: unless the model stopped to use tools, the run is complete.
pub fn end_turn(conversation: &mut Conversation, blocks: Vec<ContentBlock>, stop: StopReason) -> (r:
    TurnEnd)
    ensures
        final(conversation)@ == with_assistant(old(conversation)@, blocks_view(blocks@)),
        stop != StopReason::ToolUse ==> r is Complete,
        stop == StopReason::ToolUse ==> (r matches TurnEnd::RunTools(calls) && calls_view(calls@)
            == tool_calls_of(blocks_view(blocks@))),
{
    let kept = copy_blocks(&blocks);
    conversation.push(Message::assistant(blocks));
    if stop != StopReason::ToolUse {
        return TurnEnd::Complete;
    }
    let mut calls: Vec<ToolCall> = Vec::new();
    let mut i: usize = 0;
    while i < kept.len()
        invariant
            i <= kept.len(),
            calls_view(calls@) == tool_calls_of(blocks_view(kept@.take(i as int))),
        decreases kept.len() - i,
    {
        proof {
            assert(blocks_view(kept@.take(i + 1)).drop_last() =~= blocks_view(
                kept@.take(i as int),
            ));
            assert(blocks_view(kept@.take(i + 1)).last() == kept@[i as int]@);
        }
        match &kept[i] {
            ContentBlock::ToolUse { id, name, input } => {
                let c = ToolCall { id: id.clone(), name: name.clone(), input: input.copy() };
                proof {
                    assert(calls_view(calls@.push(c)) =~= calls_view(calls@).push(c@));
                }
                calls.push(c);
            },
            _ => {},
        }
        i = i + 1;
    }
    proof {
        assert(kept@.take(kept@.len() as int) =~= kept@);
    }
    TurnEnd::RunTools(calls)
}

/// The result block and the event for one executed tool: the output on
/// success, the error's text (flagged as an error) on failure.
pub fn tool_result(call: &ToolCall, outcome: Result<String, AppError>) -> (r: (
    EngineEvent,
    ContentBlock,
))
    ensures
        match outcome {
            Ok(out) => r.0@ == (EngineEventView::ToolResult {
                name: call.name@,
                output: out@,
                is_error: false,
            }) && r.1@ == (BlockView::ToolResult {
                tool_use_id: call.id@,
                content: out@,
                is_error: None,
            }),
            Err(e) => r.0@ == (EngineEventView::ToolResult {
                name: call.name@,
                output: error_text(e@),
                is_error: true,
            }) && r.1@ == (BlockView::ToolResult {
                tool_use_id: call.id@,
                content: error_text(e@),
                is_error: Some(true),
            }),
        },
{
    match outcome {
        Ok(output) => (
            EngineEvent::ToolResult { name: call.name.clone(), output: output.clone(), is_error: false },
            ContentBlock::ToolResult { tool_use_id: call.id.clone(), content: output, is_error: None },
        ),
        Err(e) => {
            let msg = e.message();
            (
                EngineEvent::ToolResult { name: call.name.clone(), output: msg.clone(), is_error: true },
                ContentBlock::ToolResult {
                    tool_use_id: call.id.clone(),
                    content: msg,
                    is_error: Some(true),
                },
            )
        },
    }
}

/// The user message that carries the tool results back to the model.
pub fn results_message(results: Vec<ContentBlock>) -> (m: Message)
    ensures
        m@ == (MessageView { role: Role::User, content: blocks_view(results@) }),
{
    Message { role: Role::User, content: results }
}

/// The error that ends a run that used up its turns.
pub fn turns_exhausted(max_turns: usize) -> (e: AppError)
    ensures
        e@ == AppErrorView::MaxTurnsExceeded(max_turns),
{
    AppError::MaxTurnsExceeded(max_turns)
}

// ---------------------------------------------------------------------------
// A whole run
// ---------------------------------------------------------------------------

/// A run of the agentic loop: the conversation so far and the turns begun.
/// Each turn records the assistant's blocks; a turn that asked for tools then
/// records their results, and the next turn begins, up to the turn limit.
pub struct AgentRun {
    conversation: Conversation,
    turns: usize,
    max_turns: usize,
    start: Ghost<ConversationView>,
    rounds: Ghost<Seq<(Seq<BlockView>, Seq<BlockView>)>>,
    last: Ghost<Option<Seq<BlockView>>>,
    done: Ghost<bool>,
}

impl AgentRun {
    /// The conversation the run started from.
    pub closed spec fn start(&self) -> ConversationView {
        self.start@
    }

    /// The rounds that asked for tools, with their results.
    pub closed spec fn rounds(&self) -> Seq<(Seq<BlockView>, Seq<BlockView>)> {
        self.rounds@
    }

    /// The assistant's blocks of the turn that ended last, until its results
    /// are recorded.
    pub closed spec fn last(&self) -> Option<Seq<BlockView>> {
        self.last@
    }

    /// Whether the last turn ended the run.
    pub closed spec fn done(&self) -> bool {
        self.done@
    }

    /// The turns begun so far.
    pub closed spec fn turns(&self) -> nat {
        self.turns as nat
    }

    /// The most turns the run may begin.
    pub closed spec fn max_turns(&self) -> nat {
        self.max_turns as nat
    }

    /// The conversation so far.
    pub closed spec fn conversation_view(&self) -> ConversationView {
        self.conversation@
    }

    /// The run's conversation is its start, then its rounds, then the blocks of
    /// the turn that ended last; no more turns are begun than allowed.
    pub closed spec fn wf(&self) -> bool {
        &&& self.turns <= self.max_turns
        &&& self.rounds@.len() <= self.turns
        &&& self.done@ ==> self.last@ is Some
        &&& match self.last@ {
            None => self.conversation@ == after_rounds(self.start@, self.rounds@),
            Some(b) => self.rounds@.len() < self.turns && self.conversation@ == after_run(
                self.start@,
                self.rounds@,
                b,
            ),
        }
    }

    /// A run from `conversation` that may begin `max_turns` turns.
    pub fn new(conversation: Conversation, max_turns: usize) -> (r: AgentRun)
        ensures
            r.wf(),
            r.start() == conversation@,
            r.conversation_view() == conversation@,
            r.rounds() == Seq::<(Seq<BlockView>, Seq<BlockView>)>::empty(),
            r.last() is None,
            !r.done(),
            r.turns() == 0,
            r.max_turns() == max_turns,
    {
        let ghost c = conversation@;
        AgentRun {
            conversation,
            turns: 0,
            max_turns,
            start: Ghost(c),
            rounds: Ghost(Seq::empty()),
            last: Ghost(None),
            done: Ghost(false),
        }
    }

    /// The conversation so far.
    pub fn conversation(&self) -> (r: &Conversation)
        ensures
            r@ == self.conversation_view(),
    {
        &self.conversation
    }

    /// Begins the next turn and gives its number, counting from 0; once the
    /// run has begun all its turns, the run fails with the turn limit.
    pub fn begin_turn(&mut self) -> (r: Result<usize, AppError>)
        requires
            old(self).wf(),
            old(self).last() is None,
        ensures
            final(self).wf(),
            final(self).start() == old(self).start(),
            final(self).rounds() == old(self).rounds(),
            final(self).conversation_view() == old(self).conversation_view(),
            final(self).last() is None,
            final(self).done() == old(self).done(),
            final(self).max_turns() == old(self).max_turns(),
            old(self).turns() < old(self).max_turns() ==> r == Ok::<usize, AppError>(
                old(self).turns() as usize,
            ) && final(self).turns() == old(self).turns() + 1,
            old(self).turns() >= old(self).max_turns() ==> (r matches Err(e) && e@
                == AppErrorView::MaxTurnsExceeded(old(self).max_turns() as usize))
                && final(self).turns() == old(self).turns(),
    {
        if self.turns >= self.max_turns {
            return Err(turns_exhausted(self.max_turns));
        }
        let t = self.turns;
        self.turns = t + 1;
        Ok(t)
    }

    /// Records the assistant's blocks of the turn begun last and decides how the
    /// turn ends: unless the model stopped to use tools, the run is complete.
    pub fn finish_turn(&mut self, blocks: Vec<ContentBlock>, stop: StopReason) -> (r: TurnEnd)
        requires
            old(self).wf(),
            old(self).last() is None,
            old(self).rounds().len() < old(self).turns(),
        ensures
            final(self).wf(),
            final(self).start() == old(self).start(),
            final(self).rounds() == old(self).rounds(),
            final(self).turns() == old(self).turns(),
            final(self).max_turns() == old(self).max_turns(),
            final(self).last() == Some(blocks_view(blocks@)),
            final(self).done() == (stop != StopReason::ToolUse),
            final(self).conversation_view() == after_run(
                old(self).start(),
                old(self).rounds(),
                blocks_view(blocks@),
            ),
            stop != StopReason::ToolUse ==> r is Complete,
            stop == StopReason::ToolUse ==> (r matches TurnEnd::RunTools(calls) && calls_view(calls@)
                == tool_calls_of(blocks_view(blocks@))),
    {
        let ghost bv = blocks_view(blocks@);
        let r = end_turn(&mut self.conversation, blocks, stop);
        self.last = Ghost(Some(bv));
        self.done = Ghost(stop != StopReason::ToolUse);
        r
    }

    /// Records the results of the tools that the last turn asked for, as the
    /// user message that ends the round.
    pub fn add_results(&mut self, results: Vec<ContentBlock>)
        requires
            old(self).wf(),
            old(self).last() is Some,
            !old(self).done(),
        ensures
            final(self).wf(),
            final(self).start() == old(self).start(),
            final(self).rounds() == old(self).rounds().push((old(self).last()->0, blocks_view(results@))),
            final(self).last() is None,
            !final(self).done(),
            final(self).turns() == old(self).turns(),
            final(self).max_turns() == old(self).max_turns(),
            final(self).conversation_view() == after_rounds(final(self).start(), final(self).rounds()),
    {
        let ghost b = self.last@->0;
        let ghost rv = blocks_view(results@);
        let ghost rs = self.rounds@.push((b, rv));
        record_results(&mut self.conversation, results);
        proof {
            assert(rs.drop_last() =~= self.rounds@);
            assert(rs.last() == (b, rv));
        }
        self.rounds = Ghost(rs);
        self.last = Ghost(None);
    }

    /// The conversation at the end of the run.
    pub fn into_conversation(self) -> (c: Conversation)
        ensures
            c@ == self.conversation_view(),
    {
        self.conversation
    }
}

/// A run that ends keeps its start as a prefix and adds one round per turn that
/// asked for tools, then the final blocks; it began no more turns than allowed,
/// and every round took a turn of its own.
pub proof fn finished_run_shape(run: AgentRun)
    requires
        run.wf(),
        run.done(),
    ensures
        run.conversation_view() == after_run(run.start(), run.rounds(), run.last()->0),
        run.start().messages.is_prefix_of(run.conversation_view().messages),
        run.conversation_view().system == run.start().system,
        run.conversation_view().messages.len() == run.start().messages.len() + 2 * run.rounds().len() + 1,
        run.rounds().len() < run.turns() <= run.max_turns(),
{
    run_shape(run.start(), run.rounds(), run.last()->0);
}

// ---------------------------------------------------------------------------
// Executing one tool
// ---------------------------------------------------------------------------

/// Whether a tool needs asking before it runs.
pub enum ToolGate {
    /// No tool has that name.
    Unknown(AppError),
    /// Ask the permission checker first.
    Ask,
    /// Run it.
    Run,
}

/// Decides what to do with a call of the tool `name`, whose permission level is
/// `level`, or `None` when no tool has that name.
pub fn tool_gate(name: &str, level: Option<PermissionLevel>) -> (g: ToolGate)
    ensures
        level is None ==> (g matches ToolGate::Unknown(e) && e@ == AppErrorView::Tool(
            "unknown tool: "@ + name@,
        )),
        level == Some(PermissionLevel::Dangerous) ==> g is Ask,
        level == Some(PermissionLevel::ReadOnly) ==> g is Run,
{
    match level {
        None => ToolGate::Unknown(AppError::Tool(concat("unknown tool: ", name))),
        Some(PermissionLevel::Dangerous) => ToolGate::Ask,
        Some(PermissionLevel::ReadOnly) => ToolGate::Run,
    }
}

/// A permission checker's answer.
pub enum PermissionDecision {
    Allow,
    Deny(String),
}

/// The error a denial turns into, if the tool may not run.
pub fn permission_outcome(decision: PermissionDecision) -> (r: Option<AppError>)
    ensures
        match decision {
            PermissionDecision::Allow => r is None,
            PermissionDecision::Deny(reason) => r matches Some(e) && e@
                == AppErrorView::PermissionDenied(reason@),
        },
{
    match decision {
        PermissionDecision::Allow => None,
        PermissionDecision::Deny(reason) => Some(AppError::PermissionDenied(reason)),
    }
}

} // verus!
