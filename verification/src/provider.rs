//! What a model provider streams back, and how the server-sent event stream
//! is cut into events.
use vstd::prelude::*;

use crate::json::{jget, jget_str, jstr, json_parse, parse_json, Json, JsonView};
use crate::text::{
    find_chars, from_utf8_lossy, lines, lines_seq, occurs_at, push_str, range_to_string, str_eq,
    strip_prefix, to_chars, to_string, utf8_lossy, views,
};

verus! {

/// Why the model stopped.
#[derive(Clone, Copy, Debug, PartialEq, Eq, Structural)]
pub enum StopReason {
    EndTurn,
    ToolUse,
    MaxTokens,
}

/// One event of a provider's stream.
pub enum StreamEvent {
    ContentDelta { text: String },
    ToolUseStart { id: String, name: String },
    ToolUseDelta { json_chunk: String },
    Stop { reason: StopReason },
    Error { message: String },
}

pub enum StreamEventView {
    ContentDelta { text: Seq<char> },
    ToolUseStart { id: Seq<char>, name: Seq<char> },
    ToolUseDelta { json_chunk: Seq<char> },
    Stop { reason: StopReason },
    Error { message: Seq<char> },
}

impl View for StreamEvent {
    type V = StreamEventView;

    open spec fn view(&self) -> StreamEventView {
        match self {
            StreamEvent::ContentDelta { text } => StreamEventView::ContentDelta { text: text@ },
            StreamEvent::ToolUseStart { id, name } => StreamEventView::ToolUseStart {
                id: id@,
                name: name@,
            },
            StreamEvent::ToolUseDelta { json_chunk } => StreamEventView::ToolUseDelta {
                json_chunk: json_chunk@,
            },
            StreamEvent::Stop { reason } => StreamEventView::Stop { reason: *reason },
            StreamEvent::Error { message } => StreamEventView::Error { message: message@ },
        }
    }
}

impl StreamEvent {
    /// A copy of the event.
    pub fn copy(&self) -> (r: StreamEvent)
        ensures
            r@ == self@,
    {
        match self {
            StreamEvent::ContentDelta { text } => StreamEvent::ContentDelta { text: text.clone() },
            StreamEvent::ToolUseStart { id, name } => StreamEvent::ToolUseStart {
                id: id.clone(),
                name: name.clone(),
            },
            StreamEvent::ToolUseDelta { json_chunk } => StreamEvent::ToolUseDelta {
                json_chunk: json_chunk.clone(),
            },
            StreamEvent::Stop { reason } => StreamEvent::Stop { reason: *reason },
            StreamEvent::Error { message } => StreamEvent::Error { message: message.clone() },
        }
    }
}

/// The view of an optional event.
pub open spec fn opt_event_view(e: Option<StreamEvent>) -> Option<StreamEventView> {
    match e {
        Some(x) => Some(x@),
        None => None,
    }
}

/// How much a tool may do without asking.
#[derive(Clone, Copy, Debug, PartialEq, Eq, Structural)]
pub enum PermissionLevel {
    ReadOnly,
    Dangerous,
}

// ---------------------------------------------------------------------------
// Server-sent event lines
// ---------------------------------------------------------------------------

/// The reader's state between lines: the current event name and data, and the
/// `(event, data)` pairs finished so far.
pub struct SseState {
    pub event: Seq<char>,
    pub data: Seq<char>,
    pub out: Seq<(Seq<char>, Seq<char>)>,
}

pub open spec fn sse_init() -> SseState {
    SseState { event: Seq::empty(), data: Seq::empty(), out: Seq::empty() }
}

/// One line: a blank line ends an event that has data; `event: ` and `data: `
/// lines set the current name and data (the last one wins); other lines are
/// ignored.
pub open spec fn sse_line_step(st: SseState, line: Seq<char>) -> SseState {
    if line.len() == 0 {
        if st.data.len() > 0 {
            SseState { event: Seq::empty(), data: Seq::empty(), out: st.out.push((st.event, st.data)) }
        } else {
            st
        }
    } else if "event: "@.is_prefix_of(line) {
        SseState { event: line.skip(7), ..st }
    } else if "data: "@.is_prefix_of(line) {
        SseState { data: line.skip(6), ..st }
    } else {
        st
    }
}

pub open spec fn sse_fold(ls: Seq<Seq<char>>) -> SseState
    decreases ls.len(),
{
    if ls.len() == 0 {
        sse_init()
    } else {
        sse_line_step(sse_fold(ls.drop_last()), ls.last())
    }
}

/// At the end of the text an event with data is finished too.
pub open spec fn sse_finish(st: SseState) -> Seq<(Seq<char>, Seq<char>)> {
    if st.data.len() > 0 {
        st.out.push((st.event, st.data))
    } else {
        st.out
    }
}

/// The `(event, data)` pairs of a server-sent event text.
pub open spec fn sse_pairs(text: Seq<char>) -> Seq<(Seq<char>, Seq<char>)> {
    sse_finish(sse_fold(lines_seq(text)))
}

/// The views of a list of pairs of strings.
pub open spec fn pairs_view(v: Seq<(String, String)>) -> Seq<(Seq<char>, Seq<char>)> {
    v.map_values(|p: (String, String)| (p.0@, p.1@))
}

/// Cuts a server-sent event text into `(event, data)` pairs.
pub fn parse_sse_lines(text: &str) -> (r: Vec<(String, String)>)
    ensures
        pairs_view(r@) == sse_pairs(text@),
{
    let ls = lines(text);
    let mut events: Vec<(String, String)> = Vec::new();
    let mut current_event = String::new();
    let mut current_data = String::new();
    let mut i: usize = 0;
    proof {
        assert(views(ls@).take(0) =~= Seq::<Seq<char>>::empty());
        assert(pairs_view(events@) =~= Seq::<(Seq<char>, Seq<char>)>::empty());
    }
    while i < ls.len()
        invariant
            i <= ls.len(),
            views(ls@) == lines_seq(text@),
            sse_fold(views(ls@).take(i as int)) == (SseState {
                event: current_event@,
                data: current_data@,
                out: pairs_view(events@),
            }),
        decreases ls.len() - i,
    {
        let line = &ls[i];
        proof {
            assert(views(ls@).take(i + 1).drop_last() =~= views(ls@).take(i as int));
            assert(views(ls@).take(i + 1).last() == line@);
        }
        if line.as_str().is_empty() {
            if !current_data.as_str().is_empty() {
                let ghost before = events@;
                events.push((current_event, current_data));
                proof {
                    assert(pairs_view(events@) =~= pairs_view(before).push(
                        (current_event@, current_data@),
                    ));
                }
                current_event = String::new();
                current_data = String::new();
            }
        } else {
            match strip_prefix(line.as_str(), "event: ") {
                Some(val) => {
                    proof {
                        reveal_strlit("event: ");
                    }
                    current_event = val;
                },
                None => {
                    match strip_prefix(line.as_str(), "data: ") {
                        Some(val) => {
                            proof {
                                reveal_strlit("data: ");
                            }
                            current_data = val;
                        },
                        None => {},
                    }
                },
            }
        }
        i = i + 1;
    }
    proof {
        assert(views(ls@).take(ls@.len() as int) =~= views(ls@));
    }
    if !current_data.as_str().is_empty() {
        let ghost before = events@;
        events.push((current_event, current_data));
        proof {
            assert(pairs_view(events@) =~= pairs_view(before).push((current_event@, current_data@)));
        }
    }
    events
}

// ---------------------------------------------------------------------------
// Events from JSON
// ---------------------------------------------------------------------------

/// The stop reason named by `s`; unknown names count as the end of a turn.
pub open spec fn stop_reason_of(s: Seq<char>) -> StopReason {
    if s == "end_turn"@ {
        StopReason::EndTurn
    } else if s == "tool_use"@ {
        StopReason::ToolUse
    } else if s == "max_tokens"@ {
        StopReason::MaxTokens
    } else {
        StopReason::EndTurn
    }
}

/// The event that an SSE record of type `et` with JSON payload `v` stands for.
pub open spec fn sse_event_spec(et: Seq<char>, v: JsonView) -> Option<StreamEventView> {
    if et == "content_block_start"@ {
        match jget(v, "content_block"@) {
            None => None,
            Some(cb) => match jget_str(cb, "type"@) {
                None => None,
                Some(ty) => if ty == "tool_use"@ {
                    match (jget_str(cb, "id"@), jget_str(cb, "name"@)) {
                        (Some(id), Some(name)) => Some(
                            StreamEventView::ToolUseStart { id: id, name: name },
                        ),
                        _ => None,
                    }
                } else if ty == "text"@ {
                    match jget(cb, "text"@) {
                        None => None,
                        Some(t) => {
                            let text = match jstr(t) {
                                Some(s) => s,
                                None => Seq::empty(),
                            };
                            if text.len() == 0 {
                                None
                            } else {
                                Some(StreamEventView::ContentDelta { text: text })
                            }
                        },
                    }
                } else {
                    None
                },
            },
        }
    } else if et == "content_block_delta"@ {
        match jget(v, "delta"@) {
            None => None,
            Some(d) => match jget_str(d, "type"@) {
                None => None,
                Some(ty) => if ty == "text_delta"@ {
                    match jget_str(d, "text"@) {
                        Some(t) => Some(StreamEventView::ContentDelta { text: t }),
                        None => None,
                    }
                } else if ty == "input_json_delta"@ {
                    match jget_str(d, "partial_json"@) {
                        Some(p) => Some(StreamEventView::ToolUseDelta { json_chunk: p }),
                        None => None,
                    }
                } else {
                    None
                },
            },
        }
    } else if et == "content_block_stop"@ {
        None
    } else if et == "message_delta"@ {
        match jget(v, "delta"@) {
            None => None,
            Some(d) => match jget_str(d, "stop_reason"@) {
                Some(sr) => Some(StreamEventView::Stop { reason: stop_reason_of(sr) }),
                None => None,
            },
        }
    } else if et == "error"@ {
        let msg = match jget(v, "error"@) {
            Some(e) => match jget_str(e, "message"@) {
                Some(m) => m,
                None => "unknown API error"@,
            },
            None => "unknown API error"@,
        };
        Some(StreamEventView::Error { message: msg })
    } else {
        None
    }
}

/// What each kind of record stands for, read off its JSON payload: a text
/// delta is assistant text, an input-JSON delta is a piece of the tool's input
/// (never assistant text), a tool-use block start names the tool, a message
/// delta carries the stop reason, and an error record carries its message.
pub proof fn sse_record_meanings(v: JsonView, d: JsonView, p: Seq<char>, q: Seq<char>)
    ensures
        jget(v, "delta"@) == Some(d) && jget_str(d, "type"@) == Some("input_json_delta"@) && jget_str(
            d,
            "partial_json"@,
        ) == Some(p) ==> sse_event_spec("content_block_delta"@, v) == Some(
            StreamEventView::ToolUseDelta { json_chunk: p },
        ),
        jget(v, "delta"@) == Some(d) && jget_str(d, "type"@) == Some("text_delta"@) && jget_str(
            d,
            "text"@,
        ) == Some(p) ==> sse_event_spec("content_block_delta"@, v) == Some(
            StreamEventView::ContentDelta { text: p },
        ),
        jget(v, "content_block"@) == Some(d) && jget_str(d, "type"@) == Some("tool_use"@) && jget_str(
            d,
            "id"@,
        ) == Some(p) && jget_str(d, "name"@) == Some(q) ==> sse_event_spec("content_block_start"@, v)
            == Some(StreamEventView::ToolUseStart { id: p, name: q }),
        jget(v, "delta"@) == Some(d) && jget_str(d, "stop_reason"@) == Some("tool_use"@)
            ==> sse_event_spec("message_delta"@, v) == Some(StreamEventView::Stop { reason: StopReason::ToolUse }),
        jget(v, "delta"@) == Some(d) && jget_str(d, "stop_reason"@) == Some("end_turn"@)
            ==> sse_event_spec("message_delta"@, v) == Some(StreamEventView::Stop { reason: StopReason::EndTurn }),
        jget(v, "delta"@) == Some(d) && jget_str(d, "stop_reason"@) == Some("max_tokens"@)
            ==> sse_event_spec("message_delta"@, v) == Some(StreamEventView::Stop { reason: StopReason::MaxTokens }),
        jget(v, "error"@) == Some(d) && jget_str(d, "message"@) == Some(p) ==> sse_event_spec("error"@, v)
            == Some(StreamEventView::Error { message: p }),
        jget(v, "content_block"@) == Some(d) && jget_str(d, "type"@) == Some("text"@) && jget_str(
            d,
            "text"@,
        ) == Some(p) ==> sse_event_spec("content_block_start"@, v) == if p.len() == 0 {
            None
        } else {
            Some(StreamEventView::ContentDelta { text: p })
        },
        sse_event_spec("content_block_stop"@, v) is None,
        !(sse_event_spec("content_block_delta"@, v) matches Some(StreamEventView::ToolUseStart { .. })),
{
    reveal_strlit("content_block_start");
    reveal_strlit("content_block_delta");
    reveal_strlit("content_block_stop");
    reveal_strlit("message_delta");
    reveal_strlit("error");
    reveal_strlit("text_delta");
    reveal_strlit("input_json_delta");
    reveal_strlit("tool_use");
    reveal_strlit("text");
    reveal_strlit("end_turn");
    reveal_strlit("max_tokens");
    assert("content_block_delta"@[14] != "content_block_start"@[14]);
    assert("content_block_delta"@ != "content_block_start"@);
    assert("end_turn"@[0] != "tool_use"@[0]);
    assert("tool_use"@ != "end_turn"@);
    assert("input_json_delta"@.len() != "text_delta"@.len());
    assert("input_json_delta"@ != "text_delta"@);
    assert("message_delta"@.len() != "content_block_start"@.len());
    assert("message_delta"@.len() != "content_block_stop"@.len());
    assert("message_delta"@ != "content_block_start"@);
    assert("message_delta"@ != "content_block_delta"@);
    assert("message_delta"@ != "content_block_stop"@);
    assert("error"@.len() == 5);
    assert("error"@ != "content_block_start"@);
    assert("error"@ != "content_block_delta"@);
    assert("error"@ != "content_block_stop"@);
    assert("error"@ != "message_delta"@);
    assert("text"@.len() != "tool_use"@.len());
    assert("text"@ != "tool_use"@);
}

/// The stop reason named by `s`.
pub fn stop_reason_from(s: &str) -> (r: StopReason)
    ensures
        r == stop_reason_of(s@),
{
    if str_eq(s, "end_turn") {
        StopReason::EndTurn
    } else if str_eq(s, "tool_use") {
        StopReason::ToolUse
    } else if str_eq(s, "max_tokens") {
        StopReason::MaxTokens
    } else {
        StopReason::EndTurn
    }
}

/// The event that an SSE record of type `event_type` with payload `v` stands for.
pub fn sse_event_from_json(event_type: &str, v: &Json) -> (r: Option<StreamEvent>)
    ensures
        opt_event_view(r) == sse_event_spec(event_type@, v@),
        event_type@ == "content_block_delta"@ ==> match jget(v@, "delta"@) {
            Some(d) => (jget_str(d, "type"@) == Some("input_json_delta"@) ==> match jget_str(
                d,
                "partial_json"@,
            ) {
                Some(p) => opt_event_view(r) == Some(StreamEventView::ToolUseDelta { json_chunk: p }),
                None => true,
            }) && (jget_str(d, "type"@) == Some("text_delta"@) ==> match jget_str(d, "text"@) {
                Some(p) => opt_event_view(r) == Some(StreamEventView::ContentDelta { text: p }),
                None => true,
            }),
            None => true,
        },
{
    let r = event_from_json(event_type, v);
    proof {
        if let Some(d) = jget(v@, "delta"@) {
            if let Some(p) = jget_str(d, "partial_json"@) {
                sse_record_meanings(v@, d, p, p);
            }
            if let Some(p) = jget_str(d, "text"@) {
                sse_record_meanings(v@, d, p, p);
            }
        }
    }
    r
}

fn event_from_json(event_type: &str, v: &Json) -> (r: Option<StreamEvent>)
    ensures
        opt_event_view(r) == sse_event_spec(event_type@, v@),
{
    if str_eq(event_type, "content_block_start") {
        let cb = match v.get("content_block") {
            Some(cb) => cb,
            None => return None,
        };
        let ty = match cb.get_str("type") {
            Some(t) => t,
            None => return None,
        };
        if str_eq(ty, "tool_use") {
            let id = match cb.get_str("id") {
                Some(x) => x,
                None => return None,
            };
            let name = match cb.get_str("name") {
                Some(x) => x,
                None => return None,
            };
            Some(StreamEvent::ToolUseStart { id: to_string(id), name: to_string(name) })
        } else if str_eq(ty, "text") {
            let t = match cb.get("text") {
                Some(t) => t,
                None => return None,
            };
            let text = match t.as_str() {
                Some(s) => to_string(s),
                None => String::new(),
            };
            if text.as_str().is_empty() {
                None
            } else {
                Some(StreamEvent::ContentDelta { text })
            }
        } else {
            None
        }
    } else if str_eq(event_type, "content_block_delta") {
        let d = match v.get("delta") {
            Some(d) => d,
            None => return None,
        };
        let ty = match d.get_str("type") {
            Some(t) => t,
            None => return None,
        };
        if str_eq(ty, "text_delta") {
            match d.get_str("text") {
                Some(t) => Some(StreamEvent::ContentDelta { text: to_string(t) }),
                None => None,
            }
        } else if str_eq(ty, "input_json_delta") {
            match d.get_str("partial_json") {
                Some(p) => Some(StreamEvent::ToolUseDelta { json_chunk: to_string(p) }),
                None => None,
            }
        } else {
            None
        }
    } else if str_eq(event_type, "content_block_stop") {
        None
    } else if str_eq(event_type, "message_delta") {
        let d = match v.get("delta") {
            Some(d) => d,
            None => return None,
        };
        match d.get_str("stop_reason") {
            Some(sr) => Some(StreamEvent::Stop { reason: stop_reason_from(sr) }),
            None => None,
        }
    } else if str_eq(event_type, "error") {
        let msg = match v.get("error") {
            Some(e) => match e.get_str("message") {
                Some(m) => to_string(m),
                None => to_string("unknown API error"),
            },
            None => to_string("unknown API error"),
        };
        Some(StreamEvent::Error { message: msg })
    } else {
        None
    }
}

/// The event of one SSE record: its data is read as JSON, and data that is not
/// JSON gives no event.
pub fn parse_sse_event(event_type: &str, data: &str) -> (r: Option<StreamEvent>)
    ensures
        opt_event_view(r) == match json_parse(data@) {
            Ok(v) => sse_event_spec(event_type@, v),
            Err(_) => None,
        },
{
    match parse_json(data) {
        Ok(v) => sse_event_from_json(event_type, &v),
        Err(_) => None,
    }
}

// ---------------------------------------------------------------------------
// Blocks of a buffered stream
// ---------------------------------------------------------------------------

/// The complete blocks of `s`, each ended by a blank line (`"\n\n"`), and what
/// is left after the last of them.
#[verifier::opaque]
pub open spec fn sse_blocks(s: Seq<char>) -> (Seq<Seq<char>>, Seq<char>)
    decreases s.len(),
{
    if exists|i: int| occurs_at(s, "\n\n"@, i) {
        let p = choose|i: int| occurs_at(s, "\n\n"@, i) && forall|j: int|
            0 <= j < i ==> !occurs_at(s, "\n\n"@, j);
        if 0 <= p && p + 2 <= s.len() {
            let rest = sse_blocks(s.skip(p + 2));
            (seq![s.take(p)] + rest.0, rest.1)
        } else {
            (Seq::empty(), s)
        }
    } else {
        (Seq::empty(), s)
    }
}

proof fn lemma_first_occurrence(s: Seq<char>, p: Seq<char>, i: int)
    requires
        occurs_at(s, p, i),
        forall|j: int| 0 <= j < i ==> !occurs_at(s, p, j),
    ensures
        (choose|k: int| occurs_at(s, p, k) && forall|j: int| 0 <= j < k ==> !occurs_at(s, p, j))
            == i,
{
    let k = choose|k: int| occurs_at(s, p, k) && forall|j: int| 0 <= j < k ==> !occurs_at(s, p, j);
    assert(occurs_at(s, p, k) && forall|j: int| 0 <= j < k ==> !occurs_at(s, p, j));
    if k < i {
        assert(!occurs_at(s, p, k));
    }
    if i < k {
        assert(!occurs_at(s, p, i));
    }
}

proof fn lemma_sse_blocks_found(s: Seq<char>, pos: int)
    requires
        occurs_at(s, "\n\n"@, pos),
        forall|j: int| 0 <= j < pos ==> !occurs_at(s, "\n\n"@, j),
    ensures
        sse_blocks(s) == (seq![s.take(pos)] + sse_blocks(s.skip(pos + 2)).0, sse_blocks(
            s.skip(pos + 2),
        ).1),
{
    reveal_strlit("\n\n");
    reveal(sse_blocks);
    lemma_first_occurrence(s, "\n\n"@, pos);
}

proof fn lemma_sse_blocks_none(s: Seq<char>)
    requires
        forall|j: int| !occurs_at(s, "\n\n"@, j),
    ensures
        sse_blocks(s) == (Seq::<Seq<char>>::empty(), s),
{
    reveal(sse_blocks);
}

/// Takes the complete blocks off the front of a stream buffer: the blocks are
/// returned and the buffer keeps what follows the last blank line.
pub fn take_sse_blocks(buf: &mut String) -> (blocks: Vec<String>)
    ensures
        views(blocks@) == sse_blocks(old(buf)@).0,
        final(buf)@ == sse_blocks(old(buf)@).1,
{
    let sep = to_chars("\n\n");
    proof {
        reveal_strlit("\n\n");
    }
    let mut blocks: Vec<String> = Vec::new();
    let ghost whole = buf@;
    proof {
        assert(views(blocks@) + sse_blocks(buf@).0 =~= sse_blocks(whole).0);
    }
    loop
        invariant
            sep@ == "\n\n"@,
            sep@.len() == 2,
            whole == old(buf)@,
            views(blocks@) + sse_blocks(buf@).0 == sse_blocks(whole).0,
            sse_blocks(buf@).1 == sse_blocks(whole).1,
        decreases buf@.len(),
    {
        let v = to_chars(buf.as_str());
        match find_chars(&v, &sep) {
            Some(pos) => {
                assert(occurs_at(v@, sep@, pos as int));
                let n = v.len();
                assert(pos + 2 <= n);
                let after: usize = pos + 2;
                let block = range_to_string(&v, 0, pos);
                let rest = range_to_string(&v, after, n);
                let ghost r = sse_blocks(v@.skip(pos + 2));
                proof {
                    lemma_sse_blocks_found(v@, pos as int);
                    assert(v@.take(pos as int) =~= block@);
                    assert(v@.skip(pos + 2) =~= rest@);
                    assert(views(blocks@.push(block)) =~= views(blocks@).push(block@));
                    assert(views(blocks@).push(block@) + r.0 =~= views(blocks@) + (seq![block@]
                        + r.0));
                }
                blocks.push(block);
                *buf = rest;
            },
            None => {
                proof {
                    lemma_sse_blocks_none(v@);
                    assert(views(blocks@) + Seq::<Seq<char>>::empty() =~= views(blocks@));
                }
                return blocks;
            },
        }
    }
}

// ---------------------------------------------------------------------------
// Chunks of a response
// ---------------------------------------------------------------------------

/// The event of one `(event, data)` record.
pub open spec fn record_event(p: (Seq<char>, Seq<char>)) -> Option<StreamEventView> {
    match json_parse(p.1) {
        Ok(v) => sse_event_spec(p.0, v),
        Err(_) => None,
    }
}

/// The events of a list of records, records without one left out.
pub open spec fn events_of(ps: Seq<(Seq<char>, Seq<char>)>) -> Seq<StreamEventView>
    decreases ps.len(),
{
    if ps.len() == 0 {
        Seq::empty()
    } else {
        match record_event(ps.last()) {
            Some(e) => events_of(ps.drop_last()).push(e),
            None => events_of(ps.drop_last()),
        }
    }
}

pub open spec fn events_view(v: Seq<StreamEvent>) -> Seq<StreamEventView> {
    v.map_values(|e: StreamEvent| e@)
}

/// The events of a piece of stream text: cut into records, and each record's
/// event.
pub fn text_events(text: &str) -> (r: Vec<StreamEvent>)
    ensures
        events_view(r@) == events_of(sse_pairs(text@)),
{
    let pairs = parse_sse_lines(text);
    let ghost ps = pairs_view(pairs@);
    let mut out: Vec<StreamEvent> = Vec::new();
    let mut i: usize = 0;
    while i < pairs.len()
        invariant
            i <= pairs.len(),
            ps == pairs_view(pairs@),
            events_view(out@) =~= events_of(ps.take(i as int)),
        decreases pairs.len() - i,
    {
        let ghost before = out@;
        proof {
            assert(ps.take(i + 1).drop_last() =~= ps.take(i as int));
            assert(ps.take(i + 1).last() == ps[i as int]);
        }
        match parse_sse_event(pairs[i].0.as_str(), pairs[i].1.as_str()) {
            Some(e) => {
                out.push(e);
                assert(events_view(out@) =~= events_view(before).push(out@[before.len() as int]@));
            },
            None => {},
        }
        i = i + 1;
    }
    assert(ps.take(pairs.len() as int) =~= ps);
    out
}

/// The events in one chunk of a streamed response: its bytes read as text,
/// cut into records, and each record's event.
pub fn chunk_events(chunk: &[u8]) -> (r: Vec<StreamEvent>)
    ensures
        events_view(r@) == events_of(sse_pairs(utf8_lossy(chunk@))),
{
    let text = from_utf8_lossy(chunk);
    text_events(text.as_str())
}

/// The events of a list of complete blocks, block after block.
pub open spec fn blocks_events(bs: Seq<Seq<char>>) -> Seq<StreamEventView>
    decreases bs.len(),
{
    if bs.len() == 0 {
        Seq::empty()
    } else {
        blocks_events(bs.drop_last()) + events_of(sse_pairs(bs.last()))
    }
}

/// The events of blocks one after the other are those of the first blocks, then
/// those of the others.
proof fn lemma_blocks_events_append(a: Seq<Seq<char>>, b: Seq<Seq<char>>)
    ensures
        blocks_events(a + b) == blocks_events(a) + blocks_events(b),
    decreases b.len(),
{
    if b.len() == 0 {
        assert(a + b =~= a);
        assert(blocks_events(a) + Seq::<StreamEventView>::empty() =~= blocks_events(a));
    } else {
        lemma_blocks_events_append(a, b.drop_last());
        assert((a + b).drop_last() =~= a + b.drop_last());
        assert((a + b).last() == b.last());
        assert(blocks_events(a) + blocks_events(b.drop_last()) + events_of(sse_pairs(b.last()))
            =~= blocks_events(a) + (blocks_events(b.drop_last()) + events_of(sse_pairs(b.last()))));
    }
}

/// Cutting a text in blocks after more text was appended: the blocks of the text
/// come first, then those of what was left of it followed by the new text.
proof fn lemma_sse_blocks_append(x: Seq<char>, y: Seq<char>)
    ensures
        sse_blocks(x + y) == (sse_blocks(x).0 + sse_blocks(sse_blocks(x).1 + y).0, sse_blocks(
            sse_blocks(x).1 + y,
        ).1),
    decreases x.len(),
{
    reveal_strlit("\n\n");
    if exists|i: int| occurs_at(x, "\n\n"@, i) {
        let p = choose|i: int| occurs_at(x, "\n\n"@, i) && forall|j: int|
            0 <= j < i ==> !occurs_at(x, "\n\n"@, j);
        let i0 = choose|i: int| occurs_at(x, "\n\n"@, i);
        lemma_first_exists(x, i0);
        lemma_sse_blocks_found(x, p);
        assert forall|j: int| 0 <= j < p implies !occurs_at(x + y, "\n\n"@, j) by {
            if occurs_at(x + y, "\n\n"@, j) {
                assert((x + y).subrange(j, j + 2) =~= x.subrange(j, j + 2));
                assert(occurs_at(x, "\n\n"@, j));
            }
        }
        assert(occurs_at(x + y, "\n\n"@, p)) by {
            assert((x + y).subrange(p, p + 2) =~= x.subrange(p, p + 2));
        }
        lemma_sse_blocks_found(x + y, p);
        assert((x + y).take(p) =~= x.take(p));
        assert((x + y).skip(p + 2) =~= x.skip(p + 2) + y);
        lemma_sse_blocks_append(x.skip(p + 2), y);
        let r = sse_blocks(x.skip(p + 2));
        let q = sse_blocks(r.1 + y);
        assert(seq![x.take(p)] + (r.0 + q.0) =~= seq![x.take(p)] + r.0 + q.0);
    } else {
        lemma_sse_blocks_none(x);
        assert(Seq::<Seq<char>>::empty() + sse_blocks(x + y).0 =~= sse_blocks(x + y).0);
    }
}

/// Where a text holds a blank line, there is a first one.
proof fn lemma_first_exists(s: Seq<char>, i: int)
    requires
        occurs_at(s, "\n\n"@, i),
    ensures
        exists|p: int| occurs_at(s, "\n\n"@, p) && forall|j: int|
            0 <= j < p ==> !occurs_at(s, "\n\n"@, j),
    decreases i,
{
    if exists|j: int| 0 <= j < i && occurs_at(s, "\n\n"@, j) {
        let j = choose|j: int| 0 <= j < i && occurs_at(s, "\n\n"@, j);
        lemma_first_exists(s, j);
    } else {
        assert(occurs_at(s, "\n\n"@, i) && forall|j: int| 0 <= j < i ==> !occurs_at(s, "\n\n"@, j));
    }
}

/// Appends a piece of stream text to the buffer, takes the complete blocks off
/// it and gives their events; the buffer keeps what follows the last blank line.
pub fn feed_text(buf: &mut String, text: &str) -> (r: Vec<StreamEvent>)
    ensures
        final(buf)@ == sse_blocks(old(buf)@ + text@).1,
        events_view(r@) == blocks_events(sse_blocks(old(buf)@ + text@).0),
{
    push_str(buf, text);
    let blocks = take_sse_blocks(buf);
    let ghost bs = views(blocks@);
    let mut out: Vec<StreamEvent> = Vec::new();
    let mut i: usize = 0;
    while i < blocks.len()
        invariant
            i <= blocks.len(),
            bs == views(blocks@),
            events_view(out@) == blocks_events(bs.take(i as int)),
        decreases blocks.len() - i,
    {
        let evs = text_events(blocks[i].as_str());
        let ghost start = out@;
        let mut k: usize = 0;
        while k < evs.len()
            invariant
                k <= evs.len(),
                out@.len() == start.len() + k,
                events_view(out@) == events_view(start) + events_view(evs@).take(k as int),
            decreases evs.len() - k,
        {
            let ghost prev = out@;
            out.push(evs[k].copy());
            proof {
                assert(events_view(out@) =~= events_view(prev).push(evs@[k as int]@));
                assert(events_view(evs@).take(k + 1) =~= events_view(evs@).take(k as int).push(
                    evs@[k as int]@,
                ));
                assert(events_view(start) + events_view(evs@).take(k + 1) =~= (events_view(start)
                    + events_view(evs@).take(k as int)).push(evs@[k as int]@));
            }
            k = k + 1;
        }
        proof {
            assert(events_view(evs@).take(evs.len() as int) =~= events_view(evs@));
            assert(bs.take(i + 1).drop_last() =~= bs.take(i as int));
            assert(bs.take(i + 1).last() == bs[i as int]);
            assert(bs[i as int] == blocks@[i as int]@);
        }
        i = i + 1;
    }
    assert(bs.take(blocks.len() as int) =~= bs);
    out
}

/// Appends one chunk of a streamed response, read as text, to the buffer and
/// gives the events of the blocks it completes.
pub fn feed_chunk(buf: &mut String, chunk: &[u8]) -> (r: Vec<StreamEvent>)
    ensures
        final(buf)@ == sse_blocks(old(buf)@ + utf8_lossy(chunk@)).1,
        events_view(r@) == blocks_events(sse_blocks(old(buf)@ + utf8_lossy(chunk@)).0),
{
    let text = from_utf8_lossy(chunk);
    feed_text(buf, text.as_str())
}

/// Feeding stream text in two pieces gives the events of feeding it whole, in
/// the same order, and leaves the same buffer: however the text is split, its
/// events are those of the whole.
pub proof fn feeding_split_text(buf: Seq<char>, a: Seq<char>, b: Seq<char>)
    ensures
        ({
            let first = sse_blocks(buf + a);
            let second = sse_blocks(first.1 + b);
            let whole = sse_blocks(buf + (a + b));
            &&& blocks_events(first.0) + blocks_events(second.0) == blocks_events(whole.0)
            &&& second.1 == whole.1
        }),
{
    lemma_sse_blocks_append(buf + a, b);
    assert(buf + a + b =~= buf + (a + b));
    let first = sse_blocks(buf + a);
    let second = sse_blocks(first.1 + b);
    lemma_blocks_events_append(first.0, second.0);
}

/// Feeding a streamed response in two byte chunks gives the events and the
/// buffer of feeding it as one chunk, whenever reading the chunks as text one
/// by one gives the text of the whole (a chunk that ends inside a character
/// reads as replacement characters instead).
pub proof fn feeding_split_chunks(buf: Seq<char>, a: Seq<u8>, b: Seq<u8>)
    ensures
        utf8_lossy(a) + utf8_lossy(b) == utf8_lossy(a + b) ==> ({
            let first = sse_blocks(buf + utf8_lossy(a));
            let second = sse_blocks(first.1 + utf8_lossy(b));
            let whole = sse_blocks(buf + utf8_lossy(a + b));
            &&& blocks_events(first.0) + blocks_events(second.0) == blocks_events(whole.0)
            &&& second.1 == whole.1
        }),
{
    feeding_split_text(buf, utf8_lossy(a), utf8_lossy(b));
}

/// The event for a chunk that failed to arrive.
pub fn chunk_failure(message: &str) -> (e: StreamEvent)
    ensures
        e@ == (StreamEventView::Error { message: message@ }),
{
    StreamEvent::Error { message: to_string(message) }
}

} // verus!
