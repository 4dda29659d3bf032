//! How a conversation is written to a session file and read back.
use vstd::prelude::*;

use crate::conversation::{
    blocks_view, messages_view, BlockView, ContentBlock, Conversation, ConversationView, Message,
    MessageView, Role,
};
use crate::errors::{AppError, AppErrorView};
use crate::json::{
    jget, jget_str, json_members_view, json_parse, json_pretty_text, json_seq_view,
    json_to_string_pretty, lookup, parse_json, push_member, Json, JsonView,
};
use crate::request::{block_json, message_json, messages_json, messages_to_json};
use crate::text::{str_eq, to_string};

verus! {

/// A conversation as stored: its system prompt (or `null`) and its messages
/// in the API's form.
pub open spec fn conversation_json(c: ConversationView) -> JsonView {
    JsonView::Object(
        seq![
            (
                "system"@,
                match c.system {
                    Some(s) => JsonView::Str(s),
                    None => JsonView::Null,
                },
            ),
            ("messages"@, messages_json(c.messages)),
        ],
    )
}

/// The role a stored name stands for.
pub open spec fn role_from(s: Seq<char>) -> Option<Role> {
    if s == "user"@ {
        Some(Role::User)
    } else if s == "assistant"@ {
        Some(Role::Assistant)
    } else {
        None
    }
}

/// The block a stored value stands for, read by member name.
pub open spec fn block_from(v: JsonView) -> Option<BlockView> {
    match jget_str(v, "type"@) {
        None => None,
        Some(t) => if t == "text"@ {
            match jget_str(v, "text"@) {
                Some(x) => Some(BlockView::Text { text: x }),
                None => None,
            }
        } else if t == "tool_use"@ {
            match (jget_str(v, "id"@), jget_str(v, "name"@), jget(v, "input"@)) {
                (Some(id), Some(name), Some(input)) => Some(BlockView::ToolUse { id, name, input }),
                _ => None,
            }
        } else if t == "tool_result"@ {
            match (jget_str(v, "tool_use_id"@), jget_str(v, "content"@)) {
                (Some(a), Some(b)) => match jget(v, "is_error"@) {
                    None => Some(BlockView::ToolResult { tool_use_id: a, content: b, is_error: None }),
                    Some(JsonView::Bool(e)) => Some(
                        BlockView::ToolResult { tool_use_id: a, content: b, is_error: Some(e) },
                    ),
                    Some(_) => None,
                },
                _ => None,
            }
        } else {
            None
        },
    }
}

/// The blocks stored values stand for; none if one of them stands for none.
pub open spec fn blocks_from(s: Seq<JsonView>) -> Option<Seq<BlockView>>
    decreases s.len(),
{
    if s.len() == 0 {
        Some(Seq::empty())
    } else {
        match (blocks_from(s.drop_last()), block_from(s.last())) {
            (Some(bs), Some(b)) => Some(bs.push(b)),
            _ => None,
        }
    }
}

/// The message a stored value stands for.
pub open spec fn message_from(v: JsonView) -> Option<MessageView> {
    match (jget_str(v, "role"@), jget(v, "content"@)) {
        (Some(r), Some(JsonView::Array(s))) => match (role_from(r), blocks_from(s)) {
            (Some(role), Some(content)) => Some(MessageView { role, content }),
            _ => None,
        },
        _ => None,
    }
}

/// The messages stored values stand for.
pub open spec fn messages_from(s: Seq<JsonView>) -> Option<Seq<MessageView>>
    decreases s.len(),
{
    if s.len() == 0 {
        Some(Seq::empty())
    } else {
        match (messages_from(s.drop_last()), message_from(s.last())) {
            (Some(ms), Some(m)) => Some(ms.push(m)),
            _ => None,
        }
    }
}

/// The conversation a stored value stands for: an absent or `null` system
/// prompt is none.
pub open spec fn conversation_from(v: JsonView) -> Option<ConversationView> {
    let system: Option<Option<Seq<char>>> = match jget(v, "system"@) {
        None => Some(None),
        Some(JsonView::Null) => Some(None),
        Some(JsonView::Str(s)) => Some(Some(s)),
        Some(_) => None,
    };
    match (system, jget(v, "messages"@)) {
        (Some(sys), Some(JsonView::Array(s))) => match messages_from(s) {
            Some(ms) => Some(ConversationView { system: sys, messages: ms }),
            None => None,
        },
        _ => None,
    }
}

/// A tool result with an explicit `false` error flag (which is not stored).
pub open spec fn false_flag(b: BlockView) -> bool {
    match b {
        BlockView::ToolResult { is_error, .. } => is_error == Some(false),
        _ => false,
    }
}

/// No tool result of the conversation carries an explicit `false` error flag
/// (which is not stored).
pub open spec fn flags_stored(c: ConversationView) -> bool {
    forall|i: int, j: int|
        0 <= i < c.messages.len() && 0 <= j < c.messages[i].content.len() ==> !false_flag(
            #[trigger] c.messages[i].content[j],
        )
}

proof fn lemma_block_round_trip(b: BlockView)
    requires
        !false_flag(b),
    ensures
        block_from(block_json(b)) == Some(b),
{
    reveal_strlit("type");
    reveal_strlit("text");
    reveal_strlit("tool_use");
    reveal_strlit("id");
    reveal_strlit("name");
    reveal_strlit("input");
    reveal_strlit("tool_result");
    reveal_strlit("tool_use_id");
    reveal_strlit("content");
    reveal_strlit("is_error");
    assert("type"@.len() == 4 && "text"@.len() == 4 && "tool_use"@.len() == 8);
    assert("id"@.len() == 2 && "name"@.len() == 4 && "input"@.len() == 5);
    assert("tool_result"@.len() == 11 && "tool_use_id"@.len() == 11);
    assert("content"@.len() == 7 && "is_error"@.len() == 8);
    assert("type"@[1] != "text"@[1]);
    assert("type"@ != "text"@);
    assert("type"@[0] != "name"@[0]);
    assert("type"@ != "name"@);
    let v = block_json(b);
    match b {
        BlockView::Text { text } => {
            let m = seq![("type"@, JsonView::Str("text"@)), ("text"@, JsonView::Str(text))];
            assert(m.drop_first()[0].0 == "text"@);
            assert(lookup(m, "type"@) == Some(JsonView::Str("text"@)));
            assert(lookup(m.drop_first(), "text"@) == Some(JsonView::Str(text)));
            assert(lookup(m, "text"@) == Some(JsonView::Str(text)));
            assert(v == JsonView::Object(m));
            assert(jget_str(v, "type"@) == Some("text"@));
            assert(jget_str(v, "text"@) == Some(text));
            assert(block_from(v) == Some(b));
        },
        BlockView::ToolUse { id, name, input } => {
            let m = seq![
                ("type"@, JsonView::Str("tool_use"@)),
                ("id"@, JsonView::Str(id)),
                ("name"@, JsonView::Str(name)),
                ("input"@, input),
            ];
            let m1 = m.drop_first();
            let m2 = m1.drop_first();
            let m3 = m2.drop_first();
            assert(lookup(m3, "input"@) == Some(input));
            assert(lookup(m2, "name"@) == Some(JsonView::Str(name)));
            assert(lookup(m2, "input"@) == Some(input));
            assert(lookup(m1, "id"@) == Some(JsonView::Str(id)));
            assert(lookup(m1, "name"@) == Some(JsonView::Str(name)));
            assert(lookup(m1, "input"@) == Some(input));
            assert(lookup(m, "type"@) == Some(JsonView::Str("tool_use"@)));
            assert(lookup(m, "id"@) == Some(JsonView::Str(id)));
            assert(lookup(m, "name"@) == Some(JsonView::Str(name)));
            assert(lookup(m, "input"@) == Some(input));
            assert(v == JsonView::Object(m));
            assert(jget_str(v, "type"@) == Some("tool_use"@));
            assert("tool_use"@ != "text"@);
            assert(jget_str(v, "id"@) == Some(id));
            assert(jget_str(v, "name"@) == Some(name));
            assert(jget(v, "input"@) == Some(input));
            assert(block_from(v) == Some(b));
        },
        BlockView::ToolResult { tool_use_id, content, is_error } => {
            let base = seq![
                ("type"@, JsonView::Str("tool_result"@)),
                ("tool_use_id"@, JsonView::Str(tool_use_id)),
                ("content"@, JsonView::Str(content)),
            ];
            let m = if is_error == Some(true) {
                base.push(("is_error"@, JsonView::Bool(true)))
            } else {
                base
            };
            let m1 = m.drop_first();
            let m2 = m1.drop_first();
            let m3 = m2.drop_first();
            if is_error == Some(true) {
                assert(lookup(m3, "is_error"@) == Some(JsonView::Bool(true)));
            } else {
                assert(m3.len() == 0);
            }
            assert(lookup(m2, "content"@) == Some(JsonView::Str(content)));
            assert(lookup(m2, "is_error"@) == lookup(m3, "is_error"@));
            assert(lookup(m1, "tool_use_id"@) == Some(JsonView::Str(tool_use_id)));
            assert(lookup(m1, "content"@) == Some(JsonView::Str(content)));
            assert(lookup(m1, "is_error"@) == lookup(m3, "is_error"@));
            assert(lookup(m, "type"@) == Some(JsonView::Str("tool_result"@)));
            assert(lookup(m, "tool_use_id"@) == Some(JsonView::Str(tool_use_id)));
            assert(lookup(m, "content"@) == Some(JsonView::Str(content)));
            assert(lookup(m, "is_error"@) == lookup(m3, "is_error"@));
            assert(v == JsonView::Object(m));
            assert(jget_str(v, "type"@) == Some("tool_result"@));
            assert("tool_result"@ != "text"@);
            assert("tool_result"@ != "tool_use"@);
            assert(jget_str(v, "tool_use_id"@) == Some(tool_use_id));
            assert(jget_str(v, "content"@) == Some(content));
            if is_error == Some(true) {
                assert(jget(v, "is_error"@) == Some(JsonView::Bool(true)));
            } else {
                match is_error {
                    Some(x) => {
                        assert(!x);
                        assert(false_flag(b));
                    },
                    None => {},
                }
                assert(is_error is None);
                assert(jget(v, "is_error"@) is None);
            }
            assert(block_from(v) == Some(b));
        },
    }
}

proof fn lemma_blocks_round_trip(bs: Seq<BlockView>)
    requires
        forall|j: int|
            0 <= j < bs.len() ==> !false_flag(#[trigger] bs[j]),
    ensures
        blocks_from(bs.map_values(|b: BlockView| block_json(b))) == Some(bs),
    decreases bs.len(),
{
    let s = bs.map_values(|b: BlockView| block_json(b));
    if bs.len() > 0 {
        let p = bs.drop_last();
        assert(s.drop_last() =~= p.map_values(|b: BlockView| block_json(b)));
        assert forall|j: int| 0 <= j < p.len() implies !false_flag(#[trigger] p[j]) by {
            assert(p[j] == bs[j]);
        }
        lemma_blocks_round_trip(p);
        lemma_block_round_trip(bs.last());
        assert(s.last() == block_json(bs.last()));
        assert(p.push(bs.last()) =~= bs);
    } else {
        assert(s.len() == 0);
    }
}

proof fn lemma_message_round_trip(m: MessageView)
    requires
        forall|j: int|
            0 <= j < m.content.len() ==> !false_flag(#[trigger] m.content[j]),
    ensures
        message_from(message_json(m)) == Some(m),
{
    reveal_strlit("role");
    reveal_strlit("content");
    reveal_strlit("user");
    reveal_strlit("assistant");
    assert("user"@.len() == 4 && "assistant"@.len() == 9);
    lemma_blocks_round_trip(m.content);
    let s = m.content.map_values(|b: BlockView| block_json(b));
    let r: Seq<char> = match m.role {
        Role::User => "user"@,
        Role::Assistant => "assistant"@,
    };
    let mm = seq![("role"@, JsonView::Str(r)), ("content"@, JsonView::Array(s))];
    assert("role"@.len() == 4);
    assert("content"@.len() == 7);
    assert("role"@ != "content"@);
    assert(mm[0].0 != "content"@);
    assert(lookup(mm.drop_first(), "content"@) == Some(JsonView::Array(s)));
    assert(lookup(mm, "content"@) == Some(JsonView::Array(s)));
    assert(lookup(mm, "role"@) == Some(JsonView::Str(r)));
}

proof fn lemma_messages_round_trip(ms: Seq<MessageView>)
    requires
        forall|i: int, j: int|
            0 <= i < ms.len() && 0 <= j < ms[i].content.len() ==> !false_flag(#[trigger] ms[i].content[j]),
    ensures
        messages_from(ms.map_values(|m: MessageView| message_json(m))) == Some(ms),
    decreases ms.len(),
{
    let s = ms.map_values(|m: MessageView| message_json(m));
    if ms.len() > 0 {
        let p = ms.drop_last();
        assert(s.drop_last() =~= p.map_values(|m: MessageView| message_json(m)));
        assert forall|i: int, j: int| 0 <= i < p.len() && 0 <= j < p[i].content.len() implies !false_flag(#[trigger] p[i].content[j]) by {
            assert(p[i] == ms[i]);
        }
        lemma_messages_round_trip(p);
        let last = ms.last();
        assert forall|j: int| 0 <= j < last.content.len() implies !false_flag(#[trigger] last.content[j]) by {
            assert(ms[ms.len() - 1].content[j] == last.content[j]);
        }
        lemma_message_round_trip(last);
        assert(s.last() == message_json(last));
        assert(p.push(last) =~= ms);
    } else {
        assert(s.len() == 0);
    }
}

/// Reading back what was stored gives the same conversation (tool results
/// with an explicit `false` error flag excepted: the flag is not stored).
pub proof fn session_round_trip(c: ConversationView)
    requires
        flags_stored(c),
    ensures
        conversation_from(conversation_json(c)) == Some(c),
{
    reveal_strlit("system");
    reveal_strlit("messages");
    assert("system"@.len() == 6 && "messages"@.len() == 8);
    lemma_messages_round_trip(c.messages);
    let sys = match c.system {
        Some(s) => JsonView::Str(s),
        None => JsonView::Null,
    };
    let m = conversation_json(c)->Object_0;
    assert(m.len() == 2);
    assert(m[0] == ("system"@, sys));
    assert(m[1] == ("messages"@, messages_json(c.messages)));
    assert(lookup(m.drop_first(), "messages"@) == Some(messages_json(c.messages)));
    assert(lookup(m, "messages"@) == Some(messages_json(c.messages)));
    assert(lookup(m, "system"@) == Some(sys));
    assert(messages_from(c.messages.map_values(|m: MessageView| message_json(m))) == Some(c.messages));
}

proof fn lemma_blocks_prefix_none(s: Seq<JsonView>, k: int)
    requires
        0 <= k <= s.len(),
        blocks_from(s.take(k)) is None,
    ensures
        blocks_from(s) is None,
    decreases s.len() - k,
{
    if k < s.len() {
        assert(s.take(k + 1).drop_last() =~= s.take(k));
        lemma_blocks_prefix_none(s, k + 1);
    } else {
        assert(s.take(k) =~= s);
    }
}

proof fn lemma_messages_prefix_none(s: Seq<JsonView>, k: int)
    requires
        0 <= k <= s.len(),
        messages_from(s.take(k)) is None,
    ensures
        messages_from(s) is None,
    decreases s.len() - k,
{
    if k < s.len() {
        assert(s.take(k + 1).drop_last() =~= s.take(k));
        lemma_messages_prefix_none(s, k + 1);
    } else {
        assert(s.take(k) =~= s);
    }
}

pub open spec fn opt_block_view(o: Option<ContentBlock>) -> Option<BlockView> {
    match o {
        Some(b) => Some(b@),
        None => None,
    }
}

/// The block a stored value stands for.
pub fn block_from_json(v: &Json) -> (r: Option<ContentBlock>)
    ensures
        opt_block_view(r) == block_from(v@),
{
    proof {
        reveal_strlit("text");
        reveal_strlit("tool_use");
        reveal_strlit("tool_result");
    }
    let t = match v.get_str("type") {
        Some(t) => t,
        None => return None,
    };
    if str_eq(t, "text") {
        match v.get_str("text") {
            Some(x) => Some(ContentBlock::Text { text: to_string(x) }),
            None => None,
        }
    } else if str_eq(t, "tool_use") {
        let id = match v.get_str("id") {
            Some(x) => x,
            None => return None,
        };
        let name = match v.get_str("name") {
            Some(x) => x,
            None => return None,
        };
        let input = match v.get("input") {
            Some(x) => x.copy(),
            None => return None,
        };
        Some(ContentBlock::ToolUse { id: to_string(id), name: to_string(name), input })
    } else if str_eq(t, "tool_result") {
        let a = match v.get_str("tool_use_id") {
            Some(x) => x,
            None => return None,
        };
        let b = match v.get_str("content") {
            Some(x) => x,
            None => return None,
        };
        let is_error = match v.get("is_error") {
            None => None,
            Some(Json::Bool(e)) => Some(*e),
            Some(_) => return None,
        };
        Some(ContentBlock::ToolResult { tool_use_id: to_string(a), content: to_string(b), is_error })
    } else {
        None
    }
}

/// The blocks stored values stand for.
pub fn blocks_from_json(a: &Vec<Json>) -> (r: Option<Vec<ContentBlock>>)
    ensures
        match r {
            Some(bs) => blocks_from(json_seq_view(a@)) == Some(blocks_view(bs@)),
            None => blocks_from(json_seq_view(a@)) is None,
        },
{
    let ghost s = json_seq_view(a@);
    proof {
        crate::json::lemma_seq_view_len(a@);
    }
    let mut out: Vec<ContentBlock> = Vec::new();
    let mut i: usize = 0;
    assert(s.take(0) =~= Seq::<JsonView>::empty());
    assert(blocks_view(out@) =~= Seq::<BlockView>::empty());
    while i < a.len()
        invariant
            i <= a.len() == s.len(),
            s == json_seq_view(a@),
            blocks_from(s.take(i as int)) == Some(blocks_view(out@)),
        decreases a.len() - i,
    {
        proof {
            crate::json::lemma_seq_view_index(a@, i as int);
            assert(s.take(i + 1).drop_last() =~= s.take(i as int));
            assert(s.take(i + 1).last() == s[i as int]);
        }
        match block_from_json(&a[i]) {
            Some(b) => {
                let ghost before = out@;
                out.push(b);
                assert(blocks_view(out@) =~= blocks_view(before).push(out@[before.len() as int]@));
            },
            None => {
                proof {
                    lemma_blocks_prefix_none(s, i + 1);
                }
                return None;
            },
        }
        i = i + 1;
    }
    assert(s.take(a.len() as int) =~= s);
    Some(out)
}

pub open spec fn opt_message_view(o: Option<Message>) -> Option<MessageView> {
    match o {
        Some(m) => Some(m@),
        None => None,
    }
}

/// The message a stored value stands for.
pub fn message_from_json(v: &Json) -> (r: Option<Message>)
    ensures
        opt_message_view(r) == message_from(v@),
{
    proof {
        reveal_strlit("user");
        reveal_strlit("assistant");
    }
    let r = match v.get_str("role") {
        Some(r) => r,
        None => return None,
    };
    let content = match v.get("content") {
        Some(Json::Array(s)) => s,
        _ => return None,
    };
    let role = if str_eq(r, "user") {
        Role::User
    } else if str_eq(r, "assistant") {
        Role::Assistant
    } else {
        return None;
    };
    match blocks_from_json(content) {
        Some(bs) => Some(Message { role, content: bs }),
        None => None,
    }
}

/// The conversation a stored value stands for.
pub fn conversation_from_json(v: &Json) -> (r: Option<Conversation>)
    ensures
        match r {
            Some(c) => conversation_from(v@) == Some(c@),
            None => conversation_from(v@) is None,
        },
{
    let ghost sys_spec: Option<Option<Seq<char>>> = match jget(v@, "system"@) {
        None => Some(None),
        Some(JsonView::Null) => Some(None),
        Some(JsonView::Str(s)) => Some(Some(s)),
        Some(_) => None,
    };
    let system = match v.get("system") {
        None => None,
        Some(Json::Null) => None,
        Some(Json::Str(s)) => Some(s.clone()),
        Some(_) => return None,
    };
    assert(sys_spec == Some(crate::conversation::opt_view(system)));
    let a = match v.get("messages") {
        Some(Json::Array(s)) => s,
        _ => return None,
    };
    let ghost s = json_seq_view(a@);
    assert(jget(v@, "messages"@) == Some(JsonView::Array(s)));
    proof {
        crate::json::lemma_seq_view_len(a@);
    }
    let mut out: Vec<Message> = Vec::new();
    let mut i: usize = 0;
    assert(s.take(0) =~= Seq::<JsonView>::empty());
    assert(messages_view(out@) =~= Seq::<MessageView>::empty());
    while i < a.len()
        invariant
            i <= a.len() == s.len(),
            s == json_seq_view(a@),
            messages_from(s.take(i as int)) == Some(messages_view(out@)),
            jget(v@, "messages"@) == Some(JsonView::Array(s)),
            sys_spec == Some(crate::conversation::opt_view(system)),
        decreases a.len() - i,
    {
        proof {
            crate::json::lemma_seq_view_index(a@, i as int);
            assert(s.take(i + 1).drop_last() =~= s.take(i as int));
            assert(s.take(i + 1).last() == s[i as int]);
        }
        match message_from_json(&a[i]) {
            Some(m) => {
                let ghost before = out@;
                out.push(m);
                assert(messages_view(out@) =~= messages_view(before).push(out@[before.len() as int]@));
            },
            None => {
                proof {
                    lemma_messages_prefix_none(s, i + 1);
                }
                return None;
            },
        }
        i = i + 1;
    }
    assert(s.take(a.len() as int) =~= s);
    assert(messages_from(s) == Some(messages_view(out@)));
    let ghost cv = ConversationView { system: crate::conversation::opt_view(system), messages: messages_view(out@) };
    assert(conversation_from(v@) == Some(cv));
    let c = Conversation { system, messages: out };
    assert(c@ == cv);
    Some(c)
}

/// A conversation as stored.
pub fn conversation_to_json(c: &Conversation) -> (r: Json)
    ensures
        r@ == conversation_json(c@),
{
    let sys = match &c.system {
        Some(s) => Json::string(s.as_str()),
        None => Json::Null,
    };
    let mut m: Vec<(String, Json)> = Vec::new();
    assert(json_members_view(m@) =~= Seq::empty());
    push_member(&mut m, "system", sys);
    push_member(&mut m, "messages", messages_to_json(&c.messages));
    let r = Json::Object(m);
    assert(json_members_view(m@) =~= conversation_json(c@)->Object_0);
    r
}

/// The text of a session file.
pub fn session_text(c: &Conversation) -> (r: String)
    ensures
        r@ == json_pretty_text(conversation_json(c@)),
{
    json_to_string_pretty(&conversation_to_json(c))
}

/// What reading a session file's text gives.
pub open spec fn session_from_text(t: Seq<char>) -> Result<ConversationView, AppErrorView> {
    match json_parse(t) {
        Err(m) => Err(AppErrorView::Internal(m)),
        Ok(v) => match conversation_from(v) {
            Some(c) => Ok(c),
            None => Err(AppErrorView::Internal("invalid session file"@)),
        },
    }
}

/// Reads a session file's text.
pub fn parse_session(text: &str) -> (r: Result<Conversation, AppError>)
    ensures
        match r {
            Ok(c) => session_from_text(text@) == Ok::<ConversationView, AppErrorView>(c@),
            Err(e) => session_from_text(text@) == Err::<ConversationView, AppErrorView>(e@),
        },
{
    match parse_json(text) {
        Err(m) => Err(AppError::Internal(m)),
        Ok(v) => match conversation_from_json(&v) {
            Some(c) => Ok(c),
            None => Err(AppError::Internal(to_string("invalid session file"))),
        },
    }
}

} // verus!
