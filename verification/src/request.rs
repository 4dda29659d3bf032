//! The body of a Messages API request, built from a conversation.
use vstd::prelude::*;

use crate::cc_auth::Credential;
use crate::conversation::{
    blocks_view, messages_view, BlockView, ContentBlock, Conversation, ConversationView, Message,
    MessageView, Role,
};
use crate::json::{json_members_view, json_seq_view, push_item, push_member, Json, JsonNumber, JsonView, NumberView};

verus! {

/// The largest answer asked for, in tokens.
pub const MAX_TOKENS: u64 = 4096;

/// The first system block of an OAuth request.
pub const BILLING_HEADER: &'static str =
    "x-anthropic-billing-header: cc_version=2.1.87.d34; cc_entrypoint=cli;";

/// A JSON string.
pub open spec fn jstr_of(s: Seq<char>) -> JsonView {
    JsonView::Str(s)
}

/// The role as the API spells it.
pub open spec fn role_text(r: Role) -> Seq<char> {
    match r {
        Role::User => "user"@,
        Role::Assistant => "assistant"@,
    }
}

/// A content block as the API takes it; a tool result carries `is_error`
/// only when it is set to `true`.
pub open spec fn block_json(b: BlockView) -> JsonView {
    match b {
        BlockView::Text { text } => JsonView::Object(
            seq![("type"@, jstr_of("text"@)), ("text"@, jstr_of(text))],
        ),
        BlockView::ToolUse { id, name, input } => JsonView::Object(
            seq![
                ("type"@, jstr_of("tool_use"@)),
                ("id"@, jstr_of(id)),
                ("name"@, jstr_of(name)),
                ("input"@, input),
            ],
        ),
        BlockView::ToolResult { tool_use_id, content, is_error } => {
            let base = seq![
                ("type"@, jstr_of("tool_result"@)),
                ("tool_use_id"@, jstr_of(tool_use_id)),
                ("content"@, jstr_of(content)),
            ];
            JsonView::Object(
                if is_error == Some(true) {
                    base.push(("is_error"@, JsonView::Bool(true)))
                } else {
                    base
                },
            )
        },
    }
}

/// A message as the API takes it.
pub open spec fn message_json(m: MessageView) -> JsonView {
    JsonView::Object(
        seq![
            ("role"@, jstr_of(role_text(m.role))),
            ("content"@, JsonView::Array(m.content.map_values(|b: BlockView| block_json(b)))),
        ],
    )
}

/// The messages of a conversation as the API takes them.
pub open spec fn messages_json(ms: Seq<MessageView>) -> JsonView {
    JsonView::Array(ms.map_values(|m: MessageView| message_json(m)))
}

/// The members every request starts with.
pub open spec fn body_head(model: Seq<char>, max_tokens: u64, ms: Seq<MessageView>) -> Seq<
    (Seq<char>, JsonView),
> {
    seq![
        ("model"@, jstr_of(model)),
        ("max_tokens"@, JsonView::Number(NumberView::PosInt(max_tokens))),
        ("messages"@, messages_json(ms)),
        ("stream"@, JsonView::Bool(true)),
    ]
}

/// `tools` when there are any.
pub open spec fn tools_member(tools: Seq<JsonView>) -> Seq<(Seq<char>, JsonView)> {
    if tools.len() > 0 {
        seq![("tools"@, JsonView::Array(tools))]
    } else {
        Seq::empty()
    }
}

/// A text block.
pub open spec fn text_block(t: Seq<char>) -> JsonView {
    JsonView::Object(seq![("type"@, jstr_of("text"@)), ("text"@, jstr_of(t))])
}

/// The system members of a request: with an OAuth credential, a list of text
/// blocks (the billing header, then the system prompt if any) and adaptive
/// thinking; otherwise the system prompt as a string, if any.
pub open spec fn system_members(oauth: bool, system: Option<Seq<char>>) -> Seq<(Seq<char>, JsonView)> {
    if oauth {
        let blocks = match system {
            Some(s) => seq![text_block(BILLING_HEADER@), text_block(s)],
            None => seq![text_block(BILLING_HEADER@)],
        };
        seq![
            ("system"@, JsonView::Array(blocks)),
            ("thinking"@, JsonView::Object(seq![("type"@, jstr_of("adaptive"@))])),
        ]
    } else {
        match system {
            Some(s) => seq![("system"@, jstr_of(s))],
            None => Seq::empty(),
        }
    }
}

/// The request body for a model, a conversation and the tools' definitions.
pub open spec fn request_body(
    oauth: bool,
    model: Seq<char>,
    conv: ConversationView,
    tools: Seq<JsonView>,
) -> JsonView {
    JsonView::Object(
        body_head(model, MAX_TOKENS, conv.messages) + system_members(oauth, conv.system)
            + tools_member(tools),
    )
}

fn str_json(s: &str) -> (r: Json)
    ensures
        r@ == jstr_of(s@),
{
    Json::string(s)
}

/// A content block as the API takes it.
pub fn block_to_json(b: &ContentBlock) -> (r: Json)
    ensures
        r@ == block_json(b@),
{
    let mut m: Vec<(String, Json)> = Vec::new();
    assert(json_members_view(m@) =~= Seq::empty());
    match b {
        ContentBlock::Text { text } => {
            push_member(&mut m, "type", str_json("text"));
            push_member(&mut m, "text", str_json(text.as_str()));
            assert(json_members_view(m@) =~= seq![("type"@, jstr_of("text"@)), ("text"@, jstr_of(text@))]);
        },
        ContentBlock::ToolUse { id, name, input } => {
            push_member(&mut m, "type", str_json("tool_use"));
            push_member(&mut m, "id", str_json(id.as_str()));
            push_member(&mut m, "name", str_json(name.as_str()));
            push_member(&mut m, "input", input.copy());
            assert(json_members_view(m@) =~= seq![
                ("type"@, jstr_of("tool_use"@)),
                ("id"@, jstr_of(id@)),
                ("name"@, jstr_of(name@)),
                ("input"@, input@),
            ]);
        },
        ContentBlock::ToolResult { tool_use_id, content, is_error } => {
            push_member(&mut m, "type", str_json("tool_result"));
            push_member(&mut m, "tool_use_id", str_json(tool_use_id.as_str()));
            push_member(&mut m, "content", str_json(content.as_str()));
            let ghost base = json_members_view(m@);
            assert(base =~= seq![
                ("type"@, jstr_of("tool_result"@)),
                ("tool_use_id"@, jstr_of(tool_use_id@)),
                ("content"@, jstr_of(content@)),
            ]);
            match is_error {
                Some(true) => {
                    push_member(&mut m, "is_error", Json::Bool(true));
                },
                _ => {},
            }
        },
    }
    Json::Object(m)
}

/// A message as the API takes it.
pub fn message_to_json(msg: &Message) -> (r: Json)
    ensures
        r@ == message_json(msg@),
{
    let mut blocks: Vec<Json> = Vec::new();
    let ghost bv = blocks_view(msg.content@);
    let mut i: usize = 0;
    assert(json_seq_view(blocks@) =~= Seq::<JsonView>::empty());
    while i < msg.content.len()
        invariant
            i <= msg.content.len(),
            bv == blocks_view(msg.content@),
            json_seq_view(blocks@) =~= bv.take(i as int).map_values(|b: BlockView| block_json(b)),
        decreases msg.content.len() - i,
    {
        push_item(&mut blocks, block_to_json(&msg.content[i]));
        i = i + 1;
        assert(bv.take(i as int) =~= bv.take(i - 1).push(bv[i - 1]));
    }
    assert(bv.take(i as int) =~= bv);
    let role = match msg.role {
        Role::User => "user",
        Role::Assistant => "assistant",
    };
    let ghost cv = json_seq_view(blocks@);
    let mut m: Vec<(String, Json)> = Vec::new();
    assert(json_members_view(m@) =~= Seq::empty());
    push_member(&mut m, "role", str_json(role));
    push_member(&mut m, "content", Json::Array(blocks));
    assert(json_members_view(m@) =~= seq![
        ("role"@, jstr_of(role_text(msg.role))),
        ("content"@, JsonView::Array(cv)),
    ]);
    Json::Object(m)
}

/// The messages of a conversation as the API takes them.
pub fn messages_to_json(ms: &Vec<Message>) -> (r: Json)
    ensures
        r@ == messages_json(messages_view(ms@)),
{
    let mut out: Vec<Json> = Vec::new();
    let ghost mv = messages_view(ms@);
    let mut i: usize = 0;
    assert(json_seq_view(out@) =~= Seq::<JsonView>::empty());
    while i < ms.len()
        invariant
            i <= ms.len(),
            mv == messages_view(ms@),
            json_seq_view(out@) =~= mv.take(i as int).map_values(|m: MessageView| message_json(m)),
        decreases ms.len() - i,
    {
        push_item(&mut out, message_to_json(&ms[i]));
        i = i + 1;
        assert(mv.take(i as int) =~= mv.take(i - 1).push(mv[i - 1]));
    }
    assert(mv.take(i as int) =~= mv);
    Json::Array(out)
}

/// The members every request starts with.
pub fn push_body_head(m: &mut Vec<(String, Json)>, model: &str, max_tokens: u64, ms: &Vec<Message>)
    ensures
        json_members_view(final(m)@) == json_members_view(old(m)@) + body_head(
            model@,
            max_tokens,
            messages_view(ms@),
        ),
{
    let ghost before = json_members_view(m@);
    push_member(m, "model", str_json(model));
    push_member(m, "max_tokens", Json::Number(JsonNumber::PosInt(max_tokens)));
    push_member(m, "messages", messages_to_json(ms));
    push_member(m, "stream", Json::Bool(true));
    assert(json_members_view(m@) =~= before + body_head(model@, max_tokens, messages_view(ms@)));
}

/// Adds `tools` when there are any.
pub fn push_tools(m: &mut Vec<(String, Json)>, tools: &Vec<Json>)
    ensures
        json_members_view(final(m)@) == json_members_view(old(m)@) + tools_member(
            json_seq_view(tools@),
        ),
{
    let ghost before = json_members_view(m@);
    if tools.len() > 0 {
        let mut a: Vec<Json> = Vec::new();
        let mut i: usize = 0;
        assert(json_seq_view(a@) =~= Seq::<JsonView>::empty());
        while i < tools.len()
            invariant
                i <= tools.len(),
                json_seq_view(a@) =~= json_seq_view(tools@).take(i as int),
            decreases tools.len() - i,
        {
            proof {
                crate::json::lemma_seq_view_len(tools@);
                crate::json::lemma_seq_view_index(tools@, i as int);
            }
            push_item(&mut a, tools[i].copy());
            i = i + 1;
            assert(json_seq_view(tools@).take(i as int) =~= json_seq_view(tools@).take(i - 1).push(
                json_seq_view(tools@)[i - 1],
            ));
        }
        proof {
            crate::json::lemma_seq_view_len(tools@);
        }
        assert(json_seq_view(tools@).take(i as int) =~= json_seq_view(tools@));
        push_member(m, "tools", Json::Array(a));
        assert(json_members_view(m@) =~= before + tools_member(json_seq_view(tools@)));
    } else {
        proof {
            crate::json::lemma_seq_view_len(tools@);
        }
        assert(json_members_view(m@) =~= before + tools_member(json_seq_view(tools@)));
    }
}

fn text_block_json(t: &str) -> (r: Json)
    ensures
        r@ == text_block(t@),
{
    let mut m: Vec<(String, Json)> = Vec::new();
    assert(json_members_view(m@) =~= Seq::empty());
    push_member(&mut m, "type", str_json("text"));
    push_member(&mut m, "text", str_json(t));
    assert(json_members_view(m@) =~= seq![("type"@, jstr_of("text"@)), ("text"@, jstr_of(t@))]);
    Json::Object(m)
}

/// The request body for `model`, `conversation` and the tools' definitions,
/// with the system members of an OAuth request when `oauth`.
pub fn body_for(oauth: bool, model: &str, conversation: &Conversation, tools: &Vec<Json>) -> (r: Json)
    ensures
        r@ == request_body(oauth, model@, conversation@, json_seq_view(tools@)),
{
    let mut m: Vec<(String, Json)> = Vec::new();
    assert(json_members_view(m@) =~= Seq::empty());
    push_body_head(&mut m, model, MAX_TOKENS, &conversation.messages);
    let ghost head = json_members_view(m@);
    if oauth {
        let mut blocks: Vec<Json> = Vec::new();
        assert(json_seq_view(blocks@) =~= Seq::<JsonView>::empty());
        push_item(&mut blocks, text_block_json(BILLING_HEADER));
        match &conversation.system {
            Some(s) => {
                push_item(&mut blocks, text_block_json(s.as_str()));
                assert(json_seq_view(blocks@) =~= seq![text_block(BILLING_HEADER@), text_block(s@)]);
            },
            None => {
                assert(json_seq_view(blocks@) =~= seq![text_block(BILLING_HEADER@)]);
            },
        }
        push_member(&mut m, "system", Json::Array(blocks));
        let mut t: Vec<(String, Json)> = Vec::new();
        assert(json_members_view(t@) =~= Seq::empty());
        push_member(&mut t, "type", str_json("adaptive"));
        assert(json_members_view(t@) =~= seq![("type"@, jstr_of("adaptive"@))]);
        push_member(&mut m, "thinking", Json::Object(t));
        assert(json_members_view(m@) =~= head + system_members(true, conversation@.system));
    } else {
        match &conversation.system {
            Some(s) => push_member(&mut m, "system", str_json(s.as_str())),
            None => {},
        }
        assert(json_members_view(m@) =~= head + system_members(false, conversation@.system));
    }
    push_tools(&mut m, tools);
    assert(json_members_view(m@) =~= body_head(model@, MAX_TOKENS, conversation@.messages)
        + system_members(oauth, conversation@.system) + tools_member(json_seq_view(tools@)));
    Json::Object(m)
}

/// The request body for `model`, `conversation` and the tools' definitions,
/// as the credential calls for.
pub fn build_request_body(
    credential: &Credential,
    model: &str,
    conversation: &Conversation,
    tools: &Vec<Json>,
) -> (r: Json)
    ensures
        r@ == request_body(credential@ is OAuthToken, model@, conversation@, json_seq_view(tools@)),
{
    body_for(credential.is_oauth(), model, conversation, tools)
}

} // verus!
