//! The HTTP server's handlers: a chat request turned into a conversation, and
//! the answer read back from the finished conversation.
use vstd::prelude::*;

use crate::conversation::{
    messages_view, BlockView, ContentBlock, Conversation, ConversationView, Message, MessageView,
    Role,
};
use crate::errors::{AppError, AppErrorView};
use crate::text::{push_str, str_eq, to_string};

verus! {

/// One message of a chat request.
pub struct ChatMessage {
    pub role: String,
    pub content: String,
}

/// A chat request: the messages and an optional system prompt.
pub struct ChatRequest {
    pub messages: Vec<ChatMessage>,
    pub system: Option<String>,
}

pub open spec fn chat_messages_view(v: Seq<ChatMessage>) -> Seq<(Seq<char>, Seq<char>)> {
    v.map_values(|m: ChatMessage| (m.role@, m.content@))
}

/// The answer to `GET /health`.
pub fn health() -> (r: &'static str)
    ensures
        r@ == "ok"@,
{
    "ok"
}

/// A user message holding `text`.
pub open spec fn user_message(text: Seq<char>) -> MessageView {
    MessageView { role: Role::User, content: seq![BlockView::Text { text }] }
}

/// The conversation a request asks for: its system prompt and one user
/// message per request message; refused when some message is not from the
/// user.
pub open spec fn request_conversation(
    ms: Seq<(Seq<char>, Seq<char>)>,
    system: Option<Seq<char>>,
) -> Result<ConversationView, AppErrorView> {
    if forall|i: int| 0 <= i < ms.len() ==> #[trigger] ms[i].0 == "user"@ {
        Ok(
            ConversationView {
                system,
                messages: ms.map_values(|m: (Seq<char>, Seq<char>)| user_message(m.1)),
            },
        )
    } else {
        Err(AppErrorView::BadRequest("only 'user' role is supported in request"@))
    }
}

/// The conversation that a chat request starts.
pub fn conversation_from_request(req: ChatRequest) -> (r: Result<Conversation, AppError>)
    ensures
        match r {
            Ok(c) => request_conversation(
                chat_messages_view(req.messages@),
                crate::conversation::opt_view(req.system),
            ) == Ok::<ConversationView, AppErrorView>(c@),
            Err(e) => request_conversation(
                chat_messages_view(req.messages@),
                crate::conversation::opt_view(req.system),
            ) == Err::<ConversationView, AppErrorView>(e@),
        },
{
    let ghost ms = chat_messages_view(req.messages@);
    let mut conversation = Conversation::new();
    conversation.system = req.system;
    let mut i: usize = 0;
    while i < req.messages.len()
        invariant
            i <= req.messages.len(),
            ms == chat_messages_view(req.messages@),
            conversation@.system == crate::conversation::opt_view(req.system),
            forall|k: int| 0 <= k < i ==> #[trigger] ms[k].0 == "user"@,
            conversation@.messages =~= ms.take(i as int).map_values(
                |m: (Seq<char>, Seq<char>)| user_message(m.1),
            ),
        decreases req.messages.len() - i,
    {
        proof {
            reveal_strlit("user");
        }
        if !str_eq(req.messages[i].role.as_str(), "user") {
            assert(ms[i as int].0 != "user"@);
            return Err(AppError::BadRequest(to_string("only 'user' role is supported in request")));
        }
        conversation.push(Message::user(req.messages[i].content.as_str()));
        i = i + 1;
        assert(ms.take(i as int) =~= ms.take(i - 1).push(ms[i - 1]));
    }
    assert(ms.take(i as int) =~= ms);
    Ok(conversation)
}

/// The text blocks of a message, joined.
pub open spec fn text_of(bs: Seq<BlockView>) -> Seq<char>
    decreases bs.len(),
{
    if bs.len() == 0 {
        Seq::empty()
    } else {
        text_of(bs.drop_last()) + match bs.last() {
            BlockView::Text { text } => text,
            _ => Seq::empty(),
        }
    }
}

/// The answer of a finished conversation: the text of its last assistant
/// message, or nothing when there is none.
pub open spec fn final_answer(ms: Seq<MessageView>) -> Seq<char>
    decreases ms.len(),
{
    if ms.len() == 0 {
        Seq::empty()
    } else if ms.last().role == Role::Assistant {
        text_of(ms.last().content)
    } else {
        final_answer(ms.drop_last())
    }
}

fn text_of_message(m: &Message) -> (r: String)
    ensures
        r@ == text_of(m@.content),
{
    let mut r = String::new();
    let mut i: usize = 0;
    while i < m.content.len()
        invariant
            i <= m.content.len(),
            r@ == text_of(m@.content.take(i as int)),
        decreases m.content.len() - i,
    {
        proof {
            assert(m@.content.take(i + 1).drop_last() =~= m@.content.take(i as int));
        }
        match &m.content[i] {
            ContentBlock::Text { text } => push_str(&mut r, text.as_str()),
            _ => {},
        }
        i = i + 1;
        assert(r@ =~= text_of(m@.content.take(i as int)));
    }
    assert(m@.content.take(m.content.len() as int) =~= m@.content);
    r
}

/// The answer of a finished conversation.
pub fn response_text(messages: &Vec<Message>) -> (r: String)
    ensures
        r@ == final_answer(messages_view(messages@)),
{
    let ghost mv = messages_view(messages@);
    let mut i: usize = messages.len();
    assert(mv.take(i as int) =~= mv);
    while i > 0
        invariant
            i <= messages.len(),
            mv == messages_view(messages@),
            final_answer(mv.take(i as int)) == final_answer(mv),
        decreases i,
    {
        proof {
            assert(mv.take(i as int).drop_last() =~= mv.take(i - 1));
            assert(mv.take(i as int).last() == messages@[i - 1]@);
        }
        if messages[i - 1].role == Role::Assistant {
            return text_of_message(&messages[i - 1]);
        }
        i = i - 1;
    }
    proof {
        assert(mv.take(0) =~= Seq::<MessageView>::empty());
    }
    String::new()
}

} // verus!
