//! The conversation that the engine, the provider and the session stores share.
use vstd::prelude::*;

use crate::json::{Json, JsonView};
use crate::text::to_string;

verus! {

/// Who wrote a message.
#[derive(Clone, Copy, Debug, PartialEq, Eq, Structural)]
pub enum Role {
    User,
    Assistant,
}

/// One piece of a message.
pub enum ContentBlock {
    Text { text: String },
    ToolUse { id: String, name: String, input: Json },
    ToolResult { tool_use_id: String, content: String, is_error: Option<bool> },
}

/// One message of a conversation.
pub struct Message {
    pub role: Role,
    pub content: Vec<ContentBlock>,
}

/// A system prompt and the messages exchanged so far.
pub struct Conversation {
    pub system: Option<String>,
    pub messages: Vec<Message>,
}

pub enum BlockView {
    Text { text: Seq<char> },
    ToolUse { id: Seq<char>, name: Seq<char>, input: JsonView },
    ToolResult { tool_use_id: Seq<char>, content: Seq<char>, is_error: Option<bool> },
}

pub struct MessageView {
    pub role: Role,
    pub content: Seq<BlockView>,
}

pub struct ConversationView {
    pub system: Option<Seq<char>>,
    pub messages: Seq<MessageView>,
}

impl View for ContentBlock {
    type V = BlockView;

    open spec fn view(&self) -> BlockView {
        match self {
            ContentBlock::Text { text } => BlockView::Text { text: text@ },
            ContentBlock::ToolUse { id, name, input } => BlockView::ToolUse {
                id: id@,
                name: name@,
                input: input@,
            },
            ContentBlock::ToolResult { tool_use_id, content, is_error } => BlockView::ToolResult {
                tool_use_id: tool_use_id@,
                content: content@,
                is_error: *is_error,
            },
        }
    }
}

/// The views of a list of blocks.
pub open spec fn blocks_view(v: Seq<ContentBlock>) -> Seq<BlockView> {
    v.map_values(|b: ContentBlock| b@)
}

impl View for Message {
    type V = MessageView;

    open spec fn view(&self) -> MessageView {
        MessageView { role: self.role, content: blocks_view(self.content@) }
    }
}

/// The views of a list of messages.
pub open spec fn messages_view(v: Seq<Message>) -> Seq<MessageView> {
    v.map_values(|m: Message| m@)
}

/// The view of an optional string.
pub open spec fn opt_view(o: Option<String>) -> Option<Seq<char>> {
    match o {
        Some(s) => Some(s@),
        None => None,
    }
}

impl View for Conversation {
    type V = ConversationView;

    open spec fn view(&self) -> ConversationView {
        ConversationView { system: opt_view(self.system), messages: messages_view(self.messages@) }
    }
}

/// A copy of an optional string.
pub fn copy_opt(o: &Option<String>) -> (r: Option<String>)
    ensures
        opt_view(r) == opt_view(*o),
{
    match o {
        Some(s) => Some(s.clone()),
        None => None,
    }
}

impl ContentBlock {
    /// A copy of the block.
    pub fn copy(&self) -> (r: ContentBlock)
        ensures
            r@ == self@,
    {
        match self {
            ContentBlock::Text { text } => ContentBlock::Text { text: text.clone() },
            ContentBlock::ToolUse { id, name, input } => ContentBlock::ToolUse {
                id: id.clone(),
                name: name.clone(),
                input: input.copy(),
            },
            ContentBlock::ToolResult { tool_use_id, content, is_error } => ContentBlock::ToolResult {
                tool_use_id: tool_use_id.clone(),
                content: content.clone(),
                is_error: *is_error,
            },
        }
    }

    /// A text block.
    pub fn text(s: &str) -> (r: ContentBlock)
        ensures
            r@ == (BlockView::Text { text: s@ }),
    {
        ContentBlock::Text { text: to_string(s) }
    }
}

/// A copy of a list of blocks.
pub fn copy_blocks(v: &Vec<ContentBlock>) -> (r: Vec<ContentBlock>)
    ensures
        blocks_view(r@) == blocks_view(v@),
{
    let mut r: Vec<ContentBlock> = Vec::new();
    let mut i: usize = 0;
    while i < v.len()
        invariant
            i <= v.len(),
            blocks_view(r@) == blocks_view(v@.take(i as int)),
        decreases v.len() - i,
    {
        let b = v[i].copy();
        proof {
            assert(blocks_view(r@.push(b)) =~= blocks_view(r@).push(b@));
            assert(blocks_view(v@.take(i + 1)) =~= blocks_view(v@.take(i as int)).push(
                v@[i as int]@,
            ));
        }
        r.push(b);
        i = i + 1;
    }
    assert(v@.take(v@.len() as int) =~= v@);
    r
}

impl Message {
    /// A user message made of one text block.
    pub fn user(text: &str) -> (m: Message)
        ensures
            m@ == (MessageView { role: Role::User, content: seq![BlockView::Text { text: text@ }] }),
    {
        let mut content: Vec<ContentBlock> = Vec::new();
        content.push(ContentBlock::text(text));
        let m = Message { role: Role::User, content };
        assert(blocks_view(m.content@) =~= seq![BlockView::Text { text: text@ }]);
        m
    }

    /// An assistant message made of `blocks`.
    pub fn assistant(blocks: Vec<ContentBlock>) -> (m: Message)
        ensures
            m@ == (MessageView { role: Role::Assistant, content: blocks_view(blocks@) }),
    {
        Message { role: Role::Assistant, content: blocks }
    }

    /// A copy of the message.
    pub fn copy(&self) -> (r: Message)
        ensures
            r@ == self@,
    {
        Message { role: self.role, content: copy_blocks(&self.content) }
    }
}

impl Conversation {
    /// An empty conversation without a system prompt.
    pub fn new() -> (c: Conversation)
        ensures
            c@ == (ConversationView { system: None, messages: Seq::empty() }),
    {
        let c = Conversation { system: None, messages: Vec::new() };
        assert(messages_view(c.messages@) =~= Seq::<MessageView>::empty());
        c
    }

    /// Appends a message.
    pub fn push(&mut self, m: Message)
        ensures
            final(self)@ == (ConversationView {
                system: old(self)@.system,
                messages: old(self)@.messages.push(m@),
            }),
    {
        self.messages.push(m);
        proof {
            assert(messages_view(self.messages@) =~= messages_view(old(self).messages@).push(m@));
        }
    }

    /// A copy of the conversation.
    pub fn copy(&self) -> (r: Conversation)
        ensures
            r@ == self@,
    {
        let mut messages: Vec<Message> = Vec::new();
        let mut i: usize = 0;
        while i < self.messages.len()
            invariant
                i <= self.messages.len(),
                messages_view(messages@) == messages_view(self.messages@.take(i as int)),
            decreases self.messages.len() - i,
        {
            let m = self.messages[i].copy();
            proof {
                assert(messages_view(messages@.push(m)) =~= messages_view(messages@).push(m@));
                assert(messages_view(self.messages@.take(i + 1)) =~= messages_view(
                    self.messages@.take(i as int),
                ).push(self.messages@[i as int]@));
            }
            messages.push(m);
            i = i + 1;
        }
        assert(self.messages@.take(self.messages@.len() as int) =~= self.messages@);
        Conversation { system: copy_opt(&self.system), messages }
    }
}

impl Default for Conversation {
    fn default() -> (c: Conversation)
        ensures
            c@ == (ConversationView { system: None, messages: Seq::empty() }),
    {
        Conversation::new()
    }
}

} // verus!
