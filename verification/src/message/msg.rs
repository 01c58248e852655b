//! Messages exchanged between agents, models, tools and users.
use vstd::prelude::*;

use super::content::{is_new_text, join_text_blocks, text_of_blocks, BlockView, ContentBlock};
use super::role::Role;
use super::usage::Usage;
use super::{generate_id, generate_timestamp, is_generated_id, is_timestamp, Metadata};
use crate::json::JsonView;
use crate::text::text_option;
use crate::view::views;

verus! {

/// A message exchanged within an application.
#[derive(Debug, PartialEq, Eq)]
pub struct Msg {
    /// The sender's display name or identity.
    pub name: String,
    /// The message content.
    pub content: Vec<ContentBlock>,
    /// The sender's role.
    pub role: Role,
    /// The unique message identifier.
    pub id: String,
    /// Arbitrary application metadata.
    pub metadata: Metadata,
    /// Token usage associated with this message, when reported by a model.
    pub usage: Option<Usage>,
    /// The local creation time in ISO 8601 format.
    pub created_at: String,
}

/// What a message holds.
#[verifier::ext_equal]
pub struct MsgView {
    pub name: Seq<char>,
    pub content: Seq<BlockView>,
    pub role: Role,
    pub id: Seq<char>,
    pub metadata: Map<Seq<char>, JsonView>,
    pub usage: Option<Usage>,
    pub created_at: Seq<char>,
}

impl View for Msg {
    type V = MsgView;

    open spec fn view(&self) -> MsgView {
        MsgView {
            name: self.name@,
            content: views(self.content@),
            role: self.role,
            id: self.id@,
            metadata: self.metadata@,
            usage: self.usage,
            created_at: self.created_at@,
        }
    }
}

impl Clone for Msg {
    fn clone(&self) -> (copied: Msg)
        ensures
            copied@ == self@,
    {
        let content = self.content.clone();
        assert(views(content@) =~= views(self.content@));
        Msg {
            name: self.name.clone(),
            content,
            role: self.role,
            id: self.id.clone(),
            metadata: self.metadata.clone(),
            usage: self.usage,
            created_at: self.created_at.clone(),
        }
    }
}

/// Whether a message is new, from a sender with a role and content.
pub open spec fn is_new_msg(
    msg: MsgView,
    name: Seq<char>,
    role: Role,
    content: Seq<BlockView>,
) -> bool {
    &&& msg.name == name
    &&& msg.role == role
    &&& msg.content == content
    &&& is_generated_id(msg.id)
    &&& msg.metadata == Map::<Seq<char>, JsonView>::empty()
    &&& msg.usage is None
    &&& is_timestamp(msg.created_at)
}

/// Whether a message is new and holds one new text block.
pub open spec fn is_new_text_msg(
    msg: MsgView,
    name: Seq<char>,
    role: Role,
    text: Seq<char>,
) -> bool {
    &&& is_new_msg(msg, name, role, msg.content)
    &&& msg.content.len() == 1
    &&& msg.content[0] matches BlockView::Text(block) && is_new_text(block, text)
}

impl Msg {
    /// Creates a message from typed content blocks.
    pub fn new(name: &str, role: Role, content: Vec<ContentBlock>) -> (msg: Msg)
        ensures
            is_new_msg(msg@, name@, role, views(content@)),
    {
        Msg {
            name: name.to_owned(),
            content,
            role,
            id: generate_id(),
            metadata: Metadata::new(),
            usage: None,
            created_at: generate_timestamp(),
        }
    }

    /// Creates a user message with the default sender name `user`.
    pub fn user(text: &str) -> (msg: Msg)
        ensures
            is_new_text_msg(msg@, "user"@, Role::User, text@),
    {
        Msg::text("user", Role::User, text)
    }

    /// Creates an assistant message.
    pub fn assistant(name: &str, text: &str) -> (msg: Msg)
        ensures
            is_new_text_msg(msg@, name@, Role::Assistant, text@),
    {
        Msg::text(name, Role::Assistant, text)
    }

    /// Creates a system message with the default sender name `system`.
    pub fn system(text: &str) -> (msg: Msg)
        ensures
            is_new_text_msg(msg@, "system"@, Role::System, text@),
    {
        Msg::text("system", Role::System, text)
    }

    /// Replaces this message's metadata.
    pub fn with_metadata(self, metadata: Metadata) -> (msg: Msg)
        ensures
            msg@ == (MsgView { metadata: metadata@, ..self@ }),
    {
        let mut msg = self;
        msg.metadata = metadata;
        msg
    }

    /// Attaches model token usage to this message.
    pub fn with_usage(self, usage: Usage) -> (msg: Msg)
        ensures
            msg@ == (MsgView { usage: Some(usage), ..self@ }),
    {
        let mut msg = self;
        msg.usage = Some(usage);
        msg
    }

    /// Concatenates all text blocks with a separator between them.
    pub fn text_content(&self, separator: &str) -> (text: Option<String>)
        ensures
            text_option(text) == text_of_blocks(self@.content, separator@),
    {
        join_text_blocks(&self.content, separator)
    }

    fn text(name: &str, role: Role, text: &str) -> (msg: Msg)
        ensures
            is_new_text_msg(msg@, name@, role, text@),
    {
        let mut content: Vec<ContentBlock> = Vec::new();
        content.push(ContentBlock::from(text));
        Msg::new(name, role, content)
    }
}

} // verus!
