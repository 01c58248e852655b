//! Provider-neutral chat model responses.
use vstd::prelude::*;

use crate::json::JsonView;
use crate::message::content::{join_text_blocks, text_of_blocks, BlockView, ContentBlock};
use crate::message::msg::{Msg, MsgView};
use crate::message::role::Role;
use crate::message::tool_call::{ToolCallBlock, ToolCallView};
use crate::message::usage::Usage;
use crate::message::{generate_id, generate_timestamp, is_generated_id, is_timestamp, Metadata};
use crate::text::text_option;
use crate::view::{lemma_views_take, views};

verus! {

/// Why a chat model stopped generating output.
#[derive(Clone, Copy, Debug, PartialEq, Eq, Hash, Structural)]
pub enum FinishReason {
    /// The model completed the response normally.
    Completed,
    /// The model reached an output or context length limit.
    Length,
    /// The model stopped to request one or more tool calls.
    ToolCalls,
    /// The provider's content filter stopped generation.
    ContentFilter,
    /// The caller interrupted generation.
    Interrupted,
}

/// The name of a finish reason.
pub open spec fn finish_reason_text(reason: FinishReason) -> Seq<char> {
    match reason {
        FinishReason::Completed => "completed"@,
        FinishReason::Length => "length"@,
        FinishReason::ToolCalls => "tool_calls"@,
        FinishReason::ContentFilter => "content_filter"@,
        FinishReason::Interrupted => "interrupted"@,
    }
}

impl FinishReason {
    /// The name of the reason.
    pub fn as_str(self) -> (name: &'static str)
        ensures
            name@ == finish_reason_text(self),
    {
        match self {
            FinishReason::Completed => "completed",
            FinishReason::Length => "length",
            FinishReason::ToolCalls => "tool_calls",
            FinishReason::ContentFilter => "content_filter",
            FinishReason::Interrupted => "interrupted",
        }
    }

    /// The name of the reason.
    pub fn to_string(&self) -> (name: String)
        ensures
            name@ == finish_reason_text(*self),
    {
        self.as_str().to_owned()
    }
}

/// A complete or partial provider-neutral chat model response.
#[derive(Debug, PartialEq, Eq)]
pub struct ChatResponse {
    /// Content accumulated in this response.
    pub content: Vec<ContentBlock>,
    /// Whether this response contains the complete model output.
    pub is_last: bool,
    /// The unique response identifier.
    pub id: String,
    /// The local creation time in ISO 8601 format.
    pub created_at: String,
    /// Token usage, when reported by the provider.
    pub usage: Option<Usage>,
    /// Why generation stopped, available on a final response.
    pub finish_reason: Option<FinishReason>,
    /// Provider-specific or application metadata.
    pub metadata: Metadata,
}

/// What a response holds.
#[verifier::ext_equal]
pub struct ResponseView {
    pub content: Seq<BlockView>,
    pub is_last: bool,
    pub id: Seq<char>,
    pub created_at: Seq<char>,
    pub usage: Option<Usage>,
    pub finish_reason: Option<FinishReason>,
    pub metadata: Map<Seq<char>, JsonView>,
}

impl View for ChatResponse {
    type V = ResponseView;

    open spec fn view(&self) -> ResponseView {
        ResponseView {
            content: views(self.content@),
            is_last: self.is_last,
            id: self.id@,
            created_at: self.created_at@,
            usage: self.usage,
            finish_reason: self.finish_reason,
            metadata: self.metadata@,
        }
    }
}

impl Clone for ChatResponse {
    fn clone(&self) -> (copied: ChatResponse)
        ensures
            copied@ == self@,
    {
        let content = self.content.clone();
        assert(views(content@) =~= views(self.content@));
        ChatResponse {
            content,
            is_last: self.is_last,
            id: self.id.clone(),
            created_at: self.created_at.clone(),
            usage: self.usage,
            finish_reason: self.finish_reason,
            metadata: self.metadata.clone(),
        }
    }
}

/// Whether a response is new, with content and an optional finish reason.
pub open spec fn is_new_response(
    response: ResponseView,
    content: Seq<BlockView>,
    finish_reason: Option<FinishReason>,
) -> bool {
    &&& response.content == content
    &&& response.is_last == (finish_reason is Some)
    &&& response.finish_reason == finish_reason
    &&& response.usage is None
    &&& response.metadata == Map::<Seq<char>, JsonView>::empty()
    &&& is_generated_id(response.id)
    &&& is_timestamp(response.created_at)
}

/// The tool calls among content blocks, in order.
pub open spec fn calls_of(blocks: Seq<BlockView>) -> Seq<ToolCallView>
    decreases blocks.len(),
{
    if blocks.len() == 0 {
        Seq::empty()
    } else {
        let rest = calls_of(blocks.drop_last());
        match blocks.last() {
            BlockView::ToolCall(call) => rest.push(call),
            _ => rest,
        }
    }
}

/// The tool calls among content blocks, in order.
pub fn tool_calls_in(blocks: &Vec<ContentBlock>) -> (calls: Vec<&ToolCallBlock>)
    ensures
        views(calls@) == calls_of(views(blocks@)),
{
    let mut calls: Vec<&ToolCallBlock> = Vec::new();
    let mut i: usize = 0;
    while i < blocks.len()
        invariant
            i <= blocks@.len(),
            views(calls@) == calls_of(views(blocks@.take(i as int))),
        decreases blocks@.len() - i,
    {
        proof {
            lemma_views_take(blocks@, i as int);
            assert(views(blocks@.take(i + 1)).drop_last() =~= views(blocks@.take(i as int)));
        }
        let ghost before = calls@;
        if let ContentBlock::ToolCall(call) = &blocks[i] {
            calls.push(call);
            assert(views(calls@) =~= views(before).push(call@));
        }
        i += 1;
    }
    assert(blocks@.take(blocks@.len() as int) =~= blocks@);
    calls
}

impl ChatResponse {
    /// Creates a partial response without a finish reason.
    pub fn partial(content: Vec<ContentBlock>) -> (response: ChatResponse)
        ensures
            is_new_response(response@, views(content@), None),
    {
        ChatResponse::new(content, false, None)
    }

    /// Creates a final response with the given finish reason.
    pub fn finished(content: Vec<ContentBlock>, reason: FinishReason) -> (response: ChatResponse)
        ensures
            is_new_response(response@, views(content@), Some(reason)),
    {
        ChatResponse::new(content, true, Some(reason))
    }

    /// Creates a normally completed final response.
    pub fn completed(content: Vec<ContentBlock>) -> (response: ChatResponse)
        ensures
            is_new_response(response@, views(content@), Some(FinishReason::Completed)),
    {
        ChatResponse::finished(content, FinishReason::Completed)
    }

    /// Attaches provider-reported token usage.
    pub fn with_usage(self, usage: Usage) -> (response: ChatResponse)
        ensures
            response@ == (ResponseView { usage: Some(usage), ..self@ }),
    {
        let mut response = self;
        response.usage = Some(usage);
        response
    }

    /// Replaces provider-specific or application metadata.
    pub fn with_metadata(self, metadata: Metadata) -> (response: ChatResponse)
        ensures
            response@ == (ResponseView { metadata: metadata@, ..self@ }),
    {
        let mut response = self;
        response.metadata = metadata;
        response
    }

    /// Concatenates all plain-text blocks with a separator between them.
    pub fn text_content(&self, separator: &str) -> (text: Option<String>)
        ensures
            text_option(text) == text_of_blocks(self@.content, separator@),
    {
        join_text_blocks(&self.content, separator)
    }

    /// The tool calls in their original content order.
    pub fn tool_calls(&self) -> (calls: Vec<&ToolCallBlock>)
        ensures
            views(calls@) == calls_of(self@.content),
    {
        tool_calls_in(&self.content)
    }

    /// Converts this response into an assistant message.
    pub fn into_assistant_msg(self, name: &str) -> (msg: Msg)
        ensures
            msg@ == (MsgView {
                name: name@,
                content: self@.content,
                role: Role::Assistant,
                id: msg@.id,
                metadata: self@.metadata,
                usage: self@.usage,
                created_at: msg@.created_at,
            }),
            is_generated_id(msg@.id),
            is_timestamp(msg@.created_at),
    {
        let mut message = Msg::new(name, Role::Assistant, self.content);
        message.metadata = self.metadata;
        message.usage = self.usage;
        message
    }

    fn new(
        content: Vec<ContentBlock>,
        is_last: bool,
        finish_reason: Option<FinishReason>,
    ) -> (response: ChatResponse)
        requires
            is_last == (finish_reason is Some),
        ensures
            is_new_response(response@, views(content@), finish_reason),
    {
        ChatResponse {
            content,
            is_last,
            id: generate_id(),
            created_at: generate_timestamp(),
            usage: None,
            finish_reason,
            metadata: Metadata::new(),
        }
    }
}

} // verus!
