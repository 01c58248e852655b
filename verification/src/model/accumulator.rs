//! Streaming chat response accumulation.
use vstd::prelude::*;

use super::event::{coded_text, ChatEvent, ChatEventView, ModelError, ModelErrorView};
use super::response::{is_new_response, ChatResponse, FinishReason, ResponseView};
use crate::json::{alike, parsed_json, schema_root, Json, JsonView};
use crate::message::content::{BlockView, ContentBlock, TextBlock, TextView};
use crate::message::data::DataView;
use crate::message::structured_output::{
    finish_error, structured_error_text, structured_finished, StructuredErrorView,
    StructuredOutputBlock, StructuredOutputError, StructuredOutputState, StructuredView,
};
use crate::message::thinking::{ThinkingBlock, ThinkingView};
use crate::message::tool_call::{
    call_error_text, call_identity_error, ToolCallBlock, ToolCallError, ToolCallErrorView,
    ToolCallState, ToolCallView,
};
use crate::message::usage::{no_usage, usage_sum, Usage};
use crate::message::{generate_timestamp, is_timestamp, lemma_some_time};
use crate::text::{append, blank, concat2, concat3, is_blank, same_text};
use crate::view::{lemma_views_push, view_option, views};

verus! {

/// An error returned while accumulating a chat event stream.
#[derive(Debug, PartialEq, Eq)]
pub enum ChatStreamError {
    /// An event arrived after a terminal event.
    AlreadyFinished,
    /// The response was requested before a terminal event arrived.
    NotFinished,
    /// A content delta contained a blank block identifier.
    EmptyBlockId,
    /// A block identifier was reused for a different content type.
    BlockTypeMismatch(String),
    /// Deltas for one tool call disagreed about its name.
    ToolNameMismatch {
        /// The tool call identifier.
        tool_call_id: String,
        /// The name supplied by the first delta.
        expected: String,
        /// The conflicting name.
        actual: String,
    },
    /// Deltas for one structured-output block used different schemas.
    SchemaMismatch(String),
    /// A tool call could not be constructed or completed.
    ToolCall(ToolCallError),
    /// Structured output could not be constructed or completed.
    StructuredOutput(StructuredOutputError),
    /// The model stream ended with a provider failure.
    Model(ModelError),
}

/// What a stream error holds.
#[verifier::ext_equal]
pub enum StreamErrorView {
    AlreadyFinished,
    NotFinished,
    EmptyBlockId,
    BlockTypeMismatch(Seq<char>),
    ToolNameMismatch { tool_call_id: Seq<char>, expected: Seq<char>, actual: Seq<char> },
    SchemaMismatch(Seq<char>),
    ToolCall(ToolCallErrorView),
    StructuredOutput(StructuredErrorView),
    Model(ModelErrorView),
}

impl View for ChatStreamError {
    type V = StreamErrorView;

    open spec fn view(&self) -> StreamErrorView {
        match self {
            ChatStreamError::AlreadyFinished => StreamErrorView::AlreadyFinished,
            ChatStreamError::NotFinished => StreamErrorView::NotFinished,
            ChatStreamError::EmptyBlockId => StreamErrorView::EmptyBlockId,
            ChatStreamError::BlockTypeMismatch(id) => StreamErrorView::BlockTypeMismatch(id@),
            ChatStreamError::ToolNameMismatch { tool_call_id, expected, actual } => StreamErrorView::ToolNameMismatch {
                tool_call_id: tool_call_id@,
                expected: expected@,
                actual: actual@,
            },
            ChatStreamError::SchemaMismatch(id) => StreamErrorView::SchemaMismatch(id@),
            ChatStreamError::ToolCall(error) => StreamErrorView::ToolCall(error@),
            ChatStreamError::StructuredOutput(error) => StreamErrorView::StructuredOutput(error@),
            ChatStreamError::Model(error) => StreamErrorView::Model(error@),
        }
    }
}

/// What a stream error says.
pub open spec fn stream_error_text(error: StreamErrorView) -> Seq<char> {
    match error {
        StreamErrorView::AlreadyFinished => "chat stream is already finished"@,
        StreamErrorView::NotFinished => "chat stream has not finished"@,
        StreamErrorView::EmptyBlockId => "content block id cannot be empty"@,
        StreamErrorView::BlockTypeMismatch(id) => "content block `"@ + id + "` changed type"@,
        StreamErrorView::ToolNameMismatch { tool_call_id, expected, actual } => "tool call `"@
            + tool_call_id + "` changed name from `"@ + expected + "` to `"@ + actual + "`"@,
        StreamErrorView::SchemaMismatch(id) => "structured-output block `"@ + id
            + "` changed schema"@,
        StreamErrorView::ToolCall(error) => "invalid streamed tool call: "@ + call_error_text(
            error,
        ),
        StreamErrorView::StructuredOutput(error) => "invalid streamed structured output: "@
            + structured_error_text(error),
        StreamErrorView::Model(error) => coded_text("model error"@, error.code, error.message),
    }
}

impl ChatStreamError {
    /// What the error says.
    pub fn to_string(&self) -> (text: String)
        ensures
            text@ == stream_error_text(self@),
    {
        match self {
            ChatStreamError::AlreadyFinished => "chat stream is already finished".to_owned(),
            ChatStreamError::NotFinished => "chat stream has not finished".to_owned(),
            ChatStreamError::EmptyBlockId => "content block id cannot be empty".to_owned(),
            ChatStreamError::BlockTypeMismatch(id) => concat3(
                "content block `",
                id.as_str(),
                "` changed type",
            ),
            ChatStreamError::ToolNameMismatch { tool_call_id, expected, actual } => {
                let mut text = concat3("tool call `", tool_call_id.as_str(), "` changed name from `");
                append(&mut text, expected.as_str());
                append(&mut text, "` to `");
                append(&mut text, actual.as_str());
                append(&mut text, "`");
                text
            },
            ChatStreamError::SchemaMismatch(id) => concat3(
                "structured-output block `",
                id.as_str(),
                "` changed schema",
            ),
            ChatStreamError::ToolCall(error) => concat2(
                "invalid streamed tool call: ",
                error.to_string().as_str(),
            ),
            ChatStreamError::StructuredOutput(error) => concat2(
                "invalid streamed structured output: ",
                error.to_string().as_str(),
            ),
            ChatStreamError::Model(error) => error.to_string(),
        }
    }
}

impl From<ToolCallError> for ChatStreamError {
    fn from(error: ToolCallError) -> (converted: ChatStreamError) {
        ChatStreamError::ToolCall(error)
    }
}

impl vstd::std_specs::convert::FromSpecImpl<ToolCallError> for ChatStreamError {
    open spec fn obeys_from_spec() -> bool {
        true
    }

    open spec fn from_spec(error: ToolCallError) -> ChatStreamError {
        ChatStreamError::ToolCall(error)
    }
}

impl From<StructuredOutputError> for ChatStreamError {
    fn from(error: StructuredOutputError) -> (converted: ChatStreamError) {
        ChatStreamError::StructuredOutput(error)
    }
}

impl vstd::std_specs::convert::FromSpecImpl<StructuredOutputError> for ChatStreamError {
    open spec fn obeys_from_spec() -> bool {
        true
    }

    open spec fn from_spec(error: StructuredOutputError) -> ChatStreamError {
        ChatStreamError::StructuredOutput(error)
    }
}

/// The identifier of a content block.
pub open spec fn block_id(block: BlockView) -> Seq<char> {
    match block {
        BlockView::Text(block) => block.id,
        BlockView::Thinking(block) => block.id,
        BlockView::ToolCall(block) => block.id,
        BlockView::ToolResult(block) => block.id,
        BlockView::StructuredOutput(block) => block.id,
        BlockView::Data(block) => block.id,
    }
}

/// The index of the first block with an identifier.
pub open spec fn block_index(content: Seq<BlockView>, id: Seq<char>) -> Option<int>
    decreases content.len(),
{
    if content.len() == 0 {
        None
    } else {
        match block_index(content.drop_last(), id) {
            Some(index) => Some(index),
            None => if block_id(content.last()) == id {
                Some(content.len() - 1)
            } else {
                None
            },
        }
    }
}

/// The content after a text delta that may start a block at a time.
pub open spec fn with_text_delta(
    content: Seq<BlockView>,
    id: Seq<char>,
    delta: Seq<char>,
    time: Seq<char>,
) -> Result<Seq<BlockView>, StreamErrorView> {
    if blank(id) {
        Err(StreamErrorView::EmptyBlockId)
    } else {
        match block_index(content, id) {
            Some(index) => match content[index] {
                BlockView::Text(block) => Ok(
                    content.update(
                        index,
                        BlockView::Text(TextView { text: block.text + delta, ..block }),
                    ),
                ),
                _ => Err(StreamErrorView::BlockTypeMismatch(id)),
            },
            None => Ok(
                content.push(
                    BlockView::Text(
                        TextView { text: delta, id, created_at: time, finished_at: None },
                    ),
                ),
            ),
        }
    }
}

/// The content after a reasoning delta that may start a block at a time.
pub open spec fn with_thinking_delta(
    content: Seq<BlockView>,
    id: Seq<char>,
    delta: Seq<char>,
    time: Seq<char>,
) -> Result<Seq<BlockView>, StreamErrorView> {
    if blank(id) {
        Err(StreamErrorView::EmptyBlockId)
    } else {
        match block_index(content, id) {
            Some(index) => match content[index] {
                BlockView::Thinking(block) => Ok(
                    content.update(
                        index,
                        BlockView::Thinking(
                            ThinkingView { thinking: block.thinking + delta, ..block },
                        ),
                    ),
                ),
                _ => Err(StreamErrorView::BlockTypeMismatch(id)),
            },
            None => Ok(
                content.push(
                    BlockView::Thinking(
                        ThinkingView {
                            thinking: delta,
                            id,
                            created_at: time,
                            finished_at: None,
                            extra: Map::empty(),
                        },
                    ),
                ),
            ),
        }
    }
}

/// The content after a tool call delta that may start a call at a time.
pub open spec fn with_call_delta(
    content: Seq<BlockView>,
    id: Seq<char>,
    name: Seq<char>,
    delta: Seq<char>,
    time: Seq<char>,
) -> Result<Seq<BlockView>, StreamErrorView> {
    match block_index(content, id) {
        Some(index) => match content[index] {
            BlockView::ToolCall(block) => if block.name == name {
                Ok(
                    content.update(
                        index,
                        BlockView::ToolCall(ToolCallView { input: block.input + delta, ..block }),
                    ),
                )
            } else {
                Err(
                    StreamErrorView::ToolNameMismatch {
                        tool_call_id: id,
                        expected: block.name,
                        actual: name,
                    },
                )
            },
            _ => Err(StreamErrorView::BlockTypeMismatch(id)),
        },
        None => match call_identity_error(id, name) {
            Some(error) => Err(StreamErrorView::ToolCall(error)),
            None => Ok(
                content.push(
                    BlockView::ToolCall(
                        ToolCallView {
                            id,
                            name,
                            input: delta,
                            state: ToolCallState::Pending,
                            suggested_rules: Seq::empty(),
                            created_at: time,
                            finished_at: None,
                        },
                    ),
                ),
            ),
        },
    }
}

/// The content after a structured-output delta that may start a block at a time.
pub open spec fn with_structured_delta(
    content: Seq<BlockView>,
    id: Seq<char>,
    schema: JsonView,
    delta: Seq<char>,
    time: Seq<char>,
) -> Result<Seq<BlockView>, StreamErrorView> {
    if blank(id) {
        Err(StreamErrorView::EmptyBlockId)
    } else {
        match block_index(content, id) {
            Some(index) => match content[index] {
                BlockView::StructuredOutput(block) => if !alike(block.schema, schema) {
                    Err(StreamErrorView::SchemaMismatch(id))
                } else if block.state == StructuredOutputState::Complete {
                    Err(StreamErrorView::StructuredOutput(StructuredErrorView::AlreadyComplete))
                } else {
                    Ok(
                        content.update(
                            index,
                            BlockView::StructuredOutput(
                                StructuredView { output: block.output + delta, ..block },
                            ),
                        ),
                    )
                },
                _ => Err(StreamErrorView::BlockTypeMismatch(id)),
            },
            None => if schema_root(schema) {
                Ok(
                    content.push(
                        BlockView::StructuredOutput(
                            StructuredView {
                                schema,
                                output: delta,
                                state: StructuredOutputState::Streaming,
                                id,
                                created_at: time,
                                finished_at: None,
                            },
                        ),
                    ),
                )
            } else {
                Err(StreamErrorView::StructuredOutput(StructuredErrorView::InvalidSchema))
            },
        }
    }
}

/// What stops a block from being finished, if anything.
pub open spec fn block_fault(block: BlockView) -> Option<StreamErrorView> {
    match block {
        BlockView::ToolCall(call) => match parsed_json(call.input) {
            Err(fault) => Some(StreamErrorView::ToolCall(ToolCallErrorView::InvalidInput(fault))),
            Ok(_) => None,
        },
        BlockView::StructuredOutput(output) => match finish_error(output) {
            Some(error) => Some(StreamErrorView::StructuredOutput(error)),
            None => None,
        },
        _ => None,
    }
}

/// What stops content from being finished: the fault of the first block with one.
pub open spec fn content_fault(content: Seq<BlockView>) -> Option<StreamErrorView>
    decreases content.len(),
{
    if content.len() == 0 {
        None
    } else {
        match content_fault(content.drop_last()) {
            Some(fault) => Some(fault),
            None => block_fault(content.last()),
        }
    }
}

/// Whether `after` is `before` finished at a time.
pub open spec fn block_finished(before: BlockView, after: BlockView, time: Seq<char>) -> bool {
    match before {
        BlockView::Text(block) => after == BlockView::Text(
            TextView { finished_at: Some(time), ..block },
        ),
        BlockView::Thinking(block) => after == BlockView::Thinking(
            ThinkingView { finished_at: Some(time), ..block },
        ),
        BlockView::ToolCall(block) => after == BlockView::ToolCall(
            ToolCallView { state: ToolCallState::Finished, finished_at: Some(time), ..block },
        ),
        BlockView::StructuredOutput(block) => after matches BlockView::StructuredOutput(finished)
            && structured_finished(block, finished),
        BlockView::Data(block) => after == BlockView::Data(
            DataView { finished_at: Some(time), ..block },
        ),
        BlockView::ToolResult(_) => after == before,
    }
}

/// Whether every block of `after` is the block of `before` finished at a time.
pub open spec fn content_finished(
    before: Seq<BlockView>,
    after: Seq<BlockView>,
    time: Seq<char>,
) -> bool {
    after.len() == before.len() && forall|i: int|
        0 <= i < before.len() ==> block_finished(#[trigger] before[i], after[i], time)
}

/// Accumulates incremental chat events into one final [`ChatResponse`].
#[derive(Debug)]
pub struct ChatResponseAccumulator {
    pub(crate) response: ChatResponse,
    pub(crate) pending_usage: Option<Usage>,
    pub(crate) terminal_error: Option<ModelError>,
    pub(crate) finished: bool,
}

/// What an accumulator holds.
#[verifier::ext_equal]
pub struct AccumulatorView {
    pub response: ResponseView,
    pub pending_usage: Option<Usage>,
    pub terminal_error: Option<ModelErrorView>,
    pub finished: bool,
}

impl View for ChatResponseAccumulator {
    type V = AccumulatorView;

    open(crate) spec fn view(&self) -> AccumulatorView {
        AccumulatorView {
            response: self.response@,
            pending_usage: self.pending_usage,
            terminal_error: view_option(self.terminal_error),
            finished: self.finished,
        }
    }
}

impl AccumulatorView {
    /// Whether a terminal event has arrived.
    pub open spec fn closed(self) -> bool {
        self.finished || self.terminal_error is Some
    }

    /// The same, with other content.
    pub open spec fn with_content(self, content: Seq<BlockView>) -> AccumulatorView {
        AccumulatorView { response: ResponseView { content, ..self.response }, ..self }
    }
}

/// Whether a result of changing content is right for what was due.
pub open spec fn content_outcome(
    before: AccumulatorView,
    due: Result<Seq<BlockView>, StreamErrorView>,
    after: AccumulatorView,
    result: Result<(), StreamErrorView>,
) -> bool {
    match due {
        Ok(content) => result == Ok::<(), StreamErrorView>(()) && after == before.with_content(
            content,
        ),
        Err(error) => result == Err::<(), StreamErrorView>(error) && after == before,
    }
}

/// The content that is due after a content delta at a time.
pub open spec fn due_content(
    content: Seq<BlockView>,
    event: ChatEventView,
    time: Seq<char>,
) -> Result<Seq<BlockView>, StreamErrorView> {
    match event {
        ChatEventView::TextDelta { block_id, delta } => with_text_delta(
            content,
            block_id,
            delta,
            time,
        ),
        ChatEventView::ThinkingDelta { block_id, delta } => with_thinking_delta(
            content,
            block_id,
            delta,
            time,
        ),
        ChatEventView::ToolCallDelta { tool_call_id, tool_name, delta } => with_call_delta(
            content,
            tool_call_id,
            tool_name,
            delta,
            time,
        ),
        ChatEventView::StructuredOutputDelta { block_id, schema, delta } => with_structured_delta(
            content,
            block_id,
            schema,
            delta,
            time,
        ),
        _ => Ok(content),
    }
}

/// Whether a finished state results from a state that could be finished.
pub open spec fn finish_outcome(
    before: AccumulatorView,
    reason: FinishReason,
    after: AccumulatorView,
    result: Result<(), StreamErrorView>,
) -> bool {
    match content_fault(before.response.content) {
        Some(fault) => result == Err::<(), StreamErrorView>(fault) && after == before,
        None => {
            &&& result == Ok::<(), StreamErrorView>(())
            &&& after == (AccumulatorView {
                response: ResponseView {
                    content: after.response.content,
                    is_last: true,
                    finish_reason: Some(reason),
                    usage: before.pending_usage,
                    ..before.response
                },
                finished: true,
                ..before
            })
            &&& exists|time: Seq<char>| #[trigger]
                is_timestamp(time) && content_finished(
                    before.response.content,
                    after.response.content,
                    time,
                )
        },
    }
}

/// Whether applying an event to one state gives another, with a result.
pub open spec fn apply_outcome(
    before: AccumulatorView,
    event: ChatEventView,
    after: AccumulatorView,
    result: Result<(), StreamErrorView>,
) -> bool {
    if before.closed() {
        after == before && result == Err::<(), StreamErrorView>(StreamErrorView::AlreadyFinished)
    } else {
        match event {
            ChatEventView::Usage { usage } => {
                &&& result == Ok::<(), StreamErrorView>(())
                &&& after == (AccumulatorView {
                    pending_usage: Some(
                        match before.pending_usage {
                            Some(sum) => usage_sum(sum, usage),
                            None => usage_sum(no_usage(), usage),
                        },
                    ),
                    ..before
                })
            },
            ChatEventView::Finished { reason } => finish_outcome(before, reason, after, result),
            ChatEventView::Error { error } => {
                &&& result == Ok::<(), StreamErrorView>(())
                &&& after == (AccumulatorView { terminal_error: Some(error), ..before })
            },
            _ => exists|time: Seq<char>| #[trigger]
                is_timestamp(time) && content_outcome(
                    before,
                    due_content(before.response.content, event, time),
                    after,
                    result,
                ),
        }
    }
}

/// A result with the error's view in place of the error.
pub open spec fn unit_view<E: View>(result: Result<(), E>) -> Result<(), E::V> {
    match result {
        Ok(()) => Ok(()),
        Err(error) => Err(error@),
    }
}

/// An index found is in range and holds the block.
pub proof fn lemma_block_index(content: Seq<BlockView>, id: Seq<char>)
    ensures
        match block_index(content, id) {
            Some(index) => 0 <= index < content.len() && block_id(content[index]) == id && forall|
                j: int,
            |
                0 <= j < index ==> block_id(#[trigger] content[j]) != id,
            None => forall|j: int| 0 <= j < content.len() ==> block_id(#[trigger] content[j]) != id,
        },
    decreases content.len(),
{
    if content.len() > 0 {
        let shorter = content.drop_last();
        lemma_block_index(shorter, id);
        match block_index(shorter, id) {
            Some(index) => {
                assert(content[index] == shorter[index]);
                assert forall|j: int| 0 <= j < index implies block_id(#[trigger] content[j]) != id by {
                    assert(content[j] == shorter[j]);
                }
            },
            None => {
                assert forall|j: int| 0 <= j < content.len() - 1 implies block_id(
                    #[trigger] content[j],
                ) != id by {
                    assert(content[j] == shorter[j]);
                }
            },
        }
    }
}

impl ChatResponseAccumulator {
    /// Creates an empty response accumulator.
    pub fn new() -> (accumulator: ChatResponseAccumulator)
        ensures
            is_new_response(accumulator@.response, Seq::empty(), None),
            accumulator@.pending_usage is None,
            accumulator@.terminal_error is None,
            !accumulator@.finished,
    {
        let content: Vec<ContentBlock> = Vec::new();
        assert(views(content@) =~= Seq::<BlockView>::empty());
        ChatResponseAccumulator {
            response: ChatResponse::partial(content),
            pending_usage: None,
            terminal_error: None,
            finished: false,
        }
    }

    /// Applies one streaming event.
    pub fn apply(&mut self, event: ChatEvent) -> (result: Result<(), ChatStreamError>)
        ensures
            apply_outcome(old(self)@, event@, final(self)@, unit_view(result)),
    {
        if self.is_finished() {
            return Err(ChatStreamError::AlreadyFinished);
        }
        match event {
            ChatEvent::TextDelta { block_id, delta } => self.apply_text_delta(
                block_id,
                delta.as_str(),
            ),
            ChatEvent::ThinkingDelta { block_id, delta } => self.apply_thinking_delta(
                block_id,
                delta.as_str(),
            ),
            ChatEvent::ToolCallDelta { tool_call_id, tool_name, delta } => self.apply_tool_call_delta(
                tool_call_id,
                tool_name,
                delta.as_str(),
            ),
            ChatEvent::StructuredOutputDelta { block_id, schema, delta } => self.apply_structured_output_delta(
                block_id,
                schema,
                delta.as_str(),
            ),
            ChatEvent::Usage { usage } => {
                let sum = match self.pending_usage {
                    Some(sum) => sum,
                    None => Usage::default(),
                };
                self.pending_usage = Some(sum.plus(usage));
                Ok(())
            },
            ChatEvent::Finished { reason } => self.finish(reason),
            ChatEvent::Error { error } => {
                self.terminal_error = Some(error);
                Ok(())
            },
        }
    }

    /// The response accumulated so far. Pending usage stays hidden until a
    /// successful finish event.
    pub fn response(&self) -> (response: &ChatResponse)
        ensures
            response@ == self@.response,
    {
        &self.response
    }

    /// Whether a successful or error terminal event has arrived.
    pub fn is_finished(&self) -> (finished: bool)
        ensures
            finished == self@.closed(),
    {
        self.finished || self.terminal_error.is_some()
    }

    /// Consumes the accumulator and returns the final response.
    pub fn into_response(self) -> (result: Result<ChatResponse, ChatStreamError>)
        ensures
            match result {
                Ok(response) => self@.terminal_error is None && self@.finished && response@
                    == self@.response,
                Err(error) => match self@.terminal_error {
                    Some(expected) => error@ == StreamErrorView::Model(expected),
                    None => !self@.finished && error@ == StreamErrorView::NotFinished,
                },
            },
    {
        if let Some(error) = self.terminal_error {
            Err(ChatStreamError::Model(error))
        } else if self.finished {
            Ok(self.response)
        } else {
            Err(ChatStreamError::NotFinished)
        }
    }

    fn apply_text_delta(&mut self, id: String, delta: &str) -> (result: Result<
        (),
        ChatStreamError,
    >)
        ensures
            exists|time: Seq<char>| #[trigger]
                is_timestamp(time) && content_outcome(
                    old(self)@,
                    with_text_delta(old(self)@.response.content, id@, delta@, time),
                    final(self)@,
                    unit_view(result),
                ),
    {
        let ghost before = views(self.response.content@);
        proof {
            lemma_some_time();
        }
        if let Err(error) = validate_block_id(id.as_str()) {
            return Err(error);
        }
        if let Some(index) = find_block(&self.response.content, id.as_str()) {
            let result = match &mut self.response.content[index] {
                ContentBlock::Text(block) => {
                    append(&mut block.text, delta);
                    Ok(())
                },
                _ => Err(ChatStreamError::BlockTypeMismatch(id)),
            };
            proof {
                assert(views(self.response.content@) =~= before.update(
                    index as int,
                    self.response.content@[index as int]@,
                ));
                assert(before.update(index as int, before[index as int]) =~= before);
            }
            result
        } else {
            let mut block = TextBlock::new(delta);
            assert(is_timestamp(block@.created_at));
            block.id = id;
            proof {
                lemma_views_push(self.response.content@, ContentBlock::Text(block));
            }
            self.response.content.push(ContentBlock::Text(block));
            Ok(())
        }
    }

    fn apply_thinking_delta(&mut self, id: String, delta: &str) -> (result: Result<
        (),
        ChatStreamError,
    >)
        ensures
            exists|time: Seq<char>| #[trigger]
                is_timestamp(time) && content_outcome(
                    old(self)@,
                    with_thinking_delta(old(self)@.response.content, id@, delta@, time),
                    final(self)@,
                    unit_view(result),
                ),
    {
        let ghost before = views(self.response.content@);
        proof {
            lemma_some_time();
        }
        if let Err(error) = validate_block_id(id.as_str()) {
            return Err(error);
        }
        if let Some(index) = find_block(&self.response.content, id.as_str()) {
            let result = match &mut self.response.content[index] {
                ContentBlock::Thinking(block) => {
                    append(&mut block.thinking, delta);
                    Ok(())
                },
                _ => Err(ChatStreamError::BlockTypeMismatch(id)),
            };
            proof {
                assert(views(self.response.content@) =~= before.update(
                    index as int,
                    self.response.content@[index as int]@,
                ));
                assert(before.update(index as int, before[index as int]) =~= before);
            }
            result
        } else {
            let mut block = ThinkingBlock::new(delta);
            assert(is_timestamp(block@.created_at));
            block.id = id;
            proof {
                lemma_views_push(self.response.content@, ContentBlock::Thinking(block));
            }
            self.response.content.push(ContentBlock::Thinking(block));
            Ok(())
        }
    }

    fn apply_tool_call_delta(&mut self, id: String, name: String, delta: &str) -> (result: Result<
        (),
        ChatStreamError,
    >)
        ensures
            exists|time: Seq<char>| #[trigger]
                is_timestamp(time) && content_outcome(
                    old(self)@,
                    with_call_delta(old(self)@.response.content, id@, name@, delta@, time),
                    final(self)@,
                    unit_view(result),
                ),
    {
        let ghost before = views(self.response.content@);
        proof {
            lemma_some_time();
        }
        if let Some(index) = find_block(&self.response.content, id.as_str()) {
            let result = match &mut self.response.content[index] {
                ContentBlock::ToolCall(block) => {
                    if same_text(block.name(), name.as_str()) {
                        block.append_input(delta);
                        Ok(())
                    } else {
                        Err(
                            ChatStreamError::ToolNameMismatch {
                                tool_call_id: id,
                                expected: block.name().to_owned(),
                                actual: name,
                            },
                        )
                    }
                },
                _ => Err(ChatStreamError::BlockTypeMismatch(id)),
            };
            proof {
                assert(views(self.response.content@) =~= before.update(
                    index as int,
                    self.response.content@[index as int]@,
                ));
                assert(before.update(index as int, before[index as int]) =~= before);
            }
            result
        } else {
            match ToolCallBlock::streaming(id.as_str(), name.as_str()) {
                Err(error) => Err(ChatStreamError::ToolCall(error)),
                Ok(mut block) => {
                    assert(is_timestamp(block@.created_at));
                    block.append_input(delta);
                    proof {
                        assert(block@.input =~= delta@);
                        assert(block@.suggested_rules =~= Seq::empty());
                        lemma_views_push(self.response.content@, ContentBlock::ToolCall(block));
                    }
                    self.response.content.push(ContentBlock::ToolCall(block));
                    Ok(())
                },
            }
        }
    }

    fn apply_structured_output_delta(&mut self, id: String, schema: Json, delta: &str) -> (result:
        Result<(), ChatStreamError>)
        ensures
            exists|time: Seq<char>| #[trigger]
                is_timestamp(time) && content_outcome(
                    old(self)@,
                    with_structured_delta(
                        old(self)@.response.content,
                        id@,
                        schema@,
                        delta@,
                        time,
                    ),
                    final(self)@,
                    unit_view(result),
                ),
    {
        let ghost before = views(self.response.content@);
        proof {
            lemma_some_time();
        }
        if let Err(error) = validate_block_id(id.as_str()) {
            return Err(error);
        }
        if let Some(index) = find_block(&self.response.content, id.as_str()) {
            let result = match &mut self.response.content[index] {
                ContentBlock::StructuredOutput(block) => {
                    if block.schema().same(&schema) {
                        let result = block.append_output_delta(delta);
                        match result {
                            Ok(()) => Ok(()),
                            Err(error) => Err(ChatStreamError::StructuredOutput(error)),
                        }
                    } else {
                        Err(ChatStreamError::SchemaMismatch(id))
                    }
                },
                _ => Err(ChatStreamError::BlockTypeMismatch(id)),
            };
            proof {
                assert(views(self.response.content@) =~= before.update(
                    index as int,
                    self.response.content@[index as int]@,
                ));
                assert(before.update(index as int, before[index as int]) =~= before);
            }
            result
        } else {
            match StructuredOutputBlock::streaming(schema) {
                Err(error) => Err(ChatStreamError::StructuredOutput(error)),
                Ok(mut block) => {
                    assert(is_timestamp(block@.created_at));
                    block.id = id;
                    match block.append_output_delta(delta) {
                        Err(error) => Err(ChatStreamError::StructuredOutput(error)),
                        Ok(()) => {
                            proof {
                                assert(block@.output =~= delta@);
                                lemma_views_push(
                                    self.response.content@,
                                    ContentBlock::StructuredOutput(block),
                                );
                            }
                            self.response.content.push(ContentBlock::StructuredOutput(block));
                            Ok(())
                        },
                    }
                },
            }
        }
    }

    fn finish(&mut self, reason: FinishReason) -> (result: Result<(), ChatStreamError>)
        ensures
            finish_outcome(old(self)@, reason, final(self)@, unit_view(result)),
    {
        let mut content = self.response.content.clone();
        assert(views(content@) =~= views(self.response.content@));
        match finish_blocks(&mut content) {
            Err(error) => Err(error),
            Ok(()) => {
                self.response.content = content;
                self.response.is_last = true;
                self.response.finish_reason = Some(reason);
                self.response.usage = self.pending_usage;
                self.finished = true;
                Ok(())
            },
        }
    }
}

impl Default for ChatResponseAccumulator {
    fn default() -> (accumulator: ChatResponseAccumulator)
        ensures
            is_new_response(accumulator@.response, Seq::empty(), None),
            accumulator@.pending_usage is None,
            accumulator@.terminal_error is None,
            !accumulator@.finished,
    {
        ChatResponseAccumulator::new()
    }
}

/// The index of the first block with an identifier.
pub fn find_block(content: &Vec<ContentBlock>, id: &str) -> (index: Option<usize>)
    ensures
        match index {
            Some(i) => block_index(views(content@), id@) == Some(i as int) && i < content@.len(),
            None => block_index(views(content@), id@) is None,
        },
{
    let mut i: usize = 0;
    while i < content.len()
        invariant
            i <= content@.len(),
            forall|j: int| 0 <= j < i ==> block_id((#[trigger] content@[j])@) != id@,
        decreases content@.len() - i,
    {
        if same_text(content_block_id(&content[i]), id) {
            proof {
                lemma_block_index(views(content@), id@);
                match block_index(views(content@), id@) {
                    Some(found) => {
                        assert(views(content@)[found] == content@[found]@);
                        assert(views(content@)[i as int] == content@[i as int]@);
                    },
                    None => {
                        assert(views(content@)[i as int] == content@[i as int]@);
                    },
                }
            }
            return Some(i);
        }
        i += 1;
    }
    proof {
        lemma_block_index(views(content@), id@);
        if let Some(found) = block_index(views(content@), id@) {
            assert(views(content@)[found] == content@[found]@);
        }
    }
    None
}

/// The identifier of a content block.
pub fn content_block_id(block: &ContentBlock) -> (id: &str)
    ensures
        id@ == block_id(block@),
{
    match block {
        ContentBlock::Text(block) => block.id.as_str(),
        ContentBlock::Thinking(block) => block.id.as_str(),
        ContentBlock::ToolCall(block) => block.id(),
        ContentBlock::ToolResult(block) => block.id(),
        ContentBlock::StructuredOutput(block) => block.id.as_str(),
        ContentBlock::Data(block) => block.id.as_str(),
    }
}

/// Finishes one block at a time.
fn finish_block(block: &mut ContentBlock, time: &String) -> (result: Result<(), ChatStreamError>)
    ensures
        match result {
            Ok(()) => block_fault(old(block)@) is None && block_finished(
                old(block)@,
                final(block)@,
                time@,
            ),
            Err(error) => block_fault(old(block)@) == Some(error@),
        },
{
    match block {
        ContentBlock::Text(block) => {
            block.finished_at = Some(time.clone());
            Ok(())
        },
        ContentBlock::Thinking(block) => {
            block.finished_at = Some(time.clone());
            Ok(())
        },
        ContentBlock::ToolCall(block) => match block.parsed_input() {
            Err(error) => Err(ChatStreamError::ToolCall(error)),
            Ok(_) => {
                block.state = ToolCallState::Finished;
                block.finished_at = Some(time.clone());
                Ok(())
            },
        },
        ContentBlock::StructuredOutput(block) => match block.finish() {
            Err(error) => Err(ChatStreamError::StructuredOutput(error)),
            Ok(()) => Ok(()),
        },
        ContentBlock::Data(block) => {
            block.finished_at = Some(time.clone());
            Ok(())
        },
        ContentBlock::ToolResult(_) => Ok(()),
    }
}

/// A fault in a part of the content is the fault of the content.
proof fn lemma_content_fault(content: Seq<BlockView>, count: int)
    requires
        0 <= count <= content.len(),
        content_fault(content.take(count)) is Some,
    ensures
        content_fault(content) == content_fault(content.take(count)),
    decreases content.len() - count,
{
    if count < content.len() {
        assert(content.take(count + 1).drop_last() =~= content.take(count));
        lemma_content_fault(content, count + 1);
    } else {
        assert(content.take(count) =~= content);
    }
}

/// Finishes all blocks at one time, or reports the first fault.
pub fn finish_blocks(content: &mut Vec<ContentBlock>) -> (result: Result<(), ChatStreamError>)
    ensures
        match result {
            Ok(()) => content_fault(views(old(content)@)) is None && exists|time: Seq<char>|
                #[trigger]
                is_timestamp(time) && content_finished(
                    views(old(content)@),
                    views(final(content)@),
                    time,
                ),
            Err(error) => content_fault(views(old(content)@)) == Some(error@),
        },
{
    let time = generate_timestamp();
    let ghost before = views(content@);
    let mut i: usize = 0;
    while i < content.len()
        invariant
            i <= content@.len(),
            content@.len() == before.len(),
            before == views(old(content)@),
            content_fault(before.take(i as int)) is None,
            forall|j: int|
                0 <= j < i ==> block_finished(#[trigger] before[j], content@[j]@, time@),
            forall|j: int| i <= j < before.len() ==> before[j] == (#[trigger] content@[j])@,
        decreases content@.len() - i,
    {
        proof {
            assert(before.take(i + 1).drop_last() =~= before.take(i as int));
            assert(before[i as int] == content@[i as int]@);
        }
        if let Err(error) = finish_block(&mut content[i], &time) {
            proof {
                assert(before.take(i + 1).last() == before[i as int]);
                lemma_content_fault(before, i + 1);
            }
            return Err(error);
        }
        i += 1;
    }
    proof {
        assert(before.take(before.len() as int) =~= before);
        assert(is_timestamp(time@));
        assert(content_finished(before, views(content@), time@));
    }
    Ok(())
}

/// Accepts a block identifier that is not blank.
pub fn validate_block_id(id: &str) -> (result: Result<(), ChatStreamError>)
    ensures
        match result {
            Ok(()) => !blank(id@),
            Err(error) => blank(id@) && error@ == StreamErrorView::EmptyBlockId,
        },
{
    if is_blank(id) {
        Err(ChatStreamError::EmptyBlockId)
    } else {
        Ok(())
    }
}

/// A terminal event closes the accumulator: whatever comes afterwards is refused
/// and changes nothing.
pub proof fn terminal_events_close(
    before: AccumulatorView,
    terminal: ChatEventView,
    closed: AccumulatorView,
    later: ChatEventView,
    after: AccumulatorView,
    result: Result<(), StreamErrorView>,
)
    requires
        terminal is Finished || terminal is Error,
        apply_outcome(before, terminal, closed, Ok(())),
        apply_outcome(closed, later, after, result),
    ensures
        result == Err::<(), StreamErrorView>(StreamErrorView::AlreadyFinished),
        after == closed,
{
}

/// An event that is refused changes nothing, so a failed finish can be made good
/// by further deltas.
pub proof fn refused_events_change_nothing(
    before: AccumulatorView,
    event: ChatEventView,
    after: AccumulatorView,
    result: Result<(), StreamErrorView>,
)
    requires
        apply_outcome(before, event, after, result),
        result is Err,
    ensures
        after == before,
{
}

/// Only a successful finish shows usage, marks the response as last and gives a
/// finish reason.
pub proof fn only_a_finish_completes_the_response(
    before: AccumulatorView,
    event: ChatEventView,
    after: AccumulatorView,
    result: Result<(), StreamErrorView>,
)
    requires
        apply_outcome(before, event, after, result),
        !(event is Finished),
    ensures
        after.response.usage == before.response.usage,
        after.response.is_last == before.response.is_last,
        after.response.finish_reason == before.response.finish_reason,
        after.finished == before.finished,
{
}

/// How a text is cut into deltas does not matter: two deltas of one block give
/// what their concatenation gives.
pub proof fn text_deltas_concatenate(
    content: Seq<BlockView>,
    id: Seq<char>,
    first: Seq<char>,
    second: Seq<char>,
    time: Seq<char>,
    later: Seq<char>,
)
    requires
        with_text_delta(content, id, first, time) is Ok,
    ensures
        with_text_delta(with_text_delta(content, id, first, time)->Ok_0, id, second, later)
            == with_text_delta(content, id, first + second, time),
{
    lemma_block_index(content, id);
    let middle = with_text_delta(content, id, first, time)->Ok_0;
    match block_index(content, id) {
        Some(index) => {
            lemma_block_index_kept(content, index, middle[index], id);
            let block = content[index]->Text_0;
            assert(block.text + first + second =~= block.text + (first + second));
            assert(with_text_delta(middle, id, second, later)->Ok_0 =~= with_text_delta(
                content,
                id,
                first + second,
                time,
            )->Ok_0);
        },
        None => {
            assert(middle.drop_last() =~= content);
            assert(with_text_delta(middle, id, second, later)->Ok_0 =~= with_text_delta(
                content,
                id,
                first + second,
                time,
            )->Ok_0);
        },
    }
}

/// How the input of a tool call is cut into deltas does not matter.
pub proof fn call_deltas_concatenate(
    content: Seq<BlockView>,
    id: Seq<char>,
    name: Seq<char>,
    first: Seq<char>,
    second: Seq<char>,
    time: Seq<char>,
    later: Seq<char>,
)
    requires
        with_call_delta(content, id, name, first, time) is Ok,
    ensures
        with_call_delta(with_call_delta(content, id, name, first, time)->Ok_0, id, name, second, later)
            == with_call_delta(content, id, name, first + second, time),
{
    lemma_block_index(content, id);
    let middle = with_call_delta(content, id, name, first, time)->Ok_0;
    match block_index(content, id) {
        Some(index) => {
            lemma_block_index_kept(content, index, middle[index], id);
            let block = content[index]->ToolCall_0;
            assert(block.input + first + second =~= block.input + (first + second));
        },
        None => {
            assert(middle.drop_last() =~= content);
        },
    }
    assert(with_call_delta(middle, id, name, second, later)->Ok_0 =~= with_call_delta(
        content,
        id,
        name,
        first + second,
        time,
    )->Ok_0);
}

/// Replacing a block by one with the same identifier moves no block.
proof fn lemma_block_index_kept(
    content: Seq<BlockView>,
    index: int,
    block: BlockView,
    id: Seq<char>,
)
    requires
        0 <= index < content.len(),
        block_id(block) == block_id(content[index]),
    ensures
        block_index(content.update(index, block), id) == block_index(content, id),
    decreases content.len(),
{
    let changed = content.update(index, block);
    if index == content.len() - 1 {
        assert(changed.drop_last() =~= content.drop_last());
    } else {
        assert(changed.drop_last() =~= content.drop_last().update(index, block));
        lemma_block_index_kept(content.drop_last(), index, block, id);
    }
}

} // verus!
