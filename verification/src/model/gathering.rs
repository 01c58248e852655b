//! What an accumulator makes of the events of a stream, block by block.
use vstd::prelude::*;

use super::accumulator::{
    apply_outcome, block_index, content_fault, lemma_block_index, AccumulatorView, StreamErrorView,
};
use super::event::{ChatEventView, ModelErrorView};
use super::response::{is_new_response, FinishReason, ResponseView};
use crate::json::{alike, parsed_json};
use crate::message::content::BlockView;
use crate::message::structured_output::{StructuredErrorView, StructuredOutputState};
use crate::message::tool_call::{ToolCallErrorView, ToolCallState};
use crate::message::usage::Usage;
use crate::text::blank;

verus! {

/// Whether an event adds to a block.
pub open spec fn is_delta(event: ChatEventView) -> bool {
    event is TextDelta || event is ThinkingDelta || event is ToolCallDelta
        || event is StructuredOutputDelta
}

/// The block that a delta adds to.
pub open spec fn addressee(event: ChatEventView) -> Seq<char> {
    match event {
        ChatEventView::TextDelta { block_id, .. } => block_id,
        ChatEventView::ThinkingDelta { block_id, .. } => block_id,
        ChatEventView::ToolCallDelta { tool_call_id, .. } => tool_call_id,
        ChatEventView::StructuredOutputDelta { block_id, .. } => block_id,
        _ => Seq::empty(),
    }
}

/// What a delta adds.
pub open spec fn addition(event: ChatEventView) -> Seq<char> {
    match event {
        ChatEventView::TextDelta { delta, .. } => delta,
        ChatEventView::ThinkingDelta { delta, .. } => delta,
        ChatEventView::ToolCallDelta { delta, .. } => delta,
        ChatEventView::StructuredOutputDelta { delta, .. } => delta,
        _ => Seq::empty(),
    }
}

/// Whether a block is of the sort that a delta adds to.
pub open spec fn suits(block: BlockView, event: ChatEventView) -> bool {
    ||| block is Text && event is TextDelta
    ||| block is Thinking && event is ThinkingDelta
    ||| block is ToolCall && event is ToolCallDelta
    ||| block is StructuredOutput && event is StructuredOutputDelta
}

/// What a block holds so far of what deltas add.
pub open spec fn gathered_in(block: BlockView) -> Seq<char> {
    match block {
        BlockView::Text(text) => text.text,
        BlockView::Thinking(thinking) => thinking.thinking,
        BlockView::ToolCall(call) => call.input,
        BlockView::StructuredOutput(structured) => structured.output,
        _ => Seq::empty(),
    }
}

/// Whether a block goes by an identifier.
pub open spec fn goes_by(block: BlockView, id: Seq<char>) -> bool {
    match block {
        BlockView::Text(text) => text.id == id,
        BlockView::Thinking(thinking) => thinking.id == id,
        BlockView::ToolCall(call) => call.id == id,
        BlockView::ToolResult(result) => result.id == id,
        BlockView::StructuredOutput(structured) => structured.id == id,
        BlockView::Data(data) => data.id == id,
    }
}

/// Whether the first block that goes by an identifier stands at a position.
pub open spec fn stands_first(content: Seq<BlockView>, id: Seq<char>, at: int) -> bool {
    &&& 0 <= at < content.len()
    &&& goes_by(content[at], id)
    &&& forall|i: int| 0 <= i < at ==> !goes_by(#[trigger] content[i], id)
}

/// Whether no block goes by an identifier.
pub open spec fn is_unknown(content: Seq<BlockView>, id: Seq<char>) -> bool {
    forall|i: int| 0 <= i < content.len() ==> !goes_by(#[trigger] content[i], id)
}

/// The block is found where it first stands, and nowhere if it is unknown.
proof fn lemma_found(content: Seq<BlockView>, id: Seq<char>)
    ensures
        forall|at: int| #[trigger]
            stands_first(content, id, at) ==> block_index(content, id) == Some(at),
        is_unknown(content, id) ==> block_index(content, id) is None,
    decreases content.len(),
{
    lemma_block_index(content, id);
    if content.len() > 0 {
        let front = content.drop_last();
        lemma_found(front, id);
        assert forall|at: int| #[trigger] stands_first(content, id, at) implies block_index(
            content,
            id,
        ) == Some(at) by {
            if at < front.len() {
                assert forall|i: int| 0 <= i < at implies !goes_by(#[trigger] front[i], id) by {
                    assert(content[i] == front[i]);
                }
                assert(stands_first(front, id, at));
            } else {
                assert forall|i: int| 0 <= i < front.len() implies !goes_by(
                    #[trigger] front[i],
                    id,
                ) by {
                    assert(content[i] == front[i]);
                }
                assert(is_unknown(front, id));
            }
        }
        if is_unknown(content, id) {
            assert forall|i: int| 0 <= i < front.len() implies !goes_by(#[trigger] front[i], id) by {
                assert(content[i] == front[i]);
            }
            assert(is_unknown(front, id));
        }
    }
}

/// A delta for a known block is appended to that block, which keeps its sort, name
/// and identifier; every other block, and all else that is held, stays as it was.
pub proof fn deltas_extend_their_block(
    before: AccumulatorView,
    event: ChatEventView,
    after: AccumulatorView,
    at: int,
)
    requires
        is_delta(event),
        apply_outcome(before, event, after, Ok(())),
        stands_first(before.response.content, addressee(event), at),
    ensures
        after.response.content.len() == before.response.content.len(),
        suits(before.response.content[at], event),
        suits(after.response.content[at], event),
        goes_by(after.response.content[at], addressee(event)),
        gathered_in(after.response.content[at]) == gathered_in(before.response.content[at])
            + addition(event),
        forall|i: int|
            0 <= i < before.response.content.len() && i != at
                ==> #[trigger] after.response.content[i] == before.response.content[i],
        event is ToolCallDelta ==> after.response.content[at]->ToolCall_0.name == event->tool_name
            && before.response.content[at]->ToolCall_0.name == event->tool_name,
        event is StructuredOutputDelta ==> after.response.content[at]->StructuredOutput_0.schema
            == before.response.content[at]->StructuredOutput_0.schema,
        after.pending_usage == before.pending_usage,
        after.closed() == before.closed(),
{
    lemma_found(before.response.content, addressee(event));
}

/// A delta for an unknown block begins a block behind all the others, of the
/// delta's sort, name and identifier, which holds what the delta adds and is not
/// finished.
pub proof fn deltas_begin_unknown_blocks(
    before: AccumulatorView,
    event: ChatEventView,
    after: AccumulatorView,
)
    requires
        is_delta(event),
        apply_outcome(before, event, after, Ok(())),
        is_unknown(before.response.content, addressee(event)),
    ensures
        after.response.content.len() == before.response.content.len() + 1,
        forall|i: int|
            0 <= i < before.response.content.len() ==> #[trigger] after.response.content[i]
                == before.response.content[i],
        suits(after.response.content.last(), event),
        goes_by(after.response.content.last(), addressee(event)),
        gathered_in(after.response.content.last()) == addition(event),
        after.response.content.last() matches BlockView::Text(text) ==> text.finished_at is None,
        after.response.content.last() matches BlockView::Thinking(thinking)
            ==> thinking.finished_at is None,
        after.response.content.last() matches BlockView::ToolCall(call) ==> call.name
            == event->tool_name && call.state == ToolCallState::Pending && call.finished_at is None,
        after.response.content.last() matches BlockView::StructuredOutput(structured)
            ==> structured.schema == event->schema && structured.state
            == StructuredOutputState::Streaming && structured.finished_at is None,
        after.pending_usage == before.pending_usage,
        after.closed() == before.closed(),
{
    lemma_found(before.response.content, addressee(event));
}

/// Deltas of texts and reasoning are refused for a blank identifier, and for a
/// block of another sort, and for nothing else.
pub proof fn told_deltas_are_refused_for_their_block(
    before: AccumulatorView,
    event: ChatEventView,
    after: AccumulatorView,
    result: Result<(), StreamErrorView>,
    at: int,
)
    requires
        event is TextDelta || event is ThinkingDelta,
        !before.closed(),
        apply_outcome(before, event, after, result),
        is_unknown(before.response.content, addressee(event)) || stands_first(
            before.response.content,
            addressee(event),
            at,
        ),
    ensures
        blank(addressee(event)) ==> result == Err::<(), StreamErrorView>(
            StreamErrorView::EmptyBlockId,
        ),
        !blank(addressee(event)) && is_unknown(before.response.content, addressee(event))
            ==> result is Ok,
        !blank(addressee(event)) && stands_first(before.response.content, addressee(event), at)
            && suits(before.response.content[at], event) ==> result is Ok,
        !blank(addressee(event)) && stands_first(before.response.content, addressee(event), at)
            && !suits(before.response.content[at], event) ==> result == Err::<
            (),
            StreamErrorView,
        >(StreamErrorView::BlockTypeMismatch(addressee(event))),
{
    lemma_found(before.response.content, addressee(event));
}

/// Deltas of tool calls are refused for a block of another sort and for another
/// name than the call began with; a call only begins with an identifier and a name
/// that are not blank.
pub proof fn call_deltas_are_refused_for_their_call(
    before: AccumulatorView,
    event: ChatEventView,
    after: AccumulatorView,
    result: Result<(), StreamErrorView>,
    at: int,
)
    requires
        event is ToolCallDelta,
        !before.closed(),
        apply_outcome(before, event, after, result),
        is_unknown(before.response.content, addressee(event)) || stands_first(
            before.response.content,
            addressee(event),
            at,
        ),
    ensures
        is_unknown(before.response.content, addressee(event)) ==> (result is Ok <==> !blank(
            event->tool_call_id,
        ) && !blank(event->tool_name)),
        is_unknown(before.response.content, addressee(event)) && blank(event->tool_call_id)
            ==> result == Err::<(), StreamErrorView>(
            StreamErrorView::ToolCall(ToolCallErrorView::EmptyId),
        ),
        is_unknown(before.response.content, addressee(event)) && !blank(event->tool_call_id)
            && blank(event->tool_name) ==> result == Err::<(), StreamErrorView>(
            StreamErrorView::ToolCall(ToolCallErrorView::EmptyName),
        ),
        stands_first(before.response.content, addressee(event), at) && !(
        before.response.content[at] is ToolCall) ==> result == Err::<(), StreamErrorView>(
            StreamErrorView::BlockTypeMismatch(event->tool_call_id),
        ),
        stands_first(before.response.content, addressee(event), at)
            && before.response.content[at] is ToolCall
            && before.response.content[at]->ToolCall_0.name == event->tool_name ==> result is Ok,
        stands_first(before.response.content, addressee(event), at)
            && before.response.content[at] is ToolCall
            && before.response.content[at]->ToolCall_0.name != event->tool_name ==> result == Err::<
            (),
            StreamErrorView,
        >(
            StreamErrorView::ToolNameMismatch {
                tool_call_id: event->tool_call_id,
                expected: before.response.content[at]->ToolCall_0.name,
                actual: event->tool_name,
            },
        ),
{
    lemma_found(before.response.content, addressee(event));
}

/// Deltas of structured output are refused for a blank identifier, for a block of
/// another sort, for another schema than the output began with and for an output
/// that is complete; an output only begins with a schema that can be one.
pub proof fn structured_deltas_are_refused_for_their_output(
    before: AccumulatorView,
    event: ChatEventView,
    after: AccumulatorView,
    result: Result<(), StreamErrorView>,
    at: int,
)
    requires
        event is StructuredOutputDelta,
        !before.closed(),
        !blank(addressee(event)),
        apply_outcome(before, event, after, result),
        is_unknown(before.response.content, addressee(event)) || stands_first(
            before.response.content,
            addressee(event),
            at,
        ),
    ensures
        is_unknown(before.response.content, addressee(event)) ==> (result is Ok <==> (
        event->schema is Object || event->schema is Bool)),
        stands_first(before.response.content, addressee(event), at) && !(
        before.response.content[at] is StructuredOutput) ==> result == Err::<(), StreamErrorView>(
            StreamErrorView::BlockTypeMismatch(addressee(event)),
        ),
        stands_first(before.response.content, addressee(event), at)
            && before.response.content[at] is StructuredOutput && !alike(
            before.response.content[at]->StructuredOutput_0.schema,
            event->schema,
        ) ==> result == Err::<(), StreamErrorView>(
            StreamErrorView::SchemaMismatch(addressee(event)),
        ),
        stands_first(before.response.content, addressee(event), at)
            && before.response.content[at] is StructuredOutput && alike(
            before.response.content[at]->StructuredOutput_0.schema,
            event->schema,
        ) ==> (result is Ok <==> before.response.content[at]->StructuredOutput_0.state
            != StructuredOutputState::Complete),
{
    lemma_found(before.response.content, addressee(event));
}

/// Reported usage is taken in counter by counter, and shown to nobody before the
/// end.
pub proof fn reported_usage_adds_up(
    before: AccumulatorView,
    usage: Usage,
    after: AccumulatorView,
    result: Result<(), StreamErrorView>,
)
    requires
        !before.closed(),
        apply_outcome(before, ChatEventView::Usage { usage }, after, result),
    ensures
        result is Ok,
        after.response == before.response,
        !after.closed(),
        after.pending_usage is Some,
        before.pending_usage is None ==> after.pending_usage == Some(usage),
        before.pending_usage matches Some(earlier) ==> {
            let sum = after.pending_usage->Some_0;
            &&& earlier.input_tokens + usage.input_tokens <= u64::MAX ==> sum.input_tokens
                == earlier.input_tokens + usage.input_tokens
            &&& earlier.input_tokens + usage.input_tokens > u64::MAX ==> sum.input_tokens
                == u64::MAX
            &&& earlier.output_tokens + usage.output_tokens <= u64::MAX ==> sum.output_tokens
                == earlier.output_tokens + usage.output_tokens
            &&& earlier.output_tokens + usage.output_tokens > u64::MAX ==> sum.output_tokens
                == u64::MAX
            &&& earlier.reasoning_tokens is None ==> sum.reasoning_tokens == usage.reasoning_tokens
            &&& usage.reasoning_tokens is None ==> sum.reasoning_tokens == earlier.reasoning_tokens
            &&& earlier.reasoning_tokens is Some && usage.reasoning_tokens is Some
                && earlier.reasoning_tokens->Some_0 + usage.reasoning_tokens->Some_0 <= u64::MAX
                ==> sum.reasoning_tokens is Some && sum.reasoning_tokens->Some_0
                == earlier.reasoning_tokens->Some_0 + usage.reasoning_tokens->Some_0
            &&& earlier.cached_input_tokens is None ==> sum.cached_input_tokens
                == usage.cached_input_tokens
            &&& usage.cached_input_tokens is None ==> sum.cached_input_tokens
                == earlier.cached_input_tokens
            &&& earlier.cached_input_tokens is Some && usage.cached_input_tokens is Some
                && earlier.cached_input_tokens->Some_0 + usage.cached_input_tokens->Some_0
                <= u64::MAX ==> sum.cached_input_tokens is Some && sum.cached_input_tokens->Some_0
                == earlier.cached_input_tokens->Some_0 + usage.cached_input_tokens->Some_0
        },
{
}

/// A failure ends the stream with that failure and leaves what was gathered as it
/// was.
pub proof fn failures_end_the_stream(
    before: AccumulatorView,
    error: ModelErrorView,
    after: AccumulatorView,
    result: Result<(), StreamErrorView>,
)
    requires
        !before.closed(),
        apply_outcome(before, ChatEventView::Error { error }, after, result),
    ensures
        result is Ok,
        after.terminal_error == Some(error),
        after.closed(),
        !after.finished,
        after.response == before.response,
{
}

/// A finished response holds every block that was gathered, in order and with what
/// it gathered; it has the reason given and all the usage that was reported.
pub proof fn finished_responses_hold_what_was_gathered(
    before: AccumulatorView,
    reason: FinishReason,
    after: AccumulatorView,
)
    requires
        !before.closed(),
        apply_outcome(before, ChatEventView::Finished { reason }, after, Ok(())),
    ensures
        after.finished,
        after.terminal_error is None,
        after.response.is_last,
        after.response.finish_reason == Some(reason),
        after.response.usage == before.pending_usage,
        after.response.id == before.response.id,
        after.response.metadata == before.response.metadata,
        after.response.content.len() == before.response.content.len(),
        forall|i: int, id: Seq<char>|
            0 <= i < before.response.content.len() ==> (#[trigger] goes_by(
                after.response.content[i],
                id,
            ) <==> goes_by(before.response.content[i], id)),
        forall|i: int|
            0 <= i < before.response.content.len() ==> {
                let was = before.response.content[i];
                let is = #[trigger] after.response.content[i];
                &&& gathered_in(is) == gathered_in(was)
                &&& was is Text ==> is is Text && is->Text_0.finished_at is Some
                &&& was is Thinking ==> is is Thinking && is->Thinking_0.finished_at is Some
                    && is->Thinking_0.extra == was->Thinking_0.extra
                &&& was is ToolCall ==> is is ToolCall && is->ToolCall_0.name
                    == was->ToolCall_0.name && is->ToolCall_0.state == ToolCallState::Finished
                    && is->ToolCall_0.finished_at is Some
                &&& was is StructuredOutput ==> is is StructuredOutput
                    && is->StructuredOutput_0.schema == was->StructuredOutput_0.schema
                    && is->StructuredOutput_0.state == StructuredOutputState::Complete
                    && is->StructuredOutput_0.finished_at is Some
                &&& was is Data ==> is is Data && is->Data_0.source == was->Data_0.source
                &&& was is ToolResult ==> is == was
            },
{
    let was = before.response.content;
    let is = after.response.content;
    assert forall|i: int| 0 <= i < was.len() implies {
        &&& gathered_in(#[trigger] is[i]) == gathered_in(was[i])
    } by {
        assert(was[i] == was[i]);
    }
}

/// Whether a block cannot be finished as it stands: a call whose input, or a
/// structured output that, is not JSON, or one that was finished before.
pub open spec fn is_unready(block: BlockView) -> bool {
    match block {
        BlockView::ToolCall(call) => parsed_json(call.input) is Err,
        BlockView::StructuredOutput(structured) => structured.state
            == StructuredOutputState::Complete || parsed_json(structured.output) is Err,
        _ => false,
    }
}

/// Whether the first block that cannot be finished stands at a position.
pub open spec fn is_unready_first(content: Seq<BlockView>, at: int) -> bool {
    &&& 0 <= at < content.len()
    &&& is_unready(content[at])
    &&& forall|i: int| 0 <= i < at ==> !is_unready(#[trigger] content[i])
}

/// The fault of content is that of its first block that cannot be finished.
proof fn lemma_first_fault(content: Seq<BlockView>, at: int)
    requires
        is_unready_first(content, at),
    ensures
        content[at] matches BlockView::ToolCall(call) ==> content_fault(content) == Some(
            StreamErrorView::ToolCall(
                ToolCallErrorView::InvalidInput(parsed_json(call.input)->Err_0),
            ),
        ),
        content[at] matches BlockView::StructuredOutput(structured) ==> content_fault(content)
            == Some(
            StreamErrorView::StructuredOutput(
                if structured.state == StructuredOutputState::Complete {
                    StructuredErrorView::AlreadyComplete
                } else {
                    StructuredErrorView::InvalidOutput(parsed_json(structured.output)->Err_0)
                },
            ),
        ),
    decreases content.len(),
{
    let front = content.drop_last();
    if at < front.len() {
        assert forall|i: int| 0 <= i < at implies !is_unready(#[trigger] front[i]) by {
            assert(content[i] == front[i]);
        }
        assert(front[at] == content[at]);
        lemma_first_fault(front, at);
    } else {
        lemma_fault(front);
        if content_fault(front) is Some {
            let i = choose|i: int| 0 <= i < front.len() && is_unready(#[trigger] front[i]);
            assert(content[i] == front[i]);
        }
    }
}

/// Content has a fault if and only if a block cannot be finished.
proof fn lemma_fault(content: Seq<BlockView>)
    ensures
        content_fault(content) is Some <==> exists|i: int|
            0 <= i < content.len() && is_unready(#[trigger] content[i]),
    decreases content.len(),
{
    if content.len() > 0 {
        let front = content.drop_last();
        lemma_fault(front);
        if content_fault(front) is Some {
            let i = choose|i: int| 0 <= i < front.len() && is_unready(#[trigger] front[i]);
            assert(content[i] == front[i]);
        } else {
            assert forall|i: int| 0 <= i < front.len() implies !is_unready(#[trigger] content[i]) by {
                assert(content[i] == front[i]);
            }
            assert(content.last() == content[content.len() - 1]);
        }
    }
}

/// A stream finishes if and only if the input of each of its calls and each of its
/// structured outputs is JSON, wherever they stand.
pub proof fn streams_finish_with_whole_blocks(
    before: AccumulatorView,
    reason: FinishReason,
    after: AccumulatorView,
    result: Result<(), StreamErrorView>,
)
    requires
        !before.closed(),
        apply_outcome(before, ChatEventView::Finished { reason }, after, result),
    ensures
        result is Ok <==> forall|i: int|
            0 <= i < before.response.content.len() ==> !is_unready(
                #[trigger] before.response.content[i],
            ),
        result is Err ==> after == before,
        forall|at: int| #[trigger]
            is_unready_first(before.response.content, at) ==> {
                let block = before.response.content[at];
                &&& block is ToolCall ==> result == Err::<(), StreamErrorView>(
                    StreamErrorView::ToolCall(
                        ToolCallErrorView::InvalidInput(
                            parsed_json(block->ToolCall_0.input)->Err_0,
                        ),
                    ),
                )
                &&& block is StructuredOutput && block->StructuredOutput_0.state
                    != StructuredOutputState::Complete ==> result == Err::<(), StreamErrorView>(
                    StreamErrorView::StructuredOutput(
                        StructuredErrorView::InvalidOutput(
                            parsed_json(block->StructuredOutput_0.output)->Err_0,
                        ),
                    ),
                )
            },
{
    lemma_fault(before.response.content);
    assert forall|at: int| #[trigger] is_unready_first(before.response.content, at) implies {
        let block = before.response.content[at];
        &&& block is ToolCall ==> result == Err::<(), StreamErrorView>(
            StreamErrorView::ToolCall(
                ToolCallErrorView::InvalidInput(parsed_json(block->ToolCall_0.input)->Err_0),
            ),
        )
        &&& block is StructuredOutput && block->StructuredOutput_0.state
            != StructuredOutputState::Complete ==> result == Err::<(), StreamErrorView>(
            StreamErrorView::StructuredOutput(
                StructuredErrorView::InvalidOutput(
                    parsed_json(block->StructuredOutput_0.output)->Err_0,
                ),
            ),
        )
    } by {
        lemma_first_fault(before.response.content, at);
    }
}

/// A new response holds its content, is the last one if and only if it has a reason,
/// and reports nothing yet.
pub proof fn new_responses_hold_their_content(
    response: ResponseView,
    content: Seq<BlockView>,
    reason: Option<FinishReason>,
)
    requires
        is_new_response(response, content, reason),
    ensures
        response.content == content,
        response.finish_reason == reason,
        response.is_last <==> reason is Some,
        response.usage is None,
        response.metadata.dom().is_empty(),
{
}

} // verus!
