//! What streamed replies tell of the model's events and of their own end.
use vstd::prelude::*;

use super::error::AgentErrorView;
use super::event::{lifted, AgentEventView};
use super::reply::{ActionView, InputView, ReplyView};
use super::stream::{model_stream_outcome, step_events, ModelStreamItem, ModelStreamStep};
use crate::message::msg::MsgView;
use crate::model::accumulator::{apply_outcome, AccumulatorView};
use crate::model::event::{ChatEvent, ChatEventView};

verus! {

/// Whether an agent's event tells a model's event of a step: the same thing, with
/// the same words.
pub open spec fn tells_of(told: AgentEventView, step: usize, event: ChatEventView) -> bool {
    match event {
        ChatEventView::TextDelta { block_id, delta } => told == (AgentEventView::TextDelta {
            step,
            block_id,
            delta,
        }),
        ChatEventView::ThinkingDelta { block_id, delta } => told == (
        AgentEventView::ThinkingDelta { step, block_id, delta }),
        ChatEventView::ToolCallDelta { tool_call_id, tool_name, delta } => told == (
        AgentEventView::ToolCallDelta { step, tool_call_id, tool_name, delta }),
        ChatEventView::StructuredOutputDelta { block_id, schema, delta } => told == (
        AgentEventView::StructuredOutputDelta { step, block_id, schema, delta }),
        ChatEventView::Usage { usage } => told == (AgentEventView::Usage { step, usage }),
        ChatEventView::Finished { reason } => told == (AgentEventView::StepFinished {
            step,
            reason,
        }),
        ChatEventView::Error { error } => told == (AgentEventView::Error {
            step: Some(step as nat),
            error: AgentErrorView::Model(error),
        }),
    }
}

/// Every event of a model is told as what it is, with the step it belongs to.
pub proof fn model_events_are_told_with_their_step(step: usize, event: ChatEvent)
    ensures
        tells_of(lifted(step, event)@, step, event@),
{
}

/// An event that the stream may still bring is told and gathered; a failure ends the
/// step with that failure.
pub proof fn model_events_are_told_and_gathered(
    accumulated: AccumulatorView,
    step: usize,
    event: ChatEvent,
    item: ModelStreamItem,
    outcome: ModelStreamStep,
)
    requires
        item == ModelStreamItem::Next(Ok(event)),
        model_stream_outcome(accumulated, step, item, outcome),
    ensures
        outcome is Emit || outcome is Stop,
        outcome matches ModelStreamStep::Emit(told, kept) ==> tells_of(told@, step, event@)
            && apply_outcome(accumulated, event@, kept@, Ok(())) && !(event@ is Error),
        outcome matches ModelStreamStep::Stop(told) ==> told@ is Error && told@->Error_step == Some(
            step as nat,
        ),
        event@ is Error && !accumulated.closed() ==> outcome is Stop && tells_of(
            outcome->Stop_0@,
            step,
            event@,
        ),
        event@ is Usage && !accumulated.closed() ==> outcome is Emit,
        accumulated.closed() ==> outcome is Stop && outcome->Stop_0@ == (AgentEventView::Error {
            step: Some(step as nat),
            error: AgentErrorView::InvalidModelResponse("chat stream is already finished"@),
        }),
{
}

/// A stream that breaks, or is interrupted, ends its step with that.
pub proof fn broken_streams_end_their_step(
    accumulated: AccumulatorView,
    step: usize,
    item: ModelStreamItem,
    outcome: ModelStreamStep,
)
    requires
        model_stream_outcome(accumulated, step, item, outcome),
    ensures
        item is Interrupted ==> outcome is Stop && outcome->Stop_0@ == (AgentEventView::Error {
            step: Some(step as nat),
            error: AgentErrorView::Interrupted,
        }),
        item matches ModelStreamItem::Next(next) ==> next is Err ==> outcome is Stop
            && outcome->Stop_0@ == (AgentEventView::Error {
            step: Some(step as nat),
            error: AgentErrorView::Model(next->Err_0@),
        }),
{
}

/// The end of a stream gives the response that was gathered if and only if the
/// stream was finished; it ends the step with what failed otherwise.
pub proof fn finished_streams_give_what_was_gathered(
    accumulated: AccumulatorView,
    step: usize,
    outcome: ModelStreamStep,
)
    requires
        model_stream_outcome(accumulated, step, ModelStreamItem::Ended, outcome),
    ensures
        outcome is Respond <==> accumulated.finished && accumulated.terminal_error is None,
        outcome matches ModelStreamStep::Respond(response) ==> response@ == accumulated.response,
        accumulated.terminal_error matches Some(error) ==> outcome is Stop && outcome->Stop_0@ == (
        AgentEventView::Error { step: Some(step as nat), error: AgentErrorView::Model(error) }),
        accumulated.terminal_error is None && !accumulated.finished ==> outcome is Stop
            && outcome->Stop_0@ == (AgentEventView::Error {
            step: Some(step as nat),
            error: AgentErrorView::InvalidModelResponse("chat stream has not finished"@),
        }),
{
}

/// A streamed reply ends with an event that holds its outcome: the message and the
/// number of steps, the checkpoint that waits for decisions, or what failed and
/// where.
pub proof fn replies_tell_their_outcome(
    before: ReplyView,
    input: InputView,
    after: ReplyView,
    outcome: Result<MsgView, AgentErrorView>,
)
    ensures
        ({
            let events = step_events(before, input, after, ActionView::Return(outcome));
            &&& events.len() > 0
            &&& outcome matches Ok(message) ==> events.last() == (AgentEventView::Finished {
                steps: after.step + 1,
                message,
            })
            &&& outcome matches Err(error) ==> {
                &&& error matches AgentErrorView::ToolConfirmationRequired(checkpoint)
                    ==> events.last() == AgentEventView::ToolConfirmationRequired(checkpoint)
                &&& !(error is ToolConfirmationRequired) ==> events.last() == (
                AgentEventView::Error { step: Some(after.step + 1), error })
            }
            &&& !(before.phase is Reporting) ==> events.len() == 1
        }),
{
}

} // verus!
