//! The events that a streamed reply emits along its way.
use vstd::prelude::*;

use super::error::{stream_failure, AgentError, AgentErrorView, AgentResult};
use super::event::{lifted, AgentEvent, AgentEventView};
use super::react::{AgentView, ReActAgent};
use super::reply::{
    answers, asks, reply_step, ActionView, InputView, PhaseView, Reply, ReplyAction, ReplyInput,
    ReplyPhase, ReplyView,
};
use crate::context::budget::{TokenBudget, TokenCounter};
use crate::message::msg::{Msg, MsgView};
use crate::message::tool_call::{ToolCallBlock, ToolCallView};
use crate::message::tool_result::{ToolResultBlock, ToolResultView};
use crate::model::accumulator::{
    apply_outcome, AccumulatorView, ChatResponseAccumulator, StreamErrorView,
};
use crate::model::event::{ChatEvent, ModelError};
use crate::model::response::ChatResponse;
use crate::view::views;

verus! {

/// The events that announce the execution of calls.
pub open spec fn started_events(step: nat, calls: Seq<ToolCallView>) -> Seq<AgentEventView> {
    Seq::new(calls.len(), |i: int| AgentEventView::ToolStarted { step, call: calls[i] })
}

/// The events that report results.
pub open spec fn finished_events(step: nat, results: Seq<ToolResultView>) -> Seq<AgentEventView> {
    Seq::new(results.len(), |i: int| AgentEventView::ToolFinished { step, result: results[i] })
}

/// The event that ends a stream with the outcome of its reply.
pub open spec fn outcome_event(step: nat, outcome: Result<MsgView, AgentErrorView>) -> AgentEventView {
    match outcome {
        Ok(message) => AgentEventView::Finished { steps: step, message },
        Err(AgentErrorView::ToolConfirmationRequired(checkpoint)) => AgentEventView::ToolConfirmationRequired(
            checkpoint,
        ),
        Err(error) => AgentEventView::Error { step: Some(step), error },
    }
}

/// The event that ends a stream with the outcome of its reply.
pub fn terminal_event(step: usize, outcome: AgentResult<Msg>) -> (event: AgentEvent)
    ensures
        event@ == outcome_event(
            step as nat,
            match outcome {
                Ok(message) => Ok(message@),
                Err(error) => Err(error@),
            },
        ),
{
    match outcome {
        Ok(message) => AgentEvent::Finished { steps: step, message },
        Err(AgentError::ToolConfirmationRequired { checkpoint }) => AgentEvent::ToolConfirmationRequired {
            checkpoint,
        },
        Err(error) => AgentEvent::Error { step: Some(step), error },
    }
}

/// The events that announce the execution of calls.
pub fn tool_started_events(step: usize, calls: &Vec<ToolCallBlock>) -> (events: Vec<AgentEvent>)
    ensures
        views(events@) == started_events(step as nat, views(calls@)),
{
    let mut events: Vec<AgentEvent> = Vec::new();
    let mut i: usize = 0;
    while i < calls.len()
        invariant
            i <= calls@.len(),
            events@.len() == i,
            forall|j: int|
                0 <= j < i ==> (#[trigger] events@[j])@ == (AgentEventView::ToolStarted {
                    step: step as nat,
                    call: views(calls@)[j],
                }),
        decreases calls@.len() - i,
    {
        events.push(AgentEvent::ToolStarted { step, call: calls[i].clone() });
        i += 1;
    }
    assert(views(events@) =~= started_events(step as nat, views(calls@)));
    events
}

/// The events that report results.
pub fn tool_finished_events(step: usize, results: &Vec<ToolResultBlock>) -> (events: Vec<AgentEvent>)
    ensures
        views(events@) == finished_events(step as nat, views(results@)),
{
    let mut events: Vec<AgentEvent> = Vec::new();
    let mut i: usize = 0;
    while i < results.len()
        invariant
            i <= results@.len(),
            events@.len() == i,
            forall|j: int|
                0 <= j < i ==> (#[trigger] events@[j])@ == (AgentEventView::ToolFinished {
                    step: step as nat,
                    result: views(results@)[j],
                }),
        decreases results@.len() - i,
    {
        events.push(AgentEvent::ToolFinished { step, result: results[i].clone() });
        i += 1;
    }
    assert(views(events@) =~= finished_events(step as nat, views(results@)));
    events
}

/// The events of one step of a streamed reply: what the tools gave once the hooks
/// have heard of it, then what is started, or the terminal event.
pub open spec fn step_events(
    before: ReplyView,
    input: InputView,
    after: ReplyView,
    action: ActionView,
) -> Seq<AgentEventView> {
    let finished = match (before.phase, input) {
        (PhaseView::Reporting(_, results, _), InputView::Notified(Ok(_))) => finished_events(
            before.step + 1,
            results,
        ),
        _ => Seq::empty(),
    };
    match action {
        ActionView::Execute(calls) => finished + started_events(after.step + 1, calls),
        ActionView::Return(outcome) => finished.push(outcome_event(after.step + 1, outcome)),
        _ => finished,
    }
}

impl Reply {
    /// Takes what came of the last action and says what to do next, with the events
    /// to emit before it is done. The outcome of the reply is in its last event.
    pub fn advance_streamed<C: TokenCounter>(
        self,
        agent: &ReActAgent,
        budget: Option<&TokenBudget<C>>,
        input: ReplyInput,
        interrupted: bool,
    ) -> (next: (Reply, ReplyAction, Vec<AgentEvent>))
        requires
            self@.well_formed(agent@),
            answers(self@.phase, input@),
        ensures
            reply_step(agent@, budget, self@, input@, interrupted, next.0@, next.1@),
            views(next.2@) == step_events(self@, input@, next.0@, next.1@),
            next.0@.well_formed(agent@),
            asks(next.0@.phase, next.1@),
    {
        let mut events: Vec<AgentEvent> = match (&self.phase, &input) {
            (ReplyPhase::Reporting(_, results, _), ReplyInput::Notified(Ok(()))) => {
                tool_finished_events(self.step + 1, results)
            },
            _ => Vec::new(),
        };
        assert(self.phase is Reporting && input@ == InputView::Notified(Ok(())) || views(events@)
            =~= Seq::empty());
        let ghost reported = views(events@);
        let (next, action) = self.advance(agent, budget, input, interrupted);
        match &action {
            ReplyAction::Execute(calls) => {
                let mut started = tool_started_events(next.step + 1, calls);
                let ghost more = views(started@);
                events.append(&mut started);
                assert(views(events@) =~= reported + more);
                (next, action, events)
            },
            ReplyAction::Return(outcome) => {
                let step = next.step + 1;
                let told = match outcome {
                    Ok(message) => Ok(message.clone()),
                    Err(error) => Err(error.clone()),
                };
                let event = terminal_event(step, told);
                let ghost last = event@;
                events.push(event);
                assert(views(events@) =~= reported.push(last));
                (next, action, events)
            },
            _ => (next, action, events),
        }
    }
}

/// What a model's event stream gave next.
#[derive(Debug)]
pub enum ModelStreamItem {
    /// An event, or the failure of the stream.
    Next(Result<ChatEvent, ModelError>),
    /// The end of the stream.
    Ended,
    /// The operation was interrupted first.
    Interrupted,
}

/// What becomes of an item of a model's event stream.
#[derive(Debug)]
pub enum ModelStreamStep {
    /// Emit an event and take the next item.
    Emit(AgentEvent, ChatResponseAccumulator),
    /// Emit a terminal event.
    Stop(AgentEvent),
    /// The response is complete.
    Respond(ChatResponse),
}

/// Whether a stream stops with a failure.
pub open spec fn stops_with(outcome: ModelStreamStep, step: nat, error: AgentErrorView) -> bool {
    outcome matches ModelStreamStep::Stop(event) && event@ == (AgentEventView::Error {
        step: Some(step),
        error,
    })
}

/// Whether an item of a model's event stream is dealt with.
pub open spec fn model_stream_outcome(
    accumulated: AccumulatorView,
    step: usize,
    item: ModelStreamItem,
    outcome: ModelStreamStep,
) -> bool {
    match item {
        ModelStreamItem::Interrupted => stops_with(
            outcome,
            step as nat,
            AgentErrorView::Interrupted,
        ),
        ModelStreamItem::Next(Err(error)) => stops_with(
            outcome,
            step as nat,
            AgentErrorView::Model(error@),
        ),
        ModelStreamItem::Next(Ok(event)) => exists|after: AccumulatorView, result: Result<
            (),
            StreamErrorView,
        >| #[trigger]
            apply_outcome(accumulated, event@, after, result) && match result {
                Err(error) => stops_with(outcome, step as nat, stream_failure(error)),
                Ok(()) => if event is Error {
                    outcome matches ModelStreamStep::Stop(emitted) && emitted@ == lifted(
                        step,
                        event,
                    )@
                } else {
                    outcome matches ModelStreamStep::Emit(emitted, kept) && emitted@ == lifted(
                        step,
                        event,
                    )@ && kept@ == after
                },
            },
        ModelStreamItem::Ended => match accumulated.terminal_error {
            Some(error) => stops_with(outcome, step as nat, AgentErrorView::Model(error)),
            None => if accumulated.finished {
                outcome matches ModelStreamStep::Respond(response) && response@
                    == accumulated.response
            } else {
                stops_with(outcome, step as nat, stream_failure(StreamErrorView::NotFinished))
            },
        },
    }
}

/// Deals with the next item of a model's event stream in one step of a reply.
pub fn model_stream_step(
    accumulator: ChatResponseAccumulator,
    step: usize,
    item: ModelStreamItem,
) -> (outcome: ModelStreamStep)
    ensures
        model_stream_outcome(accumulator@, step, item, outcome),
{
    match item {
        ModelStreamItem::Interrupted => ModelStreamStep::Stop(
            AgentEvent::Error { step: Some(step), error: AgentError::Interrupted },
        ),
        ModelStreamItem::Next(Err(error)) => ModelStreamStep::Stop(
            AgentEvent::Error { step: Some(step), error: AgentError::Model(error) },
        ),
        ModelStreamItem::Next(Ok(event)) => {
            let applied = event.clone();
            let terminal = matches!(&event, ChatEvent::Error { .. });
            let emitted = AgentEvent::from_chat_event(step, event);
            let mut accumulator = accumulator;
            match accumulator.apply(applied) {
                Err(error) => ModelStreamStep::Stop(
                    AgentEvent::Error { step: Some(step), error: AgentError::from(error) },
                ),
                Ok(()) => {
                    if terminal {
                        ModelStreamStep::Stop(emitted)
                    } else {
                        ModelStreamStep::Emit(emitted, accumulator)
                    }
                },
            }
        },
        ModelStreamItem::Ended => match accumulator.into_response() {
            Ok(response) => ModelStreamStep::Respond(response),
            Err(error) => ModelStreamStep::Stop(
                AgentEvent::Error { step: Some(step), error: AgentError::from(error) },
            ),
        },
    }
}

/// A streamed reply emits exactly one terminal event, and it is the last one.
pub proof fn terminal_events_come_once_and_last<C: TokenCounter>(
    agent: AgentView,
    budget: Option<&TokenBudget<C>>,
    before: ReplyView,
    input: InputView,
    interrupted: bool,
    after: ReplyView,
    action: ActionView,
)
    requires
        reply_step(agent, budget, before, input, interrupted, after, action),
    ensures
        ({
            let events = step_events(before, input, after, action);
            &&& after.phase is Over <==> events.len() > 0 && is_terminal_event(events.last())
            &&& forall|i: int|
                0 <= i < events.len() - 1 ==> !is_terminal_event(#[trigger] events[i])
        }),
{
    let events = step_events(before, input, after, action);
    assert(after.phase is Over <==> action is Return);
    assert forall|i: int| 0 <= i < events.len() - 1 implies !is_terminal_event(
        #[trigger] events[i],
    ) by {}
    if action is Return {
        assert(is_terminal_event(events.last()));
    } else if events.len() > 0 {
        assert(!is_terminal_event(events.last()));
    }
}

/// Whether an event ends the stream of a reply.
pub open spec fn is_terminal_event(event: AgentEventView) -> bool {
    event is Finished || event is ToolConfirmationRequired || event is Error
}

} // verus!
