//! The reason-act-observe loop, one decision at a time.
//!
//! A [`Reply`] asks its driver for one [`ReplyAction`] after another: to select the
//! history, notify hooks, call the model, remember a message, execute tools. The
//! driver performs the action and hands back what came of it as a [`ReplyInput`].
use vstd::prelude::*;

use super::compaction::{projected, summary_projection};
use super::confirmation::{PendingToolCalls, PendingToolExecution, PendingView};
use super::error::{AgentError, AgentErrorView, AgentResult};
use super::hook::{AgentHookError, AgentHookEvent, HookErrorView, HookEventView};
use super::react::{
    after_calls, before_calls, close_interrupted, instructs, interrupted_tool_results,
    needs_confirmation,
    fixed_messages, instructions_and_summary_are_never_cut, notify_after_calls,
    notify_before_calls, observation, observes, prepared, request_messages, request_outcome,
    requested, results_fault, set_call_states, tells, with_calls_in, AgentView, ReActAgent,
};
use crate::context::budget::{TokenBudget, TokenCounter};
use crate::context::summary::{summary_fault, ContextSummary, SummaryView};
use crate::memory::{MemoryError, MemoryErrorView};
use crate::message::content::ContentBlock;
use crate::message::msg::{Msg, MsgView};
use crate::message::role::Role;
use crate::message::tool_call::{ToolCallBlock, ToolCallState, ToolCallView};
use crate::message::tool_result::{ToolResultBlock, ToolResultState, ToolResultView};
use crate::message::{is_generated_id, is_timestamp};
use crate::model::event::{ModelError, ModelErrorView};
use crate::model::request::{ChatRequest, RequestView};
use crate::model::response::{
    calls_of, tool_calls_in, ChatResponse, FinishReason, ResponseView,
};
use crate::tool::{ToolError, ToolErrorView};
use crate::view::{lemma_views_push, view_option, views};

verus! {

/// What a reply waits for.
#[derive(Debug)]
pub enum ReplyPhase {
    /// To be opened with a message.
    Opening(Msg),
    /// The hooks, before the message is received.
    Greeting(Msg),
    /// The conversation so far.
    Loading(Msg),
    /// The memory, for the message.
    Admitting(Msg),
    /// To be started.
    Starting,
    /// The summary in use, for the next model call.
    Preparing,
    /// The selection of the history beside a summary.
    Selecting(Option<ContextSummary>),
    /// The hooks, before the model is called with a request.
    Announcing(ChatRequest),
    /// The model.
    Calling,
    /// The hooks, after the model has responded.
    Reviewing(ChatResponse),
    /// The memory, for the final message.
    Storing(Msg),
    /// The hooks, after the final message.
    Closing(Msg),
    /// The memory, for the message of the last step that still wants tools.
    Limiting,
    /// The memory, for a message whose calls must be confirmed.
    Pausing(PendingToolCalls),
    /// The hooks, before tools are executed.
    Clearing(Msg, Vec<ToolCallBlock>),
    /// The memory, for a message whose calls are executed next.
    Committing(Msg, Vec<ToolCallBlock>),
    /// The tools.
    Executing(Vec<ToolCallBlock>),
    /// The memory, for the observation of results, and whether the tools were
    /// interrupted.
    Recording(Msg, Vec<ToolResultBlock>, bool),
    /// The hooks, after tools were executed.
    Reporting(Msg, Vec<ToolResultBlock>, bool),
    /// Nothing: the reply is over.
    Over,
}

/// What a phase holds.
#[verifier::ext_equal]
pub enum PhaseView {
    Opening(MsgView),
    Greeting(MsgView),
    Loading(MsgView),
    Admitting(MsgView),
    Starting,
    Preparing,
    Selecting(Option<SummaryView>),
    Announcing(RequestView),
    Calling,
    Reviewing(ResponseView),
    Storing(MsgView),
    Closing(MsgView),
    Limiting,
    Pausing(PendingView),
    Clearing(MsgView, Seq<ToolCallView>),
    Committing(MsgView, Seq<ToolCallView>),
    Executing(Seq<ToolCallView>),
    Recording(MsgView, Seq<ToolResultView>, bool),
    Reporting(MsgView, Seq<ToolResultView>, bool),
    Over,
}

impl View for ReplyPhase {
    type V = PhaseView;

    open spec fn view(&self) -> PhaseView {
        match self {
            ReplyPhase::Opening(msg) => PhaseView::Opening(msg@),
            ReplyPhase::Greeting(msg) => PhaseView::Greeting(msg@),
            ReplyPhase::Loading(msg) => PhaseView::Loading(msg@),
            ReplyPhase::Admitting(msg) => PhaseView::Admitting(msg@),
            ReplyPhase::Starting => PhaseView::Starting,
            ReplyPhase::Preparing => PhaseView::Preparing,
            ReplyPhase::Selecting(summary) => PhaseView::Selecting(view_option(*summary)),
            ReplyPhase::Announcing(request) => PhaseView::Announcing(request@),
            ReplyPhase::Calling => PhaseView::Calling,
            ReplyPhase::Reviewing(response) => PhaseView::Reviewing(response@),
            ReplyPhase::Storing(msg) => PhaseView::Storing(msg@),
            ReplyPhase::Closing(msg) => PhaseView::Closing(msg@),
            ReplyPhase::Limiting => PhaseView::Limiting,
            ReplyPhase::Pausing(pending) => PhaseView::Pausing(pending@),
            ReplyPhase::Clearing(msg, calls) => PhaseView::Clearing(msg@, views(calls@)),
            ReplyPhase::Committing(msg, calls) => PhaseView::Committing(msg@, views(calls@)),
            ReplyPhase::Executing(calls) => PhaseView::Executing(views(calls@)),
            ReplyPhase::Recording(msg, results, interrupted) => PhaseView::Recording(
                msg@,
                views(results@),
                *interrupted,
            ),
            ReplyPhase::Reporting(msg, results, interrupted) => PhaseView::Reporting(
                msg@,
                views(results@),
                *interrupted,
            ),
            ReplyPhase::Over => PhaseView::Over,
        }
    }
}

/// A reply under way.
#[derive(Debug)]
pub struct Reply {
    pub(crate) system: Option<Msg>,
    pub(crate) history: Vec<Msg>,
    pub(crate) step: usize,
    pub(crate) phase: ReplyPhase,
}

/// What a reply under way holds: the system message that its requests lead with once
/// it has begun, the conversation, the number of model calls that were answered, and
/// what it waits for.
#[verifier::ext_equal]
pub struct ReplyView {
    pub system: Option<MsgView>,
    pub history: Seq<MsgView>,
    pub step: nat,
    pub phase: PhaseView,
}

impl View for Reply {
    type V = ReplyView;

    open(crate) spec fn view(&self) -> ReplyView {
        ReplyView {
            system: view_option(self.system),
            history: views(self.history@),
            step: self.step as nat,
            phase: self.phase@,
        }
    }
}

/// What came of an action.
#[derive(Debug)]
pub enum ReplyInput {
    /// The reply may start.
    Begin,
    /// The conversation was read from memory.
    Loaded(Result<Vec<Msg>, MemoryError>),
    /// The summary in use, where there is one.
    Summary(Option<ContextSummary>),
    /// The messages were selected, and large tool results offloaded.
    Selected(Result<Vec<Msg>, ToolError>),
    /// The hooks were notified in order, up to the first that failed.
    Notified(Result<(), AgentHookError>),
    /// The model responded.
    Responded(Result<ChatResponse, ModelError>),
    /// The message was remembered, where there is memory.
    Remembered(Result<(), MemoryError>),
    /// The tools were executed.
    Executed(Result<Vec<ToolResultBlock>, ToolError>),
    /// The model or the tools were interrupted.
    Interrupted,
}

/// What an input holds.
#[verifier::ext_equal]
pub enum InputView {
    Begin,
    Loaded(Result<Seq<MsgView>, MemoryErrorView>),
    Summary(Option<SummaryView>),
    Selected(Result<Seq<MsgView>, ToolErrorView>),
    Notified(Result<(), HookErrorView>),
    Responded(Result<ResponseView, ModelErrorView>),
    Remembered(Result<(), MemoryErrorView>),
    Executed(Result<Seq<ToolResultView>, ToolErrorView>),
    Interrupted,
}

impl View for ReplyInput {
    type V = InputView;

    open spec fn view(&self) -> InputView {
        match self {
            ReplyInput::Begin => InputView::Begin,
            ReplyInput::Loaded(result) => InputView::Loaded(
                match result {
                    Ok(history) => Ok(views(history@)),
                    Err(error) => Err(error@),
                },
            ),
            ReplyInput::Summary(summary) => InputView::Summary(view_option(*summary)),
            ReplyInput::Selected(result) => InputView::Selected(
                match result {
                    Ok(selected) => Ok(views(selected@)),
                    Err(error) => Err(error@),
                },
            ),
            ReplyInput::Notified(result) => InputView::Notified(
                match result {
                    Ok(()) => Ok(()),
                    Err(error) => Err(error@),
                },
            ),
            ReplyInput::Responded(result) => InputView::Responded(
                match result {
                    Ok(response) => Ok(response@),
                    Err(error) => Err(error@),
                },
            ),
            ReplyInput::Remembered(result) => InputView::Remembered(
                match result {
                    Ok(()) => Ok(()),
                    Err(error) => Err(error@),
                },
            ),
            ReplyInput::Executed(result) => InputView::Executed(
                match result {
                    Ok(results) => Ok(views(results@)),
                    Err(error) => Err(error@),
                },
            ),
            ReplyInput::Interrupted => InputView::Interrupted,
        }
    }
}

/// What a reply asks its driver to do.
#[derive(Debug)]
pub enum ReplyAction {
    /// Read the conversation from memory.
    Load,
    /// Start the reply to the conversation.
    Start,
    /// Look up the summary in use.
    Prepare,
    /// Select what the model sees of messages, by the context policy, and offload
    /// large tool results.
    Select(Vec<Msg>),
    /// Notify the hooks of events, in order.
    Notify(Vec<AgentHookEvent>),
    /// Call the model, unless interrupted first.
    CallModel(ChatRequest),
    /// Append a message to memory, where there is memory.
    Remember(Msg),
    /// Append a message to memory and keep its calls for confirmation.
    Pause(Msg, PendingToolCalls),
    /// Execute tool calls, unless interrupted first.
    Execute(Vec<ToolCallBlock>),
    /// The reply is over.
    Return(AgentResult<Msg>),
}

/// What an action holds.
#[verifier::ext_equal]
pub enum ActionView {
    Load,
    Start,
    Prepare,
    Select(Seq<MsgView>),
    Notify(Seq<HookEventView>),
    CallModel(RequestView),
    Remember(MsgView),
    Pause(MsgView, PendingView),
    Execute(Seq<ToolCallView>),
    Return(Result<MsgView, AgentErrorView>),
}

impl View for ReplyAction {
    type V = ActionView;

    open spec fn view(&self) -> ActionView {
        match self {
            ReplyAction::Load => ActionView::Load,
            ReplyAction::Start => ActionView::Start,
            ReplyAction::Prepare => ActionView::Prepare,
            ReplyAction::Select(messages) => ActionView::Select(views(messages@)),
            ReplyAction::Notify(events) => ActionView::Notify(views(events@)),
            ReplyAction::CallModel(request) => ActionView::CallModel(request@),
            ReplyAction::Remember(msg) => ActionView::Remember(msg@),
            ReplyAction::Pause(msg, pending) => ActionView::Pause(msg@, pending@),
            ReplyAction::Execute(calls) => ActionView::Execute(views(calls@)),
            ReplyAction::Return(result) => ActionView::Return(
                match result {
                    Ok(msg) => Ok(msg@),
                    Err(error) => Err(error@),
                },
            ),
        }
    }
}

/// Whether an input answers what a phase waits for.
pub open spec fn answers(phase: PhaseView, input: InputView) -> bool {
    match phase {
        PhaseView::Opening(_) => input is Begin,
        PhaseView::Greeting(_) => input is Notified,
        PhaseView::Loading(_) => input is Loaded,
        PhaseView::Admitting(_) => input is Remembered,
        PhaseView::Starting => input is Begin,
        PhaseView::Preparing => input is Summary,
        PhaseView::Selecting(_) => input is Selected,
        PhaseView::Announcing(_) => input is Notified,
        PhaseView::Calling => input is Responded || input is Interrupted,
        PhaseView::Reviewing(_) => input is Notified,
        PhaseView::Storing(_) => input is Remembered,
        PhaseView::Closing(_) => input is Notified,
        PhaseView::Limiting => input is Remembered,
        PhaseView::Pausing(_) => input is Remembered,
        PhaseView::Clearing(_, _) => input is Notified,
        PhaseView::Committing(_, _) => input is Remembered,
        PhaseView::Executing(_) => input is Executed || input is Interrupted,
        PhaseView::Recording(_, _, _) => input is Remembered,
        PhaseView::Reporting(_, _, _) => input is Notified,
        PhaseView::Over => false,
    }
}

/// Whether an action asks for what a phase waits for.
pub open spec fn asks(phase: PhaseView, action: ActionView) -> bool {
    match phase {
        PhaseView::Opening(_) => false,
        PhaseView::Greeting(_) => action is Notify,
        PhaseView::Loading(_) => action is Load,
        PhaseView::Admitting(_) => action is Remember,
        PhaseView::Starting => action is Start,
        PhaseView::Preparing => action is Prepare,
        PhaseView::Selecting(_) => action is Select,
        PhaseView::Announcing(_) => action is Notify,
        PhaseView::Calling => action is CallModel,
        PhaseView::Reviewing(_) => action is Notify,
        PhaseView::Storing(_) => action is Remember,
        PhaseView::Closing(_) => action is Notify,
        PhaseView::Limiting => action is Remember,
        PhaseView::Pausing(_) => action is Pause,
        PhaseView::Clearing(_, _) => action is Notify,
        PhaseView::Committing(_, _) => action is Remember,
        PhaseView::Executing(_) => action is Execute,
        PhaseView::Recording(_, _, _) => action is Remember,
        PhaseView::Reporting(_, _, _) => action is Notify,
        PhaseView::Over => action is Return,
    }
}

impl ReplyView {
    /// Whether the reply is within the step limit, and tools are executed only
    /// where they need no confirmation and a step is left to observe them.
    pub open spec fn well_formed(self, agent: AgentView) -> bool {
        &&& agent.well_formed()
        &&& self.step < agent.max_steps
        &&& (self.phase is Clearing || self.phase is Committing || self.phase is Executing
            || self.phase is Recording || self.phase is Reporting) ==> self.step + 1
            < agent.max_steps
        &&& match self.phase {
            PhaseView::Clearing(_, calls) => !needs_confirmation(agent, calls),
            PhaseView::Committing(_, calls) => !needs_confirmation(agent, calls),
            PhaseView::Executing(calls) => !needs_confirmation(agent, calls),
            _ => true,
        }
    }

    /// The same, waiting for something else.
    pub open spec fn waiting(self, phase: PhaseView) -> ReplyView {
        ReplyView { phase, ..self }
    }
}

/// Whether a reply is over with a failure.
pub open spec fn fails(
    before: ReplyView,
    error: AgentErrorView,
    after: ReplyView,
    action: ActionView,
) -> bool {
    &&& after == before.waiting(PhaseView::Over)
    &&& action == ActionView::Return(Err(error))
}

/// Whether a message is the assistant's message of a response.
pub open spec fn is_reply_of(msg: MsgView, response: ResponseView, name: Seq<char>) -> bool {
    &&& msg.name == name
    &&& msg.content == response.content
    &&& msg.role == Role::Assistant
    &&& msg.metadata == response.metadata
    &&& msg.usage == response.usage
    &&& is_generated_id(msg.id)
    &&& is_timestamp(msg.created_at)
}

/// Whether a reply starts after a message.
pub open spec fn starts(
    history: Seq<MsgView>,
    msg: MsgView,
    before: ReplyView,
    after: ReplyView,
    action: ActionView,
) -> bool {
    &&& after == (ReplyView { history: history.push(msg), phase: PhaseView::Starting, ..before })
    &&& action == ActionView::Start
}

/// Whether the next model call is prepared, unless interrupted.
pub open spec fn goes_on(
    before: ReplyView,
    interrupted: bool,
    after: ReplyView,
    action: ActionView,
) -> bool {
    if interrupted {
        fails(before, AgentErrorView::Interrupted, after, action)
    } else {
        after == before.waiting(PhaseView::Preparing) && action == ActionView::Prepare
    }
}

/// Whether a reply begins: its system message is made, and its first model call is
/// prepared, unless interrupted.
pub open spec fn begins(
    agent: AgentView,
    before: ReplyView,
    interrupted: bool,
    after: ReplyView,
    action: ActionView,
) -> bool {
    exists|system: Option<MsgView>| #[trigger]
        instructs(agent, system) && goes_on(
            ReplyView { system, ..before },
            interrupted,
            after,
            action,
        )
}

/// The checkpoint of a message whose calls must be confirmed.
pub open spec fn checkpoint_of(msg: MsgView, step: nat) -> PendingView {
    PendingView { reply_id: msg.id, step, calls: calls_of(msg.content) }
}

/// Whether a reviewed response is dealt with.
pub open spec fn judged(
    agent: AgentView,
    before: ReplyView,
    response: ResponseView,
    after: ReplyView,
    action: ActionView,
) -> bool {
    let calls = calls_of(response.content);
    let next = before.step + 1;
    if calls.len() == 0 {
        if response.finish_reason == Some(FinishReason::ToolCalls) {
            fails(
                before,
                AgentErrorView::InvalidModelResponse(
                    "finish reason requested tools, but no tool calls were present"@,
                ),
                after,
                action,
            )
        } else {
            action matches ActionView::Remember(msg) && is_reply_of(msg, response, agent.name)
                && after == before.waiting(PhaseView::Storing(msg))
        }
    } else if next == agent.max_steps {
        action matches ActionView::Remember(msg) && is_reply_of(msg, response, agent.name) && after
            == before.waiting(PhaseView::Limiting)
    } else if needs_confirmation(agent, calls) {
        if !agent.has_memory {
            fails(before, AgentErrorView::MemoryNotConfigured, after, action)
        } else {
            action matches ActionView::Pause(msg, pending) && (exists|plain: MsgView| #[trigger]
                is_reply_of(plain, response, agent.name) && msg == with_calls_in(
                    plain,
                    ToolCallState::Asking,
                )) && pending == checkpoint_of(msg, next) && after == before.waiting(
                PhaseView::Pausing(pending),
            )
        }
    } else {
        action == ActionView::Notify(before_calls(next, calls)) && (
        after.phase matches PhaseView::Clearing(msg, kept) && is_reply_of(
            msg,
            response,
            agent.name,
        ) && kept == calls && after == before.waiting(after.phase))
    }
}

/// Whether tool results are about to be remembered.
pub open spec fn records(
    before: ReplyView,
    results: Seq<ToolResultView>,
    interrupted: bool,
    after: ReplyView,
    action: ActionView,
) -> bool {
    action matches ActionView::Remember(msg) && observes(msg, results) && after == before.waiting(
        PhaseView::Recording(msg, results, interrupted),
    )
}

/// Whether interrupted tools are closed, or their calls cannot be.
pub open spec fn closes(
    before: ReplyView,
    calls: Seq<ToolCallView>,
    after: ReplyView,
    action: ActionView,
) -> bool {
    match results_fault(calls, ToolResultState::Interrupted) {
        Some(fault) => fails(before, fault, after, action),
        None => exists|results: Seq<ToolResultView>| #[trigger]
            close_interrupted(calls, results) && records(before, results, true, after, action),
    }
}

/// Whether the history is about to be selected beside a summary, which must be
/// valid.
pub open spec fn selects(
    before: ReplyView,
    summary: Option<SummaryView>,
    after: ReplyView,
    action: ActionView,
) -> bool {
    let fault = match summary {
        Some(known) => summary_fault(known, before.history),
        None => None,
    };
    match fault {
        Some(fault) => fails(before, AgentErrorView::Summary(fault), after, action),
        None => after == before.waiting(PhaseView::Selecting(summary)) && action
            == ActionView::Select(projected(before.history, summary)),
    }
}

/// Whether the request for a selection is announced, or fails.
pub open spec fn announces<C: TokenCounter>(
    agent: AgentView,
    budget: Option<&TokenBudget<C>>,
    before: ReplyView,
    summary: Option<SummaryView>,
    selected: Seq<MsgView>,
    after: ReplyView,
    action: ActionView,
) -> bool {
    exists|outcome: Result<RequestView, AgentErrorView>| #[trigger]
        requested(agent, budget, before.system, summary, selected, outcome) && match outcome {
            Err(error) => fails(before, error, after, action),
            Ok(request) => after == before.waiting(PhaseView::Announcing(request)) && action
                == ActionView::Notify(
                seq![HookEventView::BeforeModelCall(before.step + 1, request)],
            ),
        }
}

/// Whether a reply goes from one state to another with an action, for an input
/// that came while the operation was interrupted or not.
pub open spec fn reply_step<C: TokenCounter>(
    agent: AgentView,
    budget: Option<&TokenBudget<C>>,
    before: ReplyView,
    input: InputView,
    interrupted: bool,
    after: ReplyView,
    action: ActionView,
) -> bool {
    let next = before.step + 1;
    match (before.phase, input) {
        (PhaseView::Opening(msg), InputView::Begin) => after == before.waiting(
            PhaseView::Greeting(msg),
        ) && action == ActionView::Notify(seq![HookEventView::BeforeReply(msg)]),
        (PhaseView::Greeting(msg), InputView::Notified(result)) => match result {
            Err(error) => fails(before, AgentErrorView::Hook(error), after, action),
            Ok(()) => if interrupted {
                fails(before, AgentErrorView::Interrupted, after, action)
            } else if agent.has_memory {
                after == before.waiting(PhaseView::Loading(msg)) && action == ActionView::Load
            } else {
                starts(before.history, msg, before, after, action)
            },
        },
        (PhaseView::Loading(msg), InputView::Loaded(result)) => match result {
            Err(error) => fails(before, AgentErrorView::Memory(error), after, action),
            Ok(history) => after == (ReplyView {
                history,
                phase: PhaseView::Admitting(msg),
                ..before
            }) && action == ActionView::Remember(msg),
        },
        (PhaseView::Admitting(msg), InputView::Remembered(result)) => match result {
            Err(error) => fails(before, AgentErrorView::Memory(error), after, action),
            Ok(()) => starts(before.history, msg, before, after, action),
        },
        (PhaseView::Starting, InputView::Begin) => begins(
            agent,
            before,
            interrupted,
            after,
            action,
        ),
        (PhaseView::Preparing, InputView::Summary(summary)) => selects(
            before,
            summary,
            after,
            action,
        ),
        (PhaseView::Selecting(summary), InputView::Selected(result)) => match result {
            Err(error) => fails(before, AgentErrorView::Tool(error), after, action),
            Ok(selected) => announces(agent, budget, before, summary, selected, after, action),
        },
        (PhaseView::Announcing(request), InputView::Notified(result)) => match result {
            Err(error) => fails(before, AgentErrorView::Hook(error), after, action),
            Ok(()) => if interrupted {
                fails(before, AgentErrorView::Interrupted, after, action)
            } else {
                after == before.waiting(PhaseView::Calling) && action == ActionView::CallModel(
                    request,
                )
            },
        },
        (PhaseView::Calling, InputView::Interrupted) => fails(
            before,
            AgentErrorView::Interrupted,
            after,
            action,
        ),
        (PhaseView::Calling, InputView::Responded(result)) => match result {
            Err(error) => fails(before, AgentErrorView::Model(error), after, action),
            Ok(response) => if !response.is_last {
                fails(
                    before,
                    AgentErrorView::InvalidModelResponse(
                        "complete generation returned a partial response"@,
                    ),
                    after,
                    action,
                )
            } else {
                after == before.waiting(PhaseView::Reviewing(response)) && action
                    == ActionView::Notify(seq![HookEventView::AfterModelCall(next, response)])
            },
        },
        (PhaseView::Reviewing(response), InputView::Notified(result)) => match result {
            Err(error) => fails(before, AgentErrorView::Hook(error), after, action),
            Ok(()) => if interrupted {
                fails(before, AgentErrorView::Interrupted, after, action)
            } else {
                judged(agent, before, response, after, action)
            },
        },
        (PhaseView::Storing(msg), InputView::Remembered(result)) => match result {
            Err(error) => fails(before, AgentErrorView::Memory(error), after, action),
            Ok(()) => after == before.waiting(PhaseView::Closing(msg)) && action
                == ActionView::Notify(seq![HookEventView::AfterReply(next, msg)]),
        },
        (PhaseView::Closing(msg), InputView::Notified(result)) => match result {
            Err(error) => fails(before, AgentErrorView::Hook(error), after, action),
            Ok(()) => after == before.waiting(PhaseView::Over) && action == ActionView::Return(
                Ok(msg),
            ),
        },
        (PhaseView::Limiting, InputView::Remembered(result)) => match result {
            Err(error) => fails(before, AgentErrorView::Memory(error), after, action),
            Ok(()) => fails(
                before,
                AgentErrorView::MaxStepsExceeded { max_steps: agent.max_steps as usize },
                after,
                action,
            ),
        },
        (PhaseView::Pausing(pending), InputView::Remembered(result)) => match result {
            Err(error) => fails(before, AgentErrorView::Memory(error), after, action),
            Ok(()) => fails(
                before,
                AgentErrorView::ToolConfirmationRequired(pending),
                after,
                action,
            ),
        },
        (PhaseView::Clearing(msg, calls), InputView::Notified(result)) => match result {
            Err(error) => fails(before, AgentErrorView::Hook(error), after, action),
            Ok(()) => if interrupted {
                fails(before, AgentErrorView::Interrupted, after, action)
            } else {
                after == before.waiting(PhaseView::Committing(msg, calls)) && action
                    == ActionView::Remember(msg)
            },
        },
        (PhaseView::Committing(msg, calls), InputView::Remembered(result)) => match result {
            Err(error) => fails(before, AgentErrorView::Memory(error), after, action),
            Ok(()) => after == (ReplyView {
                history: before.history.push(msg),
                phase: PhaseView::Executing(calls),
                ..before
            }) && action == ActionView::Execute(calls),
        },
        (PhaseView::Executing(calls), InputView::Interrupted) => closes(
            before,
            calls,
            after,
            action,
        ),
        (PhaseView::Executing(calls), InputView::Executed(result)) => match result {
            Err(error) => fails(before, AgentErrorView::Tool(error), after, action),
            Ok(results) => records(before, results, false, after, action),
        },
        (PhaseView::Recording(msg, results, stopped), InputView::Remembered(result)) => match result {
            Err(error) => fails(before, AgentErrorView::Memory(error), after, action),
            Ok(()) => after == before.waiting(PhaseView::Reporting(msg, results, stopped)) && action
                == ActionView::Notify(after_calls(next, results)),
        },
        (PhaseView::Reporting(msg, _, stopped), InputView::Notified(result)) => match result {
            Err(error) => fails(before, AgentErrorView::Hook(error), after, action),
            Ok(()) => if stopped {
                fails(before, AgentErrorView::Interrupted, after, action)
            } else {
                goes_on(
                    ReplyView { history: before.history.push(msg), step: next, ..before },
                    interrupted,
                    after,
                    action,
                )
            },
        },
        _ => false,
    }
}

fn one_event(event: AgentHookEvent) -> (action: ReplyAction)
    ensures
        action@ == ActionView::Notify(seq![event@]),
{
    let mut events: Vec<AgentHookEvent> = Vec::new();
    events.push(event);
    assert(views(events@) =~= seq![event@]);
    ReplyAction::Notify(events)
}

/// The tool calls of content as blocks of their own.
fn owned_calls(content: &Vec<ContentBlock>) -> (calls: Vec<ToolCallBlock>)
    ensures
        views(calls@) == calls_of(views(content@)),
{
    let found = tool_calls_in(content);
    let ghost expected = views(found@);
    let mut calls: Vec<ToolCallBlock> = Vec::new();
    let mut i: usize = 0;
    while i < found.len()
        invariant
            i <= found@.len(),
            expected == views(found@),
            calls@.len() == i,
            forall|j: int| 0 <= j < i ==> (#[trigger] calls@[j])@ == expected[j],
        decreases found@.len() - i,
    {
        assert(expected[i as int] == found@[i as int]@);
        calls.push(found[i].clone());
        i += 1;
    }
    assert(views(calls@) =~= expected);
    calls
}

impl Reply {
    /// A reply to a message, unless tool calls wait for a decision or their
    /// execution is in doubt.
    pub fn open(
        message: Msg,
        pending: Option<&PendingToolCalls>,
        execution: Option<&PendingToolExecution>,
    ) -> (result: AgentResult<Reply>)
        ensures
            match result {
                Ok(reply) => pending is None && execution is None && reply@ == (ReplyView {
                    system: None,
                    history: Seq::empty(),
                    step: 0,
                    phase: PhaseView::Opening(message@),
                }),
                Err(error) => match (execution, pending) {
                    (Some(checkpoint), _) => error@ == AgentErrorView::ToolExecutionInDoubt(
                        checkpoint@,
                    ),
                    (None, Some(checkpoint)) => error@ == AgentErrorView::ToolConfirmationRequired(
                        checkpoint@,
                    ),
                    (None, None) => false,
                },
            },
    {
        if let Some(checkpoint) = execution {
            return Err(AgentError::ToolExecutionInDoubt { checkpoint: checkpoint.clone() });
        }
        if let Some(checkpoint) = pending {
            return Err(AgentError::ToolConfirmationRequired { checkpoint: checkpoint.clone() });
        }
        let history: Vec<Msg> = Vec::new();
        assert(views(history@) =~= Seq::empty());
        Ok(Reply { system: None, history, step: 0, phase: ReplyPhase::Opening(message) })
    }

    /// A reply to a conversation, after some steps of it.
    pub fn new(history: Vec<Msg>, start_step: usize) -> (reply: Reply)
        ensures
            reply@ == (ReplyView {
                system: None,
                history: views(history@),
                step: start_step as nat,
                phase: PhaseView::Starting,
            }),
    {
        Reply { system: None, history, step: start_step, phase: ReplyPhase::Starting }
    }

    /// The one-based number of the current model call.
    pub fn step(&self) -> (step: usize)
        requires
            self@.step < usize::MAX,
        ensures
            step == self@.step + 1,
    {
        self.step + 1
    }

    fn fail(self, error: AgentError) -> (next: (Reply, ReplyAction))
        ensures
            fails(self@, error@, next.0@, next.1@),
    {
        (
            Reply { system: self.system, history: self.history, step: self.step, phase: ReplyPhase::Over },
            ReplyAction::Return(Err(error)),
        )
    }

    fn start(self, message: Msg) -> (next: (Reply, ReplyAction))
        ensures
            starts(self@.history, message@, self@, next.0@, next.1@),
    {
        let mut history = self.history;
        proof {
            lemma_views_push(history@, message);
        }
        history.push(message);
        (
            Reply { system: self.system, history, step: self.step, phase: ReplyPhase::Starting },
            ReplyAction::Start,
        )
    }

    fn go_on(self, interrupted: bool) -> (next: (Reply, ReplyAction))
        ensures
            goes_on(self@, interrupted, next.0@, next.1@),
    {
        if interrupted {
            self.fail(AgentError::Interrupted)
        } else {
            (
                Reply {
                    system: self.system,
                    history: self.history,
                    step: self.step,
                    phase: ReplyPhase::Preparing,
                },
                ReplyAction::Prepare,
            )
        }
    }

    fn select(self, summary: Option<ContextSummary>) -> (next: (Reply, ReplyAction))
        ensures
            selects(self@, view_option(summary), next.0@, next.1@),
            asks(next.0@.phase, next.1@),
    {
        match summary_projection(self.history.as_slice(), summary.as_ref()) {
            Err(error) => self.fail(error),
            Ok(messages) => (
                Reply {
                    system: self.system,
                    history: self.history,
                    step: self.step,
                    phase: ReplyPhase::Selecting(summary),
                },
                ReplyAction::Select(messages),
            ),
        }
    }

    fn announce<C: TokenCounter>(
        self,
        agent: &ReActAgent,
        budget: Option<&TokenBudget<C>>,
        summary: Option<ContextSummary>,
        selected: Vec<Msg>,
    ) -> (next: (Reply, ReplyAction))
        requires
            self@.well_formed(agent@),
        ensures
            announces(
                agent@,
                budget,
                self@,
                view_option(summary),
                views(selected@),
                next.0@,
                next.1@,
            ),
            next.0@.well_formed(agent@),
            asks(next.0@.phase, next.1@),
    {
        let result = agent.request_with_summary(
            self.system.as_ref(),
            summary.as_ref(),
            selected.as_slice(),
            budget,
        );
        assert(requested(
            agent@,
            budget,
            self@.system,
            view_option(summary),
            views(selected@),
            request_outcome(result),
        ));
        match result {
            Err(error) => self.fail(error),
            Ok(request) => {
                let announced = request.clone();
                let action = one_event(
                    AgentHookEvent::BeforeModelCall { step: self.step + 1, request: announced },
                );
                (
                    Reply {
                        system: self.system,
                    history: self.history,
                        step: self.step,
                        phase: ReplyPhase::Announcing(request),
                    },
                    action,
                )
            },
        }
    }

    fn judge(self, agent: &ReActAgent, response: ChatResponse) -> (next: (Reply, ReplyAction))
        requires
            self@.well_formed(agent@),
        ensures
            judged(agent@, self@, response@, next.0@, next.1@),
            next.0@.well_formed(agent@),
    {
        let Reply { system, history, step, phase } = self;
        let finish_reason = response.finish_reason;
        let calls = owned_calls(&response.content);
        let ghost content = response@.content;
        let mut message = response.into_assistant_msg(agent.name());
        assert(is_reply_of(message@, response@, agent@.name));
        if calls.len() == 0 {
            assert(calls_of(content).len() == 0);
            if let Some(FinishReason::ToolCalls) = finish_reason {
                return (
                    Reply { system, history, step, phase: ReplyPhase::Over },
                    ReplyAction::Return(
                        Err(
                            AgentError::InvalidModelResponse(
                                "finish reason requested tools, but no tool calls were present".to_owned(),
                            ),
                        ),
                    ),
                );
            }
            let stored = message.clone();
            return (
                Reply { system, history, step, phase: ReplyPhase::Storing(stored) },
                ReplyAction::Remember(message),
            );
        }
        assert(calls_of(content).len() > 0);
        if step + 1 == agent.max_steps() {
            return (
                Reply { system, history, step, phase: ReplyPhase::Limiting },
                ReplyAction::Remember(message),
            );
        }
        if agent.requires_confirmation(&calls) {
            if !agent.has_memory() {
                return (
                    Reply { system, history, step, phase: ReplyPhase::Over },
                    ReplyAction::Return(Err(AgentError::MemoryNotConfigured)),
                );
            }
            let ghost plain = message@;
            set_call_states(&mut message, ToolCallState::Asking);
            let asking = owned_calls(&message.content);
            let pending = PendingToolCalls::new(message.id.clone(), step + 1, asking);
            assert(pending@ =~= checkpoint_of(message@, (step + 1) as nat));
            assert(is_reply_of(plain, response@, agent@.name));
            let kept = pending.clone();
            return (
                Reply { system, history, step, phase: ReplyPhase::Pausing(kept) },
                ReplyAction::Pause(message, pending),
            );
        }
        let events = notify_before_calls(step + 1, &calls);
        (
            Reply { system, history, step, phase: ReplyPhase::Clearing(message, calls) },
            ReplyAction::Notify(events),
        )
    }

    fn record(
        system: Option<Msg>,
        history: Vec<Msg>,
        step: usize,
        results: Vec<ToolResultBlock>,
        interrupted: bool,
    ) -> (next: (Reply, ReplyAction))
        ensures
            records(
                ReplyView {
                    system: view_option(system),
                    history: views(history@),
                    step: step as nat,
                    phase: PhaseView::Over,
                },
                views(results@),
                interrupted,
                next.0@,
                next.1@,
            ),
    {
        let message = observation(&results);
        let remembered = message.clone();
        (
            Reply { system, history, step, phase: ReplyPhase::Recording(message, results, interrupted) },
            ReplyAction::Remember(remembered),
        )
    }

    /// Takes what came of the last action and says what to do next. Requests are
    /// kept within the budget, where there is one.
    #[verifier::rlimit(40)]
    pub fn advance<C: TokenCounter>(
        self,
        agent: &ReActAgent,
        budget: Option<&TokenBudget<C>>,
        input: ReplyInput,
        interrupted: bool,
    ) -> (next: (Reply, ReplyAction))
        requires
            self@.well_formed(agent@),
            answers(self@.phase, input@),
        ensures
            reply_step(agent@, budget, self@, input@, interrupted, next.0@, next.1@),
            next.0@.well_formed(agent@),
            asks(next.0@.phase, next.1@),
    {
        let ghost before = self@;
        let Reply { system, history, step, phase } = self;
        match (phase, input) {
            (ReplyPhase::Opening(message), ReplyInput::Begin) => {
                let told = message.clone();
                let action = one_event(AgentHookEvent::BeforeReply { message: told });
                (Reply { system, history, step, phase: ReplyPhase::Greeting(message) }, action)
            },
            (ReplyPhase::Greeting(message), ReplyInput::Notified(result)) => match result {
                Err(error) => Reply { system, history, step, phase: ReplyPhase::Greeting(message) }.fail(
                    AgentError::Hook(error),
                ),
                Ok(()) => {
                    if interrupted {
                        Reply { system, history, step, phase: ReplyPhase::Greeting(message) }.fail(
                            AgentError::Interrupted,
                        )
                    } else if agent.has_memory() {
                        (
                            Reply { system, history, step, phase: ReplyPhase::Loading(message) },
                            ReplyAction::Load,
                        )
                    } else {
                        Reply { system, history, step, phase: ReplyPhase::Starting }.start(message)
                    }
                },
            },
            (ReplyPhase::Loading(message), ReplyInput::Loaded(result)) => match result {
                Err(error) => Reply { system, history, step, phase: ReplyPhase::Loading(message) }.fail(
                    AgentError::Memory(error),
                ),
                Ok(loaded) => {
                    let remembered = message.clone();
                    (
                        Reply {
                            system,
                            history: loaded,
                            step,
                            phase: ReplyPhase::Admitting(message),
                        },
                        ReplyAction::Remember(remembered),
                    )
                },
            },
            (ReplyPhase::Admitting(message), ReplyInput::Remembered(result)) => match result {
                Err(error) => Reply { system, history, step, phase: ReplyPhase::Admitting(message) }.fail(
                    AgentError::Memory(error),
                ),
                Ok(()) => Reply { system, history, step, phase: ReplyPhase::Starting }.start(message),
            },
            (ReplyPhase::Starting, ReplyInput::Begin) => {
                let system = agent.system_message();
                assert(instructs(agent@, view_option(system)));
                Reply { system, history, step, phase: ReplyPhase::Starting }.go_on(interrupted)
            },
            (ReplyPhase::Preparing, ReplyInput::Summary(summary)) => Reply {
                system,
                history,
                step,
                phase: ReplyPhase::Preparing,
            }.select(summary),
            (ReplyPhase::Selecting(summary), ReplyInput::Selected(result)) => match result {
                Err(error) => Reply { system, history, step, phase: ReplyPhase::Selecting(summary) }.fail(
                    AgentError::Tool(error),
                ),
                Ok(selected) => {
                    Reply { system, history, step, phase: ReplyPhase::Preparing }.announce(
                        agent,
                        budget,
                        summary,
                        selected,
                    )
                },
            },
            (ReplyPhase::Announcing(request), ReplyInput::Notified(result)) => match result {
                Err(error) => Reply {
                    system,
                    history,
                    step,
                    phase: ReplyPhase::Announcing(request),
                }.fail(AgentError::Hook(error)),
                Ok(()) => {
                    if interrupted {
                        Reply { system, history, step, phase: ReplyPhase::Announcing(request) }.fail(
                            AgentError::Interrupted,
                        )
                    } else {
                        (
                            Reply { system, history, step, phase: ReplyPhase::Calling },
                            ReplyAction::CallModel(request),
                        )
                    }
                },
            },
            (ReplyPhase::Calling, ReplyInput::Interrupted) => Reply {
                system,
                history,
                step,
                phase: ReplyPhase::Calling,
            }.fail(AgentError::Interrupted),
            (ReplyPhase::Calling, ReplyInput::Responded(result)) => match result {
                Err(error) => Reply { system, history, step, phase: ReplyPhase::Calling }.fail(
                    AgentError::Model(error),
                ),
                Ok(response) => {
                    if !response.is_last {
                        Reply { system, history, step, phase: ReplyPhase::Calling }.fail(
                            AgentError::InvalidModelResponse(
                                "complete generation returned a partial response".to_owned(),
                            ),
                        )
                    } else {
                        let reviewed = response.clone();
                        let action = one_event(
                            AgentHookEvent::AfterModelCall { step: step + 1, response: reviewed },
                        );
                        (Reply { system, history, step, phase: ReplyPhase::Reviewing(response) }, action)
                    }
                },
            },
            (ReplyPhase::Reviewing(response), ReplyInput::Notified(result)) => match result {
                Err(error) => Reply {
                    system,
                    history,
                    step,
                    phase: ReplyPhase::Reviewing(response),
                }.fail(AgentError::Hook(error)),
                Ok(()) => {
                    if interrupted {
                        Reply { system, history, step, phase: ReplyPhase::Reviewing(response) }.fail(
                            AgentError::Interrupted,
                        )
                    } else {
                        Reply { system, history, step, phase: ReplyPhase::Calling }.judge(agent, response)
                    }
                },
            },
            (ReplyPhase::Storing(message), ReplyInput::Remembered(result)) => match result {
                Err(error) => Reply { system, history, step, phase: ReplyPhase::Storing(message) }.fail(
                    AgentError::Memory(error),
                ),
                Ok(()) => {
                    let told = message.clone();
                    let action = one_event(
                        AgentHookEvent::AfterReply { steps: step + 1, message: told },
                    );
                    (Reply { system, history, step, phase: ReplyPhase::Closing(message) }, action)
                },
            },
            (ReplyPhase::Closing(message), ReplyInput::Notified(result)) => match result {
                Err(error) => Reply { system, history, step, phase: ReplyPhase::Closing(message) }.fail(
                    AgentError::Hook(error),
                ),
                Ok(()) => (
                    Reply { system, history, step, phase: ReplyPhase::Over },
                    ReplyAction::Return(Ok(message)),
                ),
            },
            (ReplyPhase::Limiting, ReplyInput::Remembered(result)) => match result {
                Err(error) => Reply { system, history, step, phase: ReplyPhase::Limiting }.fail(
                    AgentError::Memory(error),
                ),
                Ok(()) => Reply { system, history, step, phase: ReplyPhase::Limiting }.fail(
                    AgentError::MaxStepsExceeded { max_steps: agent.max_steps() },
                ),
            },
            (ReplyPhase::Pausing(pending), ReplyInput::Remembered(result)) => match result {
                Err(error) => Reply { system, history, step, phase: ReplyPhase::Pausing(pending) }.fail(
                    AgentError::Memory(error),
                ),
                Ok(()) => (
                    Reply { system, history, step, phase: ReplyPhase::Over },
                    ReplyAction::Return(
                        Err(AgentError::ToolConfirmationRequired { checkpoint: pending }),
                    ),
                ),
            },
            (ReplyPhase::Clearing(message, calls), ReplyInput::Notified(result)) => match result {
                Err(error) => Reply {
                    system,
                    history,
                    step,
                    phase: ReplyPhase::Clearing(message, calls),
                }.fail(AgentError::Hook(error)),
                Ok(()) => {
                    if interrupted {
                        Reply { system, history, step, phase: ReplyPhase::Clearing(message, calls) }.fail(
                            AgentError::Interrupted,
                        )
                    } else {
                        let remembered = message.clone();
                        (
                            Reply { system, history, step, phase: ReplyPhase::Committing(message, calls) },
                            ReplyAction::Remember(remembered),
                        )
                    }
                },
            },
            (ReplyPhase::Committing(message, calls), ReplyInput::Remembered(result)) => match result {
                Err(error) => Reply {
                    system,
                    history,
                    step,
                    phase: ReplyPhase::Committing(message, calls),
                }.fail(AgentError::Memory(error)),
                Ok(()) => {
                    let mut history = history;
                    proof {
                        lemma_views_push(history@, message);
                    }
                    history.push(message);
                    let executed = calls.clone();
                    assert(views(executed@) =~= views(calls@));
                    (
                        Reply { system, history, step, phase: ReplyPhase::Executing(calls) },
                        ReplyAction::Execute(executed),
                    )
                },
            },
            (ReplyPhase::Executing(calls), ReplyInput::Interrupted) => {
                match interrupted_tool_results(&calls) {
                    Err(error) => Reply { system, history, step, phase: ReplyPhase::Executing(calls) }.fail(
                        error,
                    ),
                    Ok(results) => {
                        assert(close_interrupted(views(calls@), views(results@)));
                        Reply::record(system, history, step, results, true)
                    },
                }
            },
            (ReplyPhase::Executing(calls), ReplyInput::Executed(result)) => match result {
                Err(error) => Reply { system, history, step, phase: ReplyPhase::Executing(calls) }.fail(
                    AgentError::Tool(error),
                ),
                Ok(results) => Reply::record(system, history, step, results, false),
            },
            (
                ReplyPhase::Recording(message, results, stopped),
                ReplyInput::Remembered(result),
            ) => match result {
                Err(error) => Reply {
                    system,
                    history,
                    step,
                    phase: ReplyPhase::Recording(message, results, stopped),
                }.fail(AgentError::Memory(error)),
                Ok(()) => {
                    let events = notify_after_calls(step + 1, &results);
                    (
                        Reply {
                            system,
                            history,
                            step,
                            phase: ReplyPhase::Reporting(message, results, stopped),
                        },
                        ReplyAction::Notify(events),
                    )
                },
            },
            (ReplyPhase::Reporting(message, results, stopped), ReplyInput::Notified(result)) => match result {
                Err(error) => Reply {
                    system,
                    history,
                    step,
                    phase: ReplyPhase::Reporting(message, results, stopped),
                }.fail(AgentError::Hook(error)),
                Ok(()) => {
                    if stopped {
                        Reply {
                            system,
                            history,
                            step,
                            phase: ReplyPhase::Reporting(message, results, stopped),
                        }.fail(
                            AgentError::Interrupted,
                        )
                    } else {
                        let mut history = history;
                        proof {
                            lemma_views_push(history@, message);
                        }
                        history.push(message);
                        Reply { system, history, step: step + 1, phase: ReplyPhase::Starting }.go_on(
                            interrupted,
                        )
                    }
                },
            },
            (phase, _) => Reply { system, history, step, phase }.fail(AgentError::Interrupted),
        }
    }
}

/// How many more times a reply can call the model.
pub open spec fn calls_left(agent: AgentView, reply: ReplyView) -> int {
    match reply.phase {
        PhaseView::Opening(_)
        | PhaseView::Greeting(_)
        | PhaseView::Loading(_)
        | PhaseView::Admitting(_)
        | PhaseView::Starting
        | PhaseView::Preparing
        | PhaseView::Selecting(_)
        | PhaseView::Announcing(_) => agent.max_steps - reply.step,
        PhaseView::Over => 0,
        _ => agent.max_steps - reply.step - 1,
    }
}

/// A reply under way: its states, with the input, the interruption and the action
/// between each state and the next.
pub struct ReplyRun {
    pub states: Seq<ReplyView>,
    pub inputs: Seq<InputView>,
    pub interrupted: Seq<bool>,
    pub actions: Seq<ActionView>,
}

impl ReplyRun {
    /// Whether each state follows from the one before.
    pub open spec fn valid<C: TokenCounter>(
        self,
        agent: AgentView,
        budget: Option<&TokenBudget<C>>,
    ) -> bool {
        &&& self.states.len() == self.actions.len() + 1
        &&& self.inputs.len() == self.actions.len()
        &&& self.interrupted.len() == self.actions.len()
        &&& forall|i: int| 0 <= i < self.actions.len() ==> #[trigger] self.step_holds(agent, budget, i)
    }

    /// Whether one state follows from the one before.
    pub open spec fn step_holds<C: TokenCounter>(
        self,
        agent: AgentView,
        budget: Option<&TokenBudget<C>>,
        i: int,
    ) -> bool {
        reply_step(
            agent,
            budget,
            self.states[i],
            self.inputs[i],
            self.interrupted[i],
            self.states[i + 1],
            self.actions[i],
        )
    }
}

/// How many of the first actions call the model.
pub open spec fn model_calls(actions: Seq<ActionView>, count: nat) -> nat
    decreases count,
{
    if count == 0 {
        0
    } else {
        model_calls(actions, (count - 1) as nat) + if actions[count - 1] is CallModel {
            1nat
        } else {
            0nat
        }
    }
}

proof fn lemma_calls_within<C: TokenCounter>(
    agent: AgentView,
    budget: Option<&TokenBudget<C>>,
    run: ReplyRun,
    count: nat,
)
    requires
        run.valid(agent, budget),
        run.states[0].well_formed(agent),
        count <= run.actions.len(),
    ensures
        run.states[count as int].well_formed(agent),
        model_calls(run.actions, count) + calls_left(agent, run.states[count as int])
            <= calls_left(agent, run.states[0]),
        calls_left(agent, run.states[count as int]) >= 0,
    decreases count,
{
    if count > 0 {
        lemma_calls_within(agent, budget, run, (count - 1) as nat);
        assert(run.step_holds(agent, budget, count - 1));
    }
}

/// A reply never calls the model more often than its step limit allows.
pub proof fn model_calls_are_bounded<C: TokenCounter>(
    agent: AgentView,
    budget: Option<&TokenBudget<C>>,
    run: ReplyRun,
)
    requires
        run.valid(agent, budget),
        run.states[0].well_formed(agent),
    ensures
        model_calls(run.actions, run.actions.len()) <= agent.max_steps - run.states[0].step,
{
    lemma_calls_within(agent, budget, run, run.actions.len());
}

/// No tool that needs confirmation is executed by a reply that nobody confirmed.
pub proof fn protected_tools_wait_for_confirmation<C: TokenCounter>(
    agent: AgentView,
    budget: Option<&TokenBudget<C>>,
    run: ReplyRun,
    at: int,
)
    requires
        run.valid(agent, budget),
        run.states[0].well_formed(agent),
        0 <= at < run.actions.len(),
        run.actions[at] is Execute,
    ensures
        !needs_confirmation(agent, run.actions[at]->Execute_0),
        forall|i: int|
            0 <= i < run.actions[at]->Execute_0.len() ==> !agent.confirmation_tools.contains(
                (#[trigger] run.actions[at]->Execute_0[i]).name,
            ),
{
    lemma_calls_within(agent, budget, run, at as nat);
    assert(run.step_holds(agent, budget, at));
}

/// An interrupted reply goes on to no further model call and does not call the
/// model.
pub proof fn interrupted_replies_call_no_model<C: TokenCounter>(
    agent: AgentView,
    budget: Option<&TokenBudget<C>>,
    before: ReplyView,
    input: InputView,
    after: ReplyView,
    action: ActionView,
)
    requires
        reply_step(agent, budget, before, input, true, after, action),
    ensures
        !(action is Prepare),
        !(action is CallModel),
{
}

/// A tool call is executed only after the message that asks for it was remembered
/// and became part of the conversation.
pub proof fn executed_calls_are_remembered<C: TokenCounter>(
    agent: AgentView,
    budget: Option<&TokenBudget<C>>,
    before: ReplyView,
    input: InputView,
    interrupted: bool,
    after: ReplyView,
    action: ActionView,
)
    requires
        reply_step(agent, budget, before, input, interrupted, after, action),
        action is Execute,
    ensures
        input matches InputView::Remembered(Ok(_)),
        after.history.len() == before.history.len() + 1,
        before.phase == PhaseView::Committing(after.history.last(), action->Execute_0),
{
}

/// A reply that ends with a message ends with the one it remembered last.
pub proof fn returned_messages_are_remembered<C: TokenCounter>(
    agent: AgentView,
    budget: Option<&TokenBudget<C>>,
    run: ReplyRun,
    at: int,
    msg: MsgView,
)
    requires
        run.valid(agent, budget),
        run.states[0].phase is Opening || run.states[0].phase is Starting,
        0 <= at < run.actions.len(),
        run.actions[at] == ActionView::Return(Ok(msg)),
    ensures
        at >= 2,
        run.actions[at - 2] == ActionView::Remember(msg),
        run.inputs[at - 1] matches InputView::Remembered(Ok(_)),
{
    assert(run.step_holds(agent, budget, at));
    assert(run.states[at].phase == PhaseView::Closing(msg));
    assert(run.step_holds(agent, budget, at - 1));
    assert(run.states[at - 1].phase == PhaseView::Storing(msg));
    assert(run.step_holds(agent, budget, at - 2));
}

/// The model is called with nothing but the request for what was selected of the
/// conversation, beside the summary in use, which is valid for it.
pub proof fn model_calls_ask_for_the_selection<C: TokenCounter>(
    agent: AgentView,
    budget: Option<&TokenBudget<C>>,
    run: ReplyRun,
    at: int,
    request: RequestView,
) -> (found: (Option<SummaryView>, Seq<MsgView>))
    requires
        run.valid(agent, budget),
        run.states[0].phase is Opening || run.states[0].phase is Starting,
        0 <= at < run.actions.len(),
        run.actions[at] == ActionView::CallModel(request),
    ensures
        at >= 2,
        run.inputs[at - 2] == InputView::Summary(found.0),
        found.0 matches Some(known) ==> summary_fault(known, run.states[at].history) is None,
        run.actions[at - 2] == ActionView::Select(projected(run.states[at].history, found.0)),
        run.inputs[at - 1] == InputView::Selected(Ok(found.1)),
        requested(agent, budget, run.states[at].system, found.0, found.1, Ok(request)),
{
    assert(run.step_holds(agent, budget, at));
    assert(run.states[at].phase == PhaseView::Announcing(request));
    assert(run.step_holds(agent, budget, at - 1));
    let selected = run.inputs[at - 1]->Selected_0->Ok_0;
    let summary = run.states[at - 1].phase->Selecting_0;
    assert(announces(
        agent,
        budget,
        run.states[at - 1],
        summary,
        selected,
        run.states[at],
        run.actions[at - 1],
    ));
    assert(run.step_holds(agent, budget, at - 2));
    (summary, selected)
}

proof fn lemma_system_kept<C: TokenCounter>(
    agent: AgentView,
    budget: Option<&TokenBudget<C>>,
    run: ReplyRun,
    from: int,
    to: int,
)
    requires
        run.valid(agent, budget),
        0 <= from <= to < run.states.len(),
        has_begun(run.states[from].phase),
    ensures
        has_begun(run.states[to].phase),
        run.states[to].system == run.states[from].system,
    decreases to,
{
    if from < to {
        lemma_system_kept(agent, budget, run, from, to - 1);
        assert(run.step_holds(agent, budget, to - 1));
    }
}

/// Whether a reply has begun to call the model.
pub open spec fn has_begun(phase: PhaseView) -> bool {
    !(phase is Opening || phase is Greeting || phase is Loading || phase is Admitting || phase
        is Starting)
}

/// All requests of a reply lead with one and the same system message, where the agent
/// has a system prompt.
pub proof fn requests_lead_with_one_system_message<C: TokenCounter>(
    agent: AgentView,
    budget: Option<&TokenBudget<C>>,
    run: ReplyRun,
    earlier: int,
    later: int,
    first: RequestView,
    second: RequestView,
)
    requires
        run.valid(agent, budget),
        run.states[0].phase is Opening || run.states[0].phase is Starting,
        0 <= earlier <= later < run.actions.len(),
        run.actions[earlier] == ActionView::CallModel(first),
        run.actions[later] == ActionView::CallModel(second),
    ensures
        instructs(agent, run.states[later].system),
        run.states[earlier].system == run.states[later].system,
        run.states[later].system matches Some(system) ==> first.messages.len() > 0
            && second.messages.len() > 0 && first.messages[0] == system && second.messages[0]
            == system,
{
    let (summary, selected) = model_calls_ask_for_the_selection(
        agent,
        budget,
        run,
        earlier,
        first,
    );
    lemma_leads(agent, budget, run.states[earlier].system, summary, selected, first);
    let (summary, selected) = model_calls_ask_for_the_selection(agent, budget, run, later, second);
    lemma_leads(agent, budget, run.states[later].system, summary, selected, second);
    assert(run.step_holds(agent, budget, earlier));
    lemma_system_kept(agent, budget, run, earlier, later);
    assert(run.step_holds(agent, budget, later));
    lemma_instructed(agent, budget, run, later);
}

/// A request leads with its system message.
proof fn lemma_leads<C: TokenCounter>(
    agent: AgentView,
    budget: Option<&TokenBudget<C>>,
    system: Option<MsgView>,
    summary: Option<SummaryView>,
    selected: Seq<MsgView>,
    request: RequestView,
)
    requires
        requested(agent, budget, system, summary, selected, Ok(request)),
    ensures
        system matches Some(msg) ==> request.messages.len() > 0 && request.messages[0] == msg,
{
    let told = choose|told: Option<MsgView>| #[trigger]
        tells(summary, told) && Ok::<_, AgentErrorView>(request) == prepared(
            agent,
            system,
            told,
            selected,
            budget,
        );
    if let Some(limit) = budget {
        instructions_and_summary_are_never_cut(agent, system, told, selected, limit);
        let fixed = fixed_messages(system, told) as int;
        assert(request.messages.take(fixed) == request_messages(system, told, Seq::empty()));
        if system is Some {
            assert(request.messages.take(fixed)[0] == request.messages[0]);
        }
    }
}

/// Once a reply has begun, its system message is the agent's.
proof fn lemma_instructed<C: TokenCounter>(
    agent: AgentView,
    budget: Option<&TokenBudget<C>>,
    run: ReplyRun,
    count: int,
)
    requires
        run.valid(agent, budget),
        !has_begun(run.states[0].phase),
        0 <= count < run.states.len(),
    ensures
        has_begun(run.states[count].phase) && !(run.states[count].phase is Over) ==> instructs(
            agent,
            run.states[count].system,
        ),
    decreases count,
{
    if count > 0 {
        lemma_instructed(agent, budget, run, count - 1);
        assert(run.step_holds(agent, budget, count - 1));
    }
}

} // verus!
