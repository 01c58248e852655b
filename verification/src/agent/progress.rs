//! How a reply proceeds from its message to its answer, and what ends it before.
use vstd::prelude::*;

use super::conduct::names_protected;
use super::error::AgentErrorView;
use super::hook::HookEventView;
use super::mending::{announce, report};
use super::react::AgentView;
use super::reply::{reply_step, ActionView, InputView, PhaseView, ReplyView};
use crate::context::budget::{TokenBudget, TokenCounter};
use crate::context::summary::summary_fault;
use crate::message::content::calls_among;
use crate::message::role::Role;

verus! {

/// Whatever fails under way ends the reply with that failure: hooks, memory, the
/// model, tools.
pub proof fn failures_end_the_reply<C: TokenCounter>(
    agent: AgentView,
    budget: Option<&TokenBudget<C>>,
    before: ReplyView,
    input: InputView,
    interrupted: bool,
    after: ReplyView,
    action: ActionView,
)
    requires
        reply_step(agent, budget, before, input, interrupted, after, action),
    ensures
        input matches InputView::Notified(Err(error)) ==> action == ActionView::Return(
            Err(AgentErrorView::Hook(error)),
        ),
        input matches InputView::Loaded(Err(error)) ==> action == ActionView::Return(
            Err(AgentErrorView::Memory(error)),
        ),
        input matches InputView::Remembered(Err(error)) ==> action == ActionView::Return(
            Err(AgentErrorView::Memory(error)),
        ),
        input matches InputView::Responded(Err(error)) ==> action == ActionView::Return(
            Err(AgentErrorView::Model(error)),
        ),
        input matches InputView::Executed(Err(error)) ==> action == ActionView::Return(
            Err(AgentErrorView::Tool(error)),
        ),
        input matches InputView::Selected(Err(error)) ==> action == ActionView::Return(
            Err(AgentErrorView::Tool(error)),
        ),
        before.phase is Calling && input is Interrupted ==> action == ActionView::Return(
            Err(AgentErrorView::Interrupted),
        ),
        action is Return ==> after.phase is Over,
{
}

/// An interruption ends the reply before the next thing is done: before memory is
/// read, a model or a tool is called, or a response is acted upon.
pub proof fn interruptions_end_the_reply<C: TokenCounter>(
    agent: AgentView,
    budget: Option<&TokenBudget<C>>,
    before: ReplyView,
    after: ReplyView,
    action: ActionView,
)
    requires
        reply_step(agent, budget, before, InputView::Notified(Ok(())), true, after, action),
        !(before.phase is Closing),
    ensures
        action == ActionView::Return(Err(AgentErrorView::Interrupted)),
        after.phase is Over,
{
}

/// A reply begins with the message: hooks hear of it, memory gives what was said
/// before, the message is remembered behind it, and the conversation with it is what
/// the reply is about.
pub proof fn replies_begin_with_their_message<C: TokenCounter>(
    agent: AgentView,
    budget: Option<&TokenBudget<C>>,
    before: ReplyView,
    input: InputView,
    after: ReplyView,
    action: ActionView,
)
    requires
        reply_step(agent, budget, before, input, false, after, action),
        !(action is Return),
    ensures
        before.phase matches PhaseView::Opening(msg) ==> action == ActionView::Notify(
            seq![HookEventView::BeforeReply(msg)],
        ) && after.phase == PhaseView::Greeting(msg),
        before.phase matches PhaseView::Greeting(msg) ==> {
            &&& agent.has_memory ==> action is Load && after.phase == PhaseView::Loading(msg)
            &&& !agent.has_memory ==> action is Start && after.history == before.history.push(msg)
        },
        before.phase matches PhaseView::Loading(msg) ==> action == ActionView::Remember(msg)
            && after.history == input->Loaded_0->Ok_0 && after.phase == PhaseView::Admitting(msg),
        before.phase matches PhaseView::Admitting(msg) ==> action is Start && after.history
            == before.history.push(msg) && after.phase is Starting,
        before.phase is Starting ==> action is Prepare && after.history == before.history
            && after.phase is Preparing,
{
}

/// Each step asks the model with what hooks have heard of, and takes a whole response
/// that hooks hear of too.
pub proof fn models_are_called_with_what_hooks_heard<C: TokenCounter>(
    agent: AgentView,
    budget: Option<&TokenBudget<C>>,
    before: ReplyView,
    input: InputView,
    after: ReplyView,
    action: ActionView,
)
    requires
        reply_step(agent, budget, before, input, false, after, action),
    ensures
        before.phase is Preparing && input->Summary_0 is None ==> action == ActionView::Select(
            before.history,
        ) && after.phase == PhaseView::Selecting(None),
        before.phase is Preparing && input->Summary_0 is Some && summary_fault(
            input->Summary_0->Some_0,
            before.history,
        ) is Some ==> action == ActionView::Return(
            Err(
                AgentErrorView::Summary(
                    summary_fault(input->Summary_0->Some_0, before.history)->Some_0,
                ),
            ),
        ),
        before.phase is Selecting && !(action is Return) ==> after.phase is Announcing && action
            == ActionView::Notify(
            seq![HookEventView::BeforeModelCall(before.step + 1, after.phase->Announcing_0)],
        ),
        before.phase is Announcing && !(action is Return) ==> action == ActionView::CallModel(
            before.phase->Announcing_0,
        ) && after.phase is Calling,
        before.phase is Calling && (input matches InputView::Responded(Ok(response))
            && response.is_last) ==> action == ActionView::Notify(
            seq![HookEventView::AfterModelCall(before.step + 1, input->Responded_0->Ok_0)],
        ) && after.phase == PhaseView::Reviewing(input->Responded_0->Ok_0),
        before.phase is Calling && (input matches InputView::Responded(Ok(response))
            && !response.is_last) ==> (action matches ActionView::Return(Err(error)) && error
            == AgentErrorView::InvalidModelResponse(
            "complete generation returned a partial response"@,
        )),
        before.phase is Selecting || before.phase is Announcing || before.phase is Calling
            || before.phase is Preparing ==> after.history == before.history && after.step
            == before.step,
{
    if before.phase is Preparing && input->Summary_0 is None {
        assert(super::compaction::projected(before.history, None) == before.history);
    }
}

/// Calls that need no confirmation are announced, remembered with their message,
/// executed, and their results remembered, reported and put before the model in the
/// next step.
pub proof fn calls_are_executed_between_steps<C: TokenCounter>(
    agent: AgentView,
    budget: Option<&TokenBudget<C>>,
    before: ReplyView,
    input: InputView,
    after: ReplyView,
    action: ActionView,
)
    requires
        reply_step(agent, budget, before, input, false, after, action),
        !(action is Return),
    ensures
        before.phase matches PhaseView::Reviewing(response) ==> calls_among(response.content).len()
            > 0 && before.step + 1 < agent.max_steps && !names_protected(
            agent,
            calls_among(response.content),
        ) ==> action is Notify && announce(
            action->Notify_0,
            before.step + 1,
            calls_among(response.content),
        ) && after.phase is Clearing && after.phase->Clearing_1 == calls_among(response.content)
            && after.phase->Clearing_0.content == response.content
            && after.phase->Clearing_0.role == Role::Assistant,
        before.phase matches PhaseView::Clearing(msg, calls) ==> action == ActionView::Remember(msg)
            && after.phase == PhaseView::Committing(msg, calls),
        before.phase matches PhaseView::Committing(msg, calls) ==> action == ActionView::Execute(
            calls,
        ) && after.history == before.history.push(msg) && after.phase == PhaseView::Executing(
            calls,
        ),
        before.phase matches PhaseView::Recording(msg, results, stopped) ==> action is Notify
            && report(action->Notify_0, before.step + 1, results) && after.phase
            == PhaseView::Reporting(msg, results, stopped),
        before.phase matches PhaseView::Reporting(msg, results, stopped) ==> !stopped && action
            is Prepare && after.history == before.history.push(msg) && after.step == before.step
            + 1,
{
    if let PhaseView::Reviewing(response) = before.phase {
        super::conduct::responses_ask_for_all_their_calls(response.content);
        super::conduct::lemma_protected(agent, calls_among(response.content));
    }
}

/// An answer is returned once it is remembered and hooks have heard of it; a reply
/// whose tools were interrupted is over when their results are reported.
pub proof fn answers_are_returned_after_hooks<C: TokenCounter>(
    agent: AgentView,
    budget: Option<&TokenBudget<C>>,
    before: ReplyView,
    input: InputView,
    interrupted: bool,
    after: ReplyView,
    action: ActionView,
)
    requires
        reply_step(agent, budget, before, input, interrupted, after, action),
    ensures
        before.phase matches PhaseView::Storing(msg) ==> input == InputView::Remembered(Ok(()))
            ==> action == ActionView::Notify(seq![HookEventView::AfterReply(before.step + 1, msg)])
            && after.phase == PhaseView::Closing(msg),
        before.phase matches PhaseView::Closing(msg) ==> input == InputView::Notified(Ok(()))
            ==> action == ActionView::Return(Ok(msg)),
        before.phase is Limiting && input == InputView::Remembered(Ok(())) ==> action
            == ActionView::Return(
            Err(AgentErrorView::MaxStepsExceeded { max_steps: agent.max_steps as usize }),
        ),
        before.phase is Reporting && before.phase->Reporting_2 && input == InputView::Notified(
            Ok(()),
        ) ==> action == ActionView::Return(Err(AgentErrorView::Interrupted)),
{
}

} // verus!
