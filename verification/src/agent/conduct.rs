//! How agents conduct themselves, told of the calls, names, decisions and results
//! themselves.
use vstd::prelude::*;

use super::confirmation::{
    confirmation_fault, decides, decision_for, decisions_fault, has_call, lemma_decision_for,
    lemma_decisions_distinct, lemma_undecided, undecided, ConfirmationView, DecisionView,
    ExecutionView, PendingView,
};
use super::decided::{approved_in, decides_result, given_fault, merges, reconcile_fault, result_for};
use super::error::AgentErrorView;
use super::event::AgentEventView;
use super::hook::HookEventView;
use super::react::{
    message_index, needs_confirmation, result_blocks, with_call_state, with_finished_calls,
    AgentView,
};
use super::recovery::{
    opening_fault, recovery_step, RecoveryActionView, RecoveryInputView, RecoveryKindView,
    RecoveryView,
};
use super::reply::{reply_step, ActionView, InputView, PhaseView, ReplyRun, ReplyView};
use super::resume::{
    resume_step, resumption_fault, ResumeActionView, ResumeInputView, ResumePhaseView, ResumeView,
};
use super::stream::step_events;
use crate::context::budget::{TokenBudget, TokenCounter};
use crate::message::content::{calls_among, BlockView};
use crate::message::msg::MsgView;
use crate::message::role::Role;
use crate::message::tool_call::{ToolCallState, ToolCallView};
use crate::message::tool_result::{OutputView, ToolResultState, ToolResultView};
use crate::model::response::{calls_of, FinishReason, ResponseView};

verus! {

/// The calls that a response asks for are its tool-call blocks, all of them and in
/// order.
pub proof fn responses_ask_for_all_their_calls(content: Seq<BlockView>)
    ensures
        calls_of(content) == calls_among(content),
    decreases content.len(),
{
    if content.len() > 0 {
        responses_ask_for_all_their_calls(content.drop_last());
    }
    assert(calls_of(content) =~= calls_among(content));
}

/// Whether one of some calls has a name that asks for confirmation.
pub open spec fn names_protected(agent: AgentView, calls: Seq<ToolCallView>) -> bool {
    exists|i: int, j: int|
        0 <= i < calls.len() && 0 <= j < agent.confirmation_tools.len() && (#[trigger] calls[i]).name
            == #[trigger] agent.confirmation_tools[j]
}

pub(crate) proof fn lemma_protected(agent: AgentView, calls: Seq<ToolCallView>)
    ensures
        needs_confirmation(agent, calls) == names_protected(agent, calls),
{
    if needs_confirmation(agent, calls) {
        let i = choose|i: int|
            0 <= i < calls.len() && agent.confirmation_tools.contains((#[trigger] calls[i]).name);
        let j = choose|j: int|
            0 <= j < agent.confirmation_tools.len() && agent.confirmation_tools[j] == calls[i].name;
        assert(calls[i].name == agent.confirmation_tools[j]);
    }
    if names_protected(agent, calls) {
        let (i, j) = choose|i: int, j: int|
            0 <= i < calls.len() && 0 <= j < agent.confirmation_tools.len() && (
            #[trigger] calls[i]).name == #[trigger] agent.confirmation_tools[j];
        assert(agent.confirmation_tools.contains(calls[i].name));
    }
}

/// Whether calls are others in a state.
pub open spec fn in_state(
    calls: Seq<ToolCallView>,
    others: Seq<ToolCallView>,
    state: ToolCallState,
) -> bool {
    calls.len() == others.len() && forall|i: int|
        0 <= i < calls.len() ==> #[trigger] calls[i] == (ToolCallView { state, ..others[i] })
}

proof fn lemma_calls_in_state(content: Seq<BlockView>, state: ToolCallState)
    ensures
        in_state(
            calls_among(content.map_values(|block: BlockView| with_call_state(block, state))),
            calls_among(content),
            state,
        ),
    decreases content.len(),
{
    let changed = content.map_values(|block: BlockView| with_call_state(block, state));
    if content.len() > 0 {
        let rest = content.drop_last();
        lemma_calls_in_state(rest, state);
        assert(changed.drop_last() =~= rest.map_values(
            |block: BlockView| with_call_state(block, state),
        ));
    }
}

/// A response that asks for a protected tool, whichever of its calls it is, pauses the
/// reply before any tool runs: the message is remembered with all its calls asking, and
/// the checkpoint holds all of them. Without memory the reply fails instead.
pub proof fn protected_calls_pause_the_reply<C: TokenCounter>(
    agent: AgentView,
    budget: Option<&TokenBudget<C>>,
    before: ReplyView,
    response: ResponseView,
    after: ReplyView,
    action: ActionView,
)
    requires
        before.phase == PhaseView::Reviewing(response),
        reply_step(agent, budget, before, InputView::Notified(Ok(())), false, after, action),
        names_protected(agent, calls_among(response.content)),
        before.step + 1 < agent.max_steps,
    ensures
        agent.has_memory ==> (action matches ActionView::Pause(msg, pending) && {
            &&& pending.reply_id == msg.id
            &&& pending.step == before.step + 1
            &&& in_state(
                pending.calls,
                calls_among(response.content),
                ToolCallState::Asking,
            )
            &&& calls_among(msg.content) == pending.calls
            &&& msg.role == Role::Assistant
            &&& msg.content.len() == response.content.len()
            &&& forall|i: int|
                0 <= i < msg.content.len() && !(#[trigger] response.content[i] is ToolCall)
                    ==> msg.content[i] == response.content[i]
        }),
        !agent.has_memory ==> action == ActionView::Return(
            Err(AgentErrorView::MemoryNotConfigured),
        ),
{
    responses_ask_for_all_their_calls(response.content);
    lemma_protected(agent, calls_among(response.content));
    if agent.has_memory {
        let msg = action->Pause_0;
        responses_ask_for_all_their_calls(msg.content);
        lemma_calls_in_state(response.content, ToolCallState::Asking);
    }
}

/// A paused reply is over once its message is remembered, with its checkpoint as the
/// outcome.
pub proof fn paused_replies_end_with_their_checkpoint<C: TokenCounter>(
    agent: AgentView,
    budget: Option<&TokenBudget<C>>,
    before: ReplyView,
    pending: PendingView,
    interrupted: bool,
    after: ReplyView,
    action: ActionView,
)
    requires
        before.phase == PhaseView::Pausing(pending),
        reply_step(
            agent,
            budget,
            before,
            InputView::Remembered(Ok(())),
            interrupted,
            after,
            action,
        ),
    ensures
        action == ActionView::Return(Err(AgentErrorView::ToolConfirmationRequired(pending))),
        after.phase is Over,
{
}

/// The calls that a reply executes are those of the message that it remembered just
/// before, all of them and in order.
pub proof fn executed_calls_are_those_of_the_message<C: TokenCounter>(
    agent: AgentView,
    budget: Option<&TokenBudget<C>>,
    run: ReplyRun,
    at: int,
    calls: Seq<ToolCallView>,
)
    requires
        run.valid(agent, budget),
        run.states[0].phase is Opening || run.states[0].phase is Starting,
        0 <= at < run.actions.len(),
        run.actions[at] == ActionView::Execute(calls),
    ensures
        run.states[at + 1].history.len() > 0,
        calls == calls_among(run.states[at + 1].history.last().content),
        at >= 1,
        run.actions[at - 1] == ActionView::Remember(run.states[at + 1].history.last()),
{
    assert(run.step_holds(agent, budget, at));
    assert(run.states[at].phase is Committing);
    assert(run.step_holds(agent, budget, at - 1));
    assert(run.states[at - 1].phase is Clearing);
    assert(run.step_holds(agent, budget, at - 2));
    let msg = run.states[at].phase->Committing_0;
    responses_ask_for_all_their_calls(msg.content);
}

/// A response without tool calls is the answer: the reply remembers it as the
/// assistant's message, with its content and usage, and returns that very message.
pub proof fn answers_are_remembered_and_returned<C: TokenCounter>(
    agent: AgentView,
    budget: Option<&TokenBudget<C>>,
    before: ReplyView,
    response: ResponseView,
    after: ReplyView,
    action: ActionView,
)
    requires
        before.phase == PhaseView::Reviewing(response),
        reply_step(agent, budget, before, InputView::Notified(Ok(())), false, after, action),
        calls_among(response.content).len() == 0,
    ensures
        response.finish_reason != Some(FinishReason::ToolCalls) ==> (
        action matches ActionView::Remember(msg) && {
            &&& msg.content == response.content
            &&& msg.role == Role::Assistant
            &&& msg.name == agent.name
            &&& msg.usage == response.usage
            &&& msg.metadata == response.metadata
            &&& after.phase == PhaseView::Storing(msg)
        }),
        response.finish_reason == Some(FinishReason::ToolCalls) ==> (
        action matches ActionView::Return(Err(error)) && error is InvalidModelResponse),
{
    responses_ask_for_all_their_calls(response.content);
}

/// A response that still asks for tools at the last step ends the reply with its limit,
/// once its message is remembered, and no tool runs.
pub proof fn last_steps_run_no_tools<C: TokenCounter>(
    agent: AgentView,
    budget: Option<&TokenBudget<C>>,
    before: ReplyView,
    response: ResponseView,
    after: ReplyView,
    action: ActionView,
    interrupted: bool,
    end: ReplyView,
    outcome: ActionView,
)
    requires
        before.phase == PhaseView::Reviewing(response),
        calls_among(response.content).len() > 0,
        before.step + 1 == agent.max_steps,
        reply_step(agent, budget, before, InputView::Notified(Ok(())), false, after, action),
        reply_step(
            agent,
            budget,
            after,
            InputView::Remembered(Ok(())),
            interrupted,
            end,
            outcome,
        ),
    ensures
        action matches ActionView::Remember(msg) && msg.content == response.content,
        outcome == ActionView::Return(
            Err(AgentErrorView::MaxStepsExceeded { max_steps: agent.max_steps as usize }),
        ),
{
    responses_ask_for_all_their_calls(response.content);
}

/// Whether a message holds results as its blocks, all of them and in order.
pub open spec fn holds_results(msg: MsgView, results: Seq<ToolResultView>) -> bool {
    &&& msg.role == Role::Assistant
    &&& msg.content.len() == results.len()
    &&& forall|i: int|
        0 <= i < results.len() ==> msg.content[i] == BlockView::ToolResult(#[trigger] results[i])
}

/// What the tools give is remembered as one message that holds every result in order,
/// and that message is the end of the conversation for the next model call.
pub proof fn results_are_observed<C: TokenCounter>(
    agent: AgentView,
    budget: Option<&TokenBudget<C>>,
    before: ReplyView,
    results: Seq<ToolResultView>,
    interrupted: bool,
    after: ReplyView,
    action: ActionView,
)
    requires
        before.phase is Executing,
        reply_step(
            agent,
            budget,
            before,
            InputView::Executed(Ok(results)),
            interrupted,
            after,
            action,
        ),
    ensures
        action matches ActionView::Remember(msg) && holds_results(msg, results) && after.phase
            == PhaseView::Recording(msg, results, false) && after.history == before.history,
{
    assert forall|i: int| 0 <= i < results.len() implies result_blocks(results)[i]
        == BlockView::ToolResult(#[trigger] results[i]) by {}
}

/// Observed results are reported to the hooks one by one, and then the conversation goes
/// on with their message at its end, one step further.
pub proof fn observed_results_reach_the_model<C: TokenCounter>(
    agent: AgentView,
    budget: Option<&TokenBudget<C>>,
    before: ReplyView,
    msg: MsgView,
    results: Seq<ToolResultView>,
    reporting: ReplyView,
    told: ActionView,
    after: ReplyView,
    action: ActionView,
)
    requires
        before.phase == PhaseView::Recording(msg, results, false),
        reply_step(
            agent,
            budget,
            before,
            InputView::Remembered(Ok(())),
            false,
            reporting,
            told,
        ),
        reply_step(
            agent,
            budget,
            reporting,
            InputView::Notified(Ok(())),
            false,
            after,
            action,
        ),
    ensures
        told matches ActionView::Notify(events) && events.len() == results.len() && forall|i: int|
            0 <= i < results.len() ==> events[i] == HookEventView::AfterToolCall(
                before.step + 1,
                #[trigger] results[i],
            ),
        action is Prepare,
        after.history == before.history.push(msg),
        after.step == before.step + 1,
{
}

/// Interrupted tools are closed, each call with a result of its own that says so, and
/// the reply then ends as interrupted.
pub proof fn interrupted_tools_are_closed<C: TokenCounter>(
    agent: AgentView,
    budget: Option<&TokenBudget<C>>,
    before: ReplyView,
    calls: Seq<ToolCallView>,
    interrupted: bool,
    after: ReplyView,
    action: ActionView,
)
    requires
        before.phase == PhaseView::Executing(calls),
        reply_step(agent, budget, before, InputView::Interrupted, interrupted, after, action),
        action is Remember,
    ensures
        after.phase matches PhaseView::Recording(msg, results, stopped) && {
            &&& stopped
            &&& action == ActionView::Remember(msg)
            &&& holds_results(msg, results)
            &&& results.len() == calls.len()
            &&& forall|i: int|
                0 <= i < calls.len() ==> results[i].id == (#[trigger] calls[i]).id
                    && results[i].name == calls[i].name && results[i].state
                    == ToolResultState::Interrupted && results[i].output == OutputView::Text(
                    "agent operation was interrupted"@,
                )
        },
{
    let results = after.phase->Recording_1;
    assert forall|i: int| 0 <= i < results.len() implies result_blocks(results)[i]
        == BlockView::ToolResult(#[trigger] results[i]) by {}
}

/// The hooks hear of every call before it is executed.
pub proof fn hooks_hear_of_every_call<C: TokenCounter>(
    agent: AgentView,
    budget: Option<&TokenBudget<C>>,
    before: ReplyView,
    response: ResponseView,
    after: ReplyView,
    action: ActionView,
)
    requires
        before.phase == PhaseView::Reviewing(response),
        reply_step(agent, budget, before, InputView::Notified(Ok(())), false, after, action),
        calls_among(response.content).len() > 0,
        !names_protected(agent, calls_among(response.content)),
        before.step + 1 < agent.max_steps,
    ensures
        ({
            let calls = calls_among(response.content);
            action matches ActionView::Notify(events) && events.len() == calls.len() && forall|
                i: int,
            |
                0 <= i < calls.len() ==> events[i] == HookEventView::BeforeToolCall(
                    before.step + 1,
                    #[trigger] calls[i],
                )
        }),
{
    responses_ask_for_all_their_calls(response.content);
    lemma_protected(agent, calls_among(response.content));
}

/// A streamed reply announces every call that it executes, in order, and reports every
/// result.
pub proof fn streams_report_every_tool<C: TokenCounter>(
    agent: AgentView,
    budget: Option<&TokenBudget<C>>,
    before: ReplyView,
    input: InputView,
    interrupted: bool,
    after: ReplyView,
    action: ActionView,
)
    requires
        reply_step(agent, budget, before, input, interrupted, after, action),
    ensures
        action matches ActionView::Execute(calls) ==> {
            let events = step_events(before, input, after, action);
            &&& events.len() == calls.len()
            &&& forall|i: int|
                0 <= i < calls.len() ==> events[i] == (AgentEventView::ToolStarted {
                    step: before.step + 1,
                    call: #[trigger] calls[i],
                })
        },
        before.phase is Reporting && input == InputView::Notified(Ok(())) ==> {
            let results = before.phase->Reporting_1;
            let events = step_events(before, input, after, action);
            &&& events.len() >= results.len()
            &&& forall|i: int|
                0 <= i < results.len() ==> events[i] == (AgentEventView::ToolFinished {
                    step: before.step + 1,
                    result: #[trigger] results[i],
                })
        },
        action matches ActionView::Return(Ok(msg)) ==> step_events(before, input, after, action)
            == seq![AgentEventView::Finished { steps: before.step + 1, message: msg }],
{
    if let ActionView::Return(Ok(msg)) = action {
        assert(step_events(before, input, after, action) =~= seq![
            AgentEventView::Finished { steps: before.step + 1, message: msg },
        ]);
    }
}

/// Whether decisions say something of a call.
pub open spec fn say(
    decisions: Seq<ConfirmationView>,
    id: Seq<char>,
    decision: DecisionView,
) -> bool {
    exists|i: int|
        0 <= i < decisions.len() && (#[trigger] decisions[i]).tool_call_id == id
            && decisions[i].decision == decision
}

proof fn lemma_says(decisions: Seq<ConfirmationView>, id: Seq<char>)
    requires
        forall|i: int, j: int|
            0 <= i < j < decisions.len() ==> (#[trigger] decisions[i]).tool_call_id != (
            #[trigger] decisions[j]).tool_call_id,
    ensures
        forall|decision: DecisionView| #[trigger]
            say(decisions, id, decision) <==> decision_for(decisions, id) == Some(decision),
    decreases decisions.len(),
{
    if decisions.len() > 0 {
        let rest = decisions.drop_last();
        assert forall|i: int, j: int| 0 <= i < j < rest.len() implies (
        #[trigger] rest[i]).tool_call_id != (#[trigger] rest[j]).tool_call_id by {
            assert(rest[i] == decisions[i] && rest[j] == decisions[j]);
        }
        lemma_says(rest, id);
        assert forall|decision: DecisionView| #[trigger]
            say(decisions, id, decision) <==> decision_for(decisions, id) == Some(decision) by {
            let last = decisions[decisions.len() - 1];
            if say(decisions, id, decision) {
                let i = choose|i: int|
                    0 <= i < decisions.len() && (#[trigger] decisions[i]).tool_call_id == id
                        && decisions[i].decision == decision;
                if i < decisions.len() - 1 {
                    assert(rest[i] == decisions[i]);
                    assert(say(rest, id, decision));
                    assert(decisions[i].tool_call_id != last.tool_call_id);
                }
            }
            if decision_for(decisions, id) == Some(decision) && last.tool_call_id != id {
                assert(say(rest, id, decision));
                let i = choose|i: int|
                    0 <= i < rest.len() && (#[trigger] rest[i]).tool_call_id == id
                        && rest[i].decision == decision;
                assert(decisions[i] == rest[i]);
            }
        }
    }
}

/// Whether there is a decision for a call.
#[verifier::opaque]
pub open spec fn is_decided(decisions: Seq<ConfirmationView>, id: Seq<char>) -> bool {
    exists|i: int| 0 <= i < decisions.len() && (#[trigger] decisions[i]).tool_call_id == id
}

/// Whether one of some calls has an identifier.
#[verifier::opaque]
pub open spec fn is_asked(calls: Seq<ToolCallView>, id: Seq<char>) -> bool {
    exists|k: int| 0 <= k < calls.len() && (#[trigger] calls[k]).id == id
}

/// Whether decisions cover calls exactly: each call has one, each is for a call, and no
/// two are for the same one.
pub open spec fn cover(calls: Seq<ToolCallView>, decisions: Seq<ConfirmationView>) -> bool {
    &&& forall|k: int| 0 <= k < calls.len() ==> is_decided(decisions, (#[trigger] calls[k]).id)
    &&& forall|i: int|
        0 <= i < decisions.len() ==> is_asked(calls, (#[trigger] decisions[i]).tool_call_id)
    &&& forall|i: int, j: int|
        0 <= i < j < decisions.len() ==> (#[trigger] decisions[i]).tool_call_id != (
        #[trigger] decisions[j]).tool_call_id
}

proof fn lemma_is_decided(decisions: Seq<ConfirmationView>, id: Seq<char>)
    ensures
        is_decided(decisions, id) <==> decision_for(decisions, id) is Some,
{
    reveal(is_decided);
    lemma_decision_for(decisions, id);
    if is_decided(decisions, id) {
        let i = choose|i: int|
            0 <= i < decisions.len() && (#[trigger] decisions[i]).tool_call_id == id;
        assert(decides(decisions, i, id));
    }
    if decision_for(decisions, id) is Some {
        let i = choose|i: int| #[trigger] decides(decisions, i, id);
        assert(decisions[i].tool_call_id == id);
    }
}

proof fn lemma_is_asked(calls: Seq<ToolCallView>, id: Seq<char>)
    ensures
        is_asked(calls, id) == has_call(calls, id),
{
    reveal(is_asked);
}

proof fn lemma_no_decisions_fault(calls: Seq<ToolCallView>, decisions: Seq<ConfirmationView>)
    requires
        forall|i: int|
            0 <= i < decisions.len() ==> is_asked(calls, (#[trigger] decisions[i]).tool_call_id),
        forall|i: int, j: int|
            0 <= i < j < decisions.len() ==> (#[trigger] decisions[i]).tool_call_id != (
            #[trigger] decisions[j]).tool_call_id,
    ensures
        decisions_fault(calls, decisions) is None,
    decreases decisions.len(),
{
    if decisions.len() > 0 {
        let rest = decisions.drop_last();
        let last = decisions[decisions.len() - 1];
        assert forall|i: int| 0 <= i < rest.len() implies is_asked(
            calls,
            (#[trigger] rest[i]).tool_call_id,
        ) by {
            assert(rest[i] == decisions[i]);
        }
        assert forall|i: int, j: int| 0 <= i < j < rest.len() implies (
        #[trigger] rest[i]).tool_call_id != (#[trigger] rest[j]).tool_call_id by {
            assert(rest[i] == decisions[i] && rest[j] == decisions[j]);
        }
        lemma_no_decisions_fault(calls, rest);
        lemma_is_asked(calls, last.tool_call_id);
        lemma_decision_for(rest, last.tool_call_id);
        if decision_for(rest, last.tool_call_id) is Some {
            let i = choose|i: int| #[trigger] decides(rest, i, last.tool_call_id);
            assert(rest[i] == decisions[i]);
        }
    }
}

proof fn lemma_all_decided(calls: Seq<ToolCallView>, decisions: Seq<ConfirmationView>)
    requires
        forall|k: int| 0 <= k < calls.len() ==> is_decided(decisions, (#[trigger] calls[k]).id),
    ensures
        undecided(calls, decisions).len() == 0,
    decreases calls.len(),
{
    if calls.len() > 0 {
        let rest = calls.drop_last();
        assert forall|k: int| 0 <= k < rest.len() implies is_decided(
            decisions,
            (#[trigger] rest[k]).id,
        ) by {
            assert(rest[k] == calls[k]);
        }
        lemma_all_decided(rest, decisions);
        assert(calls[calls.len() - 1] == calls.last());
        lemma_is_decided(decisions, calls.last().id);
    }
}

/// Decisions are accepted exactly where they cover the pending calls.
pub proof fn covering_decisions_are_accepted(
    calls: Seq<ToolCallView>,
    decisions: Seq<ConfirmationView>,
)
    ensures
        confirmation_fault(calls, decisions) is None <==> cover(calls, decisions),
{
    if confirmation_fault(calls, decisions) is None {
        lemma_undecided(calls, decisions);
        lemma_decisions_distinct(calls, decisions);
        assert forall|k: int| 0 <= k < calls.len() implies is_decided(
            decisions,
            (#[trigger] calls[k]).id,
        ) by {
            lemma_is_decided(decisions, calls[k].id);
        }
        assert forall|i: int| 0 <= i < decisions.len() implies is_asked(
            calls,
            (#[trigger] decisions[i]).tool_call_id,
        ) by {
            lemma_is_asked(calls, decisions[i].tool_call_id);
        }
    }
    if cover(calls, decisions) {
        lemma_no_decisions_fault(calls, decisions);
        lemma_all_decided(calls, decisions);
    }
}

proof fn lemma_approved_exactly(calls: Seq<ToolCallView>, decisions: Seq<ConfirmationView>)
    requires
        forall|i: int, j: int|
            0 <= i < j < decisions.len() ==> (#[trigger] decisions[i]).tool_call_id != (
            #[trigger] decisions[j]).tool_call_id,
    ensures
        approved_in(calls, decisions) == calls.filter(
            |call: ToolCallView| say(decisions, call.id, DecisionView::Approve),
        ),
    decreases calls.len(),
{
    reveal(Seq::filter);
    if calls.len() > 0 {
        lemma_approved_exactly(calls.drop_last(), decisions);
        lemma_says(decisions, calls.last().id);
    }
    assert(approved_in(calls, decisions) =~= calls.filter(
        |call: ToolCallView| say(decisions, call.id, DecisionView::Approve),
    ));
}

/// A resumed reply executes exactly the calls of its checkpoint that were approved, in
/// order.
pub proof fn exactly_the_approved_calls_are_resumed(
    before: ResumeView,
    input: ResumeInputView,
    interrupted: bool,
    after: ResumeView,
    calls: Seq<ToolCallView>,
)
    requires
        cover(before.checkpoint.calls, before.decisions),
        resume_step(before, input, interrupted, after, ResumeActionView::Execute(calls)),
    ensures
        calls == before.checkpoint.calls.filter(
            |call: ToolCallView| say(before.decisions, call.id, DecisionView::Approve),
        ),
{
    lemma_approved_exactly(before.checkpoint.calls, before.decisions);
}

/// A recovery executes exactly the calls of its checkpoint that were approved, in order,
/// each under a key of its execution and its identifier.
pub proof fn exactly_the_approved_calls_are_recovered(
    agent: AgentView,
    before: RecoveryView,
    input: RecoveryInputView,
    interrupted: bool,
    after: RecoveryView,
    calls: Seq<ToolCallView>,
    keys: Seq<Seq<char>>,
)
    requires
        cover(before.checkpoint.calls, before.decisions),
        recovery_step(
            agent,
            before,
            input,
            interrupted,
            after,
            RecoveryActionView::Execute(calls, keys),
        ),
    ensures
        calls == before.checkpoint.calls.filter(
            |call: ToolCallView| say(before.decisions, call.id, DecisionView::Approve),
        ),
        keys.len() == calls.len(),
{
    lemma_approved_exactly(before.checkpoint.calls, before.decisions);
}

/// The result of a decided call is for that call: a denied one gets its reason and
/// nothing else, an approved one a result that was given for it.
pub proof fn decided_calls_get_their_results(
    calls: Seq<ToolCallView>,
    decisions: Seq<ConfirmationView>,
    given: Seq<ToolResultView>,
    results: Seq<ToolResultView>,
    at: int,
    reason: Seq<char>,
)
    requires
        cover(calls, decisions),
        merges(calls, decisions, given, results),
        0 <= at < calls.len(),
    ensures
        results.len() == calls.len(),
        results[at].id == calls[at].id,
        say(decisions, calls[at].id, DecisionView::Deny(reason)) ==> results[at].name
            == calls[at].name && results[at].state == ToolResultState::Denied && results[at].output
            == OutputView::Text(reason),
        say(decisions, calls[at].id, DecisionView::Approve) ==> given.contains(results[at]),
{
    assert(decides_result(results[at], calls[at], decisions, given));
    lemma_says(decisions, calls[at].id);
    lemma_result_for(given, calls[at].id);
}

proof fn lemma_result_for(given: Seq<ToolResultView>, id: Seq<char>)
    ensures
        result_for(given, id) matches Some(result) ==> result.id == id && given.contains(result),
        result_for(given, id) is None <==> forall|i: int|
            0 <= i < given.len() ==> (#[trigger] given[i]).id != id,
    decreases given.len(),
{
    if given.len() > 0 {
        let rest = given.drop_last();
        lemma_result_for(rest, id);
        assert(given[given.len() - 1] == given.last());
        if let Some(result) = result_for(rest, id) {
            let i = choose|i: int| 0 <= i < rest.len() && rest[i] == result;
            assert(given[i] == result);
        }
        if result_for(given, id) is None {
            assert forall|i: int| 0 <= i < given.len() implies (#[trigger] given[i]).id != id by {
                if i < rest.len() {
                    assert(rest[i] == given[i]);
                }
            }
        }
        if forall|i: int| 0 <= i < given.len() ==> (#[trigger] given[i]).id != id {
            assert forall|i: int| 0 <= i < rest.len() implies (#[trigger] rest[i]).id != id by {
                assert(rest[i] == given[i]);
            }
        }
    }
}

/// Whether one of some calls has the identifier and the name of a result.
#[verifier::opaque]
pub open spec fn is_called(calls: Seq<ToolCallView>, result: ToolResultView) -> bool {
    exists|k: int|
        0 <= k < calls.len() && (#[trigger] calls[k]).id == result.id && calls[k].name
            == result.name
}

/// Whether there is a result for a call.
#[verifier::opaque]
pub open spec fn is_answered(given: Seq<ToolResultView>, id: Seq<char>) -> bool {
    exists|i: int| 0 <= i < given.len() && (#[trigger] given[i]).id == id
}

/// Results that were supplied for an execution are taken only where each is final and
/// for an approved call of that name, no two are for the same call, and every approved
/// call has one.
pub proof fn supplied_results_cover_the_approved_calls(
    calls: Seq<ToolCallView>,
    decisions: Seq<ConfirmationView>,
    given: Seq<ToolResultView>,
)
    requires
        cover(calls, decisions),
        reconcile_fault(calls, decisions, given) is None,
    ensures
        forall|i: int|
            0 <= i < given.len() ==> (#[trigger] given[i]).state != ToolResultState::Running && say(
                decisions,
                given[i].id,
                DecisionView::Approve,
            ) && is_called(calls, given[i]),
        forall|i: int, j: int|
            0 <= i < j < given.len() ==> (#[trigger] given[i]).id != (#[trigger] given[j]).id,
        forall|k: int|
            0 <= k < calls.len() && say(
                decisions,
                (#[trigger] calls[k]).id,
                DecisionView::Approve,
            ) ==> is_answered(given, calls[k].id),
{
    lemma_given(calls, decisions, given);
    lemma_merged(calls, decisions, given);
    assert forall|k: int|
        0 <= k < calls.len() && say(
            decisions,
            (#[trigger] calls[k]).id,
            DecisionView::Approve,
        ) implies is_answered(given, calls[k].id) by {
        assert(super::decided::call_fault(calls[k], decisions, given) is None);
        lemma_approved_answered(decisions, given, calls[k]);
    }
}

proof fn lemma_approved_answered(
    decisions: Seq<ConfirmationView>,
    given: Seq<ToolResultView>,
    call: ToolCallView,
)
    requires
        forall|i: int, j: int|
            0 <= i < j < decisions.len() ==> (#[trigger] decisions[i]).tool_call_id != (
            #[trigger] decisions[j]).tool_call_id,
        super::decided::call_fault(call, decisions, given) is None,
        say(decisions, call.id, DecisionView::Approve),
    ensures
        is_answered(given, call.id),
{
    reveal(is_answered);
    lemma_says(decisions, call.id);
    lemma_result_for(given, call.id);
}

proof fn lemma_merged(
    calls: Seq<ToolCallView>,
    decisions: Seq<ConfirmationView>,
    given: Seq<ToolResultView>,
)
    requires
        super::decided::merge_fault(calls, decisions, given) is None,
    ensures
        forall|k: int|
            0 <= k < calls.len() ==> super::decided::call_fault(
                #[trigger] calls[k],
                decisions,
                given,
            ) is None,
    decreases calls.len(),
{
    if calls.len() > 0 {
        let rest = calls.drop_last();
        lemma_merged(rest, decisions, given);
        assert forall|k: int| 0 <= k < calls.len() implies super::decided::call_fault(
            #[trigger] calls[k],
            decisions,
            given,
        ) is None by {
            if k < rest.len() {
                assert(rest[k] == calls[k]);
            }
        }
    }
}

proof fn lemma_given(
    calls: Seq<ToolCallView>,
    decisions: Seq<ConfirmationView>,
    given: Seq<ToolResultView>,
)
    requires
        cover(calls, decisions),
        given_fault(calls, decisions, given) is None,
    ensures
        forall|i: int|
            0 <= i < given.len() ==> (#[trigger] given[i]).state != ToolResultState::Running && say(
                decisions,
                given[i].id,
                DecisionView::Approve,
            ) && is_called(calls, given[i]),
        forall|i: int, j: int|
            0 <= i < j < given.len() ==> (#[trigger] given[i]).id != (#[trigger] given[j]).id,
    decreases given.len(),
{
    if given.len() > 0 {
        let rest = given.drop_last();
        let last = given[given.len() - 1];
        lemma_given(calls, decisions, rest);
        lemma_says(decisions, last.id);
        lemma_result_for(rest, last.id);
        assert(say(decisions, last.id, DecisionView::Approve));
        assert(is_called(calls, last)) by {
            reveal(is_called);
        }
        assert forall|i: int| 0 <= i < given.len() implies (#[trigger] given[i]).state
            != ToolResultState::Running && say(decisions, given[i].id, DecisionView::Approve)
            && is_called(calls, given[i]) by {
            if i < rest.len() {
                assert(rest[i] == given[i]);
            }
        }
        assert forall|i: int, j: int| 0 <= i < j < given.len() implies (#[trigger] given[i]).id != (
        #[trigger] given[j]).id by {
            assert(rest[i] == given[i]);
            if j < rest.len() {
                assert(rest[j] == given[j]);
            }
        }
    }
}

/// A reply is resumed only under the identifier of its checkpoint, with decisions that
/// cover its calls, and by an agent with memory; and then always.
pub proof fn resumptions_are_for_their_reply(
    agent: AgentView,
    pending: Option<PendingView>,
    reply_id: Seq<char>,
    decisions: Seq<ConfirmationView>,
)
    ensures
        resumption_fault(agent, pending, reply_id, decisions) is None <==> (
        pending matches Some(checkpoint) && checkpoint.reply_id == reply_id && cover(
            checkpoint.calls,
            decisions,
        ) && agent.has_memory),
{
    if let Some(checkpoint) = pending {
        covering_decisions_are_accepted(checkpoint.calls, decisions);
    }
}

/// Calls are recovered only under the identifier of their reply and by an agent with
/// memory. Decisions are taken only where no execution is in doubt and they cover the
/// calls; a retry or supplied results only where one is.
pub proof fn recoveries_are_for_their_reply(
    agent: AgentView,
    pending: Option<PendingView>,
    execution: Option<ExecutionView>,
    reply_id: Seq<char>,
    kind: RecoveryKindView,
)
    ensures
        opening_fault(agent, pending, execution, reply_id, kind) is None <==> agent.has_memory
            && match kind {
            RecoveryKindView::Confirm(decisions) => execution is None && (
            pending matches Some(checkpoint) && checkpoint.reply_id == reply_id && cover(
                checkpoint.calls,
                decisions,
            )),
            _ => execution matches Some(checkpoint) && checkpoint.confirmation.reply_id
                == reply_id,
        },
{
    if let (RecoveryKindView::Confirm(decisions), Some(checkpoint)) = (kind, pending) {
        covering_decisions_are_accepted(checkpoint.calls, decisions);
    }
}

proof fn lemma_message_index(msgs: Seq<MsgView>, id: Seq<char>)
    ensures
        match message_index(msgs, id) {
            Some(index) => 0 <= index < msgs.len() && msgs[index].id == id && forall|i: int|
                0 <= i < index ==> (#[trigger] msgs[i]).id != id,
            None => forall|i: int| 0 <= i < msgs.len() ==> (#[trigger] msgs[i]).id != id,
        },
    decreases msgs.len(),
{
    if msgs.len() > 0 {
        let rest = msgs.drop_last();
        lemma_message_index(rest, id);
        assert forall|i: int| 0 <= i < rest.len() implies rest[i] == #[trigger] msgs[i] by {}
        if message_index(rest, id) is None {
            assert forall|i: int| 0 <= i < rest.len() implies (#[trigger] msgs[i]).id != id by {
                assert(rest[i].id != id);
            }
        }
    }
}

/// Finishing the calls of a checkpoint changes the state of the calls in its message to
/// finished, and nothing else in the conversation.
pub proof fn finishing_calls_changes_nothing_else(msgs: Seq<MsgView>, pending: PendingView, at: int)
    requires
        0 <= at < msgs.len(),
    ensures
        ({
            let finished = with_finished_calls(msgs, pending);
            &&& finished.len() == msgs.len()
            &&& msgs[at].id != pending.reply_id ==> finished[at] == msgs[at]
            &&& msgs[at].id == pending.reply_id && (forall|i: int|
                0 <= i < at ==> (#[trigger] msgs[i]).id != pending.reply_id) ==> finished[at] == (
            MsgView { content: finished[at].content, ..msgs[at] }) && in_state(
                calls_among(finished[at].content),
                calls_among(msgs[at].content),
                ToolCallState::Finished,
            ) && finished[at].content.len() == msgs[at].content.len() && forall|i: int|
                0 <= i < msgs[at].content.len() && !(#[trigger] msgs[at].content[i] is ToolCall)
                    ==> finished[at].content[i] == msgs[at].content[i]
        }),
{
    lemma_message_index(msgs, pending.reply_id);
    lemma_calls_in_state(msgs[at].content, ToolCallState::Finished);
}

/// A resumed reply goes on only with a conversation in which the calls are finished and
/// answered: the message of their results stands at its end, one result for each call.
pub proof fn resumed_replies_go_on_with_the_results(
    before: ResumeView,
    history: Seq<MsgView>,
    given: Seq<ToolResultView>,
    replacing: ResumeView,
    replaced: ResumeActionView,
    recording: ResumeView,
    remembered: ResumeActionView,
)
    requires
        before.phase == ResumePhaseView::Executing(history),
        resume_step(
            before,
            ResumeInputView::Executed(Ok(given)),
            false,
            replacing,
            replaced,
        ),
        replaced is Replace,
        resume_step(
            replacing,
            ResumeInputView::Remembered(Ok(())),
            false,
            recording,
            remembered,
        ),
    ensures
        replaced == ResumeActionView::Replace(with_finished_calls(history, before.checkpoint)),
        recording.phase matches ResumePhaseView::Recording(kept, msg, results, stopped) && {
            &&& kept == with_finished_calls(history, before.checkpoint)
            &&& !stopped
            &&& results.len() == before.checkpoint.calls.len()
            &&& holds_results(msg, results)
            &&& remembered == ResumeActionView::Remember(msg)
        },
{
    let results = recording.phase->Recording_2;
    assert forall|i: int| 0 <= i < results.len() implies result_blocks(results)[i]
        == BlockView::ToolResult(#[trigger] results[i]) by {}
}

} // verus!
