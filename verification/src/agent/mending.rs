//! How replies are taken up again after decisions, step by step.
use vstd::prelude::*;

use super::conduct::{cover, covering_decisions_are_accepted, holds_results};
use super::confirmation::{DecisionView, ExecutionView, PendingView};
use super::decided::reconcile_fault;
use super::error::AgentErrorView;
use super::event::AgentEventView;
use super::hook::HookEventView;
use super::keeping::{holds_the_calls, lemma_first, lemma_message};
use super::react::{with_finished_calls, AgentView};
use super::recovery::{
    opens, recovery_events, recovery_step, RecoveryActionView, RecoveryInputView, RecoveryKindView,
    RecoveryPhaseView, RecoveryView,
};
use super::resume::{resume_step, ResumeActionView, ResumeInputView, ResumePhaseView, ResumeView};
use crate::message::msg::MsgView;
use crate::message::tool_call::ToolCallView;
use crate::message::tool_result::ToolResultView;

verus! {

/// Whether hooks are told of each call, in order, before it is executed.
pub open spec fn announce(
    told: Seq<HookEventView>,
    step: nat,
    calls: Seq<ToolCallView>,
) -> bool {
    &&& told.len() == calls.len()
    &&& forall|i: int|
        0 <= i < calls.len() ==> #[trigger] told[i] == HookEventView::BeforeToolCall(step, calls[i])
}

/// Whether hooks are told of each result, in order.
pub open spec fn report(
    told: Seq<HookEventView>,
    step: nat,
    results: Seq<ToolResultView>,
) -> bool {
    &&& told.len() == results.len()
    &&& forall|i: int|
        0 <= i < results.len() ==> #[trigger] told[i] == HookEventView::AfterToolCall(
            step,
            results[i],
        )
}

/// A recovery is begun in a conversation if and only if that holds the reply with
/// the calls that wait, a step is left, the decisions cover the calls, and what was
/// supplied can be taken for their results.
pub proof fn recoveries_begin_where_the_calls_wait(
    agent: AgentView,
    before: RecoveryView,
    supplied: Option<Seq<ToolResultView>>,
    history: Seq<MsgView>,
    interrupted: bool,
    after: RecoveryView,
    action: RecoveryActionView,
)
    requires
        before.phase == RecoveryPhaseView::Loading(supplied),
        recovery_step(
            agent,
            before,
            RecoveryInputView::Loaded(Ok(history)),
            interrupted,
            after,
            action,
        ),
    ensures
        action is Start || action is Refuse,
        action is Start <==> {
            &&& holds_the_calls(history, before.checkpoint)
            &&& before.checkpoint.step < agent.max_steps
            &&& cover(before.checkpoint.calls, before.decisions)
            &&& supplied matches Some(given) ==> reconcile_fault(
                before.checkpoint.calls,
                before.decisions,
                given,
            ) is None
        },
        action is Refuse ==> after.phase is Over,
        action is Start && supplied is None ==> after.phase == RecoveryPhaseView::Ready(None),
        action is Start && supplied is Some ==> after.phase is Ready && after.phase->Ready_0 is Some
            && after.phase->Ready_0->Some_0.len() == before.checkpoint.calls.len(),
        after.checkpoint == before.checkpoint,
        after.decisions == before.decisions,
        after.execution == before.execution,
{
    lemma_message(history, before.checkpoint);
    covering_decisions_are_accepted(before.checkpoint.calls, before.decisions);
}

/// What fails under way is what a recovery fails with, and is told as such with the
/// step.
pub proof fn recoveries_fail_with_what_failed(
    agent: AgentView,
    before: RecoveryView,
    input: RecoveryInputView,
    interrupted: bool,
    after: RecoveryView,
    action: RecoveryActionView,
)
    requires
        recovery_step(agent, before, input, interrupted, after, action),
        !(before.phase is Loading),
    ensures
        input matches RecoveryInputView::Loaded(loaded) ==> loaded is Err ==> action
            == RecoveryActionView::Fail(AgentErrorView::Memory(loaded->Err_0)),
        input matches RecoveryInputView::Notified(notified) ==> notified is Err ==> action
            == RecoveryActionView::Fail(AgentErrorView::Hook(notified->Err_0)),
        input matches RecoveryInputView::Saved(saved) ==> saved is Err ==> action
            == RecoveryActionView::Fail(saved->Err_0),
        input matches RecoveryInputView::Executed(executed) ==> executed is Err ==> action
            == RecoveryActionView::Fail(AgentErrorView::Tool(executed->Err_0)),
        input matches RecoveryInputView::Remembered(remembered) ==> remembered is Err ==> action
            == RecoveryActionView::Fail(AgentErrorView::Memory(remembered->Err_0)),
        (before.phase is Ready || before.phase is Announcing) && interrupted && !(
        input matches RecoveryInputView::Notified(Err(_))) ==> action == RecoveryActionView::Fail(
            AgentErrorView::Interrupted,
        ),
        action matches RecoveryActionView::Fail(error) ==> after.phase is Over && recovery_events(
            before,
            input,
            action,
        ) == seq![AgentEventView::Error { step: Some(before.checkpoint.step), error }],
{
}

/// A recovery announces the approved calls, marks their execution, executes them,
/// stores their results in the conversation, clears the mark, reports every result
/// and goes on, one after the other.
pub proof fn recoveries_go_step_by_step(
    agent: AgentView,
    before: RecoveryView,
    input: RecoveryInputView,
    after: RecoveryView,
    action: RecoveryActionView,
)
    requires
        recovery_step(agent, before, input, false, after, action),
        !(action is Fail),
        !(action is Refuse),
    ensures
        before.phase == RecoveryPhaseView::Ready(None) ==> action is Notify && announce(
            action->Notify_0,
            before.checkpoint.step,
            before.approved(),
        ) && after.phase is Announcing,
        before.phase matches RecoveryPhaseView::Ready(resolved) ==> resolved is Some ==> action
            is Load && after.phase == RecoveryPhaseView::Reloading(resolved->Some_0),
        before.phase is Announcing && before.execution is Some ==> action
            == RecoveryActionView::Mark(before.execution->Some_0) && after.phase is Marking,
        before.phase is Marking ==> action is Execute && after.phase is Executing,
        before.phase is Executing ==> action is Load && after.phase is Reloading
            && after.phase->Reloading_0.len() == before.checkpoint.calls.len(),
        before.phase matches RecoveryPhaseView::Replacing(history, results) ==> action is Clear
            && after.phase == RecoveryPhaseView::Saving(history, results),
        before.phase matches RecoveryPhaseView::Saving(history, results) ==> {
            &&& results.len() == 0 ==> action == RecoveryActionView::Continue(
                history,
                before.checkpoint.step,
            )
            &&& results.len() > 0 ==> action is Notify && report(
                action->Notify_0,
                before.checkpoint.step,
                seq![results[0]],
            ) && after.phase == RecoveryPhaseView::Reporting(history, results, 0)
        },
        before.phase matches RecoveryPhaseView::Reporting(history, results, index) ==> {
            &&& index + 1 >= results.len() ==> action == RecoveryActionView::Continue(
                history,
                before.checkpoint.step,
            )
            &&& index + 1 < results.len() ==> action is Notify && report(
                action->Notify_0,
                before.checkpoint.step,
                seq![results[index as int + 1]],
            ) && after.phase == RecoveryPhaseView::Reporting(history, results, index + 1)
            &&& recovery_events(before, input, action) == seq![
                AgentEventView::ToolFinished {
                    step: before.checkpoint.step,
                    result: results[index as int],
                },
            ]
        },
{
}

/// The conversation that a recovery stores is the one there was, with its calls
/// finished, and one message with all the results behind it.
pub proof fn recoveries_store_their_results(
    agent: AgentView,
    before: RecoveryView,
    results: Seq<ToolResultView>,
    history: Seq<MsgView>,
    interrupted: bool,
    after: RecoveryView,
    action: RecoveryActionView,
)
    requires
        before.phase == RecoveryPhaseView::Reloading(results),
        recovery_step(
            agent,
            before,
            RecoveryInputView::Loaded(Ok(history)),
            interrupted,
            after,
            action,
        ),
    ensures
        action is Replace <==> holds_the_calls(history, before.checkpoint),
        action matches RecoveryActionView::Replace(stored) ==> {
            &&& stored.len() == history.len() + 1
            &&& stored.drop_last() == with_finished_calls(history, before.checkpoint)
            &&& holds_results(stored.last(), results)
            &&& after.phase == RecoveryPhaseView::Replacing(stored, results)
        },
{
    lemma_message(history, before.checkpoint);
    if let RecoveryActionView::Replace(stored) = action {
        let msg = choose|msg: MsgView| #[trigger]
            super::react::observes(msg, results) && stored == with_finished_calls(
                history,
                before.checkpoint,
            ).push(msg);
        assert(stored.last() == msg);
        assert(stored.drop_last() =~= with_finished_calls(history, before.checkpoint));
        assert(holds_results(msg, results));
        lemma_first(history, before.checkpoint.reply_id);
        assert(with_finished_calls(history, before.checkpoint).len() == history.len());
    }
}

/// A confirmation is marked as an execution if and only if some call is approved;
/// the mark holds its checkpoint and all its decisions. What is resumed of an
/// uncertain execution is that execution itself.
pub proof fn approved_calls_are_marked_as_executions(
    pending: Option<PendingView>,
    execution: Option<ExecutionView>,
    kind: RecoveryKindView,
    recovery: RecoveryView,
)
    requires
        opens(pending, execution, kind, recovery),
    ensures
        kind matches RecoveryKindView::Confirm(decisions) ==> {
            &&& pending == Some(recovery.checkpoint)
            &&& recovery.decisions == decisions
            &&& recovery.execution is Some <==> exists|i: int|
                0 <= i < decisions.len() && (#[trigger] decisions[i]).decision
                    == DecisionView::Approve
            &&& recovery.execution matches Some(mark) ==> mark.confirmation == recovery.checkpoint
                && mark.decisions == decisions
            &&& recovery.phase == RecoveryPhaseView::Loading(None)
        },
        !(kind is Confirm) ==> {
            &&& execution is Some
            &&& recovery.execution == execution
            &&& recovery.checkpoint == execution->Some_0.confirmation
            &&& recovery.decisions == execution->Some_0.decisions
        },
        kind matches RecoveryKindView::Resolve(results) ==> recovery.phase
            == RecoveryPhaseView::Loading(Some(results)),
{
}

/// A resumption announces the approved calls, executes them, stores the conversation
/// with its calls finished and the results behind it, reports every result and goes
/// on; one that was interrupted is abandoned once the calls are closed.
pub proof fn resumptions_go_step_by_step(
    before: ResumeView,
    input: ResumeInputView,
    interrupted: bool,
    after: ResumeView,
    action: ResumeActionView,
)
    requires
        resume_step(before, input, interrupted, after, action),
    ensures
        before.phase is Loading && !(action is Fail) ==> action is Notify && announce(
            action->Notify_0,
            before.checkpoint.step,
            before.approved(),
        ) && after.phase is Announcing,
        before.phase is Loading ==> (action is Notify <==> input is Loaded && input->Loaded_0 is Ok
            && holds_the_calls(input->Loaded_0->Ok_0, before.checkpoint)),
        before.phase is Announcing && !(action is Fail) ==> action is Execute && !interrupted
            && after.phase == ResumePhaseView::Executing(before.phase->Announcing_0),
        before.phase is Executing && !(action is Fail) ==> action is Replace,
        before.phase is Executing && input is Interrupted && !(action is Fail) ==> after.phase
            is Replacing && after.phase->Replacing_2,
        before.phase matches ResumePhaseView::Recording(history, msg, results, stopped) ==> !(
        action is Fail) ==> action is Notify && report(
            action->Notify_0,
            before.checkpoint.step,
            results,
        ) && after.phase == ResumePhaseView::Reporting(history, msg, stopped),
        before.phase matches ResumePhaseView::Reporting(history, msg, stopped) ==> !(
        action is Fail) ==> {
            &&& stopped ==> action is Abandon
            &&& !stopped ==> action == ResumeActionView::Continue(
                history.push(msg),
                before.checkpoint.step,
            )
        },
        input matches ResumeInputView::Loaded(Err(error)) ==> action == ResumeActionView::Fail(
            AgentErrorView::Memory(error),
        ),
        input matches ResumeInputView::Notified(Err(error)) ==> action == ResumeActionView::Fail(
            AgentErrorView::Hook(error),
        ),
        input matches ResumeInputView::Executed(Err(error)) ==> action == ResumeActionView::Fail(
            AgentErrorView::Tool(error),
        ),
        input matches ResumeInputView::Remembered(Err(error)) ==> action == ResumeActionView::Fail(
            AgentErrorView::Memory(error),
        ),
        action is Fail || action is Abandon || action is Continue ==> after.phase is Over,
{
    if let ResumeInputView::Loaded(Ok(history)) = input {
        lemma_message(history, before.checkpoint);
    }
}

} // verus!
