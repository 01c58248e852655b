//! Confirmation, retry and resolution of tool executions with durable checkpoints,
//! one decision at a time.
use vstd::prelude::*;

use super::confirmation::{
    check_confirmations, confirmation_fault, decision_for, has_call, key_for, ConfirmationView,
    DecisionView, ExecutionView, PendingToolCalls, PendingToolExecution, PendingView,
    ToolConfirmation, ToolConfirmationDecision,
};
use super::decided::{
    approved_calls, approved_in, lemma_approved, merges, reconcile_fault, reconcile_results,
};
use super::error::{AgentError, AgentErrorView, AgentResult};
use super::event::{AgentEvent, AgentEventView};
use super::hook::{AgentHookError, AgentHookEvent, HookErrorView, HookEventView};
use super::react::{
    before_calls, finish_checkpoint_calls, message_fault, notify_before_calls, observation,
    observes, validate_checkpoint_message, with_finished_calls, AgentView, ReActAgent,
};
use super::stream::{started_events, tool_started_events};
use crate::context::copy_messages;
use crate::memory::{MemoryError, MemoryErrorView};
use crate::message::msg::{Msg, MsgView};
use crate::message::tool_call::{ToolCallBlock, ToolCallView};
use crate::message::tool_result::{ToolResultBlock, ToolResultView};
use crate::message::{generate_id, is_generated_id};
use crate::text::same_text;
use crate::tool::{ToolError, ToolErrorView};
use crate::view::{lemma_views_push, view_option, views};

verus! {

/// How tool calls are recovered.
#[derive(Debug)]
pub enum RecoveryKind {
    /// Pending calls were confirmed or denied.
    Confirm(Vec<ToolConfirmation>),
    /// An execution in doubt is repeated under the keys it had.
    Retry,
    /// An execution in doubt had these results.
    Resolve(Vec<ToolResultBlock>),
}

/// What a kind of recovery holds.
#[verifier::ext_equal]
pub enum RecoveryKindView {
    Confirm(Seq<ConfirmationView>),
    Retry,
    Resolve(Seq<ToolResultView>),
}

impl View for RecoveryKind {
    type V = RecoveryKindView;

    open spec fn view(&self) -> RecoveryKindView {
        match self {
            RecoveryKind::Confirm(decisions) => RecoveryKindView::Confirm(views(decisions@)),
            RecoveryKind::Retry => RecoveryKindView::Retry,
            RecoveryKind::Resolve(results) => RecoveryKindView::Resolve(views(results@)),
        }
    }
}

/// What a recovery waits for.
#[derive(Debug)]
pub enum RecoveryPhase {
    /// The stored conversation, to be checked against the checkpoint and perhaps
    /// supplied results.
    Loading(Option<Vec<ToolResultBlock>>),
    /// To be started, perhaps with resolved results.
    Ready(Option<Vec<ToolResultBlock>>),
    /// The hooks, before approved tools are executed.
    Announcing,
    /// The store, for the execution checkpoint.
    Marking,
    /// The approved tools.
    Executing,
    /// The stored conversation, to be changed with results.
    Reloading(Vec<ToolResultBlock>),
    /// The memory, for the changed conversation.
    Replacing(Vec<Msg>, Vec<ToolResultBlock>),
    /// The store, for the state without checkpoints.
    Saving(Vec<Msg>, Vec<ToolResultBlock>),
    /// The hooks, after the tool whose result is at an index.
    Reporting(Vec<Msg>, Vec<ToolResultBlock>, usize),
    /// Nothing: it is over.
    Over,
}

/// What a phase holds.
#[verifier::ext_equal]
pub enum RecoveryPhaseView {
    Loading(Option<Seq<ToolResultView>>),
    Ready(Option<Seq<ToolResultView>>),
    Announcing,
    Marking,
    Executing,
    Reloading(Seq<ToolResultView>),
    Replacing(Seq<MsgView>, Seq<ToolResultView>),
    Saving(Seq<MsgView>, Seq<ToolResultView>),
    Reporting(Seq<MsgView>, Seq<ToolResultView>, nat),
    Over,
}

/// Optional results by their views.
pub open spec fn optional_results(results: Option<Vec<ToolResultBlock>>) -> Option<
    Seq<ToolResultView>,
> {
    match results {
        Some(results) => Some(views(results@)),
        None => None,
    }
}

impl View for RecoveryPhase {
    type V = RecoveryPhaseView;

    open spec fn view(&self) -> RecoveryPhaseView {
        match self {
            RecoveryPhase::Loading(results) => RecoveryPhaseView::Loading(
                optional_results(*results),
            ),
            RecoveryPhase::Ready(results) => RecoveryPhaseView::Ready(optional_results(*results)),
            RecoveryPhase::Announcing => RecoveryPhaseView::Announcing,
            RecoveryPhase::Marking => RecoveryPhaseView::Marking,
            RecoveryPhase::Executing => RecoveryPhaseView::Executing,
            RecoveryPhase::Reloading(results) => RecoveryPhaseView::Reloading(views(results@)),
            RecoveryPhase::Replacing(history, results) => RecoveryPhaseView::Replacing(
                views(history@),
                views(results@),
            ),
            RecoveryPhase::Saving(history, results) => RecoveryPhaseView::Saving(
                views(history@),
                views(results@),
            ),
            RecoveryPhase::Reporting(history, results, index) => RecoveryPhaseView::Reporting(
                views(history@),
                views(results@),
                *index as nat,
            ),
            RecoveryPhase::Over => RecoveryPhaseView::Over,
        }
    }
}

/// A recovery under way.
#[derive(Debug)]
pub struct Recovery {
    pub(crate) checkpoint: PendingToolCalls,
    pub(crate) execution: Option<PendingToolExecution>,
    pub(crate) decisions: Vec<ToolConfirmation>,
    pub(crate) phase: RecoveryPhase,
}

/// What a recovery under way holds.
#[verifier::ext_equal]
pub struct RecoveryView {
    pub checkpoint: PendingView,
    pub execution: Option<ExecutionView>,
    pub decisions: Seq<ConfirmationView>,
    pub phase: RecoveryPhaseView,
}

impl View for Recovery {
    type V = RecoveryView;

    open(crate) spec fn view(&self) -> RecoveryView {
        RecoveryView {
            checkpoint: self.checkpoint@,
            execution: view_option(self.execution),
            decisions: views(self.decisions@),
            phase: self.phase@,
        }
    }
}

impl RecoveryView {
    /// The same, waiting for something else.
    pub open spec fn waiting(self, phase: RecoveryPhaseView) -> RecoveryView {
        RecoveryView { phase, ..self }
    }

    /// The approved calls.
    pub open spec fn approved(self) -> Seq<ToolCallView> {
        approved_in(self.checkpoint.calls, self.decisions)
    }

    /// Whether approved calls have an execution checkpoint, which is for this
    /// checkpoint and these decisions.
    pub open spec fn well_formed(self) -> bool {
        &&& self.approved().len() > 0 ==> self.execution is Some
        &&& match self.execution {
            Some(execution) => execution.confirmation == self.checkpoint && execution.decisions
                == self.decisions,
            None => true,
        }
        &&& self.phase is Marking ==> self.execution is Some
        &&& match self.phase {
            RecoveryPhaseView::Reporting(_, results, index) => index < results.len(),
            _ => true,
        }
    }
}

/// What came of an action.
#[derive(Debug)]
pub enum RecoveryInput {
    /// The recovery may start.
    Begin,
    /// The conversation was read from memory.
    Loaded(Result<Vec<Msg>, MemoryError>),
    /// The hooks were notified in order, up to the first that failed.
    Notified(Result<(), AgentHookError>),
    /// The state was saved, where there is a store.
    Saved(AgentResult<()>),
    /// The tools were executed.
    Executed(Result<Vec<ToolResultBlock>, ToolError>),
    /// The tools were interrupted.
    Interrupted,
    /// The memory was changed.
    Remembered(Result<(), MemoryError>),
}

/// What an input holds.
#[verifier::ext_equal]
pub enum RecoveryInputView {
    Begin,
    Loaded(Result<Seq<MsgView>, MemoryErrorView>),
    Notified(Result<(), HookErrorView>),
    Saved(Result<(), AgentErrorView>),
    Executed(Result<Seq<ToolResultView>, ToolErrorView>),
    Interrupted,
    Remembered(Result<(), MemoryErrorView>),
}

impl View for RecoveryInput {
    type V = RecoveryInputView;

    open spec fn view(&self) -> RecoveryInputView {
        match self {
            RecoveryInput::Begin => RecoveryInputView::Begin,
            RecoveryInput::Loaded(result) => RecoveryInputView::Loaded(
                match result {
                    Ok(history) => Ok(views(history@)),
                    Err(error) => Err(error@),
                },
            ),
            RecoveryInput::Notified(result) => RecoveryInputView::Notified(
                match result {
                    Ok(()) => Ok(()),
                    Err(error) => Err(error@),
                },
            ),
            RecoveryInput::Saved(result) => RecoveryInputView::Saved(
                match result {
                    Ok(()) => Ok(()),
                    Err(error) => Err(error@),
                },
            ),
            RecoveryInput::Executed(result) => RecoveryInputView::Executed(
                match result {
                    Ok(results) => Ok(views(results@)),
                    Err(error) => Err(error@),
                },
            ),
            RecoveryInput::Interrupted => RecoveryInputView::Interrupted,
            RecoveryInput::Remembered(result) => RecoveryInputView::Remembered(
                match result {
                    Ok(()) => Ok(()),
                    Err(error) => Err(error@),
                },
            ),
        }
    }
}

/// What a recovery asks its driver to do.
#[derive(Debug)]
pub enum RecoveryAction {
    /// Read the conversation from memory.
    Load,
    /// Start the recovery: it is valid.
    Start,
    /// Notify the hooks of events, in order.
    Notify(Vec<AgentHookEvent>),
    /// Put an execution checkpoint in the place of the pending confirmation, and
    /// save the state.
    Mark(PendingToolExecution),
    /// Execute calls under deduplication keys, unless there are some and the
    /// operation is interrupted first.
    Execute(Vec<ToolCallBlock>, Vec<String>),
    /// Replace the conversation in memory.
    Replace(Vec<Msg>),
    /// Drop both checkpoints and save the state.
    Clear,
    /// Continue the reply after a number of steps.
    Continue(Vec<Msg>, usize),
    /// Refuse the recovery before it starts.
    Refuse(AgentError),
    /// Fail.
    Fail(AgentError),
}

/// What an action holds.
#[verifier::ext_equal]
pub enum RecoveryActionView {
    Load,
    Start,
    Notify(Seq<HookEventView>),
    Mark(ExecutionView),
    Execute(Seq<ToolCallView>, Seq<Seq<char>>),
    Replace(Seq<MsgView>),
    Clear,
    Continue(Seq<MsgView>, nat),
    Refuse(AgentErrorView),
    Fail(AgentErrorView),
}

impl View for RecoveryAction {
    type V = RecoveryActionView;

    open spec fn view(&self) -> RecoveryActionView {
        match self {
            RecoveryAction::Load => RecoveryActionView::Load,
            RecoveryAction::Start => RecoveryActionView::Start,
            RecoveryAction::Notify(events) => RecoveryActionView::Notify(views(events@)),
            RecoveryAction::Mark(execution) => RecoveryActionView::Mark(execution@),
            RecoveryAction::Execute(calls, keys) => RecoveryActionView::Execute(
                views(calls@),
                views(keys@),
            ),
            RecoveryAction::Replace(history) => RecoveryActionView::Replace(views(history@)),
            RecoveryAction::Clear => RecoveryActionView::Clear,
            RecoveryAction::Continue(history, step) => RecoveryActionView::Continue(
                views(history@),
                *step as nat,
            ),
            RecoveryAction::Refuse(error) => RecoveryActionView::Refuse(error@),
            RecoveryAction::Fail(error) => RecoveryActionView::Fail(error@),
        }
    }
}

/// Whether an input answers what a recovery waits for. Only approved tools can be
/// interrupted.
pub open spec fn recovery_answers(recovery: RecoveryView, input: RecoveryInputView) -> bool {
    match recovery.phase {
        RecoveryPhaseView::Loading(_) => input is Loaded,
        RecoveryPhaseView::Ready(_) => input is Begin,
        RecoveryPhaseView::Announcing => input is Notified,
        RecoveryPhaseView::Marking => input is Saved,
        RecoveryPhaseView::Executing => input is Executed || (input is Interrupted
            && recovery.approved().len() > 0),
        RecoveryPhaseView::Reloading(_) => input is Loaded,
        RecoveryPhaseView::Replacing(_, _) => input is Remembered,
        RecoveryPhaseView::Saving(_, _) => input is Saved,
        RecoveryPhaseView::Reporting(_, _, _) => input is Notified,
        RecoveryPhaseView::Over => false,
    }
}

/// Whether an action asks for what a phase waits for.
pub open spec fn recovery_asks(phase: RecoveryPhaseView, action: RecoveryActionView) -> bool {
    match phase {
        RecoveryPhaseView::Loading(_) => action is Load,
        RecoveryPhaseView::Ready(_) => action is Start,
        RecoveryPhaseView::Announcing => action is Notify,
        RecoveryPhaseView::Marking => action is Mark,
        RecoveryPhaseView::Executing => action is Execute,
        RecoveryPhaseView::Reloading(_) => action is Load,
        RecoveryPhaseView::Replacing(_, _) => action is Replace,
        RecoveryPhaseView::Saving(_, _) => action is Clear,
        RecoveryPhaseView::Reporting(_, _, _) => action is Notify,
        RecoveryPhaseView::Over => action is Continue || action is Refuse || action is Fail,
    }
}

/// Whether some decision is an approval.
pub open spec fn approves(decisions: Seq<ConfirmationView>) -> bool {
    exists|i: int| 0 <= i < decisions.len() && (#[trigger] decisions[i]).decision
        == DecisionView::Approve
}

/// Why calls cannot be recovered, before their history is read.
pub open spec fn opening_fault(
    agent: AgentView,
    pending: Option<PendingView>,
    execution: Option<ExecutionView>,
    reply_id: Seq<char>,
    kind: RecoveryKindView,
) -> Option<AgentErrorView> {
    let checked = match kind {
        RecoveryKindView::Confirm(decisions) => match (execution, pending) {
            (Some(checkpoint), _) => Some(AgentErrorView::ToolExecutionInDoubt(checkpoint)),
            (None, None) => Some(AgentErrorView::NoPendingToolConfirmation),
            (None, Some(checkpoint)) => if checkpoint.reply_id != reply_id {
                Some(
                    AgentErrorView::InvalidToolConfirmation(
                        "reply id does not match pending confirmation"@,
                    ),
                )
            } else {
                match confirmation_fault(checkpoint.calls, decisions) {
                    Some(fault) => Some(AgentErrorView::InvalidToolConfirmation(fault)),
                    None => None,
                }
            },
        },
        _ => match execution {
            None => Some(AgentErrorView::NoPendingToolExecution),
            Some(checkpoint) => if checkpoint.confirmation.reply_id != reply_id {
                Some(
                    AgentErrorView::InvalidToolExecutionResolution(
                        "reply id does not match uncertain execution"@,
                    ),
                )
            } else {
                None
            },
        },
    };
    match checked {
        Some(fault) => Some(fault),
        None => if !agent.has_memory {
            Some(AgentErrorView::MemoryNotConfigured)
        } else {
            None
        },
    }
}

/// Whether a recovery opens as asked.
pub open spec fn opens(
    pending: Option<PendingView>,
    execution: Option<ExecutionView>,
    kind: RecoveryKindView,
    recovery: RecoveryView,
) -> bool {
    match kind {
        RecoveryKindView::Confirm(decisions) => {
            &&& pending == Some(recovery.checkpoint)
            &&& recovery.decisions == decisions
            &&& recovery.phase == RecoveryPhaseView::Loading(None)
            &&& match recovery.execution {
                None => !approves(decisions),
                Some(checkpoint) => approves(decisions) && checkpoint == (ExecutionView {
                    execution_id: checkpoint.execution_id,
                    confirmation: recovery.checkpoint,
                    decisions,
                }) && is_generated_id(checkpoint.execution_id),
            }
        },
        _ => {
            &&& execution is Some
            &&& recovery == (RecoveryView {
                checkpoint: execution->Some_0.confirmation,
                execution,
                decisions: execution->Some_0.decisions,
                phase: RecoveryPhaseView::Loading(
                    match kind {
                        RecoveryKindView::Resolve(results) => Some(results),
                        _ => None,
                    },
                ),
            })
        },
    }
}

/// Why a recovery is refused once its history is read, if it is.
pub open spec fn loading_fault(
    agent: AgentView,
    recovery: RecoveryView,
    supplied: Option<Seq<ToolResultView>>,
    history: Seq<MsgView>,
) -> Option<AgentErrorView> {
    match message_fault(history, recovery.checkpoint) {
        Some(fault) => Some(fault),
        None => if recovery.checkpoint.step >= agent.max_steps {
            Some(AgentErrorView::MaxStepsExceeded { max_steps: agent.max_steps as usize })
        } else {
            match confirmation_fault(recovery.checkpoint.calls, recovery.decisions) {
                Some(fault) => Some(AgentErrorView::InvalidToolConfirmation(fault)),
                None => match supplied {
                    Some(given) => reconcile_fault(
                        recovery.checkpoint.calls,
                        recovery.decisions,
                        given,
                    ),
                    None => None,
                },
            }
        },
    }
}

/// Whether a recovery is refused.
pub open spec fn refuses(
    before: RecoveryView,
    error: AgentErrorView,
    after: RecoveryView,
    action: RecoveryActionView,
) -> bool {
    &&& after == before.waiting(RecoveryPhaseView::Over)
    &&& action == RecoveryActionView::Refuse(error)
}

/// Whether a recovery fails.
pub open spec fn recovery_fails(
    before: RecoveryView,
    error: AgentErrorView,
    after: RecoveryView,
    action: RecoveryActionView,
) -> bool {
    &&& after == before.waiting(RecoveryPhaseView::Over)
    &&& action == RecoveryActionView::Fail(error)
}

/// Whether approved calls are about to be executed, each under its key.
pub open spec fn executes(before: RecoveryView, after: RecoveryView, action: RecoveryActionView) -> bool {
    &&& after == before.waiting(RecoveryPhaseView::Executing)
    &&& action matches RecoveryActionView::Execute(calls, keys) && calls == before.approved()
        && keys.len() == calls.len() && forall|i: int|
        0 <= i < calls.len() ==> key_for(before.execution->Some_0, (#[trigger] calls[i]).id)
            == Some(keys[i])
}

/// Whether the tool at an index is reported, or the reply continues after the last.
pub open spec fn reports(
    before: RecoveryView,
    history: Seq<MsgView>,
    results: Seq<ToolResultView>,
    index: nat,
    after: RecoveryView,
    action: RecoveryActionView,
) -> bool {
    if index < results.len() {
        &&& after == before.waiting(RecoveryPhaseView::Reporting(history, results, index))
        &&& action == RecoveryActionView::Notify(
            seq![HookEventView::AfterToolCall(before.checkpoint.step, results[index as int])],
        )
    } else {
        &&& after == before.waiting(RecoveryPhaseView::Over)
        &&& action == RecoveryActionView::Continue(history, before.checkpoint.step)
    }
}

/// Whether a recovery goes from one state to another with an action, for an input
/// that came while the operation was interrupted or not.
pub open spec fn recovery_step(
    agent: AgentView,
    before: RecoveryView,
    input: RecoveryInputView,
    interrupted: bool,
    after: RecoveryView,
    action: RecoveryActionView,
) -> bool {
    match (before.phase, input) {
        (RecoveryPhaseView::Loading(supplied), RecoveryInputView::Loaded(result)) => match result {
            Err(error) => refuses(before, AgentErrorView::Memory(error), after, action),
            Ok(history) => match loading_fault(agent, before, supplied, history) {
                Some(fault) => refuses(before, fault, after, action),
                None => action == RecoveryActionView::Start && match supplied {
                    None => after == before.waiting(RecoveryPhaseView::Ready(None)),
                    Some(given) => (after.phase matches RecoveryPhaseView::Ready(Some(results))
                        && merges(before.checkpoint.calls, before.decisions, given, results))
                        && after == before.waiting(after.phase),
                },
            },
        },
        (RecoveryPhaseView::Ready(resolved), RecoveryInputView::Begin) => if interrupted {
            recovery_fails(before, AgentErrorView::Interrupted, after, action)
        } else {
            match resolved {
                Some(results) => after == before.waiting(RecoveryPhaseView::Reloading(results))
                    && action == RecoveryActionView::Load,
                None => after == before.waiting(RecoveryPhaseView::Announcing) && action
                    == RecoveryActionView::Notify(
                    before_calls(before.checkpoint.step, before.approved()),
                ),
            }
        },
        (RecoveryPhaseView::Announcing, RecoveryInputView::Notified(result)) => match result {
            Err(error) => recovery_fails(before, AgentErrorView::Hook(error), after, action),
            Ok(()) => if interrupted {
                recovery_fails(before, AgentErrorView::Interrupted, after, action)
            } else {
                match before.execution {
                    Some(execution) => after == before.waiting(RecoveryPhaseView::Marking)
                        && action == RecoveryActionView::Mark(execution),
                    None => executes(before, after, action),
                }
            },
        },
        (RecoveryPhaseView::Marking, RecoveryInputView::Saved(result)) => match result {
            Err(error) => recovery_fails(before, error, after, action),
            Ok(()) => executes(before, after, action),
        },
        (RecoveryPhaseView::Executing, RecoveryInputView::Interrupted) => recovery_fails(
            before,
            AgentErrorView::ToolExecutionInDoubt(before.execution->Some_0),
            after,
            action,
        ),
        (RecoveryPhaseView::Executing, RecoveryInputView::Executed(result)) => match result {
            Err(error) => recovery_fails(before, AgentErrorView::Tool(error), after, action),
            Ok(given) => match reconcile_fault(before.checkpoint.calls, before.decisions, given) {
                Some(fault) => recovery_fails(before, fault, after, action),
                None => (after.phase matches RecoveryPhaseView::Reloading(results) && merges(
                    before.checkpoint.calls,
                    before.decisions,
                    given,
                    results,
                )) && after == before.waiting(after.phase) && action == RecoveryActionView::Load,
            },
        },
        (RecoveryPhaseView::Reloading(results), RecoveryInputView::Loaded(result)) => match result {
            Err(error) => recovery_fails(before, AgentErrorView::Memory(error), after, action),
            Ok(history) => match message_fault(history, before.checkpoint) {
                Some(fault) => recovery_fails(before, fault, after, action),
                None => (action matches RecoveryActionView::Replace(changed) && after
                    == before.waiting(RecoveryPhaseView::Replacing(changed, results)) && exists|
                    msg: MsgView,
                | #[trigger]
                    observes(msg, results) && changed == with_finished_calls(
                        history,
                        before.checkpoint,
                    ).push(msg)),
            },
        },
        (
            RecoveryPhaseView::Replacing(history, results),
            RecoveryInputView::Remembered(result),
        ) => match result {
            Err(error) => recovery_fails(before, AgentErrorView::Memory(error), after, action),
            Ok(()) => after == before.waiting(RecoveryPhaseView::Saving(history, results))
                && action == RecoveryActionView::Clear,
        },
        (RecoveryPhaseView::Saving(history, results), RecoveryInputView::Saved(result)) => match result {
            Err(error) => recovery_fails(before, error, after, action),
            Ok(()) => reports(before, history, results, 0, after, action),
        },
        (
            RecoveryPhaseView::Reporting(history, results, index),
            RecoveryInputView::Notified(result),
        ) => match result {
            Err(error) => recovery_fails(before, AgentErrorView::Hook(error), after, action),
            Ok(()) => reports(before, history, results, index + 1, after, action),
        },
        _ => false,
    }
}

/// The events of one step of a streamed recovery: a tool's result once the hooks
/// have heard of it, the start of tools, and failures.
pub open spec fn recovery_events(
    before: RecoveryView,
    input: RecoveryInputView,
    action: RecoveryActionView,
) -> Seq<AgentEventView> {
    let finished = match (before.phase, input) {
        (
            RecoveryPhaseView::Reporting(_, results, index),
            RecoveryInputView::Notified(Ok(_)),
        ) => seq![
            AgentEventView::ToolFinished {
                step: before.checkpoint.step,
                result: results[index as int],
            },
        ],
        _ => Seq::empty(),
    };
    match action {
        RecoveryActionView::Execute(calls, _) => started_events(before.checkpoint.step, calls),
        RecoveryActionView::Fail(error) => seq![
            AgentEventView::Error { step: Some(before.checkpoint.step), error },
        ],
        _ => finished,
    }
}

proof fn lemma_decision_approves(decisions: Seq<ConfirmationView>, id: Seq<char>)
    requires
        decision_for(decisions, id) == Some(DecisionView::Approve),
    ensures
        approves(decisions),
    decreases decisions.len(),
{
    if decisions.last().tool_call_id == id {
        assert(decisions[decisions.len() - 1].decision == DecisionView::Approve);
    } else {
        lemma_decision_approves(decisions.drop_last(), id);
        let i = choose|i: int|
            0 <= i < decisions.len() - 1 && (#[trigger] decisions.drop_last()[i]).decision
                == DecisionView::Approve;
        assert(decisions[i].decision == DecisionView::Approve);
    }
}

proof fn lemma_approved_approves(calls: Seq<ToolCallView>, decisions: Seq<ConfirmationView>)
    requires
        approved_in(calls, decisions).len() > 0,
    ensures
        approves(decisions),
{
    lemma_approved(calls, decisions);
    lemma_decision_approves(decisions, approved_in(calls, decisions)[0].id);
}

fn any_approval(decisions: &Vec<ToolConfirmation>) -> (found: bool)
    ensures
        found == approves(views(decisions@)),
{
    let ghost all = views(decisions@);
    let mut i: usize = 0;
    while i < decisions.len()
        invariant
            i <= decisions@.len(),
            all == views(decisions@),
            forall|j: int| 0 <= j < i ==> (#[trigger] all[j]).decision != DecisionView::Approve,
        decreases decisions@.len() - i,
    {
        assert(all[i as int] == decisions@[i as int]@);
        if matches!(decisions[i].decision(), ToolConfirmationDecision::Approve) {
            return true;
        }
        i += 1;
    }
    false
}

fn copy_decisions(decisions: &Vec<ToolConfirmation>) -> (copies: Vec<ToolConfirmation>)
    ensures
        views(copies@) == views(decisions@),
{
    let copies = decisions.clone();
    assert(views(copies@) =~= views(decisions@));
    copies
}

impl Recovery {
    /// Opens a recovery of pending calls or of an execution in doubt, and reads
    /// their history first.
    pub fn open(
        agent: &ReActAgent,
        pending: Option<&PendingToolCalls>,
        execution: Option<&PendingToolExecution>,
        reply_id: &str,
        kind: RecoveryKind,
    ) -> (result: AgentResult<Recovery>)
        ensures
            match (result, opening_fault(
                agent@,
                view_option(pending),
                view_option(execution),
                reply_id@,
                kind@,
            )) {
                (Ok(recovery), None) => opens(
                    view_option(pending),
                    view_option(execution),
                    kind@,
                    recovery@,
                ) && recovery@.well_formed(),
                (Err(error), Some(fault)) => error@ == fault,
                _ => false,
            },
    {
        match kind {
            RecoveryKind::Confirm(decisions) => {
                if let Some(checkpoint) = execution {
                    return Err(AgentError::ToolExecutionInDoubt { checkpoint: checkpoint.clone() });
                }
                let checkpoint = match pending {
                    None => {
                        return Err(AgentError::NoPendingToolConfirmation);
                    },
                    Some(checkpoint) => checkpoint,
                };
                if !same_text(checkpoint.reply_id(), reply_id) {
                    return Err(
                        AgentError::InvalidToolConfirmation(
                            "reply id does not match pending confirmation".to_owned(),
                        ),
                    );
                }
                if let Err(fault) = check_confirmations(checkpoint.calls(), &decisions) {
                    return Err(AgentError::InvalidToolConfirmation(fault));
                }
                if !agent.has_memory() {
                    return Err(AgentError::MemoryNotConfigured);
                }
                let execution = if any_approval(&decisions) {
                    Some(
                        PendingToolExecution::new(
                            generate_id(),
                            checkpoint.clone(),
                            copy_decisions(&decisions),
                        ),
                    )
                } else {
                    None
                };
                proof {
                    if approved_in(checkpoint@.calls, views(decisions@)).len() > 0 {
                        lemma_approved_approves(checkpoint@.calls, views(decisions@));
                    }
                }
                Ok(
                    Recovery {
                        checkpoint: checkpoint.clone(),
                        execution,
                        decisions,
                        phase: RecoveryPhase::Loading(None),
                    },
                )
            },
            kind => {
                let execution = match execution {
                    None => {
                        return Err(AgentError::NoPendingToolExecution);
                    },
                    Some(execution) => execution,
                };
                if !same_text(execution.confirmation().reply_id(), reply_id) {
                    return Err(
                        AgentError::InvalidToolExecutionResolution(
                            "reply id does not match uncertain execution".to_owned(),
                        ),
                    );
                }
                if !agent.has_memory() {
                    return Err(AgentError::MemoryNotConfigured);
                }
                let supplied = match kind {
                    RecoveryKind::Resolve(results) => Some(results),
                    _ => None,
                };
                Ok(
                    Recovery {
                        checkpoint: execution.confirmation().clone(),
                        execution: Some(execution.clone()),
                        decisions: copy_decisions(execution.decisions()),
                        phase: RecoveryPhase::Loading(supplied),
                    },
                )
            },
        }
    }

    fn wait(self, phase: RecoveryPhase) -> (next: Recovery)
        ensures
            next@ == self@.waiting(phase@),
    {
        Recovery {
            checkpoint: self.checkpoint,
            execution: self.execution,
            decisions: self.decisions,
            phase,
        }
    }

    fn fail(self, error: AgentError) -> (next: (Recovery, RecoveryAction, Vec<AgentEvent>))
        ensures
            recovery_fails(self@, error@, next.0@, next.1@),
            views(next.2@) == seq![
                AgentEventView::Error { step: Some(self@.checkpoint.step), error: error@ },
            ],
    {
        let mut events: Vec<AgentEvent> = Vec::new();
        events.push(
            AgentEvent::Error { step: Some(self.checkpoint.step()), error: error.clone() },
        );
        assert(views(events@) =~= seq![
            AgentEventView::Error { step: Some(self@.checkpoint.step), error: error@ },
        ]);
        (self.wait(RecoveryPhase::Over), RecoveryAction::Fail(error), events)
    }

    fn quiet(self, phase: RecoveryPhase, action: RecoveryAction) -> (next: (
        Recovery,
        RecoveryAction,
        Vec<AgentEvent>,
    ))
        ensures
            next.0@ == self@.waiting(phase@),
            next.1 == action,
            views(next.2@) == Seq::<AgentEventView>::empty(),
    {
        let events: Vec<AgentEvent> = Vec::new();
        assert(views(events@) =~= Seq::<AgentEventView>::empty());
        (self.wait(phase), action, events)
    }

    fn execute(self) -> (next: (Recovery, RecoveryAction, Vec<AgentEvent>))
        requires
            self@.well_formed(),
        ensures
            executes(self@, next.0@, next.1@),
            views(next.2@) == started_events(self@.checkpoint.step, self@.approved()),
    {
        let approved = approved_calls(self.checkpoint.calls(), &self.decisions);
        let ghost calls = views(approved@);
        let mut keys: Vec<String> = Vec::new();
        proof {
            lemma_approved(self@.checkpoint.calls, self@.decisions);
        }
        if let Some(execution) = &self.execution {
            let mut i: usize = 0;
            while i < approved.len()
                invariant
                    i <= approved@.len(),
                    calls == views(approved@),
                    calls == self@.approved(),
                    execution@.confirmation == self@.checkpoint,
                    execution@.decisions == self@.decisions,
                    forall|j: int|
                        0 <= j < calls.len() ==> decision_for(
                            self@.decisions,
                            (#[trigger] calls[j]).id,
                        ) == Some(DecisionView::Approve) && self@.checkpoint.calls.contains(
                            calls[j],
                        ),
                    keys@.len() == i,
                    forall|j: int|
                        0 <= j < i ==> key_for(execution@, (#[trigger] calls[j]).id) == Some(
                            keys@[j]@,
                        ),
                decreases approved@.len() - i,
            {
                assert(calls[i as int] == approved@[i as int]@);
                proof {
                    let all = self@.checkpoint.calls;
                    let k = choose|k: int| 0 <= k < all.len() && all[k] == calls[i as int];
                    assert(all[k].id == calls[i as int].id);
                    assert(has_call(all, calls[i as int].id));
                }
                if let Some(key) = execution.idempotency_key(approved[i].id()) {
                    keys.push(key);
                }
                i += 1;
            }
        }
        let events = tool_started_events(self.checkpoint.step(), &approved);
        proof {
            assert(views(keys@).len() == calls.len());
        }
        (self.wait(RecoveryPhase::Executing), RecoveryAction::Execute(approved, keys), events)
    }

    fn report(self, history: Vec<Msg>, results: Vec<ToolResultBlock>, index: usize) -> (next: (
        Recovery,
        RecoveryAction,
    ))
        ensures
            reports(
                self@,
                views(history@),
                views(results@),
                index as nat,
                next.0@,
                next.1@,
            ),
    {
        let step = self.checkpoint.step();
        if index < results.len() {
            let mut events: Vec<AgentHookEvent> = Vec::new();
            events.push(AgentHookEvent::AfterToolCall { step, result: results[index].clone() });
            assert(views(events@) =~= seq![
                HookEventView::AfterToolCall(step as nat, views(results@)[index as int]),
            ]);
            (
                self.wait(RecoveryPhase::Reporting(history, results, index)),
                RecoveryAction::Notify(events),
            )
        } else {
            (self.wait(RecoveryPhase::Over), RecoveryAction::Continue(history, step))
        }
    }

    fn check_loaded(
        &self,
        agent: &ReActAgent,
        supplied: Option<Vec<ToolResultBlock>>,
        history: &Vec<Msg>,
    ) -> (result: AgentResult<Option<Vec<ToolResultBlock>>>)
        ensures
            match (result, loading_fault(
                agent@,
                self@,
                optional_results(supplied),
                views(history@),
            )) {
                (Ok(resolved), None) => match supplied {
                    None => resolved is None,
                    Some(given) => resolved is Some && merges(
                        self@.checkpoint.calls,
                        self@.decisions,
                        views(given@),
                        views(resolved->Some_0@),
                    ),
                },
                (Err(error), Some(fault)) => error@ == fault,
                _ => false,
            },
    {
        if let Err(error) = validate_checkpoint_message(history, &self.checkpoint) {
            return Err(error);
        }
        if self.checkpoint.step() >= agent.max_steps() {
            return Err(AgentError::MaxStepsExceeded { max_steps: agent.max_steps() });
        }
        if let Err(fault) = check_confirmations(self.checkpoint.calls(), &self.decisions) {
            return Err(AgentError::InvalidToolConfirmation(fault));
        }
        match supplied {
            None => Ok(None),
            Some(given) => match reconcile_results(
                self.checkpoint.calls(),
                &self.decisions,
                &given,
            ) {
                Ok(results) => Ok(Some(results)),
                Err(error) => Err(error),
            },
        }
    }

    /// Takes what came of the last action and says what to do next, with the events
    /// to emit before it is done.
    pub fn advance(self, agent: &ReActAgent, input: RecoveryInput, interrupted: bool) -> (next: (
        Recovery,
        RecoveryAction,
        Vec<AgentEvent>,
    ))
        requires
            self@.well_formed(),
            recovery_answers(self@, input@),
        ensures
            recovery_step(agent@, self@, input@, interrupted, next.0@, next.1@),
            views(next.2@) == recovery_events(self@, input@, next.1@),
            next.0@.well_formed(),
            recovery_asks(next.0@.phase, next.1@),
    {
        let ghost before = self@;
        let Recovery { checkpoint, execution, decisions, phase } = self;
        let recovery = Recovery { checkpoint, execution, decisions, phase: RecoveryPhase::Over };
        let step = recovery.checkpoint.step();
        match (phase, input) {
            (RecoveryPhase::Loading(supplied), RecoveryInput::Loaded(result)) => match result {
                Err(error) => recovery.quiet(
                    RecoveryPhase::Over,
                    RecoveryAction::Refuse(AgentError::Memory(error)),
                ),
                Ok(history) => match recovery.check_loaded(agent, supplied, &history) {
                    Err(error) => recovery.quiet(
                        RecoveryPhase::Over,
                        RecoveryAction::Refuse(error),
                    ),
                    Ok(resolved) => recovery.quiet(
                        RecoveryPhase::Ready(resolved),
                        RecoveryAction::Start,
                    ),
                },
            },
            (RecoveryPhase::Ready(resolved), RecoveryInput::Begin) => {
                if interrupted {
                    return recovery.fail(AgentError::Interrupted);
                }
                match resolved {
                    Some(results) => recovery.quiet(
                        RecoveryPhase::Reloading(results),
                        RecoveryAction::Load,
                    ),
                    None => {
                        let approved = approved_calls(
                            recovery.checkpoint.calls(),
                            &recovery.decisions,
                        );
                        let events = notify_before_calls(step, &approved);
                        recovery.quiet(RecoveryPhase::Announcing, RecoveryAction::Notify(events))
                    },
                }
            },
            (RecoveryPhase::Announcing, RecoveryInput::Notified(result)) => match result {
                Err(error) => recovery.fail(AgentError::Hook(error)),
                Ok(()) => {
                    if interrupted {
                        return recovery.fail(AgentError::Interrupted);
                    }
                    let marked = match &recovery.execution {
                        Some(execution) => Some(execution.clone()),
                        None => None,
                    };
                    match marked {
                        Some(execution) => recovery.quiet(
                            RecoveryPhase::Marking,
                            RecoveryAction::Mark(execution),
                        ),
                        None => recovery.execute(),
                    }
                },
            },
            (RecoveryPhase::Marking, RecoveryInput::Saved(result)) => match result {
                Err(error) => recovery.fail(error),
                Ok(()) => recovery.execute(),
            },
            (RecoveryPhase::Executing, RecoveryInput::Interrupted) => {
                let doubt = match &recovery.execution {
                    Some(execution) => AgentError::ToolExecutionInDoubt {
                        checkpoint: execution.clone(),
                    },
                    None => AgentError::Interrupted,
                };
                recovery.fail(doubt)
            },
            (RecoveryPhase::Executing, RecoveryInput::Executed(result)) => match result {
                Err(error) => recovery.fail(AgentError::Tool(error)),
                Ok(given) => match reconcile_results(
                    recovery.checkpoint.calls(),
                    &recovery.decisions,
                    &given,
                ) {
                    Err(error) => recovery.fail(error),
                    Ok(results) => recovery.quiet(
                        RecoveryPhase::Reloading(results),
                        RecoveryAction::Load,
                    ),
                },
            },
            (RecoveryPhase::Reloading(results), RecoveryInput::Loaded(result)) => match result {
                Err(error) => recovery.fail(AgentError::Memory(error)),
                Ok(history) => match validate_checkpoint_message(&history, &recovery.checkpoint) {
                    Err(error) => recovery.fail(error),
                    Ok(()) => {
                        let mut history = history;
                        finish_checkpoint_calls(&mut history, &recovery.checkpoint);
                        let message = observation(&results);
                        proof {
                            lemma_views_push(history@, message);
                            assert(observes(message@, views(results@)));
                        }
                        history.push(message);
                        let stored = copy_messages(history.as_slice());
                        recovery.quiet(
                            RecoveryPhase::Replacing(history, results),
                            RecoveryAction::Replace(stored),
                        )
                    },
                },
            },
            (
                RecoveryPhase::Replacing(history, results),
                RecoveryInput::Remembered(result),
            ) => match result {
                Err(error) => recovery.fail(AgentError::Memory(error)),
                Ok(()) => recovery.quiet(
                    RecoveryPhase::Saving(history, results),
                    RecoveryAction::Clear,
                ),
            },
            (RecoveryPhase::Saving(history, results), RecoveryInput::Saved(result)) => match result {
                Err(error) => recovery.fail(error),
                Ok(()) => {
                    let events: Vec<AgentEvent> = Vec::new();
                    assert(views(events@) =~= Seq::<AgentEventView>::empty());
                    let (next, action) = recovery.report(history, results, 0);
                    (next, action, events)
                },
            },
            (
                RecoveryPhase::Reporting(history, results, index),
                RecoveryInput::Notified(result),
            ) => match result {
                Err(error) => recovery.fail(AgentError::Hook(error)),
                Ok(()) => {
                    let mut events: Vec<AgentEvent> = Vec::new();
                    events.push(AgentEvent::ToolFinished { step, result: results[index].clone() });
                    assert(views(events@) =~= seq![
                        AgentEventView::ToolFinished {
                            step: step as nat,
                            result: views(results@)[index as int],
                        },
                    ]);
                    assert(index < results.len());
                    let (next, action) = recovery.report(history, results, index + 1);
                    (next, action, events)
                },
            },
            (phase, _) => recovery.fail(AgentError::Interrupted),
        }
    }
}

/// Approved tools are executed only after their checkpoint was saved, and each under
/// the key that its execution gives it.
pub proof fn executions_are_marked_first(
    agent: AgentView,
    before: RecoveryView,
    input: RecoveryInputView,
    interrupted: bool,
    after: RecoveryView,
    calls: Seq<ToolCallView>,
    keys: Seq<Seq<char>>,
)
    requires
        before.well_formed(),
        recovery_step(
            agent,
            before,
            input,
            interrupted,
            after,
            RecoveryActionView::Execute(calls, keys),
        ),
        calls.len() > 0,
    ensures
        before.phase is Marking,
        input matches RecoveryInputView::Saved(Ok(_)),
        keys.len() == calls.len(),
        forall|i: int|
            0 <= i < calls.len() ==> #[trigger] keys[i] == before.execution->Some_0.execution_id
                + ":"@ + calls[i].id,
{
    assert forall|i: int| 0 <= i < calls.len() implies #[trigger] keys[i]
        == before.execution->Some_0.execution_id + ":"@ + calls[i].id by {
        assert(key_for(before.execution->Some_0, calls[i].id) == Some(keys[i]));
    }
}

/// Supplied results resolve an execution without executing anything: a recovery
/// that is ready with results never gets to execute a tool.
pub proof fn resolved_executions_are_not_repeated(
    agent: AgentView,
    before: RecoveryView,
    input: RecoveryInputView,
    interrupted: bool,
    after: RecoveryView,
    action: RecoveryActionView,
)
    requires
        recovery_step(agent, before, input, interrupted, after, action),
        before.phase matches RecoveryPhaseView::Ready(Some(_)) || before.phase is Reloading
            || before.phase is Replacing || before.phase is Saving || before.phase is Reporting,
    ensures
        !(action is Execute),
        !(action is Mark),
        after.phase is Reloading || after.phase is Replacing || after.phase is Saving
            || after.phase is Reporting || after.phase is Over,
{
}

/// Interrupted tools leave the execution in doubt: the checkpoint is named, and
/// neither memory nor checkpoint is changed.
pub proof fn interrupted_executions_stay_in_doubt(
    agent: AgentView,
    before: RecoveryView,
    interrupted: bool,
    after: RecoveryView,
    action: RecoveryActionView,
)
    requires
        before.phase is Executing,
        before.execution is Some,
        recovery_step(agent, before, RecoveryInputView::Interrupted, interrupted, after, action),
    ensures
        action == RecoveryActionView::Fail(
            AgentErrorView::ToolExecutionInDoubt(before.execution->Some_0),
        ),
{
}

/// A recovery is refused only before it starts: later failures are events.
pub proof fn refusals_come_before_the_start(
    agent: AgentView,
    before: RecoveryView,
    input: RecoveryInputView,
    interrupted: bool,
    after: RecoveryView,
    action: RecoveryActionView,
)
    requires
        recovery_step(agent, before, input, interrupted, after, action),
    ensures
        action is Refuse ==> before.phase is Loading && recovery_events(before, input, action).len()
            == 0,
        action is Fail ==> !(before.phase is Loading) && recovery_events(
            before,
            input,
            action,
        ).len() == 1,
{
}

/// The reply continues only after the state with the results and without the
/// checkpoints was saved.
pub proof fn results_are_saved_before_the_reply_continues(
    agent: AgentView,
    before: RecoveryView,
    input: RecoveryInputView,
    interrupted: bool,
    after: RecoveryView,
    action: RecoveryActionView,
)
    requires
        recovery_step(agent, before, input, interrupted, after, action),
    ensures
        action is Continue ==> before.phase is Saving || before.phase is Reporting,
        after.phase is Reporting ==> before.phase is Reporting || (before.phase is Saving
            && input matches RecoveryInputView::Saved(Ok(_))),
        after.phase is Saving ==> before.phase is Replacing && action == RecoveryActionView::Clear,
        action is Continue && before.phase is Saving ==> (
        input matches RecoveryInputView::Saved(Ok(_))),
{
}

} // verus!
