//! Resuming a reply whose tool calls were confirmed or denied, one decision at a
//! time.
use vstd::prelude::*;

use super::confirmation::{
    check_confirmations, confirmation_fault, ConfirmationView, PendingToolCalls, PendingView,
    ToolConfirmation,
};
use super::decided::{
    approved_calls, approved_in, lemma_approved, merge_fault, merge_results, merges, MergeFault,
    MergeFaultView,
};
use super::error::{AgentError, AgentErrorView, AgentResult};
use super::hook::{AgentHookError, AgentHookEvent, HookErrorView, HookEventView};
use super::react::{
    after_calls, before_calls, close_interrupted, finish_checkpoint_calls,
    interrupted_tool_results, message_fault, notify_after_calls, notify_before_calls, observation,
    observes, results_fault, validate_checkpoint_message, with_finished_calls, AgentView,
    ReActAgent,
};
use crate::context::copy_messages;
use crate::memory::{MemoryError, MemoryErrorView};
use crate::message::msg::{Msg, MsgView};
use crate::message::tool_call::{ToolCallBlock, ToolCallView};
use crate::message::tool_result::{ToolResultBlock, ToolResultState, ToolResultView};
use crate::text::{concat3, same_text};
use crate::tool::{ToolError, ToolErrorView};
use crate::view::{lemma_views_push, view_option, views};

verus! {

/// What the resumption of a reply waits for.
#[derive(Debug)]
pub enum ResumePhase {
    /// The stored conversation.
    Loading,
    /// The hooks, before approved tools are executed.
    Announcing(Vec<Msg>),
    /// The approved tools.
    Executing(Vec<Msg>),
    /// The memory, for the conversation with finished calls, and whether the tools
    /// were interrupted.
    Replacing(Vec<Msg>, Vec<ToolResultBlock>, bool),
    /// The memory, for the observation of the results.
    Recording(Vec<Msg>, Msg, Vec<ToolResultBlock>, bool),
    /// The hooks, after the tools were executed.
    Reporting(Vec<Msg>, Msg, bool),
    /// Nothing: it is over.
    Over,
}

/// What a phase holds.
#[verifier::ext_equal]
pub enum ResumePhaseView {
    Loading,
    Announcing(Seq<MsgView>),
    Executing(Seq<MsgView>),
    Replacing(Seq<MsgView>, Seq<ToolResultView>, bool),
    Recording(Seq<MsgView>, MsgView, Seq<ToolResultView>, bool),
    Reporting(Seq<MsgView>, MsgView, bool),
    Over,
}

impl View for ResumePhase {
    type V = ResumePhaseView;

    open spec fn view(&self) -> ResumePhaseView {
        match self {
            ResumePhase::Loading => ResumePhaseView::Loading,
            ResumePhase::Announcing(history) => ResumePhaseView::Announcing(views(history@)),
            ResumePhase::Executing(history) => ResumePhaseView::Executing(views(history@)),
            ResumePhase::Replacing(history, results, interrupted) => ResumePhaseView::Replacing(
                views(history@),
                views(results@),
                *interrupted,
            ),
            ResumePhase::Recording(history, msg, results, interrupted) => ResumePhaseView::Recording(
                views(history@),
                msg@,
                views(results@),
                *interrupted,
            ),
            ResumePhase::Reporting(history, msg, interrupted) => ResumePhaseView::Reporting(
                views(history@),
                msg@,
                *interrupted,
            ),
            ResumePhase::Over => ResumePhaseView::Over,
        }
    }
}

/// A reply that is resumed from a checkpoint with decisions.
#[derive(Debug)]
pub struct Resume {
    pub(crate) checkpoint: PendingToolCalls,
    pub(crate) decisions: Vec<ToolConfirmation>,
    pub(crate) phase: ResumePhase,
}

/// What the resumption of a reply holds.
#[verifier::ext_equal]
pub struct ResumeView {
    pub checkpoint: PendingView,
    pub decisions: Seq<ConfirmationView>,
    pub phase: ResumePhaseView,
}

impl View for Resume {
    type V = ResumeView;

    open(crate) spec fn view(&self) -> ResumeView {
        ResumeView {
            checkpoint: self.checkpoint@,
            decisions: views(self.decisions@),
            phase: self.phase@,
        }
    }
}

impl ResumeView {
    /// The same, waiting for something else.
    pub open spec fn waiting(self, phase: ResumePhaseView) -> ResumeView {
        ResumeView { phase, ..self }
    }

    /// The approved calls.
    pub open spec fn approved(self) -> Seq<ToolCallView> {
        approved_in(self.checkpoint.calls, self.decisions)
    }
}

/// What came of an action.
#[derive(Debug)]
pub enum ResumeInput {
    /// The conversation was read from memory.
    Loaded(Result<Vec<Msg>, MemoryError>),
    /// The hooks were notified in order, up to the first that failed.
    Notified(Result<(), AgentHookError>),
    /// The tools were executed.
    Executed(Result<Vec<ToolResultBlock>, ToolError>),
    /// The tools were interrupted.
    Interrupted,
    /// The memory was changed.
    Remembered(Result<(), MemoryError>),
}

/// What an input holds.
#[verifier::ext_equal]
pub enum ResumeInputView {
    Loaded(Result<Seq<MsgView>, MemoryErrorView>),
    Notified(Result<(), HookErrorView>),
    Executed(Result<Seq<ToolResultView>, ToolErrorView>),
    Interrupted,
    Remembered(Result<(), MemoryErrorView>),
}

impl View for ResumeInput {
    type V = ResumeInputView;

    open spec fn view(&self) -> ResumeInputView {
        match self {
            ResumeInput::Loaded(result) => ResumeInputView::Loaded(
                match result {
                    Ok(history) => Ok(views(history@)),
                    Err(error) => Err(error@),
                },
            ),
            ResumeInput::Notified(result) => ResumeInputView::Notified(
                match result {
                    Ok(()) => Ok(()),
                    Err(error) => Err(error@),
                },
            ),
            ResumeInput::Executed(result) => ResumeInputView::Executed(
                match result {
                    Ok(results) => Ok(views(results@)),
                    Err(error) => Err(error@),
                },
            ),
            ResumeInput::Interrupted => ResumeInputView::Interrupted,
            ResumeInput::Remembered(result) => ResumeInputView::Remembered(
                match result {
                    Ok(()) => Ok(()),
                    Err(error) => Err(error@),
                },
            ),
        }
    }
}

/// What the resumption of a reply asks its driver to do.
#[derive(Debug)]
pub enum ResumeAction {
    /// Read the conversation from memory.
    Load,
    /// Notify the hooks of events, in order.
    Notify(Vec<AgentHookEvent>),
    /// Execute the approved calls, unless there are some and the operation is
    /// interrupted first.
    Execute(Vec<ToolCallBlock>),
    /// Replace the conversation in memory.
    Replace(Vec<Msg>),
    /// Append a message to memory.
    Remember(Msg),
    /// Drop the checkpoint and continue the reply after a number of steps.
    Continue(Vec<Msg>, usize),
    /// Drop the checkpoint and fail as interrupted.
    Abandon,
    /// Fail and keep the checkpoint.
    Fail(AgentError),
}

/// What an action holds.
#[verifier::ext_equal]
pub enum ResumeActionView {
    Load,
    Notify(Seq<HookEventView>),
    Execute(Seq<ToolCallView>),
    Replace(Seq<MsgView>),
    Remember(MsgView),
    Continue(Seq<MsgView>, nat),
    Abandon,
    Fail(AgentErrorView),
}

impl View for ResumeAction {
    type V = ResumeActionView;

    open spec fn view(&self) -> ResumeActionView {
        match self {
            ResumeAction::Load => ResumeActionView::Load,
            ResumeAction::Notify(events) => ResumeActionView::Notify(views(events@)),
            ResumeAction::Execute(calls) => ResumeActionView::Execute(views(calls@)),
            ResumeAction::Replace(history) => ResumeActionView::Replace(views(history@)),
            ResumeAction::Remember(msg) => ResumeActionView::Remember(msg@),
            ResumeAction::Continue(history, step) => ResumeActionView::Continue(
                views(history@),
                *step as nat,
            ),
            ResumeAction::Abandon => ResumeActionView::Abandon,
            ResumeAction::Fail(error) => ResumeActionView::Fail(error@),
        }
    }
}

/// Whether an input answers what a phase waits for.
pub open spec fn resume_answers(phase: ResumePhaseView, input: ResumeInputView) -> bool {
    match phase {
        ResumePhaseView::Loading => input is Loaded,
        ResumePhaseView::Announcing(_) => input is Notified,
        ResumePhaseView::Executing(_) => input is Executed || input is Interrupted,
        ResumePhaseView::Replacing(_, _, _) => input is Remembered,
        ResumePhaseView::Recording(_, _, _, _) => input is Remembered,
        ResumePhaseView::Reporting(_, _, _) => input is Notified,
        ResumePhaseView::Over => false,
    }
}

/// Whether an action asks for what a phase waits for.
pub open spec fn resume_asks(phase: ResumePhaseView, action: ResumeActionView) -> bool {
    match phase {
        ResumePhaseView::Loading => action is Load,
        ResumePhaseView::Announcing(_) => action is Notify,
        ResumePhaseView::Executing(_) => action is Execute,
        ResumePhaseView::Replacing(_, _, _) => action is Replace,
        ResumePhaseView::Recording(_, _, _, _) => action is Remember,
        ResumePhaseView::Reporting(_, _, _) => action is Notify,
        ResumePhaseView::Over => action is Continue || action is Abandon || action is Fail,
    }
}

/// Whether a resumption is over with a failure.
pub open spec fn resume_fails(
    before: ResumeView,
    error: AgentErrorView,
    after: ResumeView,
    action: ResumeActionView,
) -> bool {
    &&& after == before.waiting(ResumePhaseView::Over)
    &&& action == ResumeActionView::Fail(error)
}

/// Why decided calls cannot be continued, if they cannot.
pub open spec fn resume_fault(fault: MergeFaultView) -> AgentErrorView {
    match fault {
        MergeFaultView::Missing(id) => AgentErrorView::InvalidModelResponse(
            "approved tool `"@ + id + "` produced no result"@,
        ),
        MergeFaultView::Invalid(reason) => AgentErrorView::InvalidModelResponse(reason),
    }
}

/// Whether the calls of the checkpoint are finished with results.
pub open spec fn resume_merges(
    before: ResumeView,
    history: Seq<MsgView>,
    given: Seq<ToolResultView>,
    interrupted: bool,
    after: ResumeView,
    action: ResumeActionView,
) -> bool {
    match merge_fault(before.checkpoint.calls, before.decisions, given) {
        Some(fault) => resume_fails(before, resume_fault(fault), after, action),
        None => {
            let finished = with_finished_calls(history, before.checkpoint);
            &&& action == ResumeActionView::Replace(finished)
            &&& after.phase matches ResumePhaseView::Replacing(kept, results, stopped) && kept
                == finished && stopped == interrupted && merges(
                before.checkpoint.calls,
                before.decisions,
                given,
                results,
            )
            &&& after == before.waiting(after.phase)
        },
    }
}

/// Whether a resumption goes from one state to another with an action, for an
/// input that came while the operation was interrupted or not.
pub open spec fn resume_step(
    before: ResumeView,
    input: ResumeInputView,
    interrupted: bool,
    after: ResumeView,
    action: ResumeActionView,
) -> bool {
    match (before.phase, input) {
        (ResumePhaseView::Loading, ResumeInputView::Loaded(result)) => match result {
            Err(error) => resume_fails(before, AgentErrorView::Memory(error), after, action),
            Ok(history) => match message_fault(history, before.checkpoint) {
                Some(fault) => resume_fails(before, fault, after, action),
                None => after == before.waiting(ResumePhaseView::Announcing(history)) && action
                    == ResumeActionView::Notify(
                    before_calls(before.checkpoint.step, before.approved()),
                ),
            },
        },
        (ResumePhaseView::Announcing(history), ResumeInputView::Notified(result)) => match result {
            Err(error) => resume_fails(before, AgentErrorView::Hook(error), after, action),
            Ok(()) => if interrupted {
                resume_fails(before, AgentErrorView::Interrupted, after, action)
            } else {
                after == before.waiting(ResumePhaseView::Executing(history)) && action
                    == ResumeActionView::Execute(before.approved())
            },
        },
        (ResumePhaseView::Executing(history), ResumeInputView::Interrupted) => match results_fault(
            before.approved(),
            ToolResultState::Interrupted,
        ) {
            Some(fault) => resume_fails(before, fault, after, action),
            None => exists|given: Seq<ToolResultView>| #[trigger]
                close_interrupted(before.approved(), given) && resume_merges(
                    before,
                    history,
                    given,
                    true,
                    after,
                    action,
                ),
        },
        (ResumePhaseView::Executing(history), ResumeInputView::Executed(result)) => match result {
            Err(error) => resume_fails(before, AgentErrorView::Tool(error), after, action),
            Ok(given) => resume_merges(before, history, given, false, after, action),
        },
        (
            ResumePhaseView::Replacing(history, results, stopped),
            ResumeInputView::Remembered(result),
        ) => match result {
            Err(error) => resume_fails(before, AgentErrorView::Memory(error), after, action),
            Ok(()) => action matches ResumeActionView::Remember(msg) && observes(msg, results)
                && after == before.waiting(
                ResumePhaseView::Recording(history, msg, results, stopped),
            ),
        },
        (
            ResumePhaseView::Recording(history, msg, results, stopped),
            ResumeInputView::Remembered(result),
        ) => match result {
            Err(error) => resume_fails(before, AgentErrorView::Memory(error), after, action),
            Ok(()) => after == before.waiting(ResumePhaseView::Reporting(history, msg, stopped))
                && action == ResumeActionView::Notify(
                after_calls(before.checkpoint.step, results),
            ),
        },
        (
            ResumePhaseView::Reporting(history, msg, stopped),
            ResumeInputView::Notified(result),
        ) => match result {
            Err(error) => resume_fails(before, AgentErrorView::Hook(error), after, action),
            Ok(()) => after == before.waiting(ResumePhaseView::Over) && action == if stopped {
                ResumeActionView::Abandon
            } else {
                ResumeActionView::Continue(history.push(msg), before.checkpoint.step)
            },
        },
        _ => false,
    }
}

/// Why a reply cannot be resumed with decisions, before its history is read.
pub open spec fn resumption_fault(
    agent: AgentView,
    pending: Option<PendingView>,
    reply_id: Seq<char>,
    decisions: Seq<ConfirmationView>,
) -> Option<AgentErrorView> {
    match pending {
        None => Some(AgentErrorView::NoPendingToolConfirmation),
        Some(checkpoint) => if checkpoint.reply_id != reply_id {
            Some(
                AgentErrorView::InvalidToolConfirmation(
                    "reply id `"@ + reply_id + "` does not match pending reply `"@
                        + checkpoint.reply_id + "`"@,
                ),
            )
        } else {
            match confirmation_fault(checkpoint.calls, decisions) {
                Some(fault) => Some(AgentErrorView::InvalidToolConfirmation(fault)),
                None => if !agent.has_memory {
                    Some(AgentErrorView::MemoryNotConfigured)
                } else {
                    None
                },
            }
        },
    }
}

impl Resume {
    /// Resumes a reply from a checkpoint, and reads its history first.
    pub fn open(
        agent: &ReActAgent,
        pending: Option<&PendingToolCalls>,
        reply_id: &str,
        decisions: Vec<ToolConfirmation>,
    ) -> (result: AgentResult<Resume>)
        ensures
            match (result, resumption_fault(
                agent@,
                view_option(pending),
                reply_id@,
                views(decisions@),
            )) {
                (Ok(resume), None) => pending matches Some(checkpoint) && resume@ == (ResumeView {
                    checkpoint: checkpoint@,
                    decisions: views(decisions@),
                    phase: ResumePhaseView::Loading,
                }),
                (Err(error), Some(fault)) => error@ == fault,
                _ => false,
            },
    {
        let checkpoint = match pending {
            None => {
                return Err(AgentError::NoPendingToolConfirmation);
            },
            Some(checkpoint) => checkpoint,
        };
        if !same_text(checkpoint.reply_id(), reply_id) {
            let start = concat3("reply id `", reply_id, "` does not match pending reply `");
            let text = concat3(start.as_str(), checkpoint.reply_id(), "`");
            return Err(AgentError::InvalidToolConfirmation(text));
        }
        if let Err(fault) = check_confirmations(checkpoint.calls(), &decisions) {
            return Err(AgentError::InvalidToolConfirmation(fault));
        }
        if !agent.has_memory() {
            return Err(AgentError::MemoryNotConfigured);
        }
        Ok(Resume { checkpoint: checkpoint.clone(), decisions, phase: ResumePhase::Loading })
    }

    fn fail(self, error: AgentError) -> (next: (Resume, ResumeAction))
        ensures
            resume_fails(self@, error@, next.0@, next.1@),
    {
        (
            Resume {
                checkpoint: self.checkpoint,
                decisions: self.decisions,
                phase: ResumePhase::Over,
            },
            ResumeAction::Fail(error),
        )
    }

    fn merge(self, history: Vec<Msg>, given: Vec<ToolResultBlock>, interrupted: bool) -> (next: (
        Resume,
        ResumeAction,
    ))
        ensures
            resume_merges(
                self@,
                views(history@),
                views(given@),
                interrupted,
                next.0@,
                next.1@,
            ),
            resume_asks(next.0@.phase, next.1@),
    {
        match merge_results(self.checkpoint.calls(), &self.decisions, &given) {
            Err(MergeFault::Missing(id)) => self.fail(
                AgentError::InvalidModelResponse(
                    concat3("approved tool `", id.as_str(), "` produced no result"),
                ),
            ),
            Err(MergeFault::Invalid(reason)) => self.fail(
                AgentError::InvalidModelResponse(reason),
            ),
            Ok(results) => {
                let mut history = history;
                finish_checkpoint_calls(&mut history, &self.checkpoint);
                let stored = copy_messages(history.as_slice());
                (
                    Resume {
                        checkpoint: self.checkpoint,
                        decisions: self.decisions,
                        phase: ResumePhase::Replacing(history, results, interrupted),
                    },
                    ResumeAction::Replace(stored),
                )
            },
        }
    }

    /// Takes what came of the last action and says what to do next.
    pub fn advance(self, input: ResumeInput, interrupted: bool) -> (next: (Resume, ResumeAction))
        requires
            resume_answers(self@.phase, input@),
        ensures
            resume_step(self@, input@, interrupted, next.0@, next.1@),
            resume_asks(next.0@.phase, next.1@),
    {
        let ghost before = self@;
        let Resume { checkpoint, decisions, phase } = self;
        let step = checkpoint.step();
        match (phase, input) {
            (ResumePhase::Loading, ResumeInput::Loaded(result)) => match result {
                Err(error) => Resume { checkpoint, decisions, phase: ResumePhase::Loading }.fail(
                    AgentError::Memory(error),
                ),
                Ok(history) => match validate_checkpoint_message(&history, &checkpoint) {
                    Err(error) => Resume {
                        checkpoint,
                        decisions,
                        phase: ResumePhase::Loading,
                    }.fail(error),
                    Ok(()) => {
                        let approved = approved_calls(checkpoint.calls(), &decisions);
                        let events = notify_before_calls(step, &approved);
                        (
                            Resume {
                                checkpoint,
                                decisions,
                                phase: ResumePhase::Announcing(history),
                            },
                            ResumeAction::Notify(events),
                        )
                    },
                },
            },
            (ResumePhase::Announcing(history), ResumeInput::Notified(result)) => match result {
                Err(error) => Resume { checkpoint, decisions, phase: ResumePhase::Loading }.fail(
                    AgentError::Hook(error),
                ),
                Ok(()) => {
                    if interrupted {
                        Resume { checkpoint, decisions, phase: ResumePhase::Loading }.fail(
                            AgentError::Interrupted,
                        )
                    } else {
                        let approved = approved_calls(checkpoint.calls(), &decisions);
                        (
                            Resume {
                                checkpoint,
                                decisions,
                                phase: ResumePhase::Executing(history),
                            },
                            ResumeAction::Execute(approved),
                        )
                    }
                },
            },
            (ResumePhase::Executing(history), ResumeInput::Interrupted) => {
                let approved = approved_calls(checkpoint.calls(), &decisions);
                let resume = Resume { checkpoint, decisions, phase: ResumePhase::Loading };
                match interrupted_tool_results(&approved) {
                    Err(error) => resume.fail(error),
                    Ok(given) => {
                        assert(close_interrupted(before.approved(), views(given@)));
                        resume.merge(history, given, true)
                    },
                }
            },
            (ResumePhase::Executing(history), ResumeInput::Executed(result)) => match result {
                Err(error) => Resume { checkpoint, decisions, phase: ResumePhase::Loading }.fail(
                    AgentError::Tool(error),
                ),
                Ok(given) => Resume { checkpoint, decisions, phase: ResumePhase::Loading }.merge(
                    history,
                    given,
                    false,
                ),
            },
            (
                ResumePhase::Replacing(history, results, stopped),
                ResumeInput::Remembered(result),
            ) => match result {
                Err(error) => Resume { checkpoint, decisions, phase: ResumePhase::Loading }.fail(
                    AgentError::Memory(error),
                ),
                Ok(()) => {
                    let message = observation(&results);
                    let remembered = message.clone();
                    (
                        Resume {
                            checkpoint,
                            decisions,
                            phase: ResumePhase::Recording(history, message, results, stopped),
                        },
                        ResumeAction::Remember(remembered),
                    )
                },
            },
            (
                ResumePhase::Recording(history, message, results, stopped),
                ResumeInput::Remembered(result),
            ) => match result {
                Err(error) => Resume { checkpoint, decisions, phase: ResumePhase::Loading }.fail(
                    AgentError::Memory(error),
                ),
                Ok(()) => {
                    let events = notify_after_calls(step, &results);
                    (
                        Resume {
                            checkpoint,
                            decisions,
                            phase: ResumePhase::Reporting(history, message, stopped),
                        },
                        ResumeAction::Notify(events),
                    )
                },
            },
            (
                ResumePhase::Reporting(history, message, stopped),
                ResumeInput::Notified(result),
            ) => match result {
                Err(error) => Resume { checkpoint, decisions, phase: ResumePhase::Loading }.fail(
                    AgentError::Hook(error),
                ),
                Ok(()) => {
                    let over = Resume { checkpoint, decisions, phase: ResumePhase::Over };
                    if stopped {
                        (over, ResumeAction::Abandon)
                    } else {
                        let mut history = history;
                        proof {
                            lemma_views_push(history@, message);
                        }
                        history.push(message);
                        (over, ResumeAction::Continue(history, step))
                    }
                },
            },
            (phase, _) => Resume { checkpoint, decisions, phase }.fail(AgentError::Interrupted),
        }
    }
}

/// A resumed reply executes approved calls only.
pub proof fn only_approved_calls_are_resumed(
    before: ResumeView,
    input: ResumeInputView,
    interrupted: bool,
    after: ResumeView,
    calls: Seq<ToolCallView>,
)
    requires
        resume_step(before, input, interrupted, after, ResumeActionView::Execute(calls)),
    ensures
        forall|i: int|
            0 <= i < calls.len() ==> before.checkpoint.calls.contains(#[trigger] calls[i])
                && super::confirmation::decision_for(before.decisions, calls[i].id) == Some(
                super::confirmation::DecisionView::Approve,
            ),
{
    lemma_approved(before.checkpoint.calls, before.decisions);
}

/// The decisions with which a reply is resumed never change.
pub proof fn resumption_keeps_its_decisions(
    before: ResumeView,
    input: ResumeInputView,
    interrupted: bool,
    after: ResumeView,
    action: ResumeActionView,
)
    requires
        resume_step(before, input, interrupted, after, action),
    ensures
        after.checkpoint == before.checkpoint,
        after.decisions == before.decisions,
{
}

} // verus!
