//! Making a summary of old history, one decision at a time.
use vstd::prelude::*;

use super::compaction::{
    accept_summary, accepted_view, plan_summary, planned_summary, summary_outcome,
};
use super::error::{AgentError, AgentErrorView, AgentResult};
use super::event::{AgentEvent, AgentEventView};
use super::state::{AgentState, StateView};
use crate::context::budget::{BudgetErrorView, TokenBudgetError};
use crate::context::copy_messages;
use crate::context::summary::{ContextSummary, SummaryError, SummaryErrorView, SummaryView};
use crate::message::msg::{Msg, MsgView};
use crate::view::{view_option, views};

verus! {

/// What a compaction waits for.
#[derive(Debug)]
pub enum CompactionPhase {
    /// The state to summarize.
    Planning,
    /// The summary of the first messages of a state.
    Summarizing(AgentState, usize),
    /// Whether the model input with a summary fits.
    Checking(AgentState, ContextSummary),
    /// Whether the state is still the same.
    Comparing(AgentState, ContextSummary),
    /// The store, for the state with a summary.
    Saving(ContextSummary),
    /// Nothing: it is over.
    Over,
}

/// What a phase holds.
#[verifier::ext_equal]
pub enum CompactionPhaseView {
    Planning,
    Summarizing(StateView, nat),
    Checking(StateView, SummaryView),
    Comparing(StateView, SummaryView),
    Saving(SummaryView),
    Over,
}

impl View for CompactionPhase {
    type V = CompactionPhaseView;

    open spec fn view(&self) -> CompactionPhaseView {
        match self {
            CompactionPhase::Planning => CompactionPhaseView::Planning,
            CompactionPhase::Summarizing(state, end) => CompactionPhaseView::Summarizing(
                state@,
                *end as nat,
            ),
            CompactionPhase::Checking(state, summary) => CompactionPhaseView::Checking(
                state@,
                summary@,
            ),
            CompactionPhase::Comparing(state, summary) => CompactionPhaseView::Comparing(
                state@,
                summary@,
            ),
            CompactionPhase::Saving(summary) => CompactionPhaseView::Saving(summary@),
            CompactionPhase::Over => CompactionPhaseView::Over,
        }
    }
}

/// A compaction under way. An automatic one knows by how much the model input
/// exceeded the budget.
#[derive(Debug)]
pub struct Compaction {
    pub(crate) keep_recent_turns: usize,
    pub(crate) overflow: Option<TokenBudgetError>,
    pub(crate) phase: CompactionPhase,
}

/// What a compaction under way holds.
#[verifier::ext_equal]
pub struct CompactionView {
    pub keep_recent_turns: nat,
    pub overflow: Option<BudgetErrorView>,
    pub phase: CompactionPhaseView,
}

impl View for Compaction {
    type V = CompactionView;

    open(crate) spec fn view(&self) -> CompactionView {
        CompactionView {
            keep_recent_turns: self.keep_recent_turns as nat,
            overflow: view_option(self.overflow),
            phase: self.phase@,
        }
    }
}

impl CompactionView {
    /// The same, waiting for something else.
    pub open spec fn waiting(self, phase: CompactionPhaseView) -> CompactionView {
        CompactionView { phase, ..self }
    }

    /// Whether the prefix to summarize is one of the state.
    pub open spec fn well_formed(self) -> bool {
        match self.phase {
            CompactionPhaseView::Summarizing(state, end) => end <= state.messages.len(),
            _ => true,
        }
    }
}

/// What a compaction asks its driver to do.
#[derive(Debug)]
pub enum CompactionAction {
    /// Nothing: there is nothing new to summarize.
    Skip,
    /// Summarize messages, unless interrupted first.
    Summarize(Vec<Msg>),
    /// Check that the model input with a summary fits.
    Check(ContextSummary),
    /// Compare the state with the one that was summarized.
    Compare,
    /// Save a state, where there is a store.
    Save(AgentState),
    /// Use a summary from now on.
    Install(ContextSummary),
    /// Fail; the summary stays as it was.
    Fail(AgentError),
}

/// What an action holds.
#[verifier::ext_equal]
pub enum CompactionActionView {
    Skip,
    Summarize(Seq<MsgView>),
    Check(SummaryView),
    Compare,
    Save(StateView),
    Install(SummaryView),
    Fail(AgentErrorView),
}

impl View for CompactionAction {
    type V = CompactionActionView;

    open spec fn view(&self) -> CompactionActionView {
        match self {
            CompactionAction::Skip => CompactionActionView::Skip,
            CompactionAction::Summarize(messages) => CompactionActionView::Summarize(
                views(messages@),
            ),
            CompactionAction::Check(summary) => CompactionActionView::Check(summary@),
            CompactionAction::Compare => CompactionActionView::Compare,
            CompactionAction::Save(state) => CompactionActionView::Save(state@),
            CompactionAction::Install(summary) => CompactionActionView::Install(summary@),
            CompactionAction::Fail(error) => CompactionActionView::Fail(error@),
        }
    }
}

/// What a summarizer gave.
#[derive(Debug)]
pub enum SummaryReply {
    /// A text, or a failure.
    Given(Result<String, SummaryError>),
    /// The operation was interrupted first.
    Interrupted,
}

/// Whether a compaction is over with a failure.
pub open spec fn compaction_fails(
    before: CompactionView,
    error: AgentErrorView,
    after: CompactionView,
    action: CompactionActionView,
) -> bool {
    &&& after == before.waiting(CompactionPhaseView::Over)
    &&& action == CompactionActionView::Fail(error)
}

/// Whether a compaction goes on with a state.
pub open spec fn planned_step(
    before: CompactionView,
    state: StateView,
    has_summarizer: bool,
    interrupted: bool,
    after: CompactionView,
    action: CompactionActionView,
) -> bool {
    match planned_summary(
        state,
        before.keep_recent_turns,
        has_summarizer,
        interrupted,
    ) {
        Err(error) => compaction_fails(before, error, after, action),
        Ok(None) => match before.overflow {
            Some(overflow) => compaction_fails(
                before,
                AgentErrorView::TokenBudget(overflow),
                after,
                action,
            ),
            None => after == before.waiting(CompactionPhaseView::Over) && action
                == CompactionActionView::Skip,
        },
        Ok(Some(end)) => after == before.waiting(CompactionPhaseView::Summarizing(state, end))
            && action == CompactionActionView::Summarize(state.messages.take(end as int)),
    }
}

/// Whether a compaction goes on with what a summarizer gave.
pub open spec fn summarized_step(
    before: CompactionView,
    reply: SummaryReply,
    interrupted: bool,
    after: CompactionView,
    action: CompactionActionView,
) -> bool {
    before.phase matches CompactionPhaseView::Summarizing(state, end) && match reply {
        SummaryReply::Interrupted => compaction_fails(
            before,
            AgentErrorView::Interrupted,
            after,
            action,
        ),
        SummaryReply::Given(Err(error)) => compaction_fails(
            before,
            AgentErrorView::Summary(error@),
            after,
            action,
        ),
        SummaryReply::Given(Ok(text)) => exists|result: Result<SummaryView, AgentErrorView>|
         #[trigger]
            summary_outcome(state, end, text@, interrupted, result)
                && match result {
                Err(error) => compaction_fails(before, error, after, action),
                Ok(summary) => after == before.waiting(
                    CompactionPhaseView::Checking(state, summary),
                ) && action == CompactionActionView::Check(summary),
            },
    }
}

/// Whether a compaction goes on with the check of the model input. An automatic one
/// stops where it was interrupted.
pub open spec fn checked_step(
    before: CompactionView,
    check: Result<(), AgentErrorView>,
    interrupted: bool,
    after: CompactionView,
    action: CompactionActionView,
) -> bool {
    before.phase matches CompactionPhaseView::Checking(state, summary) && match check {
        Err(error) => compaction_fails(before, error, after, action),
        Ok(()) => if interrupted && before.overflow is Some {
            compaction_fails(before, AgentErrorView::Interrupted, after, action)
        } else {
            after == before.waiting(CompactionPhaseView::Comparing(state, summary)) && action
                == CompactionActionView::Compare
        },
    }
}

/// Whether a compaction goes on after the state was compared.
pub open spec fn compared_step(
    before: CompactionView,
    changed: bool,
    after: CompactionView,
    action: CompactionActionView,
) -> bool {
    before.phase matches CompactionPhaseView::Comparing(state, summary) && if changed {
        compaction_fails(
            before,
            AgentErrorView::Summary(SummaryErrorView::StaleSource),
            after,
            action,
        )
    } else {
        after == before.waiting(CompactionPhaseView::Saving(summary)) && action
            == CompactionActionView::Save(StateView { context_summary: Some(summary), ..state })
    }
}

/// Whether a compaction is over after the state was saved, or could not be.
pub open spec fn saved_step(
    before: CompactionView,
    saved: Result<(), AgentErrorView>,
    after: CompactionView,
    action: CompactionActionView,
) -> bool {
    before.phase matches CompactionPhaseView::Saving(summary) && match saved {
        Err(error) => compaction_fails(before, error, after, action),
        Ok(()) => after == before.waiting(CompactionPhaseView::Over) && action
            == CompactionActionView::Install(summary),
    }
}

/// A result with the view of its error.
pub open spec fn check_view(result: AgentResult<()>) -> Result<(), AgentErrorView> {
    match result {
        Ok(()) => Ok(()),
        Err(error) => Err(error@),
    }
}

/// The event of an automatic compaction that is over.
pub open spec fn end_event(action: CompactionActionView) -> Option<AgentEventView> {
    match action {
        CompactionActionView::Install(summary) => Some(
            AgentEventView::ContextCompactionCompleted {
                covered_messages: summary.covered_messages,
            },
        ),
        CompactionActionView::Fail(error) => Some(AgentEventView::ContextCompactionFailed(error)),
        _ => None,
    }
}

/// The event of an automatic compaction that is over.
pub fn compaction_event(action: &CompactionAction) -> (event: Option<AgentEvent>)
    ensures
        view_option(event) == end_event(action@),
{
    match action {
        CompactionAction::Install(summary) => Some(
            AgentEvent::ContextCompactionCompleted {
                covered_messages: summary.covered_messages(),
            },
        ),
        CompactionAction::Fail(error) => Some(
            AgentEvent::ContextCompactionFailed { error: error.clone() },
        ),
        _ => None,
    }
}

impl Compaction {
    /// A compaction that was asked for.
    pub fn explicit(keep_recent_turns: usize) -> (result: AgentResult<Compaction>)
        ensures
            match result {
                Ok(compaction) => keep_recent_turns > 0 && compaction@ == (CompactionView {
                    keep_recent_turns: keep_recent_turns as nat,
                    overflow: None,
                    phase: CompactionPhaseView::Planning,
                }),
                Err(error) => keep_recent_turns == 0 && error@ == AgentErrorView::Summary(
                    SummaryErrorView::ZeroRecentTurns,
                ),
            },
    {
        if keep_recent_turns == 0 {
            return Err(AgentError::Summary(SummaryError::ZeroRecentTurns));
        }
        Ok(Compaction { keep_recent_turns, overflow: None, phase: CompactionPhase::Planning })
    }

    /// A compaction before a reply whose input exceeds the budget, with its event.
    pub fn automatic(keep_recent_turns: usize, overflow: TokenBudgetError) -> (start: (
        Compaction,
        AgentEvent,
    ))
        ensures
            start.0@ == (CompactionView {
                keep_recent_turns: keep_recent_turns as nat,
                overflow: Some(overflow@),
                phase: CompactionPhaseView::Planning,
            }),
            start.1@ == (AgentEventView::ContextCompactionStarted { keep_recent_turns }),
    {
        (
            Compaction {
                keep_recent_turns,
                overflow: Some(overflow),
                phase: CompactionPhase::Planning,
            },
            AgentEvent::ContextCompactionStarted { keep_recent_turns },
        )
    }

    fn wait(self, phase: CompactionPhase) -> (next: Compaction)
        ensures
            next@ == self@.waiting(phase@),
    {
        Compaction { keep_recent_turns: self.keep_recent_turns, overflow: self.overflow, phase }
    }

    fn fail(self, error: AgentError) -> (next: (Compaction, CompactionAction))
        ensures
            compaction_fails(self@, error@, next.0@, next.1@),
    {
        (self.wait(CompactionPhase::Over), CompactionAction::Fail(error))
    }

    /// Goes on with the state.
    pub fn planned(
        self,
        state: AgentState,
        has_summarizer: bool,
        interrupted: bool,
    ) -> (next: (Compaction, CompactionAction))
        ensures
            planned_step(
                self@,
                state@,
                has_summarizer,
                interrupted,
                next.0@,
                next.1@,
            ),
            next.0@.well_formed(),
    {
        match plan_summary(&state, self.keep_recent_turns, has_summarizer, interrupted) {
            Err(error) => self.fail(error),
            Ok(None) => {
                let overflow = match &self.overflow {
                    Some(overflow) => Some(overflow.clone()),
                    None => None,
                };
                match overflow {
                    Some(overflow) => self.fail(AgentError::TokenBudget(overflow)),
                    None => (self.wait(CompactionPhase::Over), CompactionAction::Skip),
                }
            },
            Ok(Some(end)) => {
                let prefix = vstd::slice::slice_subrange(state.messages().as_slice(), 0, end);
                let source = copy_messages(prefix);
                assert(views(source@) =~= state@.messages.take(end as int));
                (
                    self.wait(CompactionPhase::Summarizing(state, end)),
                    CompactionAction::Summarize(source),
                )
            },
        }
    }

    /// Goes on with what the summarizer gave.
    pub fn summarized(
        self,
        reply: SummaryReply,
        interrupted: bool,
    ) -> (next: (Compaction, CompactionAction))
        requires
            self@.phase is Summarizing,
            self@.well_formed(),
        ensures
            summarized_step(
                self@,
                reply,
                interrupted,
                next.0@,
                next.1@,
            ),
            next.0@.well_formed(),
    {
        let Compaction { keep_recent_turns, overflow, phase } = self;
        let rest = Compaction { keep_recent_turns, overflow, phase: CompactionPhase::Planning };
        match (phase, reply) {
            (CompactionPhase::Summarizing(_, _), SummaryReply::Interrupted) => rest.fail(
                AgentError::Interrupted,
            ),
            (CompactionPhase::Summarizing(_, _), SummaryReply::Given(Err(error))) => rest.fail(
                AgentError::Summary(error),
            ),
            (CompactionPhase::Summarizing(state, end), SummaryReply::Given(Ok(text))) => {
                let result = accept_summary(&state, end, text, interrupted);
                assert(summary_outcome(
                    state@,
                    end as nat,
                    text@,
                    interrupted,
                    accepted_view(result),
                ));
                match result {
                    Err(error) => rest.fail(error),
                    Ok(summary) => {
                        let checked = summary.clone();
                        (
                            rest.wait(CompactionPhase::Checking(state, summary)),
                            CompactionAction::Check(checked),
                        )
                    },
                }
            },
            (_, _) => rest.fail(AgentError::Interrupted),
        }
    }

    /// Goes on with the check of the model input with the summary.
    pub fn checked(self, check: AgentResult<()>, interrupted: bool) -> (next: (
        Compaction,
        CompactionAction,
    ))
        requires
            self@.phase is Checking,
        ensures
            checked_step(self@, check_view(check), interrupted, next.0@, next.1@),
            next.0@.well_formed(),
    {
        let Compaction { keep_recent_turns, overflow, phase } = self;
        let automatic = overflow.is_some();
        let rest = Compaction { keep_recent_turns, overflow, phase: CompactionPhase::Planning };
        if let Err(error) = check {
            return rest.fail(error);
        }
        if interrupted && automatic {
            return rest.fail(AgentError::Interrupted);
        }
        match phase {
            CompactionPhase::Checking(state, summary) => (
                rest.wait(CompactionPhase::Comparing(state, summary)),
                CompactionAction::Compare,
            ),
            _ => rest.fail(AgentError::Interrupted),
        }
    }

    /// Goes on after the state was compared with the one that was summarized.
    pub fn compared(self, changed: bool) -> (next: (Compaction, CompactionAction))
        requires
            self@.phase is Comparing,
        ensures
            compared_step(self@, changed, next.0@, next.1@),
            next.0@.well_formed(),
    {
        let Compaction { keep_recent_turns, overflow, phase } = self;
        let rest = Compaction { keep_recent_turns, overflow, phase: CompactionPhase::Planning };
        if changed {
            return rest.fail(AgentError::Summary(SummaryError::StaleSource));
        }
        match phase {
            CompactionPhase::Comparing(state, summary) => {
                let kept = summary.clone();
                (
                    rest.wait(CompactionPhase::Saving(summary)),
                    CompactionAction::Save(state.with_context_summary(Some(kept))),
                )
            },
            _ => rest.fail(AgentError::Interrupted),
        }
    }

    /// Is over after the state was saved, or could not be.
    pub fn saved(self, saved: AgentResult<()>) -> (next: (Compaction, CompactionAction))
        requires
            self@.phase is Saving,
        ensures
            saved_step(self@, check_view(saved), next.0@, next.1@),
    {
        let Compaction { keep_recent_turns, overflow, phase } = self;
        let rest = Compaction { keep_recent_turns, overflow, phase: CompactionPhase::Planning };
        if let Err(error) = saved {
            return rest.fail(error);
        }
        match phase {
            CompactionPhase::Saving(summary) => (
                rest.wait(CompactionPhase::Over),
                CompactionAction::Install(summary),
            ),
            _ => rest.fail(AgentError::Interrupted),
        }
    }
}

/// A summary is installed only after the state with it was saved, and the saved
/// state differs from the summarized one by the summary alone.
pub proof fn summaries_are_saved_before_use(
    comparing: CompactionView,
    saving: CompactionView,
    over: CompactionView,
    state: StateView,
    saved: Result<(), AgentErrorView>,
    summary: SummaryView,
)
    requires
        compared_step(comparing, false, saving, CompactionActionView::Save(state)),
        saved_step(saving, saved, over, CompactionActionView::Install(summary)),
    ensures
        saved is Ok,
        state.context_summary == Some(summary),
        comparing.phase matches CompactionPhaseView::Comparing(original, _) && state == (
        StateView { context_summary: Some(summary), ..original }),
{
}

} // verus!
