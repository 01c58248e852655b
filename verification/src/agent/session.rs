//! What an operation on a stored session takes from the store and gives back.
use vstd::prelude::*;

use super::confirmation::{ExecutionView, PendingToolCalls, PendingToolExecution, PendingView};
use super::error::{AgentError, AgentErrorView, AgentResult};
use super::event::{AgentEvent, AgentEventView};
use super::hook::{AgentHookError, AgentHookEvent, HookEventView};
use super::react::{state_fault, AgentView, ReActAgent};
use super::state::{plain_state, AgentState, StateView, AGENT_STATE_VERSION};
use super::store::{RecordView, StateRecord};
use crate::context::summary::{summary_fault, ContextSummary, SummaryView};
use crate::memory::MemoryError;
use crate::message::msg::{Msg, MsgView};
use crate::view::{view_option, views};

verus! {

/// What stops a snapshot from being restored, if anything.
pub open spec fn restore_fault(agent: AgentView, state: StateView) -> Option<AgentErrorView> {
    match state_fault(agent, state) {
        Some(fault) => Some(fault),
        None => match state.context_summary {
            None => None,
            Some(summary) => match summary_fault(summary, state.messages) {
                Some(fault) => Some(AgentErrorView::Summary(fault)),
                None => None,
            },
        },
    }
}

/// What an agent remembers: the conversation, its checkpoints and the summary in
/// use.
#[derive(Debug, PartialEq, Eq)]
pub struct Session {
    /// The conversation in chronological order.
    pub messages: Vec<Msg>,
    /// The tool calls awaiting human confirmation.
    pub pending_tool_calls: Option<PendingToolCalls>,
    /// The tool calls whose execution may have begun.
    pub pending_tool_execution: Option<PendingToolExecution>,
    /// The summary of a prefix of the conversation.
    pub context_summary: Option<ContextSummary>,
}

/// What an agent remembers, by the views.
#[verifier::ext_equal]
pub struct SessionView {
    pub messages: Seq<MsgView>,
    pub pending_tool_calls: Option<PendingView>,
    pub pending_tool_execution: Option<ExecutionView>,
    pub context_summary: Option<SummaryView>,
}

impl View for Session {
    type V = SessionView;

    open spec fn view(&self) -> SessionView {
        SessionView {
            messages: views(self.messages@),
            pending_tool_calls: view_option(self.pending_tool_calls),
            pending_tool_execution: view_option(self.pending_tool_execution),
            context_summary: view_option(self.context_summary),
        }
    }
}

/// What an agent remembers, as a snapshot in the current format.
pub open spec fn snapshot_of(agent: AgentView, session: SessionView) -> StateView {
    StateView {
        pending_tool_calls: session.pending_tool_calls,
        pending_tool_execution: session.pending_tool_execution,
        context_summary: session.context_summary,
        ..plain_state(agent.name, session.messages)
    }
}

/// The snapshot of an agent, which needs memory.
pub open spec fn snapshot_taken(agent: AgentView, session: SessionView) -> Result<
    StateView,
    AgentErrorView,
> {
    if agent.has_memory {
        Ok(snapshot_of(agent, session))
    } else {
        Err(AgentErrorView::MemoryNotConfigured)
    }
}

/// What an agent is to remember once a snapshot is restored, or why it is refused.
pub open spec fn restored(agent: AgentView, state: StateView) -> Result<
    SessionView,
    AgentErrorView,
> {
    match restore_fault(agent, state) {
        Some(fault) => Err(fault),
        None => if agent.has_memory {
            Ok(
                SessionView {
                    messages: state.messages,
                    pending_tool_calls: state.pending_tool_calls,
                    pending_tool_execution: state.pending_tool_execution,
                    context_summary: state.context_summary,
                },
            )
        } else {
            Err(AgentErrorView::MemoryNotConfigured)
        },
    }
}

/// What an agent remembers after it was asked to restore a snapshot: what it
/// remembered before, where the snapshot is refused.
pub open spec fn after_restore(
    agent: AgentView,
    session: SessionView,
    state: StateView,
) -> SessionView {
    match restored(agent, state) {
        Ok(replacement) => replacement,
        Err(_) => session,
    }
}

/// What an operation begins with: the revision that was loaded, and what the agent
/// is to remember from then on.
pub open spec fn session_start(agent: AgentView, record: Option<RecordView>) -> Result<
    (Option<u64>, Option<SessionView>),
    AgentErrorView,
> {
    if !agent.has_memory {
        Err(AgentErrorView::MemoryNotConfigured)
    } else {
        match record {
            None => Ok((None, None)),
            Some(record) => match restored(agent, record.state) {
                Err(fault) => Err(fault),
                Ok(session) => Ok((Some(record.revision), Some(session))),
            },
        }
    }
}

impl ReActAgent {
    /// Fails where the agent has no memory.
    pub fn require_memory(&self) -> (result: AgentResult<()>)
        ensures
            match result {
                Ok(()) => self@.has_memory,
                Err(error) => !self@.has_memory && error@ == AgentErrorView::MemoryNotConfigured,
            },
    {
        if self.has_memory() {
            Ok(())
        } else {
            Err(AgentError::MemoryNotConfigured)
        }
    }

    fn check_restore(&self, state: &AgentState) -> (result: AgentResult<()>)
        ensures
            match result {
                Ok(()) => restore_fault(self@, state@) is None,
                Err(error) => restore_fault(self@, state@) == Some(error@),
            },
    {
        if let Err(error) = self.validate_state(state) {
            return Err(error);
        }
        if let Some(summary) = state.context_summary() {
            if let Err(error) = summary.validate(state.messages().as_slice()) {
                return Err(AgentError::Summary(error));
            }
        }
        Ok(())
    }

    /// Validates a snapshot and gives what the agent is to remember instead of what
    /// it does. A refused snapshot gives nothing.
    pub fn restore(&self, state: AgentState) -> (result: AgentResult<Session>)
        ensures
            match (result, restored(self@, state@)) {
                (Ok(session), Ok(expected)) => session@ == expected,
                (Err(error), Err(fault)) => error@ == fault,
                _ => false,
            },
    {
        if let Err(error) = self.check_restore(&state) {
            return Err(error);
        }
        if let Err(error) = self.require_memory() {
            return Err(error);
        }
        let (messages, pending_tool_calls, pending_tool_execution, context_summary) =
            state.into_parts();
        Ok(
            Session { messages, pending_tool_calls, pending_tool_execution, context_summary },
        )
    }

    /// Takes a loaded record: the revision to save over, and what the agent is to
    /// remember from then on.
    pub fn begin_session(&self, record: Option<StateRecord>) -> (result: AgentResult<
        (Option<u64>, Option<Session>),
    >)
        ensures
            match (result, session_start(self@, view_option(record))) {
                (Ok(start), Ok(expected)) => start.0 == expected.0 && view_option(start.1)
                    == expected.1,
                (Err(error), Err(fault)) => error@ == fault,
                _ => false,
            },
    {
        if let Err(error) = self.require_memory() {
            return Err(error);
        }
        match record {
            None => Ok((None, None)),
            Some(record) => {
                let revision = record.revision();
                match self.restore(record.into_state()) {
                    Err(error) => Err(error),
                    Ok(session) => Ok((Some(revision), Some(session))),
                }
            },
        }
    }

    /// A snapshot of what the agent remembers, which needs memory.
    pub fn snapshot(&self, session: Session) -> (result: AgentResult<AgentState>)
        ensures
            match (result, snapshot_taken(self@, session@)) {
                (Ok(state), Ok(expected)) => state@ == expected,
                (Err(error), Err(fault)) => error@ == fault,
                _ => false,
            },
    {
        if let Err(error) = self.require_memory() {
            return Err(error);
        }
        Ok(
            AgentState::new(self.name(), session.messages).with_pending_tool_calls(
                session.pending_tool_calls,
            ).with_pending_tool_execution(session.pending_tool_execution).with_context_summary(
                session.context_summary,
            ),
        )
    }
}

/// The terminal event of a stream once the state was saved, or could not be.
pub fn event_after_save(event: AgentEvent, saved: AgentResult<()>) -> (emitted: AgentEvent)
    ensures
        emitted@ == match saved {
            Ok(()) => event@,
            Err(error) => AgentEventView::Error { step: None, error: error@ },
        },
{
    match saved {
        Ok(()) => event,
        Err(error) => AgentEvent::Error { step: None, error },
    }
}

/// The steps of an observation that is stored without calling the model.
#[derive(Debug)]
pub enum Observe {
    /// The hooks, before the message is stored.
    Announcing(Msg),
    /// The memory, for the message.
    Storing(Msg),
    /// The hooks, after the message was stored.
    Reporting,
    /// Nothing: it is over.
    Over,
}

/// What the steps of an observation hold.
#[verifier::ext_equal]
pub enum ObserveView {
    Announcing(MsgView),
    Storing(MsgView),
    Reporting,
    Over,
}

impl View for Observe {
    type V = ObserveView;

    open spec fn view(&self) -> ObserveView {
        match self {
            Observe::Announcing(msg) => ObserveView::Announcing(msg@),
            Observe::Storing(msg) => ObserveView::Storing(msg@),
            Observe::Reporting => ObserveView::Reporting,
            Observe::Over => ObserveView::Over,
        }
    }
}

/// What an observation asks its driver to do.
#[derive(Debug)]
pub enum ObserveAction {
    /// Notify the hooks of an event.
    Notify(AgentHookEvent),
    /// Append a message to memory.
    Remember(Msg),
    /// The observation is over.
    Return(AgentResult<()>),
}

/// What an action holds.
#[verifier::ext_equal]
pub enum ObserveActionView {
    Notify(HookEventView),
    Remember(MsgView),
    Return(Result<(), AgentErrorView>),
}

impl View for ObserveAction {
    type V = ObserveActionView;

    open spec fn view(&self) -> ObserveActionView {
        match self {
            ObserveAction::Notify(event) => ObserveActionView::Notify(event@),
            ObserveAction::Remember(msg) => ObserveActionView::Remember(msg@),
            ObserveAction::Return(result) => ObserveActionView::Return(
                match result {
                    Ok(()) => Ok(()),
                    Err(error) => Err(error@),
                },
            ),
        }
    }
}

impl Observe {
    /// Begins to observe a message, which needs memory.
    pub fn open(agent: &ReActAgent, message: Msg) -> (next: (Observe, ObserveAction))
        ensures
            if agent@.has_memory {
                &&& next.0@ == ObserveView::Announcing(message@)
                &&& next.1@ == ObserveActionView::Notify(HookEventView::BeforeObserve(message@))
            } else {
                &&& next.0@ == ObserveView::Over
                &&& next.1@ == ObserveActionView::Return(
                    Err::<(), _>(AgentErrorView::MemoryNotConfigured),
                )
            },
    {
        if !agent.has_memory() {
            return (Observe::Over, ObserveAction::Return(Err(AgentError::MemoryNotConfigured)));
        }
        let told = message.clone();
        (
            Observe::Announcing(message),
            ObserveAction::Notify(AgentHookEvent::BeforeObserve { message: told }),
        )
    }

    /// Goes on after the hooks were notified.
    pub fn notified(self, result: Result<(), AgentHookError>) -> (next: (Observe, ObserveAction))
        requires
            self@ is Announcing || self@ is Reporting,
        ensures
            match result {
                Err(error) => next.0@ == ObserveView::Over && next.1@ == ObserveActionView::Return(
                    Err::<(), _>(AgentErrorView::Hook(error@)),
                ),
                Ok(()) => match self@ {
                    ObserveView::Announcing(msg) => next.0@ == ObserveView::Storing(msg)
                        && next.1@ == ObserveActionView::Remember(msg),
                    _ => next.0@ == ObserveView::Over && next.1@ == ObserveActionView::Return(
                        Ok::<_, AgentErrorView>(()),
                    ),
                },
            },
    {
        if let Err(error) = result {
            return (Observe::Over, ObserveAction::Return(Err(AgentError::Hook(error))));
        }
        match self {
            Observe::Announcing(message) => {
                let remembered = message.clone();
                (Observe::Storing(message), ObserveAction::Remember(remembered))
            },
            _ => (Observe::Over, ObserveAction::Return(Ok(()))),
        }
    }

    /// Goes on after the message was stored.
    pub fn remembered(self, result: Result<(), MemoryError>) -> (next: (Observe, ObserveAction))
        requires
            self@ is Storing,
        ensures
            match result {
                Err(error) => next.0@ == ObserveView::Over && next.1@ == ObserveActionView::Return(
                    Err::<(), _>(AgentErrorView::Memory(error@)),
                ),
                Ok(()) => next.0@ == ObserveView::Reporting && next.1@
                    == ObserveActionView::Notify(
                    HookEventView::AfterObserve(self@->Storing_0),
                ),
            },
    {
        if let Err(error) = result {
            return (Observe::Over, ObserveAction::Return(Err(AgentError::Memory(error))));
        }
        match self {
            Observe::Storing(message) => (
                Observe::Reporting,
                ObserveAction::Notify(AgentHookEvent::AfterObserve { message }),
            ),
            _ => (Observe::Over, ObserveAction::Return(Ok(()))),
        }
    }
}

/// A snapshot without checkpoints is restored by every agent with its name and with
/// memory, where the summary is valid: the agent then remembers what the first one
/// did, whatever it remembered before, and its own snapshot is the same.
pub proof fn snapshots_are_restored(
    source: AgentView,
    target: AgentView,
    session: SessionView,
    before: SessionView,
)
    requires
        target.name == source.name,
        target.has_memory,
        session.pending_tool_calls is None,
        session.pending_tool_execution is None,
        session.context_summary matches Some(known) ==> summary_fault(known, session.messages)
            is None,
    ensures
        restored(target, snapshot_of(source, session)) == Ok::<_, AgentErrorView>(session),
        snapshot_taken(target, after_restore(target, before, snapshot_of(source, session))) == Ok::<
            _,
            AgentErrorView,
        >(snapshot_of(source, session)),
{
    let state = snapshot_of(source, session);
    assert(restore_fault(target, state) is None);
    assert(restored(target, state)->Ok_0 =~= session);
}

/// Whatever an agent restores, checkpoints too, its next snapshot holds again, in the
/// current format.
pub proof fn restored_states_are_snapshotted(
    agent: AgentView,
    before: SessionView,
    state: StateView,
)
    requires
        restored(agent, state) is Ok,
    ensures
        snapshot_taken(agent, after_restore(agent, before, state)) == Ok::<_, AgentErrorView>(
            StateView { format_version: AGENT_STATE_VERSION, ..state },
        ),
{
    assert(snapshot_of(agent, after_restore(agent, before, state)) =~= StateView {
        format_version: AGENT_STATE_VERSION,
        ..state
    });
}

/// A snapshot in an unknown format is refused for its format, another agent's for
/// its name, and a refused snapshot changes nothing: the next snapshot is the one
/// that would have been taken before.
pub proof fn refused_snapshots_change_nothing(
    agent: AgentView,
    before: SessionView,
    state: StateView,
)
    requires
        !(1 <= state.format_version <= AGENT_STATE_VERSION) || state.agent_name != agent.name,
    ensures
        restored(agent, state) == Err::<SessionView, _>(
            if !(1 <= state.format_version <= AGENT_STATE_VERSION) {
                AgentErrorView::UnsupportedStateVersion {
                    found: state.format_version,
                    supported: AGENT_STATE_VERSION,
                }
            } else {
                AgentErrorView::StateAgentMismatch {
                    expected: agent.name,
                    found: state.agent_name,
                }
            },
        ),
        after_restore(agent, before, state) == before,
        snapshot_taken(agent, after_restore(agent, before, state)) == snapshot_taken(
            agent,
            before,
        ),
{
}

/// A refused record restores nothing: an operation begins with what a record holds
/// only where the agent can restore it.
pub proof fn sessions_start_from_valid_states(agent: AgentView, record: Option<RecordView>)
    ensures
        match session_start(agent, record) {
            Ok((revision, Some(session))) => record matches Some(known) && restore_fault(
                agent,
                known.state,
            ) is None && restored(agent, known.state) == Ok::<_, AgentErrorView>(session)
                && revision == Some(known.revision),
            _ => true,
        },
{
}

} // verus!
