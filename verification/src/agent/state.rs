//! Versioned agent state snapshots.
use vstd::prelude::*;

use super::confirmation::{ExecutionView, PendingToolCalls, PendingToolExecution, PendingView};
use crate::context::summary::{ContextSummary, SummaryView};
use crate::message::msg::{Msg, MsgView};
use crate::view::{view_option, views};

verus! {

/// The state format version emitted by this crate.
pub const AGENT_STATE_VERSION: u32 = 4;

/// A complete, restartable snapshot of one agent's conversation state.
///
/// Runtime-only controls such as interruption handles are deliberately left out.
/// Restore a snapshot only while no reply is running on the target agent.
#[derive(Debug, PartialEq, Eq)]
pub struct AgentState {
    pub(crate) format_version: u32,
    pub(crate) agent_name: String,
    pub(crate) messages: Vec<Msg>,
    pub(crate) pending_tool_calls: Option<PendingToolCalls>,
    pub(crate) pending_tool_execution: Option<PendingToolExecution>,
    pub(crate) context_summary: Option<ContextSummary>,
}

/// What a snapshot holds.
#[verifier::ext_equal]
pub struct StateView {
    pub format_version: u32,
    pub agent_name: Seq<char>,
    pub messages: Seq<MsgView>,
    pub pending_tool_calls: Option<PendingView>,
    pub pending_tool_execution: Option<ExecutionView>,
    pub context_summary: Option<SummaryView>,
}

impl View for AgentState {
    type V = StateView;

    open(crate) spec fn view(&self) -> StateView {
        StateView {
            format_version: self.format_version,
            agent_name: self.agent_name@,
            messages: views(self.messages@),
            pending_tool_calls: view_option(self.pending_tool_calls),
            pending_tool_execution: view_option(self.pending_tool_execution),
            context_summary: view_option(self.context_summary),
        }
    }
}

impl Clone for AgentState {
    fn clone(&self) -> (copied: AgentState)
        ensures
            copied@ == self@,
    {
        let messages = self.messages.clone();
        assert(views(messages@) =~= views(self.messages@));
        AgentState {
            format_version: self.format_version,
            agent_name: self.agent_name.clone(),
            messages,
            pending_tool_calls: match &self.pending_tool_calls {
                Some(pending) => Some(pending.clone()),
                None => None,
            },
            pending_tool_execution: match &self.pending_tool_execution {
                Some(pending) => Some(pending.clone()),
                None => None,
            },
            context_summary: match &self.context_summary {
                Some(summary) => Some(summary.clone()),
                None => None,
            },
        }
    }
}

/// A snapshot in the current format without checkpoints or summary.
pub open spec fn plain_state(agent_name: Seq<char>, messages: Seq<MsgView>) -> StateView {
    StateView {
        format_version: AGENT_STATE_VERSION,
        agent_name,
        messages,
        pending_tool_calls: None,
        pending_tool_execution: None,
        context_summary: None,
    }
}

impl AgentState {
    /// Creates a snapshot in the current format.
    pub fn new(agent_name: &str, messages: Vec<Msg>) -> (state: AgentState)
        ensures
            state@ == plain_state(agent_name@, views(messages@)),
    {
        AgentState {
            format_version: AGENT_STATE_VERSION,
            agent_name: agent_name.to_owned(),
            messages,
            pending_tool_calls: None,
            pending_tool_execution: None,
            context_summary: None,
        }
    }

    /// A snapshot from its stored parts, in whatever format.
    pub fn from_parts(
        format_version: u32,
        agent_name: String,
        messages: Vec<Msg>,
        pending_tool_calls: Option<PendingToolCalls>,
        pending_tool_execution: Option<PendingToolExecution>,
        context_summary: Option<ContextSummary>,
    ) -> (state: AgentState)
        ensures
            state@ == (StateView {
                format_version,
                agent_name: agent_name@,
                messages: views(messages@),
                pending_tool_calls: view_option(pending_tool_calls),
                pending_tool_execution: view_option(pending_tool_execution),
                context_summary: view_option(context_summary),
            }),
    {
        AgentState {
            format_version,
            agent_name,
            messages,
            pending_tool_calls,
            pending_tool_execution,
            context_summary,
        }
    }

    /// The state format version.
    pub fn format_version(&self) -> (version: u32)
        ensures
            version == self@.format_version,
    {
        self.format_version
    }

    /// The name of the agent that created this snapshot.
    pub fn agent_name(&self) -> (name: &str)
        ensures
            name@ == self@.agent_name,
    {
        self.agent_name.as_str()
    }

    /// The conversation history in chronological order.
    pub fn messages(&self) -> (messages: &Vec<Msg>)
        ensures
            views(messages@) == self@.messages,
    {
        &self.messages
    }

    /// The tool calls awaiting human confirmation, when paused.
    pub fn pending_tool_calls(&self) -> (pending: Option<&PendingToolCalls>)
        ensures
            view_option(pending) == self@.pending_tool_calls,
    {
        match &self.pending_tool_calls {
            Some(pending) => Some(pending),
            None => None,
        }
    }

    /// The tool calls whose execution may have begun.
    pub fn pending_tool_execution(&self) -> (pending: Option<&PendingToolExecution>)
        ensures
            view_option(pending) == self@.pending_tool_execution,
    {
        match &self.pending_tool_execution {
            Some(pending) => Some(pending),
            None => None,
        }
    }

    /// The summary of a prefix of the history.
    pub fn context_summary(&self) -> (summary: Option<&ContextSummary>)
        ensures
            view_option(summary) == self@.context_summary,
    {
        match &self.context_summary {
            Some(summary) => Some(summary),
            None => None,
        }
    }

    /// The same with other calls awaiting confirmation.
    pub fn with_pending_tool_calls(self, pending: Option<PendingToolCalls>) -> (state: AgentState)
        ensures
            state@ == (StateView { pending_tool_calls: view_option(pending), ..self@ }),
    {
        let mut state = self;
        state.pending_tool_calls = pending;
        state
    }

    /// The same with another execution checkpoint.
    pub fn with_pending_tool_execution(self, pending: Option<PendingToolExecution>) -> (state:
        AgentState)
        ensures
            state@ == (StateView { pending_tool_execution: view_option(pending), ..self@ }),
    {
        let mut state = self;
        state.pending_tool_execution = pending;
        state
    }

    /// The same with another summary.
    pub fn with_context_summary(self, summary: Option<ContextSummary>) -> (state: AgentState)
        ensures
            state@ == (StateView { context_summary: view_option(summary), ..self@ }),
    {
        let mut state = self;
        state.context_summary = summary;
        state
    }

    /// The history, the checkpoints and the summary.
    pub fn into_parts(self) -> (parts: (
        Vec<Msg>,
        Option<PendingToolCalls>,
        Option<PendingToolExecution>,
        Option<ContextSummary>,
    ))
        ensures
            views(parts.0@) == self@.messages,
            view_option(parts.1) == self@.pending_tool_calls,
            view_option(parts.2) == self@.pending_tool_execution,
            view_option(parts.3) == self@.context_summary,
    {
        (
            self.messages,
            self.pending_tool_calls,
            self.pending_tool_execution,
            self.context_summary,
        )
    }
}

} // verus!
