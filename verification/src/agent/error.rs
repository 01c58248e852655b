//! Configuration and runtime agent failures.
use vstd::prelude::*;

use super::confirmation::{ExecutionView, PendingToolCalls, PendingToolExecution, PendingView};
use super::hook::{AgentHookError, HookErrorView};
use super::store::{StateStoreError, StoreErrorView};
use crate::context::budget::{budget_error_text, BudgetErrorView, TokenBudgetError};
use crate::context::summary::{
    quote, quoted, summary_error_text, SummaryError, SummaryErrorView,
};
use crate::memory::{MemoryError, MemoryErrorView};
use crate::model::accumulator::{stream_error_text, ChatStreamError, StreamErrorView};
use crate::model::event::{coded_text, ModelError, ModelErrorView};
use crate::text::{append, concat2, concat3, decimal, decimal_text};
use crate::tool::{ToolError, ToolErrorView};

verus! {

/// Result returned by an agent operation.
pub type AgentResult<T> = Result<T, AgentError>;

/// A configuration or runtime agent failure.
#[derive(Debug, PartialEq, Eq)]
pub enum AgentError {
    /// The configured agent name was empty.
    EmptyName,
    /// The configured model/tool iteration limit was zero.
    ZeroMaxSteps,
    /// The model failed.
    Model(ModelError),
    /// Tool execution infrastructure failed.
    Tool(ToolError),
    /// Conversation memory failed.
    Memory(MemoryError),
    /// An operation that requires conversation memory had none configured.
    MemoryNotConfigured,
    /// Execution paused until explicit decisions are supplied for tool calls.
    ToolConfirmationRequired {
        /// The persisted checkpoint needed to resume safely.
        checkpoint: PendingToolCalls,
    },
    /// No tool-confirmation checkpoint exists for this session.
    NoPendingToolConfirmation,
    /// Confirmation input did not match the persisted checkpoint.
    InvalidToolConfirmation(String),
    /// Approved tools may have run, and their results are not known.
    ToolExecutionInDoubt {
        /// The persisted checkpoint needed to retry or resolve.
        checkpoint: PendingToolExecution,
    },
    /// No execution checkpoint exists for this session.
    NoPendingToolExecution,
    /// Supplied results did not match the persisted execution.
    InvalidToolExecutionResolution(String),
    /// Per-session agent state could not be loaded or saved.
    StateStore(StateStoreError),
    /// The state snapshot uses a format this crate cannot restore.
    UnsupportedStateVersion {
        /// The version found in the snapshot.
        found: u32,
        /// The latest version supported by this crate.
        supported: u32,
    },
    /// The state snapshot belongs to a differently named agent.
    StateAgentMismatch {
        /// The target agent name.
        expected: String,
        /// The agent name stored in the snapshot.
        found: String,
    },
    /// A lifecycle hook failed.
    Hook(AgentHookError),
    /// Context compaction failed.
    Summary(SummaryError),
    /// A request does not fit the token budget.
    TokenBudget(TokenBudgetError),
    /// The caller interrupted the in-flight agent operation.
    Interrupted,
    /// The model produced a response that cannot drive the agent loop.
    InvalidModelResponse(String),
    /// The model continued requesting tools after the configured limit.
    MaxStepsExceeded {
        /// The configured maximum number of model calls.
        max_steps: usize,
    },
}

/// What an agent failure holds.
#[verifier::ext_equal]
pub enum AgentErrorView {
    EmptyName,
    ZeroMaxSteps,
    Model(ModelErrorView),
    Tool(ToolErrorView),
    Memory(MemoryErrorView),
    MemoryNotConfigured,
    ToolConfirmationRequired(PendingView),
    NoPendingToolConfirmation,
    InvalidToolConfirmation(Seq<char>),
    ToolExecutionInDoubt(ExecutionView),
    NoPendingToolExecution,
    InvalidToolExecutionResolution(Seq<char>),
    StateStore(StoreErrorView),
    UnsupportedStateVersion { found: u32, supported: u32 },
    StateAgentMismatch { expected: Seq<char>, found: Seq<char> },
    Hook(HookErrorView),
    Summary(SummaryErrorView),
    TokenBudget(BudgetErrorView),
    Interrupted,
    InvalidModelResponse(Seq<char>),
    MaxStepsExceeded { max_steps: usize },
}

impl View for AgentError {
    type V = AgentErrorView;

    open spec fn view(&self) -> AgentErrorView {
        match self {
            AgentError::EmptyName => AgentErrorView::EmptyName,
            AgentError::ZeroMaxSteps => AgentErrorView::ZeroMaxSteps,
            AgentError::Model(error) => AgentErrorView::Model(error@),
            AgentError::Tool(error) => AgentErrorView::Tool(error@),
            AgentError::Memory(error) => AgentErrorView::Memory(error@),
            AgentError::MemoryNotConfigured => AgentErrorView::MemoryNotConfigured,
            AgentError::ToolConfirmationRequired { checkpoint } => AgentErrorView::ToolConfirmationRequired(
                checkpoint@,
            ),
            AgentError::NoPendingToolConfirmation => AgentErrorView::NoPendingToolConfirmation,
            AgentError::InvalidToolConfirmation(message) => AgentErrorView::InvalidToolConfirmation(
                message@,
            ),
            AgentError::ToolExecutionInDoubt { checkpoint } => AgentErrorView::ToolExecutionInDoubt(
                checkpoint@,
            ),
            AgentError::NoPendingToolExecution => AgentErrorView::NoPendingToolExecution,
            AgentError::InvalidToolExecutionResolution(message) => AgentErrorView::InvalidToolExecutionResolution(
                message@,
            ),
            AgentError::StateStore(error) => AgentErrorView::StateStore(error@),
            AgentError::UnsupportedStateVersion { found, supported } => AgentErrorView::UnsupportedStateVersion {
                found: *found,
                supported: *supported,
            },
            AgentError::StateAgentMismatch { expected, found } => AgentErrorView::StateAgentMismatch {
                expected: expected@,
                found: found@,
            },
            AgentError::Hook(error) => AgentErrorView::Hook(error@),
            AgentError::Summary(error) => AgentErrorView::Summary(error@),
            AgentError::TokenBudget(error) => AgentErrorView::TokenBudget(error@),
            AgentError::Interrupted => AgentErrorView::Interrupted,
            AgentError::InvalidModelResponse(message) => AgentErrorView::InvalidModelResponse(
                message@,
            ),
            AgentError::MaxStepsExceeded { max_steps } => AgentErrorView::MaxStepsExceeded {
                max_steps: *max_steps,
            },
        }
    }
}

impl Clone for AgentError {
    fn clone(&self) -> (copied: AgentError)
        ensures
            copied@ == self@,
    {
        match self {
            AgentError::EmptyName => AgentError::EmptyName,
            AgentError::ZeroMaxSteps => AgentError::ZeroMaxSteps,
            AgentError::Model(error) => AgentError::Model(error.clone()),
            AgentError::Tool(error) => AgentError::Tool(error.clone()),
            AgentError::Memory(error) => AgentError::Memory(error.clone()),
            AgentError::MemoryNotConfigured => AgentError::MemoryNotConfigured,
            AgentError::ToolConfirmationRequired { checkpoint } => AgentError::ToolConfirmationRequired {
                checkpoint: checkpoint.clone(),
            },
            AgentError::NoPendingToolConfirmation => AgentError::NoPendingToolConfirmation,
            AgentError::InvalidToolConfirmation(message) => AgentError::InvalidToolConfirmation(
                message.clone(),
            ),
            AgentError::ToolExecutionInDoubt { checkpoint } => AgentError::ToolExecutionInDoubt {
                checkpoint: checkpoint.clone(),
            },
            AgentError::NoPendingToolExecution => AgentError::NoPendingToolExecution,
            AgentError::InvalidToolExecutionResolution(message) => AgentError::InvalidToolExecutionResolution(
                message.clone(),
            ),
            AgentError::StateStore(error) => AgentError::StateStore(error.clone()),
            AgentError::UnsupportedStateVersion { found, supported } => AgentError::UnsupportedStateVersion {
                found: *found,
                supported: *supported,
            },
            AgentError::StateAgentMismatch { expected, found } => AgentError::StateAgentMismatch {
                expected: expected.clone(),
                found: found.clone(),
            },
            AgentError::Hook(error) => AgentError::Hook(error.clone()),
            AgentError::Summary(error) => AgentError::Summary(error.clone()),
            AgentError::TokenBudget(error) => AgentError::TokenBudget(error.clone()),
            AgentError::Interrupted => AgentError::Interrupted,
            AgentError::InvalidModelResponse(message) => AgentError::InvalidModelResponse(
                message.clone(),
            ),
            AgentError::MaxStepsExceeded { max_steps } => AgentError::MaxStepsExceeded {
                max_steps: *max_steps,
            },
        }
    }
}

/// What an agent failure says.
pub open spec fn agent_error_text(error: AgentErrorView) -> Seq<char> {
    match error {
        AgentErrorView::EmptyName => "agent name cannot be empty"@,
        AgentErrorView::ZeroMaxSteps => "agent max_steps must be greater than zero"@,
        AgentErrorView::Model(error) => "agent model failed: "@ + coded_text(
            "model error"@,
            error.code,
            error.message,
        ),
        AgentErrorView::Tool(error) => "agent tool execution failed: "@ + coded_text(
            "tool error"@,
            error.code,
            error.message,
        ),
        AgentErrorView::Memory(error) => "agent memory failed: "@ + coded_text(
            "memory error"@,
            error.code,
            error.message,
        ),
        AgentErrorView::MemoryNotConfigured => "agent operation requires configured conversation memory"@,
        AgentErrorView::ToolConfirmationRequired(checkpoint) => "agent is waiting for confirmation of reply "@
            + checkpoint.reply_id,
        AgentErrorView::NoPendingToolConfirmation => "agent has no pending tool confirmation"@,
        AgentErrorView::InvalidToolConfirmation(message) => "invalid tool confirmation: "@
            + message,
        AgentErrorView::ToolExecutionInDoubt(checkpoint) => "tool execution of reply "@
            + checkpoint.confirmation.reply_id + " is in doubt"@,
        AgentErrorView::NoPendingToolExecution => "agent has no pending tool execution"@,
        AgentErrorView::InvalidToolExecutionResolution(message) => "invalid tool execution resolution: "@
            + message,
        AgentErrorView::StateStore(error) => "agent state persistence failed: "@ + coded_text(
            "state store error"@,
            error.code,
            error.message,
        ),
        AgentErrorView::UnsupportedStateVersion { found, supported } => "unsupported agent state version "@
            + decimal_text(found as nat) + "; expected "@ + decimal_text(supported as nat),
        AgentErrorView::StateAgentMismatch { expected, found } => "agent state belongs to "@
            + quoted(found) + ", but target agent is "@ + quoted(expected),
        AgentErrorView::Hook(error) => "agent lifecycle hook failed: "@ + coded_text(
            "agent hook error"@,
            error.code,
            error.message,
        ),
        AgentErrorView::Summary(error) => summary_error_text(error),
        AgentErrorView::TokenBudget(error) => "agent token budget failed: "@ + budget_error_text(
            error,
        ),
        AgentErrorView::Interrupted => "agent operation was interrupted"@,
        AgentErrorView::InvalidModelResponse(message) => "invalid model response: "@ + message,
        AgentErrorView::MaxStepsExceeded { max_steps } => "agent exceeded its limit of "@
            + decimal_text(max_steps as nat) + " model calls"@,
    }
}

impl AgentError {
    /// What the error says.
    pub fn to_string(&self) -> (text: String)
        ensures
            text@ == agent_error_text(self@),
    {
        match self {
            AgentError::EmptyName => "agent name cannot be empty".to_owned(),
            AgentError::ZeroMaxSteps => "agent max_steps must be greater than zero".to_owned(),
            AgentError::Model(error) => concat2(
                "agent model failed: ",
                error.to_string().as_str(),
            ),
            AgentError::Tool(error) => concat2(
                "agent tool execution failed: ",
                error.to_string().as_str(),
            ),
            AgentError::Memory(error) => concat2(
                "agent memory failed: ",
                error.to_string().as_str(),
            ),
            AgentError::MemoryNotConfigured => "agent operation requires configured conversation memory".to_owned(),
            AgentError::ToolConfirmationRequired { checkpoint } => concat2(
                "agent is waiting for confirmation of reply ",
                checkpoint.reply_id(),
            ),
            AgentError::NoPendingToolConfirmation => "agent has no pending tool confirmation".to_owned(),
            AgentError::InvalidToolConfirmation(message) => concat2(
                "invalid tool confirmation: ",
                message.as_str(),
            ),
            AgentError::ToolExecutionInDoubt { checkpoint } => concat3(
                "tool execution of reply ",
                checkpoint.confirmation().reply_id(),
                " is in doubt",
            ),
            AgentError::NoPendingToolExecution => "agent has no pending tool execution".to_owned(),
            AgentError::InvalidToolExecutionResolution(message) => concat2(
                "invalid tool execution resolution: ",
                message.as_str(),
            ),
            AgentError::StateStore(error) => concat2(
                "agent state persistence failed: ",
                error.to_string().as_str(),
            ),
            AgentError::UnsupportedStateVersion { found, supported } => {
                let mut text = "unsupported agent state version ".to_owned();
                append(&mut text, decimal(*found as u64).as_str());
                append(&mut text, "; expected ");
                append(&mut text, decimal(*supported as u64).as_str());
                text
            },
            AgentError::StateAgentMismatch { expected, found } => {
                let mut text = "agent state belongs to ".to_owned();
                append(&mut text, quote(found.as_str()).as_str());
                append(&mut text, ", but target agent is ");
                append(&mut text, quote(expected.as_str()).as_str());
                text
            },
            AgentError::Hook(error) => concat2(
                "agent lifecycle hook failed: ",
                error.to_string().as_str(),
            ),
            AgentError::Summary(error) => error.to_string(),
            AgentError::TokenBudget(error) => concat2(
                "agent token budget failed: ",
                error.to_string().as_str(),
            ),
            AgentError::Interrupted => "agent operation was interrupted".to_owned(),
            AgentError::InvalidModelResponse(message) => concat2(
                "invalid model response: ",
                message.as_str(),
            ),
            AgentError::MaxStepsExceeded { max_steps } => concat3(
                "agent exceeded its limit of ",
                decimal(*max_steps as u64).as_str(),
                " model calls",
            ),
        }
    }
}

impl From<ModelError> for AgentError {
    fn from(error: ModelError) -> (converted: AgentError) {
        AgentError::Model(error)
    }
}

impl vstd::std_specs::convert::FromSpecImpl<ModelError> for AgentError {
    open spec fn obeys_from_spec() -> bool {
        true
    }

    open spec fn from_spec(error: ModelError) -> AgentError {
        AgentError::Model(error)
    }
}

impl From<ToolError> for AgentError {
    fn from(error: ToolError) -> (converted: AgentError) {
        AgentError::Tool(error)
    }
}

impl vstd::std_specs::convert::FromSpecImpl<ToolError> for AgentError {
    open spec fn obeys_from_spec() -> bool {
        true
    }

    open spec fn from_spec(error: ToolError) -> AgentError {
        AgentError::Tool(error)
    }
}

impl From<MemoryError> for AgentError {
    fn from(error: MemoryError) -> (converted: AgentError) {
        AgentError::Memory(error)
    }
}

impl vstd::std_specs::convert::FromSpecImpl<MemoryError> for AgentError {
    open spec fn obeys_from_spec() -> bool {
        true
    }

    open spec fn from_spec(error: MemoryError) -> AgentError {
        AgentError::Memory(error)
    }
}

impl From<StateStoreError> for AgentError {
    fn from(error: StateStoreError) -> (converted: AgentError) {
        AgentError::StateStore(error)
    }
}

impl vstd::std_specs::convert::FromSpecImpl<StateStoreError> for AgentError {
    open spec fn obeys_from_spec() -> bool {
        true
    }

    open spec fn from_spec(error: StateStoreError) -> AgentError {
        AgentError::StateStore(error)
    }
}

impl From<AgentHookError> for AgentError {
    fn from(error: AgentHookError) -> (converted: AgentError) {
        AgentError::Hook(error)
    }
}

impl vstd::std_specs::convert::FromSpecImpl<AgentHookError> for AgentError {
    open spec fn obeys_from_spec() -> bool {
        true
    }

    open spec fn from_spec(error: AgentHookError) -> AgentError {
        AgentError::Hook(error)
    }
}

/// The agent failure that a stream error becomes: the model's own failure, or an
/// invalid response.
pub open spec fn stream_failure(error: StreamErrorView) -> AgentErrorView {
    match error {
        StreamErrorView::Model(error) => AgentErrorView::Model(error),
        _ => AgentErrorView::InvalidModelResponse(stream_error_text(error)),
    }
}

impl From<ChatStreamError> for AgentError {
    fn from(error: ChatStreamError) -> (converted: AgentError)
        ensures
            converted@ == stream_failure(error@),
    {
        match error {
            ChatStreamError::Model(error) => AgentError::Model(error),
            error => AgentError::InvalidModelResponse(error.to_string()),
        }
    }
}

impl vstd::std_specs::convert::FromSpecImpl<ChatStreamError> for AgentError {
    open spec fn obeys_from_spec() -> bool {
        false
    }

    open spec fn from_spec(error: ChatStreamError) -> AgentError {
        arbitrary()
    }
}

} // verus!
