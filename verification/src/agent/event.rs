//! Provider-neutral streaming agent lifecycle events.
use vstd::prelude::*;

use super::confirmation::{PendingToolCalls, PendingView};
use super::error::{AgentError, AgentErrorView};
use crate::json::{Json, JsonView};
use crate::message::msg::{Msg, MsgView};
use crate::message::tool_call::{ToolCallBlock, ToolCallView};
use crate::message::tool_result::{ToolResultBlock, ToolResultView};
use crate::message::usage::Usage;
use crate::model::event::ChatEvent;
use crate::model::response::FinishReason;

verus! {

/// An incremental event emitted while an agent produces a reply.
///
/// `step` values are one-based model-call numbers within a single reply.
#[derive(Debug, PartialEq, Eq)]
pub enum AgentEvent {
    /// Incremental plain-text model content.
    TextDelta {
        /// The one-based model-call number.
        step: usize,
        /// The content block being updated.
        block_id: String,
        /// The text fragment to append.
        delta: String,
    },
    /// Incremental model reasoning content.
    ThinkingDelta {
        /// The one-based model-call number.
        step: usize,
        /// The content block being updated.
        block_id: String,
        /// The reasoning fragment to append.
        delta: String,
    },
    /// Incremental JSON arguments for a tool call.
    ToolCallDelta {
        /// The one-based model-call number.
        step: usize,
        /// The provider-assigned tool call identifier.
        tool_call_id: String,
        /// The tool being called.
        tool_name: String,
        /// The raw JSON fragment to append.
        delta: String,
    },
    /// Incremental JSON for a structured response.
    StructuredOutputDelta {
        /// The one-based model-call number.
        step: usize,
        /// The content block being updated.
        block_id: String,
        /// The JSON Schema requested from the model.
        schema: Json,
        /// The raw JSON fragment to append.
        delta: String,
    },
    /// Provider-reported token usage for one model call.
    Usage {
        /// The one-based model-call number.
        step: usize,
        /// Usage reported by the model provider.
        usage: Usage,
    },
    /// One model call completed and its output was accumulated.
    StepFinished {
        /// The one-based model-call number.
        step: usize,
        /// Why the model stopped generating.
        reason: FinishReason,
    },
    /// The agent is about to execute a complete tool call.
    ToolStarted {
        /// The model-call number that requested the tool.
        step: usize,
        /// The complete tool call being executed.
        call: ToolCallBlock,
    },
    /// A tool call produced a terminal result.
    ToolFinished {
        /// The model-call number that requested the tool.
        step: usize,
        /// The successful or failed tool result.
        result: ToolResultBlock,
    },
    /// The agent paused until tool calls are confirmed.
    ToolConfirmationRequired {
        /// The persisted checkpoint needed to resume safely.
        checkpoint: PendingToolCalls,
    },
    /// The agent began to summarize old history.
    ContextCompactionStarted {
        /// How many recent turns stay verbatim.
        keep_recent_turns: usize,
    },
    /// The agent summarized old history.
    ContextCompactionCompleted {
        /// How many messages the summary covers.
        covered_messages: usize,
    },
    /// The agent failed to summarize old history.
    ContextCompactionFailed {
        /// Why it failed.
        error: AgentError,
    },
    /// The agent completed its reply.
    Finished {
        /// The number of model calls used by this reply.
        steps: usize,
        /// The final assistant message.
        message: Msg,
    },
    /// The agent terminated with a structured error.
    Error {
        /// The active model-call number, when execution had started.
        step: Option<usize>,
        /// The terminal failure.
        error: AgentError,
    },
}

/// What an agent event holds.
#[verifier::ext_equal]
pub enum AgentEventView {
    TextDelta { step: usize, block_id: Seq<char>, delta: Seq<char> },
    ThinkingDelta { step: usize, block_id: Seq<char>, delta: Seq<char> },
    ToolCallDelta { step: usize, tool_call_id: Seq<char>, tool_name: Seq<char>, delta: Seq<char> },
    StructuredOutputDelta {
        step: usize,
        block_id: Seq<char>,
        schema: JsonView,
        delta: Seq<char>,
    },
    Usage { step: usize, usage: Usage },
    StepFinished { step: usize, reason: FinishReason },
    ToolStarted { step: nat, call: ToolCallView },
    ToolFinished { step: nat, result: ToolResultView },
    ToolConfirmationRequired(PendingView),
    ContextCompactionStarted { keep_recent_turns: usize },
    ContextCompactionCompleted { covered_messages: nat },
    ContextCompactionFailed(AgentErrorView),
    Finished { steps: nat, message: MsgView },
    Error { step: Option<nat>, error: AgentErrorView },
}

impl View for AgentEvent {
    type V = AgentEventView;

    open spec fn view(&self) -> AgentEventView {
        match self {
            AgentEvent::TextDelta { step, block_id, delta } => AgentEventView::TextDelta {
                step: *step,
                block_id: block_id@,
                delta: delta@,
            },
            AgentEvent::ThinkingDelta { step, block_id, delta } => AgentEventView::ThinkingDelta {
                step: *step,
                block_id: block_id@,
                delta: delta@,
            },
            AgentEvent::ToolCallDelta { step, tool_call_id, tool_name, delta } => AgentEventView::ToolCallDelta {
                step: *step,
                tool_call_id: tool_call_id@,
                tool_name: tool_name@,
                delta: delta@,
            },
            AgentEvent::StructuredOutputDelta { step, block_id, schema, delta } => AgentEventView::StructuredOutputDelta {
                step: *step,
                block_id: block_id@,
                schema: schema@,
                delta: delta@,
            },
            AgentEvent::Usage { step, usage } => AgentEventView::Usage {
                step: *step,
                usage: *usage,
            },
            AgentEvent::StepFinished { step, reason } => AgentEventView::StepFinished {
                step: *step,
                reason: *reason,
            },
            AgentEvent::ToolStarted { step, call } => AgentEventView::ToolStarted {
                step: *step as nat,
                call: call@,
            },
            AgentEvent::ToolFinished { step, result } => AgentEventView::ToolFinished {
                step: *step as nat,
                result: result@,
            },
            AgentEvent::ToolConfirmationRequired { checkpoint } => AgentEventView::ToolConfirmationRequired(
                checkpoint@,
            ),
            AgentEvent::ContextCompactionStarted { keep_recent_turns } => AgentEventView::ContextCompactionStarted {
                keep_recent_turns: *keep_recent_turns,
            },
            AgentEvent::ContextCompactionCompleted { covered_messages } => AgentEventView::ContextCompactionCompleted {
                covered_messages: *covered_messages as nat,
            },
            AgentEvent::ContextCompactionFailed { error } => AgentEventView::ContextCompactionFailed(
                error@,
            ),
            AgentEvent::Finished { steps, message } => AgentEventView::Finished {
                steps: *steps as nat,
                message: message@,
            },
            AgentEvent::Error { step, error } => AgentEventView::Error {
                step: match step {
                    Some(step) => Some(*step as nat),
                    None => None,
                },
                error: error@,
            },
        }
    }
}

/// The event of one agent step that a model event becomes.
pub open spec fn lifted(step: usize, event: ChatEvent) -> AgentEvent {
    match event {
        ChatEvent::TextDelta { block_id, delta } => AgentEvent::TextDelta { step, block_id, delta },
        ChatEvent::ThinkingDelta { block_id, delta } => AgentEvent::ThinkingDelta {
            step,
            block_id,
            delta,
        },
        ChatEvent::ToolCallDelta { tool_call_id, tool_name, delta } => AgentEvent::ToolCallDelta {
            step,
            tool_call_id,
            tool_name,
            delta,
        },
        ChatEvent::StructuredOutputDelta { block_id, schema, delta } => AgentEvent::StructuredOutputDelta {
            step,
            block_id,
            schema,
            delta,
        },
        ChatEvent::Usage { usage } => AgentEvent::Usage { step, usage },
        ChatEvent::Finished { reason } => AgentEvent::StepFinished { step, reason },
        ChatEvent::Error { error } => AgentEvent::Error {
            step: Some(step),
            error: AgentError::Model(error),
        },
    }
}

impl AgentEvent {
    /// Lifts a model-layer streaming event into one agent step.
    pub fn from_chat_event(step: usize, event: ChatEvent) -> (lifted_event: AgentEvent)
        ensures
            lifted_event == lifted(step, event),
    {
        match event {
            ChatEvent::TextDelta { block_id, delta } => AgentEvent::TextDelta {
                step,
                block_id,
                delta,
            },
            ChatEvent::ThinkingDelta { block_id, delta } => AgentEvent::ThinkingDelta {
                step,
                block_id,
                delta,
            },
            ChatEvent::ToolCallDelta { tool_call_id, tool_name, delta } => AgentEvent::ToolCallDelta {
                step,
                tool_call_id,
                tool_name,
                delta,
            },
            ChatEvent::StructuredOutputDelta { block_id, schema, delta } => AgentEvent::StructuredOutputDelta {
                step,
                block_id,
                schema,
                delta,
            },
            ChatEvent::Usage { usage } => AgentEvent::Usage { step, usage },
            ChatEvent::Finished { reason } => AgentEvent::StepFinished { step, reason },
            ChatEvent::Error { error } => AgentEvent::Error {
                step: Some(step),
                error: AgentError::Model(error),
            },
        }
    }

    /// Whether this event ends the stream of a reply.
    pub fn is_terminal(&self) -> (terminal: bool)
        ensures
            terminal == (self is Finished || self is ToolConfirmationRequired || self is Error),
    {
        matches!(
            self,
            AgentEvent::Finished { .. }
            | AgentEvent::ToolConfirmationRequired { .. }
            | AgentEvent::Error { .. }
        )
    }
}

} // verus!
