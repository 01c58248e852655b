//! Streaming chat events and model failures.
use vstd::prelude::*;

use super::response::FinishReason;
use crate::json::{Json, JsonView};
use crate::message::usage::Usage;
use crate::text::{append, text_option};

verus! {

/// Result returned by provider-neutral model operations.
pub type ModelResult<T> = Result<T, ModelError>;

/// An incremental event emitted by a chat model.
#[derive(Debug, PartialEq, Eq)]
pub enum ChatEvent {
    /// Incremental plain-text content.
    TextDelta {
        /// The content block being updated.
        block_id: String,
        /// The text fragment to append.
        delta: String,
    },
    /// Incremental model reasoning content.
    ThinkingDelta {
        /// The content block being updated.
        block_id: String,
        /// The reasoning fragment to append.
        delta: String,
    },
    /// Incremental JSON arguments for a tool call.
    ToolCallDelta {
        /// The provider-assigned tool call identifier.
        tool_call_id: String,
        /// The tool being called.
        tool_name: String,
        /// The raw JSON fragment to append.
        delta: String,
    },
    /// Incremental JSON for a structured response.
    StructuredOutputDelta {
        /// The content block being updated.
        block_id: String,
        /// The JSON Schema requested from the model.
        schema: Json,
        /// The raw JSON fragment to append.
        delta: String,
    },
    /// Provider-reported token usage.
    Usage {
        /// Usage to accumulate for the final response.
        usage: Usage,
    },
    /// Successful end of the model stream.
    Finished {
        /// Why the provider stopped generating output.
        reason: FinishReason,
    },
    /// Terminal model or provider failure.
    Error {
        /// Structured information about the failure.
        error: ModelError,
    },
}

/// What a chat event holds.
#[verifier::ext_equal]
pub enum ChatEventView {
    TextDelta { block_id: Seq<char>, delta: Seq<char> },
    ThinkingDelta { block_id: Seq<char>, delta: Seq<char> },
    ToolCallDelta { tool_call_id: Seq<char>, tool_name: Seq<char>, delta: Seq<char> },
    StructuredOutputDelta { block_id: Seq<char>, schema: JsonView, delta: Seq<char> },
    Usage { usage: Usage },
    Finished { reason: FinishReason },
    Error { error: ModelErrorView },
}

impl View for ChatEvent {
    type V = ChatEventView;

    open spec fn view(&self) -> ChatEventView {
        match self {
            ChatEvent::TextDelta { block_id, delta } => ChatEventView::TextDelta {
                block_id: block_id@,
                delta: delta@,
            },
            ChatEvent::ThinkingDelta { block_id, delta } => ChatEventView::ThinkingDelta {
                block_id: block_id@,
                delta: delta@,
            },
            ChatEvent::ToolCallDelta { tool_call_id, tool_name, delta } => ChatEventView::ToolCallDelta {
                tool_call_id: tool_call_id@,
                tool_name: tool_name@,
                delta: delta@,
            },
            ChatEvent::StructuredOutputDelta { block_id, schema, delta } => ChatEventView::StructuredOutputDelta {
                block_id: block_id@,
                schema: schema@,
                delta: delta@,
            },
            ChatEvent::Usage { usage } => ChatEventView::Usage { usage: *usage },
            ChatEvent::Finished { reason } => ChatEventView::Finished { reason: *reason },
            ChatEvent::Error { error } => ChatEventView::Error { error: error@ },
        }
    }
}

impl Clone for ChatEvent {
    fn clone(&self) -> (copied: ChatEvent)
        ensures
            copied@ == self@,
    {
        match self {
            ChatEvent::TextDelta { block_id, delta } => ChatEvent::TextDelta {
                block_id: block_id.clone(),
                delta: delta.clone(),
            },
            ChatEvent::ThinkingDelta { block_id, delta } => ChatEvent::ThinkingDelta {
                block_id: block_id.clone(),
                delta: delta.clone(),
            },
            ChatEvent::ToolCallDelta { tool_call_id, tool_name, delta } => ChatEvent::ToolCallDelta {
                tool_call_id: tool_call_id.clone(),
                tool_name: tool_name.clone(),
                delta: delta.clone(),
            },
            ChatEvent::StructuredOutputDelta { block_id, schema, delta } => ChatEvent::StructuredOutputDelta {
                block_id: block_id.clone(),
                schema: schema.clone(),
                delta: delta.clone(),
            },
            ChatEvent::Usage { usage } => ChatEvent::Usage { usage: *usage },
            ChatEvent::Finished { reason } => ChatEvent::Finished { reason: *reason },
            ChatEvent::Error { error } => ChatEvent::Error { error: error.clone() },
        }
    }
}

/// A structured model or provider failure.
#[derive(Debug, PartialEq, Eq)]
pub struct ModelError {
    /// A human-readable error description.
    pub message: String,
    /// An optional provider or application error code.
    pub code: Option<String>,
    /// Whether retrying the call may succeed.
    pub retryable: bool,
}

/// What a model failure holds.
#[verifier::ext_equal]
pub struct ModelErrorView {
    pub message: Seq<char>,
    pub code: Option<Seq<char>>,
    pub retryable: bool,
}

impl View for ModelError {
    type V = ModelErrorView;

    open spec fn view(&self) -> ModelErrorView {
        ModelErrorView {
            message: self.message@,
            code: text_option(self.code),
            retryable: self.retryable,
        }
    }
}

impl Clone for ModelError {
    fn clone(&self) -> (copied: ModelError)
        ensures
            copied@ == self@,
            copied == self,
    {
        ModelError {
            message: self.message.clone(),
            code: self.code.clone(),
            retryable: self.retryable,
        }
    }
}

/// A failure with a code that is not worth a retry.
pub open spec fn coded_error(message: Seq<char>, code: Seq<char>) -> ModelErrorView {
    ModelErrorView { message, code: Some(code), retryable: false }
}

/// What a failure of some kind says.
pub open spec fn coded_text(kind: Seq<char>, code: Option<Seq<char>>, message: Seq<char>) -> Seq<
    char,
> {
    match code {
        Some(code) => kind + " "@ + code + ": "@ + message,
        None => kind + ": "@ + message,
    }
}

/// The text of a failure of some kind.
pub fn coded_message(kind: &str, code: &Option<String>, message: &str) -> (text: String)
    ensures
        text@ == coded_text(kind@, text_option(*code), message@),
{
    let mut text = kind.to_owned();
    if let Some(code) = code {
        append(&mut text, " ");
        append(&mut text, code.as_str());
    }
    append(&mut text, ": ");
    append(&mut text, message);
    text
}

impl ModelError {
    /// Creates a non-retryable model error.
    pub fn new(message: &str) -> (error: ModelError)
        ensures
            error@ == (ModelErrorView { message: message@, code: None, retryable: false }),
    {
        ModelError { message: message.to_owned(), code: None, retryable: false }
    }

    /// Attaches a provider or application error code.
    pub fn with_code(self, code: &str) -> (error: ModelError)
        ensures
            error@ == (ModelErrorView { code: Some(code@), ..self@ }),
    {
        let mut error = self;
        error.code = Some(code.to_owned());
        error
    }

    /// Marks whether retrying the call may succeed.
    pub fn with_retryable(self, retryable: bool) -> (error: ModelError)
        ensures
            error@ == (ModelErrorView { retryable, ..self@ }),
    {
        let mut error = self;
        error.retryable = retryable;
        error
    }

    /// What the error says.
    pub fn to_string(&self) -> (text: String)
        ensures
            text@ == coded_text("model error"@, self@.code, self@.message),
    {
        coded_message("model error", &self.code, self.message.as_str())
    }
}

} // verus!
