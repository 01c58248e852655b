//! Read-only agent lifecycle notifications.
use vstd::prelude::*;

use crate::json::{Json, JsonMap, JsonView};
use crate::message::decode::{get_optional_text, get_text, optional_text_at, text_at, WireError};
use crate::message::encode::put_text;
use crate::message::msg::{Msg, MsgView};
use crate::message::shape::{fields_of, names_of, shape};
use crate::message::tool_call::{ToolCallBlock, ToolCallView};
use crate::message::tool_result::{ToolResultBlock, ToolResultView};
use crate::model::event::{coded_message, coded_text};
use crate::model::request::{ChatRequest, RequestView};
use crate::model::response::{ChatResponse, ResponseView};
use crate::text::text_option;

verus! {

/// A read-only lifecycle notification emitted by an agent.
#[derive(Debug, PartialEq, Eq)]
pub enum AgentHookEvent {
    /// The agent is about to store an external message.
    BeforeObserve {
        /// The message that will be stored.
        message: Msg,
    },
    /// The agent stored an external message.
    AfterObserve {
        /// The stored message.
        message: Msg,
    },
    /// The agent accepted a new input message.
    BeforeReply {
        /// The input that will start the reply.
        message: Msg,
    },
    /// The agent is about to call its model.
    BeforeModelCall {
        /// The one-based model-call number.
        step: usize,
        /// The complete provider-neutral model request.
        request: ChatRequest,
    },
    /// The model returned a complete response.
    AfterModelCall {
        /// The one-based model-call number.
        step: usize,
        /// The complete provider-neutral model response.
        response: ChatResponse,
    },
    /// The agent is about to execute one tool call.
    BeforeToolCall {
        /// The model-call number that requested the tool.
        step: usize,
        /// The complete tool call.
        call: ToolCallBlock,
    },
    /// One tool call produced a terminal result.
    AfterToolCall {
        /// The model-call number that requested the tool.
        step: usize,
        /// The successful or failed tool result.
        result: ToolResultBlock,
    },
    /// The agent produced its final reply and updated configured memory.
    AfterReply {
        /// The number of model calls used by the reply.
        steps: usize,
        /// The complete assistant message.
        message: Msg,
    },
}

/// What a notification holds.
#[verifier::ext_equal]
pub enum HookEventView {
    BeforeObserve(MsgView),
    AfterObserve(MsgView),
    BeforeReply(MsgView),
    BeforeModelCall(nat, RequestView),
    AfterModelCall(nat, ResponseView),
    BeforeToolCall(nat, ToolCallView),
    AfterToolCall(nat, ToolResultView),
    AfterReply(nat, MsgView),
}

impl View for AgentHookEvent {
    type V = HookEventView;

    open spec fn view(&self) -> HookEventView {
        match self {
            AgentHookEvent::BeforeObserve { message } => HookEventView::BeforeObserve(message@),
            AgentHookEvent::AfterObserve { message } => HookEventView::AfterObserve(message@),
            AgentHookEvent::BeforeReply { message } => HookEventView::BeforeReply(message@),
            AgentHookEvent::BeforeModelCall { step, request } => HookEventView::BeforeModelCall(
                *step as nat,
                request@,
            ),
            AgentHookEvent::AfterModelCall { step, response } => HookEventView::AfterModelCall(
                *step as nat,
                response@,
            ),
            AgentHookEvent::BeforeToolCall { step, call } => HookEventView::BeforeToolCall(
                *step as nat,
                call@,
            ),
            AgentHookEvent::AfterToolCall { step, result } => HookEventView::AfterToolCall(
                *step as nat,
                result@,
            ),
            AgentHookEvent::AfterReply { steps, message } => HookEventView::AfterReply(
                *steps as nat,
                message@,
            ),
        }
    }
}

/// A structured failure returned by a hook.
#[derive(Debug, PartialEq, Eq)]
pub struct AgentHookError {
    /// Human-readable failure description.
    pub message: String,
    /// Stable application-specific error code.
    pub code: Option<String>,
}

/// What a hook failure holds.
#[verifier::ext_equal]
pub struct HookErrorView {
    pub message: Seq<char>,
    pub code: Option<Seq<char>>,
}

impl View for AgentHookError {
    type V = HookErrorView;

    open spec fn view(&self) -> HookErrorView {
        HookErrorView { message: self.message@, code: text_option(self.code) }
    }
}

impl Clone for AgentHookError {
    fn clone(&self) -> (copied: AgentHookError)
        ensures
            copied == self,
    {
        AgentHookError { message: self.message.clone(), code: self.code.clone() }
    }
}

impl AgentHookError {
    /// Creates a hook error without a stable code.
    pub fn new(message: &str) -> (error: AgentHookError)
        ensures
            error@ == (HookErrorView { message: message@, code: None }),
    {
        AgentHookError { message: message.to_owned(), code: None }
    }

    /// Attaches a stable application-specific error code.
    pub fn with_code(self, code: &str) -> (error: AgentHookError)
        ensures
            error@ == (HookErrorView { code: Some(code@), ..self@ }),
    {
        let mut error = self;
        error.code = Some(code.to_owned());
        error
    }

    /// What the error says.
    pub fn to_string(&self) -> (text: String)
        ensures
            text@ == coded_text("agent hook error"@, self@.code, self@.message),
    {
        coded_message("agent hook error", &self.code, self.message.as_str())
    }

    /// The JSON form of the error.
    pub fn to_json(&self) -> (json: Json)
        ensures
            json@ == hook_error_json(self@),
    {
        let mut map = JsonMap::new();
        put_text(&mut map, "message", self.message.as_str());
        if let Some(code) = &self.code {
            put_text(&mut map, "code", code.as_str());
        }
        Json::Object(map)
    }

    /// Reads an error from its JSON form.
    pub fn from_json(json: &Json) -> (result: Result<AgentHookError, WireError>)
        ensures
            match result {
                Ok(error) => read_hook_error(json@) == Some(error@),
                Err(_) => read_hook_error(json@) is None,
            },
    {
        let names = ["message", "code"];
        assert(names_of(names@) =~= hook_error_names());
        let shaped = match shape(json, 0, &names, 1) {
            None => {
                return Err(WireError);
            },
            Some(shaped) => shaped,
        };
        let map = shaped.map();
        match (get_text(map, "message"), get_optional_text(map, "code")) {
            (Some(message), Some(code)) => Ok(AgentHookError { message: message.to_owned(), code }),
            _ => Err(WireError),
        }
    }
}

/// The JSON form of a hook failure: a code that is not known is left out.
pub open spec fn hook_error_json(error: HookErrorView) -> JsonView {
    let fields = map!["message"@ => JsonView::Text(error.message)];
    JsonView::Object(
        match error.code {
            Some(code) => fields.insert("code"@, JsonView::Text(code)),
            None => fields,
        },
    )
}

/// The names of the fields of a hook failure, in order.
pub open spec fn hook_error_names() -> Seq<Seq<char>> {
    seq!["message"@, "code"@]
}

/// The hook failure that a JSON value is the form of, if it is one.
pub open spec fn read_hook_error(json: JsonView) -> Option<HookErrorView> {
    match fields_of(json, 0, hook_error_names(), 1) {
        Some(fields) => match (
            text_at(fields, "message"@),
            optional_text_at(fields, "code"@),
        ) {
            (Some(message), Some(code)) => Some(HookErrorView { message, code }),
            _ => None,
        },
        None => None,
    }
}

/// A hook failure is read back from its JSON form as it was.
pub proof fn hook_errors_are_read_back(error: HookErrorView)
    ensures
        read_hook_error(hook_error_json(error)) == Some(error),
{
    reveal_strlit("message");
    reveal_strlit("code");
    assert("message"@.len() == 7);
    assert("code"@.len() == 4);
}

} // verus!
