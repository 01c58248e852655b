//! The words that failures, states and numbers are told in.
use vstd::prelude::*;

use crate::agent::error::{agent_error_text, AgentErrorView};
use crate::context::budget::{accuracy_text, budget_error_text, BudgetErrorView, TokenCountAccuracy};
use crate::context::summary::{hex_text, quoted, summary_error_text, SummaryErrorView};
use crate::message::data::{data_error_text, DataBlockError};
use crate::message::role::{role_text, Role};
use crate::message::structured_output::{
    structured_error_text, structured_state_text, StructuredErrorView, StructuredOutputState,
};
use crate::message::tool_call::{
    behavior_text, call_error_text, call_state_text, PermissionBehavior, ToolCallErrorView,
    ToolCallState,
};
use crate::message::tool_result::{
    result_error_text, result_state_text, ToolResultError, ToolResultState,
};
use crate::model::accumulator::{stream_error_text, StreamErrorView};
use crate::model::capabilities::{capability_text, wire_order, ModelCapability};
use crate::model::event::coded_text;
use crate::model::openai::retry::default_delays;
use crate::model::openai::{config_error_text, default_builder, ConfigErrorView};
use crate::model::request::{request_error_text, ChatRequestError};
use crate::model::response::{finish_reason_text, FinishReason};
use crate::text::decimal_text;

verus! {

/// A failure of some kind is told with its code, where it has one, and its message.
pub proof fn codes_stand_before_messages(
    kind: Seq<char>,
    code: Option<Seq<char>>,
    message: Seq<char>,
)
    ensures
        code is None ==> coded_text(kind, code, message) == kind + ": "@ + message,
        code matches Some(known) ==> coded_text(kind, code, message) == kind + " "@ + known + ": "@
            + message,
{
}

/// What failed in an agent is told with what it failed of.
pub proof fn agents_say_what_failed(error: AgentErrorView)
    ensures
        error is EmptyName ==> agent_error_text(error) == "agent name cannot be empty"@,
        error is ZeroMaxSteps ==> agent_error_text(error)
            == "agent max_steps must be greater than zero"@,
        error matches AgentErrorView::Model(cause) ==> agent_error_text(error)
            == "agent model failed: "@ + coded_text("model error"@, cause.code, cause.message),
        error matches AgentErrorView::Tool(cause) ==> agent_error_text(error)
            == "agent tool execution failed: "@ + coded_text(
            "tool error"@,
            cause.code,
            cause.message,
        ),
        error matches AgentErrorView::Memory(cause) ==> agent_error_text(error)
            == "agent memory failed: "@ + coded_text("memory error"@, cause.code, cause.message),
        error matches AgentErrorView::StateStore(cause) ==> agent_error_text(error)
            == "agent state persistence failed: "@ + coded_text(
            "state store error"@,
            cause.code,
            cause.message,
        ),
        error matches AgentErrorView::Hook(cause) ==> agent_error_text(error)
            == "agent lifecycle hook failed: "@ + coded_text(
            "agent hook error"@,
            cause.code,
            cause.message,
        ),
        error is MemoryNotConfigured ==> agent_error_text(error)
            == "agent operation requires configured conversation memory"@,
        error matches AgentErrorView::ToolConfirmationRequired(checkpoint) ==> agent_error_text(
            error,
        ) == "agent is waiting for confirmation of reply "@ + checkpoint.reply_id,
        error is NoPendingToolConfirmation ==> agent_error_text(error)
            == "agent has no pending tool confirmation"@,
        error matches AgentErrorView::InvalidToolConfirmation(message) ==> agent_error_text(error)
            == "invalid tool confirmation: "@ + message,
        error matches AgentErrorView::ToolExecutionInDoubt(checkpoint) ==> agent_error_text(error)
            == "tool execution of reply "@ + checkpoint.confirmation.reply_id + " is in doubt"@,
        error is NoPendingToolExecution ==> agent_error_text(error)
            == "agent has no pending tool execution"@,
        error matches AgentErrorView::InvalidToolExecutionResolution(message) ==> agent_error_text(
            error,
        ) == "invalid tool execution resolution: "@ + message,
        error matches AgentErrorView::UnsupportedStateVersion { found, supported }
            ==> agent_error_text(error) == "unsupported agent state version "@ + decimal_text(
            found as nat,
        ) + "; expected "@ + decimal_text(supported as nat),
        error matches AgentErrorView::StateAgentMismatch { expected, found } ==> agent_error_text(
            error,
        ) == "agent state belongs to "@ + quoted(found) + ", but target agent is "@ + quoted(
            expected,
        ),
        error matches AgentErrorView::Summary(cause) ==> agent_error_text(error)
            == summary_error_text(cause),
        error matches AgentErrorView::TokenBudget(cause) ==> agent_error_text(error)
            == "agent token budget failed: "@ + budget_error_text(cause),
        error is Interrupted ==> agent_error_text(error) == "agent operation was interrupted"@,
        error matches AgentErrorView::InvalidModelResponse(message) ==> agent_error_text(error)
            == "invalid model response: "@ + message,
        error matches AgentErrorView::MaxStepsExceeded { max_steps } ==> agent_error_text(error)
            == "agent exceeded its limit of "@ + decimal_text(max_steps as nat) + " model calls"@,
{
}

/// What is wrong with a stream is told with the block, call or name it is wrong with.
pub proof fn streams_say_what_is_wrong(error: StreamErrorView)
    ensures
        error is AlreadyFinished ==> stream_error_text(error) == "chat stream is already finished"@,
        error is NotFinished ==> stream_error_text(error) == "chat stream has not finished"@,
        error is EmptyBlockId ==> stream_error_text(error) == "content block id cannot be empty"@,
        error matches StreamErrorView::BlockTypeMismatch(id) ==> stream_error_text(error)
            == "content block `"@ + id + "` changed type"@,
        error matches StreamErrorView::ToolNameMismatch { tool_call_id, expected, actual }
            ==> stream_error_text(error) == "tool call `"@ + tool_call_id
            + "` changed name from `"@ + expected + "` to `"@ + actual + "`"@,
        error matches StreamErrorView::SchemaMismatch(id) ==> stream_error_text(error)
            == "structured-output block `"@ + id + "` changed schema"@,
        error matches StreamErrorView::ToolCall(cause) ==> stream_error_text(error)
            == "invalid streamed tool call: "@ + call_error_text(cause),
        error matches StreamErrorView::StructuredOutput(cause) ==> stream_error_text(error)
            == "invalid streamed structured output: "@ + structured_error_text(cause),
        error matches StreamErrorView::Model(cause) ==> stream_error_text(error) == coded_text(
            "model error"@,
            cause.code,
            cause.message,
        ),
{
}

/// What is wrong with blocks, calls, results and data is told by what is missing or
/// malformed.
pub proof fn blocks_say_what_is_wrong(
    call: ToolCallErrorView,
    structured: StructuredErrorView,
    data: DataBlockError,
)
    ensures
        call is EmptyId ==> call_error_text(call) == "tool call id cannot be empty"@,
        call is EmptyName ==> call_error_text(call) == "tool name cannot be empty"@,
        call matches ToolCallErrorView::InvalidInput(message) ==> call_error_text(call)
            == "invalid tool input JSON: "@ + message,
        structured is InvalidSchema ==> structured_error_text(structured)
            == "JSON Schema root must be an object or boolean"@,
        structured matches StructuredErrorView::InvalidOutput(message) ==> structured_error_text(
            structured,
        ) == "invalid structured output JSON: "@ + message,
        structured is AlreadyComplete ==> structured_error_text(structured)
            == "structured output is already complete"@,
        data is EmptyMediaType ==> data_error_text(data) == "media type cannot be empty"@,
        data matches DataBlockError::InvalidBase64(message) ==> data_error_text(data)
            == "invalid Base64 data: "@ + message@,
        data matches DataBlockError::InvalidUrl(message) ==> data_error_text(data)
            == "invalid URL: "@ + message@,
        result_error_text(ToolResultError::EmptyId) == "tool result id cannot be empty"@,
        result_error_text(ToolResultError::EmptyName) == "tool name cannot be empty"@,
        result_error_text(ToolResultError::NonTerminalState)
            == "running is not a terminal tool result state"@,
        request_error_text(ChatRequestError::EmptyToolName) == "tool name cannot be empty"@,
        request_error_text(ChatRequestError::InvalidSchema)
            == "JSON Schema root must be an object or boolean"@,
{
}

/// What does not fit a budget is told with the numbers.
pub proof fn budgets_say_what_does_not_fit(error: BudgetErrorView)
    ensures
        error is InvalidConfiguration ==> budget_error_text(error)
            == "context window must exceed a positive output reservation"@,
        error matches BudgetErrorView::InvalidOutputLimit { requested, reserved }
            ==> budget_error_text(error) == "output limit "@ + decimal_text(requested as nat)
            + " must be positive and no larger than reserved output "@ + decimal_text(
            reserved as nat,
        ),
        error is UnsupportedContent ==> budget_error_text(error)
            == "multimodal input requires a model-specific token counter"@,
        error matches BudgetErrorView::Counter(message) ==> budget_error_text(error)
            == "token counter failed: "@ + message,
        error matches BudgetErrorView::Exceeded { input, input_limit, reserved_output }
            ==> budget_error_text(error) == "protected context needs "@ + decimal_text(
            input.tokens as nat,
        ) + " input tokens ("@ + accuracy_text(input.accuracy) + "), exceeding "@ + decimal_text(
            input_limit as nat,
        ) + "; "@ + decimal_text(reserved_output as nat) + " output tokens reserved"@,
{
}

/// What stops a compaction is told by its name.
pub proof fn compactions_say_what_stops_them(error: SummaryErrorView)
    ensures
        error is NotConfigured ==> summary_error_text(error) == "context compaction failed: "@
            + "NotConfigured"@,
        error is ZeroRecentTurns ==> summary_error_text(error) == "context compaction failed: "@
            + "ZeroRecentTurns"@,
        error is Busy ==> summary_error_text(error) == "context compaction failed: "@ + "Busy"@,
        error is PendingTools ==> summary_error_text(error) == "context compaction failed: "@
            + "PendingTools"@,
        error is IncompleteHistory ==> summary_error_text(error) == "context compaction failed: "@
            + "IncompleteHistory"@,
        error is StaleSource ==> summary_error_text(error) == "context compaction failed: "@
            + "StaleSource"@,
        error is InvalidResponse ==> summary_error_text(error) == "context compaction failed: "@
            + "InvalidResponse"@,
        error is NotSmaller ==> summary_error_text(error) == "context compaction failed: "@
            + "NotSmaller"@,
        error is AutoRequiresBudget ==> summary_error_text(error) == "context compaction failed: "@
            + "AutoRequiresBudget"@,
{
}

/// What a client lacks is told by what is missing or wrong.
pub proof fn clients_say_what_they_lack(error: ConfigErrorView)
    ensures
        error is MissingModel ==> config_error_text(error) == "model name cannot be empty"@,
        error is MissingApiKey ==> config_error_text(error) == "API key cannot be empty"@,
        error matches ConfigErrorView::MissingEnvironmentVariable(name) ==> config_error_text(error)
            == "environment variable `"@ + name + "` is not available"@,
        error matches ConfigErrorView::InvalidBaseUrl(message) ==> config_error_text(error)
            == "invalid API base URL: "@ + message,
        error is UnsupportedUrlScheme ==> config_error_text(error)
            == "API base URL must use HTTP or HTTPS"@,
        error matches ConfigErrorView::HttpClient(message) ==> config_error_text(error)
            == "failed to create HTTP client: "@ + message,
{
}

/// Roles, states, reasons and capabilities go by their names, in lower case.
pub proof fn states_go_by_their_names()
    ensures
        role_text(Role::System) == "system"@,
        role_text(Role::User) == "user"@,
        role_text(Role::Assistant) == "assistant"@,
        call_state_text(ToolCallState::Pending) == "pending"@,
        call_state_text(ToolCallState::Asking) == "asking"@,
        call_state_text(ToolCallState::Allowed) == "allowed"@,
        call_state_text(ToolCallState::Submitted) == "submitted"@,
        call_state_text(ToolCallState::Finished) == "finished"@,
        result_state_text(ToolResultState::Running) == "running"@,
        result_state_text(ToolResultState::Success) == "success"@,
        result_state_text(ToolResultState::Error) == "error"@,
        result_state_text(ToolResultState::Interrupted) == "interrupted"@,
        result_state_text(ToolResultState::Denied) == "denied"@,
        structured_state_text(StructuredOutputState::Streaming) == "streaming"@,
        structured_state_text(StructuredOutputState::Complete) == "complete"@,
        behavior_text(PermissionBehavior::Allow) == "allow"@,
        behavior_text(PermissionBehavior::Deny) == "deny"@,
        behavior_text(PermissionBehavior::Ask) == "ask"@,
        finish_reason_text(FinishReason::Completed) == "completed"@,
        finish_reason_text(FinishReason::Length) == "length"@,
        finish_reason_text(FinishReason::ToolCalls) == "tool_calls"@,
        finish_reason_text(FinishReason::ContentFilter) == "content_filter"@,
        finish_reason_text(FinishReason::Interrupted) == "interrupted"@,
        capability_text(ModelCapability::Streaming) == "streaming"@,
        capability_text(ModelCapability::ToolCalls) == "tool_calls"@,
        capability_text(ModelCapability::StructuredOutput) == "structured_output"@,
        capability_text(ModelCapability::MultimodalInput) == "multimodal_input"@,
        wire_order().len() == 4,
        wire_order()[0] == ModelCapability::Streaming,
        wire_order()[1] == ModelCapability::ToolCalls,
        wire_order()[2] == ModelCapability::StructuredOutput,
        wire_order()[3] == ModelCapability::MultimodalInput,
        accuracy_text(TokenCountAccuracy::Exact) == "Exact"@,
        accuracy_text(TokenCountAccuracy::Estimated) == "Estimated"@,
{
}

/// A new client speaks to the provider itself, waits a minute, and retries twice,
/// first after a quarter of a second and never later than after ten.
pub proof fn new_clients_speak_to_the_provider()
    ensures
        default_builder().model is None,
        default_builder().api_key is None,
        default_builder().base_url == "https://api.openai.com/v1"@,
        default_builder().timeout == 60_000_000_000,
        default_builder().retry_policy == default_delays(2),
        forall|retries: u32|
            (#[trigger] default_delays(retries)).max_retries == retries && default_delays(
                retries,
            ).initial_delay == 250_000_000 && default_delays(retries).max_delay == 10_000_000_000,
{
}

/// Numbers are written in decimals, the last digit last.
pub proof fn numbers_are_written_in_decimals(number: nat, digit: nat)
    requires
        digit < 10,
    ensures
        decimal_text(digit).len() == 1,
        decimal_text(digit)[0] as int == 48 + digit,
        number > 0 ==> decimal_text(10 * number + digit) == decimal_text(number) + decimal_text(
            digit,
        ),
{
    if number > 0 {
        assert((10 * number + digit) / 10 == number && (10 * number + digit) % 10 == digit)
            by (nonlinear_arith)
            requires
                digit < 10,
        ;
        assert(decimal_text(10 * number + digit) =~= decimal_text(number) + decimal_text(digit));
    }
}

/// A byte is written in two hexadecimal digits, the higher one first, in lower case.
pub proof fn bytes_are_written_in_two_digits(bytes: Seq<u8>, byte: u8)
    ensures
        hex_text(bytes.push(byte)).len() == hex_text(bytes).len() + 2,
        hex_text(bytes.push(byte)).drop_last().drop_last() == hex_text(bytes),
        ({
            let high = (byte / 16) as int;
            let low = (byte % 16) as int;
            let written = hex_text(bytes.push(byte));
            &&& written[written.len() - 2] as int == if high < 10 {
                48 + high
            } else {
                87 + high
            }
            &&& written[written.len() - 1] as int == if low < 10 {
                48 + low
            } else {
                87 + low
            }
        }),
        hex_text(Seq::empty()).len() == 0,
{
    assert(bytes.push(byte).drop_last() =~= bytes);
    assert(hex_text(bytes.push(byte)).drop_last().drop_last() =~= hex_text(bytes));
}

} // verus!
