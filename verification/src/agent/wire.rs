//! The JSON form of stored agent state.
//!
//! Checkpoints and the summary are left out where there is none, so states in older
//! formats can be read too. Fields that are not known are passed over.
use vstd::prelude::*;

use super::confirmation::{
    ConfirmationView, DecisionView, ExecutionView, PendingToolCalls, PendingToolExecution,
    PendingView, ToolConfirmation, ToolConfirmationDecision,
};
use super::state::{AgentState, StateView};
use super::store::{key_fault, KeyView, RecordView, StateKey, StateRecord};
use crate::context::summary::{ContextSummary, SummaryView};
use crate::json::{as_unsigned, json_views, lookup, Json, JsonMap, JsonView};
use crate::message::decode::{
    call_names, decode_call, get_text, is_msg_of, is_sound_block, lemma_call_round_trip,
    messages_are_read_back, read_all, read_call, read_envelope, text_at, WireError,
};
use crate::message::encode::{
    call_fields, encode_call, encode_messages, lemma_array_view, msg_json, msgs_json, put,
    put_text,
};
use crate::message::is_timestamp;
use crate::message::msg::{Msg, MsgView};
use crate::message::shape::{fields_of, get_tag, names_of, shape, tag_name, Fields};
use crate::message::tool_call::{call_identity_error, ToolCallBlock, ToolCallView};
use crate::text::same_text;
use crate::view::views;

verus! {

/// The number of a field.
pub open spec fn number_at(fields: Fields, key: Seq<char>) -> Option<u64> {
    match lookup(fields, key) {
        Some(value) => as_unsigned(value),
        None => None,
    }
}

/// The number of a field that fits a size.
pub open spec fn size_at(fields: Fields, key: Seq<char>) -> Option<nat> {
    match number_at(fields, key) {
        Some(number) => if number <= usize::MAX {
            Some(number as nat)
        } else {
            None
        },
        None => None,
    }
}

/// The items of a field.
pub open spec fn items_at(fields: Fields, key: Seq<char>) -> Option<Seq<JsonView>> {
    match lookup(fields, key) {
        Some(JsonView::Array(items)) => Some(items),
        _ => None,
    }
}

/// The JSON form of a tool call outside a message.
pub open spec fn call_json(call: ToolCallView) -> JsonView {
    JsonView::Object(call_fields(call))
}

/// The JSON form of a confirmation checkpoint.
pub open spec fn pending_json(pending: PendingView) -> JsonView {
    JsonView::Object(
        map![
            "reply_id"@ => JsonView::Text(pending.reply_id),
            "step"@ => JsonView::Unsigned(pending.step as u64),
            "calls"@ => JsonView::Array(
                pending.calls.map_values(|call: ToolCallView| call_json(call)),
            )
        ],
    )
}

/// The JSON form of a decision.
pub open spec fn decision_json(decision: DecisionView) -> JsonView {
    JsonView::Object(
        match decision {
            DecisionView::Approve => map!["decision"@ => JsonView::Text("approve"@)],
            DecisionView::Deny(reason) => map![
                "decision"@ => JsonView::Text("deny"@),
                "reason"@ => JsonView::Text(reason)
            ],
        },
    )
}

/// The JSON form of a decision for a call.
pub open spec fn confirmation_json(confirmation: ConfirmationView) -> JsonView {
    JsonView::Object(
        map![
            "tool_call_id"@ => JsonView::Text(confirmation.tool_call_id),
            "decision"@ => decision_json(confirmation.decision)
        ],
    )
}

/// The JSON form of an execution checkpoint.
pub open spec fn execution_json(execution: ExecutionView) -> JsonView {
    JsonView::Object(
        map![
            "execution_id"@ => JsonView::Text(execution.execution_id),
            "confirmation"@ => pending_json(execution.confirmation),
            "decisions"@ => JsonView::Array(
                execution.decisions.map_values(
                    |confirmation: ConfirmationView| confirmation_json(confirmation),
                ),
            )
        ],
    )
}

/// The JSON form of a summary.
pub open spec fn summary_json(summary: SummaryView) -> JsonView {
    JsonView::Object(
        map![
            "text"@ => JsonView::Text(summary.text),
            "covered_messages"@ => JsonView::Unsigned(summary.covered_messages as u64),
            "source_sha256"@ => JsonView::Text(summary.source_sha256)
        ],
    )
}

/// The JSON form of a snapshot.
pub open spec fn state_json(state: StateView) -> JsonView {
    let fields = map![
        "format_version"@ => JsonView::Unsigned(state.format_version as u64),
        "agent_name"@ => JsonView::Text(state.agent_name),
        "messages"@ => msgs_json(state.messages)
    ];
    let fields = match state.pending_tool_calls {
        Some(pending) => fields.insert("pending_tool_calls"@, pending_json(pending)),
        None => fields,
    };
    let fields = match state.pending_tool_execution {
        Some(execution) => fields.insert("pending_tool_execution"@, execution_json(execution)),
        None => fields,
    };
    JsonView::Object(
        match state.context_summary {
            Some(summary) => fields.insert("context_summary"@, summary_json(summary)),
            None => fields,
        },
    )
}

/// The JSON form of a session's key.
pub open spec fn key_json(key: KeyView) -> JsonView {
    JsonView::Object(
        map![
            "user_id"@ => JsonView::Text(key.user_id),
            "session_id"@ => JsonView::Text(key.session_id)
        ],
    )
}

/// The JSON form of a stored snapshot.
pub open spec fn record_json(record: RecordView) -> JsonView {
    JsonView::Object(
        map![
            "revision"@ => JsonView::Unsigned(record.revision),
            "state"@ => state_json(record.state)
        ],
    )
}

/// The tool call outside a message that a value stands for, created at a time where
/// it does not say.
pub open spec fn read_bare_call(json: JsonView, time: Seq<char>) -> Option<ToolCallView> {
    match fields_of(json, 0, call_names(), 3) {
        Some(fields) => read_call(fields, false, time),
        None => None,
    }
}

/// Whether a value can be read as a tool call outside a message.
pub open spec fn is_readable_call(json: JsonView) -> bool {
    read_bare_call(json, Seq::empty()) is Some
}

/// Whether a tool call is what a value stands for.
pub open spec fn is_call_of(call: ToolCallView, json: JsonView) -> bool {
    exists|time: Seq<char>|
        is_timestamp(time) && #[trigger] read_bare_call(json, time) == Some(call)
}

/// Whether tool calls are what values stand for, one for one.
pub open spec fn are_calls_of(calls: Seq<ToolCallView>, items: Seq<JsonView>) -> bool {
    calls.len() == items.len() && forall|i: int|
        0 <= i < items.len() ==> is_call_of(#[trigger] calls[i], items[i])
}

/// The values of a field, which can all be read as tool calls.
pub open spec fn readable_calls(fields: Fields) -> Option<Seq<JsonView>> {
    match items_at(fields, "calls"@) {
        Some(items) => if forall|i: int|
            0 <= i < items.len() ==> is_readable_call(#[trigger] items[i]) {
            Some(items)
        } else {
            None
        },
        None => None,
    }
}

/// A checkpoint with its calls yet to be read, as a value says.
pub open spec fn read_pending(json: JsonView) -> Option<(PendingView, Seq<JsonView>)> {
    match fields_of(json, 0, pending_names(), 3) {
        Some(fields) => match (
            text_at(fields, "reply_id"@),
            size_at(fields, "step"@),
            readable_calls(fields),
        ) {
            (Some(reply_id), Some(step), Some(items)) => Some(
                (PendingView { reply_id, step, calls: Seq::empty() }, items),
            ),
            _ => None,
        },
        None => None,
    }
}

/// Whether a checkpoint is what a value stands for.
pub open spec fn is_pending_of(pending: PendingView, json: JsonView) -> bool {
    match read_pending(json) {
        Some((envelope, items)) => are_calls_of(pending.calls, items) && pending == (PendingView {
            calls: pending.calls,
            ..envelope
        }),
        None => false,
    }
}

/// The decision that a value stands for.
pub open spec fn read_decision(json: JsonView) -> Option<DecisionView> {
    match tag_name(json, "decision"@, Seq::empty(), false) {
        Some(name) => if name == "approve"@ {
            if fields_of(json, 1, Seq::empty(), 0) is Some {
                Some(DecisionView::Approve)
            } else {
                None
            }
        } else if name == "deny"@ {
            match fields_of(json, 1, seq!["reason"@], 1) {
                Some(fields) => match text_at(fields, "reason"@) {
                    Some(reason) => Some(DecisionView::Deny(reason)),
                    None => None,
                },
                None => None,
            }
        } else {
            None
        },
        None => None,
    }
}

/// The decision for a call that a value stands for.
pub open spec fn read_confirmation(json: JsonView) -> Option<ConfirmationView> {
    match fields_of(json, 0, confirmation_names(), 2) {
        Some(fields) => match (
            text_at(fields, "tool_call_id"@),
            lookup(fields, "decision"@),
        ) {
            (Some(tool_call_id), Some(value)) => match read_decision(value) {
                Some(decision) => Some(ConfirmationView { tool_call_id, decision }),
                None => None,
            },
            _ => None,
        },
        None => None,
    }
}

/// The decisions that a field stands for.
pub open spec fn read_decisions(fields: Fields) -> Option<Seq<ConfirmationView>> {
    match items_at(fields, "decisions"@) {
        Some(items) => read_all(items, |json: JsonView| read_confirmation(json)),
        None => None,
    }
}

/// The parts of an execution checkpoint that a value stands for, with the
/// confirmed checkpoint yet to be read.
pub open spec fn read_execution(json: JsonView) -> Option<
    (Seq<char>, Seq<ConfirmationView>, JsonView),
> {
    match fields_of(json, 0, execution_names(), 3) {
        Some(fields) => match (
            text_at(fields, "execution_id"@),
            lookup(fields, "confirmation"@),
            read_decisions(fields),
        ) {
            (Some(execution_id), Some(confirmation), Some(decisions)) => if read_pending(
                confirmation,
            ) is Some {
                Some((execution_id, decisions, confirmation))
            } else {
                None
            },
            _ => None,
        },
        None => None,
    }
}

/// Whether an execution checkpoint is what a value stands for.
pub open spec fn is_execution_of(execution: ExecutionView, json: JsonView) -> bool {
    match read_execution(json) {
        Some((execution_id, decisions, confirmation)) => execution.execution_id == execution_id
            && execution.decisions == decisions && is_pending_of(
            execution.confirmation,
            confirmation,
        ),
        None => false,
    }
}

/// The summary that a value stands for.
pub open spec fn read_summary(json: JsonView) -> Option<SummaryView> {
    match fields_of(json, 0, summary_names(), 3) {
        Some(fields) => match (
            text_at(fields, "text"@),
            size_at(fields, "covered_messages"@),
            text_at(fields, "source_sha256"@),
        ) {
            (Some(text), Some(covered_messages), Some(source_sha256)) => Some(
                SummaryView { text, covered_messages, source_sha256 },
            ),
            _ => None,
        },
        None => None,
    }
}

/// The value of a field that may be missing or `null`.
pub open spec fn optional_at(fields: Fields, key: Seq<char>) -> Option<JsonView> {
    match lookup(fields, key) {
        None => None,
        Some(JsonView::Null) => None,
        Some(value) => Some(value),
    }
}

/// The values of a field, which can all be read as messages.
pub open spec fn readable_messages(fields: Fields) -> Option<Seq<JsonView>> {
    match items_at(fields, "messages"@) {
        Some(items) => if forall|i: int|
            0 <= i < items.len() ==> read_envelope(#[trigger] items[i]) is Some {
            Some(items)
        } else {
            None
        },
        None => None,
    }
}

/// The format version of a field.
pub open spec fn version_at(fields: Fields) -> Option<u32> {
    match number_at(fields, "format_version"@) {
        Some(number) => if number <= u32::MAX {
            Some(number as u32)
        } else {
            None
        },
        None => None,
    }
}

/// The names of the fields of a checkpoint, in order.
pub open spec fn pending_names() -> Seq<Seq<char>> {
    seq!["reply_id"@, "step"@, "calls"@]
}

/// The names of the fields of a decision for a call, in order.
pub open spec fn confirmation_names() -> Seq<Seq<char>> {
    seq!["tool_call_id"@, "decision"@]
}

/// The names of the fields of an execution checkpoint, in order.
pub open spec fn execution_names() -> Seq<Seq<char>> {
    seq!["execution_id"@, "confirmation"@, "decisions"@]
}

/// The names of the fields of a summary, in order.
pub open spec fn summary_names() -> Seq<Seq<char>> {
    seq!["text"@, "covered_messages"@, "source_sha256"@]
}

/// The names of the fields of a session's key, in order.
pub open spec fn key_names() -> Seq<Seq<char>> {
    seq!["user_id"@, "session_id"@]
}

/// The names of the fields of a stored snapshot, in order.
pub open spec fn record_names() -> Seq<Seq<char>> {
    seq!["revision"@, "state"@]
}

/// The names of the fields of a snapshot, in order.
pub open spec fn state_names() -> Seq<Seq<char>> {
    seq![
        "format_version"@,
        "agent_name"@,
        "messages"@,
        "pending_tool_calls"@,
        "pending_tool_execution"@,
        "context_summary"@,
    ]
}

/// Whether a value can be read as a snapshot.
pub open spec fn is_readable_state(json: JsonView) -> bool {
    fields_of(json, 0, state_names(), 3) matches Some(fields) && version_at(fields) is Some && text_at(
        fields,
        "agent_name"@,
    ) is Some && readable_messages(fields) is Some && (optional_at(fields, "pending_tool_calls"@)
        is None || read_pending(optional_at(fields, "pending_tool_calls"@)->Some_0) is Some) && (
    optional_at(fields, "pending_tool_execution"@) is None || read_execution(
        optional_at(fields, "pending_tool_execution"@)->Some_0,
    ) is Some) && (optional_at(fields, "context_summary"@) is None || read_summary(
        optional_at(fields, "context_summary"@)->Some_0,
    ) is Some)
}

/// Whether messages are what values stand for, one for one.
pub open spec fn are_messages_of(msgs: Seq<MsgView>, items: Seq<JsonView>) -> bool {
    msgs.len() == items.len() && forall|i: int|
        0 <= i < items.len() ==> is_msg_of(#[trigger] msgs[i], items[i])
}

/// Whether a snapshot is what a value stands for.
pub open spec fn is_state_of(state: StateView, json: JsonView) -> bool {
    &&& is_readable_state(json)
    &&& fields_of(json, 0, state_names(), 3) matches Some(fields) && {
        &&& version_at(fields) == Some(state.format_version)
        &&& text_at(fields, "agent_name"@) == Some(state.agent_name)
        &&& are_messages_of(state.messages, readable_messages(fields)->Some_0)
        &&& match (state.pending_tool_calls, optional_at(fields, "pending_tool_calls"@)) {
            (None, None) => true,
            (Some(pending), Some(value)) => is_pending_of(pending, value),
            _ => false,
        }
        &&& match (state.pending_tool_execution, optional_at(fields, "pending_tool_execution"@)) {
            (None, None) => true,
            (Some(execution), Some(value)) => is_execution_of(execution, value),
            _ => false,
        }
        &&& match (state.context_summary, optional_at(fields, "context_summary"@)) {
            (None, None) => true,
            (Some(summary), Some(value)) => read_summary(value) == Some(summary),
            _ => false,
        }
    }
}

/// The session's key that a value stands for.
pub open spec fn read_key(json: JsonView) -> Option<KeyView> {
    match fields_of(json, 0, key_names(), 2) {
        Some(fields) => match (
            text_at(fields, "user_id"@),
            text_at(fields, "session_id"@),
        ) {
            (Some(user_id), Some(session_id)) => if key_fault(user_id, session_id) is None {
                Some(KeyView { user_id, session_id })
            } else {
                None
            },
            _ => None,
        },
        None => None,
    }
}

/// The revision and the state that a value holds: revisions begin with one.
pub open spec fn read_record(json: JsonView) -> Option<(u64, JsonView)> {
    match fields_of(json, 0, record_names(), 2) {
        Some(fields) => match (
            number_at(fields, "revision"@),
            lookup(fields, "state"@),
        ) {
            (Some(revision), Some(state)) => if revision > 0 && is_readable_state(state) {
                Some((revision, state))
            } else {
                None
            },
            _ => None,
        },
        None => None,
    }
}

/// Whether a stored snapshot is what a value stands for.
pub open spec fn is_record_of(record: RecordView, json: JsonView) -> bool {
    match read_record(json) {
        Some((revision, state)) => record.revision == revision && is_state_of(record.state, state),
        None => false,
    }
}

fn get_number(map: &JsonMap, key: &str) -> (number: Option<u64>)
    ensures
        number == number_at(map@, key@),
{
    match map.get(key) {
        Some(value) => value.as_u64(),
        None => None,
    }
}

fn get_size(map: &JsonMap, key: &str) -> (size: Option<usize>)
    ensures
        match size {
            Some(found) => size_at(map@, key@) == Some(found as nat),
            None => size_at(map@, key@) is None,
        },
{
    match get_number(map, key) {
        Some(number) => {
            if number <= usize::MAX as u64 {
                Some(number as usize)
            } else {
                None
            }
        },
        None => None,
    }
}

fn get_items<'a>(map: &'a JsonMap, key: &str) -> (items: Option<&'a Vec<Json>>)
    ensures
        match items {
            Some(found) => items_at(map@, key@) == Some(json_views(found@)),
            None => items_at(map@, key@) is None,
        },
{
    match map.get(key) {
        Some(value) => value.as_array(),
        None => None,
    }
}

fn get_optional<'a>(map: &'a JsonMap, key: &str) -> (value: Option<&'a Json>)
    ensures
        match value {
            Some(found) => optional_at(map@, key@) == Some(found@),
            None => optional_at(map@, key@) is None,
        },
{
    match map.get(key) {
        None => None,
        Some(value) => {
            if value.is_null() {
                None
            } else {
                Some(value)
            }
        },
    }
}

impl PendingToolCalls {
    /// The JSON form of the checkpoint.
    pub fn to_json(&self) -> (json: Json)
        ensures
            json@ == pending_json(self@),
    {
        let mut items: Vec<Json> = Vec::new();
        let mut i: usize = 0;
        while i < self.calls.len()
            invariant
                i <= self.calls@.len(),
                items@.len() == i,
                forall|j: int|
                    0 <= j < i ==> (#[trigger] items@[j])@ == call_json(self.calls@[j]@),
            decreases self.calls@.len() - i,
        {
            items.push(Json::Object(encode_call(&self.calls[i])));
            i += 1;
        }
        proof {
            lemma_array_view(items);
            assert(json_views(items@) =~= views(self.calls@).map_values(
                |call: ToolCallView| call_json(call),
            ));
        }
        let mut map = JsonMap::new();
        put_text(&mut map, "reply_id", self.reply_id.as_str());
        put(&mut map, "step", Json::Unsigned(self.step as u64));
        put(&mut map, "calls", Json::Array(items));
        Json::Object(map)
    }

    /// Reads a checkpoint from its JSON form.
    pub fn from_json(json: &Json) -> (result: Result<PendingToolCalls, WireError>)
        ensures
            match result {
                Ok(pending) => is_pending_of(pending@, json@),
                Err(_) => read_pending(json@) is None,
            },
    {
        let names = ["reply_id", "step", "calls"];
        assert(names_of(names@) =~= pending_names());
        let shaped = match shape(json, 0, &names, 3) {
            None => {
                return Err(WireError);
            },
            Some(shaped) => shaped,
        };
        let map = shaped.map();
        match (get_text(map, "reply_id"), get_size(map, "step"), read_calls(map)) {
            (Some(reply_id), Some(step), Some(calls)) => Ok(
                PendingToolCalls { reply_id: reply_id.to_owned(), step, calls },
            ),
            _ => Err(WireError),
        }
    }
}

fn read_calls(map: &JsonMap) -> (calls: Option<Vec<ToolCallBlock>>)
    ensures
        match calls {
            Some(found) => readable_calls(map@) is Some && are_calls_of(
                views(found@),
                readable_calls(map@)->Some_0,
            ),
            None => readable_calls(map@) is None,
        },
{
    let items = match get_items(map, "calls") {
        None => {
            return None;
        },
        Some(items) => items,
    };
    let ghost all = json_views(items@);
    let mut calls: Vec<ToolCallBlock> = Vec::new();
    let mut i: usize = 0;
    while i < items.len()
        invariant
            i <= items@.len(),
            all == json_views(items@),
            items_at(map@, "calls"@) == Some(all),
            calls@.len() == i,
            forall|j: int| 0 <= j < i ==> is_readable_call(#[trigger] all[j]),
            forall|j: int| 0 <= j < i ==> is_call_of((#[trigger] calls@[j])@, all[j]),
        decreases items@.len() - i,
    {
        assert(all[i as int] == items@[i as int]@);
        match decode_bare_call(&items[i]) {
            None => {
                assert(!is_readable_call(all[i as int]));
                return None;
            },
            Some(call) => {
                calls.push(call);
            },
        }
        i += 1;
    }
    assert forall|j: int| 0 <= j < all.len() implies is_call_of(
        #[trigger] views(calls@)[j],
        all[j],
    ) by {
        assert(views(calls@)[j] == calls@[j]@);
    }
    Some(calls)
}

fn decode_bare_call(json: &Json) -> (call: Option<ToolCallBlock>)
    ensures
        match call {
            Some(found) => is_readable_call(json@) && is_call_of(found@, json@),
            None => !is_readable_call(json@),
        },
{
    let names = [
        "id",
        "name",
        "input",
        "state",
        "suggested_rules",
        "created_at",
        "finished_at",
    ];
    assert(names_of(names@) =~= call_names());
    match shape(json, 0, &names, 3) {
        Some(shaped) => {
            let call = decode_call(shaped.map(), false);
            proof {
                if call is Some {
                    let found = call->Some_0;
                    let now = choose|now: Seq<char>|
                        is_timestamp(now) && #[trigger] read_call(shaped@, false, now) == Some(
                            found@,
                        );
                    assert(read_bare_call(json@, now) == Some(found@));
                    assert(read_call(shaped@, false, Seq::empty()) is Some);
                } else {
                    assert(read_call(shaped@, false, Seq::empty()) is None);
                }
            }
            call
        },
        None => None,
    }
}

impl ToolConfirmation {
    /// The JSON form of the decision.
    pub fn to_json(&self) -> (json: Json)
        ensures
            json@ == confirmation_json(self@),
    {
        let mut inner = JsonMap::new();
        match &self.decision {
            ToolConfirmationDecision::Approve => {
                put_text(&mut inner, "decision", "approve");
            },
            ToolConfirmationDecision::Deny { reason } => {
                put_text(&mut inner, "decision", "deny");
                put_text(&mut inner, "reason", reason.as_str());
            },
        }
        let mut map = JsonMap::new();
        put_text(&mut map, "tool_call_id", self.tool_call_id.as_str());
        put(&mut map, "decision", Json::Object(inner));
        Json::Object(map)
    }

    /// Reads a decision from its JSON form.
    pub fn from_json(json: &Json) -> (result: Result<ToolConfirmation, WireError>)
        ensures
            match result {
                Ok(confirmation) => read_confirmation(json@) == Some(confirmation@),
                Err(_) => read_confirmation(json@) is None,
            },
    {
        let names = ["tool_call_id", "decision"];
        assert(names_of(names@) =~= confirmation_names());
        let shaped = match shape(json, 0, &names, 2) {
            None => {
                return Err(WireError);
            },
            Some(shaped) => shaped,
        };
        let map = shaped.map();
        let id = match get_text(map, "tool_call_id") {
            None => {
                return Err(WireError);
            },
            Some(id) => id,
        };
        let decision = match map.get("decision") {
            None => {
                return Err(WireError);
            },
            Some(value) => value,
        };
        let none: [&str; 0] = [];
        assert(names_of(none@) =~= Seq::empty());
        match get_tag(decision, "decision", &none, false) {
            None => Err(WireError),
            Some(name) => {
                if same_text(name, "approve") {
                    match shape(decision, 1, &none, 0) {
                        None => Err(WireError),
                        Some(_) => Ok(ToolConfirmation::approve(id)),
                    }
                } else if same_text(name, "deny") {
                    let reasons = ["reason"];
                    assert(names_of(reasons@) =~= seq!["reason"@]);
                    match shape(decision, 1, &reasons, 1) {
                        None => Err(WireError),
                        Some(inner) => match get_text(inner.map(), "reason") {
                            None => Err(WireError),
                            Some(reason) => Ok(ToolConfirmation::deny(id, reason)),
                        },
                    }
                } else {
                    Err(WireError)
                }
            },
        }
    }
}

fn read_confirmations(map: &JsonMap) -> (decisions: Option<Vec<ToolConfirmation>>)
    ensures
        match decisions {
            Some(found) => read_decisions(map@) == Some(views(found@)),
            None => read_decisions(map@) is None,
        },
{
    let items = match get_items(map, "decisions") {
        None => {
            return None;
        },
        Some(items) => items,
    };
    let ghost all = json_views(items@);
    let mut decisions: Vec<ToolConfirmation> = Vec::new();
    let mut i: usize = 0;
    while i < items.len()
        invariant
            i <= items@.len(),
            all == json_views(items@),
            items_at(map@, "decisions"@) == Some(all),
            decisions@.len() == i,
            forall|j: int|
                0 <= j < i ==> read_confirmation(#[trigger] all[j]) == Some(decisions@[j]@),
        decreases items@.len() - i,
    {
        assert(all[i as int] == items@[i as int]@);
        match ToolConfirmation::from_json(&items[i]) {
            Err(_) => {
                assert(read_confirmation(all[i as int]) is None);
                assert(read_all(all, |json: JsonView| read_confirmation(json)) is None);
                return None;
            },
            Ok(decision) => {
                decisions.push(decision);
            },
        }
        i += 1;
    }
    assert(views(decisions@) =~= all.map_values(
        |item: JsonView| (|json: JsonView| read_confirmation(json))(item)->Some_0,
    ));
    Some(decisions)
}

impl PendingToolExecution {
    /// The JSON form of the checkpoint.
    pub fn to_json(&self) -> (json: Json)
        ensures
            json@ == execution_json(self@),
    {
        let mut items: Vec<Json> = Vec::new();
        let mut i: usize = 0;
        while i < self.decisions.len()
            invariant
                i <= self.decisions@.len(),
                items@.len() == i,
                forall|j: int|
                    0 <= j < i ==> (#[trigger] items@[j])@ == confirmation_json(
                        self.decisions@[j]@,
                    ),
            decreases self.decisions@.len() - i,
        {
            items.push(self.decisions[i].to_json());
            i += 1;
        }
        proof {
            lemma_array_view(items);
            assert(json_views(items@) =~= views(self.decisions@).map_values(
                |confirmation: ConfirmationView| confirmation_json(confirmation),
            ));
        }
        let mut map = JsonMap::new();
        put_text(&mut map, "execution_id", self.execution_id.as_str());
        put(&mut map, "confirmation", self.confirmation.to_json());
        put(&mut map, "decisions", Json::Array(items));
        Json::Object(map)
    }

    /// Reads a checkpoint from its JSON form.
    pub fn from_json(json: &Json) -> (result: Result<PendingToolExecution, WireError>)
        ensures
            match result {
                Ok(execution) => is_execution_of(execution@, json@),
                Err(_) => read_execution(json@) is None,
            },
    {
        let names = ["execution_id", "confirmation", "decisions"];
        assert(names_of(names@) =~= execution_names());
        let shaped = match shape(json, 0, &names, 3) {
            None => {
                return Err(WireError);
            },
            Some(shaped) => shaped,
        };
        let map = shaped.map();
        let confirmation = match map.get("confirmation") {
            None => {
                return Err(WireError);
            },
            Some(value) => value,
        };
        match (
            get_text(map, "execution_id"),
            PendingToolCalls::from_json(confirmation),
            read_confirmations(map),
        ) {
            (Some(execution_id), Ok(confirmation), Some(decisions)) => Ok(
                PendingToolExecution {
                    execution_id: execution_id.to_owned(),
                    confirmation,
                    decisions,
                },
            ),
            _ => Err(WireError),
        }
    }
}

impl ContextSummary {
    /// The JSON form of the summary.
    pub fn to_json(&self) -> (json: Json)
        ensures
            json@ == summary_json(self@),
    {
        let mut map = JsonMap::new();
        put_text(&mut map, "text", self.text.as_str());
        put(&mut map, "covered_messages", Json::Unsigned(self.covered_messages as u64));
        put_text(&mut map, "source_sha256", self.source_sha256.as_str());
        Json::Object(map)
    }

    /// Reads a summary from its JSON form.
    pub fn from_json(json: &Json) -> (result: Result<ContextSummary, WireError>)
        ensures
            match result {
                Ok(summary) => read_summary(json@) == Some(summary@),
                Err(_) => read_summary(json@) is None,
            },
    {
        let names = ["text", "covered_messages", "source_sha256"];
        assert(names_of(names@) =~= summary_names());
        let shaped = match shape(json, 0, &names, 3) {
            None => {
                return Err(WireError);
            },
            Some(shaped) => shaped,
        };
        let map = shaped.map();
        match (
            get_text(map, "text"),
            get_size(map, "covered_messages"),
            get_text(map, "source_sha256"),
        ) {
            (Some(text), Some(covered_messages), Some(source_sha256)) => Ok(
                ContextSummary {
                    text: text.to_owned(),
                    covered_messages,
                    source_sha256: source_sha256.to_owned(),
                },
            ),
            _ => Err(WireError),
        }
    }
}

fn read_messages(map: &JsonMap) -> (messages: Option<Vec<Msg>>)
    ensures
        match messages {
            Some(found) => readable_messages(map@) is Some && are_messages_of(
                views(found@),
                readable_messages(map@)->Some_0,
            ),
            None => readable_messages(map@) is None,
        },
{
    let items = match get_items(map, "messages") {
        None => {
            return None;
        },
        Some(items) => items,
    };
    let ghost all = json_views(items@);
    let mut messages: Vec<Msg> = Vec::new();
    let mut i: usize = 0;
    while i < items.len()
        invariant
            i <= items@.len(),
            all == json_views(items@),
            items_at(map@, "messages"@) == Some(all),
            messages@.len() == i,
            forall|j: int| 0 <= j < i ==> read_envelope(#[trigger] all[j]) is Some,
            forall|j: int| 0 <= j < i ==> is_msg_of((#[trigger] messages@[j])@, all[j]),
        decreases items@.len() - i,
    {
        assert(all[i as int] == items@[i as int]@);
        match Msg::from_json(&items[i]) {
            Err(_) => {
                assert(read_envelope(all[i as int]) is None);
                return None;
            },
            Ok(message) => {
                messages.push(message);
            },
        }
        i += 1;
    }
    assert forall|j: int| 0 <= j < all.len() implies is_msg_of(
        #[trigger] views(messages@)[j],
        all[j],
    ) by {
        assert(views(messages@)[j] == messages@[j]@);
    }
    Some(messages)
}

impl AgentState {
    /// The JSON form of the snapshot.
    pub fn to_json(&self) -> (json: Json)
        ensures
            json@ == state_json(self@),
    {
        let mut map = JsonMap::new();
        put(&mut map, "format_version", Json::Unsigned(self.format_version as u64));
        put_text(&mut map, "agent_name", self.agent_name.as_str());
        put(&mut map, "messages", encode_messages(self.messages.as_slice()));
        if let Some(pending) = &self.pending_tool_calls {
            put(&mut map, "pending_tool_calls", pending.to_json());
        }
        if let Some(execution) = &self.pending_tool_execution {
            put(&mut map, "pending_tool_execution", execution.to_json());
        }
        if let Some(summary) = &self.context_summary {
            put(&mut map, "context_summary", summary.to_json());
        }
        Json::Object(map)
    }

    /// Reads a snapshot from its JSON form.
    pub fn from_json(json: &Json) -> (result: Result<AgentState, WireError>)
        ensures
            match result {
                Ok(state) => is_state_of(state@, json@),
                Err(_) => !is_readable_state(json@),
            },
    {
        let names = [
            "format_version",
            "agent_name",
            "messages",
            "pending_tool_calls",
            "pending_tool_execution",
            "context_summary",
        ];
        assert(names_of(names@) =~= state_names());
        let shaped = match shape(json, 0, &names, 3) {
            None => {
                return Err(WireError);
            },
            Some(shaped) => shaped,
        };
        let map = shaped.map();
        let format_version: u32 = match get_number(map, "format_version") {
            None => {
                return Err(WireError);
            },
            Some(number) => {
                if number > u32::MAX as u64 {
                    return Err(WireError);
                }
                number as u32
            },
        };
        let agent_name = match get_text(map, "agent_name") {
            None => {
                return Err(WireError);
            },
            Some(name) => name.to_owned(),
        };
        let messages = match read_messages(map) {
            None => {
                return Err(WireError);
            },
            Some(messages) => messages,
        };
        let pending_tool_calls = match get_optional(map, "pending_tool_calls") {
            None => None,
            Some(value) => match PendingToolCalls::from_json(value) {
                Err(_) => {
                    return Err(WireError);
                },
                Ok(pending) => Some(pending),
            },
        };
        let pending_tool_execution = match get_optional(map, "pending_tool_execution") {
            None => None,
            Some(value) => match PendingToolExecution::from_json(value) {
                Err(_) => {
                    return Err(WireError);
                },
                Ok(execution) => Some(execution),
            },
        };
        let context_summary = match get_optional(map, "context_summary") {
            None => None,
            Some(value) => match ContextSummary::from_json(value) {
                Err(_) => {
                    return Err(WireError);
                },
                Ok(summary) => Some(summary),
            },
        };
        Ok(
            AgentState {
                format_version,
                agent_name,
                messages,
                pending_tool_calls,
                pending_tool_execution,
                context_summary,
            },
        )
    }
}

impl StateKey {
    /// The JSON form of the key.
    pub fn to_json(&self) -> (json: Json)
        ensures
            json@ == key_json(self@),
    {
        let mut map = JsonMap::new();
        put_text(&mut map, "user_id", self.user_id.as_str());
        put_text(&mut map, "session_id", self.session_id.as_str());
        Json::Object(map)
    }

    /// Reads a valid key from its JSON form.
    pub fn from_json(json: &Json) -> (result: Result<StateKey, WireError>)
        ensures
            match result {
                Ok(key) => read_key(json@) == Some(key@),
                Err(_) => read_key(json@) is None,
            },
    {
        let names = ["user_id", "session_id"];
        assert(names_of(names@) =~= key_names());
        let shaped = match shape(json, 0, &names, 2) {
            None => {
                return Err(WireError);
            },
            Some(shaped) => shaped,
        };
        let map = shaped.map();
        match (get_text(map, "user_id"), get_text(map, "session_id")) {
            (Some(user_id), Some(session_id)) => match StateKey::new(user_id, session_id) {
                Ok(key) => Ok(key),
                Err(_) => Err(WireError),
            },
            _ => Err(WireError),
        }
    }
}

impl StateRecord {
    /// The JSON form of the record.
    pub fn to_json(&self) -> (json: Json)
        ensures
            json@ == record_json(self@),
    {
        let mut map = JsonMap::new();
        put(&mut map, "revision", Json::Unsigned(self.revision));
        put(&mut map, "state", self.state.to_json());
        Json::Object(map)
    }

    /// Reads a record from its JSON form.
    pub fn from_json(json: &Json) -> (result: Result<StateRecord, WireError>)
        ensures
            match result {
                Ok(record) => is_record_of(record@, json@),
                Err(_) => read_record(json@) is None,
            },
    {
        let names = ["revision", "state"];
        assert(names_of(names@) =~= record_names());
        let shaped = match shape(json, 0, &names, 2) {
            None => {
                return Err(WireError);
            },
            Some(shaped) => shaped,
        };
        let map = shaped.map();
        let revision = match get_number(map, "revision") {
            None => {
                return Err(WireError);
            },
            Some(revision) => revision,
        };
        let state = match map.get("state") {
            None => {
                return Err(WireError);
            },
            Some(value) => match AgentState::from_json(value) {
                Err(_) => {
                    return Err(WireError);
                },
                Ok(state) => state,
            },
        };
        match StateRecord::from_parts(revision, state) {
            Ok(record) => Ok(record),
            Err(_) => Err(WireError),
        }
    }
}

/// Whether a checkpoint's calls are valid, as calls are that were made by their
/// constructors, and its step fits a size.
pub open spec fn is_sound_pending(pending: PendingView) -> bool {
    pending.step <= usize::MAX && forall|i: int|
        0 <= i < pending.calls.len() ==> call_identity_error(
            (#[trigger] pending.calls[i]).id,
            pending.calls[i].name,
        ) is None
}

proof fn lemma_call_read_back(call: ToolCallView)
    requires
        call_identity_error(call.id, call.name) is None,
    ensures
        is_readable_call(call_json(call)),
        forall|time: Seq<char>| #[trigger] read_bare_call(call_json(call), time) == Some(call),
{
    assert forall|time: Seq<char>| #[trigger] read_bare_call(call_json(call), time) == Some(
        call,
    ) by {
        lemma_call_round_trip(call, call_fields(call), false, time);
    }
    assert(read_bare_call(call_json(call), Seq::empty()) == Some(call));
}

/// A checkpoint is read back from its JSON form as it was, and as nothing else.
pub proof fn checkpoints_are_read_back(pending: PendingView, read: PendingView)
    requires
        is_sound_pending(pending),
    ensures
        read_pending(pending_json(pending)) is Some,
        is_pending_of(read, pending_json(pending)) ==> read == pending,
{
    reveal_strlit("reply_id");
    reveal_strlit("step");
    reveal_strlit("calls");
    assert("reply_id"@.len() == 8);
    assert("step"@.len() == 4);
    assert("calls"@.len() == 5);
    let fields = pending_json(pending)->Object_0;
    let items = pending.calls.map_values(|call: ToolCallView| call_json(call));
    assert(items_at(fields, "calls"@) == Some(items));
    assert forall|i: int| 0 <= i < items.len() implies is_readable_call(#[trigger] items[i]) by {
        lemma_call_read_back(pending.calls[i]);
    }
    assert(readable_calls(fields) == Some(items));
    if is_pending_of(read, pending_json(pending)) {
        assert forall|i: int| 0 <= i < items.len() implies #[trigger] read.calls[i]
            == pending.calls[i] by {
            lemma_call_read_back(pending.calls[i]);
            assert(is_call_of(read.calls[i], items[i]));
        }
        assert(read.calls =~= pending.calls);
        assert(read =~= pending);
    }
}

proof fn lemma_confirmation_read_back(confirmation: ConfirmationView)
    ensures
        read_confirmation(confirmation_json(confirmation)) == Some(confirmation),
{
    reveal_strlit("tool_call_id");
    reveal_strlit("decision");
    reveal_strlit("reason");
    reveal_strlit("approve");
    reveal_strlit("deny");
    assert("tool_call_id"@.len() == 12);
    assert("decision"@.len() == 8);
    assert("reason"@.len() == 6);
    assert("approve"@.len() == 7);
    assert("deny"@.len() == 4);
}

/// An execution checkpoint is read back from its JSON form as it was, and as
/// nothing else.
pub proof fn executions_are_read_back(execution: ExecutionView, read: ExecutionView)
    requires
        is_sound_pending(execution.confirmation),
    ensures
        read_execution(execution_json(execution)) is Some,
        is_execution_of(read, execution_json(execution)) ==> read == execution,
{
    reveal_strlit("execution_id");
    reveal_strlit("confirmation");
    reveal_strlit("decisions");
    assert("execution_id"@.len() == 12 && "execution_id"@[0] == 'e');
    assert("confirmation"@.len() == 12 && "confirmation"@[0] == 'c');
    assert("decisions"@.len() == 9);
    let fields = execution_json(execution)->Object_0;
    let items = execution.decisions.map_values(
        |confirmation: ConfirmationView| confirmation_json(confirmation),
    );
    assert(items_at(fields, "decisions"@) == Some(items));
    assert forall|i: int| 0 <= i < items.len() implies read_confirmation(#[trigger] items[i])
        == Some(execution.decisions[i]) by {
        lemma_confirmation_read_back(execution.decisions[i]);
    }
    assert(items.map_values(
        |item: JsonView| (|json: JsonView| read_confirmation(json))(item)->Some_0,
    ) =~= execution.decisions);
    checkpoints_are_read_back(execution.confirmation, read.confirmation);
    assert(lookup(fields, "confirmation"@) == Some(pending_json(execution.confirmation)));
    if is_execution_of(read, execution_json(execution)) {
        assert(read =~= execution);
    }
}

proof fn lemma_summary_read_back(summary: SummaryView)
    requires
        summary.covered_messages <= usize::MAX,
    ensures
        read_summary(summary_json(summary)) == Some(summary),
{
    reveal_strlit("text");
    reveal_strlit("covered_messages");
    reveal_strlit("source_sha256");
    assert("text"@.len() == 4);
    assert("covered_messages"@.len() == 16);
    assert("source_sha256"@.len() == 13);
}

/// Whether a snapshot holds valid content, as snapshots do that an agent made.
pub open spec fn is_sound_state(state: StateView) -> bool {
    &&& forall|i: int, j: int|
        0 <= i < state.messages.len() && 0 <= j < state.messages[i].content.len()
            ==> is_sound_block(#[trigger] state.messages[i].content[j])
    &&& state.pending_tool_calls matches Some(pending) ==> is_sound_pending(pending)
    &&& state.pending_tool_execution matches Some(execution) ==> is_sound_pending(
        execution.confirmation,
    )
    &&& state.context_summary matches Some(summary) ==> summary.covered_messages <= usize::MAX
}

/// A snapshot is read back from its JSON form as it was, and as nothing else.
pub proof fn states_are_read_back(state: StateView, read: StateView)
    requires
        is_sound_state(state),
    ensures
        is_readable_state(state_json(state)),
        is_state_of(read, state_json(state)) ==> read == state,
{
    reveal_strlit("format_version");
    reveal_strlit("agent_name");
    reveal_strlit("messages");
    reveal_strlit("pending_tool_calls");
    reveal_strlit("pending_tool_execution");
    reveal_strlit("context_summary");
    assert("format_version"@.len() == 14);
    assert("agent_name"@.len() == 10);
    assert("messages"@.len() == 8);
    assert("pending_tool_calls"@.len() == 18);
    assert("pending_tool_execution"@.len() == 22);
    assert("context_summary"@.len() == 15);
    let fields = state_json(state)->Object_0;
    let items = state.messages.map_values(|msg: MsgView| msg_json(msg));
    assert(items_at(fields, "messages"@) == Some(items));
    assert forall|i: int| 0 <= i < items.len() implies read_envelope(#[trigger] items[i]) is Some by {
        assert forall|j: int| 0 <= j < state.messages[i].content.len() implies is_sound_block(
            #[trigger] state.messages[i].content[j],
        ) by {}
        messages_are_read_back(state.messages[i], state.messages[i]);
    }
    assert(readable_messages(fields) == Some(items));
    if let Some(pending) = state.pending_tool_calls {
        checkpoints_are_read_back(pending, pending);
        assert(optional_at(fields, "pending_tool_calls"@) == Some(pending_json(pending)));
        if let Some(other) = read.pending_tool_calls {
            checkpoints_are_read_back(pending, other);
        }
    } else {
        assert(optional_at(fields, "pending_tool_calls"@) is None);
    }
    if let Some(execution) = state.pending_tool_execution {
        executions_are_read_back(execution, execution);
        assert(optional_at(fields, "pending_tool_execution"@) == Some(execution_json(execution)));
        if let Some(other) = read.pending_tool_execution {
            executions_are_read_back(execution, other);
        }
    } else {
        assert(optional_at(fields, "pending_tool_execution"@) is None);
    }
    if let Some(summary) = state.context_summary {
        lemma_summary_read_back(summary);
        assert(optional_at(fields, "context_summary"@) == Some(summary_json(summary)));
    } else {
        assert(optional_at(fields, "context_summary"@) is None);
    }
    if is_state_of(read, state_json(state)) {
        assert forall|i: int| 0 <= i < items.len() implies #[trigger] read.messages[i]
            == state.messages[i] by {
            assert(is_msg_of(read.messages[i], items[i]));
            assert forall|j: int|
                0 <= j < state.messages[i].content.len() implies is_sound_block(
                #[trigger] state.messages[i].content[j],
            ) by {}
            messages_are_read_back(state.messages[i], read.messages[i]);
        }
        assert(read.messages =~= state.messages);
        assert(read =~= state);
    }
}

/// A stored snapshot is read back from its JSON form as it was, and as nothing
/// else.
pub proof fn records_are_read_back(record: RecordView, read: RecordView)
    requires
        record.revision > 0,
        is_sound_state(record.state),
    ensures
        read_record(record_json(record)) is Some,
        is_record_of(read, record_json(record)) ==> read == record,
{
    reveal_strlit("revision");
    reveal_strlit("state");
    assert("revision"@.len() == 8);
    assert("state"@.len() == 5);
    states_are_read_back(record.state, read.state);
    if is_record_of(read, record_json(record)) {
        assert(read =~= record);
    }
}

} // verus!
