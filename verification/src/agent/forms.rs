//! The JSON forms of states, checkpoints and decisions, field by field.
use vstd::prelude::*;

use super::confirmation::{ConfirmationView, DecisionView, ExecutionView, PendingView};
use super::hook::{hook_error_json, HookErrorView};
use super::state::StateView;
use super::store::{KeyView, RecordView};
use super::wire::{execution_json, key_json, pending_json, record_json, state_json, summary_json};
use crate::context::summary::SummaryView;
use crate::json::JsonView;
use crate::message::content::BlockView;
use crate::message::encode::{block_json, msg_json};
use crate::message::msg::MsgView;
use crate::message::tool_call::ToolCallView;

verus! {

/// Whether a form is that of a call: a call block without its type.
pub open spec fn forms_call(form: JsonView, call: ToolCallView) -> bool {
    form is Object && form->Object_0.insert("type"@, JsonView::Text("tool_call"@)) == block_json(
        BlockView::ToolCall(call),
    )->Object_0 && !form->Object_0.contains_key("type"@)
}

/// A checkpoint is stored with the reply it belongs to, its step and its calls.
pub proof fn checkpoints_are_stored_by_field(pending: PendingView)
    ensures
        pending_json(pending) is Object,
        pending_json(pending)->Object_0.dom() == set!["reply_id"@, "step"@, "calls"@],
        pending_json(pending)->Object_0["reply_id"@] == JsonView::Text(pending.reply_id),
        pending_json(pending)->Object_0["step"@] == JsonView::Unsigned(pending.step as u64),
        pending_json(pending)->Object_0["calls"@] is Array,
        pending_json(pending)->Object_0["calls"@]->Array_0.len() == pending.calls.len(),
        forall|i: int|
            0 <= i < pending.calls.len() ==> forms_call(
                #[trigger] pending_json(pending)->Object_0["calls"@]->Array_0[i],
                pending.calls[i],
            ),
{
    lemma_checkpoint_keys();
    assert(pending_json(pending)->Object_0.dom() =~= set!["reply_id"@, "step"@, "calls"@]);
    assert forall|i: int| 0 <= i < pending.calls.len() implies forms_call(
        #[trigger] pending_json(pending)->Object_0["calls"@]->Array_0[i],
        pending.calls[i],
    ) by {
        lemma_call_keys(pending.calls[i]);
    }
}

proof fn lemma_checkpoint_keys()
    ensures
        "reply_id"@ != "step"@,
        "reply_id"@ != "calls"@,
        "step"@ != "calls"@,
{
    reveal_strlit("reply_id");
    reveal_strlit("step");
    reveal_strlit("calls");
    assert("reply_id"@.len() == 8 && "step"@.len() == 4 && "calls"@.len() == 5);
}

proof fn lemma_call_keys(call: ToolCallView)
    ensures
        !crate::message::encode::call_fields(call).contains_key("type"@),
{
    reveal_strlit("type");
    reveal_strlit("id");
    reveal_strlit("name");
    reveal_strlit("input");
    reveal_strlit("state");
    reveal_strlit("suggested_rules");
    reveal_strlit("created_at");
    reveal_strlit("finished_at");
    assert("type"@.len() == 4 && "type"@[0] == 't');
    assert("id"@.len() == 2);
    assert("name"@.len() == 4 && "name"@[0] == 'n');
    assert("input"@.len() == 5);
    assert("state"@.len() == 5);
    assert("suggested_rules"@.len() == 15);
    assert("created_at"@.len() == 10);
    assert("finished_at"@.len() == 11);
}

/// A decision is stored by its name, a denial with its reason, and each for the call
/// it decides.
pub open spec fn decided_form(confirmation: ConfirmationView) -> JsonView {
    JsonView::Object(
        map![
            "tool_call_id"@ => JsonView::Text(confirmation.tool_call_id),
            "decision"@ => match confirmation.decision {
                DecisionView::Approve => JsonView::Object(
                    map!["decision"@ => JsonView::Text("approve"@)],
                ),
                DecisionView::Deny(reason) => JsonView::Object(
                    map![
                        "decision"@ => JsonView::Text("deny"@),
                        "reason"@ => JsonView::Text(reason)
                    ],
                ),
            }
        ],
    )
}

/// An execution is stored with its identifier, its checkpoint and every decision.
pub proof fn executions_are_stored_by_field(execution: ExecutionView)
    ensures
        execution_json(execution) == JsonView::Object(
            map![
                "execution_id"@ => JsonView::Text(execution.execution_id),
                "confirmation"@ => pending_json(execution.confirmation),
                "decisions"@ => JsonView::Array(
                    execution.decisions.map_values(
                        |confirmation: ConfirmationView| decided_form(confirmation),
                    ),
                )
            ],
        ),
{
    assert(execution.decisions.map_values(
        |confirmation: ConfirmationView| super::wire::confirmation_json(confirmation),
    ) =~= execution.decisions.map_values(
        |confirmation: ConfirmationView| decided_form(confirmation),
    ));
}

/// A state is stored with its format, its agent and every message; checkpoint,
/// execution and summary only where there are some.
pub proof fn states_are_stored_by_field(state: StateView)
    ensures
        ({
            let fields = map![
                "format_version"@ => JsonView::Unsigned(state.format_version as u64),
                "agent_name"@ => JsonView::Text(state.agent_name),
                "messages"@ => JsonView::Array(
                    state.messages.map_values(|msg: MsgView| msg_json(msg)),
                )
            ];
            let asked = if state.pending_tool_calls is Some {
                fields.insert(
                    "pending_tool_calls"@,
                    pending_json(state.pending_tool_calls->Some_0),
                )
            } else {
                fields
            };
            let executed = if state.pending_tool_execution is Some {
                asked.insert(
                    "pending_tool_execution"@,
                    execution_json(state.pending_tool_execution->Some_0),
                )
            } else {
                asked
            };
            state_json(state) == JsonView::Object(
                if state.context_summary is Some {
                    executed.insert(
                        "context_summary"@,
                        summary_json(state.context_summary->Some_0),
                    )
                } else {
                    executed
                },
            )
        }),
{
}

/// Summaries, keys, records and the failures of hooks are stored field by field.
pub proof fn records_are_stored_by_field(
    summary: SummaryView,
    key: KeyView,
    record: RecordView,
    error: HookErrorView,
)
    ensures
        summary_json(summary) == JsonView::Object(
            map![
                "text"@ => JsonView::Text(summary.text),
                "covered_messages"@ => JsonView::Unsigned(summary.covered_messages as u64),
                "source_sha256"@ => JsonView::Text(summary.source_sha256)
            ],
        ),
        key_json(key) == JsonView::Object(
            map![
                "user_id"@ => JsonView::Text(key.user_id),
                "session_id"@ => JsonView::Text(key.session_id)
            ],
        ),
        record_json(record) == JsonView::Object(
            map![
                "revision"@ => JsonView::Unsigned(record.revision),
                "state"@ => state_json(record.state)
            ],
        ),
        error.code is None ==> hook_error_json(error) == JsonView::Object(
            map!["message"@ => JsonView::Text(error.message)],
        ),
        error.code matches Some(code) ==> hook_error_json(error) == JsonView::Object(
            map!["message"@ => JsonView::Text(error.message)].insert(
                "code"@,
                JsonView::Text(code),
            ),
        ),
{
}

} // verus!
