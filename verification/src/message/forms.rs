//! The JSON forms of messages and blocks, field by field.
use vstd::prelude::*;

use super::content::BlockView;
use super::data::{decoded_base64, SourceView};
use super::decode::{
    read_block, read_call_state, read_envelope, read_result_state, read_structured_state,
};
use super::encode::{block_json, msg_json, msgs_json, usage_json};
use super::msg::MsgView;
use super::role::Role;
use super::source::{block_source, message_source, messages_source};
use super::structured_output::StructuredOutputState;
use super::tool_call::{PermissionBehavior, RuleView, ToolCallState};
use super::tool_result::{OutputView, ResultContentView, ToolResultState};
use super::usage::Usage;
use crate::json::{json_text, parsed_json, JsonView};
use crate::text::{blank, decimal_text};

verus! {

/// A text, or `null` where there is none.
pub open spec fn or_null(text: Option<Seq<char>>) -> JsonView {
    if text is Some {
        JsonView::Text(text->Some_0)
    } else {
        JsonView::Null
    }
}

/// Where data comes from, by its type.
pub open spec fn origin(source: SourceView) -> JsonView {
    match source {
        SourceView::Base64(held) => JsonView::Object(
            map![
                "type"@ => JsonView::Text("base64"@),
                "data"@ => JsonView::Text(held.data),
                "media_type"@ => JsonView::Text(held.media_type)
            ],
        ),
        SourceView::Url(held) => JsonView::Object(
            map![
                "type"@ => JsonView::Text("url"@),
                "url"@ => JsonView::Text(held.url),
                "media_type"@ => JsonView::Text(held.media_type)
            ],
        ),
    }
}

/// A suggested rule, with its behavior by name.
pub open spec fn suggestion(rule: RuleView) -> JsonView {
    JsonView::Object(
        map![
            "tool_name"@ => JsonView::Text(rule.tool_name),
            "rule_content"@ => or_null(rule.rule_content),
            "behavior"@ => JsonView::Text(
                if rule.behavior == PermissionBehavior::Allow {
                    "allow"@
                } else if rule.behavior == PermissionBehavior::Deny {
                    "deny"@
                } else {
                    "ask"@
                },
            ),
            "source"@ => JsonView::Text(rule.source)
        ],
    )
}

/// A block inside a tool's output.
pub open spec fn output_item(content: ResultContentView) -> JsonView {
    match content {
        ResultContentView::Text(block) => block_json(BlockView::Text(block)),
        ResultContentView::Data(block) => block_json(BlockView::Data(block)),
    }
}

/// Texts, thoughts and data are stored with their type, their words or origin, their
/// identifier and their times.
pub proof fn told_blocks_are_stored_by_field(block: BlockView)
    ensures
        block matches BlockView::Text(text) ==> block_json(block) == JsonView::Object(
            map![
                "text"@ => JsonView::Text(text.text),
                "id"@ => JsonView::Text(text.id),
                "created_at"@ => JsonView::Text(text.created_at),
                "finished_at"@ => or_null(text.finished_at)
            ].insert("type"@, JsonView::Text("text"@)),
        ),
        block matches BlockView::Thinking(thinking) ==> block_json(block) == JsonView::Object(
            map![
                "thinking"@ => JsonView::Text(thinking.thinking),
                "id"@ => JsonView::Text(thinking.id),
                "created_at"@ => JsonView::Text(thinking.created_at),
                "finished_at"@ => or_null(thinking.finished_at)
            ].union_prefer_right(thinking.extra).insert("type"@, JsonView::Text("thinking"@)),
        ),
        block matches BlockView::Data(data) ==> block_json(block) == JsonView::Object(
            map![
                "id"@ => JsonView::Text(data.id),
                "source"@ => origin(data.source),
                "name"@ => or_null(data.name),
                "created_at"@ => JsonView::Text(data.created_at),
                "finished_at"@ => or_null(data.finished_at)
            ].insert("type"@, JsonView::Text("data"@)),
        ),
{
}

/// Calls, results and structured outputs are stored with their type, what they ask or
/// hold, their state by name, their identifier and their times.
pub proof fn tool_blocks_are_stored_by_field(block: BlockView)
    ensures
        block matches BlockView::ToolCall(call) ==> block_json(block) == JsonView::Object(
            map![
                "id"@ => JsonView::Text(call.id),
                "name"@ => JsonView::Text(call.name),
                "input"@ => JsonView::Text(call.input),
                "state"@ => JsonView::Text(
                    if call.state == ToolCallState::Pending {
                        "pending"@
                    } else if call.state == ToolCallState::Asking {
                        "asking"@
                    } else if call.state == ToolCallState::Allowed {
                        "allowed"@
                    } else if call.state == ToolCallState::Submitted {
                        "submitted"@
                    } else {
                        "finished"@
                    },
                ),
                "suggested_rules"@ => JsonView::Array(
                    call.suggested_rules.map_values(|rule: RuleView| suggestion(rule)),
                ),
                "created_at"@ => JsonView::Text(call.created_at),
                "finished_at"@ => or_null(call.finished_at)
            ].insert("type"@, JsonView::Text("tool_call"@)),
        ),
        block matches BlockView::ToolResult(result) ==> block_json(block) == JsonView::Object(
            map![
                "id"@ => JsonView::Text(result.id),
                "name"@ => JsonView::Text(result.name),
                "output"@ => if result.output is Text {
                    JsonView::Text(result.output->Text_0)
                } else {
                    JsonView::Array(
                        result.output->Blocks_0.map_values(
                            |content: ResultContentView| output_item(content),
                        ),
                    )
                },
                "state"@ => JsonView::Text(
                    if result.state == ToolResultState::Running {
                        "running"@
                    } else if result.state == ToolResultState::Success {
                        "success"@
                    } else if result.state == ToolResultState::Error {
                        "error"@
                    } else if result.state == ToolResultState::Interrupted {
                        "interrupted"@
                    } else {
                        "denied"@
                    },
                ),
                "metadata"@ => JsonView::Object(result.metadata),
                "created_at"@ => JsonView::Text(result.created_at),
                "finished_at"@ => or_null(result.finished_at)
            ].insert("type"@, JsonView::Text("tool_result"@)),
        ),
        block matches BlockView::StructuredOutput(structured) ==> block_json(block)
            == JsonView::Object(
            map![
                "schema"@ => structured.schema,
                "output"@ => JsonView::Text(structured.output),
                "state"@ => JsonView::Text(
                    if structured.state == StructuredOutputState::Streaming {
                        "streaming"@
                    } else {
                        "complete"@
                    },
                ),
                "id"@ => JsonView::Text(structured.id),
                "created_at"@ => JsonView::Text(structured.created_at),
                "finished_at"@ => or_null(structured.finished_at)
            ].insert("type"@, JsonView::Text("structured_output"@)),
        ),
{
    match block {
        BlockView::ToolCall(call) => {
            assert(call.suggested_rules.map_values(
                |rule: RuleView| super::encode::rule_json(rule),
            ) =~= call.suggested_rules.map_values(|rule: RuleView| suggestion(rule)));
        },
        BlockView::ToolResult(result) => {
            if let OutputView::Blocks(blocks) = result.output {
                assert(blocks.map_values(
                    |content: ResultContentView| super::encode::result_content_json(content),
                ) =~= blocks.map_values(|content: ResultContentView| output_item(content)));
            }
        },
        _ => {},
    }
}

/// Messages are stored with who says what, when and under which identifier, with
/// their metadata, and with usage where there is some.
pub proof fn messages_are_stored_by_field(msg: MsgView)
    ensures
        ({
            let fields = map![
                "name"@ => JsonView::Text(msg.name),
                "content"@ => JsonView::Array(
                    msg.content.map_values(|block: BlockView| block_json(block)),
                ),
                "role"@ => JsonView::Text(
                    if msg.role == Role::System {
                        "system"@
                    } else if msg.role == Role::User {
                        "user"@
                    } else {
                        "assistant"@
                    },
                ),
                "id"@ => JsonView::Text(msg.id),
                "metadata"@ => JsonView::Object(msg.metadata),
                "created_at"@ => JsonView::Text(msg.created_at)
            ];
            &&& msg.usage is None ==> msg_json(msg) == JsonView::Object(fields)
            &&& msg.usage is Some ==> msg_json(msg) == JsonView::Object(
                fields.insert("usage"@, usage_json(msg.usage->Some_0)),
            )
        }),
{
}

/// Conversations are stored message by message.
pub proof fn conversations_are_stored_in_order(msgs: Seq<MsgView>)
    ensures
        msgs_json(msgs) is Array,
        msgs_json(msgs)->Array_0.len() == msgs.len(),
        forall|i: int|
            0 <= i < msgs.len() ==> #[trigger] msgs_json(msgs)->Array_0[i] == msg_json(msgs[i]),
{
}

/// Usage is stored counter by counter, and details only where there are some.
pub proof fn usage_is_stored_by_counter(usage: Usage)
    ensures
        ({
            let core = map![
                "input_tokens"@ => JsonView::Unsigned(usage.input_tokens),
                "output_tokens"@ => JsonView::Unsigned(usage.output_tokens)
            ];
            &&& usage.reasoning_tokens is None && usage.cached_input_tokens is None ==> usage_json(
                usage,
            ) == JsonView::Object(core)
            &&& usage.reasoning_tokens is Some && usage.cached_input_tokens is None ==> usage_json(
                usage,
            ) == JsonView::Object(
                core.insert(
                    "reasoning_tokens"@,
                    JsonView::Unsigned(usage.reasoning_tokens->Some_0),
                ),
            )
            &&& usage.reasoning_tokens is None && usage.cached_input_tokens is Some ==> usage_json(
                usage,
            ) == JsonView::Object(
                core.insert(
                    "cached_input_tokens"@,
                    JsonView::Unsigned(usage.cached_input_tokens->Some_0),
                ),
            )
            &&& usage.reasoning_tokens is Some && usage.cached_input_tokens is Some ==> usage_json(
                usage,
            ) == JsonView::Object(
                core.insert(
                    "reasoning_tokens"@,
                    JsonView::Unsigned(usage.reasoning_tokens->Some_0),
                ).insert(
                    "cached_input_tokens"@,
                    JsonView::Unsigned(usage.cached_input_tokens->Some_0),
                ),
            )
        }),
{
}

/// The text that digests are taken of holds every field of a message, in order.
pub proof fn digested_texts_hold_every_field(msg: MsgView)
    ensures
        message_source(msg) == "{\"name\":"@ + json_text(JsonView::Text(msg.name))
            + ",\"content\":"@ + super::source::array_source(
            msg.content.map_values(|block: BlockView| block_source(block)),
        ) + ",\"role\":"@ + json_text(
            JsonView::Text(
                if msg.role == Role::System {
                    "system"@
                } else if msg.role == Role::User {
                    "user"@
                } else {
                    "assistant"@
                },
            ),
        ) + ",\"id\":"@ + json_text(JsonView::Text(msg.id)) + ",\"metadata\":"@ + json_text(
            JsonView::Object(msg.metadata),
        ) + (if msg.usage is Some {
            ",\"usage\":"@ + counters_text(msg.usage->Some_0)
        } else {
            Seq::<char>::empty()
        }) + ",\"created_at\":"@ + json_text(JsonView::Text(msg.created_at)) + "}"@,
{
}

/// The text of usage that digests are taken of.
pub open spec fn counters_text(usage: Usage) -> Seq<char> {
    "{\"input_tokens\":"@ + decimal_text(usage.input_tokens as nat) + ",\"output_tokens\":"@
        + decimal_text(usage.output_tokens as nat) + (if usage.reasoning_tokens is Some {
        ",\"reasoning_tokens\":"@ + decimal_text(usage.reasoning_tokens->Some_0 as nat)
    } else {
        Seq::<char>::empty()
    }) + (if usage.cached_input_tokens is Some {
        ",\"cached_input_tokens\":"@ + decimal_text(usage.cached_input_tokens->Some_0 as nat)
    } else {
        Seq::<char>::empty()
    }) + "}"@
}

/// The text of a conversation lists that of its messages, in brackets and with commas
/// between them.
pub proof fn conversations_are_digested_in_order(front: Seq<MsgView>, msg: MsgView)
    ensures
        messages_source(Seq::empty()) == "["@ + Seq::<char>::empty() + "]"@,
        messages_source(seq![msg]) == "["@ + message_source(msg) + "]"@,
        front.len() > 0 ==> exists|inner: Seq<char>|
            messages_source(front) == #[trigger] ("["@ + inner + "]"@) && messages_source(
                front.push(msg),
            ) == "["@ + (inner + ","@ + message_source(msg)) + "]"@,
{
    let texts = |msgs: Seq<MsgView>| msgs.map_values(|msg: MsgView| message_source(msg));
    assert(texts(Seq::empty()) =~= Seq::<Seq<char>>::empty());
    assert(texts(seq![msg]) =~= seq![message_source(msg)]);
    assert(texts(front.push(msg)) =~= texts(front).push(message_source(msg)));
    assert(texts(front.push(msg)).drop_last() =~= texts(front));
    let inner = crate::text::joined(texts(front), ","@);
    if front.len() > 0 {
        assert(messages_source(front) == "["@ + inner + "]"@);
        assert(messages_source(front.push(msg)) == "["@ + (inner + ","@ + message_source(msg))
            + "]"@);
    }
}

/// A block is read from an object by its type and its fields, each under its name.
pub proof fn blocks_are_read_by_field(
    fields: Map<Seq<char>, JsonView>,
    time: Seq<char>,
    id: Seq<char>,
    block: BlockView,
)
    requires
        read_block(JsonView::Object(fields), time, id) == Some(block),
    ensures
        block matches BlockView::Text(text) ==> {
            &&& fields.contains_pair("type"@, JsonView::Text("text"@))
            &&& fields.contains_pair("text"@, JsonView::Text(text.text))
            &&& fields.contains_pair("id"@, JsonView::Text(text.id))
        },
        block matches BlockView::Thinking(thinking) ==> {
            &&& fields.contains_pair("type"@, JsonView::Text("thinking"@))
            &&& fields.contains_pair("thinking"@, JsonView::Text(thinking.thinking))
            &&& fields.contains_pair("id"@, JsonView::Text(thinking.id))
            &&& forall|key: Seq<char>| #[trigger]
                thinking.extra.contains_key(key) ==> fields.contains_pair(key, thinking.extra[key])
        },
        block matches BlockView::ToolCall(call) ==> {
            &&& fields.contains_pair("type"@, JsonView::Text("tool_call"@))
            &&& fields.contains_pair("id"@, JsonView::Text(call.id))
            &&& fields.contains_pair("name"@, JsonView::Text(call.name))
            &&& fields.contains_pair("input"@, JsonView::Text(call.input))
            &&& !blank(call.id) && !blank(call.name)
            &&& !fields.contains_key("state"@) ==> call.state == ToolCallState::Pending
            &&& !fields.contains_key("suggested_rules"@) ==> call.suggested_rules.len() == 0
            &&& !fields.contains_key("created_at"@) ==> call.created_at == time
            &&& !fields.contains_key("finished_at"@) ==> call.finished_at is None
        },
        block matches BlockView::ToolResult(result) ==> {
            &&& fields.contains_pair("type"@, JsonView::Text("tool_result"@))
            &&& fields.contains_pair("id"@, JsonView::Text(result.id))
            &&& fields.contains_pair("name"@, JsonView::Text(result.name))
            &&& !blank(result.id) && !blank(result.name)
            &&& result.output matches OutputView::Text(text) ==> fields.contains_pair(
                "output"@,
                JsonView::Text(text),
            )
            &&& !fields.contains_key("state"@) ==> result.state == ToolResultState::Running
            &&& !fields.contains_key("metadata"@) ==> result.metadata.dom().is_empty()
            &&& !fields.contains_key("created_at"@) ==> result.created_at == time
        },
        block matches BlockView::StructuredOutput(structured) ==> {
            &&& fields.contains_pair("type"@, JsonView::Text("structured_output"@))
            &&& fields.contains_pair("schema"@, structured.schema)
            &&& fields.contains_pair("output"@, JsonView::Text(structured.output))
            &&& structured.schema is Object || structured.schema is Bool
            &&& structured.state == StructuredOutputState::Complete ==> parsed_json(
                structured.output,
            ) is Ok
            &&& !fields.contains_key("state"@) ==> structured.state
                == StructuredOutputState::Streaming
            &&& !fields.contains_key("id"@) ==> structured.id == id
        },
        block matches BlockView::Data(data) ==> {
            &&& fields.contains_pair("type"@, JsonView::Text("data"@))
            &&& fields.contains_pair("id"@, JsonView::Text(data.id))
            &&& data.source matches SourceView::Base64(held) ==> decoded_base64(held.data) is Ok
                && !blank(held.media_type)
            &&& data.source matches SourceView::Url(held) ==> !blank(held.media_type)
        },
{
    lemma_state_names();
}

proof fn lemma_state_names()
    ensures
        read_call_state("pending"@) == Some(ToolCallState::Pending),
        read_result_state("running"@) == Some(ToolResultState::Running),
        read_structured_state("streaming"@) == Some(StructuredOutputState::Streaming),
{
}

/// A message is read from an object by its fields; it has no metadata and no usage
/// where the object has none.
pub proof fn messages_are_read_by_field(
    fields: Map<Seq<char>, JsonView>,
    msg: MsgView,
    items: Seq<JsonView>,
)
    requires
        read_envelope(JsonView::Object(fields)) == Some((msg, items)),
    ensures
        fields.contains_pair("name"@, JsonView::Text(msg.name)),
        fields.contains_pair("id"@, JsonView::Text(msg.id)),
        fields.contains_pair("created_at"@, JsonView::Text(msg.created_at)),
        fields.contains_pair("content"@, JsonView::Array(items)),
        fields.contains_key("metadata"@) ==> fields["metadata"@] == JsonView::Object(msg.metadata),
        !fields.contains_key("metadata"@) ==> msg.metadata.dom().is_empty(),
        !fields.contains_key("usage"@) ==> msg.usage is None,
        fields.contains_pair("role"@, JsonView::Text("user"@)) ==> msg.role == Role::User,
        fields.contains_pair("role"@, JsonView::Text("assistant"@)) ==> msg.role
            == Role::Assistant,
        fields.contains_pair("role"@, JsonView::Text("system"@)) ==> msg.role == Role::System,
{
    reveal_strlit("user");
    reveal_strlit("assistant");
    reveal_strlit("system");
    assert("user"@.len() == 4 && "assistant"@.len() == 9 && "system"@.len() == 6);
}

} // verus!
