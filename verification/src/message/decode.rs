//! Messages and their content read from their JSON form.
//!
//! Fields that are not known are passed over, except in thinking blocks, which keep
//! them as extensions.
use vstd::prelude::*;

use super::content::{BlockView, ContentBlock, TextBlock, TextView};
use super::data::{
    decoded_base64, parsed_url, Base64Source, Base64View, DataBlock, DataSource, DataView,
    SourceView, UrlSource, UrlView,
};
use super::encode::{
    block_json, call_fields, data_fields, msg_json, output_json, result_content_json,
    result_fields, rule_json, source_json, structured_fields, text_fields, thinking_fields,
    usage_json,
};
use super::msg::{Msg, MsgView};
use super::role::{role_text, Role};
use super::shape::{
    fields_of, get_tag, get_variant, names_of, shape, tag_name, variant_at, variant_or, Fields,
};
use super::structured_output::{
    structured_state_text, StructuredOutputBlock, StructuredOutputState, StructuredView,
};
use super::thinking::{reserved_thinking_field, ThinkingBlock, ThinkingView};
use super::tool_call::{
    behavior_text, call_identity_error, call_state_text, PermissionBehavior, PermissionRule,
    RuleView, ToolCallBlock, ToolCallState, ToolCallView,
};
use super::tool_result::{
    result_identity_error, result_state_text, OutputView, ResultContentView, ToolResultBlock,
    ToolResultContent, ToolResultOutput, ToolResultState, ToolResultView,
};
use super::usage::Usage;
use super::{generate_id, generate_timestamp, is_generated_id, is_timestamp};
use crate::assoc::assoc_map;
use crate::json::{as_text, json_views, lookup, parsed_json, schema_root, Json, JsonMap, JsonView};
use crate::text::{blank, same_text, text_option};
use crate::view::views;

verus! {

/// A JSON value is not the form of what was to be read.
#[derive(Clone, Copy, Debug, PartialEq, Eq)]
pub struct WireError;

/// The names of the fields of a text block, in order.
pub open spec fn text_names() -> Seq<Seq<char>> {
    seq!["text"@, "id"@, "created_at"@, "finished_at"@]
}

/// The names of the fields of a permission rule, in order.
pub open spec fn rule_names() -> Seq<Seq<char>> {
    seq!["tool_name"@, "rule_content"@, "behavior"@, "source"@]
}

/// The names of the fields of a tool call, in order.
pub open spec fn call_names() -> Seq<Seq<char>> {
    seq![
        "id"@,
        "name"@,
        "input"@,
        "state"@,
        "suggested_rules"@,
        "created_at"@,
        "finished_at"@,
    ]
}

/// The names of the kinds of data sources, in order.
pub open spec fn source_kinds() -> Seq<Seq<char>> {
    seq!["base64"@, "url"@]
}

/// The names of the fields of inline data, in order.
pub open spec fn base64_names() -> Seq<Seq<char>> {
    seq!["data"@, "media_type"@]
}

/// The names of the fields of addressed data, in order.
pub open spec fn url_names() -> Seq<Seq<char>> {
    seq!["url"@, "media_type"@]
}

/// The names of the fields of a data block, in order.
pub open spec fn data_names() -> Seq<Seq<char>> {
    seq!["id"@, "source"@, "name"@, "created_at"@, "finished_at"@]
}

/// The names of the kinds of blocks of tool output, in order.
pub open spec fn result_content_kinds() -> Seq<Seq<char>> {
    seq!["text"@, "data"@]
}

/// The names of the fields of a tool result, in order.
pub open spec fn result_names() -> Seq<Seq<char>> {
    seq!["id"@, "name"@, "output"@, "state"@, "metadata"@, "created_at"@, "finished_at"@]
}

/// The names of the fields of structured output, in order.
pub open spec fn structured_names() -> Seq<Seq<char>> {
    seq!["schema"@, "output"@, "state"@, "id"@, "created_at"@, "finished_at"@]
}

/// The names of the fields of usage, in order.
pub open spec fn usage_names() -> Seq<Seq<char>> {
    seq!["input_tokens"@, "output_tokens"@, "reasoning_tokens"@, "cached_input_tokens"@]
}

/// The names of the fields of a message, in order.
pub open spec fn msg_names() -> Seq<Seq<char>> {
    seq!["name"@, "content"@, "role"@, "id"@, "metadata"@, "usage"@, "created_at"@]
}

/// The text of a field.
pub open spec fn text_at(fields: Fields, key: Seq<char>) -> Option<Seq<char>> {
    match lookup(fields, key) {
        Some(value) => as_text(value),
        None => None,
    }
}

/// The text of a field that may be missing or `null`.
pub open spec fn optional_text_at(fields: Fields, key: Seq<char>) -> Option<Option<Seq<char>>> {
    match lookup(fields, key) {
        None => Some(None),
        Some(JsonView::Null) => Some(None),
        Some(JsonView::Text(text)) => Some(Some(text)),
        Some(_) => None,
    }
}

/// The text of a field, or another one where it is missing.
pub open spec fn text_or(fields: Fields, key: Seq<char>, other: Seq<char>) -> Option<Seq<char>> {
    match lookup(fields, key) {
        None => Some(other),
        Some(value) => as_text(value),
    }
}

/// The entries of a field, or none where it is missing.
pub open spec fn object_or_empty(fields: Fields, key: Seq<char>) -> Option<Fields> {
    match lookup(fields, key) {
        None => Some(Map::empty()),
        Some(JsonView::Object(map)) => Some(map),
        Some(_) => None,
    }
}

/// The number of a field that may be missing or `null`.
pub open spec fn optional_number_at(fields: Fields, key: Seq<char>) -> Option<Option<u64>> {
    match lookup(fields, key) {
        None => Some(None),
        Some(JsonView::Null) => Some(None),
        Some(JsonView::Unsigned(number)) => Some(Some(number)),
        Some(_) => None,
    }
}

/// The values that items stand for, if each of them stands for one.
pub open spec fn read_all<T>(items: Seq<JsonView>, read: spec_fn(JsonView) -> Option<T>) -> Option<
    Seq<T>,
> {
    if forall|i: int| 0 <= i < items.len() ==> read(#[trigger] items[i]) is Some {
        Some(items.map_values(|item: JsonView| read(item)->Some_0))
    } else {
        None
    }
}

/// The role that a name stands for.
pub open spec fn read_role(name: Seq<char>) -> Option<Role> {
    if name == role_text(Role::System) {
        Some(Role::System)
    } else if name == role_text(Role::User) {
        Some(Role::User)
    } else if name == role_text(Role::Assistant) {
        Some(Role::Assistant)
    } else {
        None
    }
}

/// The behavior that a name stands for.
pub open spec fn read_behavior(name: Seq<char>) -> Option<PermissionBehavior> {
    if name == behavior_text(PermissionBehavior::Allow) {
        Some(PermissionBehavior::Allow)
    } else if name == behavior_text(PermissionBehavior::Deny) {
        Some(PermissionBehavior::Deny)
    } else if name == behavior_text(PermissionBehavior::Ask) {
        Some(PermissionBehavior::Ask)
    } else {
        None
    }
}

/// The state of a tool call that a name stands for.
pub open spec fn read_call_state(name: Seq<char>) -> Option<ToolCallState> {
    if name == call_state_text(ToolCallState::Pending) {
        Some(ToolCallState::Pending)
    } else if name == call_state_text(ToolCallState::Asking) {
        Some(ToolCallState::Asking)
    } else if name == call_state_text(ToolCallState::Allowed) {
        Some(ToolCallState::Allowed)
    } else if name == call_state_text(ToolCallState::Submitted) {
        Some(ToolCallState::Submitted)
    } else if name == call_state_text(ToolCallState::Finished) {
        Some(ToolCallState::Finished)
    } else {
        None
    }
}

/// The state of a tool result that a name stands for.
pub open spec fn read_result_state(name: Seq<char>) -> Option<ToolResultState> {
    if name == result_state_text(ToolResultState::Running) {
        Some(ToolResultState::Running)
    } else if name == result_state_text(ToolResultState::Success) {
        Some(ToolResultState::Success)
    } else if name == result_state_text(ToolResultState::Error) {
        Some(ToolResultState::Error)
    } else if name == result_state_text(ToolResultState::Interrupted) {
        Some(ToolResultState::Interrupted)
    } else if name == result_state_text(ToolResultState::Denied) {
        Some(ToolResultState::Denied)
    } else {
        None
    }
}

/// The state of structured output that a name stands for.
pub open spec fn read_structured_state(name: Seq<char>) -> Option<StructuredOutputState> {
    if name == structured_state_text(StructuredOutputState::Streaming) {
        Some(StructuredOutputState::Streaming)
    } else if name == structured_state_text(StructuredOutputState::Complete) {
        Some(StructuredOutputState::Complete)
    } else {
        None
    }
}

/// The text block that fields stand for.
pub open spec fn read_text(fields: Fields) -> Option<TextView> {
    match (
        text_at(fields, "text"@),
        text_at(fields, "id"@),
        text_at(fields, "created_at"@),
        optional_text_at(fields, "finished_at"@),
    ) {
        (Some(text), Some(id), Some(created_at), Some(finished_at)) => Some(
            TextView { text, id, created_at, finished_at },
        ),
        _ => None,
    }
}

/// The fields that are no standard fields of a thinking block.
pub open spec fn extensions_of(fields: Fields) -> Fields {
    fields.remove("type"@).remove("thinking"@).remove("id"@).remove("created_at"@).remove(
        "finished_at"@,
    )
}

/// The thinking block that fields stand for.
pub open spec fn read_thinking(fields: Fields) -> Option<ThinkingView> {
    match (
        text_at(fields, "thinking"@),
        text_at(fields, "id"@),
        text_at(fields, "created_at"@),
        optional_text_at(fields, "finished_at"@),
    ) {
        (Some(thinking), Some(id), Some(created_at), Some(finished_at)) => Some(
            ThinkingView { thinking, id, created_at, finished_at, extra: extensions_of(fields) },
        ),
        _ => None,
    }
}

/// The permission rule that a value stands for, in nested content or not.
pub open spec fn read_rule(json: JsonView, nested: bool) -> Option<RuleView> {
    match fields_of(json, 0, rule_names(), 4) {
        Some(fields) => match (
            text_at(fields, "tool_name"@),
            optional_text_at(fields, "rule_content"@),
            variant_at(fields, "behavior"@, nested),
            text_at(fields, "source"@),
        ) {
            (Some(tool_name), Some(rule_content), Some(behavior), Some(source)) => match read_behavior(
                behavior,
            ) {
                Some(behavior) => Some(RuleView { tool_name, rule_content, behavior, source }),
                None => None,
            },
            _ => None,
        },
        None => None,
    }
}

/// The rules that a field stands for; none where it is missing.
pub open spec fn read_rules(fields: Fields, nested: bool) -> Option<Seq<RuleView>> {
    match lookup(fields, "suggested_rules"@) {
        None => Some(Seq::empty()),
        Some(JsonView::Array(items)) => read_all(items, |json: JsonView| read_rule(json, nested)),
        Some(_) => None,
    }
}

/// The state that a field of a tool call stands for; pending where it is missing.
pub open spec fn read_call_state_at(fields: Fields, nested: bool) -> Option<ToolCallState> {
    match variant_or(fields, "state"@, nested, call_state_text(ToolCallState::Pending)) {
        Some(name) => read_call_state(name),
        None => None,
    }
}

/// The tool call that fields stand for, in nested content or not, created at a time
/// where they do not say.
pub open spec fn read_call(fields: Fields, nested: bool, time: Seq<char>) -> Option<ToolCallView> {
    match (
        text_at(fields, "id"@),
        text_at(fields, "name"@),
        text_at(fields, "input"@),
        read_call_state_at(fields, nested),
        read_rules(fields, nested),
        text_or(fields, "created_at"@, time),
        optional_text_at(fields, "finished_at"@),
    ) {
        (
            Some(id),
            Some(name),
            Some(input),
            Some(state),
            Some(suggested_rules),
            Some(created_at),
            Some(finished_at),
        ) => if call_identity_error(id, name) is None {
            Some(
                ToolCallView { id, name, input, state, suggested_rules, created_at, finished_at },
            )
        } else {
            None
        },
        _ => None,
    }
}

/// The inline data that fields stand for.
pub open spec fn read_base64(fields: Fields) -> Option<SourceView> {
    match (text_at(fields, "data"@), text_at(fields, "media_type"@)) {
        (Some(data), Some(media_type)) => if decoded_base64(data) is Ok && !blank(media_type) {
            Some(SourceView::Base64(Base64View { data, media_type }))
        } else {
            None
        },
        _ => None,
    }
}

/// The addressed data that fields stand for.
pub open spec fn read_url(fields: Fields) -> Option<SourceView> {
    match (text_at(fields, "url"@), text_at(fields, "media_type"@)) {
        (Some(url), Some(media_type)) => match parsed_url(url) {
            Ok(parsed) => if !blank(media_type) {
                Some(SourceView::Url(UrlView { url: parsed, media_type }))
            } else {
                None
            },
            Err(_) => None,
        },
        _ => None,
    }
}

/// The data source that a value stands for. It is always nested content.
pub open spec fn read_source(json: JsonView) -> Option<SourceView> {
    match tag_name(json, "type"@, source_kinds(), true) {
        Some(name) => if name == "base64"@ {
            match fields_of(json, 1, base64_names(), 2) {
                Some(fields) => read_base64(fields),
                None => None,
            }
        } else if name == "url"@ {
            match fields_of(json, 1, url_names(), 2) {
                Some(fields) => read_url(fields),
                None => None,
            }
        } else {
            None
        },
        None => None,
    }
}

/// The source that a field stands for.
pub open spec fn read_source_at(fields: Fields) -> Option<SourceView> {
    match lookup(fields, "source"@) {
        Some(json) => read_source(json),
        None => None,
    }
}

/// The data block that fields stand for.
pub open spec fn read_data(fields: Fields) -> Option<DataView> {
    match (
        text_at(fields, "id"@),
        read_source_at(fields),
        optional_text_at(fields, "name"@),
        text_at(fields, "created_at"@),
        optional_text_at(fields, "finished_at"@),
    ) {
        (Some(id), Some(source), Some(name), Some(created_at), Some(finished_at)) => Some(
            DataView { id, source, name, created_at, finished_at },
        ),
        _ => None,
    }
}

/// The text block that a tagged value stands for.
pub open spec fn read_tagged_text(json: JsonView) -> Option<TextView> {
    match fields_of(json, 1, text_names(), 4) {
        Some(fields) => read_text(fields),
        None => None,
    }
}

/// The data block that a tagged value stands for.
pub open spec fn read_tagged_data(json: JsonView) -> Option<DataView> {
    match fields_of(json, 1, data_names(), 5) {
        Some(fields) => read_data(fields),
        None => None,
    }
}

/// The block of tool output that a value stands for. It is always nested content.
pub open spec fn read_result_content(json: JsonView) -> Option<ResultContentView> {
    match tag_name(json, "type"@, result_content_kinds(), true) {
        Some(name) => if name == "text"@ {
            match read_tagged_text(json) {
                Some(block) => Some(ResultContentView::Text(block)),
                None => None,
            }
        } else if name == "data"@ {
            match read_tagged_data(json) {
                Some(block) => Some(ResultContentView::Data(block)),
                None => None,
            }
        } else {
            None
        },
        None => None,
    }
}

/// The tool output that a field stands for.
pub open spec fn read_output(fields: Fields) -> Option<OutputView> {
    match lookup(fields, "output"@) {
        Some(JsonView::Text(text)) => Some(OutputView::Text(text)),
        Some(JsonView::Array(items)) => match read_all(
            items,
            |json: JsonView| read_result_content(json),
        ) {
            Some(blocks) => Some(OutputView::Blocks(blocks)),
            None => None,
        },
        _ => None,
    }
}

/// The state that a field of a tool result stands for; running where it is missing.
pub open spec fn read_result_state_at(fields: Fields) -> Option<ToolResultState> {
    match variant_or(fields, "state"@, true, result_state_text(ToolResultState::Running)) {
        Some(name) => read_result_state(name),
        None => None,
    }
}

/// The tool result that fields stand for, created at a time where they do not say.
pub open spec fn read_result(fields: Fields, time: Seq<char>) -> Option<ToolResultView> {
    match (
        text_at(fields, "id"@),
        text_at(fields, "name"@),
        read_output(fields),
        read_result_state_at(fields),
        object_or_empty(fields, "metadata"@),
        text_or(fields, "created_at"@, time),
        optional_text_at(fields, "finished_at"@),
    ) {
        (
            Some(id),
            Some(name),
            Some(output),
            Some(state),
            Some(metadata),
            Some(created_at),
            Some(finished_at),
        ) => if result_identity_error(id, name) is None {
            Some(ToolResultView { id, name, output, state, metadata, created_at, finished_at })
        } else {
            None
        },
        _ => None,
    }
}

/// The state that a field of structured output stands for; streaming where it is
/// missing.
pub open spec fn read_structured_state_at(fields: Fields) -> Option<StructuredOutputState> {
    match variant_or(
        fields,
        "state"@,
        true,
        structured_state_text(StructuredOutputState::Streaming),
    ) {
        Some(name) => read_structured_state(name),
        None => None,
    }
}

/// The structured output that fields stand for, with an identifier and created at a
/// time where they do not say.
pub open spec fn read_structured(fields: Fields, time: Seq<char>, id: Seq<char>) -> Option<
    StructuredView,
> {
    match (
        lookup(fields, "schema"@),
        text_at(fields, "output"@),
        read_structured_state_at(fields),
        text_or(fields, "id"@, id),
        text_or(fields, "created_at"@, time),
        optional_text_at(fields, "finished_at"@),
    ) {
        (
            Some(schema),
            Some(output),
            Some(state),
            Some(id),
            Some(created_at),
            Some(finished_at),
        ) => if schema_root(schema) && (state == StructuredOutputState::Complete ==> parsed_json(
            output,
        ) is Ok) {
            Some(StructuredView { schema, output, state, id, created_at, finished_at })
        } else {
            None
        },
        _ => None,
    }
}

/// The tool call that a tagged value stands for.
pub open spec fn read_tagged_call(json: JsonView, time: Seq<char>) -> Option<ToolCallView> {
    match fields_of(json, 1, call_names(), 3) {
        Some(fields) => read_call(fields, true, time),
        None => None,
    }
}

/// The tool result that a tagged value stands for.
pub open spec fn read_tagged_result(json: JsonView, time: Seq<char>) -> Option<ToolResultView> {
    match fields_of(json, 1, result_names(), 3) {
        Some(fields) => read_result(fields, time),
        None => None,
    }
}

/// The structured output that a tagged value stands for.
pub open spec fn read_tagged_structured(json: JsonView, time: Seq<char>, id: Seq<char>) -> Option<
    StructuredView,
> {
    match fields_of(json, 1, structured_names(), 2) {
        Some(fields) => read_structured(fields, time, id),
        None => None,
    }
}

/// The content block that a value stands for, with an identifier and created at a
/// time where it does not say. What a block holds is nested content.
pub open spec fn read_block(json: JsonView, time: Seq<char>, id: Seq<char>) -> Option<BlockView> {
    match tag_name(json, "type"@, Seq::empty(), false) {
        Some(name) => if name == "text"@ {
            match read_tagged_text(json) {
                Some(block) => Some(BlockView::Text(block)),
                None => None,
            }
        } else if name == "thinking"@ {
            match json {
                JsonView::Object(fields) => match read_thinking(fields) {
                    Some(block) => Some(BlockView::Thinking(block)),
                    None => None,
                },
                _ => None,
            }
        } else if name == "tool_call"@ {
            match read_tagged_call(json, time) {
                Some(block) => Some(BlockView::ToolCall(block)),
                None => None,
            }
        } else if name == "tool_result"@ {
            match read_tagged_result(json, time) {
                Some(block) => Some(BlockView::ToolResult(block)),
                None => None,
            }
        } else if name == "structured_output"@ {
            match read_tagged_structured(json, time, id) {
                Some(block) => Some(BlockView::StructuredOutput(block)),
                None => None,
            }
        } else if name == "data"@ {
            match read_tagged_data(json) {
                Some(block) => Some(BlockView::Data(block)),
                None => None,
            }
        } else {
            None
        },
        None => None,
    }
}

/// Whether a value can be read as a content block. What it does not say makes no
/// difference.
pub open spec fn is_readable_block(json: JsonView) -> bool {
    read_block(json, Seq::empty(), Seq::empty()) is Some
}

/// Whether a content block is what a value stands for.
pub open spec fn is_block_of(block: BlockView, json: JsonView) -> bool {
    exists|time: Seq<char>, id: Seq<char>|
        is_timestamp(time) && is_generated_id(id) && #[trigger] read_block(json, time, id) == Some(
            block,
        )
}

/// The usage that a value stands for.
pub open spec fn read_usage(json: JsonView) -> Option<Usage> {
    match fields_of(json, 0, usage_names(), 2) {
        Some(fields) => match (
            lookup(fields, "input_tokens"@),
            lookup(fields, "output_tokens"@),
            optional_number_at(fields, "reasoning_tokens"@),
            optional_number_at(fields, "cached_input_tokens"@),
        ) {
            (
                Some(JsonView::Unsigned(input_tokens)),
                Some(JsonView::Unsigned(output_tokens)),
                Some(reasoning_tokens),
                Some(cached_input_tokens),
            ) => Some(
                Usage { input_tokens, output_tokens, reasoning_tokens, cached_input_tokens },
            ),
            _ => None,
        },
        None => None,
    }
}

/// The usage that a field stands for, which may be missing or `null`.
pub open spec fn read_usage_at(fields: Fields) -> Option<Option<Usage>> {
    match lookup(fields, "usage"@) {
        None => Some(None),
        Some(JsonView::Null) => Some(None),
        Some(json) => match read_usage(json) {
            Some(usage) => Some(Some(usage)),
            None => None,
        },
    }
}

/// The role that a field stands for.
pub open spec fn read_role_at(fields: Fields) -> Option<Role> {
    match variant_at(fields, "role"@, false) {
        Some(name) => read_role(name),
        None => None,
    }
}

/// The items of a field that can all be read as content blocks.
pub open spec fn readable_content(fields: Fields) -> Option<Seq<JsonView>> {
    match lookup(fields, "content"@) {
        Some(JsonView::Array(items)) => if forall|i: int|
            0 <= i < items.len() ==> is_readable_block(#[trigger] items[i]) {
            Some(items)
        } else {
            None
        },
        _ => None,
    }
}

/// A message with content yet to be read, as a value says.
pub open spec fn read_envelope(json: JsonView) -> Option<(MsgView, Seq<JsonView>)> {
    match fields_of(json, 0, msg_names(), 7) {
        Some(fields) => match (
            text_at(fields, "name"@),
            readable_content(fields),
            read_role_at(fields),
            text_at(fields, "id"@),
            object_or_empty(fields, "metadata"@),
            read_usage_at(fields),
            text_at(fields, "created_at"@),
        ) {
            (
                Some(name),
                Some(items),
                Some(role),
                Some(id),
                Some(metadata),
                Some(usage),
                Some(created_at),
            ) => Some(
                (
                    MsgView {
                        name,
                        content: Seq::empty(),
                        role,
                        id,
                        metadata,
                        usage,
                        created_at,
                    },
                    items,
                ),
            ),
            _ => None,
        },
        None => None,
    }
}

/// Whether content blocks are what values stand for, one for one.
pub open spec fn are_blocks_of(blocks: Seq<BlockView>, items: Seq<JsonView>) -> bool {
    blocks.len() == items.len() && forall|i: int|
        0 <= i < items.len() ==> is_block_of(#[trigger] blocks[i], items[i])
}

/// Whether a message is what a value stands for.
pub open spec fn is_msg_of(msg: MsgView, json: JsonView) -> bool {
    match read_envelope(json) {
        Some((envelope, items)) => are_blocks_of(msg.content, items) && msg == (MsgView {
            content: msg.content,
            ..envelope
        }),
        None => false,
    }
}

pub(crate) fn get_text<'a>(map: &'a JsonMap, key: &str) -> (text: Option<&'a str>)
    ensures
        match text {
            Some(found) => text_at(map@, key@) == Some(found@),
            None => text_at(map@, key@) is None,
        },
{
    match map.get(key) {
        Some(value) => value.as_str(),
        None => None,
    }
}

fn get_variant_at<'a>(map: &'a JsonMap, key: &str, nested: bool) -> (name: Option<&'a str>)
    ensures
        match name {
            Some(found) => variant_at(map@, key@, nested) == Some(found@),
            None => variant_at(map@, key@, nested) is None,
        },
{
    match map.get(key) {
        Some(value) => get_variant(value, nested),
        None => None,
    }
}

pub(crate) fn get_optional_text(map: &JsonMap, key: &str) -> (text: Option<Option<String>>)
    ensures
        match text {
            Some(found) => optional_text_at(map@, key@) == Some(text_option(found)),
            None => optional_text_at(map@, key@) is None,
        },
{
    match map.get(key) {
        None => Some(None),
        Some(Json::Null) => Some(None),
        Some(Json::Text(text)) => Some(Some(text.clone())),
        Some(_) => None,
    }
}

fn get_object(map: &JsonMap, key: &str) -> (object: Option<JsonMap>)
    ensures
        match object {
            Some(found) => object_or_empty(map@, key@) == Some(found@),
            None => object_or_empty(map@, key@) is None,
        },
{
    match map.get(key) {
        None => Some(JsonMap::new()),
        Some(Json::Object(found)) => Some(found.clone()),
        Some(_) => None,
    }
}

fn get_optional_number(map: &JsonMap, key: &str) -> (number: Option<Option<u64>>)
    ensures
        number == optional_number_at(map@, key@),
{
    match map.get(key) {
        None => Some(None),
        Some(Json::Null) => Some(None),
        Some(Json::Unsigned(number)) => Some(Some(*number)),
        Some(_) => None,
    }
}

/// The creation time of a field, or the present time where it is missing.
fn get_time(map: &JsonMap) -> (time: Option<String>)
    ensures
        match time {
            Some(found) => exists|now: Seq<char>|
                is_timestamp(now) && #[trigger] text_or(map@, "created_at"@, now) == Some(found@),
            None => forall|now: Seq<char>| #[trigger]
                text_or(map@, "created_at"@, now) is None,
        },
{
    match map.get("created_at") {
        None => {
            let now = generate_timestamp();
            assert(text_or(map@, "created_at"@, now@) == Some(now@));
            Some(now)
        },
        Some(Json::Text(text)) => {
            let now = generate_timestamp();
            assert(text_or(map@, "created_at"@, now@) == Some(text@));
            Some(text.clone())
        },
        Some(_) => None,
    }
}

/// The identifier of a field, or a new one where it is missing.
fn get_id(map: &JsonMap) -> (id: Option<String>)
    ensures
        match id {
            Some(found) => exists|new: Seq<char>|
                is_generated_id(new) && #[trigger] text_or(map@, "id"@, new) == Some(found@),
            None => forall|new: Seq<char>| #[trigger] text_or(map@, "id"@, new) is None,
        },
{
    match map.get("id") {
        None => {
            let new = generate_id();
            assert(text_or(map@, "id"@, new@) == Some(new@));
            Some(new)
        },
        Some(Json::Text(text)) => {
            let new = generate_id();
            assert(text_or(map@, "id"@, new@) == Some(text@));
            Some(text.clone())
        },
        Some(_) => None,
    }
}

fn decode_text(map: &JsonMap) -> (block: Option<TextBlock>)
    ensures
        match block {
            Some(found) => read_text(map@) == Some(found@),
            None => read_text(map@) is None,
        },
{
    match (
        get_text(map, "text"),
        get_text(map, "id"),
        get_text(map, "created_at"),
        get_optional_text(map, "finished_at"),
    ) {
        (Some(text), Some(id), Some(created_at), Some(finished_at)) => Some(
            TextBlock {
                text: text.to_owned(),
                id: id.to_owned(),
                created_at: created_at.to_owned(),
                finished_at,
            },
        ),
        _ => None,
    }
}

fn is_standard_field(key: &str) -> (result: bool)
    ensures
        result == reserved_thinking_field(key@),
{
    same_text(key, "type") || same_text(key, "thinking") || same_text(key, "id") || same_text(
        key,
        "created_at",
    ) || same_text(key, "finished_at")
}

proof fn lemma_extensions_insert(fields: Fields, key: Seq<char>, value: JsonView)
    ensures
        extensions_of(fields.insert(key, value)) == if reserved_thinking_field(key) {
            extensions_of(fields)
        } else {
            extensions_of(fields).insert(key, value)
        },
{
    let after = extensions_of(fields.insert(key, value));
    if reserved_thinking_field(key) {
        assert(after =~= extensions_of(fields));
    } else {
        assert(after =~= extensions_of(fields).insert(key, value));
    }
}

fn extensions(map: &JsonMap) -> (extra: JsonMap)
    ensures
        extra@ == extensions_of(map@),
{
    let ghost pairs = map.spec_pairs();
    let count = map.len();
    let mut extra = JsonMap::new();
    let mut i: usize = 0;
    proof {
        assert(assoc_map(pairs.take(0)) =~= Map::empty());
        assert(extensions_of(Map::empty()) =~= Map::empty());
    }
    while i < count
        invariant
            i <= count == map.spec_len(),
            pairs == map.spec_pairs(),
            extra@ == extensions_of(assoc_map(pairs.take(i as int))),
        decreases count - i,
    {
        proof {
            assert(pairs.take(i + 1).drop_last() =~= pairs.take(i as int));
            assert(pairs.take(i + 1).last() == pairs[i as int]);
            lemma_extensions_insert(
                assoc_map(pairs.take(i as int)),
                pairs[i as int].0,
                pairs[i as int].1,
            );
        }
        if !is_standard_field(map.key_at(i)) {
            let value = map.value_at(i).clone();
            extra.insert(map.key_at(i).to_owned(), value);
        }
        i += 1;
    }
    proof {
        map.lemma_entries();
        assert(pairs.take(count as int) =~= pairs);
    }
    extra
}

fn decode_thinking(map: &JsonMap) -> (block: Option<ThinkingBlock>)
    ensures
        match block {
            Some(found) => read_thinking(map@) == Some(found@),
            None => read_thinking(map@) is None,
        },
{
    match (
        get_text(map, "thinking"),
        get_text(map, "id"),
        get_text(map, "created_at"),
        get_optional_text(map, "finished_at"),
    ) {
        (Some(thinking), Some(id), Some(created_at), Some(finished_at)) => Some(
            ThinkingBlock {
                thinking: thinking.to_owned(),
                id: id.to_owned(),
                created_at: created_at.to_owned(),
                finished_at,
                extra: extensions(map),
            },
        ),
        _ => None,
    }
}

impl Role {
    /// The role with a name.
    pub fn from_name(name: &str) -> (role: Option<Role>)
        ensures
            role == read_role(name@),
    {
        if same_text(name, "system") {
            Some(Role::System)
        } else if same_text(name, "user") {
            Some(Role::User)
        } else if same_text(name, "assistant") {
            Some(Role::Assistant)
        } else {
            None
        }
    }
}

impl PermissionBehavior {
    /// The behavior with a name.
    pub fn from_name(name: &str) -> (behavior: Option<PermissionBehavior>)
        ensures
            behavior == read_behavior(name@),
    {
        if same_text(name, PermissionBehavior::Allow.as_str()) {
            Some(PermissionBehavior::Allow)
        } else if same_text(name, PermissionBehavior::Deny.as_str()) {
            Some(PermissionBehavior::Deny)
        } else if same_text(name, PermissionBehavior::Ask.as_str()) {
            Some(PermissionBehavior::Ask)
        } else {
            None
        }
    }
}

impl ToolCallState {
    /// The state with a name.
    pub fn from_name(name: &str) -> (state: Option<ToolCallState>)
        ensures
            state == read_call_state(name@),
    {
        if same_text(name, ToolCallState::Pending.as_str()) {
            Some(ToolCallState::Pending)
        } else if same_text(name, ToolCallState::Asking.as_str()) {
            Some(ToolCallState::Asking)
        } else if same_text(name, ToolCallState::Allowed.as_str()) {
            Some(ToolCallState::Allowed)
        } else if same_text(name, ToolCallState::Submitted.as_str()) {
            Some(ToolCallState::Submitted)
        } else if same_text(name, ToolCallState::Finished.as_str()) {
            Some(ToolCallState::Finished)
        } else {
            None
        }
    }
}

impl ToolResultState {
    /// The state with a name.
    pub fn from_name(name: &str) -> (state: Option<ToolResultState>)
        ensures
            state == read_result_state(name@),
    {
        if same_text(name, ToolResultState::Running.as_str()) {
            Some(ToolResultState::Running)
        } else if same_text(name, ToolResultState::Success.as_str()) {
            Some(ToolResultState::Success)
        } else if same_text(name, ToolResultState::Error.as_str()) {
            Some(ToolResultState::Error)
        } else if same_text(name, ToolResultState::Interrupted.as_str()) {
            Some(ToolResultState::Interrupted)
        } else if same_text(name, ToolResultState::Denied.as_str()) {
            Some(ToolResultState::Denied)
        } else {
            None
        }
    }
}

impl StructuredOutputState {
    /// The state with a name.
    pub fn from_name(name: &str) -> (state: Option<StructuredOutputState>)
        ensures
            state == read_structured_state(name@),
    {
        if same_text(name, StructuredOutputState::Streaming.as_str()) {
            Some(StructuredOutputState::Streaming)
        } else if same_text(name, StructuredOutputState::Complete.as_str()) {
            Some(StructuredOutputState::Complete)
        } else {
            None
        }
    }
}

fn decode_rule(json: &Json, nested: bool) -> (rule: Option<PermissionRule>)
    ensures
        match rule {
            Some(found) => read_rule(json@, nested) == Some(found@),
            None => read_rule(json@, nested) is None,
        },
{
    let names = ["tool_name", "rule_content", "behavior", "source"];
    assert(names_of(names@) =~= rule_names());
    let shaped = match shape(json, 0, &names, 4) {
        None => {
            return None;
        },
        Some(shaped) => shaped,
    };
    let map = shaped.map();
    match (
        get_text(map, "tool_name"),
        get_optional_text(map, "rule_content"),
        get_variant_at(map, "behavior", nested),
        get_text(map, "source"),
    ) {
        (Some(tool_name), Some(rule_content), Some(behavior), Some(source)) => {
            match PermissionBehavior::from_name(behavior) {
                Some(behavior) => Some(
                    PermissionRule {
                        tool_name: tool_name.to_owned(),
                        rule_content,
                        behavior,
                        source: source.to_owned(),
                    },
                ),
                None => None,
            }
        },
        _ => None,
    }
}

fn decode_rules(map: &JsonMap, nested: bool) -> (rules: Option<Vec<PermissionRule>>)
    ensures
        match rules {
            Some(found) => read_rules(map@, nested) == Some(views(found@)),
            None => read_rules(map@, nested) is None,
        },
{
    let items = match map.get("suggested_rules") {
        None => {
            let rules: Vec<PermissionRule> = Vec::new();
            assert(views(rules@) =~= Seq::empty());
            return Some(rules);
        },
        Some(value) => match value.as_array() {
            None => {
                return None;
            },
            Some(items) => items,
        },
    };
    let ghost all = json_views(items@);
    let mut rules: Vec<PermissionRule> = Vec::new();
    let mut i: usize = 0;
    while i < items.len()
        invariant
            i <= items@.len(),
            all == json_views(items@),
            lookup(map@, "suggested_rules"@) == Some(JsonView::Array(all)),
            rules@.len() == i,
            forall|j: int| 0 <= j < i ==> read_rule(#[trigger] all[j], nested) == Some(rules@[j]@),
        decreases items@.len() - i,
    {
        assert(all[i as int] == items@[i as int]@);
        match decode_rule(&items[i], nested) {
            None => {
                assert(read_rule(all[i as int], nested) is None);
                assert(read_all(all, |json: JsonView| read_rule(json, nested)) is None);
                return None;
            },
            Some(rule) => {
                rules.push(rule);
            },
        }
        i += 1;
    }
    assert(views(rules@) =~= all.map_values(
        |item: JsonView| (|json: JsonView| read_rule(json, nested))(item)->Some_0,
    ));
    Some(rules)
}

fn decode_call_state(map: &JsonMap, nested: bool) -> (state: Option<ToolCallState>)
    ensures
        state == read_call_state_at(map@, nested),
{
    match map.get("state") {
        None => ToolCallState::from_name(ToolCallState::Pending.as_str()),
        Some(value) => match get_variant(value, nested) {
            Some(name) => ToolCallState::from_name(name),
            None => None,
        },
    }
}

pub(crate) fn decode_call(map: &JsonMap, nested: bool) -> (block: Option<ToolCallBlock>)
    ensures
        match block {
            Some(found) => exists|time: Seq<char>|
                is_timestamp(time) && #[trigger] read_call(map@, nested, time) == Some(found@),
            None => forall|time: Seq<char>| #[trigger] read_call(map@, nested, time) is None,
        },
{
    let created = get_time(map);
    match (
        get_text(map, "id"),
        get_text(map, "name"),
        get_text(map, "input"),
        decode_call_state(map, nested),
        decode_rules(map, nested),
        created,
        get_optional_text(map, "finished_at"),
    ) {
        (
            Some(id),
            Some(name),
            Some(input),
            Some(state),
            Some(rules),
            Some(created_at),
            Some(finished_at),
        ) => {
            match ToolCallBlock::from_parts(
                id.to_owned(),
                name.to_owned(),
                input.to_owned(),
                state,
                rules,
                created_at,
                finished_at,
            ) {
                Ok(block) => {
                    proof {
                        let now = choose|now: Seq<char>|
                            is_timestamp(now) && #[trigger] text_or(map@, "created_at"@, now)
                                == Some(created_at@);
                        assert(read_call(map@, nested, now) == Some(block@));
                    }
                    Some(block)
                },
                Err(_) => None,
            }
        },
        _ => None,
    }
}

fn decode_base64_source(map: &JsonMap) -> (source: Option<DataSource>)
    ensures
        match source {
            Some(found) => read_base64(map@) == Some(found@),
            None => read_base64(map@) is None,
        },
{
    match (get_text(map, "data"), get_text(map, "media_type")) {
        (Some(data), Some(media_type)) => match Base64Source::new(data, media_type) {
            Ok(source) => Some(DataSource::Base64(source)),
            Err(_) => None,
        },
        _ => None,
    }
}

fn decode_url_source(map: &JsonMap) -> (source: Option<DataSource>)
    ensures
        match source {
            Some(found) => read_url(map@) == Some(found@),
            None => read_url(map@) is None,
        },
{
    match (get_text(map, "url"), get_text(map, "media_type")) {
        (Some(url), Some(media_type)) => match UrlSource::new(url, media_type) {
            Ok(source) => Some(DataSource::Url(source)),
            Err(_) => None,
        },
        _ => None,
    }
}

fn decode_source(json: &Json) -> (source: Option<DataSource>)
    ensures
        match source {
            Some(found) => read_source(json@) == Some(found@),
            None => read_source(json@) is None,
        },
{
    let kinds = ["base64", "url"];
    assert(names_of(kinds@) =~= source_kinds());
    let name = match get_tag(json, "type", &kinds, true) {
        None => {
            return None;
        },
        Some(name) => name,
    };
    if same_text(name, "base64") {
        let names = ["data", "media_type"];
        assert(names_of(names@) =~= base64_names());
        match shape(json, 1, &names, 2) {
            Some(shaped) => decode_base64_source(shaped.map()),
            None => None,
        }
    } else if same_text(name, "url") {
        let names = ["url", "media_type"];
        assert(names_of(names@) =~= url_names());
        match shape(json, 1, &names, 2) {
            Some(shaped) => decode_url_source(shaped.map()),
            None => None,
        }
    } else {
        None
    }
}

fn decode_source_at(map: &JsonMap) -> (source: Option<DataSource>)
    ensures
        match source {
            Some(found) => read_source_at(map@) == Some(found@),
            None => read_source_at(map@) is None,
        },
{
    match map.get("source") {
        Some(json) => decode_source(json),
        None => None,
    }
}

fn decode_data(map: &JsonMap) -> (block: Option<DataBlock>)
    ensures
        match block {
            Some(found) => read_data(map@) == Some(found@),
            None => read_data(map@) is None,
        },
{
    match (
        get_text(map, "id"),
        decode_source_at(map),
        get_optional_text(map, "name"),
        get_text(map, "created_at"),
        get_optional_text(map, "finished_at"),
    ) {
        (Some(id), Some(source), Some(name), Some(created_at), Some(finished_at)) => Some(
            DataBlock {
                id: id.to_owned(),
                source,
                name,
                created_at: created_at.to_owned(),
                finished_at,
            },
        ),
        _ => None,
    }
}

fn decode_tagged_text(json: &Json) -> (block: Option<TextBlock>)
    ensures
        match block {
            Some(found) => read_tagged_text(json@) == Some(found@),
            None => read_tagged_text(json@) is None,
        },
{
    let names = ["text", "id", "created_at", "finished_at"];
    assert(names_of(names@) =~= text_names());
    match shape(json, 1, &names, 4) {
        Some(shaped) => decode_text(shaped.map()),
        None => None,
    }
}

fn decode_tagged_data(json: &Json) -> (block: Option<DataBlock>)
    ensures
        match block {
            Some(found) => read_tagged_data(json@) == Some(found@),
            None => read_tagged_data(json@) is None,
        },
{
    let names = ["id", "source", "name", "created_at", "finished_at"];
    assert(names_of(names@) =~= data_names());
    match shape(json, 1, &names, 5) {
        Some(shaped) => decode_data(shaped.map()),
        None => None,
    }
}

fn decode_result_content(json: &Json) -> (content: Option<ToolResultContent>)
    ensures
        match content {
            Some(found) => read_result_content(json@) == Some(found@),
            None => read_result_content(json@) is None,
        },
{
    let kinds = ["text", "data"];
    assert(names_of(kinds@) =~= result_content_kinds());
    let name = match get_tag(json, "type", &kinds, true) {
        None => {
            return None;
        },
        Some(name) => name,
    };
    if same_text(name, "text") {
        match decode_tagged_text(json) {
            Some(block) => Some(ToolResultContent::Text(block)),
            None => None,
        }
    } else if same_text(name, "data") {
        match decode_tagged_data(json) {
            Some(block) => Some(ToolResultContent::Data(block)),
            None => None,
        }
    } else {
        None
    }
}

fn decode_output(map: &JsonMap) -> (output: Option<ToolResultOutput>)
    ensures
        match output {
            Some(found) => read_output(map@) == Some(found@),
            None => read_output(map@) is None,
        },
{
    let value = match map.get("output") {
        None => {
            return None;
        },
        Some(value) => value,
    };
    if let Some(text) = value.as_str() {
        return Some(ToolResultOutput::Text(text.to_owned()));
    }
    let items = match value.as_array() {
        None => {
            return None;
        },
        Some(items) => items,
    };
    let ghost all = json_views(items@);
    let mut blocks: Vec<ToolResultContent> = Vec::new();
    let mut i: usize = 0;
    while i < items.len()
        invariant
            i <= items@.len(),
            all == json_views(items@),
            lookup(map@, "output"@) == Some(JsonView::Array(all)),
            blocks@.len() == i,
            forall|j: int|
                0 <= j < i ==> read_result_content(#[trigger] all[j]) == Some(blocks@[j]@),
        decreases items@.len() - i,
    {
        assert(all[i as int] == items@[i as int]@);
        match decode_result_content(&items[i]) {
            None => {
                assert(read_result_content(all[i as int]) is None);
                assert(read_all(all, |json: JsonView| read_result_content(json)) is None);
                return None;
            },
            Some(block) => {
                blocks.push(block);
            },
        }
        i += 1;
    }
    assert(views(blocks@) =~= all.map_values(
        |item: JsonView| (|json: JsonView| read_result_content(json))(item)->Some_0,
    ));
    Some(ToolResultOutput::Blocks(blocks))
}

fn decode_result_state(map: &JsonMap) -> (state: Option<ToolResultState>)
    ensures
        state == read_result_state_at(map@),
{
    match map.get("state") {
        None => ToolResultState::from_name(ToolResultState::Running.as_str()),
        Some(value) => match get_variant(value, true) {
            Some(name) => ToolResultState::from_name(name),
            None => None,
        },
    }
}

fn decode_result(map: &JsonMap) -> (block: Option<ToolResultBlock>)
    ensures
        match block {
            Some(found) => exists|time: Seq<char>|
                is_timestamp(time) && #[trigger] read_result(map@, time) == Some(found@),
            None => forall|time: Seq<char>| #[trigger] read_result(map@, time) is None,
        },
{
    let created = get_time(map);
    match (
        get_text(map, "id"),
        get_text(map, "name"),
        decode_output(map),
        decode_result_state(map),
        get_object(map, "metadata"),
        created,
        get_optional_text(map, "finished_at"),
    ) {
        (
            Some(id),
            Some(name),
            Some(output),
            Some(state),
            Some(metadata),
            Some(created_at),
            Some(finished_at),
        ) => {
            match ToolResultBlock::from_parts(
                id.to_owned(),
                name.to_owned(),
                output,
                state,
                metadata,
                created_at,
                finished_at,
            ) {
                Ok(block) => {
                    proof {
                        let now = choose|now: Seq<char>|
                            is_timestamp(now) && #[trigger] text_or(map@, "created_at"@, now)
                                == Some(created_at@);
                        assert(read_result(map@, now) == Some(block@));
                    }
                    Some(block)
                },
                Err(_) => None,
            }
        },
        _ => None,
    }
}

fn decode_structured_state(map: &JsonMap) -> (state: Option<StructuredOutputState>)
    ensures
        state == read_structured_state_at(map@),
{
    match map.get("state") {
        None => StructuredOutputState::from_name(StructuredOutputState::Streaming.as_str()),
        Some(value) => match get_variant(value, true) {
            Some(name) => StructuredOutputState::from_name(name),
            None => None,
        },
    }
}

fn decode_structured(map: &JsonMap) -> (block: Option<StructuredOutputBlock>)
    ensures
        match block {
            Some(found) => exists|time: Seq<char>, id: Seq<char>|
                is_timestamp(time) && is_generated_id(id) && #[trigger] read_structured(
                    map@,
                    time,
                    id,
                ) == Some(found@),
            None => forall|time: Seq<char>, id: Seq<char>| #[trigger]
                read_structured(map@, time, id) is None,
        },
{
    let created = get_time(map);
    let identifier = get_id(map);
    match (
        map.get("schema"),
        get_text(map, "output"),
        decode_structured_state(map),
        identifier,
        created,
        get_optional_text(map, "finished_at"),
    ) {
        (
            Some(schema),
            Some(output),
            Some(state),
            Some(id),
            Some(created_at),
            Some(finished_at),
        ) => {
            match StructuredOutputBlock::from_parts(
                schema.clone(),
                output.to_owned(),
                state,
                id,
                created_at,
                finished_at,
            ) {
                Ok(block) => {
                    proof {
                        let now = choose|now: Seq<char>|
                            is_timestamp(now) && #[trigger] text_or(map@, "created_at"@, now)
                                == Some(created_at@);
                        let new = choose|new: Seq<char>|
                            is_generated_id(new) && #[trigger] text_or(map@, "id"@, new) == Some(
                                id@,
                            );
                        assert(read_structured(map@, now, new) == Some(block@));
                    }
                    Some(block)
                },
                Err(_) => None,
            }
        },
        _ => None,
    }
}

fn decode_tagged_call(json: &Json) -> (block: Option<ToolCallBlock>)
    ensures
        match block {
            Some(found) => exists|time: Seq<char>|
                is_timestamp(time) && #[trigger] read_tagged_call(json@, time) == Some(found@),
            None => forall|time: Seq<char>| #[trigger] read_tagged_call(json@, time) is None,
        },
{
    let names = [
        "id",
        "name",
        "input",
        "state",
        "suggested_rules",
        "created_at",
        "finished_at",
    ];
    assert(names_of(names@) =~= call_names());
    match shape(json, 1, &names, 3) {
        Some(shaped) => {
            let block = decode_call(shaped.map(), true);
            proof {
                if block is Some {
                    let found = block->Some_0;
                    let now = choose|now: Seq<char>|
                        is_timestamp(now) && #[trigger] read_call(shaped@, true, now) == Some(
                            found@,
                        );
                    assert(read_tagged_call(json@, now) == Some(found@));
                } else {
                    assert forall|time: Seq<char>| #[trigger]
                        read_tagged_call(json@, time) is None by {
                        assert(read_call(shaped@, true, time) is None);
                    }
                }
            }
            block
        },
        None => None,
    }
}

fn decode_tagged_result(json: &Json) -> (block: Option<ToolResultBlock>)
    ensures
        match block {
            Some(found) => exists|time: Seq<char>|
                is_timestamp(time) && #[trigger] read_tagged_result(json@, time) == Some(found@),
            None => forall|time: Seq<char>| #[trigger] read_tagged_result(json@, time) is None,
        },
{
    let names = ["id", "name", "output", "state", "metadata", "created_at", "finished_at"];
    assert(names_of(names@) =~= result_names());
    match shape(json, 1, &names, 3) {
        Some(shaped) => {
            let block = decode_result(shaped.map());
            proof {
                if block is Some {
                    let found = block->Some_0;
                    let now = choose|now: Seq<char>|
                        is_timestamp(now) && #[trigger] read_result(shaped@, now) == Some(found@);
                    assert(read_tagged_result(json@, now) == Some(found@));
                } else {
                    assert forall|time: Seq<char>| #[trigger]
                        read_tagged_result(json@, time) is None by {
                        assert(read_result(shaped@, time) is None);
                    }
                }
            }
            block
        },
        None => None,
    }
}

fn decode_tagged_structured(json: &Json) -> (block: Option<StructuredOutputBlock>)
    ensures
        match block {
            Some(found) => exists|time: Seq<char>, id: Seq<char>|
                is_timestamp(time) && is_generated_id(id) && #[trigger] read_tagged_structured(
                    json@,
                    time,
                    id,
                ) == Some(found@),
            None => forall|time: Seq<char>, id: Seq<char>| #[trigger]
                read_tagged_structured(json@, time, id) is None,
        },
{
    let names = ["schema", "output", "state", "id", "created_at", "finished_at"];
    assert(names_of(names@) =~= structured_names());
    match shape(json, 1, &names, 2) {
        Some(shaped) => {
            let block = decode_structured(shaped.map());
            proof {
                if block is Some {
                    let found = block->Some_0;
                    let (now, new) = choose|now: Seq<char>, new: Seq<char>|
                        is_timestamp(now) && is_generated_id(new) && #[trigger] read_structured(
                            shaped@,
                            now,
                            new,
                        ) == Some(found@);
                    assert(read_tagged_structured(json@, now, new) == Some(found@));
                } else {
                    assert forall|time: Seq<char>, id: Seq<char>| #[trigger]
                        read_tagged_structured(json@, time, id) is None by {
                        assert(read_structured(shaped@, time, id) is None);
                    }
                }
            }
            block
        },
        None => None,
    }
}

impl ContentBlock {
    /// Reads a block from its JSON form.
    pub fn from_json(json: &Json) -> (result: Result<ContentBlock, WireError>)
        ensures
            match result {
                Ok(block) => is_readable_block(json@) && is_block_of(block@, json@),
                Err(_) => !is_readable_block(json@),
            },
    {
        proof {
            lemma_readable(json@);
        }
        let kinds: [&str; 0] = [];
        assert(names_of(kinds@) =~= Seq::empty());
        let name = match get_tag(json, "type", &kinds, false) {
            None => {
                return Err(WireError);
            },
            Some(name) => name,
        };
        let time = generate_timestamp();
        let id = generate_id();
        let block = if same_text(name, "text") {
            match decode_tagged_text(json) {
                Some(block) => Some(ContentBlock::Text(block)),
                None => None,
            }
        } else if same_text(name, "thinking") {
            match json.as_object() {
                Some(map) => match decode_thinking(map) {
                    Some(block) => Some(ContentBlock::Thinking(block)),
                    None => None,
                },
                None => None,
            }
        } else if same_text(name, "tool_call") {
            match decode_tagged_call(json) {
                Some(block) => {
                    proof {
                        lemma_type_names();
                        let now = choose|now: Seq<char>|
                            is_timestamp(now) && #[trigger] read_tagged_call(json@, now) == Some(
                                block@,
                            );
                        assert(read_block(json@, now, id@) == Some(BlockView::ToolCall(block@)));
                    }
                    Some(ContentBlock::ToolCall(block))
                },
                None => {
                    assert(read_tagged_call(json@, Seq::empty()) is None);
                    None
                },
            }
        } else if same_text(name, "tool_result") {
            match decode_tagged_result(json) {
                Some(block) => {
                    proof {
                        lemma_type_names();
                        let now = choose|now: Seq<char>|
                            is_timestamp(now) && #[trigger] read_tagged_result(json@, now) == Some(
                                block@,
                            );
                        assert(read_block(json@, now, id@) == Some(BlockView::ToolResult(block@)));
                    }
                    Some(ContentBlock::ToolResult(block))
                },
                None => {
                    assert(read_tagged_result(json@, Seq::empty()) is None);
                    None
                },
            }
        } else if same_text(name, "structured_output") {
            match decode_tagged_structured(json) {
                Some(block) => {
                    proof {
                        lemma_type_names();
                        let (now, new) = choose|now: Seq<char>, new: Seq<char>|
                            is_timestamp(now) && is_generated_id(new)
                                && #[trigger] read_tagged_structured(json@, now, new) == Some(
                                block@,
                            );
                        assert(read_block(json@, now, new) == Some(
                            BlockView::StructuredOutput(block@),
                        ));
                    }
                    Some(ContentBlock::StructuredOutput(block))
                },
                None => {
                    assert(read_tagged_structured(json@, Seq::empty(), Seq::empty()) is None);
                    None
                },
            }
        } else if same_text(name, "data") {
            match decode_tagged_data(json) {
                Some(block) => Some(ContentBlock::Data(block)),
                None => None,
            }
        } else {
            None
        };
        match block {
            Some(block) => {
                proof {
                    assert(is_block_of(block@, json@)) by {
                        if block@ is Text || block@ is Thinking || block@ is Data {
                            assert(read_block(json@, time@, id@) == Some(block@));
                        }
                    }
                }
                Ok(block)
            },
            None => Err(WireError),
        }
    }
}

/// The names of block types are distinct.
proof fn lemma_type_names()
    ensures
        "text"@ != "thinking"@,
        "text"@ != "tool_call"@,
        "text"@ != "tool_result"@,
        "text"@ != "structured_output"@,
        "text"@ != "data"@,
        "thinking"@ != "tool_call"@,
        "thinking"@ != "tool_result"@,
        "thinking"@ != "structured_output"@,
        "thinking"@ != "data"@,
        "tool_call"@ != "tool_result"@,
        "tool_call"@ != "structured_output"@,
        "tool_call"@ != "data"@,
        "tool_result"@ != "structured_output"@,
        "tool_result"@ != "data"@,
        "structured_output"@ != "data"@,
{
    reveal_strlit("text");
    reveal_strlit("thinking");
    reveal_strlit("tool_call");
    reveal_strlit("tool_result");
    reveal_strlit("structured_output");
    reveal_strlit("data");
    assert("text"@.len() == 4);
    assert("thinking"@.len() == 8);
    assert("tool_call"@.len() == 9);
    assert("tool_result"@.len() == 11);
    assert("structured_output"@.len() == 17);
    assert("text"@[0] == 't');
    assert("data"@[0] == 'd');
}

/// What a value does not say makes no difference to whether it can be read.
proof fn lemma_readable(json: JsonView)
    ensures
        forall|time: Seq<char>, id: Seq<char>| #[trigger]
            read_block(json, time, id) is Some <==> is_readable_block(json),
{
    assert forall|time: Seq<char>, id: Seq<char>| #[trigger]
        read_block(json, time, id) is Some <==> is_readable_block(json) by {
        assert(read_tagged_call(json, time) is Some <==> read_tagged_call(json, Seq::empty())
            is Some);
        assert(read_tagged_result(json, time) is Some <==> read_tagged_result(json, Seq::empty())
            is Some);
        assert(read_tagged_structured(json, time, id) is Some <==> read_tagged_structured(
            json,
            Seq::empty(),
            Seq::empty(),
        ) is Some);
    }
}

impl Usage {
    /// Reads usage from its JSON form.
    pub fn from_json(json: &Json) -> (result: Result<Usage, WireError>)
        ensures
            match result {
                Ok(usage) => read_usage(json@) == Some(usage),
                Err(_) => read_usage(json@) is None,
            },
    {
        let names = ["input_tokens", "output_tokens", "reasoning_tokens", "cached_input_tokens"];
        assert(names_of(names@) =~= usage_names());
        let shaped = match shape(json, 0, &names, 2) {
            None => {
                return Err(WireError);
            },
            Some(shaped) => shaped,
        };
        let map = shaped.map();
        match (
            map.get("input_tokens"),
            map.get("output_tokens"),
            get_optional_number(map, "reasoning_tokens"),
            get_optional_number(map, "cached_input_tokens"),
        ) {
            (
                Some(Json::Unsigned(input_tokens)),
                Some(Json::Unsigned(output_tokens)),
                Some(reasoning_tokens),
                Some(cached_input_tokens),
            ) => Ok(
                Usage {
                    input_tokens: *input_tokens,
                    output_tokens: *output_tokens,
                    reasoning_tokens,
                    cached_input_tokens,
                },
            ),
            _ => Err(WireError),
        }
    }
}

fn decode_usage_at(map: &JsonMap) -> (usage: Option<Option<Usage>>)
    ensures
        usage == read_usage_at(map@),
{
    match map.get("usage") {
        None => Some(None),
        Some(Json::Null) => Some(None),
        Some(json) => match Usage::from_json(json) {
            Ok(usage) => Some(Some(usage)),
            Err(_) => None,
        },
    }
}

fn decode_role_at(map: &JsonMap) -> (role: Option<Role>)
    ensures
        role == read_role_at(map@),
{
    match get_variant_at(map, "role", false) {
        Some(name) => Role::from_name(name),
        None => None,
    }
}

fn decode_content(map: &JsonMap) -> (content: Option<Vec<ContentBlock>>)
    ensures
        match content {
            Some(found) => readable_content(map@) is Some && are_blocks_of(
                views(found@),
                readable_content(map@)->Some_0,
            ),
            None => readable_content(map@) is None,
        },
{
    let items = match map.get("content") {
        None => {
            return None;
        },
        Some(value) => match value.as_array() {
            None => {
                return None;
            },
            Some(items) => items,
        },
    };
    let ghost all = json_views(items@);
    let mut blocks: Vec<ContentBlock> = Vec::new();
    let mut i: usize = 0;
    while i < items.len()
        invariant
            i <= items@.len(),
            all == json_views(items@),
            lookup(map@, "content"@) == Some(JsonView::Array(all)),
            blocks@.len() == i,
            forall|j: int| 0 <= j < i ==> is_readable_block(#[trigger] all[j]),
            forall|j: int| 0 <= j < i ==> is_block_of((#[trigger] blocks@[j])@, all[j]),
        decreases items@.len() - i,
    {
        assert(all[i as int] == items@[i as int]@);
        match ContentBlock::from_json(&items[i]) {
            Err(_) => {
                assert(!is_readable_block(all[i as int]));
                return None;
            },
            Ok(block) => {
                blocks.push(block);
            },
        }
        i += 1;
    }
    assert forall|j: int| 0 <= j < all.len() implies is_block_of(
        #[trigger] views(blocks@)[j],
        all[j],
    ) by {
        assert(views(blocks@)[j] == blocks@[j]@);
    }
    Some(blocks)
}

impl Msg {
    /// Reads a message from its JSON form.
    pub fn from_json(json: &Json) -> (result: Result<Msg, WireError>)
        ensures
            match result {
                Ok(msg) => is_msg_of(msg@, json@),
                Err(_) => read_envelope(json@) is None,
            },
    {
        let names = ["name", "content", "role", "id", "metadata", "usage", "created_at"];
        assert(names_of(names@) =~= msg_names());
        let shaped = match shape(json, 0, &names, 7) {
            None => {
                return Err(WireError);
            },
            Some(shaped) => shaped,
        };
        let map = shaped.map();
        match (
            get_text(map, "name"),
            decode_content(map),
            decode_role_at(map),
            get_text(map, "id"),
            get_object(map, "metadata"),
            decode_usage_at(map),
            get_text(map, "created_at"),
        ) {
            (
                Some(name),
                Some(content),
                Some(role),
                Some(id),
                Some(metadata),
                Some(usage),
                Some(created_at),
            ) => Ok(
                Msg {
                    name: name.to_owned(),
                    content,
                    role,
                    id: id.to_owned(),
                    metadata,
                    usage,
                    created_at: created_at.to_owned(),
                },
            ),
            _ => Err(WireError),
        }
    }
}

/// Whether a data source can be read back: it was validated, and its URL is in
/// normal form.
pub open spec fn is_sound_source(source: SourceView) -> bool {
    match source {
        SourceView::Base64(source) => decoded_base64(source.data) is Ok && !blank(
            source.media_type,
        ),
        SourceView::Url(source) => parsed_url(source.url) == Ok::<_, Seq<char>>(source.url)
            && !blank(source.media_type),
    }
}

/// Whether a block of tool output can be read back.
pub open spec fn is_sound_content(content: ResultContentView) -> bool {
    match content {
        ResultContentView::Text(_) => true,
        ResultContentView::Data(block) => is_sound_source(block.source),
    }
}

/// Whether tool output can be read back.
pub open spec fn is_sound_output(output: OutputView) -> bool {
    match output {
        OutputView::Text(_) => true,
        OutputView::Blocks(blocks) => forall|i: int|
            0 <= i < blocks.len() ==> is_sound_content(#[trigger] blocks[i]),
    }
}

/// Whether a block is valid, as blocks are that were made by their constructors.
pub open spec fn is_sound_block(block: BlockView) -> bool {
    match block {
        BlockView::Text(_) => true,
        BlockView::Thinking(block) => block.well_formed(),
        BlockView::ToolCall(block) => call_identity_error(block.id, block.name) is None,
        BlockView::ToolResult(block) => result_identity_error(block.id, block.name) is None
            && is_sound_output(block.output),
        BlockView::StructuredOutput(block) => schema_root(block.schema) && (block.state
            == StructuredOutputState::Complete ==> parsed_json(block.output) is Ok),
        BlockView::Data(block) => is_sound_source(block.source),
    }
}

/// The names of common fields are distinct.
proof fn lemma_common_keys()
    ensures
        "type"@.len() == 4,
        "type"@[0] == 't',
        "type"@[1] == 'y',
        "text"@.len() == 4,
        "text"@[0] == 't',
        "text"@[1] == 'e',
        "id"@.len() == 2,
        "name"@.len() == 4,
        "name"@[0] == 'n',
        "data"@.len() == 4,
        "data"@[0] == 'd',
        "url"@.len() == 3,
        "base64"@.len() == 6,
        "input"@.len() == 5,
        "input"@[0] == 'i',
        "state"@.len() == 5,
        "state"@[0] == 's',
        "output"@.len() == 6,
        "output"@[0] == 'o',
        "source"@.len() == 6,
        "source"@[0] == 's',
        "source"@[1] == 'o',
        "schema"@.len() == 6,
        "schema"@[0] == 's',
        "schema"@[1] == 'c',
        "thinking"@.len() == 8,
        "thinking"@[0] == 't',
        "metadata"@.len() == 8,
        "metadata"@[0] == 'm',
        "behavior"@.len() == 8,
        "behavior"@[0] == 'b',
        "tool_name"@.len() == 9,
        "created_at"@.len() == 10,
        "created_at"@[0] == 'c',
        "media_type"@.len() == 10,
        "media_type"@[0] == 'm',
        "finished_at"@.len() == 11,
        "rule_content"@.len() == 12,
        "suggested_rules"@.len() == 15,
{
    reveal_strlit("type");
    reveal_strlit("text");
    reveal_strlit("id");
    reveal_strlit("name");
    reveal_strlit("data");
    reveal_strlit("url");
    reveal_strlit("base64");
    reveal_strlit("input");
    reveal_strlit("state");
    reveal_strlit("output");
    reveal_strlit("source");
    reveal_strlit("schema");
    reveal_strlit("thinking");
    reveal_strlit("metadata");
    reveal_strlit("behavior");
    reveal_strlit("tool_name");
    reveal_strlit("created_at");
    reveal_strlit("media_type");
    reveal_strlit("finished_at");
    reveal_strlit("rule_content");
    reveal_strlit("suggested_rules");
}

proof fn lemma_state_names()
    ensures
        forall|role: Role| read_role(#[trigger] role_text(role)) == Some(role),
        forall|behavior: PermissionBehavior|
            read_behavior(#[trigger] behavior_text(behavior)) == Some(behavior),
        forall|state: ToolCallState|
            read_call_state(#[trigger] call_state_text(state)) == Some(state),
        forall|state: ToolResultState|
            read_result_state(#[trigger] result_state_text(state)) == Some(state),
        forall|state: StructuredOutputState|
            read_structured_state(#[trigger] structured_state_text(state)) == Some(state),
{
    reveal_strlit("system");
    reveal_strlit("user");
    reveal_strlit("assistant");
    reveal_strlit("allow");
    reveal_strlit("deny");
    reveal_strlit("ask");
    reveal_strlit("pending");
    reveal_strlit("asking");
    reveal_strlit("allowed");
    reveal_strlit("submitted");
    reveal_strlit("finished");
    reveal_strlit("running");
    reveal_strlit("success");
    reveal_strlit("error");
    reveal_strlit("interrupted");
    reveal_strlit("denied");
    reveal_strlit("streaming");
    reveal_strlit("complete");
    assert("pending"@.len() == 7);
    assert("asking"@.len() == 6);
    assert("allowed"@.len() == 7 && "allowed"@[0] == 'a' && "pending"@[0] == 'p');
    assert("submitted"@.len() == 9);
    assert("finished"@.len() == 8);
    assert("running"@.len() == 7 && "running"@[0] == 'r');
    assert("success"@.len() == 7 && "success"@[0] == 's');
    assert("error"@.len() == 5);
    assert("interrupted"@.len() == 11);
    assert("denied"@.len() == 6);
    assert("streaming"@.len() == 9);
    assert("complete"@.len() == 8);
    assert("system"@.len() == 6);
    assert("user"@.len() == 4);
    assert("assistant"@.len() == 9);
    assert("allow"@.len() == 5);
    assert("deny"@.len() == 4);
    assert("ask"@.len() == 3);
}

proof fn lemma_text_round_trip(block: TextView, name: Seq<char>)
    ensures
        read_text(text_fields(block).insert("type"@, JsonView::Text(name))) == Some(block),
        text_at(text_fields(block).insert("type"@, JsonView::Text(name)), "type"@) == Some(name),
{
    lemma_common_keys();
}

proof fn lemma_source_round_trip(source: SourceView)
    requires
        is_sound_source(source),
    ensures
        read_source(source_json(source)) == Some(source),
{
    lemma_common_keys();
}

proof fn lemma_data_round_trip(block: DataView, name: Seq<char>)
    requires
        is_sound_source(block.source),
    ensures
        read_data(data_fields(block).insert("type"@, JsonView::Text(name))) == Some(block),
        text_at(data_fields(block).insert("type"@, JsonView::Text(name)), "type"@) == Some(name),
{
    lemma_common_keys();
    lemma_source_round_trip(block.source);
}

proof fn lemma_content_round_trip(content: ResultContentView)
    requires
        is_sound_content(content),
    ensures
        read_result_content(result_content_json(content)) == Some(content),
{
    lemma_type_names();
    match content {
        ResultContentView::Text(block) => lemma_text_round_trip(block, "text"@),
        ResultContentView::Data(block) => lemma_data_round_trip(block, "data"@),
    }
}

proof fn lemma_thinking_round_trip(block: ThinkingView, name: Seq<char>)
    requires
        block.well_formed(),
    ensures
        read_thinking(thinking_fields(block).insert("type"@, JsonView::Text(name))) == Some(block),
        text_at(thinking_fields(block).insert("type"@, JsonView::Text(name)), "type"@) == Some(
            name,
        ),
{
    lemma_common_keys();
    let fields = thinking_fields(block).insert("type"@, JsonView::Text(name));
    assert(!block.extra.contains_key("thinking"@));
    assert(!block.extra.contains_key("id"@));
    assert(!block.extra.contains_key("created_at"@));
    assert(!block.extra.contains_key("finished_at"@));
    assert(!block.extra.contains_key("type"@));
    assert(extensions_of(fields) =~= block.extra);
}

proof fn lemma_rule_round_trip(rule: RuleView, nested: bool)
    ensures
        read_rule(rule_json(rule), nested) == Some(rule),
{
    lemma_common_keys();
    lemma_state_names();
}

/// A tool call is read back from its fields as it was, in nested content or not.
pub proof fn lemma_call_round_trip(
    block: ToolCallView,
    fields: Fields,
    nested: bool,
    time: Seq<char>,
)
    requires
        call_identity_error(block.id, block.name) is None,
        fields == call_fields(block) || fields == call_fields(block).insert(
            "type"@,
            JsonView::Text("tool_call"@),
        ),
    ensures
        read_call(fields, nested, time) == Some(block),
{
    lemma_common_keys();
    lemma_state_names();
    let items = block.suggested_rules.map_values(|rule: RuleView| rule_json(rule));
    assert(lookup(fields, "suggested_rules"@) == Some(JsonView::Array(items)));
    assert forall|i: int| 0 <= i < items.len() implies read_rule(#[trigger] items[i], nested)
        == Some(block.suggested_rules[i]) by {
        lemma_rule_round_trip(block.suggested_rules[i], nested);
    }
    assert(items.map_values(
        |item: JsonView| (|json: JsonView| read_rule(json, nested))(item)->Some_0,
    ) =~= block.suggested_rules);
    assert(read_rules(fields, nested) == Some(block.suggested_rules));
    assert(read_call_state_at(fields, nested) == Some(block.state));
}

proof fn lemma_output_round_trip(fields: Fields, output: OutputView)
    requires
        is_sound_output(output),
        lookup(fields, "output"@) == Some(output_json(output)),
    ensures
        read_output(fields) == Some(output),
{
    if let OutputView::Blocks(blocks) = output {
        let items = blocks.map_values(|block: ResultContentView| result_content_json(block));
        assert forall|i: int| 0 <= i < items.len() implies read_result_content(#[trigger] items[i])
            == Some(blocks[i]) by {
            lemma_content_round_trip(blocks[i]);
        }
        assert(items.map_values(
            |item: JsonView| (|json: JsonView| read_result_content(json))(item)->Some_0,
        ) =~= blocks);
    }
}

proof fn lemma_result_round_trip(block: ToolResultView, name: Seq<char>, time: Seq<char>)
    requires
        result_identity_error(block.id, block.name) is None,
        is_sound_output(block.output),
    ensures
        read_result(result_fields(block).insert("type"@, JsonView::Text(name)), time) == Some(
            block,
        ),
        text_at(result_fields(block).insert("type"@, JsonView::Text(name)), "type"@) == Some(name),
{
    lemma_common_keys();
    lemma_state_names();
    let fields = result_fields(block).insert("type"@, JsonView::Text(name));
    lemma_output_round_trip(fields, block.output);
    assert(read_result_state_at(fields) == Some(block.state));
}

proof fn lemma_structured_round_trip(
    block: StructuredView,
    name: Seq<char>,
    time: Seq<char>,
    id: Seq<char>,
)
    requires
        is_sound_block(BlockView::StructuredOutput(block)),
    ensures
        read_structured(
            structured_fields(block).insert("type"@, JsonView::Text(name)),
            time,
            id,
        ) == Some(block),
        text_at(structured_fields(block).insert("type"@, JsonView::Text(name)), "type"@) == Some(
            name,
        ),
{
    lemma_common_keys();
    lemma_state_names();
    let fields = structured_fields(block).insert("type"@, JsonView::Text(name));
    assert(read_structured_state_at(fields) == Some(block.state));
}

/// A valid content block is read back from its JSON form as it was.
pub proof fn blocks_are_read_back(block: BlockView, time: Seq<char>, id: Seq<char>)
    requires
        is_sound_block(block),
    ensures
        read_block(block_json(block), time, id) == Some(block),
{
    lemma_type_names();
    match block {
        BlockView::Text(inner) => lemma_text_round_trip(inner, "text"@),
        BlockView::Thinking(inner) => lemma_thinking_round_trip(inner, "thinking"@),
        BlockView::ToolCall(inner) => {
            lemma_common_keys();
            lemma_call_round_trip(
                inner,
                call_fields(inner).insert("type"@, JsonView::Text("tool_call"@)),
                true,
                time,
            );
        },
        BlockView::ToolResult(inner) => lemma_result_round_trip(inner, "tool_result"@, time),
        BlockView::StructuredOutput(inner) => lemma_structured_round_trip(
            inner,
            "structured_output"@,
            time,
            id,
        ),
        BlockView::Data(inner) => lemma_data_round_trip(inner, "data"@),
    }
}

proof fn lemma_usage_round_trip(usage: Usage)
    ensures
        read_usage(usage_json(usage)) == Some(usage),
        usage_json(usage) is Object,
{
    reveal_strlit("input_tokens");
    reveal_strlit("output_tokens");
    reveal_strlit("reasoning_tokens");
    reveal_strlit("cached_input_tokens");
    assert("input_tokens"@.len() == 12);
    assert("output_tokens"@.len() == 13);
    assert("reasoning_tokens"@.len() == 16);
    assert("cached_input_tokens"@.len() == 19);
}

/// A message of valid content is read back from its JSON form as it was, and as
/// nothing else.
pub proof fn messages_are_read_back(msg: MsgView, read: MsgView)
    requires
        forall|i: int| 0 <= i < msg.content.len() ==> is_sound_block(#[trigger] msg.content[i]),
    ensures
        read_envelope(msg_json(msg)) is Some,
        is_msg_of(read, msg_json(msg)) ==> read == msg,
{
    lemma_common_keys();
    lemma_state_names();
    reveal_strlit("role");
    reveal_strlit("content");
    reveal_strlit("usage");
    assert("role"@.len() == 4 && "role"@[0] == 'r');
    assert("content"@.len() == 7);
    assert("usage"@.len() == 5);
    let fields = msg_json(msg)->Object_0;
    let items = msg.content.map_values(|block: BlockView| block_json(block));
    assert(lookup(fields, "content"@) == Some(JsonView::Array(items)));
    assert forall|i: int| 0 <= i < items.len() implies is_readable_block(#[trigger] items[i]) by {
        blocks_are_read_back(msg.content[i], Seq::empty(), Seq::empty());
    }
    if let Some(usage) = msg.usage {
        lemma_usage_round_trip(usage);
    }
    assert(read_usage_at(fields) == Some(msg.usage));
    assert(read_role_at(fields) == Some(msg.role));
    assert(readable_content(fields) == Some(items));
    if is_msg_of(read, msg_json(msg)) {
        assert forall|i: int| 0 <= i < items.len() implies #[trigger] read.content[i]
            == msg.content[i] by {
            assert(is_block_of(read.content[i], items[i]));
            let (time, id) = choose|time: Seq<char>, id: Seq<char>|
                is_timestamp(time) && is_generated_id(id) && #[trigger] read_block(
                    items[i],
                    time,
                    id,
                ) == Some(read.content[i]);
            blocks_are_read_back(msg.content[i], time, id);
        }
        assert(read.content =~= msg.content);
        assert(read =~= msg);
    }
}

} // verus!
