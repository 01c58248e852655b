//! Provider-neutral types on the OpenAI wire, both ways.
use vstd::prelude::*;

use super::super::event::{coded_error, ModelError, ModelErrorView};
use super::super::request::{ChatRequest, RequestView, ToolDefinition, ToolView};
use super::super::response::{ChatResponse, FinishReason, ResponseView};
use crate::json::{
    as_text, as_unsigned, json_text, json_views, lookup, parsed_json, schema_root, Json, JsonMap,
    JsonView,
};
use crate::message::content::{is_new_text, BlockView, ContentBlock};
use crate::message::encode::{encode_text, extend, lemma_array_view, put, put_text};
use crate::message::msg::{Msg, MsgView};
use crate::message::role::{role_text, Role};
use crate::message::structured_output::{
    is_complete_structured, structured_error_text, StructuredErrorView, StructuredOutputBlock,
};
use crate::message::thinking::{is_new_thinking, ThinkingBlock};
use crate::message::tool_call::{
    call_error_text, complete_call_error, is_new_call, ToolCallBlock, ToolCallView,
};
use crate::message::tool_result::{
    OutputView, ResultContentView, ToolResultContent, ToolResultOutput,
};
use crate::message::usage::Usage;
use crate::message::{is_generated_id, is_timestamp, Metadata};
use crate::text::{concat2, concat3, join, joined, same_text, texts};
use crate::view::{lemma_views_take, view_option, views};

verus! {

/// The failure for a response that does not have the expected form.
pub open spec fn invalid_response_error(message: Seq<char>) -> ModelErrorView {
    coded_error(message, "invalid_response"@)
}

/// A failure for a response that does not have the expected form.
pub fn invalid_response(message: &str) -> (error: ModelError)
    ensures
        error@ == invalid_response_error(message@),
{
    ModelError::new(message).with_code("invalid_response")
}

/// The name of a role on the wire.
pub fn role_name(role: Role) -> (name: &'static str)
    ensures
        name@ == role_text(role),
{
    role.as_str()
}

/// The JSON form of a tool call in a request.
pub open spec fn call_wire(call: ToolCallView) -> JsonView {
    JsonView::Object(
        map![
            "id"@ => JsonView::Text(call.id),
            "type"@ => JsonView::Text("function"@),
            "function"@ => JsonView::Object(
                map![
                    "name"@ => JsonView::Text(call.name),
                    "arguments"@ => JsonView::Text(call.input)
                ],
            )
        ],
    )
}

/// The texts of the text blocks in tool output.
pub open spec fn output_texts(blocks: Seq<ResultContentView>) -> Seq<Seq<char>>
    decreases blocks.len(),
{
    if blocks.len() == 0 {
        Seq::empty()
    } else {
        let rest = output_texts(blocks.drop_last());
        match blocks.last() {
            ResultContentView::Text(block) => rest.push(block.text),
            ResultContentView::Data(_) => rest,
        }
    }
}

/// Whether tool output holds data.
pub open spec fn output_has_data(output: OutputView) -> bool {
    match output {
        OutputView::Text(_) => false,
        OutputView::Blocks(blocks) => exists|i: int| 0 <= i < blocks.len() && #[trigger]
            blocks[i] is Data,
    }
}

/// Tool output as one text.
pub open spec fn output_text(output: OutputView) -> Seq<char> {
    match output {
        OutputView::Text(text) => text,
        OutputView::Blocks(blocks) => joined(output_texts(blocks), "\n"@),
    }
}

/// The JSON form of a tool result in a request.
pub open spec fn result_wire(id: Seq<char>, output: OutputView) -> JsonView {
    JsonView::Object(
        map![
            "role"@ => JsonView::Text("tool"@),
            "tool_call_id"@ => JsonView::Text(id),
            "content"@ => JsonView::Text(output_text(output))
        ],
    )
}

/// Why a block cannot be sent, if it cannot.
pub open spec fn block_error(block: BlockView) -> Option<ModelErrorView> {
    match block {
        BlockView::Data(_) => Some(
            coded_error(
                "OpenAIChatModel does not yet support multimodal input"@,
                "unsupported_content"@,
            ),
        ),
        BlockView::ToolResult(result) => if output_has_data(result.output) {
            Some(
                coded_error(
                    "OpenAIChatModel does not yet support multimodal tool results"@,
                    "unsupported_content"@,
                ),
            )
        } else {
            None
        },
        _ => None,
    }
}

/// What content blocks give for the wire: texts, tool calls and tool results.
#[verifier::ext_equal]
pub struct WireParts {
    pub texts: Seq<Seq<char>>,
    pub calls: Seq<JsonView>,
    pub results: Seq<JsonView>,
}

/// What content blocks give for the wire, or why the first that cannot be sent cannot.
pub open spec fn wire_parts(blocks: Seq<BlockView>) -> Result<WireParts, ModelErrorView>
    decreases blocks.len(),
{
    if blocks.len() == 0 {
        Ok(WireParts { texts: Seq::empty(), calls: Seq::empty(), results: Seq::empty() })
    } else {
        match wire_parts(blocks.drop_last()) {
            Err(error) => Err(error),
            Ok(parts) => match block_error(blocks.last()) {
                Some(error) => Err(error),
                None => Ok(
                    match blocks.last() {
                        BlockView::Text(block) => WireParts {
                            texts: parts.texts.push(block.text),
                            ..parts
                        },
                        BlockView::StructuredOutput(block) => WireParts {
                            texts: parts.texts.push(block.output),
                            ..parts
                        },
                        BlockView::ToolCall(block) => WireParts {
                            calls: parts.calls.push(call_wire(block)),
                            ..parts
                        },
                        BlockView::ToolResult(block) => WireParts {
                            results: parts.results.push(result_wire(block.id, block.output)),
                            ..parts
                        },
                        _ => parts,
                    },
                ),
            },
        }
    }
}

/// The wire message of texts and tool calls.
pub open spec fn turn_wire(role: Role, parts: WireParts) -> JsonView {
    let base = map![
        "role"@ => JsonView::Text(role_text(role)),
        "content"@ => if parts.texts.len() == 0 {
            JsonView::Null
        } else {
            JsonView::Text(joined(parts.texts, "\n"@))
        }
    ];
    JsonView::Object(
        if parts.calls.len() == 0 {
            base
        } else {
            base.insert("tool_calls"@, JsonView::Array(parts.calls))
        },
    )
}

/// The wire messages of one message.
pub open spec fn message_wire(msg: MsgView) -> Result<Seq<JsonView>, ModelErrorView> {
    match wire_parts(msg.content) {
        Err(error) => Err(error),
        Ok(parts) => if parts.calls.len() > 0 && msg.role != Role::Assistant {
            Err(
                coded_error(
                    "tool calls can only be sent in assistant messages"@,
                    "invalid_message"@,
                ),
            )
        } else if parts.texts.len() > 0 || parts.calls.len() > 0 {
            Ok(seq![turn_wire(msg.role, parts)] + parts.results)
        } else {
            Ok(parts.results)
        },
    }
}

/// The wire messages of a conversation, or why the first message that cannot be
/// sent cannot.
pub open spec fn messages_wire(msgs: Seq<MsgView>) -> Result<Seq<JsonView>, ModelErrorView>
    decreases msgs.len(),
{
    if msgs.len() == 0 {
        Ok(Seq::empty())
    } else {
        match messages_wire(msgs.drop_last()) {
            Err(error) => Err(error),
            Ok(wire) => match message_wire(msgs.last()) {
                Err(error) => Err(error),
                Ok(more) => Ok(wire + more),
            },
        }
    }
}

/// The wire form of a tool definition.
pub open spec fn tool_wire(tool: ToolView) -> JsonView {
    JsonView::Object(
        map![
            "type"@ => JsonView::Text("function"@),
            "function"@ => JsonView::Object(
                map![
                    "name"@ => JsonView::Text(tool.name),
                    "description"@ => JsonView::Text(tool.description),
                    "parameters"@ => tool.input_schema
                ],
            )
        ],
    )
}

/// The wire form of a requested schema.
pub open spec fn schema_wire(schema: JsonView) -> JsonView {
    JsonView::Object(
        map![
            "type"@ => JsonView::Text("json_schema"@),
            "json_schema"@ => JsonView::Object(
                map![
                    "name"@ => JsonView::Text("structured_output"@),
                    "strict"@ => JsonView::Bool(true),
                    "schema"@ => schema
                ],
            )
        ],
    )
}

/// A map with a key for an optional value.
pub open spec fn insert_some(
    map: Map<Seq<char>, JsonView>,
    key: Seq<char>,
    value: Option<JsonView>,
) -> Map<Seq<char>, JsonView> {
    match value {
        Some(value) => map.insert(key, value),
        None => map,
    }
}

/// An optional number as JSON.
pub open spec fn number_option(number: Option<u64>) -> Option<JsonView> {
    match number {
        Some(number) => Some(JsonView::Unsigned(number)),
        None => None,
    }
}

/// The token limit as a 64-bit number.
pub open spec fn max_tokens_option(number: Option<u32>) -> Option<u64> {
    match number {
        Some(number) => Some(number as u64),
        None => None,
    }
}

/// The standard fields of a request body.
pub open spec fn standard_body(
    model: Seq<char>,
    request: RequestView,
    messages: Seq<JsonView>,
    stream: bool,
) -> Map<Seq<char>, JsonView> {
    let options = request.options;
    let base = map![
        "model"@ => JsonView::Text(model),
        "stream"@ => JsonView::Bool(stream),
        "messages"@ => JsonView::Array(messages)
    ];
    let base = insert_some(base, "temperature"@, options.temperature);
    let base = insert_some(
        base,
        "max_tokens"@,
        number_option(max_tokens_option(options.max_tokens)),
    );
    let base = insert_some(base, "top_p"@, options.top_p);
    let base = insert_some(base, "seed"@, number_option(options.seed));
    let base = if options.stop.len() == 0 {
        base
    } else {
        base.insert(
            "stop"@,
            JsonView::Array(options.stop.map_values(|text: Seq<char>| JsonView::Text(text))),
        )
    };
    let base = if request.tools.len() == 0 {
        base
    } else {
        base.insert(
            "tools"@,
            JsonView::Array(request.tools.map_values(|tool: ToolView| tool_wire(tool))),
        )
    };
    match request.structured_output_schema {
        Some(schema) => base.insert("response_format"@, schema_wire(schema)),
        None => base,
    }
}

/// The names of the standard request fields in key order.
pub open spec fn reserved_fields() -> Seq<Seq<char>> {
    seq![
        "max_tokens"@,
        "messages"@,
        "model"@,
        "response_format"@,
        "seed"@,
        "stop"@,
        "stream"@,
        "temperature"@,
        "tools"@,
        "top_p"@,
    ]
}

/// The first of some names that is a key.
pub open spec fn first_key(names: Seq<Seq<char>>, map: Map<Seq<char>, JsonView>) -> Option<Seq<char>>
    decreases names.len(),
{
    if names.len() == 0 {
        None
    } else {
        match first_key(names.drop_last(), map) {
            Some(name) => Some(name),
            None => if map.contains_key(names.last()) {
                Some(names.last())
            } else {
                None
            },
        }
    }
}

/// The body of a request, or why it cannot be sent.
pub open spec fn request_body(model: Seq<char>, request: RequestView, stream: bool) -> Result<
    JsonView,
    ModelErrorView,
> {
    match messages_wire(request.messages) {
        Err(error) => Err(error),
        Ok(messages) => match first_key(reserved_fields(), request.options.extra) {
            Some(key) => Err(
                coded_error(
                    "provider option `"@ + key + "` cannot replace a standard request field"@,
                    "reserved_option"@,
                ),
            ),
            None => Ok(
                JsonView::Object(
                    standard_body(model, request, messages, stream).union_prefer_right(
                        request.options.extra,
                    ),
                ),
            ),
        },
    }
}

/// A result with views in place of the value and the error.
pub open spec fn both_views<T: View, E: View>(result: Result<T, E>) -> Result<T::V, E::V> {
    match result {
        Ok(value) => Ok(value@),
        Err(error) => Err(error@),
    }
}

fn encode_tool_call(block: &ToolCallBlock) -> (json: Json)
    ensures
        json@ == call_wire(block@),
{
    let mut function = JsonMap::new();
    put_text(&mut function, "name", block.name());
    put_text(&mut function, "arguments", block.input());
    let mut map = JsonMap::new();
    put_text(&mut map, "id", block.id());
    put_text(&mut map, "type", "function");
    put(&mut map, "function", Json::Object(function));
    Json::Object(map)
}

/// Tool output as one text, unless it holds data.
pub fn encode_tool_result(output: &ToolResultOutput) -> (result: Result<String, ModelError>)
    ensures
        match result {
            Ok(text) => !output_has_data(output@) && text@ == output_text(output@),
            Err(error) => output_has_data(output@) && error@ == coded_error(
                "OpenAIChatModel does not yet support multimodal tool results"@,
                "unsupported_content"@,
            ),
        },
{
    match output {
        ToolResultOutput::Text(text) => Ok(text.clone()),
        ToolResultOutput::Blocks(blocks) => {
            let mut parts: Vec<String> = Vec::new();
            let mut i: usize = 0;
            while i < blocks.len()
                invariant
                    i <= blocks@.len(),
                    *output == ToolResultOutput::Blocks(*blocks),
                    forall|j: int| 0 <= j < i ==> !((#[trigger] blocks@[j])@ is Data),
                    texts(parts@) == output_texts(views(blocks@.take(i as int))),
                decreases blocks@.len() - i,
            {
                proof {
                    lemma_views_take(blocks@, i as int);
                    assert(views(blocks@.take(i + 1)).drop_last() =~= views(blocks@.take(i as int)));
                }
                match &blocks[i] {
                    ToolResultContent::Text(block) => {
                        let ghost before = parts@;
                        parts.push(block.text.clone());
                        assert(texts(parts@) =~= texts(before).push(block.text@));
                    },
                    ToolResultContent::Data(_) => {
                        assert(views(blocks@)[i as int] is Data);
                        return Err(
                            ModelError::new(
                                "OpenAIChatModel does not yet support multimodal tool results",
                            ).with_code("unsupported_content"),
                        );
                    },
                }
                i += 1;
            }
            assert(blocks@.take(blocks@.len() as int) =~= blocks@);
            assert forall|j: int| 0 <= j < blocks@.len() implies !(#[trigger] views(
                blocks@,
            )[j] is Data) by {
                assert(views(blocks@)[j] == blocks@[j]@);
            }
            Ok(join(&parts, "\n"))
        },
    }
}

/// An error in some of the blocks is the error of them all.
proof fn lemma_wire_parts_error(blocks: Seq<BlockView>, count: int)
    requires
        0 <= count <= blocks.len(),
        wire_parts(blocks.take(count)) is Err,
    ensures
        wire_parts(blocks) == wire_parts(blocks.take(count)),
    decreases blocks.len() - count,
{
    if count < blocks.len() {
        assert(blocks.take(count + 1).drop_last() =~= blocks.take(count));
        lemma_wire_parts_error(blocks, count + 1);
    } else {
        assert(blocks.take(count) =~= blocks);
    }
}

/// The wire messages of one message.
pub fn encode_message(message: &Msg) -> (result: Result<Vec<Json>, ModelError>)
    ensures
        match result {
            Ok(wire) => message_wire(message@) == Ok::<Seq<JsonView>, ModelErrorView>(
                json_views(wire@),
            ),
            Err(error) => message_wire(message@) == Err::<Seq<JsonView>, ModelErrorView>(error@),
        },
{
    let mut text: Vec<String> = Vec::new();
    let mut tool_calls: Vec<Json> = Vec::new();
    let mut tool_results: Vec<Json> = Vec::new();
    let ghost blocks = views(message.content@);
    let mut i: usize = 0;
    proof {
        assert(texts(text@) =~= Seq::empty());
        assert(json_views(tool_calls@) =~= Seq::empty());
        assert(json_views(tool_results@) =~= Seq::empty());
    }
    while i < message.content.len()
        invariant
            i <= message.content@.len(),
            blocks == views(message.content@),
            wire_parts(blocks.take(i as int)) == Ok::<WireParts, ModelErrorView>(
                WireParts {
                    texts: texts(text@),
                    calls: json_views(tool_calls@),
                    results: json_views(tool_results@),
                },
            ),
        decreases message.content@.len() - i,
    {
        proof {
            assert(blocks.take(i + 1).drop_last() =~= blocks.take(i as int));
            assert(blocks[i as int] == message.content@[i as int]@);
            if wire_parts(blocks.take(i + 1)) is Err {
                lemma_wire_parts_error(blocks, i + 1);
            }
        }
        let ghost text_before = text@;
        let ghost calls_before = tool_calls@;
        let ghost results_before = tool_results@;
        match &message.content[i] {
            ContentBlock::Text(block) => {
                text.push(block.text.clone());
                assert(texts(text@) =~= texts(text_before).push(block.text@));
            },
            ContentBlock::StructuredOutput(block) => {
                text.push(block.raw_output().to_owned());
                assert(texts(text@) =~= texts(text_before).push(block@.output));
            },
            ContentBlock::Thinking(_) => {},
            ContentBlock::ToolCall(block) => {
                tool_calls.push(encode_tool_call(block));
                assert(json_views(tool_calls@) =~= json_views(calls_before).push(call_wire(block@)));
            },
            ContentBlock::ToolResult(block) => match encode_tool_result(block.output()) {
                Err(error) => {
                    return Err(error);
                },
                Ok(content) => {
                    let mut map = JsonMap::new();
                    put_text(&mut map, "role", "tool");
                    put_text(&mut map, "tool_call_id", block.id());
                    put_text(&mut map, "content", content.as_str());
                    tool_results.push(Json::Object(map));
                    assert(json_views(tool_results@) =~= json_views(results_before).push(
                        result_wire(block@.id, block@.output),
                    ));
                },
            },
            ContentBlock::Data(_) => {
                return Err(
                    ModelError::new(
                        "OpenAIChatModel does not yet support multimodal input",
                    ).with_code("unsupported_content"),
                );
            },
        }
        i += 1;
    }
    assert(blocks.take(blocks.len() as int) =~= blocks);
    let mut wire: Vec<Json> = Vec::new();
    if text.len() > 0 || tool_calls.len() > 0 {
        let ghost parts = WireParts {
            texts: texts(text@),
            calls: json_views(tool_calls@),
            results: json_views(tool_results@),
        };
        let mut map = JsonMap::new();
        put_text(&mut map, "role", role_name(message.role));
        if text.len() == 0 {
            put(&mut map, "content", Json::Null);
        } else {
            let content = join(&text, "\n");
            put_text(&mut map, "content", content.as_str());
        }
        if tool_calls.len() > 0 {
            if !matches!(message.role, Role::Assistant) {
                return Err(
                    ModelError::new(
                        "tool calls can only be sent in assistant messages",
                    ).with_code("invalid_message"),
                );
            }
            proof {
                lemma_array_view(tool_calls);
            }
            put(&mut map, "tool_calls", Json::Array(tool_calls));
        }
        wire.push(Json::Object(map));
        assert(json_views(wire@) =~= seq![turn_wire(message@.role, parts)]);
    }
    let ghost start = json_views(wire@);
    let ghost results = json_views(tool_results@);
    wire.append(&mut tool_results);
    assert(json_views(wire@) =~= start + results);
    assert(start + results =~= if start.len() == 0 {
        results
    } else {
        start + results
    });
    Ok(wire)
}

/// An error in some of the messages is the error of them all.
proof fn lemma_messages_error(msgs: Seq<MsgView>, count: int)
    requires
        0 <= count <= msgs.len(),
        messages_wire(msgs.take(count)) is Err,
    ensures
        messages_wire(msgs) == messages_wire(msgs.take(count)),
    decreases msgs.len() - count,
{
    if count < msgs.len() {
        assert(msgs.take(count + 1).drop_last() =~= msgs.take(count));
        lemma_messages_error(msgs, count + 1);
    } else {
        assert(msgs.take(count) =~= msgs);
    }
}

/// The wire messages of a conversation.
pub fn encode_messages(messages: &Vec<Msg>) -> (result: Result<Vec<Json>, ModelError>)
    ensures
        match result {
            Ok(wire) => messages_wire(views(messages@)) == Ok::<Seq<JsonView>, ModelErrorView>(
                json_views(wire@),
            ),
            Err(error) => messages_wire(views(messages@)) == Err::<Seq<JsonView>, ModelErrorView>(
                error@,
            ),
        },
{
    let mut encoded: Vec<Json> = Vec::new();
    let ghost msgs = views(messages@);
    let mut i: usize = 0;
    assert(json_views(encoded@) =~= Seq::empty());
    while i < messages.len()
        invariant
            i <= messages@.len(),
            msgs == views(messages@),
            messages_wire(msgs.take(i as int)) == Ok::<Seq<JsonView>, ModelErrorView>(
                json_views(encoded@),
            ),
        decreases messages@.len() - i,
    {
        proof {
            assert(msgs.take(i + 1).drop_last() =~= msgs.take(i as int));
            assert(msgs[i as int] == messages@[i as int]@);
        }
        match encode_message(&messages[i]) {
            Err(error) => {
                proof {
                    lemma_messages_error(msgs, i + 1);
                }
                return Err(error);
            },
            Ok(mut wire) => {
                let ghost before = json_views(encoded@);
                let ghost more = json_views(wire@);
                encoded.append(&mut wire);
                assert(json_views(encoded@) =~= before + more);
            },
        }
        i += 1;
    }
    assert(msgs.take(msgs.len() as int) =~= msgs);
    Ok(encoded)
}

fn encode_tools(tools: &Vec<ToolDefinition>) -> (json: Json)
    ensures
        json@ == JsonView::Array(views(tools@).map_values(|tool: ToolView| tool_wire(tool))),
{
    let mut items: Vec<Json> = Vec::new();
    let mut i: usize = 0;
    while i < tools.len()
        invariant
            i <= tools@.len(),
            items@.len() == i,
            forall|j: int| 0 <= j < i ==> (#[trigger] items@[j])@ == tool_wire(tools@[j]@),
        decreases tools@.len() - i,
    {
        let tool = &tools[i];
        let mut function = JsonMap::new();
        put_text(&mut function, "name", tool.name.as_str());
        put_text(&mut function, "description", tool.description.as_str());
        put(&mut function, "parameters", tool.input_schema.clone());
        let mut map = JsonMap::new();
        put_text(&mut map, "type", "function");
        put(&mut map, "function", Json::Object(function));
        items.push(Json::Object(map));
        i += 1;
    }
    proof {
        lemma_array_view(items);
        assert(json_views(items@) =~= views(tools@).map_values(|tool: ToolView| tool_wire(tool)));
    }
    Json::Array(items)
}

fn encode_stop(stop: &Vec<String>) -> (json: Json)
    ensures
        json@ == JsonView::Array(
            views(stop@).map_values(|text: Seq<char>| JsonView::Text(text)),
        ),
{
    let mut items: Vec<Json> = Vec::new();
    let mut i: usize = 0;
    while i < stop.len()
        invariant
            i <= stop@.len(),
            items@.len() == i,
            forall|j: int| 0 <= j < i ==> (#[trigger] items@[j])@ == JsonView::Text(stop@[j]@),
        decreases stop@.len() - i,
    {
        items.push(encode_text(stop[i].as_str()));
        i += 1;
    }
    proof {
        lemma_array_view(items);
        assert(json_views(items@) =~= views(stop@).map_values(
            |text: Seq<char>| JsonView::Text(text),
        ));
    }
    Json::Array(items)
}

fn encode_schema(schema: &Json) -> (json: Json)
    ensures
        json@ == schema_wire(schema@),
{
    let mut inner = JsonMap::new();
    put_text(&mut inner, "name", "structured_output");
    put(&mut inner, "strict", Json::Bool(true));
    put(&mut inner, "schema", schema.clone());
    let mut map = JsonMap::new();
    put_text(&mut map, "type", "json_schema");
    put(&mut map, "json_schema", Json::Object(inner));
    Json::Object(map)
}

fn insert_option(map: &mut JsonMap, key: &str, value: Option<Json>)
    ensures
        final(map)@ == insert_some(old(map)@, key@, view_option(value)),
{
    if let Some(value) = value {
        put(map, key, value);
    }
}

fn number_json(number: Option<u64>) -> (json: Option<Json>)
    ensures
        view_option(json) == number_option(number),
{
    match number {
        Some(number) => Some(Json::Unsigned(number)),
        None => None,
    }
}

/// The first standard request field that is a key of an object, in key order.
fn find_reserved(map: &JsonMap) -> (key: Option<&'static str>)
    ensures
        match key {
            Some(name) => first_key(reserved_fields(), map@) == Some(name@),
            None => first_key(reserved_fields(), map@) is None,
        },
{
    let names: [&'static str; 10] = [
        "max_tokens",
        "messages",
        "model",
        "response_format",
        "seed",
        "stop",
        "stream",
        "temperature",
        "tools",
        "top_p",
    ];
    let ghost fields = reserved_fields();
    let mut i: usize = 0;
    while i < 10
        invariant
            i <= 10,
            fields == reserved_fields(),
            fields.len() == 10,
            forall|j: int| 0 <= j < 10 ==> (#[trigger] names@[j])@ == fields[j],
            first_key(fields.take(i as int), map@) is None,
        decreases 10 - i,
    {
        proof {
            assert(fields.take(i + 1).drop_last() =~= fields.take(i as int));
            assert(names@[i as int]@ == fields[i as int]);
        }
        if map.contains_key(names[i]) {
            proof {
                lemma_first_key(fields, i + 1, map@);
            }
            return Some(names[i]);
        }
        i += 1;
    }
    assert(fields.take(10) =~= fields);
    None
}

proof fn lemma_first_key(names: Seq<Seq<char>>, count: int, map: Map<Seq<char>, JsonView>)
    requires
        0 <= count <= names.len(),
        first_key(names.take(count), map) is Some,
    ensures
        first_key(names, map) == first_key(names.take(count), map),
    decreases names.len() - count,
{
    if count < names.len() {
        assert(names.take(count + 1).drop_last() =~= names.take(count));
        lemma_first_key(names, count + 1, map);
    } else {
        assert(names.take(count) =~= names);
    }
}

/// The body of a request for one complete response.
pub fn encode_request(model: &str, request: &ChatRequest) -> (result: Result<Json, ModelError>)
    ensures
        both_views(result) == request_body(model@, request@, false),
{
    encode_body(model, request, false)
}

/// The body of a request for a stream of events.
pub fn encode_stream_request(model: &str, request: &ChatRequest) -> (result: Result<
    Json,
    ModelError,
>)
    ensures
        both_views(result) == request_body(model@, request@, true),
{
    encode_body(model, request, true)
}

fn encode_body(model: &str, request: &ChatRequest, stream: bool) -> (result: Result<
    Json,
    ModelError,
>)
    ensures
        both_views(result) == request_body(model@, request@, stream),
{
    let messages = match encode_messages(&request.messages) {
        Err(error) => {
            return Err(error);
        },
        Ok(messages) => messages,
    };
    let ghost wire = json_views(messages@);
    let mut body = JsonMap::new();
    put_text(&mut body, "model", model);
    put(&mut body, "stream", Json::Bool(stream));
    proof {
        lemma_array_view(messages);
    }
    put(&mut body, "messages", Json::Array(messages));
    let options = &request.options;
    insert_option(
        &mut body,
        "temperature",
        super::super::request::copy_json_option(&options.temperature),
    );
    let max_tokens: Option<u64> = match options.max_tokens {
        Some(number) => Some(number as u64),
        None => None,
    };
    insert_option(&mut body, "max_tokens", number_json(max_tokens));
    insert_option(
        &mut body,
        "top_p",
        super::super::request::copy_json_option(&options.top_p),
    );
    insert_option(&mut body, "seed", number_json(options.seed));
    if options.stop.len() > 0 {
        put(&mut body, "stop", encode_stop(&options.stop));
    }
    if request.tools.len() > 0 {
        put(&mut body, "tools", encode_tools(&request.tools));
    }
    if let Some(schema) = &request.structured_output_schema {
        put(&mut body, "response_format", encode_schema(schema));
    }
    assert(body@ == standard_body(model@, request@, wire, stream));
    if let Some(key) = find_reserved(&options.extra) {
        let message = concat3(
            "provider option `",
            key,
            "` cannot replace a standard request field",
        );
        return Err(ModelError::new(message.as_str()).with_code("reserved_option"));
    }
    extend(&mut body, &options.extra);
    Ok(Json::Object(body))
}

/// A piece of content in a response.
#[verifier::ext_equal]
pub enum PieceView {
    Thinking(Seq<char>),
    Text(Seq<char>),
    Structured(JsonView, JsonView),
    Call(Seq<char>, Seq<char>, Seq<char>),
}

/// Whether a block is new and holds a piece of content.
pub open spec fn holds_piece(block: BlockView, piece: PieceView) -> bool {
    match piece {
        PieceView::Thinking(text) => block matches BlockView::Thinking(held) && is_new_thinking(
            held,
            text,
        ),
        PieceView::Text(text) => block matches BlockView::Text(held) && is_new_text(held, text),
        PieceView::Structured(schema, output) => block matches BlockView::StructuredOutput(held)
            && is_complete_structured(held, schema, json_text(output)),
        PieceView::Call(id, name, input) => block matches BlockView::ToolCall(held) && is_new_call(
            held,
            id,
            name,
            input,
        ),
    }
}

/// Whether blocks are new and hold pieces of content, one for one.
pub open spec fn hold_pieces(blocks: Seq<BlockView>, pieces: Seq<PieceView>) -> bool {
    blocks.len() == pieces.len() && forall|i: int|
        0 <= i < blocks.len() ==> holds_piece(#[trigger] blocks[i], pieces[i])
}

/// The object at a key.
pub open spec fn object_at(map: Map<Seq<char>, JsonView>, key: Seq<char>) -> Option<
    Map<Seq<char>, JsonView>,
> {
    match lookup(map, key) {
        Some(JsonView::Object(inner)) => Some(inner),
        _ => None,
    }
}

/// The text at a key.
pub open spec fn text_at(map: Map<Seq<char>, JsonView>, key: Seq<char>) -> Option<Seq<char>> {
    match lookup(map, key) {
        Some(value) => as_text(value),
        None => None,
    }
}

/// The unsigned number at a key.
pub open spec fn number_at(map: Map<Seq<char>, JsonView>, key: Seq<char>) -> Option<u64> {
    match lookup(map, key) {
        Some(value) => as_unsigned(value),
        None => None,
    }
}

/// The text that must stand at a key.
pub open spec fn required_text(
    map: Map<Seq<char>, JsonView>,
    key: Seq<char>,
    context: Seq<char>,
) -> Result<Seq<char>, ModelErrorView> {
    match text_at(map, key) {
        Some(text) => Ok(text),
        None => Err(
            invalid_response_error(context + " did not contain string field `"@ + key + "`"@),
        ),
    }
}

/// The tool call that a response holds.
pub open spec fn call_piece(json: JsonView) -> Result<PieceView, ModelErrorView> {
    match json {
        JsonView::Object(object) => match required_text(object, "id"@, "tool call"@) {
            Err(error) => Err(error),
            Ok(id) => match object_at(object, "function"@) {
                None => Err(invalid_response_error("tool call did not contain a function"@)),
                Some(function) => match required_text(function, "name"@, "tool call function"@) {
                    Err(error) => Err(error),
                    Ok(name) => match required_text(
                        function,
                        "arguments"@,
                        "tool call function"@,
                    ) {
                        Err(error) => Err(error),
                        Ok(arguments) => match complete_call_error(id, name, arguments) {
                            Some(error) => Err(
                                invalid_response_error(
                                    "invalid tool call: "@ + call_error_text(error),
                                ),
                            ),
                            None => Ok(PieceView::Call(id, name, arguments)),
                        },
                    },
                },
            },
        },
        _ => Err(invalid_response_error("tool call must be an object"@)),
    }
}

/// The tool calls that a response holds, or what is wrong with the first bad one.
pub open spec fn call_pieces(items: Seq<JsonView>) -> Result<Seq<PieceView>, ModelErrorView>
    decreases items.len(),
{
    if items.len() == 0 {
        Ok(Seq::empty())
    } else {
        match call_pieces(items.drop_last()) {
            Err(error) => Err(error),
            Ok(pieces) => match call_piece(items.last()) {
                Err(error) => Err(error),
                Ok(piece) => Ok(pieces.push(piece)),
            },
        }
    }
}

/// The reasoning of a response message.
pub open spec fn thinking_pieces(message: Map<Seq<char>, JsonView>) -> Seq<PieceView> {
    match text_at(message, "reasoning_content"@) {
        Some(text) => if text.len() == 0 {
            Seq::empty()
        } else {
            seq![PieceView::Thinking(text)]
        },
        None => Seq::empty(),
    }
}

/// The text or structured output of a response message.
pub open spec fn text_pieces(
    message: Map<Seq<char>, JsonView>,
    schema: Option<JsonView>,
) -> Result<Seq<PieceView>, ModelErrorView> {
    match text_at(message, "content"@) {
        Some(text) => if text.len() == 0 {
            Ok(Seq::empty())
        } else {
            match schema {
                None => Ok(seq![PieceView::Text(text)]),
                Some(schema) => match parsed_json(text) {
                    Err(fault) => Err(
                        invalid_response_error("structured output was invalid JSON: "@ + fault),
                    ),
                    Ok(output) => if schema_root(schema) {
                        Ok(seq![PieceView::Structured(schema, output)])
                    } else {
                        Err(
                            invalid_response_error(
                                structured_error_text(StructuredErrorView::InvalidSchema),
                            ),
                        )
                    },
                },
            }
        },
        None => Ok(Seq::empty()),
    }
}

/// The tool calls of a response message.
pub open spec fn tool_pieces(message: Map<Seq<char>, JsonView>) -> Result<
    Seq<PieceView>,
    ModelErrorView,
> {
    match lookup(message, "tool_calls"@) {
        Some(JsonView::Array(items)) => call_pieces(items),
        _ => Ok(Seq::empty()),
    }
}

/// The content of a response message.
pub open spec fn message_pieces(
    message: Map<Seq<char>, JsonView>,
    schema: Option<JsonView>,
) -> Result<Seq<PieceView>, ModelErrorView> {
    match text_pieces(message, schema) {
        Err(error) => Err(error),
        Ok(text) => match tool_pieces(message) {
            Err(error) => Err(error),
            Ok(calls) => Ok(thinking_pieces(message) + text + calls),
        },
    }
}

/// The finish reason that a provider gives.
pub open spec fn provider_reason(value: Option<JsonView>) -> Result<FinishReason, ModelErrorView> {
    match value {
        Some(JsonView::Text(text)) => if text == "stop"@ {
            Ok(FinishReason::Completed)
        } else if text == "length"@ {
            Ok(FinishReason::Length)
        } else if text == "tool_calls"@ || text == "function_call"@ {
            Ok(FinishReason::ToolCalls)
        } else if text == "content_filter"@ {
            Ok(FinishReason::ContentFilter)
        } else {
            Err(invalid_response_error("unknown finish reason `"@ + text + "`"@))
        },
        _ => Err(invalid_response_error("choice did not contain a finish reason"@)),
    }
}

/// A number, or zero.
pub open spec fn number_or_zero(number: Option<u64>) -> u64 {
    match number {
        Some(number) => number,
        None => 0,
    }
}

/// The usage that a provider gives.
pub open spec fn provider_usage(value: JsonView) -> Result<Usage, ModelErrorView> {
    match value {
        JsonView::Object(usage) => Ok(
            Usage {
                input_tokens: number_or_zero(number_at(usage, "prompt_tokens"@)),
                output_tokens: number_or_zero(number_at(usage, "completion_tokens"@)),
                reasoning_tokens: match object_at(usage, "completion_tokens_details"@) {
                    Some(details) => number_at(details, "reasoning_tokens"@),
                    None => None,
                },
                cached_input_tokens: match object_at(usage, "prompt_tokens_details"@) {
                    Some(details) => match number_at(details, "cached_tokens"@) {
                        Some(cached) => Some(cached),
                        None => number_at(usage, "prompt_cache_hit_tokens"@),
                    },
                    None => number_at(usage, "prompt_cache_hit_tokens"@),
                },
            },
        ),
        _ => Err(invalid_response_error("usage must be an object"@)),
    }
}

/// The fields of a response that become metadata.
pub open spec fn metadata_of(object: Map<Seq<char>, JsonView>) -> Map<Seq<char>, JsonView> {
    let base = insert_some(Map::empty(), "model"@, lookup(object, "model"@));
    let base = insert_some(base, "created"@, lookup(object, "created"@));
    let base = insert_some(base, "system_fingerprint"@, lookup(object, "system_fingerprint"@));
    insert_some(base, "service_tier"@, lookup(object, "service_tier"@))
}

/// The first choice of a response, if it is an object.
pub open spec fn first_choice(value: Option<JsonView>) -> Option<Map<Seq<char>, JsonView>> {
    match value {
        Some(JsonView::Array(choices)) => if choices.len() > 0 {
            match choices[0] {
                JsonView::Object(choice) => Some(choice),
                _ => None,
            }
        } else {
            None
        },
        _ => None,
    }
}

/// What a provider's response says.
#[verifier::ext_equal]
pub struct DecodedView {
    pub pieces: Seq<PieceView>,
    pub reason: FinishReason,
    pub id: Option<Seq<char>>,
    pub usage: Option<Usage>,
    pub metadata: Map<Seq<char>, JsonView>,
}

/// What a provider's response says, or what is wrong with it.
pub open spec fn decoded_response(response: JsonView, schema: Option<JsonView>) -> Result<
    DecodedView,
    ModelErrorView,
> {
    match response {
        JsonView::Object(object) => match first_choice(lookup(object, "choices"@)) {
            None => Err(invalid_response_error("response did not contain a choice"@)),
            Some(choice) => match object_at(choice, "message"@) {
                None => Err(invalid_response_error("choice did not contain a message"@)),
                Some(message) => match message_pieces(message, schema) {
                    Err(error) => Err(error),
                    Ok(pieces) => match provider_reason(lookup(choice, "finish_reason"@)) {
                        Err(error) => Err(error),
                        Ok(reason) => match optional_usage(lookup(object, "usage"@)) {
                            Err(error) => Err(error),
                            Ok(usage) => Ok(
                                DecodedView {
                                    pieces,
                                    reason,
                                    id: text_at(object, "id"@),
                                    usage,
                                    metadata: metadata_of(object),
                                },
                            ),
                        },
                    },
                },
            },
        },
        _ => Err(invalid_response_error("response root must be an object"@)),
    }
}

/// The usage that a provider may give.
pub open spec fn optional_usage(value: Option<JsonView>) -> Result<Option<Usage>, ModelErrorView> {
    match value {
        None => Ok(None),
        Some(value) => match provider_usage(value) {
            Err(error) => Err(error),
            Ok(usage) => Ok(Some(usage)),
        },
    }
}

/// Whether a response is new and says what a provider's response says.
pub open spec fn is_decoded(response: ResponseView, decoded: DecodedView) -> bool {
    &&& hold_pieces(response.content, decoded.pieces)
    &&& response.is_last
    &&& response.finish_reason == Some(decoded.reason)
    &&& response.usage == decoded.usage
    &&& response.metadata == decoded.metadata
    &&& is_timestamp(response.created_at)
    &&& match decoded.id {
        Some(id) => response.id == id,
        None => is_generated_id(response.id),
    }
}

pub(crate) fn object_field<'a>(map: &'a JsonMap, key: &str) -> (inner: Option<&'a JsonMap>)
    ensures
        match inner {
            Some(found) => object_at(map@, key@) == Some(found@),
            None => object_at(map@, key@) is None,
        },
{
    match map.get(key) {
        Some(value) => value.as_object(),
        None => None,
    }
}

pub(crate) fn text_field<'a>(map: &'a JsonMap, key: &str) -> (text: Option<&'a str>)
    ensures
        match text {
            Some(found) => text_at(map@, key@) == Some(found@),
            None => text_at(map@, key@) is None,
        },
{
    match map.get(key) {
        Some(value) => value.as_str(),
        None => None,
    }
}

/// The unsigned number at a key.
pub fn optional_u64(map: &JsonMap, key: &str) -> (number: Option<u64>)
    ensures
        number == number_at(map@, key@),
{
    match map.get(key) {
        Some(value) => value.as_u64(),
        None => None,
    }
}

/// The text that must stand at a key.
pub fn required_string<'a>(map: &'a JsonMap, key: &str, context: &str) -> (result: Result<
    &'a str,
    ModelError,
>)
    ensures
        match result {
            Ok(text) => required_text(map@, key@, context@) == Ok::<Seq<char>, ModelErrorView>(
                text@,
            ),
            Err(error) => required_text(map@, key@, context@) == Err::<Seq<char>, ModelErrorView>(
                error@,
            ),
        },
{
    match text_field(map, key) {
        Some(text) => Ok(text),
        None => {
            let start = concat3(context, " did not contain string field `", key);
            Err(invalid_response(concat2(start.as_str(), "`").as_str()))
        },
    }
}

/// Reads a tool call of a response.
pub fn decode_tool_call(value: &Json) -> (result: Result<ToolCallBlock, ModelError>)
    ensures
        match result {
            Ok(block) => call_piece(value@) matches Ok(piece) && holds_piece(
                BlockView::ToolCall(block@),
                piece,
            ),
            Err(error) => call_piece(value@) == Err::<PieceView, ModelErrorView>(error@),
        },
{
    let object = match value.as_object() {
        None => {
            return Err(invalid_response("tool call must be an object"));
        },
        Some(object) => object,
    };
    let id = match required_string(object, "id", "tool call") {
        Err(error) => {
            return Err(error);
        },
        Ok(id) => id,
    };
    let function = match object_field(object, "function") {
        None => {
            return Err(invalid_response("tool call did not contain a function"));
        },
        Some(function) => function,
    };
    let name = match required_string(function, "name", "tool call function") {
        Err(error) => {
            return Err(error);
        },
        Ok(name) => name,
    };
    let arguments = match required_string(function, "arguments", "tool call function") {
        Err(error) => {
            return Err(error);
        },
        Ok(arguments) => arguments,
    };
    match ToolCallBlock::complete(id, name, arguments) {
        Ok(block) => Ok(block),
        Err(error) => Err(
            invalid_response(concat2("invalid tool call: ", error.to_string().as_str()).as_str()),
        ),
    }
}

/// Reads the finish reason of a choice.
pub fn decode_finish_reason(value: Option<&Json>) -> (result: Result<FinishReason, ModelError>)
    ensures
        match result {
            Ok(reason) => provider_reason(view_option(value)) == Ok::<FinishReason, ModelErrorView>(reason),
            Err(error) => provider_reason(view_option(value)) == Err::<FinishReason, ModelErrorView>(error@),
        },
{
    let text = match value {
        Some(json) => json.as_str(),
        None => None,
    };
    match text {
        Some(text) => if same_text(text, "stop") {
            Ok(FinishReason::Completed)
        } else if same_text(text, "length") {
            Ok(FinishReason::Length)
        } else if same_text(text, "tool_calls") || same_text(text, "function_call") {
            Ok(FinishReason::ToolCalls)
        } else if same_text(text, "content_filter") {
            Ok(FinishReason::ContentFilter)
        } else {
            Err(invalid_response(concat3("unknown finish reason `", text, "`").as_str()))
        },
        None => Err(invalid_response("choice did not contain a finish reason")),
    }
}

/// Reads the usage of a response.
pub fn decode_usage(value: &Json) -> (result: Result<Usage, ModelError>)
    ensures
        match result {
            Ok(usage) => provider_usage(value@) == Ok::<Usage, ModelErrorView>(usage),
            Err(error) => provider_usage(value@) == Err::<Usage, ModelErrorView>(error@),
        },
{
    let usage = match value.as_object() {
        None => {
            return Err(invalid_response("usage must be an object"));
        },
        Some(usage) => usage,
    };
    let input: u64 = optional_u64(usage, "prompt_tokens").unwrap_or(0);
    let output: u64 = optional_u64(usage, "completion_tokens").unwrap_or(0);
    let detail: Option<u64> = match object_field(usage, "prompt_tokens_details") {
        Some(details) => optional_u64(details, "cached_tokens"),
        None => None,
    };
    let cached: Option<u64> = match detail {
        Some(cached) => Some(cached),
        None => optional_u64(usage, "prompt_cache_hit_tokens"),
    };
    let reasoning: Option<u64> = match object_field(usage, "completion_tokens_details") {
        Some(details) => optional_u64(details, "reasoning_tokens"),
        None => None,
    };
    let mut result = Usage::new(input, output);
    if let Some(cached) = cached {
        result = result.with_cached_input_tokens(cached);
    }
    if let Some(reasoning) = reasoning {
        result = result.with_reasoning_tokens(reasoning);
    }
    Ok(result)
}

/// The fields of a response that become metadata.
pub fn response_metadata(object: &JsonMap) -> (metadata: Metadata)
    ensures
        metadata@ == metadata_of(object@),
{
    let mut metadata = Metadata::new();
    copy_field(&mut metadata, object, "model");
    copy_field(&mut metadata, object, "created");
    copy_field(&mut metadata, object, "system_fingerprint");
    copy_field(&mut metadata, object, "service_tier");
    metadata
}

fn copy_field(map: &mut JsonMap, from: &JsonMap, key: &str)
    ensures
        final(map)@ == insert_some(old(map)@, key@, lookup(from@, key@)),
{
    if let Some(value) = from.get(key) {
        put(map, key, value.clone());
    }
}

/// An error in some of the tool calls is the error of them all.
proof fn lemma_call_pieces_error(items: Seq<JsonView>, count: int)
    requires
        0 <= count <= items.len(),
        call_pieces(items.take(count)) is Err,
    ensures
        call_pieces(items) == call_pieces(items.take(count)),
    decreases items.len() - count,
{
    if count < items.len() {
        assert(items.take(count + 1).drop_last() =~= items.take(count));
        lemma_call_pieces_error(items, count + 1);
    } else {
        assert(items.take(count) =~= items);
    }
}

/// Reads the tool calls of a response message.
fn decode_tool_calls(message: &JsonMap) -> (result: Result<Vec<ContentBlock>, ModelError>)
    ensures
        match result {
            Ok(blocks) => tool_pieces(message@) matches Ok(pieces) && hold_pieces(
                views(blocks@),
                pieces,
            ),
            Err(error) => tool_pieces(message@) == Err::<Seq<PieceView>, ModelErrorView>(error@),
        },
{
    let mut blocks: Vec<ContentBlock> = Vec::new();
    let items = match message.get("tool_calls") {
        Some(value) => value.as_array(),
        None => None,
    };
    if let Some(items) = items {
        let ghost json = json_views(items@);
        let mut i: usize = 0;
        while i < items.len()
            invariant
                i <= items@.len(),
                json == json_views(items@),
                tool_pieces(message@) == call_pieces(json),
                call_pieces(json.take(i as int)) matches Ok(pieces) && hold_pieces(
                    views(blocks@),
                    pieces,
                ),
            decreases items@.len() - i,
        {
            proof {
                assert(json.take(i + 1).drop_last() =~= json.take(i as int));
                assert(json[i as int] == items@[i as int]@);
            }
            match decode_tool_call(&items[i]) {
                Err(error) => {
                    proof {
                        lemma_call_pieces_error(json, i + 1);
                    }
                    return Err(error);
                },
                Ok(block) => {
                    let ghost before = views(blocks@);
                    blocks.push(ContentBlock::ToolCall(block));
                    assert(views(blocks@) =~= before.push(BlockView::ToolCall(block@)));
                },
            }
            i += 1;
        }
        assert(json.take(json.len() as int) =~= json);
    }
    Ok(blocks)
}

/// Reads the reasoning of a response message.
fn decode_thinking(message: &JsonMap) -> (blocks: Vec<ContentBlock>)
    ensures
        hold_pieces(views(blocks@), thinking_pieces(message@)),
{
    let mut blocks: Vec<ContentBlock> = Vec::new();
    if let Some(text) = text_field(message, "reasoning_content") {
        if !text.is_empty() {
            blocks.push(ContentBlock::Thinking(ThinkingBlock::new(text)));
        }
    }
    blocks
}

/// What is made of the text of a response message once it was read as JSON.
pub fn structured_block(schema: &Json, parsed: Result<Json, String>) -> (result: Result<
    StructuredOutputBlock,
    ModelError,
>)
    ensures
        match (parsed, result) {
            (Err(fault), Err(error)) => error@ == invalid_response_error(
                "structured output was invalid JSON: "@ + fault@,
            ),
            (Ok(_), Err(error)) => !schema_root(schema@) && error@ == invalid_response_error(
                structured_error_text(StructuredErrorView::InvalidSchema),
            ),
            (Ok(output), Ok(block)) => schema_root(schema@) && is_complete_structured(
                block@,
                schema@,
                json_text(output@),
            ),
            (Err(_), Ok(_)) => false,
        },
{
    match parsed {
        Err(fault) => Err(
            invalid_response(concat2("structured output was invalid JSON: ", fault.as_str()).as_str()),
        ),
        Ok(output) => match StructuredOutputBlock::complete(schema.clone(), output) {
            Err(error) => Err(invalid_response(error.to_string().as_str())),
            Ok(block) => Ok(block),
        },
    }
}

/// Reads the text or structured output of a response message.
fn decode_text(message: &JsonMap, schema: Option<&Json>) -> (result: Result<
    Vec<ContentBlock>,
    ModelError,
>)
    ensures
        match result {
            Ok(blocks) => text_pieces(message@, view_option(schema)) matches Ok(pieces) && hold_pieces(views(blocks@), pieces),
            Err(error) => text_pieces(message@, view_option(schema)) == Err::<Seq<PieceView>, ModelErrorView>(error@),
        },
{
    let mut blocks: Vec<ContentBlock> = Vec::new();
    if let Some(text) = text_field(message, "content") {
        if !text.is_empty() {
            match schema {
                None => {
                    blocks.push(ContentBlock::from(text));
                },
                Some(schema) => match structured_block(schema, Json::parse(text)) {
                    Err(error) => {
                        return Err(error);
                    },
                    Ok(block) => {
                        blocks.push(ContentBlock::StructuredOutput(block));
                    },
                },
            }
        }
    }
    Ok(blocks)
}

/// Holding pieces carries over to concatenation.
proof fn lemma_hold_concat(
    a: Seq<BlockView>,
    p: Seq<PieceView>,
    b: Seq<BlockView>,
    q: Seq<PieceView>,
)
    requires
        hold_pieces(a, p),
        hold_pieces(b, q),
    ensures
        hold_pieces(a + b, p + q),
{
    assert forall|i: int| 0 <= i < (a + b).len() implies holds_piece(
        #[trigger] (a + b)[i],
        (p + q)[i],
    ) by {
        if i < a.len() {
            assert(holds_piece(a[i], p[i]));
        } else {
            assert(holds_piece(b[i - a.len()], q[i - p.len()]));
        }
    }
}

/// Reads a provider's complete response.
pub fn decode_response(response: &Json, structured_output_schema: Option<&Json>) -> (result: Result<
    ChatResponse,
    ModelError,
>)
    ensures
        match result {
            Ok(read) => decoded_response(response@, view_option(structured_output_schema)) matches Ok(decoded) && is_decoded(read@, decoded),
            Err(error) => decoded_response(response@, view_option(structured_output_schema)) == Err::<DecodedView, ModelErrorView>(error@),
        },
{
    let object = match response.as_object() {
        None => {
            return Err(invalid_response("response root must be an object"));
        },
        Some(object) => object,
    };
    let choice = match find_choice(object.get("choices")) {
        None => {
            return Err(invalid_response("response did not contain a choice"));
        },
        Some(choice) => choice,
    };
    let message = match object_field(choice, "message") {
        None => {
            return Err(invalid_response("choice did not contain a message"));
        },
        Some(message) => message,
    };
    let mut content = decode_thinking(message);
    let mut text = match decode_text(message, structured_output_schema) {
        Err(error) => {
            return Err(error);
        },
        Ok(text) => text,
    };
    let mut calls = match decode_tool_calls(message) {
        Err(error) => {
            return Err(error);
        },
        Ok(calls) => calls,
    };
    let ghost first = views(content@);
    let ghost second = views(text@);
    let ghost third = views(calls@);
    content.append(&mut text);
    assert(views(content@) =~= first + second);
    content.append(&mut calls);
    assert(views(content@) =~= first + second + third);
    proof {
        let schema = view_option(structured_output_schema);
        let thinking = thinking_pieces(message@);
        let texts = text_pieces(message@, schema)->Ok_0;
        let tools = tool_pieces(message@)->Ok_0;
        lemma_hold_concat(first, thinking, second, texts);
        lemma_hold_concat(first + second, thinking + texts, third, tools);
    }
    let reason = match decode_finish_reason(choice.get("finish_reason")) {
        Err(error) => {
            return Err(error);
        },
        Ok(reason) => reason,
    };
    let mut result = ChatResponse::finished(content, reason);
    if let Some(id) = text_field(object, "id") {
        result.id = id.to_owned();
    }
    if let Some(usage) = object.get("usage") {
        match decode_usage(usage) {
            Err(error) => {
                return Err(error);
            },
            Ok(usage) => {
                result.usage = Some(usage);
            },
        }
    }
    result.metadata = response_metadata(object);
    Ok(result)
}

/// The first of the choices, if it is an object.
pub(crate) fn find_choice<'a>(value: Option<&'a Json>) -> (choice: Option<&'a JsonMap>)
    ensures
        match choice {
            Some(found) => first_choice(view_option(value)) == Some(found@),
            None => first_choice(view_option(value)) is None,
        },
{
    let items = match value {
        Some(value) => value.as_array(),
        None => None,
    };
    match items {
        Some(items) => {
            if items.len() > 0 {
                items[0].as_object()
            } else {
                None
            }
        },
        None => None,
    }
}

pub(crate) proof fn lemma_no_first_key(names: Seq<Seq<char>>, map: Map<Seq<char>, JsonView>)
    requires
        first_key(names, map) is None,
    ensures
        forall|i: int| 0 <= i < names.len() ==> !map.contains_key(#[trigger] names[i]),
    decreases names.len(),
{
    if names.len() > 0 {
        lemma_no_first_key(names.drop_last(), map);
        assert forall|i: int| 0 <= i < names.len() implies !map.contains_key(
            #[trigger] names[i],
        ) by {
            if i < names.len() - 1 {
                assert(names.drop_last()[i] == names[i]);
            }
        }
    }
}

/// Provider options never replace a standard field of a request: an encoded request
/// holds every standard field as the request says, and every provider option
/// beside them.
pub proof fn provider_options_replace_nothing(model: Seq<char>, request: RequestView, stream: bool)
    ensures
        request_body(model, request, stream) matches Ok(body) ==> {
            let messages = messages_wire(request.messages);
            &&& messages is Ok
            &&& forall|key: Seq<char>| #[trigger]
                standard_body(model, request, messages->Ok_0, stream).contains_key(key)
                    ==> crate::json::field(body, key) == Some(
                    standard_body(model, request, messages->Ok_0, stream)[key],
                )
            &&& forall|key: Seq<char>| #[trigger]
                request.options.extra.contains_key(key) ==> crate::json::field(body, key) == Some(
                    request.options.extra[key],
                )
        },
{
    if let Ok(body) = request_body(model, request, stream) {
        let messages = messages_wire(request.messages)->Ok_0;
        let standard = standard_body(model, request, messages, stream);
        let names = reserved_fields();
        lemma_no_first_key(names, request.options.extra);
        assert forall|key: Seq<char>| #[trigger] standard.contains_key(key) implies crate::json::field(body, key)
            == Some(standard[key]) by {
            assert(names[0] == "max_tokens"@);
            assert(names[1] == "messages"@);
            assert(names[2] == "model"@);
            assert(names[3] == "response_format"@);
            assert(names[4] == "seed"@);
            assert(names[5] == "stop"@);
            assert(names[6] == "stream"@);
            assert(names[7] == "temperature"@);
            assert(names[8] == "tools"@);
            assert(names[9] == "top_p"@);
            assert(!request.options.extra.contains_key(key));
        }
    }
}

} // verus!
