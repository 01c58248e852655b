//! What requests carry to a provider and what its responses carry back, field by
//! field.
use vstd::prelude::*;

use super::super::event::ModelErrorView;
use super::super::request::{RequestView, ToolView};
use super::super::response::{FinishReason, ResponseView};
use super::wire::{
    block_error, call_pieces, call_wire, decoded_response, first_key, is_decoded,
    lemma_no_first_key, message_pieces, message_wire, messages_wire, output_texts, provider_reason,
    provider_usage, request_body, reserved_fields, result_wire, standard_body, text_pieces,
    thinking_pieces, tool_pieces, tool_wire, turn_wire, wire_parts, DecodedView, PieceView,
};
use crate::json::{json_text, parsed_json, JsonView};
use crate::message::content::{calls_among, results_among, texts_among, BlockView};
use crate::message::msg::MsgView;
use crate::message::role::Role;
use crate::message::tool_call::ToolCallView;
use crate::message::tool_result::{OutputView, ResultContentView, ToolResultView};
use crate::text::joined;

verus! {

/// Whether a block holds data, itself or in its tool output.
pub open spec fn carries_data(block: BlockView) -> bool {
    match block {
        BlockView::Data(_) => true,
        BlockView::ToolResult(result) => match result.output {
            OutputView::Text(_) => false,
            OutputView::Blocks(blocks) => exists|i: int|
                0 <= i < blocks.len() && #[trigger] blocks[i] is Data,
        },
        _ => false,
    }
}

/// Whether a wire message has exactly some keys.
pub open spec fn has_keys(json: JsonView, keys: Set<Seq<char>>) -> bool {
    json matches JsonView::Object(fields) && fields.dom() == keys
}

/// The value at a key of a wire message.
pub open spec fn at(json: JsonView, key: Seq<char>) -> JsonView {
    json->Object_0[key]
}

/// The output of a tool as the text that is sent: the text itself, or its text blocks
/// with line ends between them.
pub open spec fn sent_output(output: OutputView) -> Seq<char> {
    match output {
        OutputView::Text(text) => text,
        OutputView::Blocks(blocks) => joined(
            blocks.map_values(|block: ResultContentView| block->Text_0.text),
            "\n"@,
        ),
    }
}

/// Whether a wire message answers a tool call with a result.
pub open spec fn answers_with(json: JsonView, result: ToolResultView) -> bool {
    &&& has_keys(json, set!["role"@, "tool_call_id"@, "content"@])
    &&& at(json, "role"@) == JsonView::Text("tool"@)
    &&& at(json, "tool_call_id"@) == JsonView::Text(result.id)
    &&& at(json, "content"@) == JsonView::Text(sent_output(result.output))
}

/// Whether an entry of a wire message asks for a tool call.
pub open spec fn asks_for(json: JsonView, call: ToolCallView) -> bool {
    &&& has_keys(json, set!["id"@, "type"@, "function"@])
    &&& at(json, "id"@) == JsonView::Text(call.id)
    &&& at(json, "type"@) == JsonView::Text("function"@)
    &&& has_keys(at(json, "function"@), set!["name"@, "arguments"@])
    &&& at(at(json, "function"@), "name"@) == JsonView::Text(call.name)
    &&& at(at(json, "function"@), "arguments"@) == JsonView::Text(call.input)
}

proof fn lemma_names()
    ensures
        "role"@ != "tool_call_id"@,
        "role"@ != "content"@,
        "role"@ != "tool_calls"@,
        "tool_call_id"@ != "content"@,
        "content"@ != "tool_calls"@,
        "id"@ != "type"@,
        "id"@ != "function"@,
        "type"@ != "function"@,
        "name"@ != "arguments"@,
        "name"@ != "description"@,
        "name"@ != "parameters"@,
        "description"@ != "parameters"@,
        "type"@ != "json_schema"@,
        "name"@ != "strict"@,
        "name"@ != "schema"@,
        "strict"@ != "schema"@,
{
    reveal_strlit("role");
    reveal_strlit("tool_call_id");
    reveal_strlit("content");
    reveal_strlit("tool_calls");
    reveal_strlit("id");
    reveal_strlit("type");
    reveal_strlit("function");
    reveal_strlit("name");
    reveal_strlit("arguments");
    reveal_strlit("description");
    reveal_strlit("parameters");
    reveal_strlit("json_schema");
    reveal_strlit("strict");
    reveal_strlit("schema");
    assert("role"@.len() == 4 && "tool_call_id"@.len() == 12 && "content"@.len() == 7
        && "tool_calls"@.len() == 10 && "id"@.len() == 2 && "type"@.len() == 4 && "function"@.len()
        == 8 && "name"@.len() == 4 && "arguments"@.len() == 9 && "description"@.len() == 11
        && "parameters"@.len() == 10 && "json_schema"@.len() == 11 && "strict"@.len() == 6
        && "schema"@.len() == 6 && "strict"@[1] == 't' && "schema"@[1] == 'c');
}

proof fn lemma_output_texts(blocks: Seq<ResultContentView>)
    requires
        forall|i: int| 0 <= i < blocks.len() ==> !(#[trigger] blocks[i] is Data),
    ensures
        output_texts(blocks) == blocks.map_values(|block: ResultContentView| block->Text_0.text),
    decreases blocks.len(),
{
    if blocks.len() > 0 {
        let rest = blocks.drop_last();
        assert forall|i: int| 0 <= i < rest.len() implies !(#[trigger] rest[i] is Data) by {
            assert(rest[i] == blocks[i]);
        }
        lemma_output_texts(rest);
        assert(!(blocks[blocks.len() - 1] is Data));
    }
    assert(output_texts(blocks) =~= blocks.map_values(
        |block: ResultContentView| block->Text_0.text,
    ));
}

proof fn lemma_result_wire(result: ToolResultView)
    requires
        !carries_data(BlockView::ToolResult(result)),
    ensures
        answers_with(result_wire(result.id, result.output), result),
{
    lemma_names();
    if let OutputView::Blocks(blocks) = result.output {
        lemma_output_texts(blocks);
    }
    let json = result_wire(result.id, result.output);
    assert(json->Object_0.dom() =~= set!["role"@, "tool_call_id"@, "content"@]);
}

proof fn lemma_call_wire(call: ToolCallView)
    ensures
        asks_for(call_wire(call), call),
{
    lemma_names();
    let json = call_wire(call);
    assert(json->Object_0.dom() =~= set!["id"@, "type"@, "function"@]);
    assert(at(json, "function"@)->Object_0.dom() =~= set!["name"@, "arguments"@]);
}

proof fn lemma_parts(blocks: Seq<BlockView>)
    ensures
        wire_parts(blocks) is Ok <==> forall|i: int|
            0 <= i < blocks.len() ==> !carries_data(#[trigger] blocks[i]),
        wire_parts(blocks) matches Ok(parts) ==> {
            &&& parts.texts == texts_among(blocks)
            &&& parts.calls.len() == calls_among(blocks).len()
            &&& forall|i: int|
                0 <= i < parts.calls.len() ==> asks_for(
                    #[trigger] parts.calls[i],
                    calls_among(blocks)[i],
                )
            &&& parts.results.len() == results_among(blocks).len()
            &&& forall|i: int|
                0 <= i < parts.results.len() ==> answers_with(
                    #[trigger] parts.results[i],
                    results_among(blocks)[i],
                )
        },
    decreases blocks.len(),
{
    if blocks.len() > 0 {
        let rest = blocks.drop_last();
        let last = blocks.last();
        lemma_parts(rest);
        assert(blocks[blocks.len() - 1] == last);
        assert forall|i: int| 0 <= i < rest.len() implies rest[i] == #[trigger] blocks[i] by {}
        assert(block_error(last) is None <==> !carries_data(last));
        if wire_parts(rest) is Ok {
            assert forall|i: int| 0 <= i < rest.len() implies !carries_data(
                #[trigger] blocks[i],
            ) by {
                assert(!carries_data(rest[i]));
            }
        } else {
            let i = choose|i: int| 0 <= i < rest.len() && carries_data(#[trigger] rest[i]);
            assert(carries_data(blocks[i]));
        }
        match last {
            BlockView::ToolCall(call) => lemma_call_wire(call),
            BlockView::ToolResult(result) => {
                if !carries_data(last) {
                    lemma_result_wire(result);
                }
            },
            _ => {},
        }
    }
}

/// A message can be sent exactly where it holds no data, and asks for tool calls only
/// in the assistant's name.
pub proof fn messages_without_data_are_sent(msg: MsgView)
    ensures
        message_wire(msg) is Ok <==> (forall|i: int|
            0 <= i < msg.content.len() ==> !carries_data(#[trigger] msg.content[i])) && (
        calls_among(msg.content).len() > 0 ==> msg.role == Role::Assistant),
{
    lemma_parts(msg.content);
}

/// The tool results of a message come last in its wire form, each as a message of its
/// own and in order, under the identifier of the call that it answers and with its
/// output.
pub proof fn sent_results_answer_their_calls(msg: MsgView)
    requires
        message_wire(msg) is Ok,
    ensures
        ({
            let wire = message_wire(msg)->Ok_0;
            let results = results_among(msg.content);
            &&& wire.len() >= results.len()
            &&& forall|i: int|
                0 <= i < results.len() ==> answers_with(
                    wire[wire.len() - results.len() + i],
                    #[trigger] results[i],
                )
        }),
{
    lemma_parts(msg.content);
    let wire = message_wire(msg)->Ok_0;
    let parts = wire_parts(msg.content)->Ok_0;
    let results = results_among(msg.content);
    assert forall|i: int| 0 <= i < results.len() implies answers_with(
        wire[wire.len() - results.len() + i],
        #[trigger] results[i],
    ) by {
        assert(wire[wire.len() - results.len() + i] == parts.results[i]);
    }
}

/// What a message says and asks for comes first in its wire form, in one message under
/// its role: the texts with line ends between them, and the tool calls in order. Where
/// it says and asks for nothing, only its results are sent. Reasoning is never sent.
pub proof fn sent_turns_hold_texts_and_calls(msg: MsgView)
    requires
        message_wire(msg) is Ok,
    ensures
        ({
            let wire = message_wire(msg)->Ok_0;
            let texts = texts_among(msg.content);
            let calls = calls_among(msg.content);
            let results = results_among(msg.content).len();
            if texts.len() == 0 && calls.len() == 0 {
                wire.len() == results
            } else {
                &&& wire.len() == results + 1
                &&& has_keys(
                    wire[0],
                    if calls.len() == 0 {
                        set!["role"@, "content"@]
                    } else {
                        set!["role"@, "content"@, "tool_calls"@]
                    },
                )
                &&& at(wire[0], "role"@) == JsonView::Text(
                    match msg.role {
                        Role::System => "system"@,
                        Role::User => "user"@,
                        Role::Assistant => "assistant"@,
                    },
                )
                &&& at(wire[0], "content"@) == if texts.len() == 0 {
                    JsonView::Null
                } else {
                    JsonView::Text(joined(texts, "\n"@))
                }
                &&& calls.len() > 0 ==> (at(wire[0], "tool_calls"@) matches JsonView::Array(items)
                    && items.len() == calls.len() && forall|i: int|
                    0 <= i < calls.len() ==> asks_for(items[i], #[trigger] calls[i]))
            }
        }),
{
    lemma_parts(msg.content);
    lemma_names();
    let parts = wire_parts(msg.content)->Ok_0;
    let turn = turn_wire(msg.role, parts);
    if parts.texts.len() > 0 || parts.calls.len() > 0 {
        assert(turn->Object_0.dom() =~= if parts.calls.len() == 0 {
            set!["role"@, "content"@]
        } else {
            set!["role"@, "content"@, "tool_calls"@]
        });
        let calls = calls_among(msg.content);
        assert forall|i: int| 0 <= i < calls.len() implies asks_for(
            parts.calls[i],
            #[trigger] calls[i],
        ) by {}
    }
}

/// A conversation is sent message by message and in order: what a longer one sends is
/// what its parts send, and the first message that cannot be sent stops it.
pub proof fn conversations_are_sent_in_order(first: Seq<MsgView>, second: Seq<MsgView>)
    ensures
        messages_wire(first + second) == match (messages_wire(first), messages_wire(second)) {
            (Ok(wire), Ok(more)) => Ok::<_, ModelErrorView>(wire + more),
            (Err(error), _) => Err(error),
            (Ok(_), Err(error)) => Err(error),
        },
        first.len() == 0 ==> messages_wire(first) == Ok::<Seq<JsonView>, ModelErrorView>(
            Seq::empty(),
        ),
        first.len() == 1 ==> messages_wire(first) == message_wire(first[0]),
    decreases second.len(),
{
    if first.len() == 1 {
        assert(first.drop_last() =~= Seq::empty());
        assert(messages_wire(first.drop_last()) == Ok::<Seq<JsonView>, ModelErrorView>(
            Seq::empty(),
        ));
        if let Ok(wire) = message_wire(first[0]) {
            assert(Seq::<JsonView>::empty() + wire =~= wire);
        }
    }
    if second.len() == 0 {
        assert(first + second =~= first);
        if let Ok(wire) = messages_wire(first) {
            assert(wire + Seq::<JsonView>::empty() =~= wire);
        }
    } else {
        conversations_are_sent_in_order(first, second.drop_last());
        assert((first + second).drop_last() =~= first + second.drop_last());
        if let (Ok(wire), Ok(more), Ok(last)) = (
            messages_wire(first),
            messages_wire(second.drop_last()),
            message_wire(second.last()),
        ) {
            assert(wire + more + last =~= wire + (more + last));
        }
    }
}

/// Where the wire form of one message of a conversation begins.
proof fn lemma_sent_within(msgs: Seq<MsgView>, index: int) -> (start: int)
    requires
        messages_wire(msgs) is Ok,
        0 <= index < msgs.len(),
    ensures
        message_wire(msgs[index]) is Ok,
        0 <= start,
        start + message_wire(msgs[index])->Ok_0.len() <= messages_wire(msgs)->Ok_0.len(),
        forall|i: int|
            0 <= i < message_wire(msgs[index])->Ok_0.len() ==> #[trigger] message_wire(
                msgs[index],
            )->Ok_0[i] == messages_wire(msgs)->Ok_0[start + i],
{
    let before = msgs.take(index);
    let rest = msgs.skip(index);
    let one = rest.take(1);
    let after = rest.skip(1);
    assert(before + rest =~= msgs);
    assert(one + after =~= rest);
    assert(one[0] == msgs[index]);
    conversations_are_sent_in_order(before, rest);
    conversations_are_sent_in_order(one, after);
    messages_wire(before)->Ok_0.len() as int
}

/// Every tool call of a conversation is sent, and every result too, under identifiers
/// that are the same where those of the call and the result are.
pub proof fn results_name_the_calls_that_were_sent(
    msgs: Seq<MsgView>,
    asking: int,
    call: int,
    answering: int,
    result: int,
) -> (places: (int, int))
    requires
        messages_wire(msgs) is Ok,
        0 <= asking < msgs.len(),
        0 <= call < calls_among(msgs[asking].content).len(),
        0 <= answering < msgs.len(),
        0 <= result < results_among(msgs[answering].content).len(),
        calls_among(msgs[asking].content)[call].id == results_among(
            msgs[answering].content,
        )[result].id,
    ensures
        ({
            let wire = messages_wire(msgs)->Ok_0;
            let (p, q) = places;
            &&& 0 <= p < wire.len() && 0 <= q < wire.len()
            &&& at(wire[p], "tool_calls"@) matches JsonView::Array(items) && 0 <= call
                < items.len() && at(wire[q], "role"@) == JsonView::Text("tool"@) && at(
                wire[q],
                "tool_call_id"@,
            ) == at(items[call], "id"@)
        }),
{
    let p = lemma_sent_within(msgs, asking);
    let start = lemma_sent_within(msgs, answering);
    sent_turns_hold_texts_and_calls(msgs[asking]);
    sent_results_answer_their_calls(msgs[answering]);
    let asked = message_wire(msgs[asking])->Ok_0;
    let answered = message_wire(msgs[answering])->Ok_0;
    let calls = calls_among(msgs[asking].content);
    let results = results_among(msgs[answering].content);
    let at_end = answered.len() - results.len() + result;
    assert(asked[0] == messages_wire(msgs)->Ok_0[p]);
    assert(asks_for(at(asked[0], "tool_calls"@)->Array_0[call], calls[call]));
    assert(answers_with(answered[at_end], results[result]));
    assert(answered[at_end] == messages_wire(msgs)->Ok_0[start + at_end]);
    (p, start + at_end)
}

/// The value of an optional field of a body.
pub open spec fn field_at(body: JsonView, key: Seq<char>) -> Option<JsonView> {
    if body->Object_0.contains_key(key) {
        Some(body->Object_0[key])
    } else {
        None
    }
}

/// Whether an entry of a body offers a tool.
pub open spec fn offers(json: JsonView, tool: ToolView) -> bool {
    &&& has_keys(json, set!["type"@, "function"@])
    &&& at(json, "type"@) == JsonView::Text("function"@)
    &&& has_keys(at(json, "function"@), set!["name"@, "description"@, "parameters"@])
    &&& at(at(json, "function"@), "name"@) == JsonView::Text(tool.name)
    &&& at(at(json, "function"@), "description"@) == JsonView::Text(tool.description)
    &&& at(at(json, "function"@), "parameters"@) == tool.input_schema
}

/// Whether a name is one of a standard field of a request.
pub open spec fn is_standard(key: Seq<char>) -> bool {
    ||| key == "model"@
    ||| key == "stream"@
    ||| key == "messages"@
    ||| key == "temperature"@
    ||| key == "max_tokens"@
    ||| key == "top_p"@
    ||| key == "seed"@
    ||| key == "stop"@
    ||| key == "tools"@
    ||| key == "response_format"@
}

proof fn lemma_standard_names()
    ensures
        "model"@.len() == 5,
        "stream"@.len() == 6,
        "messages"@.len() == 8,
        "temperature"@.len() == 11,
        "max_tokens"@.len() == 10,
        "top_p"@.len() == 5 && "top_p"@[0] == 't' && "model"@[0] == 'm',
        "seed"@.len() == 4 && "stop"@.len() == 4 && "seed"@[1] == 'e' && "stop"@[1] == 't',
        "tools"@.len() == 5 && "tools"@[0] == 't' && "tools"@[2] == 'o' && "top_p"@[2] == 'p',
        "response_format"@.len() == 15,
{
    reveal_strlit("model");
    reveal_strlit("stream");
    reveal_strlit("messages");
    reveal_strlit("temperature");
    reveal_strlit("max_tokens");
    reveal_strlit("top_p");
    reveal_strlit("seed");
    reveal_strlit("stop");
    reveal_strlit("tools");
    reveal_strlit("response_format");
}

proof fn lemma_reserved()
    ensures
        forall|i: int| 0 <= i < reserved_fields().len() ==> is_standard(#[trigger] reserved_fields()[i]),
        forall|key: Seq<char>| #[trigger] is_standard(key) ==> exists|i: int|
            0 <= i < reserved_fields().len() && #[trigger] reserved_fields()[i] == key,
{
    let names = reserved_fields();
    assert(names[0] == "max_tokens"@ && names[1] == "messages"@ && names[2] == "model"@ && names[3]
        == "response_format"@ && names[4] == "seed"@ && names[5] == "stop"@ && names[6]
        == "stream"@ && names[7] == "temperature"@ && names[8] == "tools"@ && names[9]
        == "top_p"@ && names.len() == 10);
}

proof fn lemma_some_first_key(names: Seq<Seq<char>>, map: Map<Seq<char>, JsonView>)
    ensures
        first_key(names, map) matches Some(key) ==> map.contains_key(key) && exists|i: int|
            0 <= i < names.len() && #[trigger] names[i] == key,
    decreases names.len(),
{
    if names.len() > 0 {
        lemma_some_first_key(names.drop_last(), map);
        if let Some(key) = first_key(names.drop_last(), map) {
            let i = choose|i: int|
                0 <= i < names.drop_last().len() && #[trigger] names.drop_last()[i] == key;
            assert(names[i] == key);
        } else {
            assert(names[names.len() - 1] == names.last());
        }
    }
}

/// A request is refused exactly where a message cannot be sent or a provider option
/// has the name of a standard field.
pub proof fn requests_are_refused_for_messages_and_options(
    model: Seq<char>,
    request: RequestView,
    stream: bool,
)
    ensures
        request_body(model, request, stream) is Ok <==> messages_wire(request.messages) is Ok && (
        forall|key: Seq<char>| #[trigger]
            request.options.extra.contains_key(key) ==> !is_standard(key)),
        messages_wire(request.messages) matches Err(error) ==> request_body(
            model,
            request,
            stream,
        ) == Err::<JsonView, ModelErrorView>(error),
{
    lemma_reserved();
    lemma_some_first_key(reserved_fields(), request.options.extra);
    if first_key(reserved_fields(), request.options.extra) is None {
        lemma_no_first_key(reserved_fields(), request.options.extra);
        assert forall|key: Seq<char>| #[trigger]
            request.options.extra.contains_key(key) implies !is_standard(key) by {
            if is_standard(key) {
                let i = choose|i: int|
                    0 <= i < reserved_fields().len() && #[trigger] reserved_fields()[i] == key;
                assert(!request.options.extra.contains_key(reserved_fields()[i]));
            }
        }
    }
}

/// A body says what its request says, each thing in its own field, and nothing of what
/// the request leaves open; beside these it holds the provider options alone.
pub proof fn bodies_say_what_requests_say(model: Seq<char>, request: RequestView, stream: bool)
    requires
        request_body(model, request, stream) is Ok,
    ensures
        ({
            let body = request_body(model, request, stream)->Ok_0;
            let options = request.options;
            &&& body is Object
            &&& field_at(body, "model"@) == Some(JsonView::Text(model))
            &&& field_at(body, "stream"@) == Some(JsonView::Bool(stream))
            &&& field_at(body, "messages"@) == Some(
                JsonView::Array(messages_wire(request.messages)->Ok_0),
            )
            &&& field_at(body, "temperature"@) == options.temperature
            &&& field_at(body, "top_p"@) == options.top_p
            &&& match options.max_tokens {
                Some(limit) => field_at(body, "max_tokens"@) == Some(
                    JsonView::Unsigned(limit as u64),
                ),
                None => field_at(body, "max_tokens"@) is None,
            }
            &&& match options.seed {
                Some(seed) => field_at(body, "seed"@) == Some(JsonView::Unsigned(seed)),
                None => field_at(body, "seed"@) is None,
            }
            &&& options.stop.len() == 0 ==> field_at(body, "stop"@) is None
            &&& options.stop.len() > 0 ==> (field_at(body, "stop"@) matches Some(
                JsonView::Array(items),
            ) && items.len() == options.stop.len() && forall|i: int|
                0 <= i < items.len() ==> items[i] == JsonView::Text(#[trigger] options.stop[i]))
            &&& request.tools.len() == 0 ==> field_at(body, "tools"@) is None
            &&& request.tools.len() > 0 ==> (field_at(body, "tools"@) matches Some(
                JsonView::Array(items),
            ) && items.len() == request.tools.len() && forall|i: int|
                0 <= i < items.len() ==> offers(items[i], #[trigger] request.tools[i]))
            &&& match request.structured_output_schema {
                None => field_at(body, "response_format"@) is None,
                Some(schema) => field_at(body, "response_format"@) matches Some(format)
                    && has_keys(format, set!["type"@, "json_schema"@]) && at(format, "type"@)
                    == JsonView::Text("json_schema"@) && has_keys(
                    at(format, "json_schema"@),
                    set!["name"@, "strict"@, "schema"@],
                ) && at(at(format, "json_schema"@), "schema"@) == schema && at(
                    at(format, "json_schema"@),
                    "strict"@,
                ) == JsonView::Bool(true) && at(at(format, "json_schema"@), "name"@)
                    == JsonView::Text("structured_output"@),
            }
            &&& forall|key: Seq<char>|
                !is_standard(key) ==> #[trigger] field_at(body, key)
                    == if options.extra.contains_key(key) {
                    Some(options.extra[key])
                } else {
                    None
                }
        }),
{
    requests_are_refused_for_messages_and_options(model, request, stream);
    lemma_names();
    lemma_standard_names();
    let body = request_body(model, request, stream)->Ok_0;
    let options = request.options;
    let extra = options.extra;
    let messages = messages_wire(request.messages)->Ok_0;
    let standard = standard_body(model, request, messages, stream);
    assert(is_standard("model"@) && is_standard("stream"@) && is_standard("messages"@)
        && is_standard("temperature"@) && is_standard("max_tokens"@) && is_standard("top_p"@)
        && is_standard("seed"@) && is_standard("stop"@) && is_standard("tools"@) && is_standard(
        "response_format"@,
    ));
    assert(body == JsonView::Object(standard.union_prefer_right(extra)));
    if request.tools.len() > 0 {
        let items = request.tools.map_values(|tool: ToolView| tool_wire(tool));
        assert(standard["tools"@] == JsonView::Array(items));
        assert forall|i: int| 0 <= i < items.len() implies offers(
            items[i],
            #[trigger] request.tools[i],
        ) by {
            let json = tool_wire(request.tools[i]);
            assert(json->Object_0.dom() =~= set!["type"@, "function"@]);
            assert(at(json, "function"@)->Object_0.dom() =~= set![
                "name"@,
                "description"@,
                "parameters"@,
            ]);
        }
    }
    if options.stop.len() > 0 {
        let items = options.stop.map_values(|text: Seq<char>| JsonView::Text(text));
        assert(standard["stop"@] == JsonView::Array(items));
    }
    if let Some(schema) = request.structured_output_schema {
        let format = super::wire::schema_wire(schema);
        assert(format->Object_0.dom() =~= set!["type"@, "json_schema"@]);
        assert(at(format, "json_schema"@)->Object_0.dom() =~= set!["name"@, "strict"@, "schema"@]);
    }
    assert forall|key: Seq<char>| !is_standard(key) implies #[trigger] field_at(body, key)
        == if extra.contains_key(key) {
        Some(extra[key])
    } else {
        None
    } by {
        assert(!standard.contains_key(key));
    }
}

/// The text at a key of an object, empty where there is none.
pub open spec fn text_in(object: Map<Seq<char>, JsonView>, key: Seq<char>) -> Seq<char> {
    if object.contains_key(key) && object[key] is Text {
        object[key]->Text_0
    } else {
        Seq::empty()
    }
}

/// The items at a key of an object, none where it has no array.
pub open spec fn items_in(object: Map<Seq<char>, JsonView>, key: Seq<char>) -> Seq<JsonView> {
    if object.contains_key(key) && object[key] is Array {
        object[key]->Array_0
    } else {
        Seq::empty()
    }
}

/// The number at a key of an object.
pub open spec fn number_in(object: Map<Seq<char>, JsonView>, key: Seq<char>) -> Option<u64> {
    if object.contains_key(key) && object[key] is Unsigned {
        Some(object[key]->Unsigned_0)
    } else {
        None
    }
}

/// The object at a key of an object, empty where there is none.
pub open spec fn object_in(object: Map<Seq<char>, JsonView>, key: Seq<char>) -> Map<
    Seq<char>,
    JsonView,
> {
    if object.contains_key(key) && object[key] is Object {
        object[key]->Object_0
    } else {
        Map::empty()
    }
}

/// Whether an object is a response with a message as its first choice.
pub open spec fn answers_by(
    object: Map<Seq<char>, JsonView>,
    choice: Map<Seq<char>, JsonView>,
    message: Map<Seq<char>, JsonView>,
) -> bool {
    &&& items_in(object, "choices"@).len() > 0
    &&& items_in(object, "choices"@)[0] == JsonView::Object(choice)
    &&& choice.contains_key("message"@)
    &&& choice["message"@] == JsonView::Object(message)
}

/// Each of a provider's reasons is read as the one it means, and no other text is.
pub proof fn finish_reasons_are_read_by_name(text: Seq<char>)
    ensures
        provider_reason(Some(JsonView::Text("stop"@))) == Ok::<_, ModelErrorView>(
            FinishReason::Completed,
        ),
        provider_reason(Some(JsonView::Text("length"@))) == Ok::<_, ModelErrorView>(
            FinishReason::Length,
        ),
        provider_reason(Some(JsonView::Text("tool_calls"@))) == Ok::<_, ModelErrorView>(
            FinishReason::ToolCalls,
        ),
        provider_reason(Some(JsonView::Text("function_call"@))) == Ok::<_, ModelErrorView>(
            FinishReason::ToolCalls,
        ),
        provider_reason(Some(JsonView::Text("content_filter"@))) == Ok::<_, ModelErrorView>(
            FinishReason::ContentFilter,
        ),
        provider_reason(Some(JsonView::Text(text))) matches Ok(reason) ==> match reason {
            FinishReason::Completed => text == "stop"@,
            FinishReason::Length => text == "length"@,
            FinishReason::ToolCalls => text == "tool_calls"@ || text == "function_call"@,
            FinishReason::ContentFilter => text == "content_filter"@,
            FinishReason::Interrupted => false,
        },
        provider_reason(None) is Err,
{
    reveal_strlit("stop");
    reveal_strlit("length");
    reveal_strlit("tool_calls");
    reveal_strlit("function_call");
    reveal_strlit("content_filter");
    assert("stop"@.len() == 4 && "length"@.len() == 6 && "tool_calls"@.len() == 10
        && "function_call"@.len() == 13 && "content_filter"@.len() == 14);
}

/// Every number of a provider's usage is carried to the counter it is for, and none to
/// another.
pub proof fn usage_is_read_by_name(usage: Map<Seq<char>, JsonView>)
    ensures
        provider_usage(JsonView::Object(usage)) matches Ok(read) && {
            let prompt = object_in(usage, "prompt_tokens_details"@);
            let completion = object_in(usage, "completion_tokens_details"@);
            &&& match number_in(usage, "prompt_tokens"@) {
                Some(number) => read.input_tokens == number,
                None => read.input_tokens == 0,
            }
            &&& match number_in(usage, "completion_tokens"@) {
                Some(number) => read.output_tokens == number,
                None => read.output_tokens == 0,
            }
            &&& read.reasoning_tokens == number_in(completion, "reasoning_tokens"@)
            &&& match number_in(prompt, "cached_tokens"@) {
                Some(number) => read.cached_input_tokens == Some(number),
                None => read.cached_input_tokens == number_in(usage, "prompt_cache_hit_tokens"@),
            }
        },
{
}

/// Whether a tool call is the one that an entry of a response asks for.
pub open spec fn is_asked_by(call: ToolCallView, json: JsonView) -> bool {
    json matches JsonView::Object(object) && {
        let function = object_in(object, "function"@);
        &&& object.contains_key("id"@) && object["id"@] == JsonView::Text(call.id)
        &&& function.contains_key("name"@) && function["name"@] == JsonView::Text(call.name)
        &&& function.contains_key("arguments"@) && function["arguments"@] == JsonView::Text(
            call.input,
        )
    }
}

proof fn lemma_call_pieces(items: Seq<JsonView>)
    ensures
        call_pieces(items) matches Ok(pieces) ==> pieces.len() == items.len() && forall|i: int|
            0 <= i < items.len() ==> (#[trigger] pieces[i] matches PieceView::Call(id, name, input)
                && items[i] matches JsonView::Object(object) && {
                let function = object_in(object, "function"@);
                &&& object.contains_key("id"@) && object["id"@] == JsonView::Text(id)
                &&& function.contains_key("name"@) && function["name"@] == JsonView::Text(name)
                &&& function.contains_key("arguments"@) && function["arguments"@]
                    == JsonView::Text(input)
            }),
    decreases items.len(),
{
    if items.len() > 0 {
        lemma_call_pieces(items.drop_last());
    }
}

/// A response is read block by block: its reasoning as a thinking block and never as
/// text, then its content as a text block, or as structured output where a schema was
/// given, then its tool calls in order under their identifiers, and nothing else.
pub proof fn responses_are_read_block_by_block(
    object: Map<Seq<char>, JsonView>,
    choice: Map<Seq<char>, JsonView>,
    message: Map<Seq<char>, JsonView>,
    schema: Option<JsonView>,
    decoded: DecodedView,
    response: ResponseView,
)
    requires
        answers_by(object, choice, message),
        decoded_response(JsonView::Object(object), schema) == Ok::<_, ModelErrorView>(decoded),
        is_decoded(response, decoded),
    ensures
        ({
            let reasoning = text_in(message, "reasoning_content"@);
            let content = text_in(message, "content"@);
            let items = items_in(message, "tool_calls"@);
            let thoughts: int = if reasoning.len() > 0 {
                1
            } else {
                0
            };
            let texts: int = if content.len() > 0 {
                1
            } else {
                0
            };
            &&& response.content.len() == thoughts + texts + items.len()
            &&& reasoning.len() > 0 ==> (response.content[0] matches BlockView::Thinking(block)
                && block.thinking == reasoning)
            &&& content.len() > 0 ==> match schema {
                None => response.content[thoughts] matches BlockView::Text(block) && block.text
                    == content,
                Some(schema) => response.content[thoughts] matches BlockView::StructuredOutput(
                    block,
                ) && block.schema == schema && (parsed_json(content) matches Ok(output)
                    && block.output == json_text(output)),
            }
            &&& forall|i: int|
                0 <= i < items.len() ==> (#[trigger] response.content[thoughts + texts + i] matches
                    BlockView::ToolCall(call) && is_asked_by(call, items[i]))
        }),
{
    let thinking = thinking_pieces(message);
    let text = text_pieces(message, schema)->Ok_0;
    let calls = tool_pieces(message)->Ok_0;
    let items = items_in(message, "tool_calls"@);
    assert(message_pieces(message, schema) == Ok::<_, ModelErrorView>(decoded.pieces));
    assert(decoded.pieces == thinking + text + calls);
    lemma_call_pieces(items);
    assert forall|i: int| 0 <= i < items.len() implies (
    #[trigger] response.content[thinking.len() + text.len() + i] matches BlockView::ToolCall(call)
        && is_asked_by(call, items[i])) by {
        assert(decoded.pieces[thinking.len() + text.len() + i] == calls[i]);
    }
    if thinking.len() > 0 {
        assert(decoded.pieces[0] == thinking[0]);
        assert(super::wire::holds_piece(response.content[0], decoded.pieces[0]));
    }
    if text.len() > 0 {
        assert(decoded.pieces[thinking.len() as int] == text[0]);
        assert(super::wire::holds_piece(
            response.content[thinking.len() as int],
            decoded.pieces[thinking.len() as int],
        ));
    }
}

/// A response is read with the reason, the identifier, the usage and the metadata that
/// the provider gave, and as complete.
pub proof fn responses_are_read_with_what_surrounds_them(
    object: Map<Seq<char>, JsonView>,
    choice: Map<Seq<char>, JsonView>,
    message: Map<Seq<char>, JsonView>,
    schema: Option<JsonView>,
    decoded: DecodedView,
    response: ResponseView,
)
    requires
        answers_by(object, choice, message),
        decoded_response(JsonView::Object(object), schema) == Ok::<_, ModelErrorView>(decoded),
        is_decoded(response, decoded),
    ensures
        response.is_last,
        choice.contains_key("finish_reason"@) && choice["finish_reason"@] is Text,
        ({
            let reason = choice["finish_reason"@]->Text_0;
            &&& reason == "stop"@ <==> response.finish_reason == Some(FinishReason::Completed)
            &&& reason == "length"@ <==> response.finish_reason == Some(FinishReason::Length)
            &&& reason == "tool_calls"@ || reason == "function_call"@ <==> response.finish_reason
                == Some(FinishReason::ToolCalls)
            &&& reason == "content_filter"@ <==> response.finish_reason == Some(
                FinishReason::ContentFilter,
            )
        }),
        object.contains_key("id"@) && object["id"@] is Text ==> response.id
            == object["id"@]->Text_0,
        response.usage is Some <==> object.contains_key("usage"@),
        response.usage matches Some(usage) ==> (object["usage"@] matches JsonView::Object(reported)
            && (match number_in(reported, "prompt_tokens"@) {
            Some(number) => usage.input_tokens == number,
            None => usage.input_tokens == 0,
        }) && (match number_in(reported, "completion_tokens"@) {
            Some(number) => usage.output_tokens == number,
            None => usage.output_tokens == 0,
        })),
        forall|key: Seq<char>| #[trigger]
            response.metadata.contains_key(key) <==> object.contains_key(key) && (key == "model"@
                || key == "created"@ || key == "system_fingerprint"@ || key == "service_tier"@),
        forall|key: Seq<char>| #[trigger]
            response.metadata.contains_key(key) ==> response.metadata[key] == object[key],
{
    let reason = choice["finish_reason"@];
    finish_reasons_are_read_by_name(reason->Text_0);
    if let Some(JsonView::Object(usage)) = field_at(JsonView::Object(object), "usage"@) {
        usage_is_read_by_name(usage);
    }
}

/// A response without a choice, a message or a reason that is known is refused, never
/// read as something else.
pub proof fn incomplete_responses_are_refused(
    object: Map<Seq<char>, JsonView>,
    choice: Map<Seq<char>, JsonView>,
    message: Map<Seq<char>, JsonView>,
    schema: Option<JsonView>,
)
    ensures
        items_in(object, "choices"@).len() == 0 ==> decoded_response(
            JsonView::Object(object),
            schema,
        ) is Err,
        answers_by(object, choice, message) && (!choice.contains_key("finish_reason"@)
            || !(choice["finish_reason"@] is Text) || !(choice["finish_reason"@]->Text_0 == "stop"@
            || choice["finish_reason"@]->Text_0 == "length"@ || choice["finish_reason"@]->Text_0
            == "tool_calls"@ || choice["finish_reason"@]->Text_0 == "function_call"@
            || choice["finish_reason"@]->Text_0 == "content_filter"@)) ==> decoded_response(
            JsonView::Object(object),
            schema,
        ) is Err,
{
}

/// A response of plain text is always read: nothing but its reason can stand against
/// it.
pub proof fn plain_responses_are_read(
    object: Map<Seq<char>, JsonView>,
    choice: Map<Seq<char>, JsonView>,
    message: Map<Seq<char>, JsonView>,
)
    requires
        answers_by(object, choice, message),
        items_in(message, "tool_calls"@).len() == 0,
        choice.contains_key("finish_reason"@),
        choice["finish_reason"@] matches JsonView::Text(reason) && (reason == "stop"@ || reason
            == "length"@ || reason == "tool_calls"@ || reason == "function_call"@ || reason
            == "content_filter"@),
        object.contains_key("usage"@) ==> object["usage"@] is Object,
    ensures
        decoded_response(JsonView::Object(object), None) is Ok,
{
    if let Some(JsonView::Array(items)) = field_at(JsonView::Object(message), "tool_calls"@) {
        assert(items =~= Seq::empty());
        assert(call_pieces(items) is Ok);
    }
}

} // verus!
