//! What new blocks hold, what is appended to them, and what cannot make one.
use vstd::prelude::*;

use super::content::{is_new_text, BlockView, TextView};
use super::data::{
    base64_outcome, decoded_base64, is_new_data, parsed_url, url_outcome, Base64View,
    DataBlockError, DataView, SourceView, UrlView,
};
use super::msg::{is_new_msg, MsgView};
use super::role::Role;
use super::structured_output::{
    finish_error, is_complete_structured, is_new_structured, structured_finished,
    StructuredErrorView, StructuredOutputState, StructuredView,
};
use super::thinking::{first_reserved_field, is_new_thinking, ThinkingView};
use super::tool_call::{
    complete_call_error, is_new_call, ToolCallErrorView, ToolCallState, ToolCallView,
};
use super::tool_result::{
    finished_error, is_new_result, structured_form, text_appended, OutputView, ResultContentView,
    ToolResultError, ToolResultState, ToolResultView,
};
use crate::json::{parsed_json, schema_root, JsonView};
use crate::model::request::{definition_error, ChatRequestError};
use crate::text::blank;

verus! {

/// What the texts of an output say, one after the other.
pub open spec fn said_in(blocks: Seq<ResultContentView>) -> Seq<char>
    decreases blocks.len(),
{
    if blocks.len() == 0 {
        Seq::empty()
    } else {
        said_in(blocks.drop_last()) + match blocks.last() {
            ResultContentView::Text(block) => block.text,
            ResultContentView::Data(_) => Seq::empty(),
        }
    }
}

/// What an output says: its text, or its texts one after the other.
pub open spec fn said_by(output: OutputView) -> Seq<char> {
    match output {
        OutputView::Text(text) => text,
        OutputView::Blocks(blocks) => said_in(blocks),
    }
}

/// Appending a text to an output adds it to what the output says, at the end; the
/// last text grows where it is one, and nothing else changes.
pub proof fn appended_texts_are_said_last(
    output: OutputView,
    before: Seq<ResultContentView>,
    delta: Seq<char>,
    after: Seq<ResultContentView>,
)
    requires
        structured_form(output, before),
        text_appended(before, delta, after),
    ensures
        said_in(after) == said_by(output) + delta,
        after.last() is Text,
        before.len() > 0 && before.last() is Text ==> after.len() == before.len()
            && after.last()->Text_0.id == before.last()->Text_0.id,
        before.len() == 0 || before.last() is Data ==> after.len() == before.len() + 1,
        forall|i: int|
            0 <= i < before.len() && (before[i] is Data || i < before.len() - 1)
                ==> #[trigger] after[i] == before[i],
        output matches OutputView::Blocks(blocks) ==> before == blocks,
        output matches OutputView::Text(text) ==> said_in(before) == text,
{
    if let OutputView::Text(text) = output {
        if text.len() > 0 {
            assert(before.drop_last() =~= Seq::<ResultContentView>::empty());
            assert(said_in(before.drop_last()) =~= Seq::<char>::empty());
        }
        assert(said_in(before) =~= text);
    }
    if before.len() > 0 && before.last() is Text {
        assert(after.drop_last() =~= before.drop_last());
        assert(said_in(after) =~= said_in(before) + delta);
    } else {
        assert forall|i: int| 0 <= i < before.len() implies #[trigger] after[i] == before[i] by {
            assert(after.drop_last()[i] == before[i]);
        }
    }
}

/// A new result answers a call by its identifier and name with an output, and has a
/// time of its end if and only if it is not running.
pub proof fn results_hold_what_they_answer(
    block: ToolResultView,
    id: Seq<char>,
    name: Seq<char>,
    output: OutputView,
    state: ToolResultState,
)
    requires
        is_new_result(block, id, name, output, state),
    ensures
        block.id == id,
        block.name == name,
        block.output == output,
        block.state == state,
        block.finished_at is Some <==> state != ToolResultState::Running,
        block.metadata.dom().is_empty(),
{
}

/// A result is finished if and only if it names its call and tool and its state is
/// final.
pub proof fn finished_results_name_their_call(
    id: Seq<char>,
    name: Seq<char>,
    state: ToolResultState,
)
    ensures
        finished_error(id, name, state) is None <==> !blank(id) && !blank(name) && state
            != ToolResultState::Running,
        blank(id) ==> finished_error(id, name, state) == Some(ToolResultError::EmptyId),
        !blank(id) && blank(name) ==> finished_error(id, name, state) == Some(
            ToolResultError::EmptyName,
        ),
{
}

/// A complete call names itself and its tool, and its input is JSON.
pub proof fn complete_calls_have_input(id: Seq<char>, name: Seq<char>, input: Seq<char>)
    ensures
        complete_call_error(id, name, input) is None <==> !blank(id) && !blank(name)
            && parsed_json(input) is Ok,
        blank(id) ==> complete_call_error(id, name, input) == Some(ToolCallErrorView::EmptyId),
        !blank(id) && blank(name) ==> complete_call_error(id, name, input) == Some(
            ToolCallErrorView::EmptyName,
        ),
        !blank(id) && !blank(name) && parsed_json(input) is Err ==> complete_call_error(
            id,
            name,
            input,
        ) == Some(ToolCallErrorView::InvalidInput(parsed_json(input)->Err_0)),
{
}

/// A new call waits with its name and input, and nothing suggested.
pub proof fn calls_hold_what_they_ask(
    block: ToolCallView,
    id: Seq<char>,
    name: Seq<char>,
    input: Seq<char>,
)
    requires
        is_new_call(block, id, name, input),
    ensures
        block.id == id,
        block.name == name,
        block.input == input,
        block.state == ToolCallState::Pending,
        block.suggested_rules.len() == 0,
        block.finished_at is None,
{
}

/// New texts, thoughts, data and structured outputs hold what they were made of and
/// are not finished.
pub proof fn new_blocks_hold_what_they_were_made_of(
    text: TextView,
    said: Seq<char>,
    thinking: ThinkingView,
    thought: Seq<char>,
    data: DataView,
    source: SourceView,
    structured: StructuredView,
    schema: JsonView,
    output: Seq<char>,
)
    ensures
        is_new_text(text, said) ==> text.text == said && text.finished_at is None,
        is_new_thinking(thinking, thought) ==> thinking.thinking == thought && thinking.finished_at
            is None && thinking.extra.dom().is_empty(),
        is_new_data(data, source) ==> data.source == source && data.name is None
            && data.finished_at is None,
        is_new_structured(structured, schema) ==> structured.schema == schema
            && structured.output.len() == 0 && structured.state == StructuredOutputState::Streaming
            && structured.finished_at is None,
        is_complete_structured(structured, schema, output) ==> structured.schema == schema
            && structured.output == output && structured.state == StructuredOutputState::Complete
            && structured.finished_at is Some,
{
}

/// Finishing a structured output changes its state and time alone; an output is
/// finished once, and only where it is JSON.
pub proof fn structured_outputs_are_finished_once(before: StructuredView, after: StructuredView)
    ensures
        structured_finished(before, after) ==> after.schema == before.schema && after.output
            == before.output && after.id == before.id && after.created_at == before.created_at
            && after.state == StructuredOutputState::Complete && after.finished_at is Some,
        finish_error(before) is None <==> before.state == StructuredOutputState::Streaming
            && parsed_json(before.output) is Ok,
        before.state == StructuredOutputState::Complete ==> finish_error(before) == Some(
            StructuredErrorView::AlreadyComplete,
        ),
        before.state == StructuredOutputState::Streaming && parsed_json(before.output) is Err
            ==> finish_error(before) == Some(
            StructuredErrorView::InvalidOutput(parsed_json(before.output)->Err_0),
        ),
{
}

/// A field of a thought that belongs to every thought cannot be one of its own.
pub proof fn reserved_fields_stay_reserved(extra: Map<Seq<char>, JsonView>)
    ensures
        first_reserved_field(extra) is Some <==> {
            ||| extra.contains_key("type"@)
            ||| extra.contains_key("thinking"@)
            ||| extra.contains_key("id"@)
            ||| extra.contains_key("created_at"@)
            ||| extra.contains_key("finished_at"@)
        },
        first_reserved_field(extra) matches Some(key) ==> extra.contains_key(key),
{
}

/// Data in a message is Base64 of some media type, kept as it was given.
pub proof fn data_is_kept_as_given(
    result: Result<Base64View, DataBlockError>,
    data: Seq<char>,
    media_type: Seq<char>,
)
    requires
        base64_outcome(result, data, media_type),
    ensures
        result is Ok <==> decoded_base64(data) is Ok && !blank(media_type),
        result matches Ok(source) ==> source.data == data && source.media_type == media_type,
        decoded_base64(data) is Ok && blank(media_type) ==> result == Err::<
            Base64View,
            DataBlockError,
        >(DataBlockError::EmptyMediaType),
        decoded_base64(data) is Err ==> (result matches Err(DataBlockError::InvalidBase64(message))
            && message@ == decoded_base64(data)->Err_0),
{
}

/// Data at a URL is kept with the URL as it was read and its media type.
pub proof fn urls_are_kept_as_read(
    result: Result<UrlView, DataBlockError>,
    url: Seq<char>,
    media_type: Seq<char>,
)
    requires
        url_outcome(result, url, media_type),
    ensures
        result is Ok <==> parsed_url(url) is Ok && !blank(media_type),
        result matches Ok(source) ==> source.url == parsed_url(url)->Ok_0 && source.media_type
            == media_type,
        parsed_url(url) is Err ==> (result matches Err(DataBlockError::InvalidUrl(message))
            && message@ == parsed_url(url)->Err_0),
{
}

/// A tool is defined by a name and a schema that is an object or a boolean.
pub proof fn tools_have_a_name_and_a_schema(name: Seq<char>, input_schema: JsonView)
    ensures
        definition_error(name, input_schema) is None <==> !blank(name) && (input_schema is Object
            || input_schema is Bool),
        blank(name) ==> definition_error(name, input_schema) == Some(
            ChatRequestError::EmptyToolName,
        ),
        !blank(name) && !(input_schema is Object) && !(input_schema is Bool) ==> definition_error(
            name,
            input_schema,
        ) == Some(ChatRequestError::InvalidSchema),
        schema_root(input_schema) <==> input_schema is Object || input_schema is Bool,
{
}

/// A new message holds what it was made of, and no metadata or usage.
pub proof fn messages_hold_what_they_were_made_of(
    msg: MsgView,
    name: Seq<char>,
    role: Role,
    content: Seq<BlockView>,
)
    requires
        is_new_msg(msg, name, role, content),
    ensures
        msg.name == name,
        msg.role == role,
        msg.content == content,
        msg.usage is None,
        msg.metadata.dom().is_empty(),
{
}

} // verus!
