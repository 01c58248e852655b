//! The compact JSON text of messages, with the fields in the order in which the
//! types declare them. Messages are stored as this text, and digests are taken of it.
use vstd::prelude::*;

use super::content::{BlockView, ContentBlock, TextBlock, TextView};
use super::data::{DataBlock, DataSource, DataView, SourceView};
use super::encode::encode_text;
use super::msg::{Msg, MsgView};
use super::role::role_text;
use super::structured_output::{structured_state_text, StructuredOutputBlock, StructuredView};
use super::thinking::{ThinkingBlock, ThinkingView};
use super::tool_call::{
    behavior_text, call_state_text, PermissionRule, RuleView, ToolCallBlock, ToolCallView,
};
use super::tool_result::{
    result_state_text, OutputView, ResultContentView, ToolResultBlock, ToolResultContent,
    ToolResultOutput, ToolResultView,
};
use super::usage::Usage;
use super::Metadata;
use crate::json::{json_text, Json, JsonView};
use crate::text::{
    append, decimal, decimal_text, from_chars, join, joined, text_option, texts, to_chars,
};
use crate::view::views;

verus! {

/// A JSON string.
pub open spec fn string_source(text: Seq<char>) -> Seq<char> {
    json_text(JsonView::Text(text))
}

/// A JSON string, or `null`.
pub open spec fn optional_source(text: Option<Seq<char>>) -> Seq<char> {
    match text {
        Some(text) => string_source(text),
        None => "null"@,
    }
}

/// A JSON object.
pub open spec fn object_source(object: Map<Seq<char>, JsonView>) -> Seq<char> {
    json_text(JsonView::Object(object))
}

/// A JSON array of items in their JSON texts.
pub open spec fn array_source(items: Seq<Seq<char>>) -> Seq<char> {
    "["@ + joined(items, ","@) + "]"@
}

/// A text without its first and its last character.
pub open spec fn without_ends(text: Seq<char>) -> Seq<char> {
    if text.len() < 2 {
        Seq::empty()
    } else {
        text.subrange(1, text.len() - 1)
    }
}

/// What follows the type of a text block.
pub open spec fn text_tail(block: TextView) -> Seq<char> {
    ",\"text\":"@ + string_source(block.text) + ",\"id\":"@ + string_source(block.id)
        + ",\"created_at\":"@ + string_source(block.created_at) + ",\"finished_at\":"@
        + optional_source(block.finished_at) + "}"@
}

/// The extensions of a thinking block, behind its standard fields: the entries of
/// their object, without its braces.
pub open spec fn extra_source(extra: Map<Seq<char>, JsonView>) -> Seq<char> {
    if extra == Map::<Seq<char>, JsonView>::empty() {
        Seq::empty()
    } else {
        ","@ + without_ends(object_source(extra))
    }
}

/// What follows the type of a thinking block.
pub open spec fn thinking_tail(block: ThinkingView) -> Seq<char> {
    ",\"thinking\":"@ + string_source(block.thinking) + ",\"id\":"@ + string_source(block.id)
        + ",\"created_at\":"@ + string_source(block.created_at) + ",\"finished_at\":"@
        + optional_source(block.finished_at) + extra_source(block.extra) + "}"@
}

/// The text of a permission rule.
pub open spec fn rule_source(rule: RuleView) -> Seq<char> {
    "{\"tool_name\":"@ + string_source(rule.tool_name) + ",\"rule_content\":"@ + optional_source(
        rule.rule_content,
    ) + ",\"behavior\":"@ + string_source(behavior_text(rule.behavior)) + ",\"source\":"@
        + string_source(rule.source) + "}"@
}

/// The texts of permission rules.
pub open spec fn rules_source(rules: Seq<RuleView>) -> Seq<char> {
    array_source(rules.map_values(|rule: RuleView| rule_source(rule)))
}

/// What follows the type of a tool call.
pub open spec fn call_tail(block: ToolCallView) -> Seq<char> {
    ",\"id\":"@ + string_source(block.id) + ",\"name\":"@ + string_source(block.name)
        + ",\"input\":"@ + string_source(block.input) + ",\"state\":"@ + string_source(
        call_state_text(block.state),
    ) + ",\"suggested_rules\":"@ + rules_source(block.suggested_rules) + ",\"created_at\":"@
        + string_source(block.created_at) + ",\"finished_at\":"@ + optional_source(
        block.finished_at,
    ) + "}"@
}

/// The text of a data source.
pub open spec fn data_source_text(source: SourceView) -> Seq<char> {
    match source {
        SourceView::Base64(source) => "{\"type\":\"base64\",\"data\":"@ + string_source(source.data)
            + ",\"media_type\":"@ + string_source(source.media_type) + "}"@,
        SourceView::Url(source) => "{\"type\":\"url\",\"url\":"@ + string_source(source.url)
            + ",\"media_type\":"@ + string_source(source.media_type) + "}"@,
    }
}

/// What follows the type of a data block.
pub open spec fn data_tail(block: DataView) -> Seq<char> {
    ",\"id\":"@ + string_source(block.id) + ",\"source\":"@ + data_source_text(block.source)
        + ",\"name\":"@ + optional_source(block.name) + ",\"created_at\":"@ + string_source(
        block.created_at,
    ) + ",\"finished_at\":"@ + optional_source(block.finished_at) + "}"@
}

/// The text of a block of tool output.
pub open spec fn result_content_source(content: ResultContentView) -> Seq<char> {
    match content {
        ResultContentView::Text(block) => "{\"type\":\"text\""@ + text_tail(block),
        ResultContentView::Data(block) => "{\"type\":\"data\""@ + data_tail(block),
    }
}

/// The text of tool output.
pub open spec fn output_source(output: OutputView) -> Seq<char> {
    match output {
        OutputView::Text(text) => string_source(text),
        OutputView::Blocks(blocks) => array_source(
            blocks.map_values(|block: ResultContentView| result_content_source(block)),
        ),
    }
}

/// What follows the type of a tool result.
pub open spec fn result_tail(block: ToolResultView) -> Seq<char> {
    ",\"id\":"@ + string_source(block.id) + ",\"name\":"@ + string_source(block.name)
        + ",\"output\":"@ + output_source(block.output) + ",\"state\":"@ + string_source(
        result_state_text(block.state),
    ) + ",\"metadata\":"@ + object_source(block.metadata) + ",\"created_at\":"@ + string_source(
        block.created_at,
    ) + ",\"finished_at\":"@ + optional_source(block.finished_at) + "}"@
}

/// What follows the type of structured output.
pub open spec fn structured_tail(block: StructuredView) -> Seq<char> {
    ",\"schema\":"@ + json_text(block.schema) + ",\"output\":"@ + string_source(block.output)
        + ",\"state\":"@ + string_source(structured_state_text(block.state)) + ",\"id\":"@
        + string_source(block.id) + ",\"created_at\":"@ + string_source(block.created_at)
        + ",\"finished_at\":"@ + optional_source(block.finished_at) + "}"@
}

/// The text of a content block, its type first.
pub open spec fn block_source(block: BlockView) -> Seq<char> {
    match block {
        BlockView::Text(block) => "{\"type\":\"text\""@ + text_tail(block),
        BlockView::Thinking(block) => "{\"type\":\"thinking\""@ + thinking_tail(block),
        BlockView::ToolCall(block) => "{\"type\":\"tool_call\""@ + call_tail(block),
        BlockView::ToolResult(block) => "{\"type\":\"tool_result\""@ + result_tail(block),
        BlockView::StructuredOutput(block) => "{\"type\":\"structured_output\""@
            + structured_tail(block),
        BlockView::Data(block) => "{\"type\":\"data\""@ + data_tail(block),
    }
}

/// The texts of content blocks.
pub open spec fn blocks_source(blocks: Seq<BlockView>) -> Seq<char> {
    array_source(blocks.map_values(|block: BlockView| block_source(block)))
}

/// A detail of usage with its name, where it was reported.
pub open spec fn detail_source(name: Seq<char>, tokens: Option<u64>) -> Seq<char> {
    match tokens {
        Some(tokens) => name + decimal_text(tokens as nat),
        None => Seq::empty(),
    }
}

/// The text of usage: details that were not reported are left out.
pub open spec fn usage_source(usage: Usage) -> Seq<char> {
    "{\"input_tokens\":"@ + decimal_text(usage.input_tokens as nat) + ",\"output_tokens\":"@
        + decimal_text(usage.output_tokens as nat) + detail_source(
        ",\"reasoning_tokens\":"@,
        usage.reasoning_tokens,
    ) + detail_source(",\"cached_input_tokens\":"@, usage.cached_input_tokens) + "}"@
}

/// The usage of a message with its name, where it was reported.
pub open spec fn usage_entry(usage: Option<Usage>) -> Seq<char> {
    match usage {
        Some(usage) => ",\"usage\":"@ + usage_source(usage),
        None => Seq::empty(),
    }
}

/// The text of a message.
pub open spec fn message_source(msg: MsgView) -> Seq<char> {
    "{\"name\":"@ + string_source(msg.name) + ",\"content\":"@ + blocks_source(msg.content)
        + ",\"role\":"@ + string_source(role_text(msg.role)) + ",\"id\":"@ + string_source(msg.id)
        + ",\"metadata\":"@ + object_source(msg.metadata) + usage_entry(msg.usage)
        + ",\"created_at\":"@ + string_source(msg.created_at) + "}"@
}

/// The text of messages.
pub open spec fn messages_source(msgs: Seq<MsgView>) -> Seq<char> {
    array_source(msgs.map_values(|msg: MsgView| message_source(msg)))
}

fn write_string(text: &str) -> (source: String)
    ensures
        source@ == string_source(text@),
{
    encode_text(text).to_text()
}

fn write_optional(text: &Option<String>) -> (source: String)
    ensures
        source@ == optional_source(text_option(*text)),
{
    match text {
        Some(text) => write_string(text.as_str()),
        None => "null".to_owned(),
    }
}

fn write_object(object: &Metadata) -> (source: String)
    ensures
        source@ == object_source(object@),
{
    Json::Object(object.clone()).to_text()
}

fn write_array(items: &Vec<String>) -> (source: String)
    ensures
        source@ == array_source(texts(items@)),
{
    let mut source = "[".to_owned();
    append(&mut source, join(items, ",").as_str());
    append(&mut source, "]");
    source
}

/// Appends a field with a JSON string.
fn put_string(source: &mut String, name: &str, text: &str)
    ensures
        final(source)@ == old(source)@ + name@ + string_source(text@),
{
    append(source, name);
    append(source, write_string(text).as_str());
}

/// Appends a field with a JSON string or `null`.
fn put_optional(source: &mut String, name: &str, text: &Option<String>)
    ensures
        final(source)@ == old(source)@ + name@ + optional_source(text_option(*text)),
{
    append(source, name);
    append(source, write_optional(text).as_str());
}

fn write_text_tail(block: &TextBlock) -> (source: String)
    ensures
        source@ == text_tail(block@),
{
    let mut source = ",\"text\":".to_owned();
    append(&mut source, write_string(block.text.as_str()).as_str());
    put_string(&mut source, ",\"id\":", block.id.as_str());
    put_string(&mut source, ",\"created_at\":", block.created_at.as_str());
    put_optional(&mut source, ",\"finished_at\":", &block.finished_at);
    append(&mut source, "}");
    source
}

fn write_extra(extra: &Metadata) -> (source: String)
    ensures
        source@ == extra_source(extra@),
{
    if extra.is_empty() {
        return String::new();
    }
    let chars = to_chars(write_object(extra).as_str());
    let mut source = ",".to_owned();
    if chars.len() >= 2 {
        append(&mut source, from_chars(&chars, 1, chars.len() - 1).as_str());
    } else {
        assert(source@ =~= ","@ + Seq::<char>::empty());
    }
    source
}

fn write_thinking_tail(block: &ThinkingBlock) -> (source: String)
    ensures
        source@ == thinking_tail(block@),
{
    let mut source = ",\"thinking\":".to_owned();
    append(&mut source, write_string(block.thinking.as_str()).as_str());
    put_string(&mut source, ",\"id\":", block.id.as_str());
    put_string(&mut source, ",\"created_at\":", block.created_at.as_str());
    put_optional(&mut source, ",\"finished_at\":", &block.finished_at);
    append(&mut source, write_extra(block.extra_fields()).as_str());
    append(&mut source, "}");
    source
}

fn write_rule(rule: &PermissionRule) -> (source: String)
    ensures
        source@ == rule_source(rule@),
{
    let mut source = "{\"tool_name\":".to_owned();
    append(&mut source, write_string(rule.tool_name.as_str()).as_str());
    put_optional(&mut source, ",\"rule_content\":", &rule.rule_content);
    put_string(&mut source, ",\"behavior\":", rule.behavior.as_str());
    put_string(&mut source, ",\"source\":", rule.source.as_str());
    append(&mut source, "}");
    source
}

fn write_rules(rules: &Vec<PermissionRule>) -> (source: String)
    ensures
        source@ == rules_source(views(rules@)),
{
    let mut items: Vec<String> = Vec::new();
    let mut i: usize = 0;
    while i < rules.len()
        invariant
            i <= rules@.len(),
            items@.len() == i,
            forall|j: int| 0 <= j < i ==> (#[trigger] items@[j])@ == rule_source(rules@[j]@),
        decreases rules@.len() - i,
    {
        items.push(write_rule(&rules[i]));
        i += 1;
    }
    assert(texts(items@) =~= views(rules@).map_values(|rule: RuleView| rule_source(rule)));
    write_array(&items)
}

fn write_call_tail(block: &ToolCallBlock) -> (source: String)
    ensures
        source@ == call_tail(block@),
{
    let mut source = ",\"id\":".to_owned();
    append(&mut source, write_string(block.id()).as_str());
    put_string(&mut source, ",\"name\":", block.name());
    put_string(&mut source, ",\"input\":", block.input());
    put_string(&mut source, ",\"state\":", block.state.as_str());
    append(&mut source, ",\"suggested_rules\":");
    append(&mut source, write_rules(&block.suggested_rules).as_str());
    put_string(&mut source, ",\"created_at\":", block.created_at.as_str());
    put_optional(&mut source, ",\"finished_at\":", &block.finished_at);
    append(&mut source, "}");
    source
}

fn write_data_source(data: &DataSource) -> (source: String)
    ensures
        source@ == data_source_text(data@),
{
    match data {
        DataSource::Base64(data) => {
            let mut source = "{\"type\":\"base64\",\"data\":".to_owned();
            append(&mut source, write_string(data.data()).as_str());
            put_string(&mut source, ",\"media_type\":", data.media_type());
            append(&mut source, "}");
            source
        },
        DataSource::Url(data) => {
            let mut source = "{\"type\":\"url\",\"url\":".to_owned();
            append(&mut source, write_string(data.url()).as_str());
            put_string(&mut source, ",\"media_type\":", data.media_type());
            append(&mut source, "}");
            source
        },
    }
}

fn write_data_tail(block: &DataBlock) -> (source: String)
    ensures
        source@ == data_tail(block@),
{
    let mut source = ",\"id\":".to_owned();
    append(&mut source, write_string(block.id.as_str()).as_str());
    append(&mut source, ",\"source\":");
    append(&mut source, write_data_source(&block.source).as_str());
    put_optional(&mut source, ",\"name\":", &block.name);
    put_string(&mut source, ",\"created_at\":", block.created_at.as_str());
    put_optional(&mut source, ",\"finished_at\":", &block.finished_at);
    append(&mut source, "}");
    source
}

fn write_result_content(content: &ToolResultContent) -> (source: String)
    ensures
        source@ == result_content_source(content@),
{
    match content {
        ToolResultContent::Text(block) => {
            let mut source = "{\"type\":\"text\"".to_owned();
            append(&mut source, write_text_tail(block).as_str());
            source
        },
        ToolResultContent::Data(block) => {
            let mut source = "{\"type\":\"data\"".to_owned();
            append(&mut source, write_data_tail(block).as_str());
            source
        },
    }
}

fn write_output(output: &ToolResultOutput) -> (source: String)
    ensures
        source@ == output_source(output@),
{
    match output {
        ToolResultOutput::Text(text) => write_string(text.as_str()),
        ToolResultOutput::Blocks(blocks) => {
            let mut items: Vec<String> = Vec::new();
            let mut i: usize = 0;
            while i < blocks.len()
                invariant
                    i <= blocks@.len(),
                    items@.len() == i,
                    forall|j: int|
                        0 <= j < i ==> (#[trigger] items@[j])@ == result_content_source(
                            blocks@[j]@,
                        ),
                decreases blocks@.len() - i,
            {
                items.push(write_result_content(&blocks[i]));
                i += 1;
            }
            assert(texts(items@) =~= views(blocks@).map_values(
                |block: ResultContentView| result_content_source(block),
            ));
            write_array(&items)
        },
    }
}

fn write_result_tail(block: &ToolResultBlock) -> (source: String)
    ensures
        source@ == result_tail(block@),
{
    let mut source = ",\"id\":".to_owned();
    append(&mut source, write_string(block.id()).as_str());
    put_string(&mut source, ",\"name\":", block.name());
    append(&mut source, ",\"output\":");
    append(&mut source, write_output(block.output()).as_str());
    put_string(&mut source, ",\"state\":", block.state().as_str());
    append(&mut source, ",\"metadata\":");
    append(&mut source, write_object(&block.metadata).as_str());
    put_string(&mut source, ",\"created_at\":", block.created_at.as_str());
    put_optional(&mut source, ",\"finished_at\":", &block.finished_at);
    append(&mut source, "}");
    source
}

fn write_structured_tail(block: &StructuredOutputBlock) -> (source: String)
    ensures
        source@ == structured_tail(block@),
{
    let mut source = ",\"schema\":".to_owned();
    append(&mut source, block.schema().to_text().as_str());
    put_string(&mut source, ",\"output\":", block.raw_output());
    put_string(&mut source, ",\"state\":", block.state().as_str());
    put_string(&mut source, ",\"id\":", block.id.as_str());
    put_string(&mut source, ",\"created_at\":", block.created_at.as_str());
    put_optional(&mut source, ",\"finished_at\":", &block.finished_at);
    append(&mut source, "}");
    source
}

fn write_block(block: &ContentBlock) -> (source: String)
    ensures
        source@ == block_source(block@),
{
    let (kind, tail) = match block {
        ContentBlock::Text(block) => ("{\"type\":\"text\"", write_text_tail(block)),
        ContentBlock::Thinking(block) => ("{\"type\":\"thinking\"", write_thinking_tail(block)),
        ContentBlock::ToolCall(block) => ("{\"type\":\"tool_call\"", write_call_tail(block)),
        ContentBlock::ToolResult(block) => ("{\"type\":\"tool_result\"", write_result_tail(block)),
        ContentBlock::StructuredOutput(block) => (
            "{\"type\":\"structured_output\"",
            write_structured_tail(block),
        ),
        ContentBlock::Data(block) => ("{\"type\":\"data\"", write_data_tail(block)),
    };
    let mut source = kind.to_owned();
    append(&mut source, tail.as_str());
    source
}

fn write_blocks(blocks: &Vec<ContentBlock>) -> (source: String)
    ensures
        source@ == blocks_source(views(blocks@)),
{
    let mut items: Vec<String> = Vec::new();
    let mut i: usize = 0;
    while i < blocks.len()
        invariant
            i <= blocks@.len(),
            items@.len() == i,
            forall|j: int| 0 <= j < i ==> (#[trigger] items@[j])@ == block_source(blocks@[j]@),
        decreases blocks@.len() - i,
    {
        items.push(write_block(&blocks[i]));
        i += 1;
    }
    assert(texts(items@) =~= views(blocks@).map_values(|block: BlockView| block_source(block)));
    write_array(&items)
}

/// Appends a detail of usage, where it was reported.
fn put_detail(source: &mut String, name: &str, tokens: Option<u64>)
    ensures
        final(source)@ == old(source)@ + detail_source(name@, tokens),
{
    match tokens {
        Some(tokens) => {
            append(source, name);
            append(source, decimal(tokens).as_str());
            assert(source@ =~= old(source)@ + (name@ + decimal_text(tokens as nat)));
        },
        None => {
            assert(source@ =~= old(source)@ + Seq::<char>::empty());
        },
    }
}

fn write_usage(usage: &Usage) -> (source: String)
    ensures
        source@ == usage_source(*usage),
{
    let mut source = "{\"input_tokens\":".to_owned();
    append(&mut source, decimal(usage.input_tokens).as_str());
    append(&mut source, ",\"output_tokens\":");
    append(&mut source, decimal(usage.output_tokens).as_str());
    put_detail(&mut source, ",\"reasoning_tokens\":", usage.reasoning_tokens);
    put_detail(&mut source, ",\"cached_input_tokens\":", usage.cached_input_tokens);
    append(&mut source, "}");
    source
}

fn write_usage_entry(usage: &Option<Usage>) -> (source: String)
    ensures
        source@ == usage_entry(*usage),
{
    match usage {
        Some(usage) => {
            let mut source = ",\"usage\":".to_owned();
            append(&mut source, write_usage(usage).as_str());
            source
        },
        None => String::new(),
    }
}

/// The compact JSON text of a message.
pub fn message_text(message: &Msg) -> (source: String)
    ensures
        source@ == message_source(message@),
{
    let mut source = "{\"name\":".to_owned();
    append(&mut source, write_string(message.name.as_str()).as_str());
    append(&mut source, ",\"content\":");
    append(&mut source, write_blocks(&message.content).as_str());
    put_string(&mut source, ",\"role\":", message.role.as_str());
    put_string(&mut source, ",\"id\":", message.id.as_str());
    append(&mut source, ",\"metadata\":");
    append(&mut source, write_object(&message.metadata).as_str());
    append(&mut source, write_usage_entry(&message.usage).as_str());
    put_string(&mut source, ",\"created_at\":", message.created_at.as_str());
    append(&mut source, "}");
    source
}

/// The compact JSON text of messages.
pub fn source_text(messages: &[Msg]) -> (text: String)
    ensures
        text@ == messages_source(views(messages@)),
{
    let mut items: Vec<String> = Vec::new();
    let mut i: usize = 0;
    while i < messages.len()
        invariant
            i <= messages@.len(),
            items@.len() == i,
            forall|j: int| 0 <= j < i ==> (#[trigger] items@[j])@ == message_source(messages@[j]@),
        decreases messages@.len() - i,
    {
        items.push(message_text(&messages[i]));
        i += 1;
    }
    assert(texts(items@) =~= views(messages@).map_values(|msg: MsgView| message_source(msg)));
    write_array(&items)
}

} // verus!
