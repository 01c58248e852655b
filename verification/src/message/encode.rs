//! The JSON form of messages and their content.
use vstd::prelude::*;

use super::content::{BlockView, ContentBlock, TextBlock, TextView};
use super::data::{DataBlock, DataSource, DataView, SourceView};
use super::msg::{Msg, MsgView};
use super::role::role_text;
use super::structured_output::{structured_state_text, StructuredOutputBlock, StructuredView};
use super::thinking::{ThinkingBlock, ThinkingView};
use super::tool_call::{
    behavior_text, call_state_text, PermissionRule, RuleView, ToolCallBlock, ToolCallView,
};
use super::tool_result::{
    result_state_text, OutputView, ResultContentView, ToolResultBlock, ToolResultContent,
    ToolResultOutput, ToolResultView,
};
use super::usage::Usage;
use crate::assoc::assoc_map;
use crate::json::{json_views, Json, JsonMap, JsonView};
use crate::text::text_option;
use crate::view::views;

verus! {

/// An optional text, or `null`.
pub open spec fn optional_text_json(text: Option<Seq<char>>) -> JsonView {
    match text {
        Some(text) => JsonView::Text(text),
        None => JsonView::Null,
    }
}

/// The fields of a text block.
pub open spec fn text_fields(block: TextView) -> Map<Seq<char>, JsonView> {
    map![
        "text"@ => JsonView::Text(block.text),
        "id"@ => JsonView::Text(block.id),
        "created_at"@ => JsonView::Text(block.created_at),
        "finished_at"@ => optional_text_json(block.finished_at)
    ]
}

/// The fields of a thinking block: the standard ones and the extensions.
pub open spec fn thinking_fields(block: ThinkingView) -> Map<Seq<char>, JsonView> {
    map![
        "thinking"@ => JsonView::Text(block.thinking),
        "id"@ => JsonView::Text(block.id),
        "created_at"@ => JsonView::Text(block.created_at),
        "finished_at"@ => optional_text_json(block.finished_at)
    ].union_prefer_right(block.extra)
}

/// The JSON form of a permission rule.
pub open spec fn rule_json(rule: RuleView) -> JsonView {
    JsonView::Object(
        map![
            "tool_name"@ => JsonView::Text(rule.tool_name),
            "rule_content"@ => optional_text_json(rule.rule_content),
            "behavior"@ => JsonView::Text(behavior_text(rule.behavior)),
            "source"@ => JsonView::Text(rule.source)
        ],
    )
}

/// The fields of a tool call.
pub open spec fn call_fields(block: ToolCallView) -> Map<Seq<char>, JsonView> {
    map![
        "id"@ => JsonView::Text(block.id),
        "name"@ => JsonView::Text(block.name),
        "input"@ => JsonView::Text(block.input),
        "state"@ => JsonView::Text(call_state_text(block.state)),
        "suggested_rules"@ => JsonView::Array(
            block.suggested_rules.map_values(|rule: RuleView| rule_json(rule)),
        ),
        "created_at"@ => JsonView::Text(block.created_at),
        "finished_at"@ => optional_text_json(block.finished_at)
    ]
}

/// The JSON form of a data source.
pub open spec fn source_json(source: SourceView) -> JsonView {
    match source {
        SourceView::Base64(source) => JsonView::Object(
            map![
                "type"@ => JsonView::Text("base64"@),
                "data"@ => JsonView::Text(source.data),
                "media_type"@ => JsonView::Text(source.media_type)
            ],
        ),
        SourceView::Url(source) => JsonView::Object(
            map![
                "type"@ => JsonView::Text("url"@),
                "url"@ => JsonView::Text(source.url),
                "media_type"@ => JsonView::Text(source.media_type)
            ],
        ),
    }
}

/// The fields of a data block.
pub open spec fn data_fields(block: DataView) -> Map<Seq<char>, JsonView> {
    map![
        "id"@ => JsonView::Text(block.id),
        "source"@ => source_json(block.source),
        "name"@ => optional_text_json(block.name),
        "created_at"@ => JsonView::Text(block.created_at),
        "finished_at"@ => optional_text_json(block.finished_at)
    ]
}

/// The JSON form of a block of tool output.
pub open spec fn result_content_json(content: ResultContentView) -> JsonView {
    match content {
        ResultContentView::Text(block) => JsonView::Object(
            text_fields(block).insert("type"@, JsonView::Text("text"@)),
        ),
        ResultContentView::Data(block) => JsonView::Object(
            data_fields(block).insert("type"@, JsonView::Text("data"@)),
        ),
    }
}

/// The JSON form of tool output: a text, or an array of blocks.
pub open spec fn output_json(output: OutputView) -> JsonView {
    match output {
        OutputView::Text(text) => JsonView::Text(text),
        OutputView::Blocks(blocks) => JsonView::Array(
            blocks.map_values(|block: ResultContentView| result_content_json(block)),
        ),
    }
}

/// The fields of a tool result.
pub open spec fn result_fields(block: ToolResultView) -> Map<Seq<char>, JsonView> {
    map![
        "id"@ => JsonView::Text(block.id),
        "name"@ => JsonView::Text(block.name),
        "output"@ => output_json(block.output),
        "state"@ => JsonView::Text(result_state_text(block.state)),
        "metadata"@ => JsonView::Object(block.metadata),
        "created_at"@ => JsonView::Text(block.created_at),
        "finished_at"@ => optional_text_json(block.finished_at)
    ]
}

/// The fields of structured output.
pub open spec fn structured_fields(block: StructuredView) -> Map<Seq<char>, JsonView> {
    map![
        "schema"@ => block.schema,
        "output"@ => JsonView::Text(block.output),
        "state"@ => JsonView::Text(structured_state_text(block.state)),
        "id"@ => JsonView::Text(block.id),
        "created_at"@ => JsonView::Text(block.created_at),
        "finished_at"@ => optional_text_json(block.finished_at)
    ]
}

/// The name of a block's form on the wire.
pub open spec fn block_type(block: BlockView) -> Seq<char> {
    match block {
        BlockView::Text(_) => "text"@,
        BlockView::Thinking(_) => "thinking"@,
        BlockView::ToolCall(_) => "tool_call"@,
        BlockView::ToolResult(_) => "tool_result"@,
        BlockView::StructuredOutput(_) => "structured_output"@,
        BlockView::Data(_) => "data"@,
    }
}

/// The fields of a block without its type.
pub open spec fn block_fields(block: BlockView) -> Map<Seq<char>, JsonView> {
    match block {
        BlockView::Text(block) => text_fields(block),
        BlockView::Thinking(block) => thinking_fields(block),
        BlockView::ToolCall(block) => call_fields(block),
        BlockView::ToolResult(block) => result_fields(block),
        BlockView::StructuredOutput(block) => structured_fields(block),
        BlockView::Data(block) => data_fields(block),
    }
}

/// The JSON form of a content block.
pub open spec fn block_json(block: BlockView) -> JsonView {
    JsonView::Object(block_fields(block).insert("type"@, JsonView::Text(block_type(block))))
}

/// The JSON forms of content blocks.
pub open spec fn blocks_json(blocks: Seq<BlockView>) -> JsonView {
    JsonView::Array(blocks.map_values(|block: BlockView| block_json(block)))
}

/// A text as JSON.
pub fn encode_text(text: &str) -> (json: Json)
    ensures
        json@ == JsonView::Text(text@),
{
    Json::Text(text.to_owned())
}

/// An optional text as JSON.
pub fn encode_optional_text(text: &Option<String>) -> (json: Json)
    ensures
        json@ == optional_text_json(text_option(*text)),
{
    match text {
        Some(text) => Json::Text(text.clone()),
        None => Json::Null,
    }
}

/// Gives a key a text.
pub(crate) fn put_text(map: &mut JsonMap, key: &str, text: &str)
    ensures
        final(map)@ == old(map)@.insert(key@, JsonView::Text(text@)),
        crate::json::map_room(*final(map)) <= crate::json::map_room(*old(map))
            + crate::json::entry_room(key@, crate::json::text_room(text@) + 2),
{
    map.insert(key.to_owned(), Json::Text(text.to_owned()));
}

/// Gives a key a value.
pub(crate) fn put(map: &mut JsonMap, key: &str, value: Json)
    ensures
        final(map)@ == old(map)@.insert(key@, value@),
        crate::json::map_room(*final(map)) <= crate::json::map_room(*old(map))
            + crate::json::entry_room(key@, crate::json::json_room(value)),
{
    map.insert(key.to_owned(), value);
}

/// An array of JSON values means the sequence of their meanings.
pub proof fn lemma_array_view(items: Vec<Json>)
    ensures
        Json::Array(items)@ == JsonView::Array(json_views(items@)),
{
    assert(Json::Array(items)@->Array_0 =~= json_views(items@));
}

/// Inserting pairs in order gives the union with their map.
pub proof fn lemma_union_insert(
    base: Map<Seq<char>, JsonView>,
    pairs: Seq<(Seq<char>, JsonView)>,
    count: int,
)
    requires
        0 <= count < pairs.len(),
    ensures
        base.union_prefer_right(assoc_map(pairs.take(count + 1))) == base.union_prefer_right(
            assoc_map(pairs.take(count)),
        ).insert(pairs[count].0, pairs[count].1),
{
    let next = pairs.take(count + 1);
    assert(next.drop_last() =~= pairs.take(count));
    assert(base.union_prefer_right(assoc_map(next)) =~= base.union_prefer_right(
        assoc_map(pairs.take(count)),
    ).insert(pairs[count].0, pairs[count].1));
}

/// Adds the entries of one object to another.
pub(crate) fn extend(map: &mut JsonMap, extra: &JsonMap)
    ensures
        final(map)@ == old(map)@.union_prefer_right(extra@),
{
    let ghost base = map@;
    let ghost pairs = extra.spec_pairs();
    let count = extra.len();
    let mut i: usize = 0;
    proof {
        assert(assoc_map(pairs.take(0)) =~= Map::empty());
        assert(base =~= base.union_prefer_right(Map::empty()));
    }
    while i < count
        invariant
            i <= count == extra.spec_len(),
            pairs == extra.spec_pairs(),
            map@ == base.union_prefer_right(assoc_map(pairs.take(i as int))),
        decreases count - i,
    {
        proof {
            lemma_union_insert(base, pairs, i as int);
        }
        let value = extra.value_at(i).clone();
        map.insert(extra.key_at(i).to_owned(), value);
        i += 1;
    }
    proof {
        extra.lemma_entries();
        assert(pairs.take(count as int) =~= pairs);
    }
}

fn encode_text_block(block: &TextBlock) -> (map: JsonMap)
    ensures
        map@ == text_fields(block@),
{
    let mut map = JsonMap::new();
    put_text(&mut map, "text", block.text.as_str());
    put_text(&mut map, "id", block.id.as_str());
    put_text(&mut map, "created_at", block.created_at.as_str());
    put(&mut map, "finished_at", encode_optional_text(&block.finished_at));
    map
}

fn encode_thinking(block: &ThinkingBlock) -> (map: JsonMap)
    ensures
        map@ == thinking_fields(block@),
{
    let mut map = JsonMap::new();
    put_text(&mut map, "thinking", block.thinking.as_str());
    put_text(&mut map, "id", block.id.as_str());
    put_text(&mut map, "created_at", block.created_at.as_str());
    put(&mut map, "finished_at", encode_optional_text(&block.finished_at));
    extend(&mut map, block.extra_fields());
    map
}

fn encode_rule(rule: &PermissionRule) -> (json: Json)
    ensures
        json@ == rule_json(rule@),
{
    let mut map = JsonMap::new();
    put_text(&mut map, "tool_name", rule.tool_name.as_str());
    put(&mut map, "rule_content", encode_optional_text(&rule.rule_content));
    put_text(&mut map, "behavior", rule.behavior.as_str());
    put_text(&mut map, "source", rule.source.as_str());
    Json::Object(map)
}

fn encode_rules(rules: &Vec<PermissionRule>) -> (json: Json)
    ensures
        json@ == JsonView::Array(views(rules@).map_values(|rule: RuleView| rule_json(rule))),
{
    let mut items: Vec<Json> = Vec::new();
    let mut i: usize = 0;
    while i < rules.len()
        invariant
            i <= rules@.len(),
            items@.len() == i,
            forall|j: int| 0 <= j < i ==> (#[trigger] items@[j])@ == rule_json(rules@[j]@),
        decreases rules@.len() - i,
    {
        items.push(encode_rule(&rules[i]));
        i += 1;
    }
    proof {
        lemma_array_view(items);
        assert(json_views(items@) =~= views(rules@).map_values(|rule: RuleView| rule_json(rule)));
    }
    Json::Array(items)
}

pub(crate) fn encode_call(block: &ToolCallBlock) -> (map: JsonMap)
    ensures
        map@ == call_fields(block@),
{
    let mut map = JsonMap::new();
    put_text(&mut map, "id", block.id());
    put_text(&mut map, "name", block.name());
    put_text(&mut map, "input", block.input());
    put_text(&mut map, "state", block.state.as_str());
    put(&mut map, "suggested_rules", encode_rules(&block.suggested_rules));
    put_text(&mut map, "created_at", block.created_at.as_str());
    put(&mut map, "finished_at", encode_optional_text(&block.finished_at));
    map
}

fn encode_source(source: &DataSource) -> (json: Json)
    ensures
        json@ == source_json(source@),
{
    let mut map = JsonMap::new();
    match source {
        DataSource::Base64(source) => {
            put_text(&mut map, "type", "base64");
            put_text(&mut map, "data", source.data());
            put_text(&mut map, "media_type", source.media_type());
        },
        DataSource::Url(source) => {
            put_text(&mut map, "type", "url");
            put_text(&mut map, "url", source.url());
            put_text(&mut map, "media_type", source.media_type());
        },
    }
    Json::Object(map)
}

fn encode_data(block: &DataBlock) -> (map: JsonMap)
    ensures
        map@ == data_fields(block@),
{
    let mut map = JsonMap::new();
    put_text(&mut map, "id", block.id.as_str());
    put(&mut map, "source", encode_source(&block.source));
    put(&mut map, "name", encode_optional_text(&block.name));
    put_text(&mut map, "created_at", block.created_at.as_str());
    put(&mut map, "finished_at", encode_optional_text(&block.finished_at));
    map
}

fn encode_result_content(content: &ToolResultContent) -> (json: Json)
    ensures
        json@ == result_content_json(content@),
{
    match content {
        ToolResultContent::Text(block) => {
            let mut map = encode_text_block(block);
            put_text(&mut map, "type", "text");
            Json::Object(map)
        },
        ToolResultContent::Data(block) => {
            let mut map = encode_data(block);
            put_text(&mut map, "type", "data");
            Json::Object(map)
        },
    }
}

fn encode_output(output: &ToolResultOutput) -> (json: Json)
    ensures
        json@ == output_json(output@),
{
    match output {
        ToolResultOutput::Text(text) => Json::Text(text.clone()),
        ToolResultOutput::Blocks(blocks) => {
            let mut items: Vec<Json> = Vec::new();
            let mut i: usize = 0;
            while i < blocks.len()
                invariant
                    i <= blocks@.len(),
                    items@.len() == i,
                    forall|j: int|
                        0 <= j < i ==> (#[trigger] items@[j])@ == result_content_json(blocks@[j]@),
                decreases blocks@.len() - i,
            {
                items.push(encode_result_content(&blocks[i]));
                i += 1;
            }
            proof {
                lemma_array_view(items);
                assert(json_views(items@) =~= views(blocks@).map_values(
                    |block: ResultContentView| result_content_json(block),
                ));
            }
            Json::Array(items)
        },
    }
}

fn encode_result(block: &ToolResultBlock) -> (map: JsonMap)
    ensures
        map@ == result_fields(block@),
{
    let mut map = JsonMap::new();
    put_text(&mut map, "id", block.id());
    put_text(&mut map, "name", block.name());
    put(&mut map, "output", encode_output(block.output()));
    put_text(&mut map, "state", block.state().as_str());
    put(&mut map, "metadata", Json::Object(block.metadata.clone()));
    put_text(&mut map, "created_at", block.created_at.as_str());
    put(&mut map, "finished_at", encode_optional_text(&block.finished_at));
    map
}

fn encode_structured(block: &StructuredOutputBlock) -> (map: JsonMap)
    ensures
        map@ == structured_fields(block@),
{
    let mut map = JsonMap::new();
    put(&mut map, "schema", block.schema().clone());
    put_text(&mut map, "output", block.raw_output());
    put_text(&mut map, "state", block.state().as_str());
    put_text(&mut map, "id", block.id.as_str());
    put_text(&mut map, "created_at", block.created_at.as_str());
    put(&mut map, "finished_at", encode_optional_text(&block.finished_at));
    map
}

impl ContentBlock {
    /// The JSON form of the block.
    pub fn to_json(&self) -> (json: Json)
        ensures
            json@ == block_json(self@),
    {
        let mut map = match self {
            ContentBlock::Text(block) => encode_text_block(block),
            ContentBlock::Thinking(block) => encode_thinking(block),
            ContentBlock::ToolCall(block) => encode_call(block),
            ContentBlock::ToolResult(block) => encode_result(block),
            ContentBlock::StructuredOutput(block) => encode_structured(block),
            ContentBlock::Data(block) => encode_data(block),
        };
        let name = match self {
            ContentBlock::Text(_) => "text",
            ContentBlock::Thinking(_) => "thinking",
            ContentBlock::ToolCall(_) => "tool_call",
            ContentBlock::ToolResult(_) => "tool_result",
            ContentBlock::StructuredOutput(_) => "structured_output",
            ContentBlock::Data(_) => "data",
        };
        put_text(&mut map, "type", name);
        Json::Object(map)
    }
}

/// The JSON forms of content blocks.
pub fn encode_blocks(blocks: &Vec<ContentBlock>) -> (json: Json)
    ensures
        json@ == blocks_json(views(blocks@)),
{
    let mut items: Vec<Json> = Vec::new();
    let mut i: usize = 0;
    while i < blocks.len()
        invariant
            i <= blocks@.len(),
            items@.len() == i,
            forall|j: int| 0 <= j < i ==> (#[trigger] items@[j])@ == block_json(blocks@[j]@),
        decreases blocks@.len() - i,
    {
        items.push(blocks[i].to_json());
        i += 1;
    }
    proof {
        lemma_array_view(items);
        assert(json_views(items@) =~= views(blocks@).map_values(
            |block: BlockView| block_json(block),
        ));
    }
    Json::Array(items)
}

/// The JSON form of usage: details that were not reported are left out.
pub open spec fn usage_json(usage: Usage) -> JsonView {
    let core = map![
        "input_tokens"@ => JsonView::Unsigned(usage.input_tokens),
        "output_tokens"@ => JsonView::Unsigned(usage.output_tokens)
    ];
    let reasoned = match usage.reasoning_tokens {
        Some(tokens) => core.insert("reasoning_tokens"@, JsonView::Unsigned(tokens)),
        None => core,
    };
    JsonView::Object(
        match usage.cached_input_tokens {
            Some(tokens) => reasoned.insert("cached_input_tokens"@, JsonView::Unsigned(tokens)),
            None => reasoned,
        },
    )
}

/// The JSON form of a message: usage that was not reported is left out.
pub open spec fn msg_json(msg: MsgView) -> JsonView {
    let fields = map![
        "name"@ => JsonView::Text(msg.name),
        "content"@ => blocks_json(msg.content),
        "role"@ => JsonView::Text(role_text(msg.role)),
        "id"@ => JsonView::Text(msg.id),
        "metadata"@ => JsonView::Object(msg.metadata),
        "created_at"@ => JsonView::Text(msg.created_at)
    ];
    JsonView::Object(
        match msg.usage {
            Some(usage) => fields.insert("usage"@, usage_json(usage)),
            None => fields,
        },
    )
}

/// The JSON forms of messages.
pub open spec fn msgs_json(msgs: Seq<MsgView>) -> JsonView {
    JsonView::Array(msgs.map_values(|msg: MsgView| msg_json(msg)))
}

impl Usage {
    /// The JSON form of the usage.
    pub fn to_json(&self) -> (json: Json)
        ensures
            json@ == usage_json(*self),
    {
        let mut map = JsonMap::new();
        put(&mut map, "input_tokens", Json::Unsigned(self.input_tokens));
        put(&mut map, "output_tokens", Json::Unsigned(self.output_tokens));
        if let Some(tokens) = self.reasoning_tokens {
            put(&mut map, "reasoning_tokens", Json::Unsigned(tokens));
        }
        if let Some(tokens) = self.cached_input_tokens {
            put(&mut map, "cached_input_tokens", Json::Unsigned(tokens));
        }
        Json::Object(map)
    }
}

impl Msg {
    /// The JSON form of the message.
    pub fn to_json(&self) -> (json: Json)
        ensures
            json@ == msg_json(self@),
    {
        let mut map = JsonMap::new();
        put_text(&mut map, "name", self.name.as_str());
        put(&mut map, "content", encode_blocks(&self.content));
        put_text(&mut map, "role", self.role.as_str());
        put_text(&mut map, "id", self.id.as_str());
        put(&mut map, "metadata", Json::Object(self.metadata.clone()));
        put_text(&mut map, "created_at", self.created_at.as_str());
        if let Some(usage) = &self.usage {
            put(&mut map, "usage", usage.to_json());
        }
        Json::Object(map)
    }
}

/// The JSON forms of messages.
pub fn encode_messages(messages: &[Msg]) -> (json: Json)
    ensures
        json@ == msgs_json(views(messages@)),
{
    let mut items: Vec<Json> = Vec::new();
    let mut i: usize = 0;
    while i < messages.len()
        invariant
            i <= messages@.len(),
            items@.len() == i,
            forall|j: int| 0 <= j < i ==> (#[trigger] items@[j])@ == msg_json(messages@[j]@),
        decreases messages@.len() - i,
    {
        items.push(messages[i].to_json());
        i += 1;
    }
    proof {
        lemma_array_view(items);
        assert(json_views(items@) =~= views(messages@).map_values(
            |msg: MsgView| msg_json(msg),
        ));
    }
    Json::Array(items)
}

} // verus!
