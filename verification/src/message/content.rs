//! Text blocks and the blocks that a message can hold.
use vstd::prelude::*;

use super::data::{DataBlock, DataView};
use super::structured_output::{StructuredOutputBlock, StructuredView};
use super::thinking::{ThinkingBlock, ThinkingView};
use super::tool_call::{ToolCallBlock, ToolCallView};
use super::tool_result::{ToolResultBlock, ToolResultView};
use super::{generate_id, generate_timestamp, is_generated_id, is_timestamp};
use crate::text::text_option;
use crate::view::views;

verus! {

/// A plain-text message content block.
#[derive(Debug, PartialEq, Eq)]
pub struct TextBlock {
    /// The text contained in this block.
    pub text: String,
    /// The unique block identifier.
    pub id: String,
    /// The local creation time in ISO 8601 format.
    pub created_at: String,
    /// The completion time for streamed content, when available.
    pub finished_at: Option<String>,
}

/// What a text block holds.
#[verifier::ext_equal]
pub struct TextView {
    pub text: Seq<char>,
    pub id: Seq<char>,
    pub created_at: Seq<char>,
    pub finished_at: Option<Seq<char>>,
}

impl View for TextBlock {
    type V = TextView;

    open spec fn view(&self) -> TextView {
        TextView {
            text: self.text@,
            id: self.id@,
            created_at: self.created_at@,
            finished_at: text_option(self.finished_at),
        }
    }
}

impl Clone for TextBlock {
    fn clone(&self) -> (copied: TextBlock)
        ensures
            copied@ == self@,
    {
        TextBlock {
            text: self.text.clone(),
            id: self.id.clone(),
            created_at: self.created_at.clone(),
            finished_at: self.finished_at.clone(),
        }
    }
}

/// Whether a block is a new text block that is not finished.
pub open spec fn is_new_text(block: TextView, text: Seq<char>) -> bool {
    &&& block.text == text
    &&& is_generated_id(block.id)
    &&& is_timestamp(block.created_at)
    &&& block.finished_at is None
}

impl TextBlock {
    /// Creates a text block.
    pub fn new(text: &str) -> (block: TextBlock)
        ensures
            is_new_text(block@, text@),
    {
        let created_at = generate_timestamp();
        TextBlock { text: text.to_owned(), id: generate_id(), finished_at: None, created_at }
    }
}

/// A typed block within a message.
#[derive(Debug, PartialEq, Eq)]
pub enum ContentBlock {
    /// Plain-text content.
    Text(TextBlock),
    /// Model reasoning content.
    Thinking(ThinkingBlock),
    /// A request to invoke a tool.
    ToolCall(ToolCallBlock),
    /// Output produced by a tool invocation.
    ToolResult(ToolResultBlock),
    /// Output produced according to a JSON Schema.
    StructuredOutput(StructuredOutputBlock),
    /// Binary or multimodal data.
    Data(DataBlock),
}

/// What a content block holds.
#[verifier::ext_equal]
pub enum BlockView {
    Text(TextView),
    Thinking(ThinkingView),
    ToolCall(ToolCallView),
    ToolResult(ToolResultView),
    StructuredOutput(StructuredView),
    Data(DataView),
}

impl View for ContentBlock {
    type V = BlockView;

    open spec fn view(&self) -> BlockView {
        match self {
            ContentBlock::Text(block) => BlockView::Text(block@),
            ContentBlock::Thinking(block) => BlockView::Thinking(block@),
            ContentBlock::ToolCall(block) => BlockView::ToolCall(block@),
            ContentBlock::ToolResult(block) => BlockView::ToolResult(block@),
            ContentBlock::StructuredOutput(block) => BlockView::StructuredOutput(block@),
            ContentBlock::Data(block) => BlockView::Data(block@),
        }
    }
}

impl Clone for ContentBlock {
    fn clone(&self) -> (copied: ContentBlock)
        ensures
            copied@ == self@,
    {
        match self {
            ContentBlock::Text(block) => ContentBlock::Text(block.clone()),
            ContentBlock::Thinking(block) => ContentBlock::Thinking(block.clone()),
            ContentBlock::ToolCall(block) => ContentBlock::ToolCall(block.clone()),
            ContentBlock::ToolResult(block) => ContentBlock::ToolResult(block.clone()),
            ContentBlock::StructuredOutput(block) => ContentBlock::StructuredOutput(block.clone()),
            ContentBlock::Data(block) => ContentBlock::Data(block.clone()),
        }
    }
}

/// The texts of the text blocks, in order.
pub open spec fn block_texts(blocks: Seq<BlockView>) -> Seq<Seq<char>>
    decreases blocks.len(),
{
    if blocks.len() == 0 {
        Seq::empty()
    } else {
        let rest = block_texts(blocks.drop_last());
        match blocks.last() {
            BlockView::Text(block) => rest.push(block.text),
            _ => rest,
        }
    }
}

/// The text of all text blocks with a separator between them, if there is one.
pub open spec fn text_of_blocks(blocks: Seq<BlockView>, separator: Seq<char>) -> Option<Seq<char>> {
    let parts = block_texts(blocks);
    if parts.len() == 0 {
        None
    } else {
        Some(crate::text::joined(parts, separator))
    }
}

/// Concatenates the text blocks with a separator between them.
pub fn join_text_blocks(blocks: &Vec<ContentBlock>, separator: &str) -> (text: Option<String>)
    ensures
        text_option(text) == text_of_blocks(views(blocks@), separator@),
{
    let mut parts: Vec<String> = Vec::new();
    let mut i: usize = 0;
    while i < blocks.len()
        invariant
            i <= blocks@.len(),
            crate::text::texts(parts@) == block_texts(views(blocks@.take(i as int))),
        decreases blocks@.len() - i,
    {
        proof {
            crate::view::lemma_views_take(blocks@, i as int);
            let now = views(blocks@.take(i + 1));
            assert(now.drop_last() =~= views(blocks@.take(i as int)));
        }
        let ghost before = parts@;
        if let Some(text) = blocks[i].as_text() {
            parts.push(text.to_owned());
            assert(crate::text::texts(parts@) =~= crate::text::texts(before).push(text@));
        }
        i += 1;
    }
    assert(blocks@.take(blocks@.len() as int) =~= blocks@);
    if parts.len() == 0 {
        None
    } else {
        Some(crate::text::join(&parts, separator))
    }
}

impl ContentBlock {
    /// The text, when this is a text block.
    pub fn as_text(&self) -> (text: Option<&str>)
        ensures
            match text {
                Some(found) => self@ matches BlockView::Text(block) && block.text == found@,
                None => !(self@ is Text),
            },
    {
        match self {
            ContentBlock::Text(block) => Some(block.text.as_str()),
            _ => None,
        }
    }
}

impl From<TextBlock> for ContentBlock {
    fn from(block: TextBlock) -> (content: ContentBlock) {
        ContentBlock::Text(block)
    }
}

impl vstd::std_specs::convert::FromSpecImpl<TextBlock> for ContentBlock {
    open spec fn obeys_from_spec() -> bool {
        true
    }

    open spec fn from_spec(block: TextBlock) -> ContentBlock {
        ContentBlock::Text(block)
    }
}

impl From<ThinkingBlock> for ContentBlock {
    fn from(block: ThinkingBlock) -> (content: ContentBlock) {
        ContentBlock::Thinking(block)
    }
}

impl vstd::std_specs::convert::FromSpecImpl<ThinkingBlock> for ContentBlock {
    open spec fn obeys_from_spec() -> bool {
        true
    }

    open spec fn from_spec(block: ThinkingBlock) -> ContentBlock {
        ContentBlock::Thinking(block)
    }
}

impl From<ToolCallBlock> for ContentBlock {
    fn from(block: ToolCallBlock) -> (content: ContentBlock) {
        ContentBlock::ToolCall(block)
    }
}

impl vstd::std_specs::convert::FromSpecImpl<ToolCallBlock> for ContentBlock {
    open spec fn obeys_from_spec() -> bool {
        true
    }

    open spec fn from_spec(block: ToolCallBlock) -> ContentBlock {
        ContentBlock::ToolCall(block)
    }
}

impl From<ToolResultBlock> for ContentBlock {
    fn from(block: ToolResultBlock) -> (content: ContentBlock) {
        ContentBlock::ToolResult(block)
    }
}

impl vstd::std_specs::convert::FromSpecImpl<ToolResultBlock> for ContentBlock {
    open spec fn obeys_from_spec() -> bool {
        true
    }

    open spec fn from_spec(block: ToolResultBlock) -> ContentBlock {
        ContentBlock::ToolResult(block)
    }
}

impl From<StructuredOutputBlock> for ContentBlock {
    fn from(block: StructuredOutputBlock) -> (content: ContentBlock) {
        ContentBlock::StructuredOutput(block)
    }
}

impl vstd::std_specs::convert::FromSpecImpl<StructuredOutputBlock> for ContentBlock {
    open spec fn obeys_from_spec() -> bool {
        true
    }

    open spec fn from_spec(block: StructuredOutputBlock) -> ContentBlock {
        ContentBlock::StructuredOutput(block)
    }
}

impl From<DataBlock> for ContentBlock {
    fn from(block: DataBlock) -> (content: ContentBlock) {
        ContentBlock::Data(block)
    }
}

impl vstd::std_specs::convert::FromSpecImpl<DataBlock> for ContentBlock {
    open spec fn obeys_from_spec() -> bool {
        true
    }

    open spec fn from_spec(block: DataBlock) -> ContentBlock {
        ContentBlock::Data(block)
    }
}

impl From<String> for ContentBlock {
    fn from(text: String) -> (content: ContentBlock)
        ensures
            content@ matches BlockView::Text(block) && is_new_text(block, text@),
    {
        ContentBlock::Text(TextBlock::new(text.as_str()))
    }
}

impl vstd::std_specs::convert::FromSpecImpl<String> for ContentBlock {
    open spec fn obeys_from_spec() -> bool {
        false
    }

    open spec fn from_spec(text: String) -> ContentBlock {
        arbitrary()
    }
}

impl From<&str> for ContentBlock {
    fn from(text: &str) -> (content: ContentBlock)
        ensures
            content@ matches BlockView::Text(block) && is_new_text(block, text@),
    {
        ContentBlock::Text(TextBlock::new(text))
    }
}

impl vstd::std_specs::convert::FromSpecImpl<&str> for ContentBlock {
    open spec fn obeys_from_spec() -> bool {
        false
    }

    open spec fn from_spec(text: &str) -> ContentBlock {
        arbitrary()
    }
}

/// Blocks that hold no text make no difference to the text of content.
pub proof fn other_blocks_add_no_text(
    blocks: Seq<BlockView>,
    at: int,
    block: BlockView,
    separator: Seq<char>,
)
    requires
        0 <= at <= blocks.len(),
        !(block is Text),
    ensures
        text_of_blocks(blocks.insert(at, block), separator) == text_of_blocks(blocks, separator),
{
    lemma_other_block(blocks, at, block);
}

proof fn lemma_other_block(blocks: Seq<BlockView>, at: int, block: BlockView)
    requires
        0 <= at <= blocks.len(),
        !(block is Text),
    ensures
        block_texts(blocks.insert(at, block)) == block_texts(blocks),
    decreases blocks.len(),
{
    let longer = blocks.insert(at, block);
    if at == blocks.len() {
        assert(longer.drop_last() =~= blocks);
    } else {
        assert(longer.drop_last() =~= blocks.drop_last().insert(at, block));
        assert(longer.last() == blocks.last());
        lemma_other_block(blocks.drop_last(), at, block);
    }
}

/// The tool results among blocks, in order.
pub open spec fn results_among(content: Seq<BlockView>) -> Seq<ToolResultView> {
    content.filter_map(
        |block: BlockView|
            match block {
                BlockView::ToolResult(result) => Some(result),
                _ => None,
            },
    )
}

/// The tool calls among blocks, in order.
pub open spec fn calls_among(content: Seq<BlockView>) -> Seq<ToolCallView> {
    content.filter_map(
        |block: BlockView|
            match block {
                BlockView::ToolCall(call) => Some(call),
                _ => None,
            },
    )
}

/// The texts among blocks that others see, in order: plain texts and structured
/// output.
pub open spec fn texts_among(content: Seq<BlockView>) -> Seq<Seq<char>> {
    content.filter_map(
        |block: BlockView|
            match block {
                BlockView::Text(text) => Some(text.text),
                BlockView::StructuredOutput(structured) => Some(structured.output),
                _ => None,
            },
    )
}

/// The texts of text blocks are joined in order, each with the separator before it
/// but for the first: what goes before and what comes after are joined by it.
pub proof fn texts_are_joined_in_order(
    front: Seq<BlockView>,
    back: Seq<BlockView>,
    separator: Seq<char>,
)
    ensures
        text_of_blocks(front, separator) is Some && text_of_blocks(back, separator) is Some
            ==> text_of_blocks(front + back, separator) == Some(
            text_of_blocks(front, separator)->Some_0 + separator + text_of_blocks(
                back,
                separator,
            )->Some_0,
        ),
        text_of_blocks(front, separator) is None ==> text_of_blocks(front + back, separator)
            == text_of_blocks(back, separator),
        text_of_blocks(back, separator) is None ==> text_of_blocks(front + back, separator)
            == text_of_blocks(front, separator),
    decreases back.len(),
{
    if back.len() == 0 {
        assert(front + back =~= front);
    } else {
        let rest = back.drop_last();
        assert((front + back).drop_last() =~= front + rest);
        assert((front + back).last() == back.last());
        texts_are_joined_in_order(front, rest, separator);
        if let BlockView::Text(block) = back.last() {
            let parts = block_texts(rest);
            let all = block_texts(front + rest);
            assert(parts.push(block.text).drop_last() =~= parts);
            assert(all.push(block.text).drop_last() =~= all);
            lemma_joined_push(parts, separator, block.text);
            lemma_joined_push(all, separator, block.text);
            if parts.len() > 0 && block_texts(front).len() > 0 {
                let first = text_of_blocks(front, separator)->Some_0;
                let second = crate::text::joined(parts, separator);
                assert(first + separator + second + separator + block.text =~= first + separator + (
                second + separator + block.text));
            }
        }
    }
}

/// A text block says its text, and no other block says anything.
pub proof fn blocks_say_their_text(block: BlockView, separator: Seq<char>)
    ensures
        block matches BlockView::Text(text) ==> text_of_blocks(seq![block], separator) == Some(
            text.text,
        ),
        !(block is Text) ==> text_of_blocks(seq![block], separator) is None,
{
    let single = seq![block];
    assert(single.drop_last() =~= Seq::<BlockView>::empty());
    assert(single.last() == block);
    assert(block_texts(single.drop_last()).len() == 0);
    assert(block_texts(single.drop_last()) =~= Seq::<Seq<char>>::empty());
    if let BlockView::Text(text) = block {
        lemma_joined_push(Seq::empty(), separator, text.text);
    }
}

proof fn lemma_joined_push(parts: Seq<Seq<char>>, separator: Seq<char>, part: Seq<char>)
    ensures
        parts.len() == 0 ==> crate::text::joined(parts.push(part), separator) == part,
        parts.len() > 0 ==> crate::text::joined(parts.push(part), separator)
            == crate::text::joined(parts, separator) + separator + part,
{
    assert(parts.push(part).drop_last() =~= parts);
    if parts.len() == 0 {
        assert(crate::text::joined(parts.push(part), separator) =~= part);
    }
}

} // verus!
