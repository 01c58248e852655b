//! Streaming and multimodal tool result content blocks.
use vstd::prelude::*;

use super::content::{is_new_text, TextBlock, TextView};
use super::data::{DataBlock, DataView};
use super::{generate_timestamp, is_timestamp, Metadata};
use crate::json::JsonView;
use crate::text::{append, blank, is_blank, text_option};
use crate::view::views;

verus! {

/// The execution state of a tool result.
#[derive(Clone, Copy, Debug, PartialEq, Eq, Hash, Structural)]
pub enum ToolResultState {
    /// The tool is still executing or streaming output.
    Running,
    /// The tool completed successfully.
    Success,
    /// The tool failed.
    Error,
    /// The tool was interrupted before completion.
    Interrupted,
    /// Execution was denied by the permission system or user.
    Denied,
}

impl Default for ToolResultState {
    fn default() -> (state: ToolResultState)
        ensures
            state == ToolResultState::Running,
    {
        ToolResultState::Running
    }
}

/// The name of a result state.
pub open spec fn result_state_text(state: ToolResultState) -> Seq<char> {
    match state {
        ToolResultState::Running => "running"@,
        ToolResultState::Success => "success"@,
        ToolResultState::Error => "error"@,
        ToolResultState::Interrupted => "interrupted"@,
        ToolResultState::Denied => "denied"@,
    }
}

impl ToolResultState {
    /// Whether this state ends the tool execution lifecycle.
    pub fn is_terminal(self) -> (terminal: bool)
        ensures
            terminal == (self != ToolResultState::Running),
    {
        !matches!(self, ToolResultState::Running)
    }

    /// The name of the state.
    pub fn as_str(self) -> (name: &'static str)
        ensures
            name@ == result_state_text(self),
    {
        match self {
            ToolResultState::Running => "running",
            ToolResultState::Success => "success",
            ToolResultState::Error => "error",
            ToolResultState::Interrupted => "interrupted",
            ToolResultState::Denied => "denied",
        }
    }

    /// The name of the state.
    pub fn to_string(&self) -> (name: String)
        ensures
            name@ == result_state_text(*self),
    {
        self.as_str().to_owned()
    }
}

/// A content block allowed inside structured tool output.
#[derive(Debug, PartialEq, Eq)]
pub enum ToolResultContent {
    /// Plain-text tool output.
    Text(TextBlock),
    /// Binary or multimodal tool output.
    Data(DataBlock),
}

/// What a block of tool output holds.
#[verifier::ext_equal]
pub enum ResultContentView {
    Text(TextView),
    Data(DataView),
}

impl View for ToolResultContent {
    type V = ResultContentView;

    open spec fn view(&self) -> ResultContentView {
        match self {
            ToolResultContent::Text(block) => ResultContentView::Text(block@),
            ToolResultContent::Data(block) => ResultContentView::Data(block@),
        }
    }
}

impl Clone for ToolResultContent {
    fn clone(&self) -> (copied: ToolResultContent)
        ensures
            copied@ == self@,
    {
        match self {
            ToolResultContent::Text(block) => ToolResultContent::Text(block.clone()),
            ToolResultContent::Data(block) => ToolResultContent::Data(block.clone()),
        }
    }
}

impl From<TextBlock> for ToolResultContent {
    fn from(block: TextBlock) -> (content: ToolResultContent) {
        ToolResultContent::Text(block)
    }
}

impl vstd::std_specs::convert::FromSpecImpl<TextBlock> for ToolResultContent {
    open spec fn obeys_from_spec() -> bool {
        true
    }

    open spec fn from_spec(block: TextBlock) -> ToolResultContent {
        ToolResultContent::Text(block)
    }
}

impl From<DataBlock> for ToolResultContent {
    fn from(block: DataBlock) -> (content: ToolResultContent) {
        ToolResultContent::Data(block)
    }
}

impl vstd::std_specs::convert::FromSpecImpl<DataBlock> for ToolResultContent {
    open spec fn obeys_from_spec() -> bool {
        true
    }

    open spec fn from_spec(block: DataBlock) -> ToolResultContent {
        ToolResultContent::Data(block)
    }
}

/// The output carried by a tool result.
#[derive(Debug, PartialEq, Eq)]
pub enum ToolResultOutput {
    /// A raw text result.
    Text(String),
    /// Structured text and multimodal result blocks.
    Blocks(Vec<ToolResultContent>),
}

/// What the output of a tool holds.
#[verifier::ext_equal]
pub enum OutputView {
    Text(Seq<char>),
    Blocks(Seq<ResultContentView>),
}

impl View for ToolResultOutput {
    type V = OutputView;

    open spec fn view(&self) -> OutputView {
        match self {
            ToolResultOutput::Text(text) => OutputView::Text(text@),
            ToolResultOutput::Blocks(blocks) => OutputView::Blocks(views(blocks@)),
        }
    }
}

impl Clone for ToolResultOutput {
    fn clone(&self) -> (copied: ToolResultOutput)
        ensures
            copied@ == self@,
    {
        match self {
            ToolResultOutput::Text(text) => ToolResultOutput::Text(text.clone()),
            ToolResultOutput::Blocks(blocks) => {
                let copies = blocks.clone();
                assert(views(copies@) =~= views(blocks@));
                ToolResultOutput::Blocks(copies)
            },
        }
    }
}

impl From<String> for ToolResultOutput {
    fn from(text: String) -> (output: ToolResultOutput) {
        ToolResultOutput::Text(text)
    }
}

impl vstd::std_specs::convert::FromSpecImpl<String> for ToolResultOutput {
    open spec fn obeys_from_spec() -> bool {
        true
    }

    open spec fn from_spec(text: String) -> ToolResultOutput {
        ToolResultOutput::Text(text)
    }
}

impl From<&str> for ToolResultOutput {
    fn from(text: &str) -> (output: ToolResultOutput)
        ensures
            output@ == OutputView::Text(text@),
    {
        ToolResultOutput::Text(text.to_owned())
    }
}

impl vstd::std_specs::convert::FromSpecImpl<&str> for ToolResultOutput {
    open spec fn obeys_from_spec() -> bool {
        false
    }

    open spec fn from_spec(text: &str) -> ToolResultOutput {
        arbitrary()
    }
}

impl From<Vec<ToolResultContent>> for ToolResultOutput {
    fn from(blocks: Vec<ToolResultContent>) -> (output: ToolResultOutput) {
        ToolResultOutput::Blocks(blocks)
    }
}

impl vstd::std_specs::convert::FromSpecImpl<Vec<ToolResultContent>> for ToolResultOutput {
    open spec fn obeys_from_spec() -> bool {
        true
    }

    open spec fn from_spec(blocks: Vec<ToolResultContent>) -> ToolResultOutput {
        ToolResultOutput::Blocks(blocks)
    }
}

/// An error returned when constructing or finishing a tool result.
#[derive(Clone, Copy, Debug, PartialEq, Eq, Structural)]
pub enum ToolResultError {
    /// The tool call identifier was empty.
    EmptyId,
    /// The tool name was empty or contained only whitespace.
    EmptyName,
    /// `running` was supplied where a terminal state was required.
    NonTerminalState,
}

/// What a tool result error says.
pub open spec fn result_error_text(error: ToolResultError) -> Seq<char> {
    match error {
        ToolResultError::EmptyId => "tool result id cannot be empty"@,
        ToolResultError::EmptyName => "tool name cannot be empty"@,
        ToolResultError::NonTerminalState => "running is not a terminal tool result state"@,
    }
}

impl ToolResultError {
    /// What the error says.
    pub fn to_string(&self) -> (text: String)
        ensures
            text@ == result_error_text(*self),
    {
        match self {
            ToolResultError::EmptyId => "tool result id cannot be empty".to_owned(),
            ToolResultError::EmptyName => "tool name cannot be empty".to_owned(),
            ToolResultError::NonTerminalState => "running is not a terminal tool result state".to_owned(),
        }
    }
}

/// The output produced by a tool invocation.
#[derive(Debug, PartialEq, Eq)]
pub struct ToolResultBlock {
    pub(crate) id: String,
    pub(crate) name: String,
    pub(crate) output: ToolResultOutput,
    pub(crate) state: ToolResultState,
    /// Arbitrary result metadata.
    pub metadata: Metadata,
    /// The local creation time in ISO 8601 format.
    pub created_at: String,
    /// The completion time, when available.
    pub finished_at: Option<String>,
}

/// What a tool result holds.
#[verifier::ext_equal]
pub struct ToolResultView {
    pub id: Seq<char>,
    pub name: Seq<char>,
    pub output: OutputView,
    pub state: ToolResultState,
    pub metadata: Map<Seq<char>, JsonView>,
    pub created_at: Seq<char>,
    pub finished_at: Option<Seq<char>>,
}

impl View for ToolResultBlock {
    type V = ToolResultView;

    open(crate) spec fn view(&self) -> ToolResultView {
        ToolResultView {
            id: self.id@,
            name: self.name@,
            output: self.output@,
            state: self.state,
            metadata: self.metadata@,
            created_at: self.created_at@,
            finished_at: text_option(self.finished_at),
        }
    }
}

impl Clone for ToolResultBlock {
    fn clone(&self) -> (copied: ToolResultBlock)
        ensures
            copied@ == self@,
    {
        ToolResultBlock {
            id: self.id.clone(),
            name: self.name.clone(),
            output: self.output.clone(),
            state: self.state,
            metadata: self.metadata.clone(),
            created_at: self.created_at.clone(),
            finished_at: self.finished_at.clone(),
        }
    }
}

impl ToolResultView {
    /// Whether the identifier and the name are not blank.
    pub open spec fn well_formed(self) -> bool {
        !blank(self.id) && !blank(self.name)
    }
}

/// What is wrong with the identity of a tool result, if anything.
pub open spec fn result_identity_error(id: Seq<char>, name: Seq<char>) -> Option<ToolResultError> {
    if blank(id) {
        Some(ToolResultError::EmptyId)
    } else if blank(name) {
        Some(ToolResultError::EmptyName)
    } else {
        None
    }
}

/// What is wrong with the parts of a finished tool result, if anything.
pub open spec fn finished_error(id: Seq<char>, name: Seq<char>, state: ToolResultState) -> Option<
    ToolResultError,
> {
    match result_identity_error(id, name) {
        Some(error) => Some(error),
        None => if state == ToolResultState::Running {
            Some(ToolResultError::NonTerminalState)
        } else {
            None
        },
    }
}

/// Whether a block is a new result in a state, with output.
pub open spec fn is_new_result(
    block: ToolResultView,
    id: Seq<char>,
    name: Seq<char>,
    output: OutputView,
    state: ToolResultState,
) -> bool {
    &&& block.id == id
    &&& block.name == name
    &&& block.output == output
    &&& block.state == state
    &&& block.metadata == Map::<Seq<char>, JsonView>::empty()
    &&& is_timestamp(block.created_at)
    &&& match block.finished_at {
        Some(time) => state != ToolResultState::Running && is_timestamp(time),
        None => state == ToolResultState::Running,
    }
}

/// Whether blocks are the structured form of an output: a raw text that is not
/// empty becomes one new text block.
pub open spec fn structured_form(output: OutputView, blocks: Seq<ResultContentView>) -> bool {
    match output {
        OutputView::Blocks(held) => blocks == held,
        OutputView::Text(text) => if text.len() == 0 {
            blocks.len() == 0
        } else {
            blocks.len() == 1 && (blocks[0] matches ResultContentView::Text(block) && is_new_text(
                block,
                text,
            ))
        },
    }
}

/// Whether `after` results from appending text to `before`: the last text block
/// grows, or a new one is added.
pub open spec fn text_appended(
    before: Seq<ResultContentView>,
    delta: Seq<char>,
    after: Seq<ResultContentView>,
) -> bool {
    if before.len() > 0 && before.last() is Text {
        after == before.update(
            before.len() - 1,
            ResultContentView::Text(
                TextView { text: before.last()->Text_0.text + delta, ..before.last()->Text_0 },
            ),
        )
    } else {
        after.len() == before.len() + 1 && after.drop_last() == before && (
        after.last() matches ResultContentView::Text(block) && is_new_text(block, delta))
    }
}

impl ToolResultBlock {
    /// Creates an empty result for a running tool call.
    pub fn running(id: &str, name: &str) -> (result: Result<ToolResultBlock, ToolResultError>)
        ensures
            match result {
                Ok(block) => result_identity_error(id@, name@) is None && is_new_result(
                    block@,
                    id@,
                    name@,
                    OutputView::Blocks(Seq::empty()),
                    ToolResultState::Running,
                ) && block@.well_formed(),
                Err(error) => result_identity_error(id@, name@) == Some(error),
            },
    {
        match validate_tool_result_identity(id, name) {
            Err(error) => Err(error),
            Ok(()) => {
                let blocks: Vec<ToolResultContent> = Vec::new();
                assert(views(blocks@) =~= Seq::<ResultContentView>::empty());
                Ok(
                    ToolResultBlock {
                        id: id.to_owned(),
                        name: name.to_owned(),
                        output: ToolResultOutput::Blocks(blocks),
                        state: ToolResultState::Running,
                        metadata: Metadata::new(),
                        created_at: generate_timestamp(),
                        finished_at: None,
                    },
                )
            },
        }
    }

    /// Creates a finished result with a terminal state.
    pub fn finished(
        id: &str,
        name: &str,
        output: ToolResultOutput,
        state: ToolResultState,
    ) -> (result: Result<ToolResultBlock, ToolResultError>)
        ensures
            match result {
                Ok(block) => finished_error(id@, name@, state) is None && is_new_result(
                    block@,
                    id@,
                    name@,
                    output@,
                    state,
                ) && block@.well_formed(),
                Err(error) => finished_error(id@, name@, state) == Some(error),
            },
    {
        match ToolResultBlock::running(id, name) {
            Err(error) => Err(error),
            Ok(mut block) => {
                block.output = output;
                match block.finish(state) {
                    Err(error) => Err(error),
                    Ok(()) => Ok(block),
                }
            },
        }
    }

    /// Creates a successfully finished result.
    pub fn success(id: &str, name: &str, output: ToolResultOutput) -> (result: Result<
        ToolResultBlock,
        ToolResultError,
    >)
        ensures
            match result {
                Ok(block) => result_identity_error(id@, name@) is None && is_new_result(
                    block@,
                    id@,
                    name@,
                    output@,
                    ToolResultState::Success,
                ) && block@.well_formed(),
                Err(error) => result_identity_error(id@, name@) == Some(error),
            },
    {
        ToolResultBlock::finished(id, name, output, ToolResultState::Success)
    }

    /// Creates a result from stored parts, which must name a call and a tool.
    pub fn from_parts(
        id: String,
        name: String,
        output: ToolResultOutput,
        state: ToolResultState,
        metadata: Metadata,
        created_at: String,
        finished_at: Option<String>,
    ) -> (result: Result<ToolResultBlock, ToolResultError>)
        ensures
            match result {
                Ok(block) => block@ == (ToolResultView {
                    id: id@,
                    name: name@,
                    output: output@,
                    state,
                    metadata: metadata@,
                    created_at: created_at@,
                    finished_at: text_option(finished_at),
                }) && block@.well_formed(),
                Err(error) => result_identity_error(id@, name@) == Some(error),
            },
    {
        match validate_tool_result_identity(id.as_str(), name.as_str()) {
            Err(error) => Err(error),
            Ok(()) => Ok(
                ToolResultBlock { id, name, output, state, metadata, created_at, finished_at },
            ),
        }
    }

    /// The corresponding tool call identifier.
    pub fn id(&self) -> (id: &str)
        ensures
            id@ == self@.id,
    {
        self.id.as_str()
    }

    /// The tool name.
    pub fn name(&self) -> (name: &str)
        ensures
            name@ == self@.name,
    {
        self.name.as_str()
    }

    /// The current output.
    pub fn output(&self) -> (output: &ToolResultOutput)
        ensures
            output@ == self@.output,
    {
        &self.output
    }

    /// The current execution state.
    pub fn state(&self) -> (state: ToolResultState)
        ensures
            state == self@.state,
    {
        self.state
    }

    /// Appends a streaming text fragment, merging adjacent text blocks.
    pub fn append_text_delta(&mut self, delta: &str)
        ensures
            final(self)@ == (ToolResultView { output: final(self)@.output, ..old(self)@ }),
            exists|before: Seq<ResultContentView>| #[trigger]
                structured_form(old(self)@.output, before) && (final(self)@.output
                    matches OutputView::Blocks(after) && text_appended(before, delta@, after)),
    {
        let mut blocks = self.take_output_blocks();
        let ghost before = views(blocks@);
        let ghost held = self@;
        match blocks.pop() {
            Some(ToolResultContent::Text(mut block)) => {
                append(&mut block.text, delta);
                blocks.push(ToolResultContent::Text(block));
                assert(text_appended(before, delta@, views(blocks@))) by {
                    assert(views(blocks@) =~= before.update(
                        before.len() - 1,
                        ResultContentView::Text(
                            TextView {
                                text: before.last()->Text_0.text + delta@,
                                ..before.last()->Text_0
                            },
                        ),
                    ));
                }
            },
            Some(block) => {
                blocks.push(block);
                blocks.push(ToolResultContent::Text(TextBlock::new(delta)));
                assert(views(blocks@).drop_last() =~= before);
            },
            None => {
                blocks.push(ToolResultContent::Text(TextBlock::new(delta)));
                assert(views(blocks@).drop_last() =~= before);
            },
        }
        self.output = ToolResultOutput::Blocks(blocks);
    }

    /// Appends multimodal data to the structured output.
    pub fn append_data(&mut self, block: DataBlock)
        ensures
            final(self)@ == (ToolResultView { output: final(self)@.output, ..old(self)@ }),
            exists|before: Seq<ResultContentView>| #[trigger]
                structured_form(old(self)@.output, before) && final(self)@.output
                    == OutputView::Blocks(before.push(ResultContentView::Data(block@))),
    {
        let mut blocks = self.take_output_blocks();
        let ghost before = views(blocks@);
        blocks.push(ToolResultContent::Data(block));
        assert(views(blocks@) =~= before.push(ResultContentView::Data(block@)));
        self.output = ToolResultOutput::Blocks(blocks);
    }

    /// Replaces the result metadata.
    pub fn with_metadata(self, metadata: Metadata) -> (block: ToolResultBlock)
        ensures
            block@ == (ToolResultView { metadata: metadata@, ..self@ }),
    {
        let mut block = self;
        block.metadata = metadata;
        block
    }

    /// Replaces the output and keeps everything else.
    pub fn with_output(self, output: ToolResultOutput) -> (block: ToolResultBlock)
        ensures
            block@ == (ToolResultView { output: output@, ..self@ }),
    {
        let mut block = self;
        block.output = output;
        block
    }

    /// Marks this result as finished with a terminal state.
    pub fn finish(&mut self, state: ToolResultState) -> (result: Result<(), ToolResultError>)
        ensures
            match result {
                Ok(()) => state != ToolResultState::Running && final(self)@ == (ToolResultView {
                    state,
                    finished_at: final(self)@.finished_at,
                    ..old(self)@
                }) && (final(self)@.finished_at matches Some(time) && is_timestamp(time)),
                Err(error) => state == ToolResultState::Running && error
                    == ToolResultError::NonTerminalState && final(self)@ == old(self)@,
            },
    {
        if !state.is_terminal() {
            return Err(ToolResultError::NonTerminalState);
        }
        self.state = state;
        self.finished_at = Some(generate_timestamp());
        Ok(())
    }

    /// Takes the output out in its structured form.
    fn take_output_blocks(&mut self) -> (blocks: Vec<ToolResultContent>)
        ensures
            structured_form(old(self)@.output, views(blocks@)),
            final(self)@ == (ToolResultView { output: final(self)@.output, ..old(self)@ }),
    {
        let mut output = ToolResultOutput::Blocks(Vec::new());
        std::mem::swap(&mut self.output, &mut output);
        match output {
            ToolResultOutput::Blocks(blocks) => blocks,
            ToolResultOutput::Text(text) => {
                let mut blocks: Vec<ToolResultContent> = Vec::new();
                if !text.as_str().is_empty() {
                    blocks.push(ToolResultContent::Text(TextBlock::new(text.as_str())));
                }
                blocks
            },
        }
    }
}

/// Accepts an identifier and a name that are not blank.
pub fn validate_tool_result_identity(id: &str, name: &str) -> (result: Result<(), ToolResultError>)
    ensures
        match result {
            Ok(()) => result_identity_error(id@, name@) is None,
            Err(error) => result_identity_error(id@, name@) == Some(error),
        },
{
    if is_blank(id) {
        Err(ToolResultError::EmptyId)
    } else if is_blank(name) {
        Err(ToolResultError::EmptyName)
    } else {
        Ok(())
    }
}

} // verus!
