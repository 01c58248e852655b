//! Streaming structured-output content blocks.
use vstd::prelude::*;

use super::{generate_id, generate_timestamp, is_generated_id, is_timestamp};
use crate::json::{json_text, parsed_json, plain, reads_as, schema_root, Json, JsonView};
use crate::text::{append, concat2, text_option};

verus! {

/// The lifecycle state of structured model output.
#[derive(Clone, Copy, Debug, PartialEq, Eq, Hash, Structural)]
pub enum StructuredOutputState {
    /// JSON text is still arriving from the model.
    Streaming,
    /// The accumulated output is complete and valid JSON.
    Complete,
}

impl Default for StructuredOutputState {
    fn default() -> (state: StructuredOutputState)
        ensures
            state == StructuredOutputState::Streaming,
    {
        StructuredOutputState::Streaming
    }
}

/// The name of a structured-output state.
pub open spec fn structured_state_text(state: StructuredOutputState) -> Seq<char> {
    match state {
        StructuredOutputState::Streaming => "streaming"@,
        StructuredOutputState::Complete => "complete"@,
    }
}

impl StructuredOutputState {
    /// The name of the state.
    pub fn as_str(self) -> (name: &'static str)
        ensures
            name@ == structured_state_text(self),
    {
        match self {
            StructuredOutputState::Streaming => "streaming",
            StructuredOutputState::Complete => "complete",
        }
    }

    /// The name of the state.
    pub fn to_string(&self) -> (name: String)
        ensures
            name@ == structured_state_text(*self),
    {
        self.as_str().to_owned()
    }
}

/// An error returned when constructing or updating structured output.
#[derive(Debug, PartialEq, Eq)]
pub enum StructuredOutputError {
    /// A JSON Schema root was neither an object nor a boolean.
    InvalidSchema,
    /// Completed output was not valid JSON, with the reader's message.
    InvalidOutput(String),
    /// A streaming update was attempted after completion.
    AlreadyComplete,
}

impl Clone for StructuredOutputError {
    fn clone(&self) -> (copied: StructuredOutputError)
        ensures
            copied == self,
    {
        match self {
            StructuredOutputError::InvalidSchema => StructuredOutputError::InvalidSchema,
            StructuredOutputError::InvalidOutput(message) => StructuredOutputError::InvalidOutput(
                message.clone(),
            ),
            StructuredOutputError::AlreadyComplete => StructuredOutputError::AlreadyComplete,
        }
    }
}

/// What a structured-output error holds.
#[verifier::ext_equal]
pub enum StructuredErrorView {
    InvalidSchema,
    InvalidOutput(Seq<char>),
    AlreadyComplete,
}

impl View for StructuredOutputError {
    type V = StructuredErrorView;

    open spec fn view(&self) -> StructuredErrorView {
        match self {
            StructuredOutputError::InvalidSchema => StructuredErrorView::InvalidSchema,
            StructuredOutputError::InvalidOutput(message) => StructuredErrorView::InvalidOutput(
                message@,
            ),
            StructuredOutputError::AlreadyComplete => StructuredErrorView::AlreadyComplete,
        }
    }
}

/// What a structured-output error says.
pub open spec fn structured_error_text(error: StructuredErrorView) -> Seq<char> {
    match error {
        StructuredErrorView::InvalidSchema => "JSON Schema root must be an object or boolean"@,
        StructuredErrorView::InvalidOutput(message) => "invalid structured output JSON: "@
            + message,
        StructuredErrorView::AlreadyComplete => "structured output is already complete"@,
    }
}

impl StructuredOutputError {
    /// What the error says.
    pub fn to_string(&self) -> (text: String)
        ensures
            text@ == structured_error_text(self@),
    {
        match self {
            StructuredOutputError::InvalidSchema => "JSON Schema root must be an object or boolean".to_owned(),
            StructuredOutputError::InvalidOutput(message) => concat2(
                "invalid structured output JSON: ",
                message.as_str(),
            ),
            StructuredOutputError::AlreadyComplete => "structured output is already complete".to_owned(),
        }
    }
}

/// JSON output produced according to a requested JSON Schema.
///
/// The output is stored as raw text so that incomplete JSON fragments can be
/// preserved while a model response is streaming. [`StructuredOutputBlock::finish`]
/// validates the accumulated text as JSON; whether it fits the schema is left to
/// the model layer.
#[derive(Debug, PartialEq, Eq)]
pub struct StructuredOutputBlock {
    pub(crate) schema: Json,
    pub(crate) output: String,
    pub(crate) state: StructuredOutputState,
    /// The unique block identifier.
    pub id: String,
    /// The local creation time in ISO 8601 format.
    pub created_at: String,
    /// The completion time, when available.
    pub finished_at: Option<String>,
}

/// What structured output holds.
#[verifier::ext_equal]
pub struct StructuredView {
    pub schema: JsonView,
    pub output: Seq<char>,
    pub state: StructuredOutputState,
    pub id: Seq<char>,
    pub created_at: Seq<char>,
    pub finished_at: Option<Seq<char>>,
}

impl View for StructuredOutputBlock {
    type V = StructuredView;

    open(crate) spec fn view(&self) -> StructuredView {
        StructuredView {
            schema: self.schema@,
            output: self.output@,
            state: self.state,
            id: self.id@,
            created_at: self.created_at@,
            finished_at: text_option(self.finished_at),
        }
    }
}

impl Clone for StructuredOutputBlock {
    fn clone(&self) -> (copied: StructuredOutputBlock)
        ensures
            copied@ == self@,
    {
        StructuredOutputBlock {
            schema: self.schema.clone(),
            output: self.output.clone(),
            state: self.state,
            id: self.id.clone(),
            created_at: self.created_at.clone(),
            finished_at: self.finished_at.clone(),
        }
    }
}

/// Whether a block is new structured output that still streams.
pub open spec fn is_new_structured(block: StructuredView, schema: JsonView) -> bool {
    &&& block.schema == schema
    &&& block.output == Seq::<char>::empty()
    &&& block.state == StructuredOutputState::Streaming
    &&& is_generated_id(block.id)
    &&& is_timestamp(block.created_at)
    &&& block.finished_at is None
}

/// Whether a block is new structured output that is complete.
pub open spec fn is_complete_structured(
    block: StructuredView,
    schema: JsonView,
    output: Seq<char>,
) -> bool {
    &&& block.schema == schema
    &&& block.output == output
    &&& block.state == StructuredOutputState::Complete
    &&& is_generated_id(block.id)
    &&& is_timestamp(block.created_at)
    &&& block.finished_at matches Some(time) && is_timestamp(time)
}

/// Whether `after` is `before` with its output accepted as complete.
pub open spec fn structured_finished(before: StructuredView, after: StructuredView) -> bool {
    &&& after == (StructuredView {
        state: StructuredOutputState::Complete,
        finished_at: after.finished_at,
        ..before
    })
    &&& after.finished_at matches Some(time) && is_timestamp(time)
}

/// What is wrong with an output that is to be complete, if anything.
pub open spec fn output_error(output: Seq<char>) -> Option<StructuredErrorView> {
    match parsed_json(output) {
        Err(fault) => Some(StructuredErrorView::InvalidOutput(fault)),
        Ok(_) => None,
    }
}

/// What stops a block from being finished, if anything.
pub open spec fn finish_error(block: StructuredView) -> Option<StructuredErrorView> {
    if block.state == StructuredOutputState::Complete {
        Some(StructuredErrorView::AlreadyComplete)
    } else {
        output_error(block.output)
    }
}

impl StructuredOutputBlock {
    /// Creates an empty block whose JSON output will arrive incrementally.
    pub fn streaming(schema: Json) -> (result: Result<StructuredOutputBlock, StructuredOutputError>)
        ensures
            match result {
                Ok(block) => schema_root(schema@) && is_new_structured(block@, schema@),
                Err(error) => !schema_root(schema@) && error
                    == StructuredOutputError::InvalidSchema,
            },
    {
        match validate_schema(&schema) {
            Err(error) => Err(error),
            Ok(()) => Ok(
                StructuredOutputBlock {
                    schema,
                    output: String::new(),
                    state: StructuredOutputState::Streaming,
                    id: generate_id(),
                    created_at: generate_timestamp(),
                    finished_at: None,
                },
            ),
        }
    }

    /// Creates a completed block from a JSON value.
    pub fn complete(schema: Json, output: Json) -> (result: Result<
        StructuredOutputBlock,
        StructuredOutputError,
    >)
        ensures
            match result {
                Ok(block) => schema_root(schema@) && is_complete_structured(
                    block@,
                    schema@,
                    json_text(output@),
                ) && (plain(output@, 127) ==> reads_as(block@.output, output@)),
                Err(error) => !schema_root(schema@) && error
                    == StructuredOutputError::InvalidSchema,
            },
    {
        match StructuredOutputBlock::streaming(schema) {
            Err(error) => Err(error),
            Ok(mut block) => {
                block.output = output.to_text();
                block.state = StructuredOutputState::Complete;
                block.finished_at = Some(generate_timestamp());
                Ok(block)
            },
        }
    }

    /// Creates a block from stored parts: the schema must be a schema root, and
    /// the output of a complete block must be valid JSON.
    pub fn from_parts(
        schema: Json,
        output: String,
        state: StructuredOutputState,
        id: String,
        created_at: String,
        finished_at: Option<String>,
    ) -> (result: Result<StructuredOutputBlock, StructuredOutputError>)
        ensures
            match result {
                Ok(block) => schema_root(schema@) && (state == StructuredOutputState::Complete
                    ==> parsed_json(output@) is Ok) && block@ == (StructuredView {
                    schema: schema@,
                    output: output@,
                    state,
                    id: id@,
                    created_at: created_at@,
                    finished_at: text_option(finished_at),
                }),
                Err(error) => if !schema_root(schema@) {
                    error == StructuredOutputError::InvalidSchema
                } else {
                    state == StructuredOutputState::Complete && output_error(output@) == Some(error@)
                },
            },
    {
        match validate_schema(&schema) {
            Err(error) => Err(error),
            Ok(()) => {
                let block = StructuredOutputBlock {
                    schema,
                    output,
                    state,
                    id,
                    created_at,
                    finished_at,
                };
                match state {
                    StructuredOutputState::Streaming => Ok(block),
                    StructuredOutputState::Complete => match block.parsed_output() {
                        Err(error) => Err(error),
                        Ok(_) => Ok(block),
                    },
                }
            },
        }
    }

    /// The requested JSON Schema.
    pub fn schema(&self) -> (schema: &Json)
        ensures
            schema@ == self@.schema,
    {
        &self.schema
    }

    /// The raw JSON accumulated so far.
    pub fn raw_output(&self) -> (output: &str)
        ensures
            output@ == self@.output,
    {
        self.output.as_str()
    }

    /// The current lifecycle state.
    pub fn state(&self) -> (state: StructuredOutputState)
        ensures
            state == self@.state,
    {
        self.state
    }

    /// Parses the current output as JSON.
    pub fn parsed_output(&self) -> (result: Result<Json, StructuredOutputError>)
        ensures
            match result {
                Ok(json) => reads_as(self@.output, json@),
                Err(error) => output_error(self@.output) == Some(error@),
            },
    {
        match Json::parse(self.output.as_str()) {
            Ok(json) => Ok(json),
            Err(message) => Err(StructuredOutputError::InvalidOutput(message)),
        }
    }

    /// Appends a raw JSON fragment received from a streaming model response.
    pub fn append_output_delta(&mut self, delta: &str) -> (result: Result<
        (),
        StructuredOutputError,
    >)
        ensures
            match result {
                Ok(()) => old(self)@.state == StructuredOutputState::Streaming && final(self)@ == (
                StructuredView { output: old(self)@.output + delta@, ..old(self)@ }),
                Err(error) => old(self)@.state == StructuredOutputState::Complete && error
                    == StructuredOutputError::AlreadyComplete && final(self)@ == old(self)@,
            },
    {
        if matches!(self.state, StructuredOutputState::Complete) {
            return Err(StructuredOutputError::AlreadyComplete);
        }
        append(&mut self.output, delta);
        Ok(())
    }

    /// Validates the accumulated JSON and marks the block complete.
    pub fn finish(&mut self) -> (result: Result<(), StructuredOutputError>)
        ensures
            match result {
                Ok(()) => finish_error(old(self)@) is None && structured_finished(
                    old(self)@,
                    final(self)@,
                ),
                Err(error) => final(self)@ == old(self)@ && finish_error(old(self)@) == Some(
                    error@,
                ),
            },
    {
        if matches!(self.state, StructuredOutputState::Complete) {
            return Err(StructuredOutputError::AlreadyComplete);
        }
        match self.parsed_output() {
            Err(error) => Err(error),
            Ok(_) => {
                self.state = StructuredOutputState::Complete;
                self.finished_at = Some(generate_timestamp());
                Ok(())
            },
        }
    }
}

/// Accepts a JSON Schema root: an object or a boolean.
pub fn validate_schema(schema: &Json) -> (result: Result<(), StructuredOutputError>)
    ensures
        match result {
            Ok(()) => schema_root(schema@),
            Err(error) => !schema_root(schema@) && error == StructuredOutputError::InvalidSchema,
        },
{
    match schema {
        Json::Object(_) => Ok(()),
        Json::Bool(_) => Ok(()),
        _ => Err(StructuredOutputError::InvalidSchema),
    }
}

} // verus!
