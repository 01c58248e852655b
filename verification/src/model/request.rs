//! Provider-neutral chat requests and generation options.
use vstd::prelude::*;

use crate::json::{schema_root, Json, JsonView};
use crate::message::msg::{Msg, MsgView};
use crate::message::Metadata;
use crate::text::{blank, is_blank};
use crate::view::{view_option, views};

verus! {

/// Provider-neutral generation parameters.
#[derive(Debug, PartialEq, Eq)]
pub struct GenerateOptions {
    /// Sampling temperature as a JSON number, interpreted by the provider.
    pub temperature: Option<Json>,
    /// Maximum number of output tokens.
    pub max_tokens: Option<u32>,
    /// Nucleus sampling probability as a JSON number, interpreted by the provider.
    pub top_p: Option<Json>,
    /// Optional deterministic sampling seed.
    pub seed: Option<u64>,
    /// Sequences that stop generation.
    pub stop: Vec<String>,
    /// Additional provider-specific JSON options.
    pub extra: Metadata,
}

/// What generation options hold.
#[verifier::ext_equal]
pub struct OptionsView {
    pub temperature: Option<JsonView>,
    pub max_tokens: Option<u32>,
    pub top_p: Option<JsonView>,
    pub seed: Option<u64>,
    pub stop: Seq<Seq<char>>,
    pub extra: Map<Seq<char>, JsonView>,
}

impl View for GenerateOptions {
    type V = OptionsView;

    open spec fn view(&self) -> OptionsView {
        OptionsView {
            temperature: view_option(self.temperature),
            max_tokens: self.max_tokens,
            top_p: view_option(self.top_p),
            seed: self.seed,
            stop: views(self.stop@),
            extra: self.extra@,
        }
    }
}

impl Clone for GenerateOptions {
    fn clone(&self) -> (copied: GenerateOptions)
        ensures
            copied@ == self@,
    {
        let stop = self.stop.clone();
        assert(views(stop@) =~= views(self.stop@));
        GenerateOptions {
            temperature: copy_json_option(&self.temperature),
            max_tokens: self.max_tokens,
            top_p: copy_json_option(&self.top_p),
            seed: self.seed,
            stop,
            extra: self.extra.clone(),
        }
    }
}

/// A copy of an optional value.
pub fn copy_json_option(value: &Option<Json>) -> (copied: Option<Json>)
    ensures
        view_option(copied) == view_option(*value),
{
    match value {
        Some(json) => Some(json.clone()),
        None => None,
    }
}

/// No options at all.
pub open spec fn no_options() -> OptionsView {
    OptionsView {
        temperature: None,
        max_tokens: None,
        top_p: None,
        seed: None,
        stop: Seq::empty(),
        extra: Map::empty(),
    }
}

impl Default for GenerateOptions {
    fn default() -> (options: GenerateOptions)
        ensures
            options@ == no_options(),
    {
        let stop: Vec<String> = Vec::new();
        assert(views(stop@) =~= Seq::<Seq<char>>::empty());
        GenerateOptions {
            temperature: None,
            max_tokens: None,
            top_p: None,
            seed: None,
            stop,
            extra: Metadata::new(),
        }
    }
}

impl GenerateOptions {
    /// Creates empty generation options.
    pub fn new() -> (options: GenerateOptions)
        ensures
            options@ == no_options(),
    {
        GenerateOptions::default()
    }

    /// Sets the sampling temperature.
    pub fn with_temperature(self, temperature: Json) -> (options: GenerateOptions)
        ensures
            options@ == (OptionsView { temperature: Some(temperature@), ..self@ }),
    {
        let mut options = self;
        options.temperature = Some(temperature);
        options
    }

    /// Sets the maximum output token count.
    pub fn with_max_tokens(self, max_tokens: u32) -> (options: GenerateOptions)
        ensures
            options@ == (OptionsView { max_tokens: Some(max_tokens), ..self@ }),
    {
        let mut options = self;
        options.max_tokens = Some(max_tokens);
        options
    }

    /// Sets nucleus sampling probability.
    pub fn with_top_p(self, top_p: Json) -> (options: GenerateOptions)
        ensures
            options@ == (OptionsView { top_p: Some(top_p@), ..self@ }),
    {
        let mut options = self;
        options.top_p = Some(top_p);
        options
    }

    /// Sets a deterministic sampling seed.
    pub fn with_seed(self, seed: u64) -> (options: GenerateOptions)
        ensures
            options@ == (OptionsView { seed: Some(seed), ..self@ }),
    {
        let mut options = self;
        options.seed = Some(seed);
        options
    }

    /// Replaces the stop sequences.
    pub fn with_stop(self, stop: Vec<String>) -> (options: GenerateOptions)
        ensures
            options@ == (OptionsView { stop: views(stop@), ..self@ }),
    {
        let mut options = self;
        options.stop = stop;
        options
    }

    /// Replaces provider-specific options.
    pub fn with_extra(self, extra: Metadata) -> (options: GenerateOptions)
        ensures
            options@ == (OptionsView { extra: extra@, ..self@ }),
    {
        let mut options = self;
        options.extra = extra;
        options
    }
}

/// A tool schema made available to a chat model.
#[derive(Debug, PartialEq, Eq)]
pub struct ToolDefinition {
    /// The model-visible tool name.
    pub name: String,
    /// A model-visible explanation of what the tool does.
    pub description: String,
    /// JSON Schema describing the tool arguments.
    pub input_schema: Json,
}

/// What a tool definition holds.
#[verifier::ext_equal]
pub struct ToolView {
    pub name: Seq<char>,
    pub description: Seq<char>,
    pub input_schema: JsonView,
}

impl View for ToolDefinition {
    type V = ToolView;

    open spec fn view(&self) -> ToolView {
        ToolView {
            name: self.name@,
            description: self.description@,
            input_schema: self.input_schema@,
        }
    }
}

impl Clone for ToolDefinition {
    fn clone(&self) -> (copied: ToolDefinition)
        ensures
            copied@ == self@,
    {
        ToolDefinition {
            name: self.name.clone(),
            description: self.description.clone(),
            input_schema: self.input_schema.clone(),
        }
    }
}

/// What is wrong with a tool definition, if anything.
pub open spec fn definition_error(name: Seq<char>, input_schema: JsonView) -> Option<
    ChatRequestError,
> {
    if blank(name) {
        Some(ChatRequestError::EmptyToolName)
    } else if !schema_root(input_schema) {
        Some(ChatRequestError::InvalidSchema)
    } else {
        None
    }
}

impl ToolDefinition {
    /// Creates a tool definition.
    pub fn new(name: &str, description: &str, input_schema: Json) -> (result: Result<
        ToolDefinition,
        ChatRequestError,
    >)
        ensures
            match result {
                Ok(tool) => definition_error(name@, input_schema@) is None && tool@ == (ToolView {
                    name: name@,
                    description: description@,
                    input_schema: input_schema@,
                }),
                Err(error) => definition_error(name@, input_schema@) == Some(error),
            },
    {
        if is_blank(name) {
            return Err(ChatRequestError::EmptyToolName);
        }
        match validate_schema(&input_schema) {
            Err(error) => Err(error),
            Ok(()) => Ok(
                ToolDefinition {
                    name: name.to_owned(),
                    description: description.to_owned(),
                    input_schema,
                },
            ),
        }
    }
}

/// Input passed to a chat model.
#[derive(Debug, PartialEq, Eq)]
pub struct ChatRequest {
    /// Conversation messages supplied to the model.
    pub messages: Vec<Msg>,
    /// Provider-neutral generation parameters.
    pub options: GenerateOptions,
    /// Tools available to the model.
    pub tools: Vec<ToolDefinition>,
    /// Requested structured-output JSON Schema.
    pub structured_output_schema: Option<Json>,
}

/// What a chat request holds.
#[verifier::ext_equal]
pub struct RequestView {
    pub messages: Seq<MsgView>,
    pub options: OptionsView,
    pub tools: Seq<ToolView>,
    pub structured_output_schema: Option<JsonView>,
}

impl View for ChatRequest {
    type V = RequestView;

    open spec fn view(&self) -> RequestView {
        RequestView {
            messages: views(self.messages@),
            options: self.options@,
            tools: views(self.tools@),
            structured_output_schema: view_option(self.structured_output_schema),
        }
    }
}

impl Clone for ChatRequest {
    fn clone(&self) -> (copied: ChatRequest)
        ensures
            copied@ == self@,
    {
        let messages = self.messages.clone();
        let tools = self.tools.clone();
        assert(views(messages@) =~= views(self.messages@));
        assert(views(tools@) =~= views(self.tools@));
        ChatRequest {
            messages,
            options: self.options.clone(),
            tools,
            structured_output_schema: copy_json_option(&self.structured_output_schema),
        }
    }
}

impl ChatRequest {
    /// Creates a request from conversation messages.
    pub fn new(messages: Vec<Msg>) -> (request: ChatRequest)
        ensures
            request@ == (RequestView {
                messages: views(messages@),
                options: no_options(),
                tools: Seq::empty(),
                structured_output_schema: None,
            }),
    {
        let tools: Vec<ToolDefinition> = Vec::new();
        assert(views(tools@) =~= Seq::<ToolView>::empty());
        ChatRequest {
            messages,
            options: GenerateOptions::default(),
            tools,
            structured_output_schema: None,
        }
    }

    /// Creates a request from stored parts, with a schema root as its schema.
    pub fn from_parts(
        messages: Vec<Msg>,
        options: GenerateOptions,
        tools: Vec<ToolDefinition>,
        structured_output_schema: Option<Json>,
    ) -> (result: Result<ChatRequest, ChatRequestError>)
        ensures
            match result {
                Ok(request) => request@ == (RequestView {
                    messages: views(messages@),
                    options: options@,
                    tools: views(tools@),
                    structured_output_schema: view_option(structured_output_schema),
                }) && (structured_output_schema is Some ==> schema_root(
                    structured_output_schema->0@,
                )),
                Err(error) => error == ChatRequestError::InvalidSchema
                    && structured_output_schema is Some && !schema_root(
                    structured_output_schema->0@,
                ),
            },
    {
        if let Some(schema) = &structured_output_schema {
            match validate_schema(schema) {
                Err(error) => {
                    return Err(error);
                },
                Ok(()) => {},
            }
        }
        Ok(ChatRequest { messages, options, tools, structured_output_schema })
    }

    /// Replaces the generation options.
    pub fn with_options(self, options: GenerateOptions) -> (request: ChatRequest)
        ensures
            request@ == (RequestView { options: options@, ..self@ }),
    {
        let mut request = self;
        request.options = options;
        request
    }

    /// Replaces the available tools.
    pub fn with_tools(self, tools: Vec<ToolDefinition>) -> (request: ChatRequest)
        ensures
            request@ == (RequestView { tools: views(tools@), ..self@ }),
    {
        let mut request = self;
        request.tools = tools;
        request
    }

    /// Requests output conforming to a JSON Schema.
    pub fn with_structured_output_schema(self, schema: Json) -> (result: Result<
        ChatRequest,
        ChatRequestError,
    >)
        ensures
            match result {
                Ok(request) => schema_root(schema@) && request@ == (RequestView {
                    structured_output_schema: Some(schema@),
                    ..self@
                }),
                Err(error) => !schema_root(schema@) && error == ChatRequestError::InvalidSchema,
            },
    {
        match validate_schema(&schema) {
            Err(error) => Err(error),
            Ok(()) => {
                let mut request = self;
                request.structured_output_schema = Some(schema);
                Ok(request)
            },
        }
    }
}

/// An error returned while constructing a chat request.
#[derive(Clone, Copy, Debug, PartialEq, Eq, Structural)]
pub enum ChatRequestError {
    /// A tool definition used a blank name.
    EmptyToolName,
    /// A JSON Schema root was neither an object nor a boolean.
    InvalidSchema,
}

/// What a request error says.
pub open spec fn request_error_text(error: ChatRequestError) -> Seq<char> {
    match error {
        ChatRequestError::EmptyToolName => "tool name cannot be empty"@,
        ChatRequestError::InvalidSchema => "JSON Schema root must be an object or boolean"@,
    }
}

impl ChatRequestError {
    /// What the error says.
    pub fn to_string(&self) -> (text: String)
        ensures
            text@ == request_error_text(*self),
    {
        match self {
            ChatRequestError::EmptyToolName => "tool name cannot be empty".to_owned(),
            ChatRequestError::InvalidSchema => "JSON Schema root must be an object or boolean".to_owned(),
        }
    }
}

/// Accepts a JSON Schema root: an object or a boolean.
pub fn validate_schema(schema: &Json) -> (result: Result<(), ChatRequestError>)
    ensures
        match result {
            Ok(()) => schema_root(schema@),
            Err(error) => !schema_root(schema@) && error == ChatRequestError::InvalidSchema,
        },
{
    match schema {
        Json::Object(_) => Ok(()),
        Json::Bool(_) => Ok(()),
        _ => Err(ChatRequestError::InvalidSchema),
    }
}

} // verus!
