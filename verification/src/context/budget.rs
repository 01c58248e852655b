//! Per-request context-window budgeting (not cumulative billing limits).
use std::sync::Arc;
use vstd::prelude::*;

use super::{
    count_turns, kept_from, lemma_keep_all, lemma_kept_len, selected, selection_start, turn_count,
    ContextPolicy, RecentTurns,
};
use crate::json::{json_text, json_views, Json, JsonMap, JsonView};
use crate::message::content::{BlockView, ContentBlock};
use crate::message::encode::{
    blocks_json, encode_blocks, lemma_array_view, put, put_text,
};
use crate::message::msg::{Msg, MsgView};
use crate::message::role::role_text;
use crate::message::tool_result::{OutputView, ToolResultContent, ToolResultOutput};
use crate::model::openai::wire::output_has_data;
use crate::model::request::{ChatRequest, OptionsView, RequestView, ToolDefinition, ToolView};
use crate::text::{append, byte_len, concat2, decimal, decimal_text};
use crate::view::views;

verus! {

/// Whether a counter estimates or exactly tokenizes its supported model input.
#[derive(Clone, Copy, Debug, PartialEq, Eq, Structural)]
pub enum TokenCountAccuracy {
    /// An approximation, not a guarantee about provider token usage.
    Estimated,
    /// Exact for the model/encoding supported by the counter implementation.
    Exact,
}

/// The name of an accuracy.
pub open spec fn accuracy_text(accuracy: TokenCountAccuracy) -> Seq<char> {
    match accuracy {
        TokenCountAccuracy::Estimated => "Estimated"@,
        TokenCountAccuracy::Exact => "Exact"@,
    }
}

impl TokenCountAccuracy {
    /// The name of the accuracy.
    pub fn as_str(self) -> (name: &'static str)
        ensures
            name@ == accuracy_text(self),
    {
        match self {
            TokenCountAccuracy::Estimated => "Estimated",
            TokenCountAccuracy::Exact => "Exact",
        }
    }
}

/// Input token count and its declared accuracy.
#[derive(Clone, Copy, Debug, PartialEq, Eq, Structural)]
pub struct TokenCount {
    /// Number of input tokens; excludes reserved output tokens.
    pub tokens: u64,
    /// Whether the counter used a heuristic or model-specific tokenizer.
    pub accuracy: TokenCountAccuracy,
}

/// Configuration, counting, or context-window overflow failure.
#[derive(Debug, PartialEq, Eq)]
pub enum TokenBudgetError {
    /// Reservation must be positive and smaller than the context window.
    InvalidConfiguration,
    /// Explicit output limit must be positive and no larger than the reservation.
    InvalidOutputLimit {
        /// Configured generation limit.
        requested: u32,
        /// Available output reservation.
        reserved: u32,
    },
    /// The default counter cannot price multimodal input.
    UnsupportedContent,
    /// An application counter failed; do not add secrets or message content.
    Counter(String),
    /// Even the protected history exceeds the input allowance.
    Exceeded {
        /// Count of the smallest retained request and its accuracy.
        input: TokenCount,
        /// Maximum allowed input tokens.
        input_limit: u64,
        /// Output space reserved within the window.
        reserved_output: u32,
    },
}

/// What a budget failure holds.
#[verifier::ext_equal]
pub enum BudgetErrorView {
    InvalidConfiguration,
    InvalidOutputLimit { requested: u32, reserved: u32 },
    UnsupportedContent,
    Counter(Seq<char>),
    Exceeded { input: TokenCount, input_limit: u64, reserved_output: u32 },
}

impl View for TokenBudgetError {
    type V = BudgetErrorView;

    open spec fn view(&self) -> BudgetErrorView {
        match self {
            TokenBudgetError::InvalidConfiguration => BudgetErrorView::InvalidConfiguration,
            TokenBudgetError::InvalidOutputLimit { requested, reserved } => BudgetErrorView::InvalidOutputLimit {
                requested: *requested,
                reserved: *reserved,
            },
            TokenBudgetError::UnsupportedContent => BudgetErrorView::UnsupportedContent,
            TokenBudgetError::Counter(message) => BudgetErrorView::Counter(message@),
            TokenBudgetError::Exceeded { input, input_limit, reserved_output } => BudgetErrorView::Exceeded {
                input: *input,
                input_limit: *input_limit,
                reserved_output: *reserved_output,
            },
        }
    }
}

impl Clone for TokenBudgetError {
    fn clone(&self) -> (copied: TokenBudgetError)
        ensures
            copied == self,
    {
        match self {
            TokenBudgetError::InvalidConfiguration => TokenBudgetError::InvalidConfiguration,
            TokenBudgetError::InvalidOutputLimit { requested, reserved } => TokenBudgetError::InvalidOutputLimit {
                requested: *requested,
                reserved: *reserved,
            },
            TokenBudgetError::UnsupportedContent => TokenBudgetError::UnsupportedContent,
            TokenBudgetError::Counter(message) => TokenBudgetError::Counter(message.clone()),
            TokenBudgetError::Exceeded { input, input_limit, reserved_output } => TokenBudgetError::Exceeded {
                input: *input,
                input_limit: *input_limit,
                reserved_output: *reserved_output,
            },
        }
    }
}

/// What a budget failure says.
pub open spec fn budget_error_text(error: BudgetErrorView) -> Seq<char> {
    match error {
        BudgetErrorView::InvalidConfiguration => "context window must exceed a positive output reservation"@,
        BudgetErrorView::InvalidOutputLimit { requested, reserved } => "output limit "@
            + decimal_text(requested as nat)
            + " must be positive and no larger than reserved output "@ + decimal_text(
            reserved as nat,
        ),
        BudgetErrorView::UnsupportedContent => "multimodal input requires a model-specific token counter"@,
        BudgetErrorView::Counter(message) => "token counter failed: "@ + message,
        BudgetErrorView::Exceeded { input, input_limit, reserved_output } => "protected context needs "@
            + decimal_text(input.tokens as nat) + " input tokens ("@ + accuracy_text(input.accuracy)
            + "), exceeding "@ + decimal_text(input_limit as nat) + "; "@ + decimal_text(
            reserved_output as nat,
        ) + " output tokens reserved"@,
    }
}

impl TokenBudgetError {
    /// What the error says.
    pub fn to_string(&self) -> (text: String)
        ensures
            text@ == budget_error_text(self@),
    {
        match self {
            TokenBudgetError::InvalidConfiguration => "context window must exceed a positive output reservation".to_owned(),
            TokenBudgetError::InvalidOutputLimit { requested, reserved } => {
                let mut text = "output limit ".to_owned();
                append(&mut text, decimal(*requested as u64).as_str());
                append(&mut text, " must be positive and no larger than reserved output ");
                append(&mut text, decimal(*reserved as u64).as_str());
                text
            },
            TokenBudgetError::UnsupportedContent => "multimodal input requires a model-specific token counter".to_owned(),
            TokenBudgetError::Counter(message) => concat2(
                "token counter failed: ",
                message.as_str(),
            ),
            TokenBudgetError::Exceeded { input, input_limit, reserved_output } => {
                let mut text = "protected context needs ".to_owned();
                append(&mut text, decimal(input.tokens).as_str());
                append(&mut text, " input tokens (");
                append(&mut text, input.accuracy.as_str());
                append(&mut text, "), exceeding ");
                append(&mut text, decimal(*input_limit).as_str());
                append(&mut text, "; ");
                append(&mut text, decimal(*reserved_output as u64).as_str());
                append(&mut text, " output tokens reserved");
                text
            },
        }
    }
}

/// Counts the entire request input, with system messages and tool schemas.
///
/// Implementations must be synchronous, deterministic, and perform no I/O. An
/// exact counter must account for the target model's actual wire formatting,
/// templates, schemas and supported modalities. An input that cannot be counted
/// reliably enough to use is an error.
pub trait TokenCounter {
    /// The count of a request.
    spec fn counted(&self, request: RequestView) -> Result<TokenCount, BudgetErrorView>;

    /// Counts input tokens, without generation output.
    fn count(&self, request: &ChatRequest) -> (result: Result<TokenCount, TokenBudgetError>)
        ensures
            count_view(result) == self.counted(request@),
    ;
}

/// A count with the view of its error.
pub open spec fn count_view(result: Result<TokenCount, TokenBudgetError>) -> Result<
    TokenCount,
    BudgetErrorView,
> {
    match result {
        Ok(count) => Ok(count),
        Err(error) => Err(error@),
    }
}

/// An offline heuristic: a third of the serialized input's UTF-8 bytes, rounded
/// up, plus 16.
///
/// It covers roles, names, content, tools, the structured-output schema and extra
/// provider options, and ignores message identifiers, timestamps, usage and
/// generation controls. It is neither a tokenizer nor a guaranteed upper bound.
/// Binary, image, audio and video content is rejected.
#[derive(Clone, Copy, Debug)]
pub struct HeuristicTokenCounter;

/// Whether a block holds data.
pub open spec fn block_has_data(block: BlockView) -> bool {
    match block {
        BlockView::Data(_) => true,
        BlockView::ToolResult(result) => output_has_data(result.output),
        _ => false,
    }
}

/// Whether a message holds data.
pub open spec fn message_has_data(msg: MsgView) -> bool {
    exists|i: int| 0 <= i < msg.content.len() && #[trigger] block_has_data(msg.content[i])
}

/// Whether a conversation holds data.
pub open spec fn messages_have_data(msgs: Seq<MsgView>) -> bool {
    exists|i: int| 0 <= i < msgs.len() && #[trigger] message_has_data(msgs[i])
}

/// What counts of a message: its role, name and content.
pub open spec fn counted_message(msg: MsgView) -> JsonView {
    JsonView::Object(
        map![
            "role"@ => JsonView::Text(role_text(msg.role)),
            "name"@ => JsonView::Text(msg.name),
            "content"@ => blocks_json(msg.content)
        ],
    )
}

/// What counts of a tool.
pub open spec fn counted_tool(tool: ToolView) -> JsonView {
    JsonView::Object(
        map![
            "name"@ => JsonView::Text(tool.name),
            "description"@ => JsonView::Text(tool.description),
            "input_schema"@ => tool.input_schema
        ],
    )
}

/// What counts of a request.
pub open spec fn counted_input(request: RequestView) -> JsonView {
    JsonView::Object(
        map![
            "messages"@ => JsonView::Array(
                request.messages.map_values(|msg: MsgView| counted_message(msg)),
            ),
            "tools"@ => JsonView::Array(
                request.tools.map_values(|tool: ToolView| counted_tool(tool)),
            ),
            "structured_output_schema"@ => match request.structured_output_schema {
                Some(schema) => schema,
                None => JsonView::Null,
            },
            "extra"@ => JsonView::Object(request.options.extra)
        ],
    )
}

/// A third of a number of bytes, rounded up, plus 16, up to the largest count.
pub open spec fn estimated_tokens(bytes: nat) -> u64 {
    let tokens = (bytes + 2) / 3 + 16;
    if tokens > u64::MAX {
        u64::MAX
    } else {
        tokens as u64
    }
}

/// The heuristic count of a request.
pub open spec fn heuristic_count(request: RequestView) -> Result<TokenCount, BudgetErrorView> {
    if messages_have_data(request.messages) {
        Err(BudgetErrorView::UnsupportedContent)
    } else {
        Ok(
            TokenCount {
                tokens: estimated_tokens(byte_len(json_text(counted_input(request)))),
                accuracy: TokenCountAccuracy::Estimated,
            },
        )
    }
}

/// Whether a block holds data.
fn holds_data(block: &ContentBlock) -> (result: bool)
    ensures
        result == block_has_data(block@),
{
    match block {
        ContentBlock::Data(_) => true,
        ContentBlock::ToolResult(result) => match result.output() {
            ToolResultOutput::Text(_) => false,
            ToolResultOutput::Blocks(blocks) => {
                let mut i: usize = 0;
                while i < blocks.len()
                    invariant
                        i <= blocks@.len(),
                        block@ == BlockView::ToolResult(result@),
                        result@.output == OutputView::Blocks(views(blocks@)),
                        forall|j: int| 0 <= j < i ==> !((#[trigger] blocks@[j])@ is Data),
                    decreases blocks@.len() - i,
                {
                    if matches!(blocks[i], ToolResultContent::Data(_)) {
                        assert(views(blocks@)[i as int] is Data);
                        return true;
                    }
                    i += 1;
                }
                assert forall|j: int| 0 <= j < blocks@.len() implies !(#[trigger] views(
                    blocks@,
                )[j] is Data) by {
                    assert(views(blocks@)[j] == blocks@[j]@);
                }
                false
            },
        },
        _ => false,
    }
}

/// Whether a conversation holds data.
pub fn has_data(messages: &[Msg]) -> (result: bool)
    ensures
        result == messages_have_data(views(messages@)),
{
    let ghost msgs = views(messages@);
    let mut i: usize = 0;
    while i < messages.len()
        invariant
            i <= messages@.len(),
            msgs == views(messages@),
            forall|j: int| 0 <= j < i ==> !#[trigger] message_has_data(msgs[j]),
        decreases messages@.len() - i,
    {
        let message = &messages[i];
        let ghost content = msgs[i as int].content;
        let mut k: usize = 0;
        while k < message.content.len()
            invariant
                k <= message.content@.len(),
                i < messages@.len(),
                msgs == views(messages@),
                content == msgs[i as int].content,
                content == views(message.content@),
                forall|j: int| 0 <= j < k ==> !#[trigger] block_has_data(content[j]),
            decreases message.content@.len() - k,
        {
            assert(content[k as int] == message.content@[k as int]@);
            if holds_data(&message.content[k]) {
                assert(message_has_data(msgs[i as int]));
                return true;
            }
            k += 1;
        }
        i += 1;
    }
    false
}

/// What counts of a message.
fn encode_counted_message(message: &Msg) -> (json: Json)
    ensures
        json@ == counted_message(message@),
{
    let mut map = JsonMap::new();
    put_text(&mut map, "role", message.role.as_str());
    put_text(&mut map, "name", message.name.as_str());
    put(&mut map, "content", encode_blocks(&message.content));
    Json::Object(map)
}

fn encode_counted_messages(messages: &Vec<Msg>) -> (json: Json)
    ensures
        json@ == JsonView::Array(
            views(messages@).map_values(|msg: MsgView| counted_message(msg)),
        ),
{
    let mut items: Vec<Json> = Vec::new();
    let mut i: usize = 0;
    while i < messages.len()
        invariant
            i <= messages@.len(),
            items@.len() == i,
            forall|j: int| 0 <= j < i ==> (#[trigger] items@[j])@ == counted_message(messages@[j]@),
        decreases messages@.len() - i,
    {
        items.push(encode_counted_message(&messages[i]));
        i += 1;
    }
    proof {
        lemma_array_view(items);
        assert(json_views(items@) =~= views(messages@).map_values(
            |msg: MsgView| counted_message(msg),
        ));
    }
    Json::Array(items)
}

fn encode_counted_tools(tools: &Vec<ToolDefinition>) -> (json: Json)
    ensures
        json@ == JsonView::Array(views(tools@).map_values(|tool: ToolView| counted_tool(tool))),
{
    let mut items: Vec<Json> = Vec::new();
    let mut i: usize = 0;
    while i < tools.len()
        invariant
            i <= tools@.len(),
            items@.len() == i,
            forall|j: int| 0 <= j < i ==> (#[trigger] items@[j])@ == counted_tool(tools@[j]@),
        decreases tools@.len() - i,
    {
        let mut map = JsonMap::new();
        put_text(&mut map, "name", tools[i].name.as_str());
        put_text(&mut map, "description", tools[i].description.as_str());
        put(&mut map, "input_schema", tools[i].input_schema.clone());
        items.push(Json::Object(map));
        i += 1;
    }
    proof {
        lemma_array_view(items);
        assert(json_views(items@) =~= views(tools@).map_values(
            |tool: ToolView| counted_tool(tool),
        ));
    }
    Json::Array(items)
}

/// The length of a text in UTF-8 bytes.
pub fn count_bytes(text: &str) -> (bytes: usize)
    ensures
        bytes == byte_len(text@),
{
    text.as_bytes().len()
}

/// The estimate for a number of bytes.
pub fn estimate(bytes: usize) -> (tokens: u64)
    ensures
        tokens == estimated_tokens(bytes as nat),
{
    let bytes: u64 = bytes as u64;
    let thirds: u64 = bytes / 3 + if bytes % 3 == 0 {
        0u64
    } else {
        1u64
    };
    thirds.saturating_add(16)
}

impl TokenCounter for HeuristicTokenCounter {
    open spec fn counted(&self, request: RequestView) -> Result<TokenCount, BudgetErrorView> {
        heuristic_count(request)
    }

    fn count(&self, request: &ChatRequest) -> (result: Result<TokenCount, TokenBudgetError>) {
        if has_data(request.messages.as_slice()) {
            return Err(TokenBudgetError::UnsupportedContent);
        }
        let mut input = JsonMap::new();
        put(&mut input, "messages", encode_counted_messages(&request.messages));
        put(&mut input, "tools", encode_counted_tools(&request.tools));
        put(
            &mut input,
            "structured_output_schema",
            match &request.structured_output_schema {
                Some(schema) => schema.clone(),
                None => Json::Null,
            },
        );
        put(&mut input, "extra", Json::Object(request.options.extra.clone()));
        let text = Json::Object(input).to_text();
        Ok(
            TokenCount {
                tokens: estimate(count_bytes(text.as_str())),
                accuracy: TokenCountAccuracy::Estimated,
            },
        )
    }
}

impl<C: TokenCounter> TokenCounter for Arc<C> {
    open spec fn counted(&self, request: RequestView) -> Result<TokenCount, BudgetErrorView> {
        (**self).counted(request)
    }

    fn count(&self, request: &ChatRequest) -> (result: Result<TokenCount, TokenBudgetError>) {
        (**self).count(request)
    }
}

/// Limits each model request to a context window with reserved output space.
///
/// Applied after the agent's context policy. Complete old user turns are removed
/// as needed; system messages and the current turn are never discarded. Tool
/// dependencies may force additional turns to remain. Stored history is untouched.
pub struct TokenBudget<C> {
    context_window: u64,
    reserved_output: u32,
    counter: C,
}

impl<C> TokenBudget<C> {
    /// The window exceeds a positive reservation.
    #[verifier::type_invariant]
    pub closed spec fn leaves_room(self) -> bool {
        0 < self.reserved_output < self.context_window
    }

    /// The total context window.
    pub closed spec fn spec_context_window(&self) -> u64 {
        self.context_window
    }

    /// The reserved output tokens.
    pub closed spec fn spec_reserved_output(&self) -> u32 {
        self.reserved_output
    }

    /// The input counter.
    pub closed spec fn spec_counter(&self) -> C {
        self.counter
    }

    /// The input allowance.
    pub open spec fn spec_input_limit(&self) -> u64 {
        (self.spec_context_window() - self.spec_reserved_output()) as u64
    }

    /// The total context window.
    pub fn context_window(&self) -> (tokens: u64)
        ensures
            tokens == self.spec_context_window(),
    {
        self.context_window
    }

    /// The reserved output tokens (also the default `max_tokens`).
    pub fn reserved_output(&self) -> (tokens: u32)
        ensures
            tokens == self.spec_reserved_output(),
    {
        self.reserved_output
    }

    /// The input allowance, without reserved output space.
    pub fn input_limit(&self) -> (tokens: u64)
        ensures
            tokens == self.spec_context_window() - self.spec_reserved_output(),
            tokens == self.spec_input_limit(),
            tokens > 0,
    {
        proof {
            use_type_invariant(self);
        }
        self.context_window - self.reserved_output as u64
    }

    /// Replaces the input counter with an application or model specific one.
    pub fn with_counter<D>(self, counter: D) -> (budget: TokenBudget<D>)
        ensures
            budget.spec_context_window() == self.spec_context_window(),
            budget.spec_reserved_output() == self.spec_reserved_output(),
            budget.spec_counter() == counter,
    {
        proof {
            use_type_invariant(&self);
        }
        TokenBudget {
            context_window: self.context_window,
            reserved_output: self.reserved_output,
            counter,
        }
    }

    /// Attaches a shared counter.
    pub fn with_shared_counter<D>(self, counter: Arc<D>) -> (budget: TokenBudget<Arc<D>>)
        ensures
            budget.spec_context_window() == self.spec_context_window(),
            budget.spec_reserved_output() == self.spec_reserved_output(),
            budget.spec_counter() == counter,
    {
        self.with_counter(counter)
    }
}

impl TokenBudget<HeuristicTokenCounter> {
    /// Creates a budget using the approximate offline counter.
    pub fn new(context_window: u64, reserved_output: u32) -> (result: Result<
        TokenBudget<HeuristicTokenCounter>,
        TokenBudgetError,
    >)
        ensures
            match result {
                Ok(budget) => 0 < reserved_output < context_window
                    && budget.spec_context_window() == context_window
                    && budget.spec_reserved_output() == reserved_output,
                Err(error) => !(0 < reserved_output < context_window) && error@
                    == BudgetErrorView::InvalidConfiguration,
            },
    {
        if reserved_output == 0 || context_window <= reserved_output as u64 {
            return Err(TokenBudgetError::InvalidConfiguration);
        }
        Ok(TokenBudget { context_window, reserved_output, counter: HeuristicTokenCounter })
    }
}

/// The output limit of a request: its own, or the reservation.
pub open spec fn output_limit(request: RequestView, reserved: u32) -> u32 {
    match request.options.max_tokens {
        Some(limit) => limit,
        None => reserved,
    }
}

/// A request with an output limit.
pub open spec fn with_output_limit(request: RequestView, limit: u32) -> RequestView {
    RequestView {
        options: OptionsView { max_tokens: Some(limit), ..request.options },
        ..request
    }
}

/// A request with other messages.
pub open spec fn with_messages(request: RequestView, messages: Seq<MsgView>) -> RequestView {
    RequestView { messages, ..request }
}

/// The request that fits once turns of the history behind the first messages are
/// cut until at most `turns` are kept, one after the other, starting from a request
/// that does not fit.
pub open spec fn cut_to_fit<C: TokenCounter>(
    counter: C,
    limit: u64,
    reserved: u32,
    head: Seq<MsgView>,
    history: Seq<MsgView>,
    request: RequestView,
    count: TokenCount,
    turns: nat,
) -> Result<RequestView, BudgetErrorView>
    decreases turns,
{
    if turns == 0 {
        Err(
            BudgetErrorView::Exceeded {
                input: count,
                input_limit: limit,
                reserved_output: reserved,
            },
        )
    } else {
        let messages = head + selected(history, turns);
        if messages == request.messages {
            cut_to_fit(
                counter,
                limit,
                reserved,
                head,
                history,
                request,
                count,
                (turns - 1) as nat,
            )
        } else {
            let next = with_messages(request, messages);
            match counter.counted(next) {
                Err(error) => Err(error),
                Ok(count) => if count.tokens <= limit {
                    Ok(next)
                } else {
                    cut_to_fit(
                        counter,
                        limit,
                        reserved,
                        head,
                        history,
                        next,
                        count,
                        (turns - 1) as nat,
                    )
                },
            }
        }
    }
}

/// What a budget makes of a request whose first messages are never cut.
pub open spec fn budgeted<C: TokenCounter>(
    counter: C,
    limit: u64,
    reserved: u32,
    request: RequestView,
    fixed: nat,
) -> Result<RequestView, BudgetErrorView> {
    let output = output_limit(request, reserved);
    if output == 0 || output > reserved {
        Err(BudgetErrorView::InvalidOutputLimit { requested: output, reserved })
    } else {
        let capped = with_output_limit(request, output);
        match counter.counted(capped) {
            Err(error) => Err(error),
            Ok(count) => if count.tokens <= limit {
                Ok(capped)
            } else {
                let history = request.messages.skip(fixed as int);
                let turns = turn_count(history);
                cut_to_fit(
                    counter,
                    limit,
                    reserved,
                    request.messages.take(fixed as int),
                    history,
                    capped,
                    count,
                    if turns == 0 {
                        0
                    } else {
                        (turns - 1) as nat
                    },
                )
            },
        }
    }
}

/// A request with the view of its error.
pub open spec fn budget_view(result: Result<ChatRequest, TokenBudgetError>) -> Result<
    RequestView,
    BudgetErrorView,
> {
    match result {
        Ok(request) => Ok(request@),
        Err(error) => Err(error@),
    }
}

/// Why a request does not fit as it stands, if it does not.
pub open spec fn untrimmed_fault<C: TokenCounter>(
    counter: C,
    limit: u64,
    reserved: u32,
    request: RequestView,
) -> Option<BudgetErrorView> {
    let output = output_limit(request, reserved);
    if output == 0 || output > reserved {
        Some(BudgetErrorView::InvalidOutputLimit { requested: output, reserved })
    } else {
        match counter.counted(with_output_limit(request, output)) {
            Err(error) => Some(error),
            Ok(count) => if count.tokens <= limit {
                None
            } else {
                Some(
                    BudgetErrorView::Exceeded {
                        input: count,
                        input_limit: limit,
                        reserved_output: reserved,
                    },
                )
            },
        }
    }
}

impl<C: TokenCounter> TokenBudget<C> {
    /// Accepts a request that fits as it stands, with all of its turns.
    pub fn check_without_trimming(&self, request: ChatRequest) -> (result: Result<
        (),
        TokenBudgetError,
    >)
        ensures
            match (result, untrimmed_fault(
                self.spec_counter(),
                self.spec_input_limit(),
                self.spec_reserved_output(),
                request@,
            )) {
                (Ok(()), None) => true,
                (Err(error), Some(fault)) => error@ == fault,
                _ => false,
            },
    {
        let mut current = request;
        let output: u32 = match current.options.max_tokens {
            Some(limit) => limit,
            None => self.reserved_output,
        };
        if output == 0 || output > self.reserved_output {
            return Err(
                TokenBudgetError::InvalidOutputLimit {
                    requested: output,
                    reserved: self.reserved_output,
                },
            );
        }
        current.options.max_tokens = Some(output);
        let limit: u64 = self.input_limit();
        match self.counter.count(&current) {
            Err(error) => Err(error),
            Ok(count) => {
                if count.tokens <= limit {
                    Ok(())
                } else {
                    Err(
                        TokenBudgetError::Exceeded {
                            input: count,
                            input_limit: limit,
                            reserved_output: self.reserved_output,
                        },
                    )
                }
            },
        }
    }

    /// Selects a fitting request without changing the source conversation.
    ///
    /// Sets `max_tokens` to the reservation if absent; preserves smaller explicit
    /// values, and rejects zero or larger values. Input is counted again after
    /// each whole-turn cut. On failure no model request should be sent.
    pub fn apply(&self, request: ChatRequest) -> (result: Result<ChatRequest, TokenBudgetError>)
        ensures
            budget_view(result) == budgeted(
                self.spec_counter(),
                self.spec_input_limit(),
                self.spec_reserved_output(),
                request@,
                0,
            ),
    {
        self.apply_keeping(request, 0)
    }

    /// Selects a fitting request whose first messages are never cut, such as the
    /// instructions and the summary of old history.
    pub fn apply_keeping(&self, request: ChatRequest, fixed: usize) -> (result: Result<
        ChatRequest,
        TokenBudgetError,
    >)
        requires
            fixed <= request@.messages.len(),
        ensures
            budget_view(result) == budgeted(
                self.spec_counter(),
                self.spec_input_limit(),
                self.spec_reserved_output(),
                request@,
                fixed as nat,
            ),
    {
        let mut current = request;
        let output: u32 = match current.options.max_tokens {
            Some(limit) => limit,
            None => self.reserved_output,
        };
        if output == 0 || output > self.reserved_output {
            return Err(
                TokenBudgetError::InvalidOutputLimit {
                    requested: output,
                    reserved: self.reserved_output,
                },
            );
        }
        current.options.max_tokens = Some(output);
        let limit: u64 = self.input_limit();
        let mut count = match self.counter.count(&current) {
            Err(error) => {
                return Err(error);
            },
            Ok(count) => count,
        };
        if count.tokens <= limit {
            return Ok(current);
        }
        let whole = current.messages.as_slice();
        let history = super::copy_messages(
            vstd::slice::slice_subrange(whole, fixed, whole.len()),
        );
        let ghost msgs = views(history@);
        let ghost head = current@.messages.take(fixed as int);
        assert(msgs =~= current@.messages.skip(fixed as int));
        let total = count_turns(history.as_slice(), history.len());
        assert(msgs.take(msgs.len() as int) =~= msgs);
        let mut turns: usize = if total == 0 {
            0
        } else {
            total - 1
        };
        let ghost mut start: int = 0;
        proof {
            lemma_keep_all(msgs, 0);
            assert(current@.messages =~= head + msgs);
        }
        while turns > 0
            invariant
                limit == self.spec_input_limit(),
                msgs == views(history@),
                head == request@.messages.take(fixed as int),
                fixed <= request@.messages.len(),
                current@.messages == head + kept_from(msgs, start),
                cut_to_fit(
                    self.counter,
                    limit,
                    self.reserved_output,
                    head,
                    msgs,
                    current@,
                    count,
                    turns as nat,
                ) == budgeted(self.spec_counter(), limit, self.spec_reserved_output(), request@, fixed as nat),
            decreases turns,
        {
            match RecentTurns::new(turns) {
                Err(_) => {
                    return Err(TokenBudgetError::InvalidConfiguration);
                },
                Ok(policy) => {
                    let mut selection = policy.select_messages(history.as_slice());
                    let ghost chosen = selection_start(msgs, turns as nat);
                    proof {
                        if start <= chosen {
                            lemma_kept_len(msgs, start, chosen);
                        } else {
                            lemma_kept_len(msgs, chosen, start);
                        }
                        assert(views(selection@).len() == selection@.len());
                        assert(current@.messages.len() == current.messages@.len());
                        assert((head + selected(msgs, turns as nat)).len() == fixed
                            + selection@.len());
                        if fixed + selection@.len() == current@.messages.len() {
                            assert(head + selected(msgs, turns as nat) == current@.messages);
                        }
                    }
                    if selection.len() != current.messages.len() - fixed {
                        let mut messages = super::copy_messages(
                            vstd::slice::slice_subrange(current.messages.as_slice(), 0, fixed),
                        );
                        let ghost first = views(messages@);
                        let ghost rest = views(selection@);
                        messages.append(&mut selection);
                        proof {
                            assert forall|i: int| 0 <= i < fixed implies #[trigger] first[i]
                                == head[i] by {
                                assert(first[i] == current@.messages[i]);
                            }
                            assert(first =~= head);
                            assert(views(messages@) =~= head + rest);
                        }
                        current.messages = messages;
                        proof {
                            start = chosen;
                        }
                        count = match self.counter.count(&current) {
                            Err(error) => {
                                return Err(error);
                            },
                            Ok(count) => count,
                        };
                        if count.tokens <= limit {
                            return Ok(current);
                        }
                    }
                },
            }
            turns -= 1;
        }
        Err(
            TokenBudgetError::Exceeded {
                input: count,
                input_limit: limit,
                reserved_output: self.reserved_output,
            },
        )
    }
}

/// Whether a request fits into an input allowance.
pub open spec fn fits<C: TokenCounter>(counter: C, limit: u64, request: RequestView) -> bool {
    counter.counted(request) matches Ok(count) && count.tokens <= limit
}

proof fn lemma_cut_to_fit<C: TokenCounter>(
    counter: C,
    limit: u64,
    reserved: u32,
    head: Seq<MsgView>,
    history: Seq<MsgView>,
    request: RequestView,
    count: TokenCount,
    turns: nat,
) -> (kept: nat)
    requires
        cut_to_fit(counter, limit, reserved, head, history, request, count, turns) is Ok,
        !fits(counter, limit, request),
    ensures
        0 < kept <= turns,
        ({
            let result = cut_to_fit(counter, limit, reserved, head, history, request, count, turns)->Ok_0;
            result == with_messages(request, head + selected(history, kept)) && fits(
                counter,
                limit,
                result,
            )
        }),
        forall|more: nat|
            kept < more <= turns ==> !#[trigger] fits(
                counter,
                limit,
                with_messages(request, head + selected(history, more)),
            ),
    decreases turns,
{
    let messages = head + selected(history, turns);
    let next = with_messages(request, messages);
    if messages == request.messages {
        assert(next == request);
        lemma_cut_to_fit(counter, limit, reserved, head, history, request, count, (turns - 1) as nat)
    } else {
        let counted = counter.counted(next)->Ok_0;
        if counted.tokens <= limit {
            turns
        } else {
            let kept = lemma_cut_to_fit(
                counter,
                limit,
                reserved,
                head,
                history,
                next,
                counted,
                (turns - 1) as nat,
            );
            assert forall|more: nat| kept < more <= turns implies !#[trigger] fits(
                counter,
                limit,
                with_messages(request, head + selected(history, more)),
            ) by {
                assert(with_messages(request, head + selected(history, more)) == with_messages(
                    next,
                    head + selected(history, more),
                ));
            }
            kept
        }
    }
}

/// A request that a budget lets through fits: its input is within the allowance
/// and its output limit within the reservation. Only its output limit is set and
/// old turns are left out, as few as suffice; the first messages stay.
pub proof fn budgeted_requests_fit<C: TokenCounter>(
    counter: C,
    limit: u64,
    reserved: u32,
    request: RequestView,
    fixed: nat,
) -> (kept: Option<nat>)
    requires
        budgeted(counter, limit, reserved, request, fixed) is Ok,
    ensures
        ({
            let result = budgeted(counter, limit, reserved, request, fixed)->Ok_0;
            let capped = with_output_limit(request, output_limit(request, reserved));
            let head = request.messages.take(fixed as int);
            let history = request.messages.skip(fixed as int);
            &&& fits(counter, limit, result)
            &&& result.options.max_tokens matches Some(output) && 0 < output <= reserved
            &&& match kept {
                None => result == capped,
                Some(turns) => 0 < turns < turn_count(history) && result == with_messages(
                    capped,
                    head + selected(history, turns),
                ) && forall|more: nat|
                    turns < more < turn_count(history) ==> !#[trigger] fits(
                        counter,
                        limit,
                        with_messages(capped, head + selected(history, more)),
                    ),
            }
        }),
{
    let head = request.messages.take(fixed as int);
    let history = request.messages.skip(fixed as int);
    let output = output_limit(request, reserved);
    let capped = with_output_limit(request, output);
    let count = counter.counted(capped)->Ok_0;
    if count.tokens <= limit {
        None
    } else {
        let turns = turn_count(history);
        Some(
            lemma_cut_to_fit(
                counter,
                limit,
                reserved,
                head,
                history,
                capped,
                count,
                if turns == 0 {
                    0
                } else {
                    (turns - 1) as nat
                },
            ),
        )
    }
}

/// A failing counter stops every request: nothing is let through uncounted.
pub proof fn failing_counters_let_nothing_through<C: TokenCounter>(
    counter: C,
    limit: u64,
    reserved: u32,
    request: RequestView,
    fixed: nat,
)
    requires
        forall|any: RequestView| #[trigger] counter.counted(any) is Err,
    ensures
        budgeted(counter, limit, reserved, request, fixed) is Err,
{
}

/// The heuristic ignores what is not sent: message identifiers, metadata, usage
/// and times.
pub proof fn heuristic_ignores_unsent_fields(request: RequestView, other: RequestView)
    requires
        request.messages.len() == other.messages.len(),
        forall|i: int|
            0 <= i < request.messages.len() ==> (#[trigger] request.messages[i]).role
                == other.messages[i].role && request.messages[i].name == other.messages[i].name
                && request.messages[i].content == other.messages[i].content,
        request.tools == other.tools,
        request.structured_output_schema == other.structured_output_schema,
        request.options.extra == other.options.extra,
    ensures
        heuristic_count(request) == heuristic_count(other),
{
    assert forall|i: int| 0 <= i < request.messages.len() implies #[trigger] message_has_data(
        request.messages[i],
    ) == message_has_data(other.messages[i]) by {
    }
    assert(request.messages.map_values(|msg: MsgView| counted_message(msg))
        =~= other.messages.map_values(|msg: MsgView| counted_message(msg)));
    if messages_have_data(request.messages) {
        let i = choose|i: int|
            0 <= i < request.messages.len() && #[trigger] message_has_data(request.messages[i]);
        assert(message_has_data(other.messages[i]));
    }
    if messages_have_data(other.messages) {
        let i = choose|i: int|
            0 <= i < other.messages.len() && #[trigger] message_has_data(other.messages[i]);
        assert(message_has_data(request.messages[i]));
    }
}

} // verus!
