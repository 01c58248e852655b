//! Streaming-aware tool call content blocks.
use vstd::prelude::*;

use super::{generate_timestamp, is_timestamp};
use crate::json::{parsed_json, Json};
use crate::text::{append, blank, concat2, is_blank, text_option};
use crate::view::views;

verus! {

/// The behavior applied when a permission rule matches a tool call.
#[derive(Clone, Copy, Debug, PartialEq, Eq, Hash, Structural)]
pub enum PermissionBehavior {
    /// Permit the tool call without prompting.
    Allow,
    /// Reject the tool call.
    Deny,
    /// Ask the user before executing the tool call.
    Ask,
}

/// The name of a behavior on the wire.
pub open spec fn behavior_text(behavior: PermissionBehavior) -> Seq<char> {
    match behavior {
        PermissionBehavior::Allow => "allow"@,
        PermissionBehavior::Deny => "deny"@,
        PermissionBehavior::Ask => "ask"@,
    }
}

impl PermissionBehavior {
    /// The name of the behavior.
    pub fn as_str(self) -> (name: &'static str)
        ensures
            name@ == behavior_text(self),
    {
        match self {
            PermissionBehavior::Allow => "allow",
            PermissionBehavior::Deny => "deny",
            PermissionBehavior::Ask => "ask",
        }
    }
}

/// A permission suggestion associated with a tool call.
#[derive(Debug, PartialEq, Eq)]
pub struct PermissionRule {
    /// The tool this rule applies to.
    pub tool_name: String,
    /// An optional tool-specific match expression.
    pub rule_content: Option<String>,
    /// The behavior to apply when the rule matches.
    pub behavior: PermissionBehavior,
    /// The origin of this rule.
    pub source: String,
}

/// What a permission rule holds.
#[verifier::ext_equal]
pub struct RuleView {
    pub tool_name: Seq<char>,
    pub rule_content: Option<Seq<char>>,
    pub behavior: PermissionBehavior,
    pub source: Seq<char>,
}

impl View for PermissionRule {
    type V = RuleView;

    open spec fn view(&self) -> RuleView {
        RuleView {
            tool_name: self.tool_name@,
            rule_content: text_option(self.rule_content),
            behavior: self.behavior,
            source: self.source@,
        }
    }
}

impl Clone for PermissionRule {
    fn clone(&self) -> (copied: PermissionRule)
        ensures
            copied@ == self@,
    {
        PermissionRule {
            tool_name: self.tool_name.clone(),
            rule_content: self.rule_content.clone(),
            behavior: self.behavior,
            source: self.source.clone(),
        }
    }
}

/// The lifecycle state of a tool call.
#[derive(Clone, Copy, Debug, PartialEq, Eq, Hash, Structural)]
pub enum ToolCallState {
    /// The call has not yet passed through the permission system.
    Pending,
    /// The call is waiting for user confirmation.
    Asking,
    /// The call is permitted and waiting for execution.
    Allowed,
    /// The call was submitted for external execution.
    Submitted,
    /// The call lifecycle has ended.
    Finished,
}

impl Default for ToolCallState {
    fn default() -> (state: ToolCallState)
        ensures
            state == ToolCallState::Pending,
    {
        ToolCallState::Pending
    }
}

/// The name of a call state.
pub open spec fn call_state_text(state: ToolCallState) -> Seq<char> {
    match state {
        ToolCallState::Pending => "pending"@,
        ToolCallState::Asking => "asking"@,
        ToolCallState::Allowed => "allowed"@,
        ToolCallState::Submitted => "submitted"@,
        ToolCallState::Finished => "finished"@,
    }
}

impl ToolCallState {
    /// The name of the state.
    pub fn as_str(self) -> (name: &'static str)
        ensures
            name@ == call_state_text(self),
    {
        match self {
            ToolCallState::Pending => "pending",
            ToolCallState::Asking => "asking",
            ToolCallState::Allowed => "allowed",
            ToolCallState::Submitted => "submitted",
            ToolCallState::Finished => "finished",
        }
    }

    /// The name of the state.
    pub fn to_string(&self) -> (name: String)
        ensures
            name@ == call_state_text(*self),
    {
        self.as_str().to_owned()
    }
}

/// An error returned when constructing or validating a tool call.
#[derive(Debug, PartialEq, Eq)]
pub enum ToolCallError {
    /// The provider supplied an empty tool call identifier.
    EmptyId,
    /// The tool name was empty or contained only whitespace.
    EmptyName,
    /// A completed tool call contained malformed JSON input, with the reader's message.
    InvalidInput(String),
}

impl Clone for ToolCallError {
    fn clone(&self) -> (copied: ToolCallError)
        ensures
            copied == self,
    {
        match self {
            ToolCallError::EmptyId => ToolCallError::EmptyId,
            ToolCallError::EmptyName => ToolCallError::EmptyName,
            ToolCallError::InvalidInput(message) => ToolCallError::InvalidInput(message.clone()),
        }
    }
}

/// What a tool call error holds.
#[verifier::ext_equal]
pub enum ToolCallErrorView {
    EmptyId,
    EmptyName,
    InvalidInput(Seq<char>),
}

impl View for ToolCallError {
    type V = ToolCallErrorView;

    open spec fn view(&self) -> ToolCallErrorView {
        match self {
            ToolCallError::EmptyId => ToolCallErrorView::EmptyId,
            ToolCallError::EmptyName => ToolCallErrorView::EmptyName,
            ToolCallError::InvalidInput(message) => ToolCallErrorView::InvalidInput(message@),
        }
    }
}

/// What a tool call error says.
pub open spec fn call_error_text(error: ToolCallErrorView) -> Seq<char> {
    match error {
        ToolCallErrorView::EmptyId => "tool call id cannot be empty"@,
        ToolCallErrorView::EmptyName => "tool name cannot be empty"@,
        ToolCallErrorView::InvalidInput(message) => "invalid tool input JSON: "@ + message,
    }
}

impl ToolCallError {
    /// What the error says.
    pub fn to_string(&self) -> (text: String)
        ensures
            text@ == call_error_text(self@),
    {
        match self {
            ToolCallError::EmptyId => "tool call id cannot be empty".to_owned(),
            ToolCallError::EmptyName => "tool name cannot be empty".to_owned(),
            ToolCallError::InvalidInput(message) => concat2(
                "invalid tool input JSON: ",
                message.as_str(),
            ),
        }
    }
}

/// A model request to invoke a tool.
#[derive(Debug, PartialEq, Eq)]
pub struct ToolCallBlock {
    pub(crate) id: String,
    pub(crate) name: String,
    pub(crate) input: String,
    /// The tool call's current lifecycle state.
    pub state: ToolCallState,
    /// Permission rules suggested while requesting confirmation.
    pub suggested_rules: Vec<PermissionRule>,
    /// The local creation time in ISO 8601 format.
    pub created_at: String,
    /// The completion time, when available.
    pub finished_at: Option<String>,
}

/// What a tool call holds.
#[verifier::ext_equal]
pub struct ToolCallView {
    pub id: Seq<char>,
    pub name: Seq<char>,
    pub input: Seq<char>,
    pub state: ToolCallState,
    pub suggested_rules: Seq<RuleView>,
    pub created_at: Seq<char>,
    pub finished_at: Option<Seq<char>>,
}

impl View for ToolCallBlock {
    type V = ToolCallView;

    open(crate) spec fn view(&self) -> ToolCallView {
        ToolCallView {
            id: self.id@,
            name: self.name@,
            input: self.input@,
            state: self.state,
            suggested_rules: views(self.suggested_rules@),
            created_at: self.created_at@,
            finished_at: text_option(self.finished_at),
        }
    }
}

impl Clone for ToolCallBlock {
    fn clone(&self) -> (copied: ToolCallBlock)
        ensures
            copied@ == self@,
    {
        let copied = ToolCallBlock {
            id: self.id.clone(),
            name: self.name.clone(),
            input: self.input.clone(),
            state: self.state,
            suggested_rules: self.suggested_rules.clone(),
            created_at: self.created_at.clone(),
            finished_at: self.finished_at.clone(),
        };
        assert(copied@ =~= self@);
        copied
    }
}

impl ToolCallView {
    /// Whether the identifier and the name are not blank.
    pub open spec fn well_formed(self) -> bool {
        !blank(self.id) && !blank(self.name)
    }
}

/// What is wrong with the identity of a tool call, if anything.
pub open spec fn call_identity_error(id: Seq<char>, name: Seq<char>) -> Option<ToolCallErrorView> {
    if blank(id) {
        Some(ToolCallErrorView::EmptyId)
    } else if blank(name) {
        Some(ToolCallErrorView::EmptyName)
    } else {
        None
    }
}

/// What is wrong with the parts of a complete tool call, if anything.
pub open spec fn complete_call_error(
    id: Seq<char>,
    name: Seq<char>,
    input: Seq<char>,
) -> Option<ToolCallErrorView> {
    match call_identity_error(id, name) {
        Some(error) => Some(error),
        None => match parsed_json(input) {
            Err(fault) => Some(ToolCallErrorView::InvalidInput(fault)),
            Ok(_) => None,
        },
    }
}

/// Whether a block is a new call that waits for its input to be used.
pub open spec fn is_new_call(
    block: ToolCallView,
    id: Seq<char>,
    name: Seq<char>,
    input: Seq<char>,
) -> bool {
    &&& block.id == id
    &&& block.name == name
    &&& block.input == input
    &&& block.state == ToolCallState::Pending
    &&& block.suggested_rules.len() == 0
    &&& is_timestamp(block.created_at)
    &&& block.finished_at is None
}

impl ToolCallBlock {
    /// Creates a tool call whose input will arrive incrementally.
    pub fn streaming(id: &str, name: &str) -> (result: Result<ToolCallBlock, ToolCallError>)
        ensures
            match result {
                Ok(block) => call_identity_error(id@, name@) is None && is_new_call(
                    block@,
                    id@,
                    name@,
                    Seq::empty(),
                ) && block@.well_formed(),
                Err(error) => call_identity_error(id@, name@) == Some(error@),
            },
    {
        match validate_tool_call_identity(id, name) {
            Err(error) => Err(error),
            Ok(()) => Ok(
                ToolCallBlock {
                    id: id.to_owned(),
                    name: name.to_owned(),
                    input: String::new(),
                    state: ToolCallState::Pending,
                    suggested_rules: Vec::new(),
                    created_at: generate_timestamp(),
                    finished_at: None,
                },
            ),
        }
    }

    /// Creates a tool call with complete, validated JSON input.
    pub fn complete(id: &str, name: &str, input: &str) -> (result: Result<
        ToolCallBlock,
        ToolCallError,
    >)
        ensures
            match result {
                Ok(block) => complete_call_error(id@, name@, input@) is None && is_new_call(
                    block@,
                    id@,
                    name@,
                    input@,
                ) && block@.well_formed(),
                Err(error) => complete_call_error(id@, name@, input@) == Some(error@),
            },
    {
        match ToolCallBlock::streaming(id, name) {
            Err(error) => Err(error),
            Ok(mut block) => {
                block.input = input.to_owned();
                match block.validate_input() {
                    Err(error) => Err(error),
                    Ok(()) => Ok(block),
                }
            },
        }
    }

    /// Creates a call from stored parts, which must name a call and a tool.
    pub fn from_parts(
        id: String,
        name: String,
        input: String,
        state: ToolCallState,
        suggested_rules: Vec<PermissionRule>,
        created_at: String,
        finished_at: Option<String>,
    ) -> (result: Result<ToolCallBlock, ToolCallError>)
        ensures
            match result {
                Ok(block) => block@ == (ToolCallView {
                    id: id@,
                    name: name@,
                    input: input@,
                    state,
                    suggested_rules: views(suggested_rules@),
                    created_at: created_at@,
                    finished_at: text_option(finished_at),
                }) && block@.well_formed(),
                Err(error) => call_identity_error(id@, name@) == Some(error@),
            },
    {
        match validate_tool_call_identity(id.as_str(), name.as_str()) {
            Err(error) => Err(error),
            Ok(()) => Ok(
                ToolCallBlock { id, name, input, state, suggested_rules, created_at, finished_at },
            ),
        }
    }

    /// The tool name.
    pub fn name(&self) -> (name: &str)
        ensures
            name@ == self@.name,
    {
        self.name.as_str()
    }

    /// The provider-assigned tool call identifier.
    pub fn id(&self) -> (id: &str)
        ensures
            id@ == self@.id,
    {
        self.id.as_str()
    }

    /// The raw JSON input accumulated so far.
    pub fn input(&self) -> (input: &str)
        ensures
            input@ == self@.input,
    {
        self.input.as_str()
    }

    /// Appends a raw input fragment received from a streaming model response.
    pub fn append_input(&mut self, delta: &str)
        ensures
            final(self)@ == (ToolCallView { input: old(self)@.input + delta@, ..old(self)@ }),
    {
        append(&mut self.input, delta);
    }

    /// Parses the current input as JSON.
    pub fn parsed_input(&self) -> (result: Result<Json, ToolCallError>)
        ensures
            match (result, parsed_json(self@.input)) {
                (Ok(json), Ok(view)) => json@ == view,
                (Err(error), Err(fault)) => error@ == ToolCallErrorView::InvalidInput(fault),
                _ => false,
            },
    {
        match Json::parse(self.input.as_str()) {
            Ok(json) => Ok(json),
            Err(message) => Err(ToolCallError::InvalidInput(message)),
        }
    }

    /// Replaces the suggested permission rules.
    pub fn with_suggested_rules(self, rules: Vec<PermissionRule>) -> (block: ToolCallBlock)
        ensures
            block@ == (ToolCallView { suggested_rules: views(rules@), ..self@ }),
    {
        let mut block = self;
        block.suggested_rules = rules;
        block
    }

    /// Accepts input that is valid JSON.
    pub fn validate_input(&self) -> (result: Result<(), ToolCallError>)
        ensures
            match (result, parsed_json(self@.input)) {
                (Ok(()), Ok(view)) => true,
                (Err(error), Err(fault)) => error@ == ToolCallErrorView::InvalidInput(fault),
                _ => false,
            },
    {
        match self.parsed_input() {
            Ok(_) => Ok(()),
            Err(error) => Err(error),
        }
    }
}

/// Accepts an identifier and a name that are not blank.
pub fn validate_tool_call_identity(id: &str, name: &str) -> (result: Result<(), ToolCallError>)
    ensures
        match result {
            Ok(()) => call_identity_error(id@, name@) is None,
            Err(error) => call_identity_error(id@, name@) == Some(error@),
        },
{
    if is_blank(id) {
        Err(ToolCallError::EmptyId)
    } else if is_blank(name) {
        Err(ToolCallError::EmptyName)
    } else {
        Ok(())
    }
}

} // verus!
