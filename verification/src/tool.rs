//! Failures of tools.
use vstd::prelude::*;

use crate::model::event::{coded_message, coded_text};
use crate::text::text_option;

verus! {

/// A structured tool failure.
#[derive(Debug, PartialEq, Eq)]
pub struct ToolError {
    /// A human-readable error description.
    pub message: String,
    /// An optional application error code.
    pub code: Option<String>,
}

/// What a tool failure holds.
#[verifier::ext_equal]
pub struct ToolErrorView {
    pub message: Seq<char>,
    pub code: Option<Seq<char>>,
}

impl View for ToolError {
    type V = ToolErrorView;

    open spec fn view(&self) -> ToolErrorView {
        ToolErrorView { message: self.message@, code: text_option(self.code) }
    }
}

impl Clone for ToolError {
    fn clone(&self) -> (copied: ToolError)
        ensures
            copied == self,
    {
        ToolError { message: self.message.clone(), code: self.code.clone() }
    }
}

/// A failure with a code.
pub open spec fn tool_failure(message: Seq<char>, code: Seq<char>) -> ToolErrorView {
    ToolErrorView { message, code: Some(code) }
}

impl ToolError {
    /// Creates a tool error.
    pub fn new(message: &str) -> (error: ToolError)
        ensures
            error@ == (ToolErrorView { message: message@, code: None }),
    {
        ToolError { message: message.to_owned(), code: None }
    }

    /// Attaches an application error code.
    pub fn with_code(self, code: &str) -> (error: ToolError)
        ensures
            error@ == (ToolErrorView { code: Some(code@), ..self@ }),
    {
        let mut error = self;
        error.code = Some(code.to_owned());
        error
    }

    /// What the error says.
    pub fn to_string(&self) -> (text: String)
        ensures
            text@ == coded_text("tool error"@, self@.code, self@.message),
    {
        coded_message("tool error", &self.code, self.message.as_str())
    }
}

} // verus!
