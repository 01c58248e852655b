//! Conversation history storage.
use vstd::prelude::*;

use crate::message::msg::{Msg, MsgView};
use crate::model::event::{coded_message, coded_text};
use crate::text::{append, blank, concat2, integer, integer_text, is_blank, text_option};
use crate::view::views;

verus! {

/// Result returned by a memory operation.
pub type MemoryResult<T> = Result<T, MemoryError>;

/// A structured memory backend failure.
#[derive(Debug, PartialEq, Eq)]
pub struct MemoryError {
    /// Human-readable failure description.
    pub message: String,
    /// Stable backend or application error code.
    pub code: Option<String>,
    /// Whether retrying the operation may succeed.
    pub retryable: bool,
}

/// What a memory failure holds.
#[verifier::ext_equal]
pub struct MemoryErrorView {
    pub message: Seq<char>,
    pub code: Option<Seq<char>>,
    pub retryable: bool,
}

impl View for MemoryError {
    type V = MemoryErrorView;

    open spec fn view(&self) -> MemoryErrorView {
        MemoryErrorView {
            message: self.message@,
            code: text_option(self.code),
            retryable: self.retryable,
        }
    }
}

impl Clone for MemoryError {
    fn clone(&self) -> (copied: MemoryError)
        ensures
            copied == self,
    {
        MemoryError {
            message: self.message.clone(),
            code: self.code.clone(),
            retryable: self.retryable,
        }
    }
}

impl MemoryError {
    /// Creates a non-retryable memory error.
    pub fn new(message: &str) -> (error: MemoryError)
        ensures
            error@ == (MemoryErrorView { message: message@, code: None, retryable: false }),
    {
        MemoryError { message: message.to_owned(), code: None, retryable: false }
    }

    /// Attaches a stable error code.
    pub fn with_code(self, code: &str) -> (error: MemoryError)
        ensures
            error@ == (MemoryErrorView { code: Some(code@), ..self@ }),
    {
        let mut error = self;
        error.code = Some(code.to_owned());
        error
    }

    /// Marks whether retrying the operation may succeed.
    pub fn with_retryable(self, retryable: bool) -> (error: MemoryError)
        ensures
            error@ == (MemoryErrorView { retryable, ..self@ }),
    {
        let mut error = self;
        error.retryable = retryable;
        error
    }

    /// What the error says.
    pub fn to_string(&self) -> (text: String)
        ensures
            text@ == coded_text("memory error"@, self@.code, self@.message),
    {
        coded_message("memory error", &self.code, self.message.as_str())
    }
}

/// An unbounded, process-local conversation history.
#[derive(Debug)]
pub struct InMemoryMemory {
    messages: Vec<Msg>,
}

impl View for InMemoryMemory {
    type V = Seq<MsgView>;

    closed spec fn view(&self) -> Seq<MsgView> {
        views(self.messages@)
    }
}

impl Default for InMemoryMemory {
    fn default() -> (memory: InMemoryMemory)
        ensures
            memory@ == Seq::<MsgView>::empty(),
    {
        InMemoryMemory::new()
    }
}

impl InMemoryMemory {
    /// Creates an empty memory.
    pub fn new() -> (memory: InMemoryMemory)
        ensures
            memory@ == Seq::<MsgView>::empty(),
    {
        let memory = InMemoryMemory { messages: Vec::new() };
        assert(memory@ =~= Seq::<MsgView>::empty());
        memory
    }

    /// Creates memory initialized with existing conversation history.
    pub fn from_messages(messages: Vec<Msg>) -> (memory: InMemoryMemory)
        ensures
            memory@ == views(messages@),
    {
        InMemoryMemory { messages }
    }

    /// A snapshot of all stored messages in conversation order.
    pub fn messages(&self) -> (messages: Vec<Msg>)
        ensures
            views(messages@) == self@,
    {
        let messages = self.messages.clone();
        assert(views(messages@) =~= views(self.messages@));
        messages
    }

    /// Appends messages in the supplied order.
    pub fn append(&mut self, messages: Vec<Msg>)
        ensures
            final(self)@ == old(self)@ + views(messages@),
    {
        let mut messages = messages;
        let ghost more = views(messages@);
        self.messages.append(&mut messages);
        assert(self@ =~= old(self)@ + more);
    }

    /// Replaces all stored messages with the supplied history.
    pub fn replace(&mut self, messages: Vec<Msg>)
        ensures
            final(self)@ == views(messages@),
    {
        self.messages = messages;
    }

    /// Removes all stored messages.
    pub fn clear(&mut self)
        ensures
            final(self)@ == Seq::<MsgView>::empty(),
    {
        self.messages.clear();
        assert(self@ =~= Seq::<MsgView>::empty());
    }
}

/// A session identifier that is not blank.
pub fn validate_session_id(session_id: String) -> (result: MemoryResult<String>)
    ensures
        match result {
            Ok(kept) => !blank(session_id@) && kept == session_id,
            Err(error) => blank(session_id@) && error@ == (MemoryErrorView {
                message: "memory session id cannot be empty"@,
                code: Some("invalid_session_id"@),
                retryable: false,
            }),
        },
{
    if is_blank(session_id.as_str()) {
        Err(MemoryError::new("memory session id cannot be empty").with_code("invalid_session_id"))
    } else {
        Ok(session_id)
    }
}

/// Accepts the one known version of the stored schema.
pub fn check_schema_version(version: i64) -> (result: MemoryResult<()>)
    ensures
        match result {
            Ok(()) => version == 1,
            Err(error) => version != 1 && error@ == (MemoryErrorView {
                message: "unsupported SQLite memory schema version "@ + integer_text(version)
                    + "; expected 1"@,
                code: Some("unsupported_schema_version"@),
                retryable: false,
            }),
        },
{
    if version != 1 {
        let mut message = "unsupported SQLite memory schema version ".to_owned();
        append(&mut message, integer(version).as_str());
        append(&mut message, "; expected 1");
        return Err(MemoryError::new(message.as_str()).with_code("unsupported_schema_version"));
    }
    Ok(())
}

/// A failure of the database: worth a retry where it was busy or locked.
pub fn database_error(code: &str, message: &str, busy: bool, locked: bool) -> (error: MemoryError)
    ensures
        error@ == (MemoryErrorView {
            message: message@,
            code: Some(code@),
            retryable: busy || locked,
        }),
{
    MemoryError::new(message).with_code(code).with_retryable(busy || locked)
}

/// The failure to read a stored message.
pub fn invalid_stored_message(fault: &str) -> (error: MemoryError)
    ensures
        error@ == (MemoryErrorView {
            message: "stored message is invalid JSON: "@ + fault@,
            code: Some("invalid_message_json"@),
            retryable: false,
        }),
{
    MemoryError::new(concat2("stored message is invalid JSON: ", fault).as_str()).with_code(
        "invalid_message_json",
    )
}

} // verus!
