//! Model reasoning content blocks.
use vstd::prelude::*;

use super::{generate_id, generate_timestamp, is_generated_id, is_timestamp, Metadata};
use crate::json::{Json, JsonView};
use crate::text::{concat3, same_text, text_option};

verus! {

/// An error returned when adding provider-specific thinking fields.
#[derive(Debug, PartialEq, Eq)]
pub enum ThinkingBlockError {
    /// An extension attempted to replace a standard thinking block field.
    ReservedField(String),
}

impl Clone for ThinkingBlockError {
    fn clone(&self) -> (copied: ThinkingBlockError)
        ensures
            copied == self,
    {
        match self {
            ThinkingBlockError::ReservedField(field) => ThinkingBlockError::ReservedField(
                field.clone(),
            ),
        }
    }
}

impl ThinkingBlockError {
    /// What the error says.
    pub fn to_string(&self) -> (text: String)
        ensures
            self matches ThinkingBlockError::ReservedField(field) && text@ == "provider field `"@
                + field@ + "` is reserved"@,
    {
        match self {
            ThinkingBlockError::ReservedField(field) => concat3(
                "provider field `",
                field.as_str(),
                "` is reserved",
            ),
        }
    }
}

/// A model's reasoning content.
///
/// Provider-specific fields such as `signature` stand beside the standard ones.
#[derive(Debug, PartialEq, Eq)]
pub struct ThinkingBlock {
    /// The reasoning text. This can be empty for redacted thinking blocks.
    pub thinking: String,
    /// The unique block identifier.
    pub id: String,
    /// The local creation time in ISO 8601 format.
    pub created_at: String,
    /// The completion time for streamed content, when available.
    pub finished_at: Option<String>,
    pub(crate) extra: Metadata,
}

/// What a thinking block holds.
#[verifier::ext_equal]
pub struct ThinkingView {
    pub thinking: Seq<char>,
    pub id: Seq<char>,
    pub created_at: Seq<char>,
    pub finished_at: Option<Seq<char>>,
    pub extra: Map<Seq<char>, JsonView>,
}

/// The names of the standard fields, which no extension may replace.
pub open spec fn reserved_thinking_field(key: Seq<char>) -> bool {
    ||| key == "type"@
    ||| key == "thinking"@
    ||| key == "id"@
    ||| key == "created_at"@
    ||| key == "finished_at"@
}

impl View for ThinkingBlock {
    type V = ThinkingView;

    open(crate) spec fn view(&self) -> ThinkingView {
        ThinkingView {
            thinking: self.thinking@,
            id: self.id@,
            created_at: self.created_at@,
            finished_at: text_option(self.finished_at),
            extra: self.extra@,
        }
    }
}

impl Clone for ThinkingBlock {
    fn clone(&self) -> (copied: ThinkingBlock)
        ensures
            copied@ == self@,
    {
        ThinkingBlock {
            thinking: self.thinking.clone(),
            id: self.id.clone(),
            created_at: self.created_at.clone(),
            finished_at: self.finished_at.clone(),
            extra: self.extra.clone(),
        }
    }
}

/// Whether a block is a new thinking block without extensions.
pub open spec fn is_new_thinking(block: ThinkingView, thinking: Seq<char>) -> bool {
    &&& block.thinking == thinking
    &&& is_generated_id(block.id)
    &&& is_timestamp(block.created_at)
    &&& block.finished_at is None
    &&& block.extra == Map::<Seq<char>, JsonView>::empty()
}

impl ThinkingView {
    /// Whether no extension replaces a standard field.
    pub open spec fn well_formed(self) -> bool {
        forall|key: Seq<char>| #[trigger]
            self.extra.contains_key(key) ==> !reserved_thinking_field(key)
    }
}

impl ThinkingBlock {
    /// Creates a thinking block.
    pub fn new(thinking: &str) -> (block: ThinkingBlock)
        ensures
            is_new_thinking(block@, thinking@),
            block@.well_formed(),
    {
        ThinkingBlock {
            thinking: thinking.to_owned(),
            id: generate_id(),
            created_at: generate_timestamp(),
            finished_at: None,
            extra: Metadata::new(),
        }
    }

    /// Adds one provider-specific JSON field.
    pub fn with_extra_field(self, key: &str, value: Json) -> (result: Result<
        ThinkingBlock,
        ThinkingBlockError,
    >)
        ensures
            match result {
                Ok(block) => !reserved_thinking_field(key@) && block@ == (ThinkingView {
                    extra: self@.extra.insert(key@, value@),
                    ..self@
                }),
                Err(ThinkingBlockError::ReservedField(field)) => reserved_thinking_field(key@)
                    && field@ == key@,
            },
            self@.well_formed() && result is Ok ==> result->Ok_0@.well_formed(),
    {
        match validate_thinking_extra_key(key) {
            Err(error) => Err(error),
            Ok(()) => {
                let mut block = self;
                block.extra.insert(key.to_owned(), value);
                Ok(block)
            },
        }
    }

    /// Replaces the provider-specific JSON fields. The error names a reserved key.
    pub fn with_extra_fields(self, extra: Metadata) -> (result: Result<
        ThinkingBlock,
        ThinkingBlockError,
    >)
        ensures
            match result {
                Ok(block) => block@ == (ThinkingView { extra: extra@, ..self@ })
                    && block@.well_formed(),
                Err(ThinkingBlockError::ReservedField(field)) => first_reserved_field(extra@) == Some(
                    field@,
                ),
            },
            result is Ok <==> first_reserved_field(extra@) is None,
    {
        match find_reserved_field(&extra) {
            Some(field) => Err(ThinkingBlockError::ReservedField(field.to_owned())),
            None => {
                let mut block = self;
                block.extra = extra;
                Ok(block)
            },
        }
    }

    /// The provider-specific JSON fields.
    pub fn extra_fields(&self) -> (extra: &Metadata)
        ensures
            extra@ == self@.extra,
    {
        &self.extra
    }
}

/// The reserved field that comes first in key order among the keys of a map.
pub open spec fn first_reserved_field(extra: Map<Seq<char>, JsonView>) -> Option<Seq<char>> {
    if extra.contains_key("created_at"@) {
        Some("created_at"@)
    } else if extra.contains_key("finished_at"@) {
        Some("finished_at"@)
    } else if extra.contains_key("id"@) {
        Some("id"@)
    } else if extra.contains_key("thinking"@) {
        Some("thinking"@)
    } else if extra.contains_key("type"@) {
        Some("type"@)
    } else {
        None
    }
}

/// Finds the first reserved field among the keys of an object.
fn find_reserved_field(extra: &Metadata) -> (field: Option<&'static str>)
    ensures
        match field {
            Some(name) => first_reserved_field(extra@) == Some(name@),
            None => first_reserved_field(extra@) is None,
        },
{
    if extra.contains_key("created_at") {
        Some("created_at")
    } else if extra.contains_key("finished_at") {
        Some("finished_at")
    } else if extra.contains_key("id") {
        Some("id")
    } else if extra.contains_key("thinking") {
        Some("thinking")
    } else if extra.contains_key("type") {
        Some("type")
    } else {
        None
    }
}

/// Accepts a key that is not the name of a standard field.
pub fn validate_thinking_extra_key(key: &str) -> (result: Result<(), ThinkingBlockError>)
    ensures
        match result {
            Ok(()) => !reserved_thinking_field(key@),
            Err(ThinkingBlockError::ReservedField(field)) => reserved_thinking_field(key@) && field@
                == key@,
        },
{
    if same_text(key, "type") || same_text(key, "thinking") || same_text(key, "id") || same_text(
        key,
        "created_at",
    ) || same_text(key, "finished_at") {
        Err(ThinkingBlockError::ReservedField(key.to_owned()))
    } else {
        Ok(())
    }
}

} // verus!
