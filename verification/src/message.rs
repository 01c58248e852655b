//! Message types exchanged between agents, models, tools and users.
pub mod content;
pub mod data;
pub mod decode;
pub mod encode;
pub mod forms;
pub mod makeup;
pub mod msg;
pub mod role;
pub mod shape;
pub mod source;
pub mod structured_output;
pub mod thinking;
pub mod tool_call;
pub mod tool_result;
pub mod usage;

use vstd::prelude::*;

use crate::json::JsonMap;

pub use content::{ContentBlock, TextBlock};
pub use data::{Base64Source, DataBlock, DataBlockError, DataSource, UrlSource};
pub use msg::Msg;
pub use role::Role;
pub use structured_output::{StructuredOutputBlock, StructuredOutputError, StructuredOutputState};
pub use thinking::{ThinkingBlock, ThinkingBlockError};
pub use tool_call::{
    PermissionBehavior, PermissionRule, ToolCallBlock, ToolCallError, ToolCallState,
};
pub use tool_result::{
    ToolResultBlock, ToolResultContent, ToolResultError, ToolResultOutput, ToolResultState,
};
pub use usage::Usage;

verus! {

/// Arbitrary JSON metadata attached to a message.
pub type Metadata = JsonMap;

/// Whether a character is a lower-case hexadecimal digit.
pub open spec fn is_hex_digit(c: char) -> bool {
    '0' <= c <= '9' || 'a' <= c <= 'f'
}

/// Whether a text has the form of a generated identifier.
pub open spec fn is_generated_id(id: Seq<char>) -> bool {
    id.len() == 32 && forall|i: int| 0 <= i < 32 ==> is_hex_digit(#[trigger] id[i])
}

/// Whether a character stands where a form has one: a digit where the form has a
/// zero, and the same character elsewhere.
pub open spec fn follows_form(c: char, form: char) -> bool {
    if form == '0' {
        '0' <= c <= '9'
    } else {
        c == form
    }
}

/// Whether a text can be a generated time: a year of at least four characters, then
/// month, day and time of day to the microsecond.
pub open spec fn is_timestamp(time: Seq<char>) -> bool {
    let form = "-00-00T00:00:00.000000"@;
    &&& time.len() >= 4 + form.len()
    &&& forall|i: int|
        0 <= i < form.len() ==> follows_form(
            #[trigger] time[time.len() - form.len() + i],
            form[i],
        )
}

/// There are times.
pub(crate) proof fn lemma_some_time() -> (time: Seq<char>)
    ensures
        is_timestamp(time),
{
    let form = "-00-00T00:00:00.000000"@;
    let time = seq!['2', '0', '0', '0'] + form;
    assert forall|i: int| 0 <= i < form.len() implies follows_form(
        #[trigger] time[time.len() - form.len() + i],
        form[i],
    ) by {
        assert(time[time.len() - form.len() + i] == form[i]);
    }
    time
}

/// `Uuid::new_v4` of `uuid`, in its simple form: 32 lower-case hexadecimal digits.
/// Which digits is left to chance.
#[verifier::external_body]
pub(crate) fn generate_id() -> (id: String)
    ensures
        is_generated_id(id@),
{
    uuid::Uuid::new_v4().simple().to_string()
}

/// `Local::now` of `chrono`, written as date, `T`, and time to the microsecond. All
/// parts but the year have a fixed number of digits. Which time is left to the
/// clock.
#[verifier::external_body]
pub(crate) fn generate_timestamp() -> (time: String)
    ensures
        is_timestamp(time@),
{
    chrono::Local::now().naive_local().format("%Y-%m-%dT%H:%M:%S%.6f").to_string()
}

} // verus!
