//! Message sender roles.
use vstd::prelude::*;

verus! {

/// The role of a message sender.
#[derive(Clone, Copy, Debug, PartialEq, Eq, Hash, Structural)]
pub enum Role {
    /// Instructions supplied by the application.
    System,
    /// Input supplied by an end user.
    User,
    /// Output produced by an agent or model.
    Assistant,
}

/// The name of a role in messages on the wire.
pub open spec fn role_text(role: Role) -> Seq<char> {
    match role {
        Role::System => "system"@,
        Role::User => "user"@,
        Role::Assistant => "assistant"@,
    }
}

impl Role {
    /// The name of the role.
    pub fn as_str(self) -> (name: &'static str)
        ensures
            name@ == role_text(self),
    {
        match self {
            Role::System => "system",
            Role::User => "user",
            Role::Assistant => "assistant",
        }
    }

    /// The name of the role.
    pub fn to_string(&self) -> (name: String)
        ensures
            name@ == role_text(*self),
    {
        self.as_str().to_owned()
    }
}

} // verus!
