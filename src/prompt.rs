//! The few-shot conversation sent to the completion service.
use vstd::prelude::*;
use vstd::string::StringExecFns;
use crate::text::{trim, trimmed};

verus! {

/// The instruction that opens every conversation.
pub const SYSTEM_INSTRUCTION: &'static str = "You are bash command generator. Only return the command.";

/// The question of the worked example.
pub const EXAMPLE_QUESTION: &'static str = "How to list contents of a directory in bash?";

/// The answer of the worked example.
pub const EXAMPLE_ANSWER: &'static str = "ls";

/// Who speaks a message.
#[derive(Debug, Clone, Copy, PartialEq, Eq, Structural)]
pub enum Role {
    System,
    User,
    Assistant,
}

impl Role {
    /// The label the completion service expects for this role.
    pub fn name(&self) -> (r: &'static str)
        ensures
            r@ == role_name(*self),
    {
        match self {
            Role::System => "system",
            Role::User => "user",
            Role::Assistant => "assistant",
        }
    }
}

/// The label of a role.
pub open spec fn role_name(r: Role) -> Seq<char> {
    match r {
        Role::System => "system"@,
        Role::User => "user"@,
        Role::Assistant => "assistant"@,
    }
}

/// One turn of the conversation.
#[derive(Debug, Clone)]
pub struct Message {
    pub role: Role,
    pub content: String,
}

/// The conversation for a query, as role and text of each message.
pub open spec fn prompt_for(query: Seq<char>) -> Seq<(Role, Seq<char>)> {
    seq![
        (Role::System, SYSTEM_INSTRUCTION@),
        (Role::User, EXAMPLE_QUESTION@),
        (Role::Assistant, EXAMPLE_ANSWER@),
        (Role::User, trimmed(query)),
    ]
}

/// The role and text of each message.
pub open spec fn message_views(m: Seq<Message>) -> Seq<(Role, Seq<char>)> {
    m.map_values(|x: Message| (x.role, x.content@))
}

/// The system instruction, the worked example as a user and an assistant turn,
/// then the query, trimmed, as the last user turn.
pub fn build_messages(query: &str) -> (r: Vec<Message>)
    ensures
        message_views(r@) == prompt_for(query@),
{
    let r = vec![
        Message { role: Role::System, content: String::from_str(SYSTEM_INSTRUCTION) },
        Message { role: Role::User, content: String::from_str(EXAMPLE_QUESTION) },
        Message { role: Role::Assistant, content: String::from_str(EXAMPLE_ANSWER) },
        Message { role: Role::User, content: trim(query) },
    ];
    assert(message_views(r@) =~= prompt_for(query@));
    r
}

} // verus!
