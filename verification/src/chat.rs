//! Conversation messages exchanged with the completion provider.

use vstd::prelude::*;

verus! {

/// One turn of a conversation: who spoke, and what was said.
#[derive(Debug, Clone)]
pub struct ChatMessage {
    /// Either `"user"` or `"assistant"`.
    pub role: String,
    pub content: String,
}

impl ChatMessage {
    /// A message authored by the user.
    pub fn user(content: String) -> (m: ChatMessage)
        ensures
            m.role@ == "user"@,
            m.content == content,
    {
        ChatMessage { role: "user".to_owned(), content }
    }

    /// A message authored by the model.
    pub fn assistant(content: String) -> (m: ChatMessage)
        ensures
            m.role@ == "assistant"@,
            m.content == content,
    {
        ChatMessage { role: "assistant".to_owned(), content }
    }
}

} // verus!
