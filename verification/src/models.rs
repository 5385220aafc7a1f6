//! Plain data types exchanged between the library and its callers.

use vstd::prelude::*;

verus! {

/// The role of a message sender in a conversation.
#[derive(Debug, Clone, Copy, PartialEq, Eq, Structural)]
pub enum MessageRole {
    /// Message from the user
    User,
    /// Message from the AI character
    Assistant,
    /// System-level instruction (not displayed to user)
    System,
}

/// A chat message in the OpenAI-compatible format used for API calls.
#[derive(Debug, Clone)]
pub struct ChatMessage {
    pub role: MessageRole,
    pub content: String,
}

impl ChatMessage {
    /// Builds a message from a role and its text.
    pub fn new(role: MessageRole, content: String) -> (m: ChatMessage)
        ensures
            m.role == role,
            m.content@ == content@,
    {
        ChatMessage { role, content }
    }

    /// A field-for-field copy of this message.
    pub fn duplicate(&self) -> (m: ChatMessage)
        ensures
            m == *self,
    {
        ChatMessage { role: self.role, content: self.content.clone() }
    }
}

} // verus!
