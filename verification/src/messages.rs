//! The persisted conversation data: roles and messages.
//!
//! A session's transcript is an ordered sequence of messages; order of
//! appending is conversation order and must be preserved. The role set is
//! closed and must round-trip exactly through persistence.

use vstd::prelude::*;

verus! {

/// Who produced a message. Closed set.
#[derive(Debug, Clone, Copy, PartialEq, Eq, Structural)]
pub enum Role {
    User,
    System,
    Assistant,
}

/// One unit of transcript: a role and its text. Immutable once created.
#[derive(Debug, Clone)]
pub struct ChatMessage {
    pub role: Role,
    pub content: String,
}

/// The mathematical value of a message: the role and the content as a
/// sequence of characters.
#[verifier::ext_equal]
pub ghost struct MessageView {
    pub role: Role,
    pub content: Seq<char>,
}

impl View for ChatMessage {
    type V = MessageView;

    open spec fn view(&self) -> MessageView {
        MessageView { role: self.role, content: self.content@ }
    }
}

impl DeepView for ChatMessage {
    type V = MessageView;

    open spec fn deep_view(&self) -> MessageView {
        self.view()
    }
}

impl ChatMessage {
    pub fn new(role: Role, content: &str) -> (r: Self)
        ensures
            r@ == (MessageView { role, content: content@ }),
    {
        ChatMessage { role, content: content.to_owned() }
    }
}

} // verus!
