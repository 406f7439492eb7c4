//! History reconstruction: persisted messages become model-facing turns.
//!
//! A `User` message becomes a user turn verbatim and an `Assistant` message
//! an assistant turn verbatim. A `System` message is folded into a user
//! turn whose content is wrapped as `"[System Context]: <content>"`: stored
//! system text is presented to the model as contextual user input, not as a
//! native system turn. The new prompt is never part of this sequence; it is
//! submitted as the current turn after all historical turns.

use vstd::prelude::*;
use vstd::string::*;
use crate::messages::{ChatMessage, MessageView, Role};

verus! {

/// Which side of the conversation a model-facing turn belongs to. A
/// `Tool` turn carries the result of a tool invocation back to the model.
#[derive(Debug, Clone, Copy, PartialEq, Eq, Structural)]
pub enum TurnKind {
    User,
    Assistant,
    Tool,
}

/// One model-facing unit of conversation.
#[derive(Debug, Clone)]
pub struct Turn {
    pub kind: TurnKind,
    pub content: String,
}

/// The mathematical value of a turn.
#[verifier::ext_equal]
pub ghost struct TurnView {
    pub kind: TurnKind,
    pub content: Seq<char>,
}

impl View for Turn {
    type V = TurnView;

    open spec fn view(&self) -> TurnView {
        TurnView { kind: self.kind, content: self.content@ }
    }
}

impl DeepView for Turn {
    type V = TurnView;

    open spec fn deep_view(&self) -> TurnView {
        self.view()
    }
}

/// The prefix wrapped around folded system content.
pub open spec fn system_prefix() -> Seq<char> {
    "[System Context]: "@
}

/// How one persisted message is presented to the model.
pub open spec fn fold_spec(m: MessageView) -> TurnView {
    match m.role {
        Role::User => TurnView { kind: TurnKind::User, content: m.content },
        Role::System => TurnView { kind: TurnKind::User, content: system_prefix() + m.content },
        Role::Assistant => TurnView { kind: TurnKind::Assistant, content: m.content },
    }
}

/// Convert one persisted message to its model-facing turn.
pub fn fold_message(m: &ChatMessage) -> (r: Turn)
    ensures
        r@ == fold_spec(m@),
{
    match m.role {
        Role::User => Turn { kind: TurnKind::User, content: m.content.clone() },
        Role::System => {
            let mut content = String::from_str("[System Context]: ");
            content.append(m.content.as_str());
            Turn { kind: TurnKind::User, content }
        },
        Role::Assistant => Turn { kind: TurnKind::Assistant, content: m.content.clone() },
    }
}

/// Convert a whole history, in order, one turn per message.
pub fn build_turns(history: &Vec<ChatMessage>) -> (r: Vec<Turn>)
    ensures
        r.len() == history.len(),
        forall|i: int| 0 <= i < history.len() ==> r[i]@ == fold_spec(history[i]@),
{
    let mut turns: Vec<Turn> = Vec::new();
    let n = history.len();
    let mut i: usize = 0;
    while i < n
        invariant
            i <= n,
            n == history.len(),
            turns.len() == i,
            forall|j: int| 0 <= j < i ==> turns[j]@ == fold_spec(history[j]@),
        decreases n - i,
    {
        let t = fold_message(&history[i]);
        turns.push(t);
        i += 1;
    }
    turns
}

} // verus!
