//! The messages a command produced, in order.

use vstd::prelude::*;

verus! {

/// The kind of a message.
#[derive(Debug, Clone, Copy, PartialEq, Eq, Structural)]
pub enum OutcomeMessageKind {
    Info,
    Success,
    Warning,
    Error,
}

/// One message of a command.
#[derive(Debug, Clone, PartialEq, Eq)]
pub struct OutcomeMessage {
    pub kind: OutcomeMessageKind,
    pub text: String,
}

/// The messages of a command.
#[derive(Debug, Default, Clone, PartialEq, Eq)]
pub struct CommandOutcome {
    pub messages: Vec<OutcomeMessage>,
}

/// A message seen as its kind and text.
pub open spec fn message_view(m: OutcomeMessage) -> (OutcomeMessageKind, Seq<char>) {
    (m.kind, m.text@)
}

impl CommandOutcome {
    /// An outcome without messages.
    pub fn new() -> (o: Self)
        ensures
            o.messages@.len() == 0,
    {
        CommandOutcome { messages: Vec::new() }
    }

    /// Appends a message.
    pub fn push(&mut self, kind: OutcomeMessageKind, text: &str)
        ensures
            final(self).messages@.len() == old(self).messages@.len() + 1,
            forall|i: int| 0 <= i < old(self).messages@.len() ==> final(self).messages@[i] == old(self).messages@[i],
            message_view(final(self).messages@.last()) == (kind, text@),
    {
        self.messages.push(OutcomeMessage { kind, text: text.to_owned() });
    }
}

} // verus!
