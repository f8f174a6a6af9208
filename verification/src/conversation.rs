//! The shared state of a dialogue: an append-only history and a terminal flag.
//!
//! Once `terminate` has set the flag, no operation of this type resets it:
//! termination is monotonic for the conversation's whole lifetime.

use vstd::prelude::*;
use crate::message::{Message, MessageView};

verus! {

/// The view of a conversation: the recorded turns in order, and whether the
/// dialogue has been told to stop.
pub struct ConversationView {
    pub history: Seq<MessageView>,
    pub terminated: bool,
}

/// The ordered, append-only message history plus termination flag shared by
/// two conversing agents.
#[derive(Debug)]
pub struct Conversation {
    history: Vec<Message>,
    terminated: bool,
}

impl View for Conversation {
    type V = ConversationView;

    closed spec fn view(&self) -> ConversationView {
        ConversationView {
            history: Seq::new(self.history@.len(), |i: int| self.history@[i]@),
            terminated: self.terminated,
        }
    }
}

impl Conversation {
    /// A fresh conversation: empty history, not terminated.
    pub fn new() -> (r: Conversation)
        ensures
            r@.history.len() == 0,
            !r@.terminated,
    {
        Conversation { history: Vec::new(), terminated: false }
    }

    /// Append a message to the history.  Appending never touches the
    /// termination flag.
    pub fn add_message(&mut self, message: Message)
        ensures
            final(self)@.history == old(self)@.history.push(message@),
            final(self)@.terminated == old(self)@.terminated,
    {
        self.history.push(message);
        proof {
            assert(self@.history =~= old(self)@.history.push(message@));
        }
    }

    /// The recorded turns, oldest first.
    pub fn history(&self) -> (r: &Vec<Message>)
        ensures
            r@.len() == self@.history.len(),
            forall|i: int| 0 <= i < r@.len() ==> #[trigger] r@[i]@ == self@.history[i],
    {
        &self.history
    }

    /// The most recently appended message, or none if the history is empty.
    ///
    /// Callers must handle the empty case explicitly; there is no default
    /// message.
    pub fn last_message(&self) -> (r: Option<&Message>)
        ensures
            match r {
                Some(m) => self@.history.len() > 0 && m@ == self@.history.last(),
                None => self@.history.len() == 0,
            },
    {
        if self.history.len() == 0 {
            None
        } else {
            Some(&self.history[self.history.len() - 1])
        }
    }

    /// Idempotently set the terminal flag.  The history is untouched, and no
    /// operation of this type ever resets the flag.
    pub fn terminate(&mut self)
        ensures
            final(self)@.terminated,
            final(self)@.history == old(self)@.history,
    {
        self.terminated = true;
        proof {
            assert(self@.history =~= old(self)@.history);
        }
    }

    /// Whether the conversation has been told to stop.
    pub fn has_terminated(&self) -> (r: bool)
        ensures
            r == self@.terminated,
    {
        self.terminated
    }

    /// The history is held in one vector, so its length fits a `usize`.
    pub proof fn lemma_history_fits(&self)
        ensures
            self@.history.len() <= usize::MAX,
    {
        assert(self.history@.len() == vstd::std_specs::vec::spec_vec_len(&self.history));
    }
}

} // verus!
