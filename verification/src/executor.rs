//! The pure-function participant: it never asks a model for anything.
//!
//! A function-executor agent looks at the most recent message of the
//! conversation; when that message is a function call it can resolve
//! through its registry, it appends the answer addressed from itself to
//! the sender.  Anything else — an empty history, a text message, a
//! missing registry, an unknown function — it explicitly declines to
//! handle.

use vstd::prelude::*;
use crate::conversation::Conversation;
use crate::errors::EngineError;
use crate::function::{FunctionBehavior, args_conform};
use crate::message::{Content, ContentView, Message, MessageView};
use crate::registry::{FunctionsRegistry, registry_lookup, resolved_text};

verus! {

/// A participant that only executes registered functions.
pub struct FunctionExecutorAgent<C: FunctionBehavior> {
    pub registry: Option<FunctionsRegistry<C>>,
}

impl<C: FunctionBehavior> FunctionExecutorAgent<C> {
    /// An executor with no registry yet.
    pub fn new() -> (r: FunctionExecutorAgent<C>)
        ensures
            r.registry is None,
    {
        FunctionExecutorAgent { registry: None }
    }

    /// This participant's identity.
    pub fn name(&self) -> (r: &str)
        ensures
            r@ == "Function Executor"@,
    {
        "Function Executor"
    }

    /// Handle the turn: when the most recent message is a function call
    /// that this executor's registry answers, append the answer addressed
    /// from this executor to the sender and report true.  An empty
    /// history, a text message, a missing registry or an unknown function
    /// leaves the conversation untouched and reports false; arguments
    /// that do not fit the matched function's declared shape are a hard
    /// error and nothing is appended.
    pub fn receive(&self, sender_name: &str, conversation: &mut Conversation) -> (r: Result<
        bool,
        EngineError,
    >)
        ensures
            final(conversation)@.terminated == old(conversation)@.terminated,
            match r {
                Ok(true) => {
                    &&& old(conversation)@.history.len() > 0
                    &&& old(conversation)@.history.last().content matches
                        ContentView::FunctionCall(cv)
                    &&& self.registry matches Some(reg)
                    &&& resolved_text(reg, cv) matches Some(t)
                    &&& final(conversation)@.history == old(conversation)@.history.push(
                        MessageView {
                            from: "Function Executor"@,
                            to: sender_name@,
                            content: ContentView::Text(t),
                        },
                    )
                },
                Ok(false) => final(conversation)@.history == old(conversation)@.history,
                Err(e) => {
                    &&& final(conversation)@.history == old(conversation)@.history
                    &&& e is SchemaMismatch
                    &&& old(conversation)@.history.len() > 0
                    &&& old(conversation)@.history.last().content matches
                        ContentView::FunctionCall(cv)
                    &&& self.registry matches Some(reg)
                    &&& registry_lookup(reg.registry@, cv.name) matches Some(j)
                    &&& !args_conform(cv.arguments, reg.registry@[j].parameters@)
                },
            },
            ({
                &&& old(conversation)@.history.len() > 0
                &&& old(conversation)@.history.last().content matches ContentView::FunctionCall(
                    cv,
                )
                &&& self.registry matches Some(reg)
                &&& resolved_text(reg, cv) is Some
            }) ==> r == Ok::<bool, EngineError>(true),
    {
        let fc = match conversation.last_message() {
            None => {
                return Ok(false);
            },
            Some(m) => match &m.content {
                Content::FunctionCall(fc) => fc.dup(),
                Content::Text(_) => {
                    return Ok(false);
                },
            },
        };
        let reg = match &self.registry {
            None => {
                return Ok(false);
            },
            Some(reg) => reg,
        };
        match reg.call(&fc) {
            Err(e) => Err(e),
            Ok(None) => Ok(false),
            Ok(Some(result)) => {
                let m = Message {
                    from: "Function Executor".to_owned(),
                    to: sender_name.to_owned(),
                    content: Content::Text(result),
                };
                conversation.add_message(m);
                Ok(true)
            },
        }
    }
}

} // verus!
