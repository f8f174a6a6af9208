//! One turn of a conversation: its content and its provenance.
//!
//! `Content` is a closed variant: plain text or a structured function
//! invocation.  A `Message` wraps content with `from`/`to` identities, which
//! are assigned by `sign` at the moment the message is about to be recorded,
//! never left to the producer to self-declare.

use vstd::prelude::*;
use crate::json::{JsonValue, ValueView};

verus! {

/// The view of a function invocation: its name and its argument tree.
pub struct CallView {
    pub name: Seq<char>,
    pub arguments: ValueView,
}

/// A function invocation: the name of the function and its arguments.
#[derive(Debug, PartialEq)]
pub struct FunctionCall {
    /// The name of the function
    pub name: String,
    /// The arguments to the function
    pub arguments: JsonValue,
}

impl View for FunctionCall {
    type V = CallView;

    open spec fn view(&self) -> CallView {
        CallView { name: self.name@, arguments: self.arguments@ }
    }
}

impl FunctionCall {
    /// A deep copy of this invocation; the copy has the same view.
    pub fn dup(&self) -> (r: FunctionCall)
        ensures
            r@ == self@,
    {
        FunctionCall {
            name: self.name.clone(),
            arguments: crate::json::dup_value(&self.arguments),
        }
    }
}

/// The view of a turn's payload.
pub enum ContentView {
    Text(Seq<char>),
    FunctionCall(CallView),
}

/// What was said in one turn: free text, or a function invocation.
///
/// The variant is closed: consumers handle both cases exhaustively.
#[derive(Debug, PartialEq)]
pub enum Content {
    Text(String),
    FunctionCall(FunctionCall),
}

impl View for Content {
    type V = ContentView;

    open spec fn view(&self) -> ContentView {
        match *self {
            Content::Text(t) => ContentView::Text(t@),
            Content::FunctionCall(c) => ContentView::FunctionCall(c@),
        }
    }
}

impl Content {
    /// Whether this content is a function invocation.
    pub fn is_function_call(&self) -> (r: bool)
        ensures
            r == (self@ is FunctionCall),
    {
        match self {
            Content::FunctionCall(_) => true,
            Content::Text(_) => false,
        }
    }

    /// The function invocation carried by this content, if any.
    pub fn as_function_call(&self) -> (r: Option<&FunctionCall>)
        ensures
            match r {
                Some(c) => self@ == ContentView::FunctionCall(c@),
                None => self@ is Text,
            },
    {
        match self {
            Content::FunctionCall(c) => Some(c),
            Content::Text(_) => None,
        }
    }

    /// The text carried by this content, if any.
    pub fn as_text(&self) -> (r: Option<&String>)
        ensures
            match r {
                Some(t) => self@ == ContentView::Text(t@),
                None => self@ is FunctionCall,
            },
    {
        match self {
            Content::Text(t) => Some(t),
            Content::FunctionCall(_) => None,
        }
    }
}

/// How a content is displayed: the text itself, or the called function's
/// name and its rendered arguments.
pub open spec fn content_text(c: ContentView) -> Seq<char> {
    match c {
        ContentView::Text(t) => t,
        ContentView::FunctionCall(cv) => cv.name + ": "@ + crate::json::json_text(cv.arguments),
    }
}

impl Content {
    /// Display this content.
    pub fn render(&self) -> (r: String)
        ensures
            r@ == content_text(self@),
    {
        match self {
            Content::Text(t) => t.clone(),
            Content::FunctionCall(c) => {
                let mut out = c.name.clone();
                out.append(": ");
                let args = crate::json::render_value(&c.arguments);
                out.append(args.as_str());
                out
            },
        }
    }
}

/// The view of a message: who spoke, to whom, and what was said.
pub struct MessageView {
    pub from: Seq<char>,
    pub to: Seq<char>,
    pub content: ContentView,
}

/// One recorded turn: content plus provenance.
#[derive(Debug, PartialEq)]
pub struct Message {
    pub from: String,
    pub to: String,
    pub content: Content,
}

impl View for Message {
    type V = MessageView;

    open spec fn view(&self) -> MessageView {
        MessageView { from: self.from@, to: self.to@, content: self.content@ }
    }
}

/// How a message is displayed: `<from> (to <to>):`, a line break, the
/// content, and a closing line break.
pub open spec fn message_text(m: MessageView) -> Seq<char> {
    m.from + " (to "@ + m.to + "):\n"@ + content_text(m.content) + "\n"@
}

impl Message {
    /// Display this message with its provenance.
    pub fn render(&self) -> (r: String)
        ensures
            r@ == message_text(self@),
    {
        let mut out = self.from.clone();
        out.append(" (to ");
        out.append(self.to.as_str());
        out.append("):\n");
        let body = self.content.render();
        out.append(body.as_str());
        out.append("\n");
        out
    }

    /// A message holding plain text, with provenance still unassigned.
    pub fn from_text(text: String) -> (r: Message)
        ensures
            r@.from.len() == 0,
            r@.to.len() == 0,
            r@.content == ContentView::Text(text@),
    {
        Message { from: String::new(), to: String::new(), content: Content::Text(text) }
    }

    /// Overwrite this message's provenance with the identities of the two
    /// parties of the current handoff.
    ///
    /// Signing at the moment of recording is what guarantees that `from` and
    /// `to` always reflect the actual participants, independent of how the
    /// content was produced.
    pub fn sign(&mut self, from: &str, to: &str)
        ensures
            final(self)@.from == from@,
            final(self)@.to == to@,
            final(self)@.content == old(self)@.content,
    {
        self.from = from.to_owned();
        self.to = to.to_owned();
    }
}

} // verus!
