//! Plain chats between two model-backed agents: turn alternation, the
//! length-based termination hook, and the fatal model-client failure.

use agents::agent::{AutoAgent, LengthLimit, MarkerLimit, ModelClient, Notification};
use agents::conversation::Conversation;
use agents::errors::EngineError;
use agents::function::FunctionBehavior;
use agents::instruction::Instruction;
use agents::json::JsonValue;
use agents::message::{Content, FunctionCall, Message};
use agents::registry::FunctionsRegistry;

/// A callback type for agents that register no functions.
enum NoCallback {}

impl FunctionBehavior for NoCallback {
    fn response(
        &self,
        _registry: FunctionsRegistry<Self>,
        _args: agents::json::ValueView,
    ) -> vstd::seq::Seq<char> {
        unreachable!()
    }

    fn invoke(&self, _registry: &FunctionsRegistry<Self>, _args: &JsonValue) -> String {
        match *self {}
    }
}

/// A model that always answers the same text.
struct AlwaysText {
    line: String,
}

impl ModelClient<NoCallback> for AlwaysText {
    fn complete(
        &mut self,
        _instruction: &Instruction<NoCallback>,
        _conversation: &Conversation,
    ) -> Result<Content, String> {
        Ok(Content::Text(self.line.clone()))
    }
}

#[test]
fn chat() {
    // Empty registries, a model that always says "hi", and a hook that
    // terminates at a three-message history: the dialogue ends after
    // exactly three appended messages, never two or four.
    let mut joseph: AutoAgent<NoCallback, AlwaysText, LengthLimit> = AutoAgent::new(
        AlwaysText {
            line: "hi".to_string(),
        },
        "Joseph",
    )
    .with_notifications(Some(LengthLimit { limit: 3 }));
    let mut maria: AutoAgent<NoCallback, AlwaysText, LengthLimit> = AutoAgent::new(
        AlwaysText {
            line: "hi".to_string(),
        },
        "Maria",
    )
    .with_notifications(Some(LengthLimit { limit: 3 }));

    let mut conversation = Conversation::new();
    joseph.receive(&mut maria, &mut conversation).unwrap();

    assert!(conversation.has_terminated());
    let history = conversation.history();
    assert_eq!(history.len(), 3);
    assert_eq!(history[0].from, "Joseph");
    assert_eq!(history[0].to, "Maria");
    assert_eq!(history[1].from, "Maria");
    assert_eq!(history[1].to, "Joseph");
    assert_eq!(history[2].from, "Joseph");
    assert_eq!(history[2].to, "Maria");
    for m in history {
        assert_eq!(m.content.as_text().unwrap(), "hi");
    }
}

#[test]
fn talk_to_runs_a_whole_dialogue() {
    let mut joseph: AutoAgent<NoCallback, AlwaysText, LengthLimit> = AutoAgent::new(
        AlwaysText {
            line: "hello there".to_string(),
        },
        "Joseph",
    )
    .with_notifications(Some(LengthLimit { limit: 2 }));
    let mut maria: AutoAgent<NoCallback, AlwaysText, LengthLimit> = AutoAgent::new(
        AlwaysText {
            line: "hello there".to_string(),
        },
        "Maria",
    )
    .with_notifications(Some(LengthLimit { limit: 2 }));
    assert!(joseph.talk_to(&mut maria).is_ok());
}

/// A model that always fails.
struct Failing;

impl ModelClient<NoCallback> for Failing {
    fn complete(
        &mut self,
        _instruction: &Instruction<NoCallback>,
        _conversation: &Conversation,
    ) -> Result<Content, String> {
        Err("the provider rejected the request".to_string())
    }
}

#[test]
fn model_failure_aborts_the_dialogue() {
    let mut a: AutoAgent<NoCallback, Failing, LengthLimit> = AutoAgent::new(Failing, "A")
        .with_notifications(Some(LengthLimit { limit: 10 }));
    let mut b: AutoAgent<NoCallback, Failing, LengthLimit> = AutoAgent::new(Failing, "B")
        .with_notifications(Some(LengthLimit { limit: 10 }));
    let mut conversation = Conversation::new();
    let outcome = a.receive(&mut b, &mut conversation);
    match outcome {
        Err(EngineError::ModelClientFailure(report)) => {
            assert_eq!(report, "the provider rejected the request");
        }
        _ => panic!("expected a model client failure"),
    }
    // No partial turn was recorded for the aborted completion.
    assert_eq!(conversation.history().len(), 0);
}

/// A model whose first answer is an unregistered function call.
struct CallsUnknown;

impl ModelClient<NoCallback> for CallsUnknown {
    fn complete(
        &mut self,
        _instruction: &Instruction<NoCallback>,
        _conversation: &Conversation,
    ) -> Result<Content, String> {
        Ok(Content::FunctionCall(FunctionCall {
            name: "lookup_weather".to_string(),
            arguments: JsonValue::Object(vec![]),
        }))
    }
}

#[test]
fn unresolved_call_stops_the_dialogue() {
    // A call that matches no registered function is recorded
    // self-addressed and the dialogue stops: the raw call is never
    // forwarded to the counterpart.
    let mut a: AutoAgent<NoCallback, CallsUnknown, LengthLimit> = AutoAgent::new(CallsUnknown, "A")
        .with_notifications(Some(LengthLimit { limit: 10 }));
    let mut b: AutoAgent<NoCallback, CallsUnknown, LengthLimit> = AutoAgent::new(CallsUnknown, "B")
        .with_notifications(Some(LengthLimit { limit: 10 }));
    let mut conversation = Conversation::new();
    a.receive(&mut b, &mut conversation).unwrap();
    assert!(!conversation.has_terminated());
    let history = conversation.history();
    assert_eq!(history.len(), 1);
    assert_eq!(history[0].from, "A");
    assert_eq!(history[0].to, "A");
    let call = history[0].content.as_function_call().unwrap();
    assert_eq!(call.name, "lookup_weather");
}

#[test]
fn marker_hook_watches_the_last_text() {
    let mut hook = MarkerLimit {
        marker: "TERMINATE".to_string(),
    };

    // An empty conversation carries no marker.
    let mut empty = Conversation::new();
    hook.notify(&mut empty);
    assert!(!empty.has_terminated());

    // A text without the marker does not terminate.
    let mut calm = Conversation::new();
    calm.add_message(Message::from_text("all is well".to_string()));
    hook.notify(&mut calm);
    assert!(!calm.has_terminated());

    // The marker inside the last text terminates.
    let mut done = Conversation::new();
    done.add_message(Message::from_text("we are done, TERMINATE now".to_string()));
    hook.notify(&mut done);
    assert!(done.has_terminated());

    // A function-call message is not a text; the marker in its name does
    // not count.
    let mut call = Conversation::new();
    call.add_message(Message {
        from: "A".to_string(),
        to: "A".to_string(),
        content: Content::FunctionCall(FunctionCall {
            name: "TERMINATE".to_string(),
            arguments: JsonValue::Null,
        }),
    });
    hook.notify(&mut call);
    assert!(!call.has_terminated());
}

#[test]
fn length_hook_counts_messages() {
    let mut hook = LengthLimit { limit: 2 };
    let mut c = Conversation::new();
    c.add_message(Message::from_text("one".to_string()));
    hook.notify(&mut c);
    assert!(!c.has_terminated());
    c.add_message(Message::from_text("two".to_string()));
    hook.notify(&mut c);
    assert!(c.has_terminated());
}

#[test]
fn initiate_chat_signs_the_seed() {
    // The initiator supplies the seed message and never asks its model for
    // the first turn; the recipient's hook sees the seed immediately.
    let mut a: AutoAgent<NoCallback, AlwaysText, LengthLimit> = AutoAgent::new(
        AlwaysText {
            line: "hi".to_string(),
        },
        "A",
    )
    .with_notifications(Some(LengthLimit { limit: 1 }));
    let mut b: AutoAgent<NoCallback, AlwaysText, LengthLimit> = AutoAgent::new(
        AlwaysText {
            line: "hi".to_string(),
        },
        "B",
    )
    .with_notifications(Some(LengthLimit { limit: 1 }));
    let seed = Message::from_text("opening".to_string());
    assert!(a.initiate_chat(&mut b, seed).is_ok());
}
