//! The data model: structured values, messages, and the conversation's
//! append-only history with its monotonic termination flag.

use agents::conversation::Conversation;
use agents::json::{dup_value, get_field, render_value, JsonValue};
use agents::message::{Content, FunctionCall, Message};

fn sample_value() -> JsonValue {
    JsonValue::Object(vec![
        ("amount".to_string(), JsonValue::Int(100)),
        ("negative".to_string(), JsonValue::Int(-42)),
        ("note".to_string(), JsonValue::Text("say \"hi\"".to_string())),
        (
            "tags".to_string(),
            JsonValue::Array(vec![
                JsonValue::Bool(true),
                JsonValue::Null,
                JsonValue::Int(0),
            ]),
        ),
    ])
}

#[test]
fn rendering_a_value() {
    assert_eq!(render_value(&JsonValue::Null), "null");
    assert_eq!(render_value(&JsonValue::Bool(true)), "true");
    assert_eq!(render_value(&JsonValue::Bool(false)), "false");
    assert_eq!(render_value(&JsonValue::Int(0)), "0");
    assert_eq!(render_value(&JsonValue::Int(907)), "907");
    assert_eq!(render_value(&JsonValue::Int(-42)), "-42");
    assert_eq!(
        render_value(&JsonValue::Text("say \"hi\"\\now".to_string())),
        "\"say \\\"hi\\\"\\\\now\""
    );
    assert_eq!(
        render_value(&sample_value()),
        "{\"amount\":100,\"negative\":-42,\"note\":\"say \\\"hi\\\"\",\"tags\":[true,null,0]}"
    );
}

#[test]
fn duplicating_a_value_preserves_it() {
    let v = sample_value();
    let copy = dup_value(&v);
    assert_eq!(copy, v);
}

#[test]
fn field_lookup_takes_the_first_match() {
    let v = JsonValue::Object(vec![
        ("k".to_string(), JsonValue::Int(1)),
        ("k".to_string(), JsonValue::Int(2)),
    ]);
    assert_eq!(get_field(&v, &"k".to_string()), Some(&JsonValue::Int(1)));
    assert_eq!(get_field(&v, &"missing".to_string()), None);
    assert_eq!(get_field(&JsonValue::Int(3), &"k".to_string()), None);
}

#[test]
fn signing_overwrites_provenance() {
    let mut m = Message::from_text("hello".to_string());
    assert_eq!(m.from, "");
    assert_eq!(m.to, "");
    m.sign("Alice", "Bob");
    assert_eq!(m.from, "Alice");
    assert_eq!(m.to, "Bob");
    m.sign("Carol", "Dan");
    assert_eq!(m.from, "Carol");
    assert_eq!(m.to, "Dan");
    assert_eq!(m.content.as_text().unwrap(), "hello");
}

#[test]
fn rendering_a_message() {
    let mut m = Message::from_text("hello".to_string());
    m.sign("Alice", "Bob");
    assert_eq!(m.render(), "Alice (to Bob):\nhello\n");

    let call = Message {
        from: "Alice".to_string(),
        to: "Alice".to_string(),
        content: Content::FunctionCall(FunctionCall {
            name: "quote_amount".to_string(),
            arguments: JsonValue::Object(vec![("amount".to_string(), JsonValue::Int(5))]),
        }),
    };
    assert_eq!(
        call.render(),
        "Alice (to Alice):\nquote_amount: {\"amount\":5}\n"
    );
}

#[test]
fn content_accessors_are_exhaustive() {
    let text = Content::Text("t".to_string());
    assert!(!text.is_function_call());
    assert_eq!(text.as_text().unwrap(), "t");
    assert!(text.as_function_call().is_none());

    let call = Content::FunctionCall(FunctionCall {
        name: "f".to_string(),
        arguments: JsonValue::Null,
    });
    assert!(call.is_function_call());
    assert!(call.as_text().is_none());
    assert_eq!(call.as_function_call().unwrap().name, "f");
}

#[test]
fn history_is_append_only_and_ordered() {
    let mut c = Conversation::new();
    assert_eq!(c.history().len(), 0);
    assert!(c.last_message().is_none());

    let mut first = Message::from_text("one".to_string());
    first.sign("A", "B");
    c.add_message(first);
    let mut second = Message::from_text("two".to_string());
    second.sign("B", "A");
    c.add_message(second);

    let history = c.history();
    assert_eq!(history.len(), 2);
    assert_eq!(history[0].content.as_text().unwrap(), "one");
    assert_eq!(history[1].content.as_text().unwrap(), "two");
    assert_eq!(c.last_message().unwrap().content.as_text().unwrap(), "two");
}

#[test]
fn termination_is_monotonic() {
    let mut c = Conversation::new();
    assert!(!c.has_terminated());
    c.terminate();
    assert!(c.has_terminated());
    // Idempotent, and appending never resets it.
    c.terminate();
    assert!(c.has_terminated());
    c.add_message(Message::from_text("late".to_string()));
    assert!(c.has_terminated());
    assert_eq!(c.history().len(), 1);
}
