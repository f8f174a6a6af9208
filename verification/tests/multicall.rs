//! The fan-out function: several nested calls in one invocation, answers
//! joined in input order, misses omitted.

use agents::function::{AgentFunction, FunctionBehavior, FunctionParameter, ParameterType};
use agents::json::JsonValue;
use agents::message::FunctionCall;
use agents::multicall::{run_multicall, MultiCall};
use agents::registry::FunctionsRegistry;

enum Callback {
    Fixed(String),
    Multi,
}

impl FunctionBehavior for Callback {
    fn response(
        &self,
        _registry: FunctionsRegistry<Self>,
        _args: agents::json::ValueView,
    ) -> vstd::seq::Seq<char> {
        unreachable!()
    }

    fn invoke(&self, registry: &FunctionsRegistry<Self>, args: &JsonValue) -> String {
        match self {
            Callback::Fixed(answer) => answer.clone(),
            Callback::Multi => run_multicall(registry, args),
        }
    }
}

fn call_value(name: &str, arguments: JsonValue) -> JsonValue {
    JsonValue::Object(vec![
        ("name".to_string(), JsonValue::Text(name.to_string())),
        ("arguments".to_string(), arguments),
    ])
}

fn calls_value(calls: Vec<JsonValue>) -> JsonValue {
    JsonValue::Object(vec![("calls".to_string(), JsonValue::Array(calls))])
}

fn registry_with_two() -> FunctionsRegistry<Callback> {
    let mut registry: FunctionsRegistry<Callback> = FunctionsRegistry::new();
    assert!(registry.push(AgentFunction::new(
        "f",
        vec![FunctionParameter::number("x")],
        Callback::Fixed("f-answer".to_string()),
    )));
    assert!(registry.push(AgentFunction::new(
        "g",
        vec![FunctionParameter::number("y")],
        Callback::Fixed("g-answer".to_string()),
    )));
    assert!(registry.push(MultiCall::function(Callback::Multi)));
    registry
}

fn f_call() -> JsonValue {
    call_value(
        "f",
        JsonValue::Object(vec![("x".to_string(), JsonValue::Int(1))]),
    )
}

fn g_call() -> JsonValue {
    call_value(
        "g",
        JsonValue::Object(vec![("y".to_string(), JsonValue::Int(2))]),
    )
}

#[test]
fn fan_out_joins_results_in_input_order() {
    let registry = registry_with_two();
    let r = registry.call(&FunctionCall {
        name: "multicall".to_string(),
        arguments: calls_value(vec![f_call(), g_call()]),
    });
    assert_eq!(r, Ok(Some("f-answer, g-answer".to_string())));
    // The opposite input order gives the opposite result order.
    let r = registry.call(&FunctionCall {
        name: "multicall".to_string(),
        arguments: calls_value(vec![g_call(), f_call()]),
    });
    assert_eq!(r, Ok(Some("g-answer, f-answer".to_string())));
}

#[test]
fn missing_nested_calls_are_omitted() {
    let registry = registry_with_two();
    let r = registry.call(&FunctionCall {
        name: "multicall".to_string(),
        arguments: calls_value(vec![
            f_call(),
            call_value("unknown", JsonValue::Null),
            g_call(),
        ]),
    });
    assert_eq!(r, Ok(Some("f-answer, g-answer".to_string())));
}

#[test]
fn invalid_nested_arguments_are_omitted() {
    let registry = registry_with_two();
    // The nested f call carries a string where a number is declared.
    let bad_f = call_value(
        "f",
        JsonValue::Object(vec![("x".to_string(), JsonValue::Text("one".to_string()))]),
    );
    let r = registry.call(&FunctionCall {
        name: "multicall".to_string(),
        arguments: calls_value(vec![bad_f, g_call()]),
    });
    assert_eq!(r, Ok(Some("g-answer".to_string())));
}

#[test]
fn empty_call_list_joins_to_nothing() {
    let registry = registry_with_two();
    let r = registry.call(&FunctionCall {
        name: "multicall".to_string(),
        arguments: calls_value(vec![]),
    });
    assert_eq!(r, Ok(Some(String::new())));
}

#[test]
fn malformed_multicall_arguments_are_a_schema_mismatch() {
    let registry = registry_with_two();
    // The calls field holds an element that is no function invocation, so
    // the arguments do not fit multicall's declared shape.
    let r = registry.call(&FunctionCall {
        name: "multicall".to_string(),
        arguments: calls_value(vec![JsonValue::Int(5)]),
    });
    assert_eq!(
        r,
        Err(agents::errors::EngineError::SchemaMismatch(
            "multicall".to_string()
        ))
    );
}

#[test]
fn multicall_entry_shape() {
    let entry = MultiCall::function(Callback::Multi);
    assert_eq!(entry.name, "multicall");
    assert_eq!(entry.description, "Call multiple functions at once.");
    assert_eq!(entry.parameters.len(), 1);
    assert_eq!(entry.parameters[0].name, "calls");
    assert_eq!(entry.parameters[0].type_, ParameterType::CallList);
}
