//! Registry behaviour: lookup by exact name, argument validation against
//! the declared shape, duplicate refusal, and filtering.

use agents::errors::EngineError;
use agents::function::{AgentFunction, FunctionBehavior, FunctionParameter};
use agents::json::JsonValue;
use agents::message::FunctionCall;
use agents::registry::FunctionsRegistry;

/// Callbacks that answer a fixed text each, so tests can tell exactly
/// which one ran.
struct FixedAnswer {
    answer: String,
}

impl FunctionBehavior for FixedAnswer {
    fn response(
        &self,
        _registry: FunctionsRegistry<Self>,
        _args: agents::json::ValueView,
    ) -> vstd::seq::Seq<char> {
        unreachable!()
    }

    fn invoke(&self, _registry: &FunctionsRegistry<Self>, _args: &JsonValue) -> String {
        self.answer.clone()
    }
}

fn fixed(name: &str, answer: &str, params: Vec<FunctionParameter>) -> AgentFunction<FixedAnswer> {
    AgentFunction::new(
        name,
        params,
        FixedAnswer {
            answer: answer.to_string(),
        },
    )
}

fn sample_registry() -> FunctionsRegistry<FixedAnswer> {
    let mut registry: FunctionsRegistry<FixedAnswer> = FunctionsRegistry::new();
    assert!(registry.push(fixed("alpha", "from alpha", vec![FunctionParameter::number("n")])));
    assert!(registry.push(fixed("beta", "from beta", vec![FunctionParameter::string("s")])));
    registry
}

#[test]
fn call_invokes_exactly_the_named_function() {
    let registry = sample_registry();
    let r = registry.call(&FunctionCall {
        name: "alpha".to_string(),
        arguments: JsonValue::Object(vec![("n".to_string(), JsonValue::Int(7))]),
    });
    assert_eq!(r, Ok(Some("from alpha".to_string())));
    let r = registry.call(&FunctionCall {
        name: "beta".to_string(),
        arguments: JsonValue::Object(vec![("s".to_string(), JsonValue::Text("x".to_string()))]),
    });
    assert_eq!(r, Ok(Some("from beta".to_string())));
}

#[test]
fn unknown_function_is_unresolved_not_an_error() {
    let registry = sample_registry();
    let r = registry.call(&FunctionCall {
        name: "gamma".to_string(),
        arguments: JsonValue::Null,
    });
    assert_eq!(r, Ok(None));
}

#[test]
fn empty_registry_resolves_nothing() {
    let registry: FunctionsRegistry<FixedAnswer> = FunctionsRegistry::new();
    let r = registry.call(&FunctionCall {
        name: "alpha".to_string(),
        arguments: JsonValue::Null,
    });
    assert_eq!(r, Ok(None));
}

#[test]
fn schema_mismatch_is_a_hard_error() {
    let registry = sample_registry();
    // Wrong type for the declared parameter.
    let r = registry.call(&FunctionCall {
        name: "alpha".to_string(),
        arguments: JsonValue::Object(vec![(
            "n".to_string(),
            JsonValue::Text("seven".to_string()),
        )]),
    });
    assert_eq!(r, Err(EngineError::SchemaMismatch("alpha".to_string())));
    // Missing the declared parameter.
    let r = registry.call(&FunctionCall {
        name: "alpha".to_string(),
        arguments: JsonValue::Object(vec![]),
    });
    assert_eq!(r, Err(EngineError::SchemaMismatch("alpha".to_string())));
    // Arguments that are no object at all.
    let r = registry.call(&FunctionCall {
        name: "alpha".to_string(),
        arguments: JsonValue::Int(3),
    });
    assert_eq!(r, Err(EngineError::SchemaMismatch("alpha".to_string())));
}

#[test]
fn extra_fields_are_tolerated() {
    let registry = sample_registry();
    let r = registry.call(&FunctionCall {
        name: "alpha".to_string(),
        arguments: JsonValue::Object(vec![
            ("n".to_string(), JsonValue::Int(7)),
            ("note".to_string(), JsonValue::Text("spare".to_string())),
        ]),
    });
    assert_eq!(r, Ok(Some("from alpha".to_string())));
}

#[test]
fn duplicate_names_are_refused_at_registration() {
    let mut registry = sample_registry();
    assert!(!registry.push(fixed("alpha", "impostor", vec![])));
    assert_eq!(registry.registry.len(), 2);
    // The original entry still answers.
    let r = registry.call(&FunctionCall {
        name: "alpha".to_string(),
        arguments: JsonValue::Object(vec![("n".to_string(), JsonValue::Int(1))]),
    });
    assert_eq!(r, Ok(Some("from alpha".to_string())));
}

#[test]
fn retain_keeps_only_accepted_entries() {
    let mut registry = sample_registry();
    registry.retain(|f: &AgentFunction<FixedAnswer>| f.name == "beta");
    assert_eq!(registry.registry.len(), 1);
    assert_eq!(registry.registry[0].name, "beta");
}

#[test]
fn registry_from_vector_keeps_order() {
    let registry = FunctionsRegistry::from(vec![
        fixed("one", "1", vec![]),
        fixed("two", "2", vec![]),
    ]);
    assert_eq!(registry.registry.len(), 2);
    assert_eq!(registry.registry[0].name, "one");
    assert_eq!(registry.registry[1].name, "two");
}

#[test]
fn with_description_replaces_only_the_description() {
    let f = fixed("alpha", "a", vec![FunctionParameter::number("n")])
        .with_description("answers alpha");
    assert_eq!(f.name, "alpha");
    assert_eq!(f.description, "answers alpha");
    assert_eq!(f.parameters.len(), 1);
}

#[test]
fn parameter_constructors() {
    let n = FunctionParameter::number("amount").with_description("how much");
    assert_eq!(n.name, "amount");
    assert_eq!(n.description, "how much");
    let s = FunctionParameter::string("origin");
    assert_eq!(s.name, "origin");
    assert_eq!(s.description, "");
    assert_ne!(n.type_, s.type_);
}

#[test]
fn error_reports_name_their_cause() {
    let schema = EngineError::SchemaMismatch("alpha".to_string());
    assert_eq!(
        schema.describe(),
        "arguments do not fit the parameters of alpha"
    );
    let model = EngineError::ModelClientFailure("timed out".to_string());
    assert_eq!(model.describe(), "the model client failed: timed out");
}
