//! Callable functions: declared parameter shapes and callbacks.
//!
//! An `AgentFunction` pairs a unique name and a declared parameter shape
//! with a callback.  The shape is fixed at construction; arguments are
//! validated against it at dispatch time, not at construction time.

use vstd::prelude::*;
use crate::json::{JsonValue, ValueView, object_lookup, value_views, lemma_value_views};
use crate::message::CallView;
use crate::registry::FunctionsRegistry;

verus! {

/// The type a declared parameter accepts.
///
/// `Text` accepts a plain string value; `CallList` accepts an ordered list
/// of function invocations, the shape the fan-out function declares.
#[derive(Clone, Copy, Debug, PartialEq, Eq, Structural)]
pub enum ParameterType {
    Number,
    Text,
    CallList,
}

/// One declared parameter of a callable function.
#[derive(Debug, PartialEq)]
pub struct FunctionParameter {
    pub name: String,
    pub type_: ParameterType,
    pub description: String,
}

impl FunctionParameter {
    /// A numeric parameter with an empty description.
    pub fn number(name: &str) -> (r: FunctionParameter)
        ensures
            r.name@ == name@,
            r.type_ == ParameterType::Number,
            r.description@.len() == 0,
    {
        FunctionParameter {
            name: name.to_owned(),
            type_: ParameterType::Number,
            description: String::new(),
        }
    }

    /// A plain-text parameter with an empty description.
    pub fn string(name: &str) -> (r: FunctionParameter)
        ensures
            r.name@ == name@,
            r.type_ == ParameterType::Text,
            r.description@.len() == 0,
    {
        FunctionParameter {
            name: name.to_owned(),
            type_: ParameterType::Text,
            description: String::new(),
        }
    }

    /// A parameter accepting an ordered list of function invocations.
    pub fn call_list(name: &str) -> (r: FunctionParameter)
        ensures
            r.name@ == name@,
            r.type_ == ParameterType::CallList,
            r.description@.len() == 0,
    {
        FunctionParameter {
            name: name.to_owned(),
            type_: ParameterType::CallList,
            description: String::new(),
        }
    }

    /// The same parameter with its description replaced.
    pub fn with_description(self, description: &str) -> (r: FunctionParameter)
        ensures
            r.name@ == self.name@,
            r.type_ == self.type_,
            r.description@ == description@,
    {
        FunctionParameter { description: description.to_owned(), ..self }
    }
}

/// The behaviour of a registered function: what its callback returns.
///
/// This is the extension point a host implements for its own functions; the
/// engine only relies on the stated contract.  The callback receives a
/// reference to the owning registry so that a registry-aware function can
/// resolve nested calls through it (lookup only, never ownership), and must
/// not panic.  Note that the contract makes the answer a function of the
/// callback value, the registry and the arguments alone: a callback whose
/// answer depends on anything else — I/O, time, randomness — cannot
/// honestly meet it, and should carry what it depends on in the callback
/// value itself.
pub trait FunctionBehavior: Sized {
    /// The text this callback answers for the given registry and arguments.
    spec fn response(&self, registry: FunctionsRegistry<Self>, args: ValueView) -> Seq<char>;

    /// Run the callback.
    fn invoke(&self, registry: &FunctionsRegistry<Self>, args: &JsonValue) -> (r: String)
        ensures
            r@ == self.response(*registry, args@),
    ;
}

/// A callable function: unique name, description, declared parameter shape,
/// and the callback that answers it.
pub struct AgentFunction<C: FunctionBehavior> {
    pub name: String,
    pub description: String,
    pub parameters: Vec<FunctionParameter>,
    pub callback: C,
}

impl<C: FunctionBehavior> AgentFunction<C> {
    /// A function with the given name, declared parameter shape and
    /// callback, and an empty description.  The shape is immutable from
    /// here on.
    pub fn new(name: &str, parameters: Vec<FunctionParameter>, callback: C) -> (r: AgentFunction<
        C,
    >)
        ensures
            r.name@ == name@,
            r.description@.len() == 0,
            r.parameters == parameters,
            r.callback == callback,
    {
        AgentFunction { name: name.to_owned(), description: String::new(), parameters, callback }
    }

    /// The same function with its description replaced.
    pub fn with_description(self, description: &str) -> (r: AgentFunction<C>)
        ensures
            r.name@ == self.name@,
            r.description@ == description@,
            r.parameters == self.parameters,
            r.callback == self.callback,
    {
        AgentFunction { description: description.to_owned(), ..self }
    }

    /// Invoke the callback with a reference to the owning registry.
    /// Arguments are not validated here; dispatch validates them first.
    pub fn call(&self, registry: &FunctionsRegistry<C>, arguments: &JsonValue) -> (r: String)
        ensures
            r@ == self.callback.response(*registry, arguments@),
    {
        self.callback.invoke(registry, arguments)
    }
}

/// The function invocation described by a structured value, if it has the
/// shape of one: an object with a text `name` field and an `arguments`
/// field.
pub open spec fn call_view_of(v: ValueView) -> Option<CallView> {
    match v {
        ValueView::Object(fields) => match (
            object_lookup(fields, "name"@),
            object_lookup(fields, "arguments"@),
        ) {
            (Some(ValueView::Text(n)), Some(a)) => Some(CallView { name: n, arguments: a }),
            _ => None,
        },
        _ => None,
    }
}

/// The invocations described by a sequence of structured values, if every
/// element describes one.
pub open spec fn calls_of_seq(items: Seq<ValueView>) -> Option<Seq<CallView>>
    decreases items.len(),
{
    if items.len() == 0 {
        Some(Seq::empty())
    } else {
        match (calls_of_seq(items.drop_last()), call_view_of(items.last())) {
            (Some(rest), Some(c)) => Some(rest.push(c)),
            _ => None,
        }
    }
}

/// `calls_of_seq` succeeds exactly when every element describes a call, and
/// then maps `call_view_of` pointwise.
pub proof fn lemma_calls_of_seq(items: Seq<ValueView>)
    ensures
        (calls_of_seq(items) is Some) <==> (forall|i: int|
            0 <= i < items.len() ==> call_view_of(#[trigger] items[i]) is Some),
        calls_of_seq(items) matches Some(cs) ==> cs.len() == items.len() && forall|i: int|
            0 <= i < items.len() ==> Some(#[trigger] cs[i]) == call_view_of(items[i]),
    decreases items.len(),
{
    if items.len() > 0 {
        let sub = items.drop_last();
        lemma_calls_of_seq(sub);
        if calls_of_seq(items) is Some {
            assert forall|i: int|
                0 <= i < items.len() implies call_view_of(#[trigger] items[i]) is Some by {
                if i < items.len() - 1 {
                    assert(sub[i] == items[i]);
                    assert(call_view_of(sub[i]) is Some);
                } else {
                    assert(items[i] == items.last());
                }
            }
            let rest = calls_of_seq(sub)->Some_0;
            let c = call_view_of(items.last())->Some_0;
            let cs = calls_of_seq(items)->Some_0;
            assert(cs == rest.push(c));
            assert forall|i: int|
                0 <= i < items.len() implies Some(#[trigger] cs[i]) == call_view_of(items[i]) by {
                if i < items.len() - 1 {
                    assert(cs[i] == rest[i]);
                    assert(Some(rest[i]) == call_view_of(sub[i]));
                    assert(sub[i] == items[i]);
                } else {
                    assert(cs[i] == c);
                    assert(items[i] == items.last());
                }
            }
        } else {
            if calls_of_seq(sub) is None {
                assert(!forall|i: int|
                    0 <= i < sub.len() ==> call_view_of(#[trigger] sub[i]) is Some);
                let w = choose|i: int|
                    0 <= i < sub.len() && !(call_view_of(#[trigger] sub[i]) is Some);
                assert(items[w] == sub[w]);
                assert(!(call_view_of(items[w]) is Some));
            } else {
                assert(!(call_view_of(items.last()) is Some));
                assert(items[items.len() - 1] == items.last());
                assert(!(call_view_of(items[items.len() - 1]) is Some));
            }
        }
    }
}

/// Whether a value fits a declared parameter type.
pub open spec fn kind_matches(v: ValueView, t: ParameterType) -> bool {
    match t {
        ParameterType::Number => v is Int,
        ParameterType::Text => v is Text,
        ParameterType::CallList => v matches ValueView::Array(items) && calls_of_seq(items)
            is Some,
    }
}

/// Whether an argument object satisfies one declared parameter: a field
/// with its name exists and fits its type.
pub open spec fn param_matched(
    fields: Seq<(Seq<char>, ValueView)>,
    p: FunctionParameter,
) -> bool {
    object_lookup(fields, p.name@) matches Some(v) && kind_matches(v, p.type_)
}

/// Whether arguments fit a declared parameter shape: they form an object,
/// and every declared parameter is matched.  Fields beyond the declared
/// parameters are tolerated.
pub open spec fn args_conform(args: ValueView, params: Seq<FunctionParameter>) -> bool {
    args matches ValueView::Object(fields) && forall|i: int|
        0 <= i < params.len() ==> param_matched(fields, #[trigger] params[i])
}

/// Whether a structured value describes a function invocation.
pub fn describes_call(v: &JsonValue) -> (r: bool)
    ensures
        r == (call_view_of(v@) is Some),
{
    let name_key: String = "name".to_owned();
    let args_key: String = "arguments".to_owned();
    let named = match crate::json::get_field(v, &name_key) {
        Some(n) => match n {
            JsonValue::Text(_) => true,
            _ => false,
        },
        None => false,
    };
    if !named {
        return false;
    }
    match crate::json::get_field(v, &args_key) {
        Some(_) => true,
        None => false,
    }
}

/// Whether every element of an array value describes a function
/// invocation.
pub fn describes_call_list(items: &Vec<JsonValue>) -> (r: bool)
    ensures
        r == (calls_of_seq(value_views(items@)) is Some),
{
    proof {
        lemma_value_views(items@);
        lemma_calls_of_seq(value_views(items@));
    }
    let mut i: usize = 0;
    while i < items.len()
        invariant
            i <= items.len(),
            value_views(items@).len() == items@.len(),
            forall|k: int| 0 <= k < items@.len() ==> #[trigger] value_views(items@)[k]
                == items@[k]@,
            (calls_of_seq(value_views(items@)) is Some) <==> (forall|k: int|
                0 <= k < items@.len() ==> call_view_of(#[trigger] value_views(items@)[k])
                    is Some),
            forall|k: int| 0 <= k < i as int ==> call_view_of(#[trigger] value_views(items@)[k])
                is Some,
        decreases items.len() - i,
    {
        if !describes_call(&items[i]) {
            proof {
                assert(value_views(items@)[i as int] == items@[i as int]@);
            }
            return false;
        }
        i = i + 1;
    }
    true
}

/// Check arguments against a declared parameter shape.
pub fn conforms(args: &JsonValue, params: &Vec<FunctionParameter>) -> (r: bool)
    ensures
        r == args_conform(args@, params@),
{
    let fields_len = match args {
        JsonValue::Object(_) => true,
        _ => false,
    };
    if !fields_len {
        return false;
    }
    let mut i: usize = 0;
    while i < params.len()
        invariant
            i <= params.len(),
            args@ is Object,
            forall|k: int| 0 <= k < i as int ==> param_matched(
                args@->Object_0,
                #[trigger] params@[k],
            ),
        decreases params.len() - i,
    {
        let p = &params[i];
        let ok = match crate::json::get_field(args, &p.name) {
            Some(v) => match (p.type_, v) {
                (ParameterType::Number, JsonValue::Int(_)) => true,
                (ParameterType::Text, JsonValue::Text(_)) => true,
                (ParameterType::CallList, JsonValue::Array(items)) => describes_call_list(items),
                _ => false,
            },
            None => false,
        };
        if !ok {
            return false;
        }
        i = i + 1;
    }
    true
}

} // verus!
