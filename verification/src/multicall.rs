//! The registry-aware fan-out function.
//!
//! `multicall` lets a model issue several function calls in one turn: its
//! single argument is an ordered list of nested calls, each of which is
//! resolved through the *same* registry the multicall was dispatched from.
//! The non-missing results are joined with `", "` in input order.
//!
//! Policy for a nested call that cannot be answered — because its name
//! matches no entry, or its arguments do not fit the matched entry's
//! declared shape — it is omitted from the joined output rather than
//! failing the whole multicall.

use vstd::prelude::*;
use vstd::string::*;
use crate::function::{AgentFunction, FunctionBehavior, FunctionParameter, calls_of_seq,
    lemma_calls_of_seq, call_view_of};
use crate::json::{JsonValue, ValueView, object_lookup, value_views, lemma_value_views, dup_value};
use crate::message::{CallView, FunctionCall};
use crate::registry::{FunctionsRegistry, resolved_text};

verus! {

/// The fan-out meta-function; `MultiCall::function` turns it into a
/// registry entry.
pub struct MultiCall;

/// The nested calls described by a multicall argument value: an object
/// whose `calls` field is an array of function invocations.
pub open spec fn multicall_calls(args: ValueView) -> Option<Seq<CallView>> {
    match args {
        ValueView::Object(fields) => match object_lookup(fields, "calls"@) {
            Some(ValueView::Array(items)) => calls_of_seq(items),
            _ => None,
        },
        _ => None,
    }
}

/// The answered texts of a sequence of nested calls, in input order,
/// omitting the unanswered ones.
pub open spec fn resolved_texts<C: FunctionBehavior>(
    reg: FunctionsRegistry<C>,
    cs: Seq<CallView>,
) -> Seq<Seq<char>>
    decreases cs.len(),
{
    if cs.len() == 0 {
        Seq::empty()
    } else {
        match resolved_text(reg, cs.last()) {
            Some(t) => resolved_texts(reg, cs.drop_last()).push(t),
            None => resolved_texts(reg, cs.drop_last()),
        }
    }
}

/// Texts joined with `", "`, in order.
pub open spec fn joined(ts: Seq<Seq<char>>) -> Seq<char>
    decreases ts.len(),
{
    if ts.len() == 0 {
        Seq::empty()
    } else if ts.len() == 1 {
        ts[0]
    } else {
        joined(ts.drop_last()) + ", "@ + ts.last()
    }
}

/// What a multicall answers: the joined texts of its nested calls, or the
/// empty text when the argument value does not describe a list of calls.
pub open spec fn multicall_text<C: FunctionBehavior>(
    reg: FunctionsRegistry<C>,
    args: ValueView,
) -> Seq<char> {
    match multicall_calls(args) {
        Some(cs) => joined(resolved_texts(reg, cs)),
        None => Seq::empty(),
    }
}

impl MultiCall {
    /// The declared parameter shape of the fan-out function: one `calls`
    /// parameter holding an ordered list of function invocations.
    pub fn parameters() -> (r: Vec<FunctionParameter>)
        ensures
            r@.len() == 1,
            r@[0].name@ == "calls"@,
            r@[0].type_ == crate::function::ParameterType::CallList,
    {
        let mut r: Vec<FunctionParameter> = Vec::new();
        r.push(
            FunctionParameter::call_list("calls").with_description("The function calls to make"),
        );
        r
    }

    /// The fan-out function as a registry entry named `multicall`, answered
    /// by the given callback (which is expected to defer to
    /// `run_multicall`).
    pub fn function<C: FunctionBehavior>(callback: C) -> (r: AgentFunction<C>)
        ensures
            r.name@ == "multicall"@,
            r.description@ == "Call multiple functions at once."@,
            r.parameters@.len() == 1,
            r.parameters@[0].name@ == "calls"@,
            r.parameters@[0].type_ == crate::function::ParameterType::CallList,
            r.callback == callback,
    {
        AgentFunction::new("multicall", MultiCall::parameters(), callback).with_description(
            "Call multiple functions at once.",
        )
    }
}

/// Fan one invocation out into several registry calls and join the
/// results.
///
/// Every nested call is resolved through the registry this function is
/// handed — the same one the multicall itself was dispatched from.  The
/// answered results are joined with `", "` in input order; nested calls
/// that are unresolved or whose arguments do not fit are omitted.  An
/// argument value that does not describe a list of calls yields the empty
/// string; the dispatch that reaches a registered multicall has already
/// validated the shape, so that case is only reachable by calling this
/// function directly.
pub fn run_multicall<C: FunctionBehavior>(registry: &FunctionsRegistry<C>, args: &JsonValue) -> (r:
    String)
    ensures
        r@ == multicall_text(*registry, args@),
{
    let calls_key: String = "calls".to_owned();
    let name_key: String = "name".to_owned();
    let args_key: String = "arguments".to_owned();
    let items = match crate::json::get_field(args, &calls_key) {
        Some(v) => match v {
            JsonValue::Array(items) => items,
            _ => {
                return String::new();
            },
        },
        None => {
            return String::new();
        },
    };
    proof {
        lemma_value_views(items@);
        lemma_calls_of_seq(value_views(items@));
        assert(multicall_calls(args@) == calls_of_seq(value_views(items@)));
    }
    // Parse each element of the list into a function call.
    let mut calls: Vec<FunctionCall> = Vec::new();
    let mut i: usize = 0;
    while i < items.len()
        invariant
            i <= items.len(),
            name_key@ == "name"@,
            args_key@ == "arguments"@,
            multicall_calls(args@) == calls_of_seq(value_views(items@)),
            value_views(items@).len() == items@.len(),
            forall|k: int| 0 <= k < items@.len() ==> #[trigger] value_views(items@)[k]
                == items@[k]@,
            (calls_of_seq(value_views(items@)) is Some) <==> (forall|k: int|
                0 <= k < items@.len() ==> call_view_of(
                    #[trigger] value_views(items@)[k],
                ) is Some),
            calls@.len() == i as int,
            forall|k: int| 0 <= k < i as int ==> Some(calls@[k]@) == call_view_of(
                #[trigger] value_views(items@)[k],
            ),
        decreases items.len() - i,
    {
        let item = &items[i];
        proof {
            assert(value_views(items@)[i as int] == items@[i as int]@);
        }
        let name = match crate::json::get_field(item, &name_key) {
            Some(n) => match n {
                JsonValue::Text(name) => name.clone(),
                _ => {
                    proof {
                        assert(call_view_of(value_views(items@)[i as int]) is None);
                    }
                    return String::new();
                },
            },
            None => {
                proof {
                    assert(call_view_of(value_views(items@)[i as int]) is None);
                }
                return String::new();
            },
        };
        let arguments = match crate::json::get_field(item, &args_key) {
            Some(a) => dup_value(a),
            None => {
                proof {
                    assert(call_view_of(value_views(items@)[i as int]) is None);
                }
                return String::new();
            },
        };
        proof {
            assert(call_view_of(value_views(items@)[i as int]) == Some(
                CallView { name: name@, arguments: arguments@ },
            ));
        }
        calls.push(FunctionCall { name, arguments });
        i = i + 1;
    }
    let ghost cs = calls_of_seq(value_views(items@))->Some_0;
    proof {
        lemma_value_views(items@);
        lemma_calls_of_seq(value_views(items@));
        assert(calls_of_seq(value_views(items@)) is Some);
        assert(cs.len() == calls@.len());
        assert forall|k: int| 0 <= k < cs.len() implies #[trigger] cs[k] == calls@[k]@ by {
            assert(Some(cs[k]) == call_view_of(value_views(items@)[k]));
        }
    }
    // Resolve each call through the same registry and join the answers.
    let mut out = String::new();
    let mut answered = false;
    let mut j: usize = 0;
    while j < calls.len()
        invariant
            j <= calls.len(),
            multicall_calls(args@) == Some(cs),
            cs.len() == calls@.len(),
            forall|k: int| 0 <= k < cs.len() ==> #[trigger] cs[k] == calls@[k]@,
            answered == (resolved_texts(*registry, cs.subrange(0, j as int)).len() > 0),
            out@ == joined(resolved_texts(*registry, cs.subrange(0, j as int))),
        decreases calls.len() - j,
    {
        proof {
            assert(cs.subrange(0, j as int + 1).drop_last() =~= cs.subrange(0, j as int));
            assert(cs.subrange(0, j as int + 1).last() == cs[j as int]);
            assert(cs[j as int] == calls@[j as int]@);
        }
        let ghost rts = resolved_texts(*registry, cs.subrange(0, j as int));
        let ghost rts2 = resolved_texts(*registry, cs.subrange(0, j as int + 1));
        match registry.call(&calls[j]) {
            Ok(Some(result)) => {
                proof {
                    assert(resolved_text(*registry, cs[j as int]) == Some(result@));
                    assert(rts2 == rts.push(result@));
                    assert(rts.push(result@).drop_last() =~= rts);
                    assert(rts.push(result@).last() == result@);
                }
                if answered {
                    out.append(", ");
                } else {
                    proof {
                        assert(joined(rts2) == result@);
                    }
                }
                out.append(result.as_str());
                answered = true;
            },
            Ok(None) => {
                proof {
                    assert(resolved_text(*registry, cs[j as int]) is None);
                    assert(rts2 == rts);
                }
            },
            Err(_) => {
                proof {
                    assert(resolved_text(*registry, cs[j as int]) is None);
                    assert(rts2 == rts);
                }
            },
        }
        j = j + 1;
    }
    proof {
        assert(cs.subrange(0, calls@.len() as int) =~= cs);
    }
    out
}

/// Result order matches input call order: a multicall over exactly two
/// answered calls yields the first answer, `", "`, then the second answer,
/// regardless of anything else about the registry.
pub proof fn lemma_multicall_pair<C: FunctionBehavior>(
    reg: FunctionsRegistry<C>,
    args: ValueView,
    f: CallView,
    g: CallView,
    ft: Seq<char>,
    gt: Seq<char>,
)
    requires
        multicall_calls(args) == Some(seq![f, g]),
        resolved_text(reg, f) == Some(ft),
        resolved_text(reg, g) == Some(gt),
    ensures
        multicall_text(reg, args) == ft + ", "@ + gt,
{
    let cs = seq![f, g];
    let s1 = seq![f];
    let s0 = Seq::<CallView>::empty();
    assert(cs.drop_last() =~= s1);
    assert(s1.drop_last() =~= s0);
    assert(cs.last() == g);
    assert(s1.last() == f);
    assert(resolved_texts(reg, s0) =~= Seq::<Seq<char>>::empty());
    assert(resolved_texts(reg, s1) =~= seq![ft]);
    assert(resolved_texts(reg, cs) =~= seq![ft, gt]);
    let ts = seq![ft, gt];
    assert(ts.drop_last() =~= seq![ft]);
    assert(ts.last() == gt);
    assert(joined(seq![ft]) == ft);
    assert(joined(ts) == ft + ", "@ + gt);
}

} // verus!
