//! The named collection of callable functions an agent resolves calls
//! against.
//!
//! Lookup is by exact name, first match first; duplicate names are refused
//! at registration rather than tolerated at call time.  During a dispatch
//! the registry is only ever shared read-only, so resolving a call performs
//! no side effect on it.

use vstd::prelude::*;
use crate::errors::EngineError;
use crate::function::{AgentFunction, FunctionBehavior, args_conform, conforms};
use crate::message::{CallView, FunctionCall};

verus! {

/// Index of the first entry carrying `name`, searching from position `i`.
pub open spec fn registry_lookup_from<C: FunctionBehavior>(
    entries: Seq<AgentFunction<C>>,
    name: Seq<char>,
    i: int,
) -> Option<int>
    decreases entries.len() - i,
{
    if i < 0 || i >= entries.len() {
        None
    } else if entries[i].name@ == name {
        Some(i)
    } else {
        registry_lookup_from(entries, name, i + 1)
    }
}

/// Index of the first entry carrying `name`, if any.
pub open spec fn registry_lookup<C: FunctionBehavior>(
    entries: Seq<AgentFunction<C>>,
    name: Seq<char>,
) -> Option<int> {
    registry_lookup_from(entries, name, 0)
}

/// A successful lookup lands on the first entry carrying the name; a
/// failed one means no entry from the start position on carries it.
pub proof fn lemma_registry_lookup_from<C: FunctionBehavior>(
    entries: Seq<AgentFunction<C>>,
    name: Seq<char>,
    i: int,
)
    requires
        0 <= i,
    ensures
        registry_lookup_from(entries, name, i) matches Some(j) ==> i <= j < entries.len()
            && entries[j].name@ == name && forall|k: int|
            i <= k < j ==> (#[trigger] entries[k]).name@ != name,
        registry_lookup_from(entries, name, i) is None ==> forall|k: int|
            i <= k < entries.len() ==> (#[trigger] entries[k]).name@ != name,
    decreases entries.len() - i,
{
    if 0 <= i < entries.len() && entries[i].name@ != name {
        lemma_registry_lookup_from(entries, name, i + 1);
    }
}

/// Whether no two entries share a name.
pub open spec fn names_unique<C: FunctionBehavior>(entries: Seq<AgentFunction<C>>) -> bool {
    forall|i: int, j: int|
        0 <= i < j < entries.len() ==> (#[trigger] entries[i]).name@ != (
        #[trigger] entries[j]).name@
}

/// Lookup determinism: in a registry with unique names, the entry a
/// resolved call is answered by is the one and only entry carrying the
/// call's name.
pub proof fn lemma_unique_lookup<C: FunctionBehavior>(
    entries: Seq<AgentFunction<C>>,
    name: Seq<char>,
    k: int,
)
    requires
        names_unique(entries),
        0 <= k < entries.len(),
        entries[k].name@ == name,
    ensures
        registry_lookup(entries, name) == Some(k),
{
    lemma_registry_lookup_from(entries, name, 0);
    match registry_lookup(entries, name) {
        None => {
            assert(entries[k].name@ != name);
        },
        Some(j) => {
            if j < k {
                assert(entries[j].name@ != entries[k].name@);
            } else if k < j {
                assert(entries[k].name@ != name);
            }
        },
    }
}

/// The entries whose verdict is true, in their original order: entry `i`
/// survives exactly when `kept[i]` holds.
pub open spec fn filtered<C: FunctionBehavior>(
    entries: Seq<AgentFunction<C>>,
    kept: Seq<bool>,
) -> Seq<AgentFunction<C>>
    decreases entries.len(),
{
    if entries.len() == 0 {
        Seq::empty()
    } else if kept[entries.len() - 1] {
        filtered(entries.drop_last(), kept).push(entries.last())
    } else {
        filtered(entries.drop_last(), kept)
    }
}

/// `filtered` reads only the verdicts of positions the entries occupy.
pub proof fn lemma_filtered_congruence<C: FunctionBehavior>(
    entries: Seq<AgentFunction<C>>,
    k1: Seq<bool>,
    k2: Seq<bool>,
)
    requires
        forall|i: int| 0 <= i < entries.len() ==> #[trigger] k1[i] == k2[i],
    ensures
        filtered(entries, k1) == filtered(entries, k2),
    decreases entries.len(),
{
    if entries.len() > 0 {
        lemma_filtered_congruence(entries.drop_last(), k1, k2);
    }
}

/// Filtering never lengthens the entries.
pub proof fn lemma_filtered_len<C: FunctionBehavior>(
    entries: Seq<AgentFunction<C>>,
    kept: Seq<bool>,
)
    ensures
        filtered(entries, kept).len() <= entries.len(),
    decreases entries.len(),
{
    if entries.len() > 0 {
        lemma_filtered_len(entries.drop_last(), kept);
    }
}

/// One more verdict extends a filtered prefix by the next entry or not,
/// according to the verdict.
pub proof fn lemma_filtered_extend<C: FunctionBehavior>(
    entries: Seq<AgentFunction<C>>,
    d: Seq<bool>,
    b: bool,
)
    requires
        d.len() < entries.len(),
    ensures
        filtered(entries.subrange(0, d.len() as int + 1), d.push(b)) == if b {
            filtered(entries.subrange(0, d.len() as int), d).push(entries[d.len() as int])
        } else {
            filtered(entries.subrange(0, d.len() as int), d)
        },
{
    let j = d.len() as int;
    let longer = entries.subrange(0, j + 1);
    let shorter = entries.subrange(0, j);
    assert(longer.drop_last() =~= shorter);
    assert(longer.last() == entries[j]);
    assert(d.push(b)[j] == b);
    lemma_filtered_congruence(shorter, d.push(b), d);
}

/// An ordered collection of callable functions.
pub struct FunctionsRegistry<C: FunctionBehavior> {
    pub registry: Vec<AgentFunction<C>>,
}

impl<C: FunctionBehavior> FunctionsRegistry<C> {
    /// Whether some entry carries `name`.
    pub open spec fn contains_name(&self, name: Seq<char>) -> bool {
        registry_lookup(self.registry@, name) is Some
    }

    /// An empty registry.
    pub fn new() -> (r: FunctionsRegistry<C>)
        ensures
            r.registry@.len() == 0,
    {
        FunctionsRegistry { registry: Vec::new() }
    }

    /// Position of the first entry carrying `name`, if any.
    pub fn position_of(&self, name: &String) -> (r: Option<usize>)
        ensures
            match r {
                Some(j) => registry_lookup(self.registry@, name@) == Some(j as int) && j
                    < self.registry@.len(),
                None => registry_lookup(self.registry@, name@) is None,
            },
    {
        let mut i: usize = 0;
        while i < self.registry.len()
            invariant
                i <= self.registry@.len(),
                registry_lookup(self.registry@, name@) == registry_lookup_from(
                    self.registry@,
                    name@,
                    i as int,
                ),
            decreases self.registry@.len() - i,
        {
            if self.registry[i].name == *name {
                return Some(i);
            }
            i = i + 1;
        }
        None
    }

    /// Register a function.  A name already present is refused: the
    /// registry is unchanged and the result is false.  Registration is
    /// therefore what keeps names unique.
    pub fn push(&mut self, function: AgentFunction<C>) -> (added: bool)
        ensures
            added == !old(self).contains_name(function.name@),
            added ==> final(self).registry@ == old(self).registry@.push(function),
            !added ==> *final(self) == *old(self),
            names_unique(old(self).registry@) ==> names_unique(final(self).registry@),
    {
        match self.position_of(&function.name) {
            Some(_) => false,
            None => {
                proof {
                    lemma_registry_lookup_from(self.registry@, function.name@, 0);
                }
                let ghost before = self.registry@;
                self.registry.push(function);
                proof {
                    if names_unique(before) {
                        assert forall|i: int, j: int|
                            0 <= i < j < self.registry@.len() implies (
                        #[trigger] self.registry@[i]).name@ != (
                        #[trigger] self.registry@[j]).name@ by {
                            if j < before.len() as int {
                                assert(before[i].name@ != before[j].name@);
                            } else {
                                assert(self.registry@[j] == function);
                                assert(before[i].name@ != function.name@);
                            }
                        }
                    }
                }
                true
            },
        }
    }

    /// Keep only the entries the predicate accepts, in their original
    /// order: afterwards the entries are exactly `filtered` over some
    /// sequence of per-entry verdicts, each a possible answer of the
    /// predicate on its entry.  Every surviving entry is one of the old
    /// entries, so a registry with unique names keeps them unique.
    #[verifier::loop_isolation(false)]
    pub fn retain<F: Fn(&AgentFunction<C>) -> bool>(&mut self, f: F)
        requires
            forall|x: &AgentFunction<C>| #[trigger] call_requires(f, (x,)),
        ensures
            final(self).registry@.len() <= old(self).registry@.len(),
            exists|kept: Seq<bool>|
                {
                    &&& kept.len() == old(self).registry@.len()
                    &&& (forall|j: int|
                        0 <= j < kept.len() ==> call_ensures(
                            f,
                            (&old(self).registry@[j],),
                            #[trigger] kept[j],
                        ))
                    &&& final(self).registry@ == #[trigger] filtered(
                        old(self).registry@,
                        kept,
                    )
                },
    {
        let ghost orig = self.registry@;
        let mut stack: Vec<AgentFunction<C>> = Vec::new();
        while self.registry.len() > 0
            invariant
                self.registry@.len() + stack@.len() == orig.len(),
                self.registry@ == orig.subrange(0, self.registry@.len() as int),
                forall|k: int|
                    0 <= k < stack@.len() ==> #[trigger] stack@[k] == orig[orig.len() - 1 - k],
            decreases self.registry@.len(),
        {
            proof {
                assert(self.registry@.last() == orig[self.registry@.len() - 1]);
            }
            let x = self.registry.pop().unwrap();
            stack.push(x);
            proof {
                assert(self.registry@ =~= orig.subrange(0, self.registry@.len() as int));
            }
        }
        let ghost mut d: Seq<bool> = Seq::empty();
        proof {
            assert(orig.subrange(0, 0) =~= Seq::<AgentFunction<C>>::empty());
        }
        while stack.len() > 0
            invariant
                d.len() + stack@.len() == orig.len(),
                forall|k: int|
                    0 <= k < stack@.len() ==> #[trigger] stack@[k] == orig[orig.len() - 1 - k],
                forall|j: int|
                    0 <= j < d.len() ==> call_ensures(f, (&orig[j],), #[trigger] d[j]),
                self.registry@ == filtered(orig.subrange(0, d.len() as int), d),
            decreases stack@.len(),
        {
            let ghost j = d.len() as int;
            proof {
                assert(stack@.last() == orig[orig.len() - 1 - (stack@.len() - 1)]);
                assert(orig.len() - 1 - (stack@.len() - 1) == j);
            }
            let x = stack.pop().unwrap();
            let b = f(&x);
            proof {
                assert(x == orig[j]);
                assert(call_ensures(f, (&orig[j],), b));
                let d2 = d.push(b);
                lemma_filtered_extend(orig, d, b);
                d = d2;
            }
            if b {
                self.registry.push(x);
            }
        }
        proof {
            assert(orig.subrange(0, d.len() as int) =~= orig);
            lemma_filtered_len(orig, d);
            assert(self.registry@ == filtered(orig, d));
        }
    }

    /// Resolve and run a function call.
    ///
    /// A name that matches no entry is not an error: the call is reported
    /// unresolved (`Ok(None)`) so the caller can decide how to treat it.  A
    /// matched entry first has the arguments validated against its declared
    /// parameter shape; a mismatch is a hard error naming the function.  A
    /// valid call is answered by exactly the first matching entry's
    /// callback, invoked with these arguments and a reference to this same
    /// registry.
    pub fn call(&self, function_call: &FunctionCall) -> (r: Result<Option<String>, EngineError>)
        ensures
            match registry_lookup(self.registry@, function_call.name@) {
                None => r == Ok::<Option<String>, EngineError>(None),
                Some(j) => {
                    if args_conform(function_call.arguments@, self.registry@[j].parameters@) {
                        &&& r matches Ok(res)
                        &&& res matches Some(s)
                        &&& s@ == self.registry@[j].callback.response(
                            *self,
                            function_call.arguments@,
                        )
                    } else {
                        &&& r matches Err(e)
                        &&& e matches EngineError::SchemaMismatch(n)
                        &&& n@ == function_call.name@
                    }
                },
            },
    {
        match self.position_of(&function_call.name) {
            None => Ok(None),
            Some(j) => {
                let f = &self.registry[j];
                if conforms(&function_call.arguments, &f.parameters) {
                    Ok(Some(f.call(self, &function_call.arguments)))
                } else {
                    Err(EngineError::SchemaMismatch(function_call.name.clone()))
                }
            },
        }
    }
}

/// What a call answers through a registry: the first matching entry's
/// response when the name matches and the arguments fit its declared
/// shape, nothing otherwise.
pub open spec fn resolved_text<C: FunctionBehavior>(
    reg: FunctionsRegistry<C>,
    c: CallView,
) -> Option<Seq<char>> {
    match registry_lookup(reg.registry@, c.name) {
        None => None,
        Some(j) => if args_conform(c.arguments, reg.registry@[j].parameters@) {
            Some(reg.registry@[j].callback.response(reg, c.arguments))
        } else {
            None
        },
    }
}

impl<C: FunctionBehavior> From<Vec<AgentFunction<C>>> for FunctionsRegistry<C> {
    /// A registry over exactly the given entries, in order.  Entries are
    /// taken as they come; `push` is the path that refuses duplicates.
    fn from(registry: Vec<AgentFunction<C>>) -> (r: FunctionsRegistry<C>) {
        FunctionsRegistry { registry }
    }
}

impl<C: FunctionBehavior> vstd::std_specs::convert::FromSpecImpl<Vec<AgentFunction<C>>>
    for FunctionsRegistry<C> {
    open spec fn obeys_from_spec() -> bool {
        true
    }

    open spec fn from_spec(v: Vec<AgentFunction<C>>) -> FunctionsRegistry<C> {
        FunctionsRegistry { registry: v }
    }
}

} // verus!
