//! The static configuration a participant uses to shape every model call:
//! a system message and a registry of callable functions.

use vstd::prelude::*;
use crate::function::{AgentFunction, FunctionBehavior};
use crate::registry::{FunctionsRegistry, names_unique, registry_lookup};

verus! {

/// The registry entries after registering `fs` one by one on top of
/// `entries`, refusing every name already present.
pub open spec fn registered_all<C: FunctionBehavior>(
    entries: Seq<AgentFunction<C>>,
    fs: Seq<AgentFunction<C>>,
) -> Seq<AgentFunction<C>>
    decreases fs.len(),
{
    if fs.len() == 0 {
        entries
    } else {
        let prev = registered_all(entries, fs.drop_last());
        if registry_lookup(prev, fs.last().name@) is Some {
            prev
        } else {
            prev.push(fs.last())
        }
    }
}

/// A participant's static configuration: system message plus functions.
/// It is only mutated through the builder calls below, before a
/// conversation starts.
pub struct Instruction<C: FunctionBehavior> {
    pub message: String,
    pub functions: FunctionsRegistry<C>,
}

impl<C: FunctionBehavior> Instruction<C> {
    /// A configuration with the given system message and no functions.
    pub fn new(message: &str) -> (r: Instruction<C>)
        ensures
            r.message@ == message@,
            r.functions.registry@.len() == 0,
    {
        Instruction { message: message.to_owned(), functions: FunctionsRegistry::new() }
    }

    /// The same configuration with the given functions registered on top,
    /// in order; an entry whose name is already taken is refused.
    pub fn with_functions(self, functions: Vec<AgentFunction<C>>) -> (r: Instruction<C>)
        ensures
            r.message == self.message,
            r.functions.registry@ == registered_all(self.functions.registry@, functions@),
            names_unique(self.functions.registry@) ==> names_unique(r.functions.registry@),
    {
        let ghost fs = functions@;
        let mut out = self;
        let mut rest = functions;
        let mut taken: usize = 0;
        proof {
            assert(fs.subrange(0, 0) =~= Seq::<AgentFunction<C>>::empty());
            assert(fs.len() == vstd::std_specs::vec::spec_vec_len(&rest));
        }
        while rest.len() > 0
            invariant
                fs.len() <= usize::MAX,
                taken as int + rest@.len() == fs.len(),
                rest@ =~= fs.subrange(taken as int, fs.len() as int),
                out.message == self.message,
                out.functions.registry@ == registered_all(
                    self.functions.registry@,
                    fs.subrange(0, taken as int),
                ),
                names_unique(self.functions.registry@) ==> names_unique(
                    out.functions.registry@,
                ),
            decreases rest@.len(),
        {
            let f = rest.remove(0);
            proof {
                assert(f == fs[taken as int]);
                assert(fs.subrange(0, taken as int + 1).drop_last() =~= fs.subrange(
                    0,
                    taken as int,
                ));
                assert(fs.subrange(0, taken as int + 1).last() == fs[taken as int]);
                assert(rest@ =~= fs.subrange(taken as int + 1, fs.len() as int));
            }
            let _added = out.functions.push(f);
            taken = taken + 1;
        }
        proof {
            assert(fs.subrange(0, fs.len() as int) =~= fs);
        }
        out
    }
}

} // verus!
