use crate::decompiler::value_type::{unknown_view, TypeStore};
use std::collections::HashMap;
use vstd::prelude::*;

verus! {

broadcast use vstd::std_specs::hash::group_hash_axioms;

/// The type slots of global variables, made on first use.
pub struct ScriptGlobals {
    globals: HashMap<usize, usize>,
}

impl View for ScriptGlobals {
    type V = Map<usize, usize>;

    closed spec fn view(&self) -> Map<usize, usize> {
        self.globals@
    }
}

/// What a lookup of global `global` does: a global seen before gives its
/// slot and changes nothing; a new one gets a fresh slot of unknown type.
pub open spec fn global_lookup(
    g0: Map<usize, usize>,
    st0: TypeStore,
    global: usize,
    g1: Map<usize, usize>,
    st1: TypeStore,
    r: usize,
) -> bool {
    &&& st1.wf()
    &&& st1.keeps_concretes(&st0)
    &&& g0.contains_key(global) ==> r == g0[global] && g1 == g0 && st1@ == st0@
    &&& !g0.contains_key(global) ==> r == st0@.len() && g1 == g0.insert(global, r) && st1@ == st0@.push(
        unknown_view(),
    )
}

/// Every global seen has a slot of a store of `n` slots, and no two share
/// one: what lookups keep, from no global seen on.
pub open spec fn globals_wf(g: Map<usize, usize>, n: nat) -> bool {
    &&& forall|k: usize| g.contains_key(k) ==> #[trigger] g[k] < n
    &&& forall|k1: usize, k2: usize| g.contains_key(k1) && g.contains_key(k2) && k1 != k2 ==> #[trigger] g[k1] != #[trigger] g[k2]
}

/// Two lookups of one global give the same slot, the second changing
/// nothing; lookups of two globals give different slots where every slot
/// held is below the store's length.
pub proof fn lemma_global_lookups(
    g0: Map<usize, usize>,
    st0: TypeStore,
    g1: Map<usize, usize>,
    st1: TypeStore,
    g2: Map<usize, usize>,
    st2: TypeStore,
    i: usize,
    j: usize,
    r1: usize,
    r2: usize,
)
    requires
        globals_wf(g0, st0@.len()),
        global_lookup(g0, st0, i, g1, st1, r1),
        global_lookup(g1, st1, j, g2, st2, r2),
    ensures
        i == j ==> r2 == r1 && g2 == g1 && st2@ == st1@,
        i != j ==> r2 != r1,
{
    if i != j {
        if g0.contains_key(j) {
            if !g0.contains_key(i) {
                assert(g0[j] < st0@.len());
            }
        }
    }
}

impl Default for ScriptGlobals {
    fn default() -> (r: Self)
        ensures
            r@ == Map::<usize, usize>::empty(),
            forall|n: nat| globals_wf(r@, n),
    {
        ScriptGlobals { globals: HashMap::new() }
    }
}

impl ScriptGlobals {
    /// The type slot of global `global`; a global seen for the first time
    /// gets a fresh slot of unknown type.
    pub fn get_global(&mut self, global: usize, store: &mut TypeStore) -> (r: usize)
        requires
            old(store).wf(),
            old(store)@.len() < usize::MAX,
        ensures
            global_lookup(old(self)@, *old(store), global, final(self)@, *final(store), r),
            globals_wf(old(self)@, old(store)@.len()) ==> globals_wf(final(self)@, final(store)@.len()),
    {
        match self.globals.get(&global) {
            Some(h) => *h,
            None => {
                let h = store.push_unknown_slot();
                self.globals.insert(global, h);
                h
            },
        }
    }
}

} // verus!
