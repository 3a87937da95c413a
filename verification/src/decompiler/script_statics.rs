use crate::decompiler::value_type::{fresh_handles, unknown_views, TypeStore};
use vstd::prelude::*;

verus! {

/// The type slots of a script's static variables, one per static.
pub struct ScriptStatics {
    statics: Vec<usize>,
}

impl View for ScriptStatics {
    type V = Seq<usize>;

    closed spec fn view(&self) -> Seq<usize> {
        self.statics@
    }
}

impl ScriptStatics {
    /// One fresh slot of unknown type for each of `static_count` statics.
    pub fn new(static_count: usize, store: &mut TypeStore) -> (r: Self)
        requires
            old(store).wf(),
            old(store)@.len() + static_count <= usize::MAX,
        ensures
            final(store).wf(),
            final(store).keeps_concretes(old(store)),
            final(store)@ == old(store)@ + unknown_views(static_count as nat),
            r@ == fresh_handles(old(store)@.len(), static_count as nat),
    {
        let mut statics: Vec<usize> = Vec::new();
        store.push_unknown_slots(static_count, &mut statics);
        assert(statics@ =~= fresh_handles(old(store)@.len(), static_count as nat));
        ScriptStatics { statics }
    }

    /// The type slot of static `static_index`, if the script has that static.
    pub fn get_static(&self, static_index: usize) -> (r: Option<usize>)
        ensures
            static_index < self@.len() ==> r == Some(self@[static_index as int]),
            static_index >= self@.len() ==> r is None,
    {
        if static_index < self.statics.len() {
            Some(self.statics[static_index])
        } else {
            None
        }
    }
}

} // verus!
