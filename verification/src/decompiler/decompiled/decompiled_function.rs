use crate::decompiler::decompiled::statement::StatementInfo;
use vstd::prelude::*;

verus! {

/// A decompiled function: its name, the handles of the types of its
/// parameters, locals and result in a type store, and its statements.
#[derive(Debug)]
pub struct DecompiledFunction<'i> {
    pub name: String,
    pub params: Vec<usize>,
    pub locals: Vec<usize>,
    pub returns: Option<usize>,
    pub statements: Vec<StatementInfo<'i>>,
}

/// The type of frame slot `index` of a function with the given parameter
/// and local types: parameters come first, then two slots without a type
/// (the return address and the frame), then the locals.
pub open spec fn slot_type(params: Seq<usize>, locals: Seq<usize>, index: nat) -> Option<usize> {
    if index < params.len() {
        Some(params[index as int])
    } else if index < params.len() + 2 {
        None
    } else if index < params.len() + 2 + locals.len() {
        Some(locals[index - params.len() - 2])
    } else {
        None
    }
}

impl<'i> DecompiledFunction<'i> {
    /// The type of frame slot `index`.
    pub fn local_index_type(&self, index: usize) -> (r: Option<usize>)
        ensures
            r == slot_type(self.params@, self.locals@, index as nat),
    {
        let params = self.params.len();
        if index < params {
            Some(self.params[index])
        } else if index - params < 2 {
            None
        } else if index - params - 2 < self.locals.len() {
            Some(self.locals[index - params - 2])
        } else {
            None
        }
    }
}

} // verus!
