use crate::disassembler::instruction::InstructionInfo;
use vstd::prelude::*;

verus! {

/// A decompiled item together with the instructions it came from.
pub struct DecompiledItem<'a, 'b, T> {
    pub instructions: &'a [InstructionInfo<'b>],
    pub item: T,
}

/// A decompiled function, by name.
pub struct Function {
    pub name: String,
}

} // verus!
