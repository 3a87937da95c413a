use crate::decompiler::control_flow::CaseValue;
use crate::decompiler::stack_entry::StackEntryInfo;
use crate::disassembler::instruction::InstructionInfo;
use vstd::prelude::*;

verus! {

/// A statement of a decompiled function.
#[derive(Debug)]
pub enum Statement<'i> {
    Nop,
    Assign { destination: StackEntryInfo<'i>, source: StackEntryInfo<'i> },
    Return { values: Vec<StackEntryInfo<'i>> },
    Throw { value: StackEntryInfo<'i> },
    FunctionCall { args: Vec<StackEntryInfo<'i>>, function_address: usize },
    NativeCall { args: Vec<StackEntryInfo<'i>>, native_hash: u64 },
    If { condition: StackEntryInfo<'i>, then: Vec<StatementInfo<'i>> },
    IfElse {
        condition: StackEntryInfo<'i>,
        then: Vec<StatementInfo<'i>>,
        els: Vec<StatementInfo<'i>>,
    },
    WhileLoop { condition: StackEntryInfo<'i>, body: Vec<StatementInfo<'i>> },
    Switch {
        condition: StackEntryInfo<'i>,
        cases: Vec<(Vec<StatementInfo<'i>>, Vec<CaseValue>)>,
    },
    StringCopy { destination: StackEntryInfo<'i>, string: StackEntryInfo<'i>, max_length: usize },
    IntToString { destination: StackEntryInfo<'i>, int: StackEntryInfo<'i>, max_length: usize },
    StringConcat {
        destination: StackEntryInfo<'i>,
        string: StackEntryInfo<'i>,
        max_length: usize,
    },
    StringIntConcat {
        destination: StackEntryInfo<'i>,
        int: StackEntryInfo<'i>,
        max_length: usize,
    },
    MemCopy {
        destination: StackEntryInfo<'i>,
        source: Vec<StackEntryInfo<'i>>,
        buffer_size: StackEntryInfo<'i>,
        count: usize,
    },
    Break,
    Continue,
}

/// A statement together with the instructions it was decompiled from.
#[derive(Debug)]
pub struct StatementInfo<'i> {
    pub instructions: &'i [InstructionInfo<'i>],
    pub statement: Statement<'i>,
}

} // verus!
