use crate::decompiler::control_flow::ControlFlow;
use crate::decompiler::decompiled::statement::{Statement, StatementInfo};
use crate::decompiler::function::{local_slot, Function};
use crate::decompiler::script_globals::ScriptGlobals;
use crate::decompiler::script_statics::ScriptStatics;
use crate::decompiler::stack::{
    pop_n_post, pop_post, push_array_item_post, push_binary_operator_post, push_cast_post, push_catch_post,
    push_const_int_binary_operator_post, push_const_offset_post, push_deref_post, push_dup_post, push_float_post,
    push_function_call_post, push_global_post, push_int_post, push_load_n_post, push_local_post,
    push_native_call_post, push_offset_post, push_reference_post, push_static_post, push_string_hash_post,
    nth_back_post, push_string_post, push_unary_operator_post, room, set_last_as_field_post, top_offset_within, top_ref_below, tys_below, InvalidStackError,
    Stack,
};
use crate::decompiler::stack_entry::{InfoView, infos_view, lemma_infos_view_len, BinaryOperator, StackEntry, StackEntryInfo, UnaryOperator};
use crate::decompiler::value_type::{
    ref_type_post, Confidence, LinkedValueType, NodeView, Primitives, TypeStore, TypeView, ValueType, ValueTypeInfo,
};
use crate::disassembler::instruction::{Instruction, InstructionInfo};
use crate::resources::cross_map::{original_hash, CrossMap};
use crate::script::Script;
use std::collections::HashMap;
use vstd::prelude::*;

verus! {

broadcast use vstd::std_specs::hash::group_hash_axioms;

/// A place the code reads, writes or takes the address of.
pub enum Place {
    Local(usize),
    Static(usize),
    Global(usize),
    /// An item of the array whose address is on top, at the index below it.
    ArrayItem(usize),
    /// A field, at a constant offset, of the struct whose address is on top.
    Field(i16),
}

/// A stack operation that takes no argument but the stack.
pub enum SimpleOp {
    Reference,
    Field,
    Deref,
    Dup,
    Offset,
    StringHash,
    LoadN,
    Catch,
    AddConst(i64),
    MultiplyConst(i64),
}

/// Whether `instruction` jumps or switches.
pub open spec fn is_jump(instruction: Instruction) -> bool {
    instruction is Jump || instruction is JumpZero || instruction is IfEqualJumpZero || instruction is IfNotEqualJumpZero || instruction is IfGreaterThanJumpZero || instruction is IfGreaterOrEqualJumpZero || instruction is IfLowerThanJumpZero || instruction is IfLowerOrEqualJumpZero || instruction is Switch
}

/// Whether `instruction` writes a value to a place.
pub open spec fn is_store(instruction: Instruction) -> bool {
    instruction is Store || instruction is StoreRev || instruction is StoreN || instruction is ArrayU8Store || instruction is ArrayU16Store || instruction is LocalU8Store || instruction is LocalU16Store || instruction is StaticU8Store || instruction is StaticU16Store || instruction is StaticU24Store || instruction is GlobalU16Store || instruction is GlobalU24Store || instruction is OffsetU8Store || instruction is OffsetS16Store
}

/// Whether a node decompiled as `flow` ends at `instruction`: at the jump
/// of a conditional construct, a loop, a switch or an and/or.
pub open spec fn ends_node(instruction: Instruction, flow: ControlFlow) -> bool {
    is_jump(instruction) && (flow is If || flow is IfElse || flow is WhileLoop || flow is Switch || flow is AndOr)
}

/// The instructions the decompiler refuses: the vector operations, for
/// which the type store has no type, and indirect calls.
pub open spec fn refused(instruction: Instruction) -> bool {
    instruction is VectorAdd || instruction is VectorSubtract || instruction is VectorMultiply || instruction is VectorDivide || instruction is VectorNegate || instruction is FloatToVector || instruction is CallIndirect
}

/// Whether `statement` is of the kind that `instruction` makes within a
/// node decompiled as `flow`.
pub open spec fn makes(instruction: Instruction, flow: ControlFlow, statement: Statement) -> bool {
    if is_store(instruction) {
        statement is Assign
    } else if is_jump(instruction) {
        (flow is Break && statement is Break) || (flow is Continue && statement is Continue)
    } else {
        match instruction {
            Instruction::Nop => statement is Nop,
            Instruction::Leave { .. } => statement is Return,
            Instruction::Throw => statement is Throw,
            Instruction::TextLabelAssignString { .. } => statement is StringCopy,
            Instruction::TextLabelAssignInt { .. } => statement is IntToString,
            Instruction::TextLabelAppendString { .. } => statement is StringConcat,
            Instruction::TextLabelAppendInt { .. } => statement is StringIntConcat,
            Instruction::TextLabelCopy => statement is MemCopy,
            Instruction::NativeCall { .. } => statement is NativeCall,
            Instruction::FunctionCall { .. } => statement is FunctionCall,
            Instruction::Drop => statement is FunctionCall || statement is NativeCall,
            _ => false,
        }
    }
}

/// Whether `instruction`, where it succeeds, always makes a statement.
pub open spec fn always_makes(instruction: Instruction, flow: ControlFlow) -> bool {
    ||| is_store(instruction)
    ||| is_jump(instruction) && (flow is Break || flow is Continue)
    ||| instruction is Nop || instruction is Leave || instruction is Throw || instruction is TextLabelAssignString
        || instruction is TextLabelAssignInt || instruction is TextLabelAppendString || instruction is TextLabelAppendInt
        || instruction is TextLabelCopy
    ||| instruction matches Instruction::NativeCall { return_count, .. } && return_count == 0
}

/// Whether `instruction` makes a statement or not depending on what it
/// finds: dropping a call's result, or calling a function.
pub open spec fn may_make(instruction: Instruction) -> bool {
    instruction is Drop || instruction is FunctionCall
}

/// Whether `added` are the statements that `code` makes within a node
/// decompiled as `flow`, one for each instruction that makes one, in order.
pub open spec fn made_by(code: Seq<InstructionInfo>, flow: ControlFlow, added: Seq<Statement>) -> bool
    decreases code.len(),
{
    if code.len() == 0 {
        added.len() == 0
    } else {
        let i = code.last().instruction;
        let with = added.len() > 0 && makes(i, flow, added.last()) && made_by(code.drop_last(), flow, added.drop_last());
        let without = made_by(code.drop_last(), flow, added);
        if always_makes(i, flow) {
            with
        } else if may_make(i) {
            with || without
        } else {
            without
        }
    }
}

/// The position in `code`, from `i` on, where a node decompiled as `flow`
/// ends early; the length of `code` where it does not.
pub open spec fn first_end(code: Seq<InstructionInfo>, flow: ControlFlow, i: int) -> int
    decreases code.len() - i,
{
    if i < 0 || i >= code.len() {
        code.len() as int
    } else if ends_node(code[i].instruction, flow) {
        i
    } else {
        first_end(code, flow, i + 1)
    }
}

/// The statements of a list of statements with their instructions.
pub open spec fn statements_of(s: Seq<StatementInfo>) -> Seq<Statement> {
    s.map_values(|x: StatementInfo| x.statement)
}

/// What is done with a place: its address is taken, it is read, or the
/// value below it is written to it.
pub enum Access {
    Reference,
    Load,
    Store,
}

/// What decompiling a node works on: the stack, the type store, and the
/// slots of the globals seen so far.
pub struct NodeState {
    pub stack: Seq<InfoView>,
    pub store: TypeStore,
    pub globals: Map<usize, usize>,
}

/// Whether a step succeeded, without what it gave.
pub open spec fn unit_of<T>(out: Result<T, InvalidStackError>) -> Result<(), InvalidStackError> {
    match out {
        Ok(_) => Ok(()),
        Err(_) => Err(InvalidStackError),
    }
}

/// The state made of a stack, a store and the globals' slots.
pub open spec fn node_state(stack: Seq<InfoView>, store: TypeStore, globals: Map<usize, usize>) -> NodeState {
    NodeState { stack, store, globals }
}

/// Whether the store of `s` has the room the stack operations ask for.
pub open spec fn roomy(s: NodeState) -> bool {
    room(s.stack, s.store@.len() as nat)
}

/// An error, the state left as it was.
pub open spec fn refused_unchanged<T>(s: NodeState, t: NodeState, out: Result<T, InvalidStackError>) -> bool {
    out is Err && t == s
}

/// A primitive type held with `confidence`.
pub open spec fn prim(p: Primitives, confidence: Confidence) -> ValueTypeInfo {
    ValueTypeInfo { ty: ValueType::Primitive(p), confidence }
}

/// A binary operation pushed where the store has room, typed `ty`, both
/// operands hinted to be `operand`; an error otherwise.
pub open spec fn binary_rel(
    ty: Primitives,
    operand: Primitives,
    confidence: Confidence,
    op: BinaryOperator,
    s: NodeState,
    t: NodeState,
    out: Result<(), InvalidStackError>,
) -> bool {
    if roomy(s) {
        t.globals == s.globals && push_binary_operator_post(
            ty,
            prim(operand, confidence),
            prim(operand, confidence),
            op,
            s.stack,
            s.store,
            t.stack,
            t.store,
            out,
        )
    } else {
        refused_unchanged(s, t, out)
    }
}

/// A unary operation pushed where the store has room.
pub open spec fn unary_rel(
    ty: Primitives,
    operand: Primitives,
    confidence: Confidence,
    op: UnaryOperator,
    s: NodeState,
    t: NodeState,
    out: Result<(), InvalidStackError>,
) -> bool {
    if roomy(s) {
        t.globals == s.globals && push_unary_operator_post(
            ty,
            prim(operand, confidence),
            op,
            s.stack,
            s.store,
            t.stack,
            t.store,
            out,
        )
    } else {
        refused_unchanged(s, t, out)
    }
}

/// A cast pushed where the store has room.
pub open spec fn cast_rel(
    ty: Primitives,
    from: Primitives,
    confidence: Confidence,
    s: NodeState,
    t: NodeState,
    out: Result<(), InvalidStackError>,
) -> bool {
    if roomy(s) {
        t.globals == s.globals && push_cast_post(ty, prim(from, confidence), s.stack, s.store, t.stack, t.store, out)
    } else {
        refused_unchanged(s, t, out)
    }
}

/// An integer constant pushed where the store has room.
pub open spec fn int_rel(value: i64, s: NodeState, t: NodeState, out: Result<(), InvalidStackError>) -> bool {
    if roomy(s) {
        out is Ok && t.globals == s.globals && push_int_post(value, s.stack, s.store, t.stack, t.store)
    } else {
        refused_unchanged(s, t, out)
    }
}

/// A float constant pushed where the store has room.
pub open spec fn float_rel(bits: u32, s: NodeState, t: NodeState, out: Result<(), InvalidStackError>) -> bool {
    if roomy(s) {
        out is Ok && t.globals == s.globals && push_float_post(bits, s.stack, s.store, t.stack, t.store)
    } else {
        refused_unchanged(s, t, out)
    }
}

/// The stack operation `op` run where the store has room.
pub open spec fn simple_rel(op: SimpleOp, s: NodeState, t: NodeState, out: Result<(), InvalidStackError>) -> bool {
    if roomy(s) {
        t.globals == s.globals && match op {
            SimpleOp::Reference => push_reference_post(s.stack, s.store, t.stack, t.store, out),
            SimpleOp::Field => set_last_as_field_post(s.stack, s.store, t.stack, t.store, out),
            SimpleOp::Deref => push_deref_post(s.stack, s.store, t.stack, t.store, out),
            SimpleOp::Dup => push_dup_post(s.stack, s.store, t.stack, t.store, out),
            SimpleOp::Offset => push_offset_post(s.stack, s.store, t.stack, t.store, out),
            SimpleOp::StringHash => push_string_hash_post(s.stack, s.store, t.stack, t.store, out),
            SimpleOp::LoadN => if top_ref_below(s.stack, s.store@.len()) {
                push_load_n_post(s.stack, s.store, t.stack, t.store, out)
            } else {
                out is Err && t.stack == s.stack && t.store == s.store
            },
            SimpleOp::Catch => out is Ok && push_catch_post(s.stack, s.store, t.stack, t.store),
            SimpleOp::AddConst(v) => push_const_int_binary_operator_post(
                BinaryOperator::Add,
                v,
                s.stack,
                s.store,
                t.stack,
                t.store,
                out,
            ),
            SimpleOp::MultiplyConst(v) => push_const_int_binary_operator_post(
                BinaryOperator::Multiply,
                v,
                s.stack,
                s.store,
                t.stack,
                t.store,
                out,
            ),
        }
    } else {
        refused_unchanged(s, t, out)
    }
}

/// The top value popped.
pub open spec fn pop_rel_of<'i>(s: NodeState, t: NodeState, out: Result<StackEntryInfo<'i>, InvalidStackError>) -> bool {
    t.globals == s.globals && pop_post(s.stack, s.store, t.stack, t.store, out)
}

/// Values taking up `n` slots popped.
pub open spec fn pops_rel<'i>(
    n: usize,
    s: NodeState,
    t: NodeState,
    out: Result<Vec<StackEntryInfo<'i>>, InvalidStackError>,
) -> bool {
    t.globals == s.globals && pop_n_post(n, s.stack, s.store, t.stack, t.store, out)
}

/// A place pushed where the store has room: a local by its slot, a static,
/// a global (a fresh slot the first time), an array item, or a field at a
/// constant offset that is not negative and leaves the store room.
pub open spec fn push_place_rel(
    parameters: Seq<usize>,
    locals: Seq<usize>,
    statics: Seq<usize>,
    place: Place,
    s: NodeState,
    t: NodeState,
    out: Result<(), InvalidStackError>,
) -> bool {
    if !roomy(s) {
        refused_unchanged(s, t, out)
    } else {
        match place {
            Place::Local(i) => out is Ok && t.globals == s.globals && push_local_post(
                i,
                local_slot(parameters, locals, i as int),
                s.stack,
                s.store,
                t.stack,
                t.store,
            ),
            Place::Static(i) => out is Ok && t.globals == s.globals && push_static_post(
                i,
                statics,
                s.stack,
                s.store,
                t.stack,
                t.store,
            ),
            Place::Global(i) => out is Ok && push_global_post(i, s.globals, t.globals, s.stack, s.store, t.stack, t.store),
            Place::ArrayItem(n) => t.globals == s.globals && push_array_item_post(n, s.stack, s.store, t.stack, t.store, out),
            Place::Field(offset) => if offset < 0 || !room(s.stack, (s.store@.len() + offset) as nat) {
                refused_unchanged(s, t, out)
            } else {
                t.globals == s.globals && push_const_offset_post(offset as i64, s.stack, s.store, t.stack, t.store, out)
            },
        }
    }
}

/// Two values popped, the first popped made the destination of an
/// assignment of the second; the first error ends it.
pub open spec fn assign_rel<'i>(
    s: NodeState,
    t: NodeState,
    out: Result<Option<Statement<'i>>, InvalidStackError>,
) -> bool {
    exists|m: NodeState, d: Result<StackEntryInfo<'i>, InvalidStackError>|
        #[trigger] pop_rel_of(s, m, d) && match d {
            Err(_) => t == m && out is Err,
            Ok(destination) => exists|v: Result<StackEntryInfo<'i>, InvalidStackError>|
                #[trigger] pop_rel_of(m, t, v) && match v {
                    Err(_) => out is Err,
                    Ok(source) => out == Ok::<Option<Statement<'i>>, InvalidStackError>(
                        Some(Statement::Assign { destination, source }),
                    ),
                },
        }
}

/// A place pushed, then its address taken, its value read, or the value
/// below it assigned to it; the first error ends it.
pub open spec fn access_rel<'i>(
    parameters: Seq<usize>,
    locals: Seq<usize>,
    statics: Seq<usize>,
    place: Place,
    access: Access,
    s: NodeState,
    t: NodeState,
    out: Result<Option<Statement<'i>>, InvalidStackError>,
) -> bool {
    exists|m: NodeState, o: Result<(), InvalidStackError>|
        #[trigger] push_place_rel(parameters, locals, statics, place, s, m, o) && match o {
            Err(_) => t == m && out is Err,
            Ok(_) => match access {
                Access::Reference => exists|o2: Result<(), InvalidStackError>|
                    #[trigger] simple_rel(SimpleOp::Reference, m, t, o2) && out == match o2 {
                        Ok(_) => Ok::<Option<Statement<'i>>, InvalidStackError>(None),
                        Err(e) => Err(e),
                    },
                Access::Load => exists|o2: Result<(), InvalidStackError>|
                    #[trigger] simple_rel(SimpleOp::Field, m, t, o2) && out == match o2 {
                        Ok(_) => Ok::<Option<Statement<'i>>, InvalidStackError>(None),
                        Err(e) => Err(e),
                    },
                Access::Store => assign_rel(m, t, out),
            },
        }
}

/// The type slots of a list of values.
pub open spec fn slot_list<'i>(values: Seq<StackEntryInfo<'i>>) -> Seq<usize> {
    values.map_values(|v: StackEntryInfo<'i>| v.ty)
}

/// What `StoreN` does once its destination and count are popped: the
/// values the count gives popped, as one value or, where there are several,
/// a struct of them typed by a fresh struct slot; the first error ends it.
pub open spec fn store_values_rel<'i>(
    destination: StackEntryInfo<'i>,
    count: StackEntryInfo<'i>,
    s: NodeState,
    t: NodeState,
    out: Result<Statement<'i>, InvalidStackError>,
) -> bool {
    match count.entry {
        StackEntry::Int(n) => exists|m: NodeState, v: Result<Vec<StackEntryInfo<'i>>, InvalidStackError>|
            #[trigger] pops_rel(n as usize, s, m, v) && match v {
                Err(_) => t == m && out is Err,
                Ok(values) => if values@.len() > 1 {
                    if m.store@.len() + 1 > usize::MAX {
                        t == m && out is Err
                    } else {
                        &&& t.stack == m.stack
                        &&& t.globals == m.globals
                        &&& t.store.wf()
                        &&& t.store.keeps_concretes(&m.store)
                        &&& t.store@ == m.store@.push(
                            NodeView::Type {
                                ty: TypeView::Struct { fields: slot_list(values@) },
                                confidence: Confidence::High,
                            },
                        )
                        &&& out == Ok::<Statement<'i>, InvalidStackError>(
                            Statement::Assign {
                                source: StackEntryInfo {
                                    entry: StackEntry::ResultStruct { values },
                                    ty: m.store@.len() as usize,
                                },
                                destination,
                            },
                        )
                    }
                } else if values@.len() == 1 {
                    t == m && out == Ok::<Statement<'i>, InvalidStackError>(
                        Statement::Assign { source: values@[0], destination },
                    )
                } else {
                    t == m && out is Err
                },
            },
        _ => t == s && out is Err,
    }
}

/// What `StoreN` does: the address on top read as a reference, the
/// destination and then the count popped, and the values stored.
pub open spec fn store_n_rel<'i>(s: NodeState, t: NodeState, out: Result<Statement<'i>, InvalidStackError>) -> bool {
    exists|m1: NodeState, o: Result<(), InvalidStackError>|
        #[trigger] simple_rel(SimpleOp::Deref, s, m1, o) && match o {
            Err(_) => t == m1 && out is Err,
            Ok(_) => exists|m2: NodeState, d: Result<StackEntryInfo<'i>, InvalidStackError>|
                #[trigger] pop_rel_of(m1, m2, d) && match d {
                    Err(_) => t == m2 && out is Err,
                    Ok(destination) => exists|m3: NodeState, c: Result<StackEntryInfo<'i>, InvalidStackError>|
                        #[trigger] pop_rel_of(m2, m3, c) && match c {
                            Err(_) => t == m3 && out is Err,
                            Ok(count) => store_values_rel(destination, count, m3, t, out),
                        },
                },
        }
}

/// What `StoreRev` does: the value popped, then a copy of the address
/// below taken, and the value assigned to where the address points.
pub open spec fn store_rev_rel<'i>(s: NodeState, t: NodeState, out: Result<Statement<'i>, InvalidStackError>) -> bool {
    exists|m1: NodeState, v: Result<StackEntryInfo<'i>, InvalidStackError>|
        #[trigger] pop_rel_of(s, m1, v) && match v {
            Err(_) => t == m1 && out is Err,
            Ok(source) => if !roomy(m1) {
                t == m1 && out is Err
            } else {
                exists|m2: NodeState, d: Result<StackEntryInfo<'i>, InvalidStackError>|
                    #[trigger] nth_back_post(0, m1.stack, m1.store, m2.stack, m2.store, d) && m2.globals == m1.globals
                        && match d {
                        Err(_) => t == m2 && out is Err,
                        Ok(dest) => if dest.ty >= m2.store@.len() || m2.store@.len() + 1 > usize::MAX {
                            t == m2 && out is Err
                        } else {
                            exists|ty: usize|
                                #[trigger] ref_type_post(m2.store, t.store, dest.ty, ty) && t.stack == m2.stack
                                    && t.globals == m2.globals && out == Ok::<Statement<'i>, InvalidStackError>(
                                    Statement::Assign {
                                        source,
                                        destination: StackEntryInfo { entry: StackEntry::Deref(Box::new(dest)), ty },
                                    },
                                )
                        },
                    }
            },
        }
}

/// What `TextLabelCopy` does once its destination, buffer size and count
/// are popped: the values the count gives popped and copied.
pub open spec fn copy_values_rel<'i>(
    destination: StackEntryInfo<'i>,
    buffer_size: StackEntryInfo<'i>,
    count: StackEntryInfo<'i>,
    s: NodeState,
    t: NodeState,
    out: Result<Statement<'i>, InvalidStackError>,
) -> bool {
    match count.entry {
        StackEntry::Int(n) => exists|v: Result<Vec<StackEntryInfo<'i>>, InvalidStackError>|
            #[trigger] pops_rel(n as usize, s, t, v) && match v {
                Err(_) => out is Err,
                Ok(source) => out == Ok::<Statement<'i>, InvalidStackError>(
                    Statement::MemCopy { destination, source, buffer_size, count: n as usize },
                ),
            },
        _ => t == s && out is Err,
    }
}

/// What `TextLabelCopy` does: destination, buffer size and count popped,
/// then the values copied.
pub open spec fn text_label_copy_rel<'i>(s: NodeState, t: NodeState, out: Result<Statement<'i>, InvalidStackError>) -> bool {
    exists|m1: NodeState, d: Result<StackEntryInfo<'i>, InvalidStackError>|
        #[trigger] pop_rel_of(s, m1, d) && match d {
            Err(_) => t == m1 && out is Err,
            Ok(destination) => exists|m2: NodeState, b: Result<StackEntryInfo<'i>, InvalidStackError>|
                #[trigger] pop_rel_of(m1, m2, b) && match b {
                    Err(_) => t == m2 && out is Err,
                    Ok(buffer_size) => exists|m3: NodeState, c: Result<StackEntryInfo<'i>, InvalidStackError>|
                        #[trigger] pop_rel_of(m2, m3, c) && match c {
                            Err(_) => t == m3 && out is Err,
                            Ok(count) => copy_values_rel(destination, buffer_size, count, m3, t, out),
                        },
                },
        }
}

/// A native called by the original hash of the script's native
/// `native_index`: a statement with its arguments, last popped first,
/// where it returns nothing, else its result pushed.
pub open spec fn native_call_rel<'i>(
    natives: Seq<u64>,
    histories: Seq<Seq<u64>>,
    arg_count: usize,
    return_count: usize,
    native_index: usize,
    s: NodeState,
    t: NodeState,
    out: Result<Option<Statement<'i>>, InvalidStackError>,
) -> bool {
    if native_index >= natives.len() {
        refused_unchanged(s, t, out)
    } else {
        let hash = original_hash(histories, natives[native_index as int]);
        if return_count == 0 {
            exists|v: Result<Vec<StackEntryInfo<'i>>, InvalidStackError>|
                #[trigger] pops_rel(arg_count, s, t, v) && match v {
                    Err(_) => out is Err,
                    Ok(args) => out matches Ok(Some(Statement::NativeCall { args: called, native_hash }))
                        && called@ == args@.reverse() && native_hash == hash,
                }
        } else {
            &&& push_native_call_post(arg_count, return_count, hash, s.stack, s.store, t.stack, t.store, unit_of(out))
            &&& t.globals == s.globals
            &&& out matches Ok(x) ==> x is None
        }
    }
}

/// The function at `location` called: a statement with its arguments,
/// last popped first, where it returns nothing, else its result pushed;
/// an error where no function starts there.
pub open spec fn function_call_rel<'i>(
    functions: Map<usize, Function<'i>>,
    location: usize,
    s: NodeState,
    t: NodeState,
    out: Result<Option<Statement<'i>>, InvalidStackError>,
) -> bool {
    if !functions.contains_key(location) {
        refused_unchanged(s, t, out)
    } else {
        let f = functions[location];
        if f.returns is Some {
            &&& push_function_call_post(
                f.parameters@.len() as usize,
                f.parameters@,
                f.location,
                f.return_count,
                f.returns,
                s.stack,
                s.store,
                t.stack,
                t.store,
                unit_of(out),
            )
            &&& t.globals == s.globals
            &&& out matches Ok(x) ==> x is None
        } else {
            exists|v: Result<Vec<StackEntryInfo<'i>>, InvalidStackError>|
                #[trigger] pops_rel(f.parameters@.len() as usize, s, t, v) && match v {
                    Err(_) => out is Err,
                    Ok(args) => out matches Ok(Some(Statement::FunctionCall { args: called, function_address }))
                        && called@ == args@.reverse() && function_address == f.location,
                }
        }
    }
}

/// What the decompiling of one instruction works with besides the state:
/// the script, the histories of the cross map, the functions it may call,
/// the statics' slots, the slots of the function's parameters and locals,
/// the node's construct and whether bitwise and and or are logical.
pub struct StepEnv<'i> {
    pub script: Script,
    pub histories: Seq<Seq<u64>>,
    pub functions: Map<usize, Function<'i>>,
    pub statics: Seq<usize>,
    pub parameters: Seq<usize>,
    pub locals: Seq<usize>,
    pub flow: ControlFlow,
    pub logical: bool,
}

/// A step that gave neither a statement nor the node's end.
pub open spec fn plain<'i>(out: Result<(Option<Statement<'i>>, Option<Option<StackEntryInfo<'i>>>), InvalidStackError>) -> bool {
    out matches Ok(x) ==> x.0 is None && x.1 is None
}

/// A step that did not end the node.
pub open spec fn no_end<'i>(out: Result<(Option<Statement<'i>>, Option<Option<StackEntryInfo<'i>>>), InvalidStackError>) -> bool {
    out matches Ok(x) ==> x.1 is None
}

/// The statement a step gave, if any.
pub open spec fn stmt_of<'i>(
    out: Result<(Option<Statement<'i>>, Option<Option<StackEntryInfo<'i>>>), InvalidStackError>,
) -> Result<Option<Statement<'i>>, InvalidStackError> {
    match out {
        Ok(x) => Ok(x.0),
        Err(_) => Err(InvalidStackError),
    }
}

/// The statement a step that always makes one gave.
pub open spec fn stmt_one<'i>(
    out: Result<(Option<Statement<'i>>, Option<Option<StackEntryInfo<'i>>>), InvalidStackError>,
) -> Result<Statement<'i>, InvalidStackError> {
    match out {
        Ok(x) => match x.0 {
            Some(st) => Ok(st),
            None => Err(InvalidStackError),
        },
        Err(_) => Err(InvalidStackError),
    }
}

/// The binary operation an instruction pushes: its type, the type its
/// operands are hinted to be, with what confidence, and the operator.
pub open spec fn binary_of(instruction: Instruction, logical: bool) -> Option<(Primitives, Primitives, Confidence, BinaryOperator)> {
    let i = Primitives::Int;
    let f = Primitives::Float;
    let b = Primitives::Bool;
    let m = Confidence::Medium;
    let h = Confidence::High;
    match instruction {
        Instruction::IntegerAdd => Some((i, i, m, BinaryOperator::Add)),
        Instruction::IntegerSubtract => Some((i, i, m, BinaryOperator::Subtract)),
        Instruction::IntegerMultiply => Some((i, i, m, BinaryOperator::Multiply)),
        Instruction::IntegerDivide => Some((i, i, m, BinaryOperator::Divide)),
        Instruction::IntegerModulo => Some((i, i, m, BinaryOperator::Modulo)),
        Instruction::IntegerEquals => Some((b, i, m, BinaryOperator::Equal)),
        Instruction::IntegerNotEquals => Some((b, i, m, BinaryOperator::NotEqual)),
        Instruction::IntegerGreaterThan => Some((b, i, m, BinaryOperator::GreaterThan)),
        Instruction::IntegerGreaterOrEqual => Some((b, i, m, BinaryOperator::GreaterOrEqual)),
        Instruction::IntegerLowerThan => Some((b, i, m, BinaryOperator::LowerThan)),
        Instruction::IntegerLowerOrEqual => Some((b, i, m, BinaryOperator::LowerOrEqual)),
        Instruction::FloatAdd => Some((f, f, h, BinaryOperator::Add)),
        Instruction::FloatSubtract => Some((f, f, h, BinaryOperator::Subtract)),
        Instruction::FloatMultiply => Some((f, f, h, BinaryOperator::Multiply)),
        Instruction::FloatDivide => Some((f, f, h, BinaryOperator::Divide)),
        Instruction::FloatModule => Some((f, f, h, BinaryOperator::Modulo)),
        Instruction::FloatEquals => Some((b, f, h, BinaryOperator::Equal)),
        Instruction::FloatNotEquals => Some((b, f, h, BinaryOperator::NotEqual)),
        Instruction::FloatGreaterThan => Some((b, f, h, BinaryOperator::GreaterThan)),
        Instruction::FloatGreaterOrEqual => Some((b, f, h, BinaryOperator::GreaterOrEqual)),
        Instruction::FloatLowerThan => Some((b, f, h, BinaryOperator::LowerThan)),
        Instruction::FloatLowerOrEqual => Some((b, f, h, BinaryOperator::LowerOrEqual)),
        Instruction::BitwiseXor => Some((i, i, m, BinaryOperator::BitwiseXor)),
        Instruction::BitTest => Some((b, i, m, BinaryOperator::BitTest)),
        Instruction::BitwiseAnd => Some((i, i, m, if logical { BinaryOperator::LogicalAnd } else { BinaryOperator::BitwiseAnd })),
        Instruction::BitwiseOr => Some((i, i, m, if logical { BinaryOperator::LogicalOr } else { BinaryOperator::BitwiseOr })),
        _ => None,
    }
}

/// The unary operation an instruction pushes.
pub open spec fn unary_of(instruction: Instruction) -> Option<(Primitives, Primitives, Confidence, UnaryOperator)> {
    match instruction {
        Instruction::IntegerNot => Some((Primitives::Bool, Primitives::Int, Confidence::Medium, UnaryOperator::Not)),
        Instruction::IntegerNegate => Some((Primitives::Int, Primitives::Int, Confidence::Medium, UnaryOperator::Negate)),
        Instruction::FloatNegate => Some((Primitives::Float, Primitives::Float, Confidence::High, UnaryOperator::Negate)),
        _ => None,
    }
}

/// The cast an instruction pushes: to what, from what, with what confidence.
pub open spec fn cast_of(instruction: Instruction) -> Option<(Primitives, Primitives, Confidence)> {
    match instruction {
        Instruction::IntegerToFloat => Some((Primitives::Float, Primitives::Int, Confidence::Medium)),
        Instruction::FloatToInteger => Some((Primitives::Int, Primitives::Float, Confidence::High)),
        _ => None,
    }
}

/// The integer constant an instruction that pushes one pushes.
pub open spec fn int_const_of(instruction: Instruction) -> Option<i64> {
    match instruction {
        Instruction::PushConstU8 { c1 } => Some(c1 as i64),
        Instruction::PushConstU32 { c1 } => Some(c1 as i64),
        Instruction::PushConstS16 { c1 } => Some(c1 as i64),
        Instruction::PushConstU24 { c1 } => Some(c1 as i64),
        Instruction::PushConstM1 => Some(-1i64),
        Instruction::PushConst0 => Some(0i64),
        Instruction::PushConst1 => Some(1i64),
        Instruction::PushConst2 => Some(2i64),
        Instruction::PushConst3 => Some(3i64),
        Instruction::PushConst4 => Some(4i64),
        Instruction::PushConst5 => Some(5i64),
        Instruction::PushConst6 => Some(6i64),
        Instruction::PushConst7 => Some(7i64),
        _ => None,
    }
}

/// Whether `instruction` is one that `step` decompiles itself: arithmetic,
/// casts, constants and the operations with a constant.
pub open spec fn taken_by_step(instruction: Instruction) -> bool {
    ||| instruction is Nop
    ||| binary_of(instruction, false) is Some
    ||| unary_of(instruction) is Some
    ||| cast_of(instruction) is Some
    ||| int_const_of(instruction) is Some
    ||| instruction is PushConstU8U8
    ||| instruction is PushConstU8U8U8
    ||| float_const_of(instruction) is Some
    ||| instruction is AddU8
    ||| instruction is MultiplyU8
    ||| instruction is AddS16
    ||| instruction is MultiplyS16
}

/// The float constant an instruction pushes, by its bits.
pub open spec fn float_const_of(instruction: Instruction) -> Option<u32> {
    match instruction {
        Instruction::PushConstFloat { c1 } => Some(c1),
        Instruction::PushConstFm1 => Some(0xbf80_0000u32),
        Instruction::PushConstF0 => Some(0u32),
        Instruction::PushConstF1 => Some(0x3f80_0000u32),
        Instruction::PushConstF2 => Some(0x4000_0000u32),
        Instruction::PushConstF3 => Some(0x4040_0000u32),
        Instruction::PushConstF4 => Some(0x4080_0000u32),
        Instruction::PushConstF5 => Some(0x40a0_0000u32),
        Instruction::PushConstF6 => Some(0x40c0_0000u32),
        Instruction::PushConstF7 => Some(0x40e0_0000u32),
        _ => None,
    }
}

/// The stack operation without argument an instruction runs.
pub open spec fn simple_of(instruction: Instruction) -> Option<SimpleOp> {
    match instruction {
        Instruction::AddU8 { value } => Some(SimpleOp::AddConst(value as i64)),
        Instruction::MultiplyU8 { value } => Some(SimpleOp::MultiplyConst(value as i64)),
        Instruction::AddS16 { value } => Some(SimpleOp::AddConst(value as i64)),
        Instruction::MultiplyS16 { value } => Some(SimpleOp::MultiplyConst(value as i64)),
        Instruction::Dup => Some(SimpleOp::Dup),
        Instruction::Load => Some(SimpleOp::Deref),
        Instruction::LoadN => Some(SimpleOp::LoadN),
        Instruction::StringHash => Some(SimpleOp::StringHash),
        Instruction::Catch => Some(SimpleOp::Catch),
        _ => None,
    }
}

/// The place an instruction takes the address of, reads or writes, and how.
pub open spec fn place_of(instruction: Instruction) -> Option<(Place, Access)> {
    match instruction {
        Instruction::ArrayU8 { item_size } => Some((Place::ArrayItem(item_size as usize), Access::Reference)),
        Instruction::ArrayU8Load { item_size } => Some((Place::ArrayItem(item_size as usize), Access::Load)),
        Instruction::ArrayU8Store { item_size } => Some((Place::ArrayItem(item_size as usize), Access::Store)),
        Instruction::ArrayU16 { item_size } => Some((Place::ArrayItem(item_size as usize), Access::Reference)),
        Instruction::ArrayU16Load { item_size } => Some((Place::ArrayItem(item_size as usize), Access::Load)),
        Instruction::ArrayU16Store { item_size } => Some((Place::ArrayItem(item_size as usize), Access::Store)),
        Instruction::LocalU8 { offset } => Some((Place::Local(offset as usize), Access::Reference)),
        Instruction::LocalU8Load { offset } => Some((Place::Local(offset as usize), Access::Load)),
        Instruction::LocalU8Store { offset } => Some((Place::Local(offset as usize), Access::Store)),
        Instruction::LocalU16 { local_index } => Some((Place::Local(local_index as usize), Access::Reference)),
        Instruction::LocalU16Load { local_index } => Some((Place::Local(local_index as usize), Access::Load)),
        Instruction::LocalU16Store { local_index } => Some((Place::Local(local_index as usize), Access::Store)),
        Instruction::StaticU8 { static_index } => Some((Place::Static(static_index as usize), Access::Reference)),
        Instruction::StaticU8Load { static_index } => Some((Place::Static(static_index as usize), Access::Load)),
        Instruction::StaticU8Store { static_index } => Some((Place::Static(static_index as usize), Access::Store)),
        Instruction::StaticU16 { static_index } => Some((Place::Static(static_index as usize), Access::Reference)),
        Instruction::StaticU16Load { static_index } => Some((Place::Static(static_index as usize), Access::Load)),
        Instruction::StaticU16Store { static_index } => Some((Place::Static(static_index as usize), Access::Store)),
        Instruction::StaticU24 { static_index } => Some((Place::Static(static_index as usize), Access::Reference)),
        Instruction::StaticU24Load { static_index } => Some((Place::Static(static_index as usize), Access::Load)),
        Instruction::StaticU24Store { static_index } => Some((Place::Static(static_index as usize), Access::Store)),
        Instruction::GlobalU16 { global_index } => Some((Place::Global(global_index as usize), Access::Reference)),
        Instruction::GlobalU16Load { global_index } => Some((Place::Global(global_index as usize), Access::Load)),
        Instruction::GlobalU16Store { global_index } => Some((Place::Global(global_index as usize), Access::Store)),
        Instruction::GlobalU24 { global_index } => Some((Place::Global(global_index as usize), Access::Reference)),
        Instruction::GlobalU24Load { global_index } => Some((Place::Global(global_index as usize), Access::Load)),
        Instruction::GlobalU24Store { global_index } => Some((Place::Global(global_index as usize), Access::Store)),
        Instruction::OffsetU8 { offset } => Some((Place::Field(offset as i16), Access::Reference)),
        Instruction::OffsetU8Load { offset } => Some((Place::Field(offset as i16), Access::Load)),
        Instruction::OffsetU8Store { offset } => Some((Place::Field(offset as i16), Access::Store)),
        Instruction::OffsetS16 { offset } => Some((Place::Field(offset), Access::Reference)),
        Instruction::OffsetS16Load { offset } => Some((Place::Field(offset), Access::Load)),
        Instruction::OffsetS16Store { offset } => Some((Place::Field(offset), Access::Store)),
        _ => None,
    }
}

/// The comparison a compare-and-jump instruction pushes before it jumps.
pub open spec fn jump_compare(instruction: Instruction) -> Option<BinaryOperator> {
    match instruction {
        Instruction::IfEqualJumpZero { .. } => Some(BinaryOperator::Equal),
        Instruction::IfNotEqualJumpZero { .. } => Some(BinaryOperator::NotEqual),
        Instruction::IfGreaterThanJumpZero { .. } => Some(BinaryOperator::GreaterThan),
        Instruction::IfGreaterOrEqualJumpZero { .. } => Some(BinaryOperator::GreaterOrEqual),
        Instruction::IfLowerThanJumpZero { .. } => Some(BinaryOperator::LowerThan),
        Instruction::IfLowerOrEqualJumpZero { .. } => Some(BinaryOperator::LowerOrEqual),
        _ => None,
    }
}

/// A compare-and-jump pushes the comparison its plain compare pushes: the
/// same operator, typed bool over int operands, before it jumps.
pub proof fn lemma_jump_compares_as_compare(location: u32, logical: bool)
    ensures
        jump_compare(Instruction::IfEqualJumpZero { location }) == Some(binary_of(Instruction::IntegerEquals, logical)->Some_0.3),
        jump_compare(Instruction::IfNotEqualJumpZero { location }) == Some(binary_of(Instruction::IntegerNotEquals, logical)->Some_0.3),
        jump_compare(Instruction::IfGreaterThanJumpZero { location }) == Some(binary_of(Instruction::IntegerGreaterThan, logical)->Some_0.3),
        jump_compare(Instruction::IfGreaterOrEqualJumpZero { location }) == Some(binary_of(Instruction::IntegerGreaterOrEqual, logical)->Some_0.3),
        jump_compare(Instruction::IfLowerThanJumpZero { location }) == Some(binary_of(Instruction::IntegerLowerThan, logical)->Some_0.3),
        jump_compare(Instruction::IfLowerOrEqualJumpZero { location }) == Some(binary_of(Instruction::IntegerLowerOrEqual, logical)->Some_0.3),
        forall|i: Instruction| #[trigger] jump_compare(i) is Some ==> binary_of(
            match i {
                Instruction::IfEqualJumpZero { .. } => Instruction::IntegerEquals,
                Instruction::IfNotEqualJumpZero { .. } => Instruction::IntegerNotEquals,
                Instruction::IfGreaterThanJumpZero { .. } => Instruction::IntegerGreaterThan,
                Instruction::IfGreaterOrEqualJumpZero { .. } => Instruction::IntegerGreaterOrEqual,
                Instruction::IfLowerThanJumpZero { .. } => Instruction::IntegerLowerThan,
                _ => Instruction::IntegerLowerOrEqual,
            },
            logical,
        ) == Some((Primitives::Bool, Primitives::Int, Confidence::Medium, jump_compare(i)->Some_0)),
{
}

/// Two values popped, the first popped given first to `make`; the first
/// error ends it.
pub open spec fn two_pops_rel<'i>(
    s: NodeState,
    t: NodeState,
    make: spec_fn(StackEntryInfo<'i>, StackEntryInfo<'i>) -> Statement<'i>,
    out: Result<Option<Statement<'i>>, InvalidStackError>,
) -> bool {
    exists|m: NodeState, d: Result<StackEntryInfo<'i>, InvalidStackError>|
        #[trigger] pop_rel_of(s, m, d) && match d {
            Err(_) => t == m && out is Err,
            Ok(first) => exists|v: Result<StackEntryInfo<'i>, InvalidStackError>|
                #[trigger] pop_rel_of(m, t, v) && match v {
                    Err(_) => out is Err,
                    Ok(second) => out == Ok::<Option<Statement<'i>>, InvalidStackError>(Some(make(first, second))),
                },
        }
}

/// What a jump does at the end of a node decompiled as `flow`: the
/// condition popped and given for a conditional construct, the value
/// popped for an and/or, a break or continue made, and nothing otherwise.
pub open spec fn jump_end_rel<'i>(
    flow: ControlFlow,
    s: NodeState,
    t: NodeState,
    out: Result<(Option<Statement<'i>>, Option<Option<StackEntryInfo<'i>>>), InvalidStackError>,
) -> bool {
    match flow {
        ControlFlow::If { .. } | ControlFlow::IfElse { .. } | ControlFlow::WhileLoop { .. } | ControlFlow::Switch { .. } =>
            exists|v: Result<StackEntryInfo<'i>, InvalidStackError>|
                #[trigger] pop_rel_of(s, t, v) && match v {
                    Err(_) => out is Err,
                    Ok(condition) => out == Ok::<(Option<Statement<'i>>, Option<Option<StackEntryInfo<'i>>>), InvalidStackError>(
                        (None, Some(Some(condition))),
                    ),
                },
        ControlFlow::AndOr { .. } => exists|v: Result<StackEntryInfo<'i>, InvalidStackError>|
            #[trigger] pop_rel_of(s, t, v) && match v {
                Err(_) => out is Err,
                Ok(_) => out == Ok::<(Option<Statement<'i>>, Option<Option<StackEntryInfo<'i>>>), InvalidStackError>(
                    (None, Some(None)),
                ),
            },
        ControlFlow::Break { .. } => t == s && out == Ok::<(Option<Statement<'i>>, Option<Option<StackEntryInfo<'i>>>), InvalidStackError>(
            (Some(Statement::Break), None),
        ),
        ControlFlow::Continue { .. } => t == s && out == Ok::<(Option<Statement<'i>>, Option<Option<StackEntryInfo<'i>>>), InvalidStackError>(
            (Some(Statement::Continue), None),
        ),
        _ => t == s && out == Ok::<(Option<Statement<'i>>, Option<Option<StackEntryInfo<'i>>>), InvalidStackError>((None, None)),
    }
}

/// What a jump or switch does: a compare-and-jump first pushes its
/// comparison, the deeper operand on the left; then the node's end.
pub open spec fn jump_rel<'i>(
    instruction: Instruction,
    flow: ControlFlow,
    s: NodeState,
    t: NodeState,
    out: Result<(Option<Statement<'i>>, Option<Option<StackEntryInfo<'i>>>), InvalidStackError>,
) -> bool {
    if jump_compare(instruction) is Some {
        exists|m: NodeState, o: Result<(), InvalidStackError>|
            #[trigger] binary_rel(
                Primitives::Bool,
                Primitives::Int,
                Confidence::Medium,
                jump_compare(instruction)->Some_0,
                s,
                m,
                o,
            ) && match o {
                Err(_) => t == m && out is Err,
                Ok(_) => jump_end_rel(flow, m, t, out),
            }
    } else {
        jump_end_rel(flow, s, t, out)
    }
}

/// What dropping the top value gives: the statement of a call whose result
/// it was, nothing for any other value or an empty stack.
pub open spec fn drop_rel<'i>(
    s: NodeState,
    t: NodeState,
    out: Result<(Option<Statement<'i>>, Option<Option<StackEntryInfo<'i>>>), InvalidStackError>,
) -> bool {
    exists|v: Result<StackEntryInfo<'i>, InvalidStackError>|
        #[trigger] pop_rel_of(s, t, v) && out == Ok::<(Option<Statement<'i>>, Option<Option<StackEntryInfo<'i>>>), InvalidStackError>(
            match v {
                Ok(entry) => match entry.entry {
                    StackEntry::FunctionCallResult { args, function_address, .. } => (
                        Some(Statement::FunctionCall { args, function_address }),
                        None,
                    ),
                    StackEntry::NativeCallResult { args, native_hash, .. } => (
                        Some(Statement::NativeCall { args, native_hash }),
                        None,
                    ),
                    _ => (None, None),
                },
                Err(_) => (None, None),
            },
        )
}

/// What decompiling `instruction` does from state `s`: the state `t` it
/// leaves and what it gives, a statement it makes and the node's end,
/// or an error.
pub open spec fn step_rel<'i>(
    env: StepEnv<'i>,
    instruction: Instruction,
    s: NodeState,
    t: NodeState,
    out: Result<(Option<Statement<'i>>, Option<Option<StackEntryInfo<'i>>>), InvalidStackError>,
) -> bool {
    if refused(instruction) {
        refused_unchanged(s, t, out)
    } else if instruction is Nop {
        t == s && out == Ok::<(Option<Statement<'i>>, Option<Option<StackEntryInfo<'i>>>), InvalidStackError>(
            (Some(Statement::Nop), None),
        )
    } else if binary_of(instruction, env.logical) is Some {
        let (ty, operand, confidence, op) = binary_of(instruction, env.logical)->Some_0;
        binary_rel(ty, operand, confidence, op, s, t, unit_of(out)) && plain(out)
    } else if unary_of(instruction) is Some {
        let (ty, operand, confidence, op) = unary_of(instruction)->Some_0;
        unary_rel(ty, operand, confidence, op, s, t, unit_of(out)) && plain(out)
    } else if cast_of(instruction) is Some {
        let (ty, from, confidence) = cast_of(instruction)->Some_0;
        cast_rel(ty, from, confidence, s, t, unit_of(out)) && plain(out)
    } else if int_const_of(instruction) is Some {
        int_rel(int_const_of(instruction)->Some_0, s, t, unit_of(out)) && plain(out)
    } else if float_const_of(instruction) is Some {
        float_rel(float_const_of(instruction)->Some_0, s, t, unit_of(out)) && plain(out)
    } else if simple_of(instruction) is Some {
        simple_rel(simple_of(instruction)->Some_0, s, t, unit_of(out)) && plain(out)
    } else if place_of(instruction) is Some {
        let (place, access) = place_of(instruction)->Some_0;
        access_rel(env.parameters, env.locals, env.statics, place, access, s, t, stmt_of(out)) && no_end(out)
    } else if is_jump(instruction) {
        jump_rel(instruction, env.flow, s, t, out)
    } else {
        match instruction {
            Instruction::PushConstU8U8 { c1, c2 } => exists|m: NodeState, o: Result<(), InvalidStackError>|
                #[trigger] int_rel(c1 as i64, s, m, o) && match o {
                    Err(_) => t == m && out is Err,
                    Ok(_) => int_rel(c2 as i64, m, t, unit_of(out)) && plain(out),
                },
            Instruction::PushConstU8U8U8 { c1, c2, c3 } => exists|m1: NodeState, o1: Result<(), InvalidStackError>|
                #[trigger] int_rel(c1 as i64, s, m1, o1) && match o1 {
                    Err(_) => t == m1 && out is Err,
                    Ok(_) => exists|m2: NodeState, o2: Result<(), InvalidStackError>|
                        #[trigger] int_rel(c2 as i64, m1, m2, o2) && match o2 {
                            Err(_) => t == m2 && out is Err,
                            Ok(_) => int_rel(c3 as i64, m2, t, unit_of(out)) && plain(out),
                        },
                },
            Instruction::Drop => drop_rel(s, t, out),
            Instruction::NativeCall { arg_count, return_count, native_index } => native_call_rel(
                env.script.natives@,
                env.histories,
                arg_count as usize,
                return_count as usize,
                native_index as usize,
                s,
                t,
                stmt_of(out),
            ) && no_end(out),
            Instruction::Enter { .. } => t == s && plain(out) && out is Ok,
            Instruction::Leave { return_count, .. } => exists|v: Result<Vec<StackEntryInfo<'i>>, InvalidStackError>|
                #[trigger] pops_rel(return_count as usize, s, t, v) && match v {
                    Err(_) => out is Err,
                    Ok(values) => out == Ok::<(Option<Statement<'i>>, Option<Option<StackEntryInfo<'i>>>), InvalidStackError>(
                        (Some(Statement::Return { values }), None),
                    ),
                },
            Instruction::Store => assign_rel(s, t, stmt_of(out)) && no_end(out),
            Instruction::StoreRev => store_rev_rel(s, t, stmt_one(out)) && (out matches Ok(x) ==> x.0 is Some && x.1 is None),
            Instruction::StoreN => store_n_rel(s, t, stmt_one(out)) && (out matches Ok(x) ==> x.0 is Some && x.1 is None),
            Instruction::Offset => exists|m: NodeState, o: Result<(), InvalidStackError>|
                #[trigger] simple_rel(SimpleOp::Offset, s, m, o) && match o {
                    Err(_) => t == m && out is Err,
                    Ok(_) => simple_rel(SimpleOp::Reference, m, t, unit_of(out)) && plain(out),
                },
            Instruction::FunctionCall { location } => function_call_rel(env.functions, location as usize, s, t, stmt_of(out))
                && no_end(out),
            Instruction::String => if !roomy(s) || !top_offset_within(s.stack, env.script.strings@) {
                refused_unchanged(s, t, out)
            } else {
                t.globals == s.globals && push_string_post(env.script, s.stack, s.store, t.stack, t.store, unit_of(out))
                    && plain(out)
            },
            Instruction::TextLabelAssignString { buffer_size } => two_pops_rel(
                s,
                t,
                |d: StackEntryInfo<'i>, x: StackEntryInfo<'i>| Statement::StringCopy { destination: d, string: x, max_length: buffer_size as usize },
                stmt_of(out),
            ) && no_end(out),
            Instruction::TextLabelAssignInt { buffer_size } => two_pops_rel(
                s,
                t,
                |d: StackEntryInfo<'i>, x: StackEntryInfo<'i>| Statement::IntToString { destination: d, int: x, max_length: buffer_size as usize },
                stmt_of(out),
            ) && no_end(out),
            Instruction::TextLabelAppendString { buffer_size } => two_pops_rel(
                s,
                t,
                |d: StackEntryInfo<'i>, x: StackEntryInfo<'i>| Statement::StringConcat { destination: d, string: x, max_length: buffer_size as usize },
                stmt_of(out),
            ) && no_end(out),
            Instruction::TextLabelAppendInt { buffer_size } => two_pops_rel(
                s,
                t,
                |d: StackEntryInfo<'i>, x: StackEntryInfo<'i>| Statement::StringIntConcat { destination: d, int: x, max_length: buffer_size as usize },
                stmt_of(out),
            ) && no_end(out),
            Instruction::TextLabelCopy => text_label_copy_rel(s, t, stmt_one(out)) && (out matches Ok(x) ==> x.0 is Some && x.1 is None),
            Instruction::Throw => exists|v: Result<StackEntryInfo<'i>, InvalidStackError>|
                #[trigger] pop_rel_of(s, t, v) && match v {
                    Err(_) => out is Err,
                    Ok(value) => out == Ok::<(Option<Statement<'i>>, Option<Option<StackEntryInfo<'i>>>), InvalidStackError>(
                        (Some(Statement::Throw { value }), None),
                    ),
                },
            _ => refused_unchanged(s, t, out),
        }
    }
}

/// The statement a step made, as a list of none or one.
pub open spec fn opt_stmt<'i>(statement: Option<Statement<'i>>) -> Seq<Statement<'i>> {
    match statement {
        Some(x) => seq![x],
        None => Seq::empty(),
    }
}

/// Whether the construct around a node is an and/or, within which bitwise
/// and and or are logical.
pub open spec fn within_and_or(parent_flow: Option<&ControlFlow>) -> bool {
    match parent_flow {
        Some(f) => f is AndOr,
        None => false,
    }
}

/// The statements that a list of steps made, in order.
pub open spec fn made_of<'i>(outs: Seq<Result<(Option<Statement<'i>>, Option<Option<StackEntryInfo<'i>>>), InvalidStackError>>) -> Seq<Statement<'i>>
    decreases outs.len(),
{
    if outs.len() == 0 {
        Seq::empty()
    } else {
        made_of(outs.drop_last()) + opt_stmt(outs.last()->Ok_0.0)
    }
}

/// `states` and `outs` trace the first `n` instructions of `code`
/// decompiled in turn from `s` to `t`: instruction `j` goes from state `j`
/// to state `j + 1` giving `outs[j]`, none failing or ending the node, and
/// together they make `added`.
pub open spec fn run_trace<'i>(
    env: StepEnv<'i>,
    code: Seq<InstructionInfo<'i>>,
    n: nat,
    s: NodeState,
    t: NodeState,
    added: Seq<Statement<'i>>,
    states: Seq<NodeState>,
    outs: Seq<Result<(Option<Statement<'i>>, Option<Option<StackEntryInfo<'i>>>), InvalidStackError>>,
) -> bool {
    &&& n <= code.len()
    &&& states.len() == n + 1
    &&& outs.len() == n
    &&& states[0] == s
    &&& states[n as int] == t
    &&& forall|j: int| 0 <= j < n ==> #[trigger] step_rel(env, code[j].instruction, states[j], states[j + 1], outs[j])
    &&& forall|j: int| 0 <= j < n ==> (#[trigger] outs[j] matches Ok(x) && x.1 is None)
    &&& added == made_of(outs)
}

/// The first `n` instructions of `code` decompiled from `s`, each in turn,
/// reach `t`, none of them failing or ending the node, and make `added`.
pub open spec fn ran<'i>(
    env: StepEnv<'i>,
    code: Seq<InstructionInfo<'i>>,
    n: nat,
    s: NodeState,
    t: NodeState,
    added: Seq<Statement<'i>>,
) -> bool {
    exists|states: Seq<NodeState>, outs: Seq<Result<(Option<Statement<'i>>, Option<Option<StackEntryInfo<'i>>>), InvalidStackError>>|
        #[trigger] run_trace(env, code, n, s, t, added, states, outs)
}

/// What decompiling a node whose instructions are `code` does from `s`:
/// its instructions are decompiled in turn until one fails, giving the
/// error, or ends the node, giving what it ends with, or none is left,
/// giving nothing; `t` is the state reached and `added` the statements made.
pub open spec fn decoded<'i>(
    env: StepEnv<'i>,
    code: Seq<InstructionInfo<'i>>,
    s: NodeState,
    t: NodeState,
    added: Seq<Statement<'i>>,
    r: Result<Option<StackEntryInfo<'i>>, InvalidStackError>,
) -> bool {
    exists|stop: nat, at: NodeState, made: Seq<Statement<'i>>|
        #[trigger] ran(env, code, stop, s, at, made) && stop <= code.len() && if stop == code.len() {
            t == at && added == made && r == Ok::<Option<StackEntryInfo<'i>>, InvalidStackError>(None)
        } else {
            exists|got: Result<(Option<Statement<'i>>, Option<Option<StackEntryInfo<'i>>>), InvalidStackError>|
                #[trigger] step_rel(env, code[stop as int].instruction, at, t, got) && match got {
                    Err(_) => added == made && r is Err,
                    Ok(x) => (x.1 matches Some(c) && added == made + opt_stmt(x.0)
                        && r == Ok::<Option<StackEntryInfo<'i>>, InvalidStackError>(c)),
                }
        }
}

/// One more instruction decompiled that neither fails nor ends the node
/// extends a run by one.
/// Nothing decompiled yet is a run of no instruction.
proof fn lemma_ran_start<'i>(env: StepEnv<'i>, code: Seq<InstructionInfo<'i>>, s: NodeState)
    ensures
        ran(env, code, 0, s, s, Seq::empty()),
{
    let states = seq![s];
    let outs = Seq::<Result<(Option<Statement<'i>>, Option<Option<StackEntryInfo<'i>>>), InvalidStackError>>::empty();
    assert(run_trace(env, code, 0, s, s, Seq::empty(), states, outs));
}

/// One more instruction decompiled that neither fails nor ends the node
/// extends a run by one.
proof fn lemma_ran_step<'i>(
    env: StepEnv<'i>,
    code: Seq<InstructionInfo<'i>>,
    n: nat,
    s: NodeState,
    m: NodeState,
    a: Seq<Statement<'i>>,
    t: NodeState,
    o: Result<(Option<Statement<'i>>, Option<Option<StackEntryInfo<'i>>>), InvalidStackError>,
)
    requires
        ran(env, code, n, s, m, a),
        n < code.len(),
        step_rel(env, code[n as int].instruction, m, t, o),
        o matches Ok(x) && x.1 is None,
    ensures
        ran(env, code, n + 1, s, t, a + opt_stmt(o->Ok_0.0)),
{
    let (states, outs) = choose|states: Seq<NodeState>, outs: Seq<Result<(Option<Statement<'i>>, Option<Option<StackEntryInfo<'i>>>), InvalidStackError>>|
        #[trigger] run_trace(env, code, n, s, m, a, states, outs);
    let states2 = states.push(t);
    let outs2 = outs.push(o);
    assert forall|j: int| 0 <= j < n + 1 implies #[trigger] step_rel(env, code[j].instruction, states2[j], states2[j + 1], outs2[j]) by {
        if j < n {
            assert(step_rel(env, code[j].instruction, states[j], states[j + 1], outs[j]));
        }
    }
    assert forall|j: int| 0 <= j < n + 1 implies (#[trigger] outs2[j] matches Ok(x) && x.1 is None) by {
        if j < n {
            assert(outs2[j] == outs[j]);
        }
    }
    assert(outs2.drop_last() =~= outs);
    assert(run_trace(env, code, n + 1, s, t, a + opt_stmt(o->Ok_0.0), states2, outs2));
}

/// A run that stops at instruction `k`, by its error or by the node's end,
/// is what decompiling the node does.
proof fn lemma_decoded_stop<'i>(
    env: StepEnv<'i>,
    code: Seq<InstructionInfo<'i>>,
    k: nat,
    s: NodeState,
    m: NodeState,
    a: Seq<Statement<'i>>,
    t: NodeState,
    o: Result<(Option<Statement<'i>>, Option<Option<StackEntryInfo<'i>>>), InvalidStackError>,
    added: Seq<Statement<'i>>,
    r: Result<Option<StackEntryInfo<'i>>, InvalidStackError>,
)
    requires
        ran(env, code, k, s, m, a),
        k < code.len(),
        step_rel(env, code[k as int].instruction, m, t, o),
        o is Err ==> added == a && r is Err,
        o matches Ok(x) ==> (x.1 matches Some(c) && added == a + opt_stmt(x.0)
            && r == Ok::<Option<StackEntryInfo<'i>>, InvalidStackError>(c)),
    ensures
        decoded(env, code, s, t, added, r),
{
}

/// A run through all of `code` is what decompiling the node does.
proof fn lemma_decoded_done<'i>(
    env: StepEnv<'i>,
    code: Seq<InstructionInfo<'i>>,
    s: NodeState,
    t: NodeState,
    added: Seq<Statement<'i>>,
)
    requires
        ran(env, code, code.len(), s, t, added),
    ensures
        decoded(env, code, s, t, added, Ok(None)),
{
}

impl<'i> Function<'i> {
    /// The instructions of node `node` of the function's graph.
    pub open spec fn node_code(&self, node: usize) -> Seq<InstructionInfo<'i>> {
        self.graph.code().subrange(self.graph.nodes()[node as int].0 as int, self.graph.nodes()[node as int].1 as int)
    }

    /// What decompiling this function's instructions works with.
    pub open spec fn step_env(
        &self,
        script: Script,
        histories: Seq<Seq<u64>>,
        functions: Map<usize, Function<'i>>,
        statics: Seq<usize>,
        flow: ControlFlow,
        logical: bool,
    ) -> StepEnv<'i> {
        StepEnv { script, histories, functions, statics, parameters: self.parameters@, locals: self.locals@, flow, logical }
    }

    /// The type slots of the function's parameters, locals and result are
    /// slots of a store of `n` slots.
    pub open spec fn slots_below(&self, n: nat) -> bool {
        &&& forall|i: int| 0 <= i < self.parameters@.len() ==> #[trigger] self.parameters@[i] < n
        &&& forall|i: int| 0 <= i < self.locals@.len() ==> #[trigger] self.locals@[i] < n
        &&& self.returns matches Some(h) ==> h < n
    }

    /// Every type handle that the decompiling of a node may meet names a
    /// slot of `store`: those of the stack, of this function, of the
    /// statics, of the globals seen so far and of the functions it may call.
    pub open spec fn fits(
        &self,
        stack: Seq<crate::decompiler::stack_entry::InfoView>,
        store: TypeStore,
        statics: Seq<usize>,
        globals: Map<usize, usize>,
        functions: Map<usize, Function<'i>>,
    ) -> bool {
        &&& store.wf()
        &&& tys_below(stack, store@.len())
        &&& self.slots_below(store@.len())
        &&& forall|i: int| 0 <= i < statics.len() ==> #[trigger] statics[i] < store@.len()
        &&& forall|k: usize| globals.contains_key(k) ==> #[trigger] globals[k] < store@.len()
        &&& forall|k: usize| functions.contains_key(k) ==> #[trigger] functions[k].slots_below(store@.len())
    }

    /// What fit a store still fits once the store has grown, where the
    /// new stack and globals name its slots.
    proof fn lemma_fits_grown(
        &self,
        stack0: Seq<crate::decompiler::stack_entry::InfoView>,
        stack1: Seq<crate::decompiler::stack_entry::InfoView>,
        store0: TypeStore,
        store1: TypeStore,
        statics: Seq<usize>,
        globals0: Map<usize, usize>,
        globals1: Map<usize, usize>,
        functions: Map<usize, Function<'i>>,
    )
        requires
            self.fits(stack0, store0, statics, globals0, functions),
            store1.wf(),
            store0@.len() <= store1@.len(),
            tys_below(stack1, store1@.len()),
            forall|k: usize| globals1.contains_key(k) ==> #[trigger] globals1[k] < store1@.len(),
        ensures
            self.fits(stack1, store1, statics, globals1, functions),
    {
        assert forall|k: usize| functions.contains_key(k) implies #[trigger] functions[k].slots_below(store1@.len()) by {
            assert(functions[k].slots_below(store0@.len()));
        }
    }

    /// The one instruction at `index` of the function, as the statement made
    /// at that position of a node is tied to; none where the function has
    /// fewer instructions.
    fn instruction_at(&self, index: usize) -> (r: &'i [InstructionInfo<'i>])
        ensures
            index < self.instructions@.len() ==> r@ == self.instructions@.subrange(index as int, index + 1),
            index >= self.instructions@.len() ==> r@.len() == 0,
    {
        if index < self.instructions.len() {
            vstd::slice::slice_subrange(self.instructions, index, index + 1)
        } else {
            vstd::slice::slice_subrange(self.instructions, 0, 0)
        }
    }

    /// Checks that the store has the room the stack operations ask for.
    fn check_room(stack: &Stack<'i>, store: &TypeStore) -> (r: Result<(), InvalidStackError>)
        ensures
            r is Ok <==> room(stack@, store@.len() as nat),
    {
        if stack.has_room(store) {
            Ok(())
        } else {
            Err(InvalidStackError)
        }
    }

    /// Pushes the binary operation `op` on the two top values, typed `ty`,
    /// both operands hinted to be `operand` with `confidence`.
    fn binary(
        &self,
        stack: &mut Stack<'i>,
        store: &mut TypeStore,
        ty: Primitives,
        operand: Primitives,
        confidence: Confidence,
        op: BinaryOperator,
        Ghost(env): Ghost<(Seq<usize>, Map<usize, usize>, Map<usize, Function<'i>>)>,
    ) -> (r: Result<(), InvalidStackError>)
        requires
            self.fits(old(stack)@, *old(store), env.0, env.1, env.2),
        ensures
            self.fits(final(stack)@, *final(store), env.0, env.1, env.2),
            old(store)@.len() <= final(store)@.len(),
            binary_rel(ty, operand, confidence, op, node_state(old(stack)@, *old(store), env.1), node_state(final(stack)@, *final(store), env.1), r),
    {
        Self::check_room(stack, store)?;
        let ghost (s0, st0) = (stack@, *store);
        let r = stack.push_binary_operator(
            ty,
            ValueTypeInfo { ty: ValueType::Primitive(operand), confidence },
            ValueTypeInfo { ty: ValueType::Primitive(operand), confidence },
            op,
            store,
        );
        proof {
            self.lemma_fits_grown(s0, stack@, st0, *store, env.0, env.1, env.1, env.2);
        }
        r
    }

    /// Pushes the unary operation `op` on the top value, typed `ty`, the
    /// operand hinted to be `operand` with `confidence`.
    fn unary(
        &self,
        stack: &mut Stack<'i>,
        store: &mut TypeStore,
        ty: Primitives,
        operand: Primitives,
        confidence: Confidence,
        op: UnaryOperator,
        Ghost(env): Ghost<(Seq<usize>, Map<usize, usize>, Map<usize, Function<'i>>)>,
    ) -> (r: Result<(), InvalidStackError>)
        requires
            self.fits(old(stack)@, *old(store), env.0, env.1, env.2),
        ensures
            self.fits(final(stack)@, *final(store), env.0, env.1, env.2),
            old(store)@.len() <= final(store)@.len(),
            unary_rel(ty, operand, confidence, op, node_state(old(stack)@, *old(store), env.1), node_state(final(stack)@, *final(store), env.1), r),
    {
        Self::check_room(stack, store)?;
        let ghost (s0, st0) = (stack@, *store);
        let r = stack.push_unary_operator(ty, ValueTypeInfo { ty: ValueType::Primitive(operand), confidence }, op, store);
        proof {
            self.lemma_fits_grown(s0, stack@, st0, *store, env.0, env.1, env.1, env.2);
        }
        r
    }

    /// Pushes the top value cast to `ty`, the value hinted to be `from`
    /// with `confidence`.
    fn cast(
        &self,
        stack: &mut Stack<'i>,
        store: &mut TypeStore,
        ty: Primitives,
        from: Primitives,
        confidence: Confidence,
        Ghost(env): Ghost<(Seq<usize>, Map<usize, usize>, Map<usize, Function<'i>>)>,
    ) -> (r: Result<(), InvalidStackError>)
        requires
            self.fits(old(stack)@, *old(store), env.0, env.1, env.2),
        ensures
            self.fits(final(stack)@, *final(store), env.0, env.1, env.2),
            old(store)@.len() <= final(store)@.len(),
            cast_rel(ty, from, confidence, node_state(old(stack)@, *old(store), env.1), node_state(final(stack)@, *final(store), env.1), r),
    {
        Self::check_room(stack, store)?;
        let ghost (s0, st0) = (stack@, *store);
        let r = stack.push_cast(ty, ValueTypeInfo { ty: ValueType::Primitive(from), confidence }, store);
        proof {
            self.lemma_fits_grown(s0, stack@, st0, *store, env.0, env.1, env.1, env.2);
        }
        r
    }

    /// Pushes an integer constant.
    fn push_int_const(
        &self,
        stack: &mut Stack<'i>,
        store: &mut TypeStore,
        value: i64,
        Ghost(env): Ghost<(Seq<usize>, Map<usize, usize>, Map<usize, Function<'i>>)>,
    ) -> (r: Result<(), InvalidStackError>)
        requires
            self.fits(old(stack)@, *old(store), env.0, env.1, env.2),
        ensures
            self.fits(final(stack)@, *final(store), env.0, env.1, env.2),
            old(store)@.len() <= final(store)@.len(),
            int_rel(value, node_state(old(stack)@, *old(store), env.1), node_state(final(stack)@, *final(store), env.1), r),
    {
        Self::check_room(stack, store)?;
        let ghost (s0, st0) = (stack@, *store);
        stack.push_int(value, store);
        proof {
            self.lemma_fits_grown(s0, stack@, st0, *store, env.0, env.1, env.1, env.2);
        }
        Ok(())
    }

    /// Pushes a float constant, given by its bits.
    fn push_float_const(
        &self,
        stack: &mut Stack<'i>,
        store: &mut TypeStore,
        bits: u32,
        Ghost(env): Ghost<(Seq<usize>, Map<usize, usize>, Map<usize, Function<'i>>)>,
    ) -> (r: Result<(), InvalidStackError>)
        requires
            self.fits(old(stack)@, *old(store), env.0, env.1, env.2),
        ensures
            self.fits(final(stack)@, *final(store), env.0, env.1, env.2),
            old(store)@.len() <= final(store)@.len(),
            float_rel(bits, node_state(old(stack)@, *old(store), env.1), node_state(final(stack)@, *final(store), env.1), r),
    {
        Self::check_room(stack, store)?;
        let ghost (s0, st0) = (stack@, *store);
        stack.push_float(bits, store);
        proof {
            self.lemma_fits_grown(s0, stack@, st0, *store, env.0, env.1, env.1, env.2);
        }
        Ok(())
    }

    /// Runs the stack operation `op` that takes no argument.
    fn simple(
        &self,
        op: SimpleOp,
        stack: &mut Stack<'i>,
        store: &mut TypeStore,
        Ghost(env): Ghost<(Seq<usize>, Map<usize, usize>, Map<usize, Function<'i>>)>,
    ) -> (r: Result<(), InvalidStackError>)
        requires
            self.fits(old(stack)@, *old(store), env.0, env.1, env.2),
        ensures
            self.fits(final(stack)@, *final(store), env.0, env.1, env.2),
            old(store)@.len() <= final(store)@.len(),
            simple_rel(op, node_state(old(stack)@, *old(store), env.1), node_state(final(stack)@, *final(store), env.1), r),
    {
        Self::check_room(stack, store)?;
        let ghost (s0, st0) = (stack@, *store);
        let r = match op {
            SimpleOp::Reference => stack.push_reference(store),
            SimpleOp::Field => stack.set_last_as_field(store),
            SimpleOp::Deref => stack.push_deref(store),
            SimpleOp::Dup => stack.push_dup(store),
            SimpleOp::Offset => stack.push_offset(store),
            SimpleOp::StringHash => stack.push_string_hash(store),
            SimpleOp::LoadN => {
                if stack.load_n_ready(store) {
                    stack.push_load_n(store)
                } else {
                    Err(InvalidStackError)
                }
            },
            SimpleOp::Catch => {
                stack.push_catch(store);
                Ok(())
            },
            SimpleOp::AddConst(value) => stack.push_const_int_binary_operator(BinaryOperator::Add, value, store),
            SimpleOp::MultiplyConst(value) => stack.push_const_int_binary_operator(
                BinaryOperator::Multiply,
                value,
                store,
            ),
        };
        proof {
            self.lemma_fits_grown(s0, stack@, st0, *store, env.0, env.1, env.1, env.2);
        }
        r
    }

    /// Pops the top value.
    fn pop_value(
        &self,
        stack: &mut Stack<'i>,
        store: &mut TypeStore,
        Ghost(env): Ghost<(Seq<usize>, Map<usize, usize>, Map<usize, Function<'i>>)>,
    ) -> (r: Result<StackEntryInfo<'i>, InvalidStackError>)
        requires
            self.fits(old(stack)@, *old(store), env.0, env.1, env.2),
        ensures
            self.fits(final(stack)@, *final(store), env.0, env.1, env.2),
            old(store)@.len() <= final(store)@.len(),
            pop_rel_of(node_state(old(stack)@, *old(store), env.1), node_state(final(stack)@, *final(store), env.1), r),
    {
        let ghost (s0, st0) = (stack@, *store);
        let r = stack.pop(store);
        proof {
            self.lemma_fits_grown(s0, stack@, st0, *store, env.0, env.1, env.1, env.2);
        }
        r
    }

    /// Pops `n` slots' worth of values, the first popped first.
    fn pop_values(
        &self,
        n: usize,
        stack: &mut Stack<'i>,
        store: &mut TypeStore,
        Ghost(env): Ghost<(Seq<usize>, Map<usize, usize>, Map<usize, Function<'i>>)>,
    ) -> (r: Result<Vec<StackEntryInfo<'i>>, InvalidStackError>)
        requires
            self.fits(old(stack)@, *old(store), env.0, env.1, env.2),
        ensures
            self.fits(final(stack)@, *final(store), env.0, env.1, env.2),
            old(store)@.len() <= final(store)@.len(),
            r matches Ok(v) ==> tys_below(infos_view(v@), final(store)@.len()),
            pops_rel(n, node_state(old(stack)@, *old(store), env.1), node_state(final(stack)@, *final(store), env.1), r),
    {
        let ghost (s0, st0) = (stack@, *store);
        let r = stack.pop_n(n, store);
        proof {
            self.lemma_fits_grown(s0, stack@, st0, *store, env.0, env.1, env.1, env.2);
        }
        r
    }

    /// Pushes `place`.
    fn push_place(
        &self,
        place: &Place,
        stack: &mut Stack<'i>,
        store: &mut TypeStore,
        statics: &ScriptStatics,
        globals: &mut ScriptGlobals,
        Ghost(functions): Ghost<Map<usize, Function<'i>>>,
    ) -> (r: Result<(), InvalidStackError>)
        requires
            self.fits(old(stack)@, *old(store), statics@, old(globals)@, functions),
        ensures
            self.fits(final(stack)@, *final(store), statics@, final(globals)@, functions),
            old(store)@.len() <= final(store)@.len(),
            push_place_rel(self.parameters@, self.locals@, statics@, *place, node_state(old(stack)@, *old(store), old(globals)@), node_state(final(stack)@, *final(store), final(globals)@), r),
    {
        Self::check_room(stack, store)?;
        let ghost stack0 = stack@;
        let ghost store0 = *store;
        let ghost globals0 = globals@;
        let res = match place {
            Place::Local(index) => {
                let ty = self.local_index_type(*index);
                stack.push_local(*index, ty, store);
                Ok(())
            },
            Place::Static(index) => {
                stack.push_static(*index, statics, store);
                Ok(())
            },
            Place::Global(index) => {
                stack.push_global(*index, globals, store);
                Ok(())
            },
            Place::ArrayItem(item_size) => stack.push_array_item(*item_size, store),
            Place::Field(offset) => {
                if *offset < 0 {
                    return Err(InvalidStackError);
                }
                let extra = *offset as usize;
                if !stack.has_room_with(store, extra) {
                    return Err(InvalidStackError);
                }
                stack.push_const_offset(*offset as i64, store)
            },
        };
        proof {
            assert forall|k: usize| globals@.contains_key(k) implies #[trigger] globals@[k] < store@.len() by {
                if globals0.contains_key(k) {
                    assert(globals0[k] < store0@.len());
                }
            }
            self.lemma_fits_grown(stack0, stack@, store0, *store, statics@, globals0, globals@, functions);
        }
        res
    }

    /// Takes the address of, reads, or writes `place`; a write gives the
    /// assignment it makes, of the value below the place.
    fn access(
        &self,
        place: Place,
        access: Access,
        stack: &mut Stack<'i>,
        store: &mut TypeStore,
        statics: &ScriptStatics,
        globals: &mut ScriptGlobals,
        Ghost(functions): Ghost<Map<usize, Function<'i>>>,
    ) -> (r: Result<Option<Statement<'i>>, InvalidStackError>)
        requires
            self.fits(old(stack)@, *old(store), statics@, old(globals)@, functions),
        ensures
            self.fits(final(stack)@, *final(store), statics@, final(globals)@, functions),
            old(store)@.len() <= final(store)@.len(),
            r matches Ok(st) ==> (access is Store <==> st is Some) && (st matches Some(x) ==> x is Assign),
            access_rel(self.parameters@, self.locals@, statics@, place, access, node_state(old(stack)@, *old(store), old(globals)@), node_state(final(stack)@, *final(store), final(globals)@), r),
    {
        self.push_place(&place, stack, store, statics, globals, Ghost(functions))?;
        let ghost env = (statics@, globals@, functions);
        match access {
            Access::Reference => {
                self.simple(SimpleOp::Reference, stack, store, Ghost(env))?;
                Ok(None)
            },
            Access::Load => {
                self.simple(SimpleOp::Field, stack, store, Ghost(env))?;
                Ok(None)
            },
            Access::Store => {
                let destination = self.pop_value(stack, store, Ghost(env))?;
                let source = self.pop_value(stack, store, Ghost(env))?;
                Ok(Some(Statement::Assign { destination, source }))
            },
        }
    }

    /// What a value popped as the count of a copy holds: its integer, or an
    /// error where it is no integer constant.
    fn int_value(entry: &StackEntryInfo<'i>) -> (r: Result<i64, InvalidStackError>)
        ensures
            r is Ok <==> entry.entry is Int,
            r matches Ok(n) ==> entry.entry == StackEntry::<'i>::Int(n),
    {
        match &entry.entry {
            StackEntry::Int(n) => Ok(*n),
            _ => Err(InvalidStackError),
        }
    }

    /// Writes through the address on top the values below it: the address
    /// is read as a reference, then the count of slots below it is taken,
    /// and that many values make the source, a struct of them where there
    /// are several.
    fn store_n(
        &self,
        stack: &mut Stack<'i>,
        store: &mut TypeStore,
        Ghost(env): Ghost<(Seq<usize>, Map<usize, usize>, Map<usize, Function<'i>>)>,
    ) -> (r: Result<Statement<'i>, InvalidStackError>)
        requires
            self.fits(old(stack)@, *old(store), env.0, env.1, env.2),
        ensures
            self.fits(final(stack)@, *final(store), env.0, env.1, env.2),
            old(store)@.len() <= final(store)@.len(),
            r matches Ok(x) ==> x is Assign,
            store_n_rel(node_state(old(stack)@, *old(store), env.1), node_state(final(stack)@, *final(store), env.1), r),
    {
        self.simple(SimpleOp::Deref, stack, store, Ghost(env))?;
        let destination = self.pop_value(stack, store, Ghost(env))?;
        let count = self.pop_value(stack, store, Ghost(env))?;
        let n = Self::int_value(&count)?;
        let mut popped = self.pop_values(n as usize, stack, store, Ghost(env))?;
        let source = if popped.len() > 1 {
            let mut fields: Vec<usize> = Vec::new();
            let mut i: usize = 0;
            proof {
                lemma_infos_view_len(popped@);
            }
            while i < popped.len()
                invariant
                    i <= popped@.len(),
                    fields@.len() == i,
                    infos_view(popped@).len() == popped@.len(),
                    tys_below(infos_view(popped@), store@.len()),
                    forall|j: int| 0 <= j < popped@.len() ==> #[trigger] infos_view(popped@)[j].ty == popped@[j].ty,
                    forall|j: int| 0 <= j < i ==> #[trigger] fields@[j] < store@.len(),
                    forall|j: int| 0 <= j < i ==> #[trigger] fields@[j] == popped@[j].ty,
                decreases popped@.len() - i,
            {
                assert(infos_view(popped@)[i as int].ty < store@.len());
                fields.push(popped[i].ty);
                i = i + 1;
            }
            assert(fields@ =~= slot_list(popped@));
            if store.len() > usize::MAX - 1 {
                return Err(InvalidStackError);
            }
            let ghost (s0, st0) = (stack@, *store);
            let ty = LinkedValueType::Type(
                ValueTypeInfo { ty: ValueType::Struct { fields }, confidence: Confidence::High },
            ).make_shared(store);
            proof {
                self.lemma_fits_grown(s0, stack@, st0, *store, env.0, env.1, env.1, env.2);
            }
            StackEntryInfo { entry: StackEntry::ResultStruct { values: popped }, ty }
        } else {
            match popped.pop() {
                Some(value) => value,
                None => {
                    return Err(InvalidStackError);
                },
            }
        };
        Ok(Statement::Assign { source, destination })
    }

    /// Writes the value below the top to where the address on top points,
    /// the address staying on the stack.
    fn store_rev(
        &self,
        stack: &mut Stack<'i>,
        store: &mut TypeStore,
        Ghost(env): Ghost<(Seq<usize>, Map<usize, usize>, Map<usize, Function<'i>>)>,
    ) -> (r: Result<Statement<'i>, InvalidStackError>)
        requires
            self.fits(old(stack)@, *old(store), env.0, env.1, env.2),
        ensures
            self.fits(final(stack)@, *final(store), env.0, env.1, env.2),
            old(store)@.len() <= final(store)@.len(),
            r matches Ok(x) ==> x is Assign,
            store_rev_rel(node_state(old(stack)@, *old(store), env.1), node_state(final(stack)@, *final(store), env.1), r),
    {
        let ghost start = node_state(stack@, *store, env.1);
        let popped = self.pop_value(stack, store, Ghost(env));
        let ghost m1 = node_state(stack@, *store, env.1);
        assert(pop_rel_of(start, m1, popped));
        let source = popped?;
        Self::check_room(stack, store)?;
        let ghost (s0, st0) = (stack@, *store);
        let dest = stack.nth_back(0, store);
        let ghost m2 = node_state(stack@, *store, env.1);
        assert(nth_back_post(0, m1.stack, m1.store, m2.stack, m2.store, dest) && m2.globals == m1.globals);
        proof {
            self.lemma_fits_grown(s0, stack@, st0, *store, env.0, env.1, env.1, env.2);
        }
        let dest = dest?;
        if dest.ty >= store.len() || store.len() > usize::MAX - 1 {
            return Err(InvalidStackError);
        }
        let ghost (s1, st1) = (stack@, *store);
        let ty = LinkedValueType::ref_type(store, dest.ty);
        assert(ref_type_post(m2.store, *store, dest.ty, ty));
        proof {
            self.lemma_fits_grown(s1, stack@, st1, *store, env.0, env.1, env.1, env.2);
        }
        let r = Ok(Statement::Assign { source, destination: StackEntryInfo { entry: StackEntry::Deref(Box::new(dest)), ty } });
        let ghost t = node_state(stack@, *store, env.1);
        assert(t.stack == m2.stack && t.globals == m2.globals);
        assert(roomy(m1));
        assert(ref_type_post(m2.store, t.store, dest.ty, ty));
        assert(r == Ok::<Statement<'i>, InvalidStackError>(
            Statement::Assign {
                source,
                destination: StackEntryInfo { entry: StackEntry::Deref(Box::new(dest)), ty: ty },
            },
        ));
        assert(exists|ty2: usize| #[trigger] ref_type_post(m2.store, t.store, dest.ty, ty2) && t.stack == m2.stack
            && t.globals == m2.globals && r == Ok::<Statement<'i>, InvalidStackError>(
            Statement::Assign {
                source,
                destination: StackEntryInfo { entry: StackEntry::Deref(Box::new(dest)), ty: ty2 },
            },
        ));
        r
    }

    /// Copies a number of values, given below the top, to the address on
    /// top of a buffer whose size is given below the address.
    fn text_label_copy(
        &self,
        stack: &mut Stack<'i>,
        store: &mut TypeStore,
        Ghost(env): Ghost<(Seq<usize>, Map<usize, usize>, Map<usize, Function<'i>>)>,
    ) -> (r: Result<Statement<'i>, InvalidStackError>)
        requires
            self.fits(old(stack)@, *old(store), env.0, env.1, env.2),
        ensures
            self.fits(final(stack)@, *final(store), env.0, env.1, env.2),
            old(store)@.len() <= final(store)@.len(),
            r matches Ok(x) ==> x is MemCopy,
            text_label_copy_rel(node_state(old(stack)@, *old(store), env.1), node_state(final(stack)@, *final(store), env.1), r),
    {
        let destination = self.pop_value(stack, store, Ghost(env))?;
        let buffer_size = self.pop_value(stack, store, Ghost(env))?;
        let count_entry = self.pop_value(stack, store, Ghost(env))?;
        let count = Self::int_value(&count_entry)?;
        let source = self.pop_values(count as usize, stack, store, Ghost(env))?;
        Ok(Statement::MemCopy { destination, source, buffer_size, count: count as usize })
    }

    /// The list in the opposite order.
    fn reversed(v: Vec<StackEntryInfo<'i>>) -> (r: Vec<StackEntryInfo<'i>>)
        ensures
            r@ == v@.reverse(),
    {
        let mut v = v;
        let ghost orig = v@;
        let mut r: Vec<StackEntryInfo<'i>> = Vec::new();
        while v.len() > 0
            invariant
                v@ + r@.reverse() == orig,
            decreases v@.len(),
        {
            let ghost before = v@;
            let ghost rb = r@;
            let x = v.pop().unwrap();
            r.push(x);
            proof {
                assert(r@.reverse() =~= seq![x] + rb.reverse());
                assert(before =~= v@.push(x));
                assert(v@ + r@.reverse() =~= before + rb.reverse());
            }
        }
        proof {
            assert(r@.reverse() =~= orig);
            assert(r@ =~= r@.reverse().reverse());
        }
        r
    }

    /// Calls native `native_index` of the script with `arg_count`
    /// arguments, by its original hash: a statement of its own where it
    /// returns nothing, else a value pushed.
    fn native_call(
        &self,
        arg_count: usize,
        return_count: usize,
        native_index: usize,
        script: &Script,
        cross_map: &mut CrossMap,
        stack: &mut Stack<'i>,
        store: &mut TypeStore,
        Ghost(env): Ghost<(Seq<usize>, Map<usize, usize>, Map<usize, Function<'i>>)>,
    ) -> (r: Result<Option<Statement<'i>>, InvalidStackError>)
        requires
            self.fits(old(stack)@, *old(store), env.0, env.1, env.2),
            old(cross_map).wf(),
        ensures
            self.fits(final(stack)@, *final(store), env.0, env.1, env.2),
            old(store)@.len() <= final(store)@.len(),
            final(cross_map).wf(),
            final(cross_map).histories() == old(cross_map).histories(),
            r matches Ok(st) ==> (st is Some <==> return_count == 0) && (st matches Some(x) ==> x is NativeCall),
            r matches Ok(Some(Statement::NativeCall { native_hash, .. })) ==> native_index < script.natives@.len()
                && native_hash == original_hash(old(cross_map).histories(), script.natives@[native_index as int]),
            native_call_rel(script.natives@, old(cross_map).histories(), arg_count, return_count, native_index, node_state(old(stack)@, *old(store), env.1), node_state(final(stack)@, *final(store), env.1), r),
    {
        if native_index >= script.natives.len() {
            return Err(InvalidStackError);
        }
        let native_hash = cross_map.get_original_hash(script.natives[native_index]);
        let ghost start = node_state(stack@, *store, env.1);
        if return_count == 0 {
            let popped = self.pop_values(arg_count, stack, store, Ghost(env));
            assert(pops_rel(arg_count, start, node_state(stack@, *store, env.1), popped));
            let args = popped?;
            let res = Ok(Some(Statement::NativeCall { args: Self::reversed(args), native_hash }));
            res
        } else {
            let ghost (s0, st0) = (stack@, *store);
            let r = stack.push_native_call(arg_count, return_count, native_hash, store);
            assert(push_native_call_post(arg_count, return_count, native_hash, start.stack, start.store, stack@, *store, r));
            proof {
                self.lemma_fits_grown(s0, stack@, st0, *store, env.0, env.1, env.1, env.2);
            }
            r?;
            Ok(None)
        }
    }

    /// Calls the function at `location`: a statement of its own where it
    /// returns nothing, else a value pushed; an error where no function
    /// starts there.
    fn function_call(
        &self,
        location: usize,
        functions: &HashMap<usize, Function<'i>>,
        stack: &mut Stack<'i>,
        store: &mut TypeStore,
        Ghost(env): Ghost<(Seq<usize>, Map<usize, usize>, Map<usize, Function<'i>>)>,
    ) -> (r: Result<Option<Statement<'i>>, InvalidStackError>)
        requires
            env.2 == functions@,
            self.fits(old(stack)@, *old(store), env.0, env.1, env.2),
        ensures
            self.fits(final(stack)@, *final(store), env.0, env.1, env.2),
            old(store)@.len() <= final(store)@.len(),
            r matches Ok(st) ==> (st matches Some(x) ==> x is FunctionCall),
            function_call_rel(env.2, location, node_state(old(stack)@, *old(store), env.1), node_state(final(stack)@, *final(store), env.1), r),
    {
        let target = match functions.get(&location) {
            Some(target) => target,
            None => {
                return Err(InvalidStackError);
            },
        };
        assert(env.2.contains_key(location) && env.2[location] == *target);
        assert(target.slots_below(store@.len()));
        let ghost start = node_state(stack@, *store, env.1);
        if target.returns.is_some() {
            let ghost (s0, st0) = (stack@, *store);
            let r = stack.push_function_call(
                target.parameters.len(),
                &target.parameters,
                target.location,
                target.return_count,
                target.returns,
                store,
            );
            assert(push_function_call_post(
                target.parameters@.len() as usize,
                target.parameters@,
                target.location,
                target.return_count,
                target.returns,
                start.stack,
                start.store,
                stack@,
                *store,
                r,
            ));
            proof {
                self.lemma_fits_grown(s0, stack@, st0, *store, env.0, env.1, env.1, env.2);
            }
            r?;
            Ok(None)
        } else {
            let popped = self.pop_values(target.parameters.len(), stack, store, Ghost(env));
            assert(pops_rel(target.parameters@.len() as usize, start, node_state(stack@, *store, env.1), popped));
            let args = popped?;
            Ok(Some(Statement::FunctionCall { args: Self::reversed(args), function_address: target.location }))
        }
    }

    /// The comparison a compare-and-jump instruction pushes.
    fn jump_compare_of(instruction: &Instruction) -> (r: Option<BinaryOperator>)
        ensures
            r == jump_compare(*instruction),
    {
        match instruction {
            Instruction::IfEqualJumpZero { .. } => Some(BinaryOperator::Equal),
            Instruction::IfNotEqualJumpZero { .. } => Some(BinaryOperator::NotEqual),
            Instruction::IfGreaterThanJumpZero { .. } => Some(BinaryOperator::GreaterThan),
            Instruction::IfGreaterOrEqualJumpZero { .. } => Some(BinaryOperator::GreaterOrEqual),
            Instruction::IfLowerThanJumpZero { .. } => Some(BinaryOperator::LowerThan),
            Instruction::IfLowerOrEqualJumpZero { .. } => Some(BinaryOperator::LowerOrEqual),
            _ => None,
        }
    }

    /// The end of a node at a jump: the condition popped for a conditional
    /// construct, the value popped for an and/or, a break or a continue.
    fn jump_end(
        &self,
        flow: &ControlFlow,
        stack: &mut Stack<'i>,
        store: &mut TypeStore,
        Ghost(env): Ghost<(Seq<usize>, Map<usize, usize>, Map<usize, Function<'i>>)>,
    ) -> (r: Result<(Option<Statement<'i>>, Option<Option<StackEntryInfo<'i>>>), InvalidStackError>)
        requires
            self.fits(old(stack)@, *old(store), env.0, env.1, env.2),
        ensures
            self.fits(final(stack)@, *final(store), env.0, env.1, env.2),
            old(store)@.len() <= final(store)@.len(),
            jump_end_rel(*flow, node_state(old(stack)@, *old(store), env.1), node_state(final(stack)@, *final(store), env.1), r),
    {
        let ghost s0 = node_state(stack@, *store, env.1);
        match flow {
            ControlFlow::If { .. } | ControlFlow::IfElse { .. } | ControlFlow::WhileLoop { .. } | ControlFlow::Switch { .. } => {
                let popped = self.pop_value(stack, store, Ghost(env));
                assert(pop_rel_of(s0, node_state(stack@, *store, env.1), popped));
                let condition = popped?;
                Ok((None, Some(Some(condition))))
            },
            ControlFlow::AndOr { .. } => {
                let popped = self.pop_value(stack, store, Ghost(env));
                assert(pop_rel_of(s0, node_state(stack@, *store, env.1), popped));
                popped?;
                Ok((None, Some(None)))
            },
            ControlFlow::Break { .. } => Ok((Some(Statement::Break), None)),
            ControlFlow::Continue { .. } => Ok((Some(Statement::Continue), None)),
            ControlFlow::Leaf { .. } | ControlFlow::Flow { .. } => Ok((None, None)),
        }
    }

    /// A jump or switch: a compare-and-jump first pushes its comparison,
    /// then the node ends as `flow` asks.
    fn jump(
        &self,
        instruction: &Instruction,
        flow: &ControlFlow,
        stack: &mut Stack<'i>,
        store: &mut TypeStore,
        Ghost(env): Ghost<(Seq<usize>, Map<usize, usize>, Map<usize, Function<'i>>)>,
    ) -> (r: Result<(Option<Statement<'i>>, Option<Option<StackEntryInfo<'i>>>), InvalidStackError>)
        requires
            self.fits(old(stack)@, *old(store), env.0, env.1, env.2),
        ensures
            self.fits(final(stack)@, *final(store), env.0, env.1, env.2),
            old(store)@.len() <= final(store)@.len(),
            jump_rel(*instruction, *flow, node_state(old(stack)@, *old(store), env.1), node_state(final(stack)@, *final(store), env.1), r),
    {
        let ghost s0 = node_state(stack@, *store, env.1);
        match Self::jump_compare_of(instruction) {
            Some(op) => {
                let o = self.binary(stack, store, Primitives::Bool, Primitives::Int, Confidence::Medium, op, Ghost(env));
                let ghost m = node_state(stack@, *store, env.1);
                assert(binary_rel(Primitives::Bool, Primitives::Int, Confidence::Medium, op, s0, m, o));
                if o.is_err() {
                    return Err(InvalidStackError);
                }
                let r = self.jump_end(flow, stack, store, Ghost(env));
                assert(jump_end_rel(*flow, m, node_state(stack@, *store, env.1), r));
                r
            },
            None => self.jump_end(flow, stack, store, Ghost(env)),
        }
    }

    /// What one instruction of a node does: it changes the stack, may give a
    /// statement, and may end the node, with the condition that a
    /// conditional construct tests (`Some(Some(..))`) or with nothing
    /// (`Some(None)`, the end of an and/or). Vector instructions and
    /// indirect calls are errors: the type store has no vector type.
    #[verifier::rlimit(100)]
    fn step(
        &self,
        instruction: &Instruction,
        flow: &ControlFlow,
        logical: bool,
        script: &'i Script,
        functions: &HashMap<usize, Function<'i>>,
        statics: &ScriptStatics,
        globals: &mut ScriptGlobals,
        cross_map: &mut CrossMap,
        stack: &mut Stack<'i>,
        store: &mut TypeStore,
    ) -> (r: Result<(Option<Statement<'i>>, Option<Option<StackEntryInfo<'i>>>), InvalidStackError>)
        requires
            self.fits(old(stack)@, *old(store), statics@, old(globals)@, functions@),
            old(cross_map).wf(),
        ensures
            self.fits(final(stack)@, *final(store), statics@, final(globals)@, functions@),
            old(store)@.len() <= final(store)@.len(),
            final(cross_map).wf(),
            final(cross_map).histories() == old(cross_map).histories(),
            r matches Ok((_, Some(Some(_)))) ==> (flow is If || flow is IfElse || flow is WhileLoop || flow is Switch),
            r matches Ok((statement, end)) ==> {
                &&& !refused(*instruction)
                &&& (end is Some <==> ends_node(*instruction, *flow))
                &&& (end matches Some(None) ==> flow is AndOr)
                &&& (statement matches Some(st) ==> makes(*instruction, *flow, st))
                &&& (always_makes(*instruction, *flow) ==> statement is Some)
                &&& (statement is Some ==> always_makes(*instruction, *flow) || may_make(*instruction))
            },
            step_rel(
                self.step_env(*script, old(cross_map).histories(), functions@, statics@, *flow, logical),
                *instruction,
                node_state(old(stack)@, *old(store), old(globals)@),
                node_state(final(stack)@, *final(store), final(globals)@),
                r,
            ),
    {
        let ghost env = (statics@, globals@, functions@);
        match instruction {
            Instruction::Nop => {
                return Ok((Some(Statement::Nop), None));
            },
            Instruction::IntegerAdd => {
                self.binary(stack, store, Primitives::Int, Primitives::Int, Confidence::Medium, BinaryOperator::Add, Ghost(env))?;
            },
            Instruction::IntegerSubtract => {
                self.binary(stack, store, Primitives::Int, Primitives::Int, Confidence::Medium, BinaryOperator::Subtract, Ghost(env))?;
            },
            Instruction::IntegerMultiply => {
                self.binary(stack, store, Primitives::Int, Primitives::Int, Confidence::Medium, BinaryOperator::Multiply, Ghost(env))?;
            },
            Instruction::IntegerDivide => {
                self.binary(stack, store, Primitives::Int, Primitives::Int, Confidence::Medium, BinaryOperator::Divide, Ghost(env))?;
            },
            Instruction::IntegerModulo => {
                self.binary(stack, store, Primitives::Int, Primitives::Int, Confidence::Medium, BinaryOperator::Modulo, Ghost(env))?;
            },
            Instruction::IntegerEquals => {
                self.binary(stack, store, Primitives::Bool, Primitives::Int, Confidence::Medium, BinaryOperator::Equal, Ghost(env))?;
            },
            Instruction::IntegerNotEquals => {
                self.binary(stack, store, Primitives::Bool, Primitives::Int, Confidence::Medium, BinaryOperator::NotEqual, Ghost(env))?;
            },
            Instruction::IntegerGreaterThan => {
                self.binary(stack, store, Primitives::Bool, Primitives::Int, Confidence::Medium, BinaryOperator::GreaterThan, Ghost(env))?;
            },
            Instruction::IntegerGreaterOrEqual => {
                self.binary(stack, store, Primitives::Bool, Primitives::Int, Confidence::Medium, BinaryOperator::GreaterOrEqual, Ghost(env))?;
            },
            Instruction::IntegerLowerThan => {
                self.binary(stack, store, Primitives::Bool, Primitives::Int, Confidence::Medium, BinaryOperator::LowerThan, Ghost(env))?;
            },
            Instruction::IntegerLowerOrEqual => {
                self.binary(stack, store, Primitives::Bool, Primitives::Int, Confidence::Medium, BinaryOperator::LowerOrEqual, Ghost(env))?;
            },
            Instruction::FloatAdd => {
                self.binary(stack, store, Primitives::Float, Primitives::Float, Confidence::High, BinaryOperator::Add, Ghost(env))?;
            },
            Instruction::FloatSubtract => {
                self.binary(stack, store, Primitives::Float, Primitives::Float, Confidence::High, BinaryOperator::Subtract, Ghost(env))?;
            },
            Instruction::FloatMultiply => {
                self.binary(stack, store, Primitives::Float, Primitives::Float, Confidence::High, BinaryOperator::Multiply, Ghost(env))?;
            },
            Instruction::FloatDivide => {
                self.binary(stack, store, Primitives::Float, Primitives::Float, Confidence::High, BinaryOperator::Divide, Ghost(env))?;
            },
            Instruction::FloatModule => {
                self.binary(stack, store, Primitives::Float, Primitives::Float, Confidence::High, BinaryOperator::Modulo, Ghost(env))?;
            },
            Instruction::FloatEquals => {
                self.binary(stack, store, Primitives::Bool, Primitives::Float, Confidence::High, BinaryOperator::Equal, Ghost(env))?;
            },
            Instruction::FloatNotEquals => {
                self.binary(stack, store, Primitives::Bool, Primitives::Float, Confidence::High, BinaryOperator::NotEqual, Ghost(env))?;
            },
            Instruction::FloatGreaterThan => {
                self.binary(stack, store, Primitives::Bool, Primitives::Float, Confidence::High, BinaryOperator::GreaterThan, Ghost(env))?;
            },
            Instruction::FloatGreaterOrEqual => {
                self.binary(stack, store, Primitives::Bool, Primitives::Float, Confidence::High, BinaryOperator::GreaterOrEqual, Ghost(env))?;
            },
            Instruction::FloatLowerThan => {
                self.binary(stack, store, Primitives::Bool, Primitives::Float, Confidence::High, BinaryOperator::LowerThan, Ghost(env))?;
            },
            Instruction::FloatLowerOrEqual => {
                self.binary(stack, store, Primitives::Bool, Primitives::Float, Confidence::High, BinaryOperator::LowerOrEqual, Ghost(env))?;
            },
            Instruction::BitwiseXor => {
                self.binary(stack, store, Primitives::Int, Primitives::Int, Confidence::Medium, BinaryOperator::BitwiseXor, Ghost(env))?;
            },
            Instruction::BitTest => {
                self.binary(stack, store, Primitives::Bool, Primitives::Int, Confidence::Medium, BinaryOperator::BitTest, Ghost(env))?;
            },
            Instruction::IntegerNot => {
                self.unary(stack, store, Primitives::Bool, Primitives::Int, Confidence::Medium, UnaryOperator::Not, Ghost(env))?;
            },
            Instruction::IntegerNegate => {
                self.unary(stack, store, Primitives::Int, Primitives::Int, Confidence::Medium, UnaryOperator::Negate, Ghost(env))?;
            },
            Instruction::FloatNegate => {
                self.unary(stack, store, Primitives::Float, Primitives::Float, Confidence::High, UnaryOperator::Negate, Ghost(env))?;
            },
            Instruction::BitwiseAnd => {
                let op = if logical { BinaryOperator::LogicalAnd } else { BinaryOperator::BitwiseAnd };
                self.binary(stack, store, Primitives::Int, Primitives::Int, Confidence::Medium, op, Ghost(env))?;
            },
            Instruction::BitwiseOr => {
                let op = if logical { BinaryOperator::LogicalOr } else { BinaryOperator::BitwiseOr };
                self.binary(stack, store, Primitives::Int, Primitives::Int, Confidence::Medium, op, Ghost(env))?;
            },
            Instruction::IntegerToFloat => {
                self.cast(stack, store, Primitives::Float, Primitives::Int, Confidence::Medium, Ghost(env))?;
            },
            Instruction::FloatToInteger => {
                self.cast(stack, store, Primitives::Int, Primitives::Float, Confidence::High, Ghost(env))?;
            },
            Instruction::PushConstU8 { c1 } => {
                self.push_int_const(stack, store, *c1 as i64, Ghost(env))?;
            },
            Instruction::PushConstU8U8 { c1, c2 } => {
                self.push_int_const(stack, store, *c1 as i64, Ghost(env))?;
                self.push_int_const(stack, store, *c2 as i64, Ghost(env))?;
            },
            Instruction::PushConstU8U8U8 { c1, c2, c3 } => {
                self.push_int_const(stack, store, *c1 as i64, Ghost(env))?;
                self.push_int_const(stack, store, *c2 as i64, Ghost(env))?;
                self.push_int_const(stack, store, *c3 as i64, Ghost(env))?;
            },
            Instruction::PushConstU32 { c1 } => {
                self.push_int_const(stack, store, *c1 as i64, Ghost(env))?;
            },
            Instruction::PushConstFloat { c1 } => {
                self.push_float_const(stack, store, *c1, Ghost(env))?;
            },
            Instruction::AddU8 { value } => {
                self.simple(SimpleOp::AddConst(*value as i64), stack, store, Ghost(env))?;
            },
            Instruction::MultiplyU8 { value } => {
                self.simple(SimpleOp::MultiplyConst(*value as i64), stack, store, Ghost(env))?;
            },
            Instruction::AddS16 { value } => {
                self.simple(SimpleOp::AddConst(*value as i64), stack, store, Ghost(env))?;
            },
            Instruction::MultiplyS16 { value } => {
                self.simple(SimpleOp::MultiplyConst(*value as i64), stack, store, Ghost(env))?;
            },
            Instruction::PushConstS16 { c1 } => {
                self.push_int_const(stack, store, *c1 as i64, Ghost(env))?;
            },
            Instruction::PushConstU24 { c1 } => {
                self.push_int_const(stack, store, *c1 as i64, Ghost(env))?;
            },
            Instruction::PushConstM1 => {
                self.push_int_const(stack, store, -1, Ghost(env))?;
            },
            Instruction::PushConst0 => {
                self.push_int_const(stack, store, 0, Ghost(env))?;
            },
            Instruction::PushConst1 => {
                self.push_int_const(stack, store, 1, Ghost(env))?;
            },
            Instruction::PushConst2 => {
                self.push_int_const(stack, store, 2, Ghost(env))?;
            },
            Instruction::PushConst3 => {
                self.push_int_const(stack, store, 3, Ghost(env))?;
            },
            Instruction::PushConst4 => {
                self.push_int_const(stack, store, 4, Ghost(env))?;
            },
            Instruction::PushConst5 => {
                self.push_int_const(stack, store, 5, Ghost(env))?;
            },
            Instruction::PushConst6 => {
                self.push_int_const(stack, store, 6, Ghost(env))?;
            },
            Instruction::PushConst7 => {
                self.push_int_const(stack, store, 7, Ghost(env))?;
            },
            Instruction::PushConstFm1 => {
                self.push_float_const(stack, store, 0xbf80_0000, Ghost(env))?;
            },
            Instruction::PushConstF0 => {
                self.push_float_const(stack, store, 0, Ghost(env))?;
            },
            Instruction::PushConstF1 => {
                self.push_float_const(stack, store, 0x3f80_0000, Ghost(env))?;
            },
            Instruction::PushConstF2 => {
                self.push_float_const(stack, store, 0x4000_0000, Ghost(env))?;
            },
            Instruction::PushConstF3 => {
                self.push_float_const(stack, store, 0x4040_0000, Ghost(env))?;
            },
            Instruction::PushConstF4 => {
                self.push_float_const(stack, store, 0x4080_0000, Ghost(env))?;
            },
            Instruction::PushConstF5 => {
                self.push_float_const(stack, store, 0x40a0_0000, Ghost(env))?;
            },
            Instruction::PushConstF6 => {
                self.push_float_const(stack, store, 0x40c0_0000, Ghost(env))?;
            },
            Instruction::PushConstF7 => {
                self.push_float_const(stack, store, 0x40e0_0000, Ghost(env))?;
            },

            _ => {
                return self.step_places(instruction, flow, logical, script, functions, statics, globals, cross_map, stack, store);
            },
        }
        Ok((None, None))
    }

    /// `step` for the instructions that take the address of, read or write
    /// a place.
    #[verifier::rlimit(100)]
    fn step_places(
        &self,
        instruction: &Instruction,
        flow: &ControlFlow,
        logical: bool,
        script: &'i Script,
        functions: &HashMap<usize, Function<'i>>,
        statics: &ScriptStatics,
        globals: &mut ScriptGlobals,
        cross_map: &mut CrossMap,
        stack: &mut Stack<'i>,
        store: &mut TypeStore,
    ) -> (r: Result<(Option<Statement<'i>>, Option<Option<StackEntryInfo<'i>>>), InvalidStackError>)
        requires
            self.fits(old(stack)@, *old(store), statics@, old(globals)@, functions@),
            old(cross_map).wf(),
            !taken_by_step(*instruction),
        ensures
            self.fits(final(stack)@, *final(store), statics@, final(globals)@, functions@),
            old(store)@.len() <= final(store)@.len(),
            final(cross_map).wf(),
            final(cross_map).histories() == old(cross_map).histories(),
            r matches Ok((_, Some(Some(_)))) ==> (flow is If || flow is IfElse || flow is WhileLoop || flow is Switch),
            r matches Ok((statement, end)) ==> {
                &&& !refused(*instruction)
                &&& (end is Some <==> ends_node(*instruction, *flow))
                &&& (end matches Some(None) ==> flow is AndOr)
                &&& (statement matches Some(st) ==> makes(*instruction, *flow, st))
                &&& (always_makes(*instruction, *flow) ==> statement is Some)
                &&& (statement is Some ==> always_makes(*instruction, *flow) || may_make(*instruction))
            },
            step_rel(
                self.step_env(*script, old(cross_map).histories(), functions@, statics@, *flow, logical),
                *instruction,
                node_state(old(stack)@, *old(store), old(globals)@),
                node_state(final(stack)@, *final(store), final(globals)@),
                r,
            ),
    {
        let ghost env = (statics@, globals@, functions@);
        match instruction {
            Instruction::ArrayU8 { item_size } => {
                let statement = self.access(Place::ArrayItem(*item_size as usize), Access::Reference, stack, store, statics, globals, Ghost(functions@))?;
                return Ok((statement, None));
            },
            Instruction::ArrayU8Load { item_size } => {
                let statement = self.access(Place::ArrayItem(*item_size as usize), Access::Load, stack, store, statics, globals, Ghost(functions@))?;
                return Ok((statement, None));
            },
            Instruction::ArrayU8Store { item_size } => {
                let statement = self.access(Place::ArrayItem(*item_size as usize), Access::Store, stack, store, statics, globals, Ghost(functions@))?;
                return Ok((statement, None));
            },
            Instruction::ArrayU16 { item_size } => {
                let statement = self.access(Place::ArrayItem(*item_size as usize), Access::Reference, stack, store, statics, globals, Ghost(functions@))?;
                return Ok((statement, None));
            },
            Instruction::ArrayU16Load { item_size } => {
                let statement = self.access(Place::ArrayItem(*item_size as usize), Access::Load, stack, store, statics, globals, Ghost(functions@))?;
                return Ok((statement, None));
            },
            Instruction::ArrayU16Store { item_size } => {
                let statement = self.access(Place::ArrayItem(*item_size as usize), Access::Store, stack, store, statics, globals, Ghost(functions@))?;
                return Ok((statement, None));
            },
            Instruction::LocalU8 { offset } => {
                let statement = self.access(Place::Local(*offset as usize), Access::Reference, stack, store, statics, globals, Ghost(functions@))?;
                return Ok((statement, None));
            },
            Instruction::LocalU8Load { offset } => {
                let statement = self.access(Place::Local(*offset as usize), Access::Load, stack, store, statics, globals, Ghost(functions@))?;
                return Ok((statement, None));
            },
            Instruction::LocalU8Store { offset } => {
                let statement = self.access(Place::Local(*offset as usize), Access::Store, stack, store, statics, globals, Ghost(functions@))?;
                return Ok((statement, None));
            },
            Instruction::LocalU16 { local_index } => {
                let statement = self.access(Place::Local(*local_index as usize), Access::Reference, stack, store, statics, globals, Ghost(functions@))?;
                return Ok((statement, None));
            },
            Instruction::LocalU16Load { local_index } => {
                let statement = self.access(Place::Local(*local_index as usize), Access::Load, stack, store, statics, globals, Ghost(functions@))?;
                return Ok((statement, None));
            },
            Instruction::LocalU16Store { local_index } => {
                let statement = self.access(Place::Local(*local_index as usize), Access::Store, stack, store, statics, globals, Ghost(functions@))?;
                return Ok((statement, None));
            },
            Instruction::StaticU8 { static_index } => {
                let statement = self.access(Place::Static(*static_index as usize), Access::Reference, stack, store, statics, globals, Ghost(functions@))?;
                return Ok((statement, None));
            },
            Instruction::StaticU8Load { static_index } => {
                let statement = self.access(Place::Static(*static_index as usize), Access::Load, stack, store, statics, globals, Ghost(functions@))?;
                return Ok((statement, None));
            },
            Instruction::StaticU8Store { static_index } => {
                let statement = self.access(Place::Static(*static_index as usize), Access::Store, stack, store, statics, globals, Ghost(functions@))?;
                return Ok((statement, None));
            },
            Instruction::StaticU16 { static_index } => {
                let statement = self.access(Place::Static(*static_index as usize), Access::Reference, stack, store, statics, globals, Ghost(functions@))?;
                return Ok((statement, None));
            },
            Instruction::StaticU16Load { static_index } => {
                let statement = self.access(Place::Static(*static_index as usize), Access::Load, stack, store, statics, globals, Ghost(functions@))?;
                return Ok((statement, None));
            },
            Instruction::StaticU16Store { static_index } => {
                let statement = self.access(Place::Static(*static_index as usize), Access::Store, stack, store, statics, globals, Ghost(functions@))?;
                return Ok((statement, None));
            },
            Instruction::StaticU24 { static_index } => {
                let statement = self.access(Place::Static(*static_index as usize), Access::Reference, stack, store, statics, globals, Ghost(functions@))?;
                return Ok((statement, None));
            },
            Instruction::StaticU24Load { static_index } => {
                let statement = self.access(Place::Static(*static_index as usize), Access::Load, stack, store, statics, globals, Ghost(functions@))?;
                return Ok((statement, None));
            },
            Instruction::StaticU24Store { static_index } => {
                let statement = self.access(Place::Static(*static_index as usize), Access::Store, stack, store, statics, globals, Ghost(functions@))?;
                return Ok((statement, None));
            },
            Instruction::GlobalU16 { global_index } => {
                let statement = self.access(Place::Global(*global_index as usize), Access::Reference, stack, store, statics, globals, Ghost(functions@))?;
                return Ok((statement, None));
            },
            Instruction::GlobalU16Load { global_index } => {
                let statement = self.access(Place::Global(*global_index as usize), Access::Load, stack, store, statics, globals, Ghost(functions@))?;
                return Ok((statement, None));
            },
            Instruction::GlobalU16Store { global_index } => {
                let statement = self.access(Place::Global(*global_index as usize), Access::Store, stack, store, statics, globals, Ghost(functions@))?;
                return Ok((statement, None));
            },
            Instruction::GlobalU24 { global_index } => {
                let statement = self.access(Place::Global(*global_index as usize), Access::Reference, stack, store, statics, globals, Ghost(functions@))?;
                return Ok((statement, None));
            },
            Instruction::GlobalU24Load { global_index } => {
                let statement = self.access(Place::Global(*global_index as usize), Access::Load, stack, store, statics, globals, Ghost(functions@))?;
                return Ok((statement, None));
            },
            Instruction::GlobalU24Store { global_index } => {
                let statement = self.access(Place::Global(*global_index as usize), Access::Store, stack, store, statics, globals, Ghost(functions@))?;
                return Ok((statement, None));
            },
            Instruction::OffsetU8 { offset } => {
                let statement = self.access(Place::Field(*offset as i16), Access::Reference, stack, store, statics, globals, Ghost(functions@))?;
                return Ok((statement, None));
            },
            Instruction::OffsetU8Load { offset } => {
                let statement = self.access(Place::Field(*offset as i16), Access::Load, stack, store, statics, globals, Ghost(functions@))?;
                return Ok((statement, None));
            },
            Instruction::OffsetU8Store { offset } => {
                let statement = self.access(Place::Field(*offset as i16), Access::Store, stack, store, statics, globals, Ghost(functions@))?;
                return Ok((statement, None));
            },
            Instruction::OffsetS16 { offset } => {
                let statement = self.access(Place::Field(*offset), Access::Reference, stack, store, statics, globals, Ghost(functions@))?;
                return Ok((statement, None));
            },
            Instruction::OffsetS16Load { offset } => {
                let statement = self.access(Place::Field(*offset), Access::Load, stack, store, statics, globals, Ghost(functions@))?;
                return Ok((statement, None));
            },
            Instruction::OffsetS16Store { offset } => {
                let statement = self.access(Place::Field(*offset), Access::Store, stack, store, statics, globals, Ghost(functions@))?;
                return Ok((statement, None));
            },
            _ => {
                return self.step_rest(instruction, flow, logical, script, functions, statics, globals, cross_map, stack, store);
            },
        }
        Ok((None, None))
    }

    /// `step` for the instructions that are neither arithmetic, constants
    /// nor place accesses.
    #[verifier::rlimit(100)]
    fn step_rest(
        &self,
        instruction: &Instruction,
        flow: &ControlFlow,
        logical: bool,
        script: &'i Script,
        functions: &HashMap<usize, Function<'i>>,
        statics: &ScriptStatics,
        globals: &mut ScriptGlobals,
        cross_map: &mut CrossMap,
        stack: &mut Stack<'i>,
        store: &mut TypeStore,
    ) -> (r: Result<(Option<Statement<'i>>, Option<Option<StackEntryInfo<'i>>>), InvalidStackError>)
        requires
            self.fits(old(stack)@, *old(store), statics@, old(globals)@, functions@),
            old(cross_map).wf(),
            !taken_by_step(*instruction),
            place_of(*instruction) is None,
        ensures
            self.fits(final(stack)@, *final(store), statics@, final(globals)@, functions@),
            old(store)@.len() <= final(store)@.len(),
            final(cross_map).wf(),
            final(cross_map).histories() == old(cross_map).histories(),
            r matches Ok((_, Some(Some(_)))) ==> (flow is If || flow is IfElse || flow is WhileLoop || flow is Switch),
            r matches Ok((statement, end)) ==> {
                &&& !refused(*instruction)
                &&& (end is Some <==> ends_node(*instruction, *flow))
                &&& (end matches Some(None) ==> flow is AndOr)
                &&& (statement matches Some(st) ==> makes(*instruction, *flow, st))
                &&& (always_makes(*instruction, *flow) ==> statement is Some)
                &&& (statement is Some ==> always_makes(*instruction, *flow) || may_make(*instruction))
            },
            step_rel(
                self.step_env(*script, old(cross_map).histories(), functions@, statics@, *flow, logical),
                *instruction,
                node_state(old(stack)@, *old(store), old(globals)@),
                node_state(final(stack)@, *final(store), final(globals)@),
                r,
            ),
    {
        let ghost env = (statics@, globals@, functions@);
        match instruction {
            Instruction::VectorAdd
            | Instruction::VectorSubtract
            | Instruction::VectorMultiply
            | Instruction::VectorDivide
            | Instruction::VectorNegate
            | Instruction::FloatToVector
            | Instruction::CallIndirect => {
                return Err(InvalidStackError);
            },
            Instruction::Dup => {
                self.simple(SimpleOp::Dup, stack, store, Ghost(env))?;
            },
            Instruction::Drop => {
                if let Ok(entry) = self.pop_value(stack, store, Ghost(env)) {
                    match entry.entry {
                        StackEntry::FunctionCallResult { args, function_address, .. } => {
                            return Ok((Some(Statement::FunctionCall { args, function_address }), None));
                        },
                        StackEntry::NativeCallResult { args, native_hash, .. } => {
                            return Ok((Some(Statement::NativeCall { args, native_hash }), None));
                        },
                        _ => {},
                    }
                }
            },
            Instruction::NativeCall { arg_count, return_count, native_index } => {
                let statement = self.native_call(
                    *arg_count as usize,
                    *return_count as usize,
                    *native_index as usize,
                    script,
                    cross_map,
                    stack,
                    store,
                    Ghost(env),
                )?;
                return Ok((statement, None));
            },
            Instruction::Enter { .. } => {},
            Instruction::Leave { return_count, .. } => {
                let values = self.pop_values(*return_count as usize, stack, store, Ghost(env))?;
                return Ok((Some(Statement::Return { values }), None));
            },
            Instruction::Load => {
                self.simple(SimpleOp::Deref, stack, store, Ghost(env))?;
            },
            Instruction::Store => {
                let destination = self.pop_value(stack, store, Ghost(env))?;
                let source = self.pop_value(stack, store, Ghost(env))?;
                return Ok((Some(Statement::Assign { destination, source }), None));
            },
            Instruction::StoreRev => {
                let statement = self.store_rev(stack, store, Ghost(env))?;
                return Ok((Some(statement), None));
            },
            Instruction::LoadN => {
                self.simple(SimpleOp::LoadN, stack, store, Ghost(env))?;
            },
            Instruction::StoreN => {
                let statement = self.store_n(stack, store, Ghost(env))?;
                return Ok((Some(statement), None));
            },
            Instruction::Offset => {
                self.simple(SimpleOp::Offset, stack, store, Ghost(env))?;
                self.simple(SimpleOp::Reference, stack, store, Ghost(env))?;
            },
            Instruction::Jump { .. }
            | Instruction::JumpZero { .. }
            | Instruction::IfEqualJumpZero { .. }
            | Instruction::IfNotEqualJumpZero { .. }
            | Instruction::IfGreaterThanJumpZero { .. }
            | Instruction::IfGreaterOrEqualJumpZero { .. }
            | Instruction::IfLowerThanJumpZero { .. }
            | Instruction::IfLowerOrEqualJumpZero { .. }
            | Instruction::Switch { .. } => {
                return self.jump(instruction, flow, stack, store, Ghost(env));
            },
            Instruction::FunctionCall { location } => {
                let statement = self.function_call(*location as usize, functions, stack, store, Ghost(env))?;
                return Ok((statement, None));
            },
            Instruction::String => {
                Self::check_room(stack, store)?;
                if !stack.string_ready(script) {
                    return Err(InvalidStackError);
                }
                let ghost (s0, st0) = (stack@, *store);
                let r = stack.push_string(script, store);
                proof {
                    self.lemma_fits_grown(s0, stack@, st0, *store, env.0, env.1, env.1, env.2);
                }
                r?;
            },
            Instruction::StringHash => {
                self.simple(SimpleOp::StringHash, stack, store, Ghost(env))?;
            },
            Instruction::TextLabelAssignString { buffer_size } => {
                let destination = self.pop_value(stack, store, Ghost(env))?;
                let string = self.pop_value(stack, store, Ghost(env))?;
                return Ok((Some(Statement::StringCopy { destination, string, max_length: *buffer_size as usize }), None));
            },
            Instruction::TextLabelAssignInt { buffer_size } => {
                let destination = self.pop_value(stack, store, Ghost(env))?;
                let number = self.pop_value(stack, store, Ghost(env))?;
                return Ok((Some(Statement::IntToString { destination, int: number, max_length: *buffer_size as usize }), None));
            },
            Instruction::TextLabelAppendString { buffer_size } => {
                let destination = self.pop_value(stack, store, Ghost(env))?;
                let string = self.pop_value(stack, store, Ghost(env))?;
                return Ok((Some(Statement::StringConcat { destination, string, max_length: *buffer_size as usize }), None));
            },
            Instruction::TextLabelAppendInt { buffer_size } => {
                let destination = self.pop_value(stack, store, Ghost(env))?;
                let number = self.pop_value(stack, store, Ghost(env))?;
                return Ok((Some(Statement::StringIntConcat { destination, int: number, max_length: *buffer_size as usize }), None));
            },
            Instruction::TextLabelCopy => {
                let statement = self.text_label_copy(stack, store, Ghost(env))?;
                return Ok((Some(statement), None));
            },
            Instruction::Catch => {
                self.simple(SimpleOp::Catch, stack, store, Ghost(env))?;
            },
            Instruction::Throw => {
                let value = self.pop_value(stack, store, Ghost(env))?;
                return Ok((Some(Statement::Throw { value }), None));
            },
            // The others are taken by `step` and `step_places` before they
            // come here.
            _ => {
                return Err(InvalidStackError);
            },
        }
        Ok((None, None))
    }

    /// Decompiles the instructions of the node that `flow` starts at, in
    /// order: each changes the stack and may add a statement. The node ends
    /// early at the jump of a conditional construct, giving the condition
    /// it tests, or of an and/or, giving nothing. `parent_flow` is the
    /// construct around the node: within an and/or, bitwise and and or are
    /// logical. A native is called by its original hash, which `cross_map`
    /// gives for the hash the script lists. On an error the statements and the stack are left as
    /// they stood then. What each instruction does to the stack, the store
    /// and the globals, and what it gives, is `step_rel`; the node as a
    /// whole is `decoded`.
    #[verifier::rlimit(100)]
    pub fn decompile_node(
        &self,
        statements: &mut Vec<StatementInfo<'i>>,
        stack: &mut Stack<'i>,
        script: &'i Script,
        flow: &ControlFlow,
        parent_flow: Option<&ControlFlow>,
        functions: &HashMap<usize, Function<'i>>,
        statics: &ScriptStatics,
        globals: &mut ScriptGlobals,
        cross_map: &mut CrossMap,
        store: &mut TypeStore,
    ) -> (r: Result<Option<StackEntryInfo<'i>>, InvalidStackError>)
        requires
            self.fits(old(stack)@, *old(store), statics@, old(globals)@, functions@),
            flow.node_spec() < self.graph.nodes().len(),
            old(cross_map).wf(),
        ensures
            final(cross_map).wf(),
            final(cross_map).histories() == old(cross_map).histories(),
            self.fits(final(stack)@, *final(store), statics@, final(globals)@, functions@),
            old(store)@.len() <= final(store)@.len(),
            old(statements)@.len() <= final(statements)@.len(),
            final(statements)@.subrange(0, old(statements)@.len() as int) == old(statements)@,
            r matches Ok(Some(_)) ==> (flow is If || flow is IfElse || flow is WhileLoop || flow is Switch),
            decoded(
                self.step_env(*script, old(cross_map).histories(), functions@, statics@, *flow, within_and_or(parent_flow)),
                self.node_code(flow.node_spec()),
                node_state(old(stack)@, *old(store), old(globals)@),
                node_state(final(stack)@, *final(store), final(globals)@),
                statements_of(final(statements)@.skip(old(statements)@.len() as int)),
                r,
            ),
            r is Ok ==> ({
                let code = self.node_code(flow.node_spec());
                let k = first_end(code, *flow, 0);
                let done = if k < code.len() {
                    k + 1
                } else {
                    k
                };
                let added = statements_of(final(statements)@.skip(old(statements)@.len() as int));
                &&& forall|j: int| 0 <= j < done ==> !refused(#[trigger] code[j].instruction)
                &&& made_by(code.take(done), *flow, added)
                &&& (r matches Ok(Some(_)) <==> k < code.len() && (flow is If || flow is IfElse || flow is WhileLoop
                    || flow is Switch))
            }),
    {
        let node = match self.graph.get_node(flow.node()) {
            Some(node) => node,
            None => {
                return Err(InvalidStackError);
            },
        };
        let logical = match parent_flow {
            Some(ControlFlow::AndOr { .. }) => true,
            _ => false,
        };
        let ghost first = statements@;
        let ghost code = node.instructions@;
        let ghost env = self.step_env(*script, old(cross_map).histories(), functions@, statics@, *flow, logical);
        let ghost s0 = node_state(stack@, *store, globals@);
        assert(logical == within_and_or(parent_flow));
        proof {
            lemma_ran_start(env, code, s0);
        }
        assert(code == self.node_code(flow.node_spec()));
        let mut index: usize = 0;
        assert(code.take(0) =~= Seq::<InstructionInfo>::empty());
        assert(statements_of(statements@.skip(first.len() as int)) =~= Seq::<Statement>::empty());
        while index < node.instructions.len()
            invariant
                self.fits(stack@, *store, statics@, globals@, functions@),
                old(store)@.len() <= store@.len(),
                cross_map.wf(),
                cross_map.histories() == old(cross_map).histories(),
                first == old(statements)@,
                first.len() <= statements@.len(),
                statements@.subrange(0, first.len() as int) == first,
                index <= node.instructions@.len(),
                code == node.instructions@,
                code == self.node_code(flow.node_spec()),
                first_end(code, *flow, 0) == first_end(code, *flow, index as int),
                forall|j: int| 0 <= j < index ==> !refused(#[trigger] code[j].instruction),
                made_by(code.take(index as int), *flow, statements_of(statements@.skip(first.len() as int))),
                env == self.step_env(*script, old(cross_map).histories(), functions@, statics@, *flow, logical),
                s0 == node_state(old(stack)@, *old(store), old(globals)@),
                logical == within_and_or(parent_flow),
                ran(env, code, index as nat, s0, node_state(stack@, *store, globals@), statements_of(statements@.skip(first.len() as int))),
            decreases node.instructions@.len() - index,
        {
            let ghost added = statements_of(statements@.skip(first.len() as int));
            let here = self.instruction_at(index);
            let ghost cur = node_state(stack@, *store, globals@);
            let res = self.step(
                &node.instructions[index].instruction,
                flow,
                logical,
                script,
                functions,
                statics,
                globals,
                cross_map,
                stack,
                store,
            );
            let ghost nxt = node_state(stack@, *store, globals@);
            assert(node.instructions@[index as int].instruction == code[index as int].instruction);
            assert(step_rel(env, code[index as int].instruction, cur, nxt, res));
            let (statement, end) = match res {
                Ok(x) => x,
                Err(e) => {
                    proof {
                        assert(statements_of(statements@.skip(first.len() as int)) == added);
                        lemma_decoded_stop(env, code, index as nat, s0, cur, added, nxt, res, added, Err(e));
                        assert(decoded(env, code, s0, nxt, added, Err(e)));
                        assert(env == self.step_env(*script, old(cross_map).histories(), functions@, statics@, *flow, within_and_or(parent_flow)));
                        assert(code == self.node_code(flow.node_spec()));
                        assert(s0 == node_state(old(stack)@, *old(store), old(globals)@));
                        assert(nxt == node_state(stack@, *store, globals@));
                        assert(added == statements_of(statements@.skip(old(statements)@.len() as int)));
                    }
                    return Err(e);
                },
            };
            let ghost made = statement;
            if let Some(statement) = statement {
                let ghost before = statements@;
                statements.push(StatementInfo { instructions: here, statement });
                assert(statements@.subrange(0, first.len() as int) =~= before.subrange(0, first.len() as int));
                assert(statements_of(statements@.skip(first.len() as int)) =~= added.push(statement));
            }
            proof {
                assert(code.take(index + 1).drop_last() =~= code.take(index as int));
                assert(code.take(index + 1).last() == code[index as int]);
                if made is Some {
                    assert(statements_of(statements@.skip(first.len() as int)).drop_last() =~= added);
                }
                assert(made_by(code.take(index + 1), *flow, statements_of(statements@.skip(first.len() as int))));
                assert(!refused(code[index as int].instruction));
                if end is Some {
                    assert(first_end(code, *flow, index as int) == index);
                }
            }
            if let Some(result) = end {
                proof {
                    assert(statements_of(statements@.skip(first.len() as int)) =~= added + opt_stmt(made));
                    lemma_decoded_stop(env, code, index as nat, s0, cur, added, nxt, res, statements_of(statements@.skip(first.len() as int)), Ok(result));
                    assert forall|j: int| 0 <= j < index + 1 implies !refused(#[trigger] code[j].instruction) by {
                        if j < index {
                            assert(!refused(code[j].instruction));
                        }
                    }
                    assert(first_end(code, *flow, 0) == index);
                    assert(ends_node(code[index as int].instruction, *flow));
                    assert(result is Some <==> (flow is If || flow is IfElse || flow is WhileLoop || flow is Switch));
                }
                return Ok(result);
            }
            proof {
                assert(statements_of(statements@.skip(first.len() as int)) =~= added + opt_stmt(made));
                lemma_ran_step(env, code, index as nat, s0, cur, added, nxt, res);
            }
            index = index + 1;
        }
        proof {
            assert(code.take(index as int) =~= code.take(code.len() as int));
            lemma_decoded_done(env, code, s0, node_state(stack@, *store, globals@), statements_of(statements@.skip(first.len() as int)));
        }
        Ok(None)
    }
}

} // verus!
