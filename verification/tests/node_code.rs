use gta5_script_decompiler::decompiler::control_flow::ControlFlow;
use gta5_script_decompiler::decompiler::decompiled::statement::{Statement, StatementInfo};
use gta5_script_decompiler::decompiler::function::{Function, FunctionInfo};
use gta5_script_decompiler::decompiler::script_globals::ScriptGlobals;
use gta5_script_decompiler::decompiler::script_statics::ScriptStatics;
use gta5_script_decompiler::decompiler::stack::{InvalidStackError, Stack};
use gta5_script_decompiler::decompiler::stack_entry::{BinaryOperator, StackEntry, UnaryOperator};
use gta5_script_decompiler::decompiler::value_type::TypeStore;
use gta5_script_decompiler::disassembler::instruction::{Instruction, InstructionInfo};
use gta5_script_decompiler::resources::cross_map::CrossMap;
use gta5_script_decompiler::script::{Script, ScriptInfo};
use std::collections::HashMap;

const BYTES: [u8; 5] = [0, 0, 0, 0, 0];

fn at(pos: usize, len: usize, instruction: Instruction) -> InstructionInfo<'static> {
    InstructionInfo { instruction, pos, bytes: &BYTES[..len] }
}

fn empty_script() -> Script {
    Script {
        header: ScriptInfo {
            name: String::new(),
            name_hash: 0,
            globals_version: 0,
            parameter_count: 0,
            static_count: 0,
        },
        code: vec![],
        strings: vec![],
        natives: vec![],
    }
}

fn info<'i>(instructions: &'i [InstructionInfo<'i>], locals: u32) -> FunctionInfo<'i> {
    FunctionInfo { name: "func_0".to_string(), location: 0, parameters: 0, returns: 0, locals, instructions }
}

#[test]
fn a_sum_is_returned() {
    let instructions = vec![
        at(0, 5, Instruction::Enter { arg_count: 0, frame_size: 2, name: None }),
        at(5, 1, Instruction::PushConst1),
        at(6, 1, Instruction::PushConst2),
        at(7, 1, Instruction::IntegerAdd),
        at(8, 3, Instruction::Leave { parameter_count: 0, return_count: 1 }),
    ];
    let script = empty_script();
    let mut store = TypeStore::new();
    let f = Function::new(info(&instructions, 0), &mut store).unwrap();
    let statics = ScriptStatics::new(0, &mut store);
    let mut globals = ScriptGlobals::default();
    let functions: HashMap<usize, Function> = HashMap::new();
    let mut stack = Stack::new();
    let mut statements: Vec<StatementInfo> = Vec::new();
    let flow = ControlFlow::Leaf { node: 0 };
    let r = f.decompile_node(
        &mut statements, &mut stack, &script, &flow, None, &functions, &statics, &mut globals, &mut CrossMap::new(vec![]), &mut store,
    );
    assert!(matches!(r, Ok(None)));
    assert_eq!(statements.len(), 1);
    match &statements[0].statement {
        Statement::Return { values } => {
            assert_eq!(values.len(), 1);
            match &values[0].entry {
                StackEntry::BinaryOperator { lhs, rhs, op } => {
                    assert!(matches!(op, BinaryOperator::Add));
                    assert!(matches!(lhs.entry, StackEntry::Int(1)));
                    assert!(matches!(rhs.entry, StackEntry::Int(2)));
                }
                _ => panic!("the value returned is not a sum"),
            }
        }
        _ => panic!("the statement is not a return"),
    }
}

#[test]
fn a_conditional_jump_ends_the_node_with_its_condition() {
    let instructions = vec![
        at(0, 5, Instruction::Enter { arg_count: 0, frame_size: 2, name: None }),
        at(5, 1, Instruction::PushConst1),
        at(6, 3, Instruction::JumpZero { location: 10 }),
        at(9, 1, Instruction::Nop),
        at(10, 3, Instruction::Leave { parameter_count: 0, return_count: 0 }),
    ];
    let script = empty_script();
    let mut store = TypeStore::new();
    let f = Function::new(info(&instructions, 0), &mut store).unwrap();
    let statics = ScriptStatics::new(0, &mut store);
    let mut globals = ScriptGlobals::default();
    let functions: HashMap<usize, Function> = HashMap::new();
    let mut stack = Stack::new();
    let mut statements: Vec<StatementInfo> = Vec::new();
    let flow = ControlFlow::If { node: 0, then: 1, after: Some(2) };
    let r = f.decompile_node(
        &mut statements, &mut stack, &script, &flow, None, &functions, &statics, &mut globals, &mut CrossMap::new(vec![]), &mut store,
    );
    match r {
        Ok(Some(condition)) => assert!(matches!(condition.entry, StackEntry::Int(1))),
        _ => panic!("the node gave no condition"),
    }
    assert_eq!(statements.len(), 0);
}

#[test]
fn a_local_store_assigns_the_value_below() {
    let instructions = vec![
        at(0, 5, Instruction::Enter { arg_count: 0, frame_size: 3, name: None }),
        at(5, 1, Instruction::PushConst7),
        at(6, 2, Instruction::LocalU8Store { offset: 2 }),
        at(8, 3, Instruction::Leave { parameter_count: 0, return_count: 0 }),
    ];
    let script = empty_script();
    let mut store = TypeStore::new();
    let f = Function::new(info(&instructions, 1), &mut store).unwrap();
    let statics = ScriptStatics::new(0, &mut store);
    let mut globals = ScriptGlobals::default();
    let functions: HashMap<usize, Function> = HashMap::new();
    let mut stack = Stack::new();
    let mut statements: Vec<StatementInfo> = Vec::new();
    let flow = ControlFlow::Leaf { node: 0 };
    let r = f.decompile_node(
        &mut statements, &mut stack, &script, &flow, None, &functions, &statics, &mut globals, &mut CrossMap::new(vec![]), &mut store,
    );
    assert!(matches!(r, Ok(None)));
    assert_eq!(statements.len(), 2);
    match &statements[0].statement {
        Statement::Assign { destination, source } => {
            assert!(matches!(destination.entry, StackEntry::Local(2)));
            assert_eq!(destination.ty, f.locals[0]);
            assert!(matches!(source.entry, StackEntry::Int(7)));
        }
        _ => panic!("the statement is not an assignment"),
    }
    assert!(matches!(statements[1].statement, Statement::Return { .. }));
}

#[test]
fn a_vector_instruction_is_refused() {
    let instructions = vec![
        at(0, 5, Instruction::Enter { arg_count: 0, frame_size: 2, name: None }),
        at(5, 1, Instruction::VectorAdd),
        at(6, 3, Instruction::Leave { parameter_count: 0, return_count: 0 }),
    ];
    let script = empty_script();
    let mut store = TypeStore::new();
    let f = Function::new(info(&instructions, 0), &mut store).unwrap();
    let statics = ScriptStatics::new(0, &mut store);
    let mut globals = ScriptGlobals::default();
    let functions: HashMap<usize, Function> = HashMap::new();
    let mut stack = Stack::new();
    let mut statements: Vec<StatementInfo> = Vec::new();
    let flow = ControlFlow::Leaf { node: 0 };
    let r = f.decompile_node(
        &mut statements, &mut stack, &script, &flow, None, &functions, &statics, &mut globals, &mut CrossMap::new(vec![]), &mut store,
    );
    assert!(matches!(r, Err(InvalidStackError)));
}

#[test]
fn a_call_to_no_known_function_fails() {
    let instructions = vec![
        at(0, 5, Instruction::Enter { arg_count: 0, frame_size: 2, name: None }),
        at(5, 4, Instruction::FunctionCall { location: 99 }),
        at(9, 3, Instruction::Leave { parameter_count: 0, return_count: 0 }),
    ];
    let script = empty_script();
    let mut store = TypeStore::new();
    let f = Function::new(info(&instructions, 0), &mut store).unwrap();
    let statics = ScriptStatics::new(0, &mut store);
    let mut globals = ScriptGlobals::default();
    let functions: HashMap<usize, Function> = HashMap::new();
    let mut stack = Stack::new();
    let mut statements: Vec<StatementInfo> = Vec::new();
    let flow = ControlFlow::Leaf { node: 0 };
    let r = f.decompile_node(
        &mut statements, &mut stack, &script, &flow, None, &functions, &statics, &mut globals, &mut CrossMap::new(vec![]), &mut store,
    );
    assert!(matches!(r, Err(InvalidStackError)));
}

#[test]
fn a_local_has_the_slot_after_the_frame_slots() {
    let instructions = vec![
        at(0, 5, Instruction::Enter { arg_count: 1, frame_size: 4, name: None }),
        at(5, 3, Instruction::Leave { parameter_count: 1, return_count: 0 }),
    ];
    let mut store = TypeStore::new();
    let mut i = info(&instructions, 1);
    i.parameters = 1;
    let f = Function::new(i, &mut store).unwrap();
    assert_eq!(f.local_index_type(0), Some(f.parameters[0]));
    assert_eq!(f.local_index_type(1), None);
    assert_eq!(f.local_index_type(2), None);
    assert_eq!(f.local_index_type(3), Some(f.locals[0]));
    assert_eq!(f.local_index_type(4), None);
}

#[test]
fn the_jump_of_a_break_makes_a_break() {
    let instructions = vec![
        at(0, 5, Instruction::Enter { arg_count: 0, frame_size: 2, name: None }),
        at(5, 3, Instruction::Jump { location: 9 }),
        at(8, 1, Instruction::Nop),
        at(9, 3, Instruction::Leave { parameter_count: 0, return_count: 0 }),
    ];
    let script = empty_script();
    let mut store = TypeStore::new();
    let f = Function::new(info(&instructions, 0), &mut store).unwrap();
    let statics = ScriptStatics::new(0, &mut store);
    let mut globals = ScriptGlobals::default();
    let functions: HashMap<usize, Function> = HashMap::new();
    let mut stack = Stack::new();
    let mut statements: Vec<StatementInfo> = Vec::new();
    let flow = ControlFlow::Break { node: 0, breaks: 1 };
    let r = f.decompile_node(
        &mut statements, &mut stack, &script, &flow, None, &functions, &statics, &mut globals, &mut CrossMap::new(vec![]), &mut store,
    );
    assert!(matches!(r, Ok(None)));
    assert_eq!(statements.len(), 1);
    assert!(matches!(statements[0].statement, Statement::Break));
}

#[test]
fn the_jump_of_an_and_or_takes_its_condition_and_gives_nothing() {
    let instructions = vec![
        at(0, 5, Instruction::Enter { arg_count: 0, frame_size: 2, name: None }),
        at(5, 1, Instruction::PushConst1),
        at(6, 3, Instruction::JumpZero { location: 10 }),
        at(9, 1, Instruction::Nop),
        at(10, 3, Instruction::Leave { parameter_count: 0, return_count: 0 }),
    ];
    let script = empty_script();
    let mut store = TypeStore::new();
    let f = Function::new(info(&instructions, 0), &mut store).unwrap();
    let statics = ScriptStatics::new(0, &mut store);
    let mut globals = ScriptGlobals::default();
    let functions: HashMap<usize, Function> = HashMap::new();
    let mut stack = Stack::new();
    let mut statements: Vec<StatementInfo> = Vec::new();
    let flow = ControlFlow::AndOr { node: 0, with: 1, after: 2 };
    let r = f.decompile_node(
        &mut statements, &mut stack, &script, &flow, None, &functions, &statics, &mut globals, &mut CrossMap::new(vec![]), &mut store,
    );
    assert!(matches!(r, Ok(None)));
    assert_eq!(statements.len(), 0);
    assert!(matches!(stack.pop(&mut store), Err(InvalidStackError)));
}

#[test]
fn a_native_without_results_is_a_statement_with_its_original_hash() {
    let instructions = vec![
        at(0, 5, Instruction::Enter { arg_count: 0, frame_size: 2, name: None }),
        at(5, 1, Instruction::PushConst3),
        at(6, 4, Instruction::NativeCall { arg_count: 1, return_count: 0, native_index: 0 }),
        at(10, 3, Instruction::Leave { parameter_count: 0, return_count: 0 }),
    ];
    let mut script = empty_script();
    script.natives = vec![0xABCD];
    let mut store = TypeStore::new();
    let f = Function::new(info(&instructions, 0), &mut store).unwrap();
    let statics = ScriptStatics::new(0, &mut store);
    let mut globals = ScriptGlobals::default();
    let functions: HashMap<usize, Function> = HashMap::new();
    let mut stack = Stack::new();
    let mut statements: Vec<StatementInfo> = Vec::new();
    let flow = ControlFlow::Leaf { node: 0 };
    let r = f.decompile_node(
        &mut statements, &mut stack, &script, &flow, None, &functions, &statics, &mut globals, &mut CrossMap::new(vec![vec![0x1234, 0xABCD]]), &mut store,
    );
    assert!(matches!(r, Ok(None)));
    match &statements[0].statement {
        Statement::NativeCall { args, native_hash } => {
            assert_eq!(*native_hash, 0x1234);
            assert_eq!(args.len(), 1);
            assert!(matches!(args[0].entry, StackEntry::Int(3)));
        }
        _ => panic!("the statement is not a native call"),
    }
}

#[test]
fn a_compare_and_jump_ends_the_node_with_the_comparison_of_its_operands() {
    let instructions = vec![
        at(0, 5, Instruction::Enter { arg_count: 0, frame_size: 2, name: None }),
        at(5, 1, Instruction::PushConst3),
        at(6, 1, Instruction::PushConst5),
        at(7, 3, Instruction::IfLowerThanJumpZero { location: 11 }),
        at(10, 1, Instruction::Nop),
        at(11, 3, Instruction::Leave { parameter_count: 0, return_count: 0 }),
    ];
    let script = empty_script();
    let mut store = TypeStore::new();
    let f = Function::new(info(&instructions, 0), &mut store).unwrap();
    let statics = ScriptStatics::new(0, &mut store);
    let mut globals = ScriptGlobals::default();
    let functions: HashMap<usize, Function> = HashMap::new();
    let mut stack = Stack::new();
    let mut statements: Vec<StatementInfo> = Vec::new();
    let flow = ControlFlow::If { node: 0, then: 1, after: Some(2) };
    let r = f.decompile_node(
        &mut statements, &mut stack, &script, &flow, None, &functions, &statics, &mut globals, &mut CrossMap::new(vec![]), &mut store,
    );
    match r {
        Ok(Some(condition)) => match condition.entry {
            StackEntry::BinaryOperator { lhs, rhs, op } => {
                assert!(matches!(op, BinaryOperator::LowerThan));
                assert!(matches!(lhs.entry, StackEntry::Int(3)));
                assert!(matches!(rhs.entry, StackEntry::Int(5)));
            }
            _ => panic!("the condition is not the comparison"),
        },
        _ => panic!("the node gave no condition"),
    }
    assert_eq!(statements.len(), 0);
}

#[test]
fn a_float_negation_negates_the_float_on_top() {
    let instructions = vec![
        at(0, 5, Instruction::Enter { arg_count: 0, frame_size: 2, name: None }),
        at(5, 1, Instruction::PushConstF2),
        at(6, 1, Instruction::FloatNegate),
        at(7, 3, Instruction::Leave { parameter_count: 0, return_count: 1 }),
    ];
    let script = empty_script();
    let mut store = TypeStore::new();
    let f = Function::new(info(&instructions, 0), &mut store).unwrap();
    let statics = ScriptStatics::new(0, &mut store);
    let mut globals = ScriptGlobals::default();
    let functions: HashMap<usize, Function> = HashMap::new();
    let mut stack = Stack::new();
    let mut statements: Vec<StatementInfo> = Vec::new();
    let flow = ControlFlow::Leaf { node: 0 };
    let r = f.decompile_node(
        &mut statements, &mut stack, &script, &flow, None, &functions, &statics, &mut globals, &mut CrossMap::new(vec![]), &mut store,
    );
    assert!(matches!(r, Ok(None)));
    assert_eq!(statements.len(), 1);
    match &statements[0].statement {
        Statement::Return { values } => {
            assert_eq!(values.len(), 1);
            match &values[0].entry {
                StackEntry::UnaryOperator { lhs, op } => {
                    assert!(matches!(op, UnaryOperator::Negate));
                    assert!(matches!(lhs.entry, StackEntry::Float(0x4000_0000)));
                }
                _ => panic!("the value returned is not a negation"),
            }
        }
        _ => panic!("the statement is not a return"),
    }
}
