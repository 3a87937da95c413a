use gta5_script_decompiler::decompiler::control_flow::ControlFlow;
use gta5_script_decompiler::decompiler::decompiled::decompiled_function::DecompiledFunction;
use gta5_script_decompiler::decompiler::decompiled::statement::{Statement, StatementInfo};
use gta5_script_decompiler::decompiler::function::{
    add_statement_types, combine_control_flow, find_functions, NodeStatements,
};
use gta5_script_decompiler::decompiler::function_graph::get_destinations;
use gta5_script_decompiler::disassembler::instruction::{Instruction, InstructionInfo, SwitchCase};
use gta5_script_decompiler::decompiler::stack_entry::{StackEntry, StackEntryInfo};
use gta5_script_decompiler::decompiler::value_type::{
    Confidence, LinkedValueType, Primitives, TypeStore, ValueType, ValueTypeInfo,
};
use std::collections::HashMap;

fn slot(store: &mut TypeStore, p: Primitives, confidence: Confidence) -> usize {
    LinkedValueType::Type(ValueTypeInfo { ty: ValueType::Primitive(p), confidence })
        .make_shared(store)
}

fn number(v: i64, ty: usize) -> StackEntryInfo<'static> {
    StackEntryInfo { entry: StackEntry::Int(v), ty }
}

fn statement(statement: Statement<'static>) -> StatementInfo<'static> {
    StatementInfo { instructions: &[], statement }
}

#[test]
fn an_if_takes_its_branch_and_what_follows() {
    let mut map: HashMap<usize, NodeStatements<'static>> = HashMap::new();
    map.insert(0, (vec![statement(Statement::Nop)], Some(number(1, 0)), &[]));
    map.insert(1, (vec![statement(Statement::Break)], None, &[]));
    map.insert(2, (vec![statement(Statement::Continue)], Some(number(9, 0)), &[]));
    combine_control_flow(&ControlFlow::If { node: 0, then: 1, after: Some(2) }, &mut map);
    assert_eq!(map.len(), 1);
    let (stmts, condition, _) = &map[&0];
    assert_eq!(stmts.len(), 3);
    assert!(matches!(stmts[0].statement, Statement::Nop));
    match &stmts[1].statement {
        Statement::If { condition, then } => {
            assert!(matches!(condition.entry, StackEntry::Int(1)));
            assert_eq!(then.len(), 1);
            assert!(matches!(then[0].statement, Statement::Break));
        },
        _ => panic!("expected an if"),
    }
    assert!(matches!(stmts[2].statement, Statement::Continue));
    assert!(matches!(condition, Some(StackEntryInfo { entry: StackEntry::Int(9), .. })));
}

#[test]
fn an_and_or_takes_over_the_condition() {
    let mut map: HashMap<usize, NodeStatements<'static>> = HashMap::new();
    map.insert(3, (vec![], Some(number(1, 0)), &[]));
    map.insert(4, (vec![statement(Statement::Nop)], Some(number(2, 0)), &[]));
    map.insert(5, (vec![], None, &[]));
    combine_control_flow(&ControlFlow::AndOr { node: 3, with: 4, after: 5 }, &mut map);
    assert_eq!(map.len(), 1);
    let (stmts, condition, _) = &map[&3];
    assert_eq!(stmts.len(), 1);
    assert!(condition.is_none());
}

#[test]
fn statements_give_their_values_types() {
    let mut store = TypeStore::new();
    let a = slot(&mut store, Primitives::Int, Confidence::High);
    let b = slot(&mut store, Primitives::Unknown, Confidence::Absent);
    let c = slot(&mut store, Primitives::Unknown, Confidence::Absent);
    let r = slot(&mut store, Primitives::Unknown, Confidence::Absent);
    let d = slot(&mut store, Primitives::Unknown, Confidence::Absent);
    let s = slot(&mut store, Primitives::Unknown, Confidence::Absent);
    let statements = vec![
        statement(Statement::Assign { destination: number(0, a), source: number(1, b) }),
        statement(Statement::If {
            condition: number(0, c),
            then: vec![statement(Statement::Return { values: vec![number(1, a), number(2, b)] })],
        }),
        statement(Statement::StringCopy {
            destination: number(0, d),
            string: number(0, s),
            max_length: 8,
        }),
    ];
    add_statement_types(Some(r), &statements, &mut store);
    assert_eq!(
        LinkedValueType::get_concrete_ptr(&store, a),
        LinkedValueType::get_concrete_ptr(&store, b)
    );
    let cond = LinkedValueType::get_concrete(&store, c);
    assert!(matches!(cond.ty, ValueType::Primitive(Primitives::Bool)));
    assert_eq!(cond.confidence, Confidence::Medium);
    let result = LinkedValueType::get_concrete(&store, r);
    assert!(matches!(&result.ty, ValueType::Struct { fields } if fields == &vec![a, b]));
    let destination = LinkedValueType::get_concrete(&store, d);
    assert!(matches!(destination.ty, ValueType::Ref(6)));
    let target = LinkedValueType::get_concrete(&store, 6);
    assert!(matches!(target.ty, ValueType::Primitive(Primitives::String)));
    let string = LinkedValueType::get_concrete(&store, s);
    assert!(matches!(string.ty, ValueType::Primitive(Primitives::String)));
    assert_eq!(store.len(), 7);
}

#[test]
fn frame_slots_have_parameter_and_local_types() {
    let f = DecompiledFunction {
        name: "f".to_string(),
        params: vec![5, 6],
        locals: vec![7],
        returns: None,
        statements: vec![],
    };
    assert_eq!(f.local_index_type(0), Some(5));
    assert_eq!(f.local_index_type(1), Some(6));
    assert_eq!(f.local_index_type(2), None);
    assert_eq!(f.local_index_type(3), None);
    assert_eq!(f.local_index_type(4), Some(7));
    assert_eq!(f.local_index_type(5), None);
}

fn at(pos: usize, instruction: Instruction) -> InstructionInfo<'static> {
    InstructionInfo { instruction, pos, bytes: &[] }
}

#[test]
fn functions_run_from_enter_to_the_last_leave() {
    let instructions = vec![
        at(0, Instruction::Nop),
        at(1, Instruction::Enter { arg_count: 1, frame_size: 4, name: None }),
        at(5, Instruction::Leave { parameter_count: 1, return_count: 0 }),
        at(7, Instruction::Leave { parameter_count: 1, return_count: 1 }),
        at(9, Instruction::Enter { arg_count: 0, frame_size: 2, name: None }),
        at(11, Instruction::Nop),
        at(12, Instruction::Enter { arg_count: 2, frame_size: 5, name: None }),
        at(15, Instruction::Leave { parameter_count: 2, return_count: 1 }),
    ];
    let functions = find_functions(&instructions);
    assert_eq!(functions.len(), 2);
    assert_eq!(functions[0].name, "func_0");
    assert_eq!(functions[0].location, 1);
    assert_eq!(functions[0].parameters, 1);
    assert_eq!(functions[0].returns, 1);
    assert_eq!(functions[0].locals, 1);
    assert_eq!(functions[0].instructions.len(), 3);
    assert_eq!(functions[1].name, "func_1");
    assert_eq!(functions[1].location, 12);
    assert_eq!(functions[1].parameters, 2);
    assert_eq!(functions[1].returns, 1);
    assert_eq!(functions[1].locals, 1);
    assert_eq!(functions[1].instructions.len(), 2);
}

#[test]
fn destinations_are_jump_and_case_targets() {
    let instructions = vec![
        at(0, Instruction::Jump { location: 10 }),
        at(3, Instruction::IfLowerThanJumpZero { location: 20 }),
        at(6, Instruction::FunctionCall { location: 30 }),
        at(
            9,
            Instruction::Switch {
                cases: vec![
                    SwitchCase { value: 1, location: 40 },
                    SwitchCase { value: 2, location: 10 },
                ],
            },
        ),
    ];
    let destinations = get_destinations(&instructions);
    let mut sorted: Vec<usize> = destinations.into_iter().collect();
    sorted.sort();
    assert_eq!(sorted, vec![10, 20, 40]);
}
