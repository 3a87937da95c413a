use gta5_script_decompiler::decompiler::cfg_reducer::InnerOrElse;
use gta5_script_decompiler::decompiler::control_flow::{CaseValue, ControlFlow, FlowType};
use gta5_script_decompiler::decompiler::stack::{InvalidStackError, Stack};
use gta5_script_decompiler::decompiler::stack_entry::{
    BinaryOperator, StackEntry, StackEntryInfo, UnaryOperator,
};
use gta5_script_decompiler::decompiler::value_type::{
    Confidence, LinkedValueType, Primitives, TypeStore, ValueType, ValueTypeInfo,
};

#[test]
fn pop_gives_back_what_was_pushed() {
    let mut store = TypeStore::new();
    let mut stack = Stack::new();
    stack.push_int(5, &mut store);
    stack.push_catch(&mut store);
    let top = stack.pop(&mut store).unwrap();
    assert!(matches!(top.entry, StackEntry::CatchValue));
    assert_eq!(top.ty, 1);
    let next = stack.pop(&mut store).unwrap();
    assert!(matches!(next.entry, StackEntry::Int(5)));
    assert_eq!(next.ty, 0);
    assert_eq!(stack.pop(&mut store).unwrap_err(), InvalidStackError);
}

#[test]
fn int_constants_are_typed_with_low_confidence() {
    let mut store = TypeStore::new();
    let mut stack = Stack::new();
    stack.push_int(1, &mut store);
    let info = LinkedValueType::get_concrete(&store, 0);
    assert!(matches!(info.ty, ValueType::Primitive(Primitives::Int)));
    assert_eq!(info.confidence, Confidence::Low);
}

#[test]
fn a_call_result_is_popped_one_slot_at_a_time() {
    let mut store = TypeStore::new();
    let mut stack = Stack::new();
    stack.push_native_call(0, 2, 0x1234, &mut store).unwrap();
    let last = stack.pop(&mut store).unwrap();
    assert!(matches!(&last.entry, StackEntry::StructField { field: 1, .. }));
    let rest = stack.pop(&mut store).unwrap();
    assert!(matches!(&rest.entry, StackEntry::NativeCallResult { return_values: 1, .. }));
    assert!(stack.pop(&mut store).is_err());
}

#[test]
fn binary_operators_take_two_values() {
    let mut store = TypeStore::new();
    let mut stack = Stack::new();
    stack.push_int(1, &mut store);
    stack.push_int(2, &mut store);
    let int_type = || ValueTypeInfo { ty: ValueType::Primitive(Primitives::Int), confidence: Confidence::Medium };
    stack
        .push_binary_operator(Primitives::Int, int_type(), int_type(), BinaryOperator::BitwiseAnd, &mut store)
        .unwrap();
    stack.try_make_bitwise_logical(&mut store).unwrap();
    let top = stack.pop(&mut store).unwrap();
    match top.entry {
        StackEntry::BinaryOperator { lhs, rhs, op } => {
            assert_eq!(op, BinaryOperator::LogicalAnd);
            assert!(matches!(lhs.entry, StackEntry::Int(1)));
            assert!(matches!(rhs.entry, StackEntry::Int(2)));
        },
        _ => panic!("not a binary operator"),
    }
    assert_eq!(LinkedValueType::get_concrete(&store, 0).confidence, Confidence::Medium);
}

#[test]
fn operators_on_an_empty_stack_fail() {
    let mut store = TypeStore::new();
    let mut stack: Stack<'_> = Stack::new();
    assert!(stack.push_deref(&mut store).is_err());
    assert!(stack
        .push_unary_operator(
            Primitives::Int,
            ValueTypeInfo { ty: ValueType::Primitive(Primitives::Int), confidence: Confidence::Low },
            UnaryOperator::Not,
            &mut store
        )
        .is_err());
    assert!(stack.push_dup(&mut store).is_err());
}

#[test]
fn pop_n_counts_slots() {
    let mut store = TypeStore::new();
    let mut stack = Stack::new();
    stack.push_int(1, &mut store);
    stack.push_native_call(0, 3, 9, &mut store).unwrap();
    let popped: Vec<StackEntryInfo> = stack.pop_n(4, &mut store).unwrap();
    assert_eq!(popped.len(), 2);
    assert!(matches!(popped[0].entry, StackEntry::NativeCallResult { return_values: 3, .. }));
    assert!(matches!(popped[1].entry, StackEntry::Int(1)));
    assert!(stack.pop_n(1, &mut store).is_err());
}

#[test]
fn load_n_makes_a_struct_of_the_address() {
    let mut store = TypeStore::new();
    let mut stack = Stack::new();
    stack.push_int(3, &mut store);
    stack.push_local(0, None, &mut store);
    stack.push_reference(&mut store).unwrap();
    stack.push_load_n(&mut store).unwrap();
    assert_eq!(LinkedValueType::size(&store, 1), 3);
    let top = stack.pop(&mut store).unwrap();
    assert!(matches!(&top.entry, StackEntry::StructField { field: 2, .. }));
    let next = stack.pop(&mut store).unwrap();
    assert!(matches!(&next.entry, StackEntry::StructField { field: 1, .. }));
    let last = stack.pop(&mut store).unwrap();
    assert!(matches!(&last.entry, StackEntry::Struct { size: 1, .. }));
    assert!(stack.pop(&mut store).is_err());
}

#[test]
fn flow_types_follow_the_construct() {
    let w = ControlFlow::WhileLoop { node: 1, body: 2, after: Some(3) };
    assert_eq!(w.flow_type(), FlowType::Loop { node: 1, after: Some(3) });
    let f = ControlFlow::Flow { node: 4, after: 5 };
    assert_eq!(f.flow_type(), FlowType::NonBreakable { node: 4, after: None });
    assert_eq!(f.after(), Some(5));
    assert_eq!(f.node(), 4);
    let a = ControlFlow::AndOr { node: 6, with: 7, after: 8 };
    assert_eq!(a.flow_type(), FlowType::NonBreakable { node: 6, after: Some(8) });
    assert_eq!(ControlFlow::Break { node: 1, breaks: 2 }.after(), None);
}

#[test]
fn inner_or_else_falls_back_on_nothing() {
    let found: Result<Option<i32>, ()> = Ok(Some(1));
    assert_eq!(found.inner_or_else(|| Ok(Some(2))), Ok(Some(1)));
    let nothing: Result<Option<i32>, ()> = Ok(None);
    assert_eq!(nothing.inner_or_else(|| Ok(Some(2))), Ok(Some(2)));
    let failed: Result<Option<i32>, ()> = Err(());
    assert_eq!(failed.inner_or_else(|| Ok(Some(2))), Err(()));
}

fn flows(entries: Vec<ControlFlow>) -> std::collections::HashMap<usize, ControlFlow> {
    entries.into_iter().map(|f| (f.node(), f)).collect()
}

#[test]
fn walks_visit_branches_in_order() {
    let nodes = flows(vec![
        ControlFlow::IfElse { node: 0, then: 1, els: 2, after: Some(3) },
        ControlFlow::Leaf { node: 1 },
        ControlFlow::Leaf { node: 2 },
        ControlFlow::Leaf { node: 3 },
    ]);
    let root = nodes[&0].clone();
    assert_eq!(
        root.visit_order(&nodes),
        vec![(0, None), (1, Some(0)), (2, Some(0)), (3, Some(0))]
    );
    assert_eq!(root.finish_order(&nodes), vec![1, 2, 3, 0]);
}

#[test]
fn walks_take_switch_cases_from_the_last() {
    let nodes = flows(vec![
        ControlFlow::Switch {
            node: 5,
            cases: vec![(6, vec![CaseValue::Value(1)]), (7, vec![CaseValue::Default])],
            after: None,
        },
        ControlFlow::Leaf { node: 6 },
        ControlFlow::Leaf { node: 7 },
    ]);
    let root = nodes[&5].clone();
    assert_eq!(root.visit_order(&nodes), vec![(5, None), (7, Some(5)), (6, Some(5))]);
    assert_eq!(root.finish_order(&nodes), vec![7, 6, 5]);
}

#[test]
fn in_order_calls_back_each_construct_with_the_one_it_came_from() {
    let nodes = flows(vec![
        ControlFlow::IfElse { node: 0, then: 1, els: 2, after: Some(3) },
        ControlFlow::Leaf { node: 1 },
        ControlFlow::Leaf { node: 2 },
        ControlFlow::Leaf { node: 3 },
    ]);
    let root = nodes[&0].clone();
    let seen = std::cell::RefCell::new(Vec::new());
    let r: Result<(), ()> = root.dfs_in_order(&nodes, |flow: &ControlFlow, parent: Option<&ControlFlow>| {
        seen.borrow_mut().push((flow.node(), parent.map(|p| p.node())));
        Ok(())
    });
    assert_eq!(r, Ok(()));
    assert_eq!(*seen.borrow(), vec![(0, None), (1, Some(0)), (2, Some(0)), (3, Some(0))]);
}

#[test]
fn an_error_of_the_callback_ends_the_walk() {
    let nodes = flows(vec![
        ControlFlow::IfElse { node: 0, then: 1, els: 2, after: Some(3) },
        ControlFlow::Leaf { node: 1 },
        ControlFlow::Leaf { node: 2 },
        ControlFlow::Leaf { node: 3 },
    ]);
    let root = nodes[&0].clone();
    let seen = std::cell::RefCell::new(Vec::new());
    let r = root.dfs_in_order(&nodes, |flow: &ControlFlow, _: Option<&ControlFlow>| {
        seen.borrow_mut().push(flow.node());
        if flow.node() == 2 { Err(flow.node()) } else { Ok(()) }
    });
    assert_eq!(r, Err(2));
    assert_eq!(*seen.borrow(), vec![0, 1, 2]);
    let finished = std::cell::RefCell::new(Vec::new());
    let r = root.dfs_post_order(&nodes, |flow: &ControlFlow| {
        finished.borrow_mut().push(flow.node());
        if flow.node() == 3 { Err("stop") } else { Ok(()) }
    });
    assert_eq!(r, Err("stop"));
    assert_eq!(*finished.borrow(), vec![1, 2, 3]);
}
