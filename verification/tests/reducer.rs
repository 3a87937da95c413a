use gta5_script_decompiler::decompiler::cfg_reducer::CfgReducer;
use gta5_script_decompiler::decompiler::control_flow::{ControlFlow, EdgeType, FlowType};
use gta5_script_decompiler::disassembler::instruction::{Instruction, InstructionInfo};
use petgraph::graph::{DiGraph, NodeIndex};
use std::collections::HashSet;

fn graph(nodes: &[(usize, usize)], edges: &[(usize, usize, EdgeType)]) -> DiGraph<(usize, usize), EdgeType> {
    let mut g = DiGraph::new();
    for n in nodes {
        g.add_node(*n);
    }
    for (a, b, kind) in edges {
        g.add_edge(NodeIndex::new(*a), NodeIndex::new(*b), *kind);
    }
    g
}

fn set(items: &[usize]) -> HashSet<usize> {
    items.iter().copied().collect()
}

#[test]
fn a_jump_to_the_node_after_a_loop_breaks_out_of_it() {
    let g = graph(&[(0, 0); 8], &[]);
    let instructions: Vec<InstructionInfo> = vec![];
    let dominators = vec![None; 8];
    let frontiers = vec![HashSet::new(); 8];
    let reducer = CfgReducer { graph: &g, instructions: &instructions, dominators: &dominators, root: 0, frontiers: &frontiers };
    let parents = [FlowType::Loop { node: 1, after: Some(5) }];
    assert!(matches!(
        reducer.try_reduce_break(3, 5, &parents),
        Some(ControlFlow::Break { node: 3, breaks: 5 })
    ));
    assert!(reducer.try_reduce_break(3, 4, &parents).is_none());
}

#[test]
fn a_loop_inside_a_switch_breaks_to_the_node_after_the_switch() {
    let g = graph(&[(0, 0); 10], &[]);
    let instructions: Vec<InstructionInfo> = vec![];
    let dominators = vec![None; 10];
    let frontiers = vec![HashSet::new(); 10];
    let reducer = CfgReducer { graph: &g, instructions: &instructions, dominators: &dominators, root: 0, frontiers: &frontiers };
    let parents = [
        FlowType::Switch { node: 0, after: Some(9) },
        FlowType::Loop { node: 2, after: Some(7) },
    ];
    assert!(reducer.try_reduce_break(4, 7, &parents).is_none());
    assert!(matches!(
        reducer.try_reduce_break(4, 9, &parents),
        Some(ControlFlow::Break { node: 4, breaks: 9 })
    ));
}

#[test]
fn a_jump_back_to_a_loop_continues_it() {
    let g = graph(&[(0, 0); 8], &[]);
    let instructions: Vec<InstructionInfo> = vec![];
    let dominators = vec![None; 8];
    let frontiers = vec![HashSet::new(); 8];
    let reducer = CfgReducer { graph: &g, instructions: &instructions, dominators: &dominators, root: 0, frontiers: &frontiers };
    let nested = [
        FlowType::Loop { node: 2, after: Some(7) },
        FlowType::NonBreakable { node: 4, after: Some(6) },
    ];
    assert!(matches!(
        reducer.try_reduce_continue(5, 2, &nested),
        Some(ControlFlow::Continue { node: 5, continues: 2 })
    ));
    let alone = [FlowType::Loop { node: 2, after: None }];
    assert!(reducer.try_reduce_continue(5, 2, &alone).is_none());
    let to_after = [
        FlowType::Loop { node: 2, after: Some(7) },
        FlowType::NonBreakable { node: 4, after: Some(2) },
    ];
    assert!(reducer.try_reduce_continue(5, 2, &to_after).is_none());
}

#[test]
fn claimed_and_enclosing_nodes_cannot_follow_a_construct() {
    let g = graph(&[(0, 0); 8], &[]);
    let instructions: Vec<InstructionInfo> = vec![];
    let dominators = vec![None; 8];
    let frontiers = vec![HashSet::new(); 8];
    let reducer = CfgReducer { graph: &g, instructions: &instructions, dominators: &dominators, root: 0, frontiers: &frontiers };
    let parents = [
        FlowType::NonBreakable { node: 1, after: Some(3) },
        FlowType::Loop { node: 4, after: None },
    ];
    let claimed = set(&[6]);
    assert!(!reducer.is_valid_after_node(6, &parents, &claimed));
    assert!(!reducer.is_valid_after_node(3, &parents, &claimed));
    assert!(!reducer.is_valid_after_node(4, &parents, &claimed));
    assert!(reducer.is_valid_after_node(5, &parents, &claimed));
    assert_eq!(reducer.get_first_after(&parents), Some(3));
    assert_eq!(reducer.get_first_after(&[]), None);
}

#[test]
fn a_branch_ending_in_a_bitwise_and_is_an_and_or_node() {
    let instructions = vec![
        InstructionInfo { instruction: Instruction::JumpZero { location: 9 }, pos: 0, bytes: &[] },
        InstructionInfo { instruction: Instruction::BitwiseAnd, pos: 3, bytes: &[] },
        InstructionInfo { instruction: Instruction::Nop, pos: 9, bytes: &[] },
    ];
    let g = graph(
        &[(0, 1), (1, 2), (2, 3)],
        &[
            (0, 2, EdgeType::ConditionalJump),
            (0, 1, EdgeType::ConditionalFlow),
            (1, 2, EdgeType::Flow),
        ],
    );
    let dominators = vec![None, Some(0), Some(0)];
    let frontiers = vec![set(&[]), set(&[2]), set(&[])];
    let reducer = CfgReducer { graph: &g, instructions: &instructions, dominators: &dominators, root: 0, frontiers: &frontiers };
    assert_eq!(reducer.last_singular_dominated_node(1), Some(1));
    assert!(reducer.is_and_or_node(1));
    assert_eq!(reducer.last_singular_dominated_node(0), None);
    assert!(!reducer.is_and_or_node(0));
    let flow = reducer.reduce_node(0, &[], &HashSet::new()).unwrap();
    assert!(matches!(flow, ControlFlow::AndOr { node: 0, with: 1, after: 2 }));
}
