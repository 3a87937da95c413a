use gta5_script_decompiler::decompiler::control_flow::{ControlFlow, EdgeType};
use gta5_script_decompiler::decompiler::dominance::domination_frontiers;
use gta5_script_decompiler::decompiler::function::{Function, FunctionInfo};
use gta5_script_decompiler::decompiler::value_type::{Confidence, LinkedValueType, TypeStore, ValueType, ValueTypeInfo};
use gta5_script_decompiler::decompiler::function_graph::FunctionGraph;
use gta5_script_decompiler::disassembler::instruction::{Instruction, InstructionInfo};
use gta5_script_decompiler::formatters::assembly_formatter::AssemblyFormatter;
use petgraph::graph::{DiGraph, NodeIndex};

const BYTES: [u8; 5] = [0, 0, 0, 0, 0];

fn at(pos: usize, len: usize, instruction: Instruction) -> InstructionInfo<'static> {
    InstructionInfo { instruction, pos, bytes: &BYTES[..len] }
}

fn function<'i>(instructions: &'i [InstructionInfo<'i>]) -> FunctionInfo<'i> {
    FunctionInfo {
        name: "func_0".to_string(),
        location: 0,
        parameters: 0,
        returns: 0,
        locals: 0,
        instructions,
    }
}

#[test]
fn nodes_split_at_jumps_and_jump_targets() {
    let instructions = vec![
        at(0, 5, Instruction::Enter { arg_count: 0, frame_size: 2, name: None }),
        at(5, 3, Instruction::JumpZero { location: 12 }),
        at(8, 1, Instruction::Nop),
        at(9, 3, Instruction::Jump { location: 13 }),
        at(12, 1, Instruction::Nop),
        at(13, 3, Instruction::Leave { parameter_count: 0, return_count: 0 }),
    ];
    let info = function(&instructions);
    let graph = FunctionGraph::generate(&info).unwrap();
    assert_eq!(graph.get_node(0).unwrap().instructions.len(), 2);
    assert_eq!(graph.get_node(1).unwrap().instructions[0].pos, 8);
    assert_eq!(graph.get_node(1).unwrap().instructions.len(), 2);
    assert_eq!(graph.get_node(2).unwrap().instructions[0].pos, 12);
    assert_eq!(graph.get_node(2).unwrap().instructions.len(), 1);
    assert_eq!(graph.get_node(3).unwrap().instructions[0].pos, 13);
    assert!(graph.get_node(4).is_none());
}

#[test]
fn nodes_no_path_reaches_are_dropped() {
    let instructions = vec![
        at(0, 5, Instruction::Enter { arg_count: 0, frame_size: 2, name: None }),
        at(5, 3, Instruction::Jump { location: 9 }),
        at(8, 1, Instruction::Nop),
        at(9, 3, Instruction::Leave { parameter_count: 0, return_count: 0 }),
    ];
    let info = function(&instructions);
    let graph = FunctionGraph::generate(&info).unwrap();
    assert_eq!(graph.get_node(0).unwrap().instructions.len(), 2);
    let last = graph.get_node(1).unwrap();
    assert_eq!(last.instructions.len(), 1);
    assert_eq!(last.instructions[0].pos, 9);
    assert!(graph.get_node(2).is_none());
}

#[test]
fn frontiers_of_a_diamond_are_its_join() {
    let mut g: DiGraph<(usize, usize), EdgeType> = DiGraph::new();
    for i in 0..4 {
        g.add_node((i, i + 1));
    }
    g.add_edge(NodeIndex::new(0), NodeIndex::new(2), EdgeType::ConditionalJump);
    g.add_edge(NodeIndex::new(0), NodeIndex::new(1), EdgeType::ConditionalFlow);
    g.add_edge(NodeIndex::new(1), NodeIndex::new(3), EdgeType::Jump);
    g.add_edge(NodeIndex::new(2), NodeIndex::new(3), EdgeType::Flow);
    let idoms = vec![None, Some(0), Some(0), Some(0)];
    let frontiers = domination_frontiers(&g, &idoms).unwrap();
    assert_eq!(frontiers.len(), 4);
    assert!(frontiers[0].is_empty());
    assert_eq!(frontiers[1].iter().copied().collect::<Vec<usize>>(), vec![3]);
    assert_eq!(frontiers[2].iter().copied().collect::<Vec<usize>>(), vec![3]);
    assert!(frontiers[3].is_empty());
}

#[test]
fn frontiers_of_a_loop_hold_its_head() {
    let mut g: DiGraph<(usize, usize), EdgeType> = DiGraph::new();
    for i in 0..3 {
        g.add_node((i, i + 1));
    }
    g.add_edge(NodeIndex::new(0), NodeIndex::new(1), EdgeType::Flow);
    g.add_edge(NodeIndex::new(1), NodeIndex::new(2), EdgeType::ConditionalFlow);
    g.add_edge(NodeIndex::new(2), NodeIndex::new(1), EdgeType::Jump);
    let idoms = vec![None, Some(0), Some(1)];
    let frontiers = domination_frontiers(&g, &idoms).unwrap();
    assert!(frontiers[0].is_empty());
    assert!(frontiers[1].is_empty());
    assert_eq!(frontiers[2].iter().copied().collect::<Vec<usize>>(), vec![1]);
}

#[test]
fn frontiers_fail_where_a_climb_leaves_the_tree() {
    let mut g: DiGraph<(usize, usize), EdgeType> = DiGraph::new();
    for i in 0..3 {
        g.add_node((i, i + 1));
    }
    g.add_edge(NodeIndex::new(0), NodeIndex::new(2), EdgeType::Flow);
    g.add_edge(NodeIndex::new(1), NodeIndex::new(2), EdgeType::Flow);
    let idoms = vec![None, None, Some(0)];
    assert!(domination_frontiers(&g, &idoms).is_none());
}

#[test]
fn an_if_else_is_reduced_with_its_join_after_it() {
    let instructions = vec![
        at(0, 5, Instruction::Enter { arg_count: 0, frame_size: 2, name: None }),
        at(5, 3, Instruction::JumpZero { location: 12 }),
        at(8, 1, Instruction::Nop),
        at(9, 3, Instruction::Jump { location: 13 }),
        at(12, 1, Instruction::Nop),
        at(13, 3, Instruction::Leave { parameter_count: 0, return_count: 0 }),
    ];
    let info = function(&instructions);
    let graph = FunctionGraph::generate(&info).unwrap();
    let flows = graph.reduce_control_flow().unwrap().unwrap();
    assert_eq!(flows.len(), 4);
    assert!(matches!(
        flows[&0],
        ControlFlow::IfElse { node: 0, then: 1, els: 2, after: Some(3) }
    ));
    assert!(matches!(flows[&1], ControlFlow::Leaf { node: 1 }));
    assert!(matches!(flows[&2], ControlFlow::Leaf { node: 2 }));
    assert!(matches!(flows[&3], ControlFlow::Leaf { node: 3 }));
}

#[test]
fn a_loop_is_reduced_to_a_while_loop() {
    let instructions = vec![
        at(0, 5, Instruction::Enter { arg_count: 0, frame_size: 2, name: None }),
        at(5, 1, Instruction::Nop),
        at(6, 3, Instruction::JumpZero { location: 13 }),
        at(9, 1, Instruction::Nop),
        at(10, 3, Instruction::Jump { location: 6 }),
        at(13, 3, Instruction::Leave { parameter_count: 0, return_count: 0 }),
    ];
    let info = function(&instructions);
    let graph = FunctionGraph::generate(&info).unwrap();
    let flows = graph.reduce_control_flow().unwrap().unwrap();
    assert_eq!(flows.len(), 4);
    assert!(matches!(flows[&0], ControlFlow::Flow { node: 0, after: 1 }));
    assert!(matches!(
        flows[&1],
        ControlFlow::WhileLoop { node: 1, body: 2, after: Some(3) }
    ));
    assert!(matches!(flows[&2], ControlFlow::Leaf { node: 2 }));
    assert!(matches!(flows[&3], ControlFlow::Leaf { node: 3 }));
}

#[test]
fn a_branch_that_leaves_while_the_jump_stays_is_not_handled() {
    let instructions = vec![
        at(0, 5, Instruction::Enter { arg_count: 0, frame_size: 2, name: None }),
        at(5, 3, Instruction::JumpZero { location: 17 }),
        at(8, 3, Instruction::JumpZero { location: 14 }),
        at(11, 3, Instruction::Leave { parameter_count: 0, return_count: 0 }),
        at(14, 3, Instruction::Leave { parameter_count: 0, return_count: 0 }),
        at(17, 3, Instruction::Jump { location: 11 }),
    ];
    let info = function(&instructions);
    let graph = FunctionGraph::generate(&info).unwrap();
    assert!(graph.reduce_control_flow().is_none());
}

fn render(bits: u32) -> String {
    f32::from_bits(bits).to_string()
}

#[test]
fn the_diagram_lists_nodes_then_edges() {
    let instructions = vec![
        at(0, 5, Instruction::Enter { arg_count: 0, frame_size: 2, name: None }),
        at(5, 3, Instruction::JumpZero { location: 12 }),
        at(8, 1, Instruction::Nop),
        at(9, 3, Instruction::Jump { location: 13 }),
        at(12, 1, Instruction::Nop),
        at(13, 3, Instruction::Leave { parameter_count: 0, return_count: 0 }),
    ];
    let info = function(&instructions);
    let graph = FunctionGraph::generate(&info).unwrap();
    let strings: Vec<u8> = vec![];
    let formatter = AssemblyFormatter::new(&instructions, false, 0, &strings);
    let dot = graph.to_dot_string(&formatter, render);
    assert!(dot.starts_with(
        "digraph{graph[splines=ortho,rankdir=TB,concentrate=true]node[fontname=\"Consolas\",fontcolor=black]node_0[margin=0.0,label=<<table border=\"0\"><tr><td bgcolor=\"#AAAAAA\">Node 0</td></tr>"
    ));
    assert!(dot.contains(
        "node_3[margin=0.0,label=<<table border=\"0\"><tr><td bgcolor=\"#AAAAAA\">Node 3</td></tr><tr><td align=\"text\">.loc_0000000D:<br align=\"left\" />    LEAVE 0 0<br align=\"left\" /></td></tr></table>>,shape=rectangle,color=red4]"
    ));
    assert!(dot.contains("shape=rectangle,color=darkgreen]node_1["));
    assert!(dot.ends_with(
        "node_0->node_2[color=darkgreen,]node_0->node_1[color=red4,]node_1->node_3[color=black,]node_2->node_3[color=black,]}"
    ));
}

#[test]
fn a_new_function_gets_unknown_slots_and_its_graph() {
    let instructions = vec![
        at(0, 5, Instruction::Enter { arg_count: 1, frame_size: 5, name: None }),
        at(5, 3, Instruction::Leave { parameter_count: 1, return_count: 2 }),
    ];
    let mut store = TypeStore::new();
    let info = FunctionInfo {
        name: "func_0".to_string(),
        location: 0,
        parameters: 1,
        returns: 2,
        locals: 2,
        instructions: &instructions,
    };
    let f = Function::new(info, &mut store).unwrap();
    assert_eq!(f.name, "func_0");
    assert_eq!(f.parameter_count, 1);
    assert_eq!(f.return_count, 2);
    assert_eq!(f.parameters, vec![0]);
    assert_eq!(f.locals, vec![1, 2]);
    assert_eq!(f.returns, Some(5));
    assert_eq!(store.len(), 6);
    match store.slot(5) {
        LinkedValueType::Type(ValueTypeInfo { ty: ValueType::Struct { fields }, confidence }) => {
            assert_eq!(fields, &vec![3, 4]);
            assert!(matches!(confidence, Confidence::Absent));
        }
        _ => panic!("the result is not a structure"),
    }
    assert_eq!(f.graph.get_node(0).unwrap().instructions.len(), 2);
}
