use crate::decompiler::control_flow::EdgeType;
use crate::decompiler::graph::{
    add_edge, add_node, graph_edges, graph_nodes, keep_nodes, kept_before, kept_edges, kept_nodes,
    graph_edge_list, new_graph, node_weight, outgoing, outgoing_edges, immediate_dominators, immediate_dominators_of,
    edge_pairs, BlockGraph,
};
use crate::decompiler::cfg_reducer::{CfgReducer, NodeReductionError};
use crate::decompiler::control_flow::ControlFlow;
use crate::decompiler::dominance::{climbs_end, domination_frontiers, frontier, frontier_upto};
use crate::common::utf8::string_push;
use crate::decompiler::function::{slice_range, FunctionInfo};
use crate::disassembler::instruction::{Instruction, InstructionInfo};
use crate::formatters::assembly_formatter::{jump_target, join_lines, listable, listing_after, AssemblyFormatter};
use crate::formatters::instruction_text::{rendered, renders_floats};
use crate::formatters::text::{decimal, push_decimal, push_signed_decimal, signed_decimal};
use std::collections::{HashMap, HashSet};
use vstd::prelude::*;

verus! {

broadcast use {vstd::std_specs::hash::group_hash_axioms, vstd::std_specs::vec::group_vec_axioms};

/// A node of a function's graph: a run of instructions that control enters
/// only at the first and leaves only after the last.
pub struct FunctionGraphNode<'i> {
    pub instructions: &'i [InstructionInfo<'i>],
}

/// The positions that jumps of a conditional or unconditional kind and
/// switch cases lead to. Calls are not among them.
pub open spec fn destinations_of(instructions: Seq<InstructionInfo>) -> Set<usize> {
    Set::new(
        |p: usize|
            exists|i: int|
                0 <= i < instructions.len() && #[trigger] leads_to(instructions[i].instruction, p),
    )
}

/// Whether a jump or switch case of `instruction` leads to position `p`.
pub open spec fn leads_to(instruction: Instruction, p: usize) -> bool {
    match instruction {
        Instruction::FunctionCall { .. } => false,
        Instruction::Switch { cases } => exists|j: int|
            0 <= j < cases@.len() && (#[trigger] cases@[j]).location as usize == p,
        _ => jump_target(instruction) matches Some(location) && location as usize == p,
    }
}

/// The positions that the jumps and switch cases of `instructions` lead to.
pub fn get_destinations(instructions: &[InstructionInfo]) -> (r: HashSet<usize>)
    ensures
        r@ == destinations_of(instructions@),
{
    let mut result: HashSet<usize> = HashSet::new();
    let mut i: usize = 0;
    while i < instructions.len()
        invariant
            i <= instructions@.len(),
            result@ == destinations_of(instructions@.take(i as int)),
        decreases instructions@.len() - i,
    {
        let ghost before = result@;
        match &instructions[i].instruction {
            Instruction::Jump { location }
            | Instruction::JumpZero { location }
            | Instruction::IfEqualJumpZero { location }
            | Instruction::IfNotEqualJumpZero { location }
            | Instruction::IfLowerThanJumpZero { location }
            | Instruction::IfGreaterThanJumpZero { location }
            | Instruction::IfLowerOrEqualJumpZero { location }
            | Instruction::IfGreaterOrEqualJumpZero { location } => {
                result.insert(*location as usize);
            },
            Instruction::Switch { cases } => {
                let mut j: usize = 0;
                while j < cases.len()
                    invariant
                        j <= cases@.len(),
                        result@ == before + Set::new(
                            |p: usize|
                                exists|k: int|
                                    0 <= k < j && (#[trigger] cases@[k]).location as usize == p,
                        ),
                    decreases cases@.len() - j,
                {
                    result.insert(cases[j].location as usize);
                    j = j + 1;
                    assert(result@ =~= before + Set::new(
                        |p: usize|
                            exists|k: int|
                                0 <= k < j && (#[trigger] cases@[k]).location as usize == p,
                    ));
                }
            },
            _ => {},
        }
        proof {
            let prev = instructions@.take(i as int);
            let cur = instructions@.take(i as int + 1);
            assert forall|p: usize| destinations_of(cur).contains(p) <==> (destinations_of(
                prev,
            ).contains(p) || leads_to(instructions@[i as int].instruction, p)) by {
                if destinations_of(cur).contains(p) {
                    let k = choose|k: int| 0 <= k < cur.len() && #[trigger] leads_to(cur[k].instruction, p);
                    if k < i {
                        assert(prev[k] == cur[k]);
                    }
                }
                if destinations_of(prev).contains(p) {
                    let k = choose|k: int| 0 <= k < prev.len() && #[trigger] leads_to(prev[k].instruction, p);
                    assert(cur[k] == prev[k]);
                }
                if leads_to(instructions@[i as int].instruction, p) {
                    assert(cur[i as int] == instructions@[i as int]);
                }
            }
        }
        i = i + 1;
        assert(result@ =~= destinations_of(instructions@.take(i as int)));
    }
    assert(instructions@.take(i as int) =~= instructions@);
    result
}

/// Whether an instruction ends a node by itself: a return, a jump or a
/// switch.
pub open spec fn ends_with_jump(instruction: Instruction) -> bool {
    match instruction {
        Instruction::Leave { .. } | Instruction::Switch { .. } => true,
        Instruction::FunctionCall { .. } => false,
        _ => jump_target(instruction) is Some,
    }
}

/// The position after an instruction.
pub open spec fn next_pos(info: InstructionInfo) -> int {
    info.pos + info.bytes@.len()
}

/// Whether the position after every instruction fits a `usize`.
pub open spec fn positions_fit(instrs: Seq<InstructionInfo>) -> bool {
    forall|i: int| 0 <= i < instrs.len() ==> next_pos(#[trigger] instrs[i]) <= usize::MAX
}

/// Whether instruction `i` is the last of its node: it jumps, or the next
/// position is a jump target.
pub open spec fn ends_block(instrs: Seq<InstructionInfo>, dest: Set<usize>, i: int) -> bool {
    ends_with_jump(instrs[i].instruction) || dest.contains(next_pos(instrs[i]) as usize)
}

/// The nodes closed among the first `n` instructions, as index ranges, and
/// the start of the node still open.
pub open spec fn blocks_upto(instrs: Seq<InstructionInfo>, dest: Set<usize>, n: int) -> (
    Seq<(usize, usize)>,
    Option<usize>,
)
    decreases n,
{
    if n <= 0 {
        (seq![], None)
    } else {
        let (closed, open) = blocks_upto(instrs, dest, n - 1);
        let start = match open {
            Some(s) => s,
            None => (n - 1) as usize,
        };
        if ends_block(instrs, dest, n - 1) {
            (closed.push((start, n as usize)), None)
        } else {
            (closed, Some(start))
        }
    }
}

/// The nodes of a function, as ranges of instruction indices: a node ends
/// after an instruction that jumps or before a jump target.
pub open spec fn blocks_of(instrs: Seq<InstructionInfo>, dest: Set<usize>) -> Seq<(usize, usize)> {
    let (closed, open) = blocks_upto(instrs, dest, instrs.len() as int);
    match open {
        Some(s) => closed.push((s, instrs.len() as usize)),
        None => closed,
    }
}

/// The node of each position a node starts at; a later node takes the
/// position over.
pub open spec fn block_map(instrs: Seq<InstructionInfo>, blocks: Seq<(usize, usize)>) -> Map<usize, usize>
    decreases blocks.len(),
{
    if blocks.len() == 0 {
        Map::empty()
    } else {
        block_map(instrs, blocks.drop_last()).insert(
            instrs[blocks.last().0 as int].pos,
            (blocks.len() - 1) as usize,
        )
    }
}

/// An edge from node `k` to the node at position `p`, if a node starts
/// there.
pub open spec fn edge_to(map: Map<usize, usize>, k: usize, p: usize, kind: EdgeType) -> Seq<
    (usize, usize, EdgeType),
> {
    if map.contains_key(p) {
        seq![(k, map[p], kind)]
    } else {
        seq![]
    }
}

/// The edges to the targets of the cases of a switch in node `k`.
pub open spec fn case_edges(
    map: Map<usize, usize>,
    k: usize,
    cases: Seq<crate::disassembler::instruction::SwitchCase>,
) -> Seq<(usize, usize, EdgeType)>
    decreases cases.len(),
{
    if cases.len() == 0 {
        seq![]
    } else {
        case_edges(map, k, cases.drop_last()) + edge_to(
            map,
            k,
            cases.last().location as usize,
            EdgeType::Case(cases.last().value as i64),
        )
    }
}

/// The edges instruction `i` of node `k` adds: a conditional jump leads to
/// its target and to the next instruction, a jump to its target, a switch
/// to its cases and to the next instruction, and an instruction before a
/// jump target flows on to it.
pub open spec fn instruction_edges(
    instrs: Seq<InstructionInfo>,
    dest: Set<usize>,
    map: Map<usize, usize>,
    k: usize,
    i: int,
) -> Seq<(usize, usize, EdgeType)> {
    let next = next_pos(instrs[i]) as usize;
    match instrs[i].instruction {
        Instruction::Leave { .. } => seq![],
        Instruction::Jump { location } => edge_to(map, k, location as usize, EdgeType::Jump),
        Instruction::Switch { cases } => case_edges(map, k, cases@) + edge_to(
            map,
            k,
            next,
            EdgeType::ConditionalFlow,
        ),
        Instruction::FunctionCall { .. } => if dest.contains(next) {
            edge_to(map, k, next, EdgeType::Flow)
        } else {
            seq![]
        },
        _ => match jump_target(instrs[i].instruction) {
            Some(location) => edge_to(map, k, location as usize, EdgeType::ConditionalJump) + edge_to(
                map,
                k,
                next,
                EdgeType::ConditionalFlow,
            ),
            None => if dest.contains(next) {
                edge_to(map, k, next, EdgeType::Flow)
            } else {
                seq![]
            },
        },
    }
}

/// The edges of the instructions `[from, to)` of node `k`.
pub open spec fn range_edges(
    instrs: Seq<InstructionInfo>,
    dest: Set<usize>,
    map: Map<usize, usize>,
    k: usize,
    from: int,
    to: int,
) -> Seq<(usize, usize, EdgeType)>
    decreases to - from,
{
    if to <= from {
        seq![]
    } else {
        range_edges(instrs, dest, map, k, from, to - 1) + instruction_edges(instrs, dest, map, k, to - 1)
    }
}

/// The edges of the first `n` nodes, node by node.
pub open spec fn blocks_edges(
    instrs: Seq<InstructionInfo>,
    dest: Set<usize>,
    map: Map<usize, usize>,
    blocks: Seq<(usize, usize)>,
    n: int,
) -> Seq<(usize, usize, EdgeType)>
    decreases n,
{
    if n <= 0 {
        seq![]
    } else {
        blocks_edges(instrs, dest, map, blocks, n - 1) + range_edges(
            instrs,
            dest,
            map,
            (n - 1) as usize,
            blocks[n - 1].0 as int,
            blocks[n - 1].1 as int,
        )
    }
}

/// The edges of a function's graph before unreachable nodes are removed.
pub open spec fn all_edges(instrs: Seq<InstructionInfo>) -> Seq<(usize, usize, EdgeType)> {
    let dest = destinations_of(instrs);
    let blocks = blocks_of(instrs, dest);
    blocks_edges(instrs, dest, block_map(instrs, blocks), blocks, blocks.len() as int)
}

/// The index ranges of the nodes of a function.
fn block_ranges(instructions: &[InstructionInfo], destinations: &HashSet<usize>) -> (r: Vec<(usize, usize)>)
    requires
        positions_fit(instructions@),
    ensures
        r@ == blocks_of(instructions@, destinations@),
{
    let mut result: Vec<(usize, usize)> = Vec::new();
    let mut current: Option<usize> = None;
    let mut i: usize = 0;
    while i < instructions.len()
        invariant
            i <= instructions@.len(),
            positions_fit(instructions@),
            (result@, current) == blocks_upto(instructions@, destinations@, i as int),
        decreases instructions@.len() - i,
    {
        let start = match current {
            Some(s) => s,
            None => i,
        };
        let info = &instructions[i];
        assert(next_pos(instructions@[i as int]) <= usize::MAX);
        let next = info.pos + info.bytes.len();
        let jumps = match &info.instruction {
            Instruction::Leave { .. }
            | Instruction::Jump { .. }
            | Instruction::JumpZero { .. }
            | Instruction::IfEqualJumpZero { .. }
            | Instruction::IfNotEqualJumpZero { .. }
            | Instruction::IfLowerThanJumpZero { .. }
            | Instruction::IfGreaterThanJumpZero { .. }
            | Instruction::IfLowerOrEqualJumpZero { .. }
            | Instruction::IfGreaterOrEqualJumpZero { .. }
            | Instruction::Switch { .. } => true,
            _ => false,
        };
        if jumps || destinations.contains(&next) {
            result.push((start, i + 1));
            current = None;
        } else {
            current = Some(start);
        }
        i = i + 1;
    }
    if let Some(s) = current {
        result.push((s, instructions.len()));
    }
    result
}

/// The node of each position a node starts at.
fn block_starts(instructions: &[InstructionInfo], blocks: &Vec<(usize, usize)>) -> (r: HashMap<usize, usize>)
    requires
        forall|k: int| 0 <= k < blocks@.len() ==> (#[trigger] blocks@[k]).0 < instructions@.len(),
    ensures
        r@ == block_map(instructions@, blocks@),
{
    let mut result: HashMap<usize, usize> = HashMap::new();
    let mut k: usize = 0;
    assert(blocks@.take(0) =~= Seq::<(usize, usize)>::empty());
    while k < blocks.len()
        invariant
            k <= blocks@.len(),
            forall|j: int| 0 <= j < blocks@.len() ==> (#[trigger] blocks@[j]).0 < instructions@.len(),
            result@ == block_map(instructions@, blocks@.take(k as int)),
        decreases blocks@.len() - k,
    {
        result.insert(instructions[blocks[k].0].pos, k);
        proof {
            let t = blocks@.take(k + 1);
            assert(t.drop_last() =~= blocks@.take(k as int));
            assert(t.last() == blocks@[k as int]);
        }
        k = k + 1;
    }
    assert(blocks@.take(k as int) =~= blocks@);
    result
}

/// Appends an edge from node `k` to the node at position `p`, if a node
/// starts there.
fn push_edge_to(
    edges: &mut Vec<(usize, usize, EdgeType)>,
    map: &HashMap<usize, usize>,
    k: usize,
    p: usize,
    kind: EdgeType,
)
    ensures
        final(edges)@ == old(edges)@ + edge_to(map@, k, p, kind),
{
    match map.get(&p) {
        Some(to) => {
            edges.push((k, *to, kind));
            assert(edges@ =~= old(edges)@ + edge_to(map@, k, p, kind));
        },
        None => {
            assert(edges@ =~= old(edges)@ + edge_to(map@, k, p, kind));
        },
    }
}

/// Appends the edges instruction `i` of node `k` adds.
fn push_instruction_edges(
    edges: &mut Vec<(usize, usize, EdgeType)>,
    instructions: &[InstructionInfo],
    destinations: &HashSet<usize>,
    map: &HashMap<usize, usize>,
    k: usize,
    i: usize,
)
    requires
        i < instructions@.len(),
        positions_fit(instructions@),
    ensures
        final(edges)@ == old(edges)@ + instruction_edges(instructions@, destinations@, map@, k, i as int),
{
    let info = &instructions[i];
    assert(next_pos(instructions@[i as int]) <= usize::MAX);
    let next = info.pos + info.bytes.len();
    match &info.instruction {
        Instruction::Leave { .. } => {},
        Instruction::JumpZero { location }
        | Instruction::IfEqualJumpZero { location }
        | Instruction::IfNotEqualJumpZero { location }
        | Instruction::IfLowerThanJumpZero { location }
        | Instruction::IfGreaterThanJumpZero { location }
        | Instruction::IfLowerOrEqualJumpZero { location }
        | Instruction::IfGreaterOrEqualJumpZero { location } => {
            push_edge_to(edges, map, k, *location as usize, EdgeType::ConditionalJump);
            push_edge_to(edges, map, k, next, EdgeType::ConditionalFlow);
        },
        Instruction::Jump { location } => {
            push_edge_to(edges, map, k, *location as usize, EdgeType::Jump);
        },
        Instruction::Switch { cases } => {
            let mut j: usize = 0;
            let ghost start = edges@;
            assert(cases@.take(0) =~= Seq::<crate::disassembler::instruction::SwitchCase>::empty());
            while j < cases.len()
                invariant
                    j <= cases@.len(),
                    edges@ == start + case_edges(map@, k, cases@.take(j as int)),
                decreases cases@.len() - j,
            {
                push_edge_to(edges, map, k, cases[j].location as usize, EdgeType::Case(cases[j].value as i64));
                proof {
                    let t = cases@.take(j + 1);
                    assert(t.drop_last() =~= cases@.take(j as int));
                    assert(t.last() == cases@[j as int]);
                }
                j = j + 1;
                assert(edges@ =~= start + case_edges(map@, k, cases@.take(j as int)));
            }
            assert(cases@.take(j as int) =~= cases@);
            push_edge_to(edges, map, k, next, EdgeType::ConditionalFlow);
        },
        _ => {
            if destinations.contains(&next) {
                push_edge_to(edges, map, k, next, EdgeType::Flow);
            }
        },
    }
    assert(edges@ =~= old(edges)@ + instruction_edges(instructions@, destinations@, map@, k, i as int));
}

/// The edges of the nodes of a function, node by node.
fn block_edges(
    instructions: &[InstructionInfo],
    destinations: &HashSet<usize>,
    map: &HashMap<usize, usize>,
    blocks: &Vec<(usize, usize)>,
) -> (r: Vec<(usize, usize, EdgeType)>)
    requires
        positions_fit(instructions@),
        forall|k: int|
            0 <= k < blocks@.len() ==> (#[trigger] blocks@[k]).0 <= blocks@[k].1 <= instructions@.len(),
    ensures
        r@ == blocks_edges(instructions@, destinations@, map@, blocks@, blocks@.len() as int),
{
    let mut edges: Vec<(usize, usize, EdgeType)> = Vec::new();
    let mut k: usize = 0;
    while k < blocks.len()
        invariant
            k <= blocks@.len(),
            positions_fit(instructions@),
            forall|j: int|
                0 <= j < blocks@.len() ==> (#[trigger] blocks@[j]).0 <= blocks@[j].1 <= instructions@.len(),
            edges@ == blocks_edges(instructions@, destinations@, map@, blocks@, k as int),
        decreases blocks@.len() - k,
    {
        let (from, to) = blocks[k];
        let ghost before = edges@;
        let mut i = from;
        while i < to
            invariant
                from <= i <= to <= instructions@.len(),
                positions_fit(instructions@),
                edges@ == before + range_edges(instructions@, destinations@, map@, k, from as int, i as int),
            decreases to - i,
        {
            push_instruction_edges(&mut edges, instructions, destinations, map, k, i);
            i = i + 1;
            assert(edges@ =~= before + range_edges(instructions@, destinations@, map@, k, from as int, i as int));
        }
        k = k + 1;
    }
    edges
}

/// The nodes closed so far lie within the instructions read, in order,
/// and one more may be open.
proof fn lemma_blocks_upto(instrs: Seq<InstructionInfo>, dest: Set<usize>, n: int)
    requires
        0 <= n <= instrs.len(),
        instrs.len() <= usize::MAX,
    ensures
        ({
            let (closed, open) = blocks_upto(instrs, dest, n);
            &&& closed.len() + (if open is Some { 1int } else { 0 }) <= n
            &&& forall|k: int| 0 <= k < closed.len() ==> (#[trigger] closed[k]).0 < closed[k].1 <= n
            &&& open matches Some(s) ==> s < n
            &&& n > 0 ==> (closed.len() > 0 && closed[0].0 == 0) || (closed.len() == 0 && open == Some(0usize))
        }),
    decreases n,
{
    if n > 0 {
        lemma_blocks_upto(instrs, dest, n - 1);
    }
}

/// The nodes of a function are non-empty ranges within its instructions,
/// no more than there are instructions, and the first starts at the first
/// instruction.
pub proof fn lemma_blocks(instrs: Seq<InstructionInfo>, dest: Set<usize>)
    requires
        instrs.len() <= usize::MAX,
    ensures
        blocks_of(instrs, dest).len() <= instrs.len(),
        forall|k: int|
            0 <= k < blocks_of(instrs, dest).len() ==> (#[trigger] blocks_of(instrs, dest)[k]).0
                < blocks_of(instrs, dest)[k].1 <= instrs.len(),
        instrs.len() > 0 ==> blocks_of(instrs, dest).len() > 0 && blocks_of(instrs, dest)[0].0 == 0,
{
    lemma_blocks_upto(instrs, dest, instrs.len() as int);
}

/// The node map names nodes that exist.
proof fn lemma_block_map(instrs: Seq<InstructionInfo>, blocks: Seq<(usize, usize)>)
    ensures
        forall|p: usize|
            #[trigger] block_map(instrs, blocks).contains_key(p) ==> block_map(instrs, blocks)[p]
                < blocks.len(),
    decreases blocks.len(),
{
    if blocks.len() > 0 {
        lemma_block_map(instrs, blocks.drop_last());
        let prev = block_map(instrs, blocks.drop_last());
        assert forall|p: usize| #[trigger] block_map(instrs, blocks).contains_key(p) implies block_map(
            instrs,
            blocks,
        )[p] < blocks.len() by {
            if p != instrs[blocks.last().0 as int].pos {
                assert(prev.contains_key(p));
            }
        }
    }
}

/// Whether every edge joins nodes below `n`.
pub open spec fn edges_within(edges: Seq<(usize, usize, EdgeType)>, n: nat) -> bool {
    forall|i: int| 0 <= i < edges.len() ==> (#[trigger] edges[i]).0 < n && edges[i].1 < n
}

proof fn lemma_edge_to(map: Map<usize, usize>, k: usize, p: usize, kind: EdgeType, n: nat)
    requires
        k < n,
        forall|q: usize| #[trigger] map.contains_key(q) ==> map[q] < n,
    ensures
        edges_within(edge_to(map, k, p, kind), n),
{
}

proof fn lemma_concat_within(a: Seq<(usize, usize, EdgeType)>, b: Seq<(usize, usize, EdgeType)>, n: nat)
    requires
        edges_within(a, n),
        edges_within(b, n),
    ensures
        edges_within(a + b, n),
{
    assert forall|i: int| 0 <= i < (a + b).len() implies (#[trigger] (a + b)[i]).0 < n && (a + b)[i].1 < n by {
        if i < a.len() {
            assert((a + b)[i] == a[i]);
        } else {
            assert((a + b)[i] == b[i - a.len()]);
        }
    }
}

proof fn lemma_case_edges_within(
    map: Map<usize, usize>,
    k: usize,
    cases: Seq<crate::disassembler::instruction::SwitchCase>,
    n: nat,
)
    requires
        k < n,
        forall|q: usize| #[trigger] map.contains_key(q) ==> map[q] < n,
    ensures
        edges_within(case_edges(map, k, cases), n),
    decreases cases.len(),
{
    if cases.len() > 0 {
        lemma_case_edges_within(map, k, cases.drop_last(), n);
        lemma_edge_to(map, k, cases.last().location as usize, EdgeType::Case(cases.last().value as i64), n);
        lemma_concat_within(
            case_edges(map, k, cases.drop_last()),
            edge_to(map, k, cases.last().location as usize, EdgeType::Case(cases.last().value as i64)),
            n,
        );
    }
}

proof fn lemma_range_edges_within(
    instrs: Seq<InstructionInfo>,
    dest: Set<usize>,
    map: Map<usize, usize>,
    k: usize,
    from: int,
    to: int,
    n: nat,
)
    requires
        k < n,
        forall|q: usize| #[trigger] map.contains_key(q) ==> map[q] < n,
    ensures
        edges_within(range_edges(instrs, dest, map, k, from, to), n),
    decreases to - from,
{
    if to > from {
        lemma_range_edges_within(instrs, dest, map, k, from, to - 1, n);
        let i = to - 1;
        let next = next_pos(instrs[i]) as usize;
        let e = instruction_edges(instrs, dest, map, k, i);
        lemma_edge_to(map, k, next, EdgeType::ConditionalFlow, n);
        lemma_edge_to(map, k, next, EdgeType::Flow, n);
        assert(edges_within(e, n)) by {
            match instrs[i].instruction {
                Instruction::Switch { cases } => {
                    lemma_case_edges_within(map, k, cases@, n);
                    lemma_concat_within(case_edges(map, k, cases@), edge_to(map, k, next, EdgeType::ConditionalFlow), n);
                },
                Instruction::Jump { location } => {
                    lemma_edge_to(map, k, location as usize, EdgeType::Jump, n);
                },
                _ => {
                    match jump_target(instrs[i].instruction) {
                        Some(location) => {
                            lemma_edge_to(map, k, location as usize, EdgeType::ConditionalJump, n);
                            lemma_concat_within(
                                edge_to(map, k, location as usize, EdgeType::ConditionalJump),
                                edge_to(map, k, next, EdgeType::ConditionalFlow),
                                n,
                            );
                        },
                        None => {},
                    }
                },
            }
        }
        lemma_concat_within(range_edges(instrs, dest, map, k, from, to - 1), e, n);
    }
}

/// Every edge of a function's graph joins two of its nodes.
proof fn lemma_all_edges_within(
    instrs: Seq<InstructionInfo>,
    dest: Set<usize>,
    blocks: Seq<(usize, usize)>,
    m: int,
)
    requires
        0 <= m <= blocks.len(),
    ensures
        edges_within(blocks_edges(instrs, dest, block_map(instrs, blocks), blocks, m), blocks.len()),
    decreases m,
{
    lemma_block_map(instrs, blocks);
    if m > 0 {
        lemma_all_edges_within(instrs, dest, blocks, m - 1);
        lemma_range_edges_within(
            instrs,
            dest,
            block_map(instrs, blocks),
            (m - 1) as usize,
            blocks[m - 1].0 as int,
            blocks[m - 1].1 as int,
            blocks.len(),
        );
        lemma_concat_within(
            blocks_edges(instrs, dest, block_map(instrs, blocks), blocks, m - 1),
            range_edges(instrs, dest, block_map(instrs, blocks), (m - 1) as usize, blocks[m - 1].0 as int, blocks[m - 1].1 as int),
            blocks.len(),
        );
    }
}

/// Whether some edge leads from `a` to `b`.
pub open spec fn has_edge(edges: Seq<(usize, usize, EdgeType)>, a: usize, b: usize) -> bool {
    exists|j: int| 0 <= j < edges.len() && (#[trigger] edges[j]).0 == a && edges[j].1 == b
}

/// Whether `path` leads along edges from `root` to `v`.
pub open spec fn is_path(edges: Seq<(usize, usize, EdgeType)>, root: usize, path: Seq<usize>, v: usize) -> bool {
    &&& path.len() >= 1
    &&& path[0] == root
    &&& path.last() == v
    &&& forall|i: int| 0 <= i < path.len() - 1 ==> has_edge(edges, #[trigger] path[i], path[i + 1])
}

/// The nodes some path leads to from `root`.
pub open spec fn reachable_from(edges: Seq<(usize, usize, EdgeType)>, root: usize) -> Set<usize> {
    Set::new(|v: usize| exists|path: Seq<usize>| #[trigger] is_path(edges, root, path, v))
}

/// The nodes below `n`.
pub open spec fn below(n: nat) -> Set<usize> {
    Set::new(|x: usize| x < n)
}

pub(crate) proof fn lemma_below(n: nat)
    requires
        n <= usize::MAX + 1,
    ensures
        below(n).finite(),
        below(n).len() == n,
    decreases n,
{
    if n == 0 {
        assert(below(n) =~= Set::empty());
    } else {
        let m = (n - 1) as nat;
        lemma_below(m);
        assert(below(n) =~= below(m).insert(m as usize));
        assert(!below(m).contains(m as usize));
    }
}

/// The edges out of `a` are those of the graph that start at `a`.
proof fn lemma_outgoing(edges: Seq<(usize, usize, EdgeType)>, a: usize)
    ensures
        forall|k: int|
            0 <= k < outgoing_edges(edges, a).len() ==> has_edge(
                edges,
                a,
                (#[trigger] outgoing_edges(edges, a)[k]).0,
            ),
        forall|j: int|
            0 <= j < edges.len() && (#[trigger] edges[j]).0 == a ==> exists|k: int|
                0 <= k < outgoing_edges(edges, a).len() && outgoing_edges(edges, a)[k].0 == edges[j].1,
    decreases edges.len(),
{
    if edges.len() > 0 {
        let rest = edges.drop_last();
        lemma_outgoing(rest, a);
        let e = edges.last();
        let head: Seq<(usize, EdgeType)> = if e.0 == a {
            seq![(e.1, e.2)]
        } else {
            seq![]
        };
        let out = outgoing_edges(edges, a);
        assert(out == head + outgoing_edges(rest, a));
        assert forall|k: int| 0 <= k < out.len() implies has_edge(edges, a, (#[trigger] out[k]).0) by {
            if k < head.len() {
                assert(edges[edges.len() - 1] == e);
            } else {
                let k2 = k - head.len();
                assert(out[k] == outgoing_edges(rest, a)[k2]);
                assert(has_edge(rest, a, outgoing_edges(rest, a)[k2].0));
                let j = choose|j: int| 0 <= j < rest.len() && (#[trigger] rest[j]).0 == a && rest[j].1 == outgoing_edges(rest, a)[k2].0;
                assert(edges[j] == rest[j]);
            }
        }
        assert forall|j: int| 0 <= j < edges.len() && (#[trigger] edges[j]).0 == a implies exists|k: int|
            0 <= k < out.len() && out[k].0 == edges[j].1 by {
            if j == edges.len() - 1 {
                assert(out[0] == (e.1, e.2));
            } else {
                assert(rest[j] == edges[j]);
                let k2 = choose|k: int| 0 <= k < outgoing_edges(rest, a).len() && outgoing_edges(rest, a)[k].0 == rest[j].1;
                assert(out[k2 + head.len()] == outgoing_edges(rest, a)[k2]);
            }
        }
    }
}

/// Whether an edge of the given kind leads from `a` to `b`.
pub open spec fn edge_is(edges: Seq<(usize, usize, EdgeType)>, a: usize, b: usize, kind: EdgeType) -> bool {
    exists|j: int| 0 <= j < edges.len() && edges[j] == (a, b, kind)
}

/// The edges out of `a`, with their kinds, are those of the graph that
/// start at `a`.
pub(crate) proof fn lemma_outgoing_edges(edges: Seq<(usize, usize, EdgeType)>, a: usize)
    ensures
        forall|k: int|
            0 <= k < outgoing_edges(edges, a).len() ==> edge_is(
                edges,
                a,
                (#[trigger] outgoing_edges(edges, a)[k]).0,
                outgoing_edges(edges, a)[k].1,
            ),
        forall|j: int|
            0 <= j < edges.len() && (#[trigger] edges[j]).0 == a ==> outgoing_edges(edges, a).contains(
                (edges[j].1, edges[j].2),
            ),
    decreases edges.len(),
{
    if edges.len() > 0 {
        let rest = edges.drop_last();
        lemma_outgoing_edges(rest, a);
        let e = edges.last();
        let head: Seq<(usize, EdgeType)> = if e.0 == a {
            seq![(e.1, e.2)]
        } else {
            seq![]
        };
        let out = outgoing_edges(edges, a);
        assert(out == head + outgoing_edges(rest, a));
        assert forall|k: int| 0 <= k < out.len() implies edge_is(edges, a, (#[trigger] out[k]).0, out[k].1) by {
            if k < head.len() {
                assert(edges[edges.len() - 1] == e);
            } else {
                let k2 = k - head.len();
                assert(out[k] == outgoing_edges(rest, a)[k2]);
                assert(edge_is(rest, a, outgoing_edges(rest, a)[k2].0, outgoing_edges(rest, a)[k2].1));
                let j = choose|j: int| 0 <= j < rest.len() && rest[j] == (a, outgoing_edges(rest, a)[k2].0, outgoing_edges(rest, a)[k2].1);
                assert(edges[j] == rest[j]);
            }
        }
        assert forall|j: int| 0 <= j < edges.len() && (#[trigger] edges[j]).0 == a implies out.contains(
            (edges[j].1, edges[j].2),
        ) by {
            if j == edges.len() - 1 {
                assert(out[0] == (e.1, e.2));
            } else {
                assert(rest[j] == edges[j]);
                assert(outgoing_edges(rest, a).contains((rest[j].1, rest[j].2)));
                let k2 = choose|k2: int| 0 <= k2 < outgoing_edges(rest, a).len() && outgoing_edges(rest, a)[k2] == (rest[j].1, rest[j].2);
                assert(out[k2 + head.len()] == outgoing_edges(rest, a)[k2]);
            }
        }
    }
}

/// A set that holds `root` and every node an edge leads to from one of
/// its nodes holds every node a path leads to.
proof fn lemma_closed_holds_reachable(
    edges: Seq<(usize, usize, EdgeType)>,
    root: usize,
    set: Set<usize>,
    path: Seq<usize>,
    v: usize,
)
    requires
        set.contains(root),
        forall|j: int| 0 <= j < edges.len() && set.contains((#[trigger] edges[j]).0) ==> set.contains(edges[j].1),
        is_path(edges, root, path, v),
    ensures
        set.contains(v),
    decreases path.len(),
{
    if path.len() > 1 {
        let shorter = path.drop_last();
        assert(is_path(edges, root, shorter, shorter.last())) by {
            assert forall|i: int| 0 <= i < shorter.len() - 1 implies has_edge(edges, #[trigger] shorter[i], shorter[i + 1]) by {
                assert(shorter[i] == path[i]);
                assert(has_edge(edges, path[i], path[i + 1]));
            }
        }
        lemma_closed_holds_reachable(edges, root, set, shorter, shorter.last());
        let i = path.len() - 2;
        assert(has_edge(edges, path[i], path[i + 1]));
        let j = choose|j: int| 0 <= j < edges.len() && (#[trigger] edges[j]).0 == path[i] && edges[j].1 == path[i + 1];
    }
}

/// A node an edge leads to from a reachable node is reachable.
proof fn lemma_reach_step(edges: Seq<(usize, usize, EdgeType)>, root: usize, a: usize, b: usize)
    requires
        reachable_from(edges, root).contains(a),
        has_edge(edges, a, b),
    ensures
        reachable_from(edges, root).contains(b),
{
    let path = choose|path: Seq<usize>| #[trigger] is_path(edges, root, path, a);
    let longer = path.push(b);
    assert forall|i: int| 0 <= i < longer.len() - 1 implies has_edge(edges, #[trigger] longer[i], longer[i + 1]) by {
        if i < path.len() - 1 {
            assert(longer[i] == path[i] && longer[i + 1] == path[i + 1]);
        } else {
            assert(longer[i] == a && longer[i + 1] == b);
        }
    }
    assert(is_path(edges, root, longer, b));
}

/// The nodes that paths lead to from `root`.
fn reachable_nodes(g: &BlockGraph, root: usize) -> (r: HashSet<usize>)
    requires
        root < graph_nodes(*g).len(),
        graph_nodes(*g).len() < u32::MAX,
        edges_within(graph_edges(*g), graph_nodes(*g).len()),
    ensures
        r@ == reachable_from(graph_edges(*g), root),
{
    let ghost edges = graph_edges(*g);
    let ghost n = graph_nodes(*g).len();
    let mut connected: HashSet<usize> = HashSet::new();
    let mut stack: Vec<usize> = Vec::new();
    stack.push(root);
    proof {
        lemma_below(n);
        assert(is_path(edges, root, seq![root], root));
    }
    while stack.len() > 0
        invariant
            n == graph_nodes(*g).len(),
            edges == graph_edges(*g),
            n < u32::MAX,
            below(n).finite(),
            below(n).len() == n,
            edges_within(edges, n),
            connected@.subset_of(below(n)),
            connected@.subset_of(reachable_from(edges, root)),
            forall|i: int| 0 <= i < stack@.len() ==> (#[trigger] stack@[i]) < n && reachable_from(edges, root).contains(stack@[i]),
            connected@.contains(root) || stack@.contains(root),
            forall|j: int|
                0 <= j < edges.len() && connected@.contains((#[trigger] edges[j]).0) ==> connected@.contains(edges[j].1)
                    || stack@.contains(edges[j].1),
        decreases n - connected@.len(), stack@.len(),
    {
        proof {
            vstd::set_lib::lemma_len_subset(connected@, below(n));
        }
        let ghost before = stack@;
        let ghost seen = connected@;
        let head = stack.pop().unwrap();
        assert(before[before.len() - 1] == head);
        assert forall|t: usize| before.contains(t) && t != head implies stack@.contains(t) by {
            let i = choose|i: int| 0 <= i < before.len() && before[i] == t;
            assert(i < before.len() - 1);
            assert(stack@[i] == t);
        }
        if !connected.contains(&head) {
            connected.insert(head);
            let out = outgoing(g, head);
            proof {
                lemma_outgoing(edges, head);
            }
            let ghost base = stack@;
            let mut k: usize = 0;
            while k < out.len()
                invariant
                    k <= out@.len(),
                    out@ == outgoing_edges(edges, head),
                    n == graph_nodes(*g).len(),
                    edges == graph_edges(*g),
                    edges_within(edges, n),
                    reachable_from(edges, root).contains(head),
                    forall|i: int| 0 <= i < out@.len() ==> has_edge(edges, head, (#[trigger] out@[i]).0),
                    stack@ == base + out@.take(k as int).map_values(|o: (usize, EdgeType)| o.0),
                    forall|i: int| 0 <= i < stack@.len() ==> (#[trigger] stack@[i]) < n && reachable_from(edges, root).contains(stack@[i]),
                decreases out@.len() - k,
            {
                let t = out[k].0;
                proof {
                    assert(has_edge(edges, head, t));
                    let j = choose|j: int| 0 <= j < edges.len() && (#[trigger] edges[j]).0 == head && edges[j].1 == t;
                    assert(t < n);
                    lemma_reach_step(edges, root, head, t);
                }
                stack.push(t);
                k = k + 1;
                assert(stack@ =~= base + out@.take(k as int).map_values(|o: (usize, EdgeType)| o.0));
            }
            proof {
                assert(out@.take(k as int) =~= out@);
                assert forall|j: int|
                    0 <= j < edges.len() && connected@.contains((#[trigger] edges[j]).0) implies connected@.contains(edges[j].1)
                        || stack@.contains(edges[j].1) by {
                    if edges[j].0 == head {
                        let k2 = choose|k2: int| 0 <= k2 < outgoing_edges(edges, head).len() && outgoing_edges(edges, head)[k2].0 == edges[j].1;
                        assert(stack@[base.len() + k2] == edges[j].1);
                    } else {
                        assert(seen.contains(edges[j].0));
                        if !seen.contains(edges[j].1) || edges[j].1 == head {
                        }
                        if before.contains(edges[j].1) && edges[j].1 != head {
                            assert(base.contains(edges[j].1));
                            let i = choose|i: int| 0 <= i < base.len() && base[i] == edges[j].1;
                            assert(stack@[i] == edges[j].1);
                        }
                    }
                }
                if stack@.contains(root) {
                } else if before.contains(root) && root != head {
                    let i = choose|i: int| 0 <= i < base.len() && base[i] == root;
                    assert(stack@[i] == root);
                }
                assert(connected@.len() == seen.len() + 1);
                vstd::set_lib::lemma_len_subset(connected@, below(n));
            }
        } else {
            proof {
                assert forall|j: int|
                    0 <= j < edges.len() && connected@.contains((#[trigger] edges[j]).0) implies connected@.contains(edges[j].1)
                        || stack@.contains(edges[j].1) by {
                }
            }
        }
    }
    proof {
        assert forall|v: usize| reachable_from(edges, root).contains(v) implies connected@.contains(v) by {
            let path = choose|path: Seq<usize>| #[trigger] is_path(edges, root, path, v);
            lemma_closed_holds_reachable(edges, root, connected@, path, v);
        }
        assert(connected@ =~= reachable_from(edges, root));
    }
    connected
}

/// No more nodes below `i` are kept than there are nodes below `i`.
proof fn lemma_kept_before_bound(kept: Set<usize>, i: nat)
    ensures
        kept_before(kept, i) <= i,
    decreases i,
{
    if i > 0 {
        lemma_kept_before_bound(kept, (i - 1) as nat);
    }
}

/// A kept node comes before every later bound.
proof fn lemma_kept_before_grows(kept: Set<usize>, a: nat, b: nat)
    requires
        a < b,
        a <= usize::MAX,
        kept.contains(a as usize),
    ensures
        kept_before(kept, a) < kept_before(kept, b),
    decreases b,
{
    if b > a + 1 {
        lemma_kept_before_grows(kept, a, (b - 1) as nat);
    } else {
        assert(((b - 1) as nat) as usize == a as usize);
    }
}

/// As many nodes are kept as `kept_before` counts.
proof fn lemma_kept_count(nodes: Seq<(usize, usize)>, kept: Set<usize>)
    ensures
        kept_nodes(nodes, kept).len() == kept_before(kept, nodes.len()),
    decreases nodes.len(),
{
    if nodes.len() > 0 {
        lemma_kept_count(nodes.drop_last(), kept);
    }
}

/// Every kept node is a node of the graph.
proof fn lemma_kept_from(nodes: Seq<(usize, usize)>, kept: Set<usize>)
    ensures
        forall|k: int|
            0 <= k < kept_nodes(nodes, kept).len() ==> nodes.contains(#[trigger] kept_nodes(nodes, kept)[k]),
    decreases nodes.len(),
{
    if nodes.len() > 0 {
        let rest = nodes.drop_last();
        lemma_kept_from(rest, kept);
        let tail: Seq<(usize, usize)> = if kept.contains((nodes.len() - 1) as usize) {
            seq![nodes.last()]
        } else {
            seq![]
        };
        assert(kept_nodes(nodes, kept) == kept_nodes(rest, kept) + tail);
        assert forall|k: int| 0 <= k < kept_nodes(nodes, kept).len() implies nodes.contains(
            #[trigger] kept_nodes(nodes, kept)[k],
        ) by {
            if k < kept_nodes(rest, kept).len() {
                assert(rest.contains(kept_nodes(rest, kept)[k]));
                let j = choose|j: int| 0 <= j < rest.len() && rest[j] == kept_nodes(rest, kept)[k];
                assert(nodes[j] == kept_nodes(nodes, kept)[k]);
            } else {
                assert(nodes[nodes.len() - 1] == kept_nodes(nodes, kept)[k]);
            }
        }
    }
}

/// The kept edges join kept nodes.
proof fn lemma_kept_edges_within(edges: Seq<(usize, usize, EdgeType)>, kept: Set<usize>, n: nat)
    requires
        edges_within(edges, n),
    ensures
        edges_within(kept_edges(edges, kept), kept_before(kept, n)),
    decreases edges.len(),
{
    if edges.len() > 0 {
        let rest = edges.drop_last();
        assert forall|i: int| 0 <= i < rest.len() implies (#[trigger] rest[i]).0 < n && rest[i].1 < n by {
            assert(rest[i] == edges[i]);
        }
        lemma_kept_edges_within(rest, kept, n);
        let e = edges.last();
        assert(edges[edges.len() - 1] == e);
        if kept.contains(e.0) && kept.contains(e.1) {
            lemma_kept_before_grows(kept, e.0 as nat, n);
            lemma_kept_before_grows(kept, e.1 as nat, n);
            lemma_kept_before_bound(kept, e.0 as nat);
            lemma_kept_before_bound(kept, e.1 as nat);
        }
        let tail: Seq<(usize, usize, EdgeType)> = if kept.contains(e.0) && kept.contains(e.1) {
            seq![(kept_before(kept, e.0 as nat) as usize, kept_before(kept, e.1 as nat) as usize, e.2)]
        } else {
            seq![]
        };
        lemma_concat_within(kept_edges(rest, kept), tail, kept_before(kept, n));
    }
}

/// The graph with only the nodes that paths lead to from `root`.
fn remove_unreachable(graph: BlockGraph, root: usize) -> (r: BlockGraph)
    requires
        root < graph_nodes(graph).len(),
        graph_nodes(graph).len() < u32::MAX,
        edges_within(graph_edges(graph), graph_nodes(graph).len()),
    ensures
        graph_nodes(r) == kept_nodes(graph_nodes(graph), reachable_from(graph_edges(graph), root)),
        graph_edges(r) == kept_edges(graph_edges(graph), reachable_from(graph_edges(graph), root)),
{
    let connected = reachable_nodes(&graph, root);
    keep_nodes(&graph, &connected)
}

/// Each count below the number of kept nodes below `n` is the new index of
/// a kept node below `n`.
proof fn lemma_kept_index_onto(kept: Set<usize>, n: nat, k: nat)
    requires
        n <= usize::MAX + 1,
        k < kept_before(kept, n),
    ensures
        exists|v: usize| v < n && kept.contains(v) && #[trigger] kept_before(kept, v as nat) == k,
    decreases n,
{
    let m = (n - 1) as nat;
    if k < kept_before(kept, m) {
        lemma_kept_index_onto(kept, m, k);
        let v = choose|v: usize| v < m && kept.contains(v) && #[trigger] kept_before(kept, v as nat) == k;
        assert(v < n);
    } else {
        assert(kept.contains(m as usize));
        assert(kept_before(kept, (m as usize) as nat) == k);
    }
}

/// An edge between kept nodes is kept, between their new indices.
proof fn lemma_kept_edge(edges: Seq<(usize, usize, EdgeType)>, kept: Set<usize>, j: int)
    requires
        0 <= j < edges.len(),
        kept.contains(edges[j].0),
        kept.contains(edges[j].1),
    ensures
        has_edge(
            kept_edges(edges, kept),
            kept_before(kept, edges[j].0 as nat) as usize,
            kept_before(kept, edges[j].1 as nat) as usize,
        ),
    decreases edges.len(),
{
    let rest = edges.drop_last();
    let e = edges[j];
    let a = kept_before(kept, e.0 as nat) as usize;
    let b = kept_before(kept, e.1 as nat) as usize;
    if j == edges.len() - 1 {
        assert(edges.last() == e);
        let i = kept_edges(rest, kept).len() as int;
        assert(kept_edges(edges, kept)[i] == (a, b, e.2));
    } else {
        assert(rest[j] == e);
        lemma_kept_edge(rest, kept, j);
        let i = choose|i: int| 0 <= i < kept_edges(rest, kept).len() && (#[trigger] kept_edges(rest, kept)[i]).0 == a
            && kept_edges(rest, kept)[i].1 == b;
        assert(kept_edges(edges, kept)[i] == kept_edges(rest, kept)[i]);
    }
}

/// Every node on a path from `root` is reached from `root`.
proof fn lemma_path_nodes_reached(edges: Seq<(usize, usize, EdgeType)>, root: usize, path: Seq<usize>, v: usize, i: int)
    requires
        is_path(edges, root, path, v),
        0 <= i < path.len(),
    ensures
        reachable_from(edges, root).contains(path[i]),
{
    let prefix = path.take(i + 1);
    assert forall|t: int| 0 <= t < prefix.len() - 1 implies has_edge(edges, #[trigger] prefix[t], prefix[t + 1]) by {
        assert(prefix[t] == path[t] && prefix[t + 1] == path[t + 1]);
    }
    assert(is_path(edges, root, prefix, path[i]));
}

/// Every node of a function's graph is one that a path leads to from its
/// first node.
pub proof fn lemma_graph_nodes_reachable(instrs: Seq<InstructionInfo>, k: usize)
    requires
        graphable(instrs),
        k < graph_blocks(instrs).len(),
    ensures
        reachable_from(graph_links(instrs), 0).contains(k),
{
    let edges = all_edges(instrs);
    let blocks = blocks_of(instrs, destinations_of(instrs));
    let kept = reachable_blocks(instrs);
    lemma_blocks(instrs, destinations_of(instrs));
    lemma_kept_count(blocks, kept);
    lemma_kept_index_onto(kept, blocks.len(), k as nat);
    let v = choose|v: usize| v < blocks.len() && kept.contains(v) && #[trigger] kept_before(kept, v as nat) == k;
    let path = choose|path: Seq<usize>| #[trigger] is_path(edges, 0, path, v);
    let mapped = path.map_values(|x: usize| kept_before(kept, x as nat) as usize);
    assert forall|i: int| 0 <= i < path.len() implies kept.contains(#[trigger] path[i]) by {
        lemma_path_nodes_reached(edges, 0, path, v, i);
    }
    assert forall|i: int| 0 <= i < mapped.len() - 1 implies has_edge(graph_links(instrs), #[trigger] mapped[i], mapped[i + 1]) by {
        assert(has_edge(edges, path[i], path[i + 1]));
        let j = choose|j: int| 0 <= j < edges.len() && (#[trigger] edges[j]).0 == path[i] && edges[j].1 == path[i + 1];
        assert(kept.contains(path[i]) && kept.contains(path[i + 1]));
        lemma_kept_edge(edges, kept, j);
    }
    lemma_kept_before_bound(kept, v as nat);
    assert(mapped[0] == 0);
    assert(mapped.last() == k);
    assert(is_path(graph_links(instrs), 0, mapped, k));
}

/// The nodes that paths lead to from the first node of a function's graph.
pub open spec fn reachable_blocks(instrs: Seq<InstructionInfo>) -> Set<usize> {
    reachable_from(all_edges(instrs), 0)
}

/// The nodes of a function's graph, as ranges of instruction indices, once
/// those no path leads to are removed.
pub open spec fn graph_blocks(instrs: Seq<InstructionInfo>) -> Seq<(usize, usize)> {
    kept_nodes(blocks_of(instrs, destinations_of(instrs)), reachable_blocks(instrs))
}

/// The edges of a function's graph once unreachable nodes are removed.
pub open spec fn graph_links(instrs: Seq<InstructionInfo>) -> Seq<(usize, usize, EdgeType)> {
    kept_edges(all_edges(instrs), reachable_blocks(instrs))
}

/// The immediate dominator of each node of a function's graph, seen from
/// its first node.
pub open spec fn graph_dominators(instrs: Seq<InstructionInfo>) -> Seq<Option<usize>> {
    immediate_dominators_of(graph_blocks(instrs).len(), edge_pairs(graph_links(instrs)), 0)
}

/// A listing with its leading line breaks dropped.
pub open spec fn drop_leading_newlines(text: Seq<char>) -> Seq<char>
    decreases text.len(),
{
    if text.len() > 0 && text[0] == '\n' {
        drop_leading_newlines(text.drop_first())
    } else {
        text
    }
}

/// A character as it stands in a node label: a line break becomes a
/// left-aligned HTML break, a tab four spaces.
pub open spec fn escape_char(c: char) -> Seq<char> {
    if c == '\n' {
        "<br align=\"left\" />"@
    } else if c == '\t' {
        "    "@
    } else {
        seq![c]
    }
}

/// A text with each character as it stands in a node label.
pub open spec fn escape_label(text: Seq<char>) -> Seq<char>
    decreases text.len(),
{
    if text.len() == 0 {
        seq![]
    } else {
        escape_label(text.drop_last()) + escape_char(text.last())
    }
}

/// The label of a node: its listing without leading line breaks, escaped.
pub open spec fn label_text(listing: Seq<char>) -> Seq<char> {
    escape_label(drop_leading_newlines(listing))
}

/// The colour of a node: green for the first, dark red for one that no
/// edge leaves, black otherwise.
pub open spec fn node_color(index: nat, has_edges: bool) -> Seq<char> {
    if index == 0 {
        "darkgreen"@
    } else if !has_edges {
        "red4"@
    } else {
        "black"@
    }
}

/// A node of the diagram, as a table that holds its label.
pub open spec fn node_dot(index: nat, label: Seq<char>, color: Seq<char>) -> Seq<char> {
    "node_"@ + decimal(index) + "[margin=0.0,label=<<table border=\"0\"><tr><td bgcolor=\"#AAAAAA\">Node "@
        + decimal(index) + "</td></tr><tr><td align=\"text\">"@ + label
        + "<br align=\"left\" /></td></tr></table>>,shape=rectangle,color="@ + color + "]"@
}

/// The nodes of the diagram below `k`, in order.
pub open spec fn nodes_dot(listings: Seq<Seq<char>>, has_edges: Seq<bool>, k: int) -> Seq<char>
    decreases k,
{
    if k <= 0 {
        seq![]
    } else {
        nodes_dot(listings, has_edges, k - 1) + node_dot(
            (k - 1) as nat,
            label_text(listings[k - 1]),
            node_color((k - 1) as nat, has_edges[k - 1]),
        )
    }
}

/// The colour of an edge: green for a taken condition or a case, dark red
/// for a fall-through of a condition, black otherwise.
pub open spec fn edge_color(kind: EdgeType) -> Seq<char> {
    match kind {
        EdgeType::ConditionalJump | EdgeType::Case(_) => "darkgreen"@,
        EdgeType::ConditionalFlow => "red4"@,
        _ => "black"@,
    }
}

/// The label of an edge: a case's value, or nothing.
pub open spec fn edge_extra(kind: EdgeType) -> Seq<char> {
    match kind {
        EdgeType::Case(value) => "label=\""@ + signed_decimal(value as int) + "\""@,
        _ => seq![],
    }
}

/// An edge of the diagram.
pub open spec fn edge_dot(edge: (usize, usize, EdgeType)) -> Seq<char> {
    "node_"@ + decimal(edge.0 as nat) + "->node_"@ + decimal(edge.1 as nat) + "[color="@ + edge_color(edge.2) + ","@
        + edge_extra(edge.2) + "]"@
}

/// The first `k` edges of the diagram, in order.
pub open spec fn edges_dot(edges: Seq<(usize, usize, EdgeType)>, k: int) -> Seq<char>
    decreases k,
{
    if k <= 0 {
        seq![]
    } else {
        edges_dot(edges, k - 1) + edge_dot(edges[k - 1])
    }
}

/// The opening of the diagram.
pub open spec fn dot_header() -> Seq<char> {
    "digraph{graph[splines=ortho,rankdir=TB,concentrate=true]node[fontname=\"Consolas\",fontcolor=black]"@
}

/// A diagram of a graph in the dot language: its nodes with their
/// listings, then its edges.
pub open spec fn dot_text(listings: Seq<Seq<char>>, has_edges: Seq<bool>, edges: Seq<(usize, usize, EdgeType)>) -> Seq<
    char,
> {
    dot_header() + nodes_dot(listings, has_edges, listings.len() as int) + edges_dot(edges, edges.len() as int) + "}"@
}

/// Appends a listing as a node label.
fn push_label(out: &mut String, listing: &String)
    ensures
        final(out)@ == old(out)@ + label_text(listing@),
{
    let text = listing.as_str();
    let len = text.unicode_len();
    let mut i: usize = 0;
    assert(text@.subrange(0, len as int) =~= text@);
    while i < len && text.get_char(i) == '\n'
        invariant
            i <= len,
            len == text@.len(),
            drop_leading_newlines(text@) == drop_leading_newlines(text@.subrange(i as int, len as int)),
        decreases len - i,
    {
        assert(text@.subrange(i as int, len as int).drop_first() =~= text@.subrange(i + 1, len as int));
        i = i + 1;
    }
    assert(drop_leading_newlines(text@.subrange(i as int, len as int)) == text@.subrange(i as int, len as int));
    let ghost start = out@;
    let mut j: usize = i;
    while j < len
        invariant
            i <= j <= len,
            len == text@.len(),
            out@ == start + escape_label(text@.subrange(i as int, j as int)),
        decreases len - j,
    {
        let c = text.get_char(j);
        if c == '\n' {
            out.append("<br align=\"left\" />");
        } else if c == '\t' {
            out.append("    ");
        } else {
            string_push(out, c);
        }
        assert(text@.subrange(i as int, j + 1).drop_last() =~= text@.subrange(i as int, j as int));
        j = j + 1;
    }
}

/// Appends a node of the diagram.
fn push_node_dot(out: &mut String, index: usize, listing: &String, has_edges: bool)
    ensures
        final(out)@ == old(out)@ + node_dot(index as nat, label_text(listing@), node_color(index as nat, has_edges)),
{
    out.append("node_");
    push_decimal(out, index as u64);
    out.append("[margin=0.0,label=<<table border=\"0\"><tr><td bgcolor=\"#AAAAAA\">Node ");
    push_decimal(out, index as u64);
    out.append("</td></tr><tr><td align=\"text\">");
    push_label(out, listing);
    out.append("<br align=\"left\" /></td></tr></table>>,shape=rectangle,color=");
    if index == 0 {
        out.append("darkgreen");
    } else if !has_edges {
        out.append("red4");
    } else {
        out.append("black");
    }
    out.append("]");
}

/// Appends an edge of the diagram.
#[verifier::rlimit(40)]
fn push_edge_dot(out: &mut String, edge: (usize, usize, EdgeType))
    ensures
        final(out)@ == old(out)@ + edge_dot(edge),
{
    out.append("node_");
    push_decimal(out, edge.0 as u64);
    out.append("->node_");
    push_decimal(out, edge.1 as u64);
    out.append("[color=");
    match edge.2 {
        EdgeType::ConditionalJump | EdgeType::Case(_) => out.append("darkgreen"),
        EdgeType::ConditionalFlow => out.append("red4"),
        _ => out.append("black"),
    }
    out.append(",");
    if let EdgeType::Case(value) = edge.2 {
        out.append("label=\"");
        push_signed_decimal(out, value);
        out.append("\"");
    }
    out.append("]");
}

/// Whether the instructions of a function can be made into a graph: there
/// are some, fewer than `u32::MAX`, the position after each fits a
/// `usize`, and the graph has fewer than `u32::MAX` edges.
pub open spec fn graphable(instrs: Seq<InstructionInfo>) -> bool {
    &&& instrs.len() > 0
    &&& instrs.len() < u32::MAX
    &&& positions_fit(instrs)
    &&& all_edges(instrs).len() < u32::MAX
}

/// Whether every climb up the dominator tree of a function's graph, from a
/// predecessor of a node where paths join, reaches that node's immediate
/// dominator.
pub open spec fn graph_exists(instrs: Seq<InstructionInfo>) -> bool {
    climbs_end(
        graph_links(instrs),
        graph_dominators(instrs),
        graph_blocks(instrs).len(),
        graph_blocks(instrs).len() as int,
    )
}

/// The control flow graph of a function: its nodes, the edges between
/// them, the immediate dominator and the domination frontier of each node.
pub struct FunctionGraph<'i> {
    instructions: &'i [InstructionInfo<'i>],
    graph: BlockGraph,
    dominators: Vec<Option<usize>>,
    frontiers: Vec<HashSet<usize>>,
}

impl<'i> FunctionGraph<'i> {
    /// The instructions of the function.
    pub closed spec fn code(&self) -> Seq<InstructionInfo<'i>> {
        self.instructions@
    }

    /// The nodes, as ranges of instruction indices.
    pub closed spec fn nodes(&self) -> Seq<(usize, usize)> {
        graph_nodes(self.graph)
    }

    /// The edges, source, target and kind.
    pub closed spec fn edges(&self) -> Seq<(usize, usize, EdgeType)> {
        graph_edges(self.graph)
    }

    /// The immediate dominator of each node.
    pub closed spec fn idoms(&self) -> Seq<Option<usize>> {
        self.dominators@
    }

    /// The domination frontier of each node.
    pub closed spec fn frontier_sets(&self) -> Seq<Set<usize>> {
        self.frontiers@.map_values(|f: HashSet<usize>| f@)
    }

    /// Whether this is the graph of a function with the given instructions,
    /// with its dominators and domination frontiers.
    pub open spec fn built_from(&self, instrs: Seq<InstructionInfo<'i>>) -> bool {
        let n = graph_blocks(instrs).len();
        &&& self.code() == instrs
        &&& self.nodes() == graph_blocks(instrs)
        &&& self.edges() == graph_links(instrs)
        &&& self.idoms() == graph_dominators(instrs)
        &&& self.frontier_sets().len() == n
        &&& forall|x: int|
            0 <= x < n ==> #[trigger] self.frontier_sets()[x] == frontier(
                graph_links(instrs),
                graph_dominators(instrs),
                n,
                x as usize,
            )
    }

    /// The reducer over this graph, from its first node.
    pub closed spec fn reducer<'a>(&'a self) -> CfgReducer<'a> {
        CfgReducer {
            graph: &self.graph,
            instructions: self.instructions,
            dominators: &self.dominators,
            root: 0,
            frontiers: &self.frontiers,
        }
    }

    /// The graph has a first node, every node spans instructions of the
    /// function, node indices fit a `u32`, and the edges, dominators and
    /// frontiers name nodes of the graph.
    #[verifier::type_invariant]
    closed spec fn inv(&self) -> bool {
        let n = graph_nodes(self.graph).len();
        &&& 0 < n < u32::MAX
        &&& forall|k: int|
            0 <= k < n ==> (#[trigger] graph_nodes(self.graph)[k]).0 <= graph_nodes(self.graph)[k].1
                <= self.instructions@.len()
        &&& edges_within(graph_edges(self.graph), n)
        &&& self.dominators@.len() == n
        &&& forall|i: int| 0 <= i < n ==> (#[trigger] self.dominators@[i] matches Some(d) ==> d < n)
        &&& self.frontiers@.len() == n
        &&& forall|x: int, v: usize| 0 <= x < n && #[trigger] self.frontiers@[x]@.contains(v) ==> v < n
    }

    /// Builds the graph of a function: splits its instructions into nodes,
    /// joins them by the jumps, switch cases and fall-throughs between
    /// them, drops the nodes that the first does not lead to, and finds the
    /// dominators and domination frontiers. `None` where a climb up the
    /// dominator tree from a predecessor of a node where paths join does
    /// not reach that node's immediate dominator.
    pub fn generate(function: &FunctionInfo<'i>) -> (r: Option<Self>)
        requires
            graphable(function.instructions@),
        ensures
            r is Some <==> graph_exists(function.instructions@),
            r matches Some(fg) ==> fg.built_from(function.instructions@),
    {
        let instructions = function.instructions;
        let ghost instrs = instructions@;
        let destinations = get_destinations(instructions);
        let blocks = block_ranges(instructions, &destinations);
        proof {
            lemma_blocks(instrs, destinations@);
        }
        let starts = block_starts(instructions, &blocks);
        let edges = block_edges(instructions, &destinations, &starts, &blocks);
        proof {
            lemma_all_edges_within(instrs, destinations@, blocks@, blocks@.len() as int);
        }
        let mut graph = new_graph();
        let mut k: usize = 0;
        while k < blocks.len()
            invariant
                k <= blocks@.len(),
                blocks@.len() <= instrs.len() < u32::MAX,
                graph_nodes(graph) == blocks@.take(k as int),
                graph_edges(graph) == Seq::<(usize, usize, EdgeType)>::empty(),
            decreases blocks@.len() - k,
        {
            add_node(&mut graph, blocks[k]);
            k = k + 1;
            assert(graph_nodes(graph) =~= blocks@.take(k as int));
        }
        assert(blocks@.take(k as int) =~= blocks@);
        let mut j: usize = 0;
        while j < edges.len()
            invariant
                j <= edges@.len(),
                edges@.len() < u32::MAX,
                edges_within(edges@, blocks@.len()),
                graph_nodes(graph) == blocks@,
                graph_edges(graph) == edges@.take(j as int),
            decreases edges@.len() - j,
        {
            let (a, b, kind) = edges[j];
            assert(edges@[j as int].0 < blocks@.len());
            add_edge(&mut graph, a, b, kind);
            j = j + 1;
            assert(graph_edges(graph) =~= edges@.take(j as int));
        }
        assert(edges@.take(j as int) =~= edges@);
        let ghost reach = reachable_from(edges@, 0);
        proof {
            assert(is_path(edges@, 0, seq![0usize], 0));
            assert(reach.contains(0));
            lemma_kept_count(blocks@, reach);
            lemma_kept_before_grows(reach, 0, blocks@.len());
            lemma_kept_before_bound(reach, blocks@.len());
            lemma_kept_edges_within(edges@, reach, blocks@.len());
            lemma_kept_from(blocks@, reach);
        }
        let graph = remove_unreachable(graph, 0);
        let ghost n = graph_nodes(graph).len();
        let dominators = immediate_dominators(&graph, 0);
        match domination_frontiers(&graph, &dominators) {
            None => None,
            Some(frontiers) => {
                proof {
                    assert forall|k: int| 0 <= k < n implies (#[trigger] graph_nodes(graph)[k]).0
                        <= graph_nodes(graph)[k].1 <= instructions@.len() by {
                        assert(blocks@.contains(graph_nodes(graph)[k]));
                        let i = choose|i: int| 0 <= i < blocks@.len() && blocks@[i] == graph_nodes(graph)[k];
                        assert(blocks@[i].0 < blocks@[i].1 <= instrs.len());
                    }
                }
                let fg = FunctionGraph { instructions, graph, dominators, frontiers };
                assert(fg.frontier_sets().len() == n);
                assert forall|x: int| 0 <= x < n implies #[trigger] fg.frontier_sets()[x] == frontier(
                    graph_links(instrs),
                    graph_dominators(instrs),
                    n,
                    x as usize,
                ) by {
                    assert(fg.frontier_sets()[x] == fg.frontiers@[x]@);
                }
                Some(fg)
            },
        }
    }

    /// The node at `node`, where there is one.
    pub fn get_node(&self, node: usize) -> (r: Option<FunctionGraphNode<'i>>)
        ensures
            node < self.nodes().len() ==> (r matches Some(found) && found.instructions@ == self.code().subrange(
                self.nodes()[node as int].0 as int,
                self.nodes()[node as int].1 as int,
            )),
            node >= self.nodes().len() ==> r is None,
    {
        proof {
            use_type_invariant(self);
        }
        if node >= u32::MAX as usize {
            return None;
        }
        match node_weight(&self.graph, node) {
            Some((from, to)) => {
                assert(graph_nodes(self.graph)[node as int] == (from, to));
                Some(FunctionGraphNode { instructions: slice_range(self.instructions, from, to) })
            },
            None => None,
        }
    }

    /// The listing of node `k`, as the formatter gives it.
    pub open spec fn node_listing<F: Fn(u32) -> String>(
        &self,
        formatter: &AssemblyFormatter,
        float_text: F,
        k: int,
    ) -> Seq<char> {
        join_lines(
            listing_after(
                formatter.shows_offsets(),
                formatter.max_bytes(),
                formatter.labels(),
                formatter.strings(),
                self.code().subrange(self.nodes()[k].0 as int, self.nodes()[k].1 as int),
                self.nodes()[k].1 - self.nodes()[k].0,
                false,
                rendered(float_text),
            ).0,
        )
    }

    /// A diagram of the graph in the dot language: each node a table with
    /// its listing, the first green and those no edge leaves dark red, then
    /// each edge coloured by its kind, a case labelled by its value.
    pub fn to_dot_string<F: Fn(u32) -> String + Copy>(&self, formatter: &AssemblyFormatter, float_text: F) -> (r: String)
        requires
            listable(formatter.labels(), self.code()),
            3 * formatter.max_bytes() + 2 <= usize::MAX,
            renders_floats(float_text),
        ensures
            r@ == dot_text(
                Seq::new(self.nodes().len(), |k: int| self.node_listing(formatter, float_text, k)),
                Seq::new(self.nodes().len(), |k: int| outgoing_edges(self.edges(), k as usize).len() > 0),
                self.edges(),
            ),
    {
        proof {
            use_type_invariant(self);
        }
        let ghost listings = Seq::new(self.nodes().len(), |k: int| self.node_listing(formatter, float_text, k));
        let ghost has_edges = Seq::new(self.nodes().len(), |k: int| outgoing_edges(self.edges(), k as usize).len() > 0);
        let mut diagram = String::new();
        diagram.append(
            "digraph{graph[splines=ortho,rankdir=TB,concentrate=true]node[fontname=\"Consolas\",fontcolor=black]",
        );
        let n = self.dominators.len();
        let mut k: usize = 0;
        while k < n
            invariant
                n == self.nodes().len(),
                k <= n,
                listable(formatter.labels(), self.code()),
                3 * formatter.max_bytes() + 2 <= usize::MAX,
                renders_floats(float_text),
                listings == Seq::new(self.nodes().len(), |k: int| self.node_listing(formatter, float_text, k)),
                has_edges == Seq::new(self.nodes().len(), |k: int| outgoing_edges(self.edges(), k as usize).len() > 0),
                diagram@ == dot_header() + nodes_dot(listings, has_edges, k as int),
            decreases n - k,
        {
            proof {
                use_type_invariant(self);
            }
            let (from, to) = match node_weight(&self.graph, k) {
                Some(w) => w,
                None => (0, 0),
            };
            let instructions = slice_range(self.instructions, from, to);
            proof {
                assert forall|i: int| 0 <= i < instructions@.len() implies {
                    &&& crate::formatters::instruction_text::targets_labeled(#[trigger] instructions@[i].instruction, formatter.labels())
                    &&& instructions@[i].instruction is Enter ==> formatter.labels().contains_key(instructions@[i].pos)
                    &&& instructions@[i].bytes@.len() + 8 <= usize::MAX
                } by {
                    assert(instructions@[i] == self.code()[from + i]);
                }
            }
            let listing = formatter.format(instructions, false, float_text);
            let has_out = outgoing(&self.graph, k).len() > 0;
            push_node_dot(&mut diagram, k, &listing, has_out);
            proof {
                assert(listings[k as int] == listing@);
                assert(has_edges[k as int] == has_out);
            }
            k = k + 1;
            assert(diagram@ =~= dot_header() + nodes_dot(listings, has_edges, k as int));
        }
        let edges = graph_edge_list(&self.graph);
        let mut j: usize = 0;
        while j < edges.len()
            invariant
                j <= edges@.len(),
                edges@ == self.edges(),
                diagram@ == dot_header() + nodes_dot(listings, has_edges, n as int) + edges_dot(edges@, j as int),
            decreases edges@.len() - j,
        {
            push_edge_dot(&mut diagram, edges[j]);
            j = j + 1;
            assert(diagram@ =~= dot_header() + nodes_dot(listings, has_edges, n as int) + edges_dot(edges@, j as int));
        }
        diagram.append("}");
        diagram
    }

    /// The constructs of the graph's nodes, reduced from its first node;
    /// `None` where the walk reaches a node whose edges form a shape the
    /// reducer does not handle.
    pub fn reduce_control_flow(&self) -> (r: Option<Result<HashMap<usize, ControlFlow>, NodeReductionError>>)
        ensures
            r is None ==> self.reducer().walk_blocked(0),
            r matches Some(Ok(map)) ==> self.reducer().walk_ends_with(0, map@) && self.reducer().walk_result(0, map@),
            r matches Some(Err(e)) ==> self.reducer().walk_fails_with(0, e),
    {
        proof {
            use_type_invariant(self);
        }
        let reducer = CfgReducer {
            graph: &self.graph,
            instructions: self.instructions,
            dominators: &self.dominators,
            root: 0,
            frontiers: &self.frontiers,
        };
        assert(reducer == self.reducer());
        reducer.walk(0)
    }
}

} // verus!
