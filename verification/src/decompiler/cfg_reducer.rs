use crate::common::bubble_sort::{
    answers_as, bubble_passes, bubble_sort_within, bubble_sorted, lemma_passes_map,
    lemma_sorted_map, passes_end, try_bubble_sort_by,
};
use crate::decompiler::control_flow::{flow_type_of, pushed_nodes, CaseValue, ControlFlow, EdgeType, FlowType};
use crate::decompiler::graph::{
    graph_edges, graph_nodes, incoming, incoming_sources, node_weight, outgoing, outgoing_edges, BlockGraph,
};
use crate::decompiler::dominance::lemma_incoming_within;
use crate::decompiler::function_graph::{below, edge_is, edges_within, lemma_below, lemma_outgoing_edges};
use crate::disassembler::instruction::{Instruction, InstructionInfo};
use std::cmp::Ordering;
use std::collections::{HashMap, HashSet};
use vstd::prelude::*;

verus! {

broadcast use {vstd::std_specs::hash::group_hash_axioms, vstd::std_specs::vec::group_vec_axioms};

/// Falls back to another computation when a search found nothing.
pub trait InnerOrElse: Sized {
    /// `self`, unless it is a success with nothing in it; then what `fun`
    /// gives.
    fn inner_or_else<F: FnOnce() -> Self>(self, fun: F) -> (r: Self)
        requires
            call_requires(fun, ()),
    ;
}

impl<T, E> InnerOrElse for Result<Option<T>, E> {
    fn inner_or_else<F: FnOnce() -> Self>(self, fun: F) -> (r: Self)
        ensures
            self matches Ok(None) ==> call_ensures(fun, (), r),
            !(self matches Ok(None)) ==> r == self,
    {
        if let Ok(None) = self {
            fun()
        } else {
            self
        }
    }
}

/// Why a node of a function's graph could not be turned into a construct.
#[derive(Debug)]
pub struct NodeReductionError {
    pub node: usize,
    pub message: &'static str,
}

/// Turns the graph of a function into structured constructs, from its
/// nodes, edges, dominators and domination frontiers.
pub struct CfgReducer<'g> {
    pub graph: &'g BlockGraph,
    pub instructions: &'g [InstructionInfo<'g>],
    pub dominators: &'g Vec<Option<usize>>,
    pub root: usize,
    pub frontiers: &'g Vec<HashSet<usize>>,
}

/// Whether `node` is among the dominators of `x` met within `fuel` steps up
/// the dominator tree: `x` itself, its immediate dominator and so on, up to
/// `root`. A node other than the root without an immediate dominator is
/// one the root does not reach, and has no dominators.
pub open spec fn dominated_by(idoms: Seq<Option<usize>>, root: usize, x: usize, node: usize, fuel: nat) -> bool
    decreases fuel,
{
    if x != root && idoms[x as int] is None {
        false
    } else if x == node {
        true
    } else if fuel == 0 || x == root {
        false
    } else {
        dominated_by(idoms, root, idoms[x as int]->0, node, (fuel - 1) as nat)
    }
}

/// The sources in `srcs` that `node` dominates, in order.
pub open spec fn dominated_sources(
    srcs: Seq<usize>,
    idoms: Seq<Option<usize>>,
    root: usize,
    node: usize,
    fuel: nat,
) -> Seq<usize>
    decreases srcs.len(),
{
    if srcs.len() == 0 {
        seq![]
    } else {
        dominated_sources(srcs.drop_last(), idoms, root, node, fuel) + if dominated_by(
            idoms,
            root,
            srcs.last(),
            node,
            fuel,
        ) {
            seq![srcs.last()]
        } else {
            seq![]
        }
    }
}

/// Whether a search for the node after a construct follows an edge of
/// this kind: jumps and plain flow, not the fall-through of a condition or
/// a switch case.
pub open spec fn steps_on(kind: EdgeType) -> bool {
    kind is Jump || kind is ConditionalJump || kind is Flow
}

/// Whether an edge that the search follows leads from `a` to `b`.
pub open spec fn step_edge(edges: Seq<(usize, usize, EdgeType)>, a: usize, b: usize) -> bool {
    exists|j: int| 0 <= j < edges.len() && (#[trigger] edges[j]).0 == a && edges[j].1 == b && steps_on(edges[j].2)
}

/// Whether `path` starts at a node of `initial` and follows edges that the
/// search follows, out of nodes that are not candidates.
pub open spec fn search_path(
    edges: Seq<(usize, usize, EdgeType)>,
    initial: Set<usize>,
    candidates: Set<usize>,
    path: Seq<usize>,
) -> bool {
    &&& path.len() >= 1
    &&& initial.contains(path[0])
    &&& forall|i: int|
        0 <= i < path.len() - 1 ==> !candidates.contains(#[trigger] path[i]) && step_edge(edges, path[i], path[i + 1])
}

/// Whether a search path leads to `x`.
pub open spec fn search_reaches(
    edges: Seq<(usize, usize, EdgeType)>,
    initial: Set<usize>,
    candidates: Set<usize>,
    x: usize,
) -> bool {
    exists|path: Seq<usize>| #[trigger] search_path(edges, initial, candidates, path) && path.last() == x
}

/// The candidates that the search reaches.
pub open spec fn found_after(edges: Seq<(usize, usize, EdgeType)>, initial: Set<usize>, candidates: Set<usize>) -> Set<
    usize,
> {
    Set::new(|c: usize| candidates.contains(c) && search_reaches(edges, initial, candidates, c))
}

/// The one node of a set of at most one node; an error for `node` where it
/// holds more.
pub open spec fn at_most_one(found: Set<usize>, node: usize) -> Result<Option<usize>, NodeReductionError> {
    if found.len() == 0 {
        Ok(None)
    } else if found.len() == 1 {
        Ok(Some(found.choose()))
    } else {
        Err(NodeReductionError { node, message: "multiple valid after node frontiers" })
    }
}

/// A search that reaches a node that is not a candidate reaches the nodes
/// its followed edges lead to.
proof fn lemma_search_step(
    edges: Seq<(usize, usize, EdgeType)>,
    initial: Set<usize>,
    candidates: Set<usize>,
    a: usize,
    b: usize,
)
    requires
        search_reaches(edges, initial, candidates, a),
        !candidates.contains(a),
        step_edge(edges, a, b),
    ensures
        search_reaches(edges, initial, candidates, b),
{
    let path = choose|path: Seq<usize>| #[trigger] search_path(edges, initial, candidates, path) && path.last() == a;
    let longer = path.push(b);
    assert forall|i: int| 0 <= i < longer.len() - 1 implies !candidates.contains(#[trigger] longer[i]) && step_edge(
        edges,
        longer[i],
        longer[i + 1],
    ) by {
        if i < path.len() - 1 {
            assert(longer[i] == path[i] && longer[i + 1] == path[i + 1]);
        } else {
            assert(longer[i] == a && longer[i + 1] == b);
        }
    }
    assert(longer[0] == path[0]);
    assert(search_path(edges, initial, candidates, longer));
}

/// A set that holds the starting nodes, and every node a followed edge
/// leads to from one of its nodes that is not a candidate, holds the end of
/// every search path.
proof fn lemma_search_closed(
    edges: Seq<(usize, usize, EdgeType)>,
    initial: Set<usize>,
    candidates: Set<usize>,
    set: Set<usize>,
    path: Seq<usize>,
)
    requires
        forall|x: usize| #[trigger] initial.contains(x) ==> set.contains(x),
        forall|j: int|
            0 <= j < edges.len() && set.contains((#[trigger] edges[j]).0) && !candidates.contains(edges[j].0)
                && steps_on(edges[j].2) ==> set.contains(edges[j].1),
        search_path(edges, initial, candidates, path),
    ensures
        set.contains(path.last()),
    decreases path.len(),
{
    if path.len() == 1 {
        assert(initial.contains(path[0]));
    } else {
        let shorter = path.drop_last();
        assert forall|i: int| 0 <= i < shorter.len() - 1 implies !candidates.contains(#[trigger] shorter[i])
            && step_edge(edges, shorter[i], shorter[i + 1]) by {
            assert(shorter[i] == path[i] && shorter[i + 1] == path[i + 1]);
            assert(!candidates.contains(path[i]) && step_edge(edges, path[i], path[i + 1]));
        }
        assert(shorter[0] == path[0]);
        lemma_search_closed(edges, initial, candidates, set, shorter);
        let i = path.len() - 2;
        assert(!candidates.contains(path[i]) && step_edge(edges, path[i], path[i + 1]));
        let j = choose|j: int|
            0 <= j < edges.len() && (#[trigger] edges[j]).0 == path[i] && edges[j].1 == path[i + 1] && steps_on(
                edges[j].2,
            );
        assert(shorter.last() == path[i]);
    }
}

/// The value that leads along an edge of a switch: its case value, or the
/// default for the fall-through.
pub open spec fn case_value(kind: EdgeType) -> CaseValue {
    match kind {
        EdgeType::Case(v) => CaseValue::Value(v),
        _ => CaseValue::Default,
    }
}

/// Whether an edge is one a switch has: a case or the fall-through.
pub open spec fn is_switch_edge(kind: EdgeType) -> bool {
    kind is Case || kind is ConditionalFlow
}

/// The cases of a switch with the values that lead to each: neighbouring
/// edges to the same node form one case, in the order the edges come.
pub open spec fn group_cases(edges: Seq<(usize, EdgeType)>) -> Seq<(usize, Seq<CaseValue>)>
    decreases edges.len(),
{
    if edges.len() == 0 {
        seq![]
    } else {
        let groups = group_cases(edges.drop_last());
        let (dest, kind) = edges.last();
        if groups.len() > 0 && groups.last().0 == dest {
            groups.update(groups.len() - 1, (dest, groups.last().1.push(case_value(kind))))
        } else {
            groups.push((dest, seq![case_value(kind)]))
        }
    }
}

/// The cases of a switch lead to nodes its edges lead to.
proof fn lemma_group_bound(edges: Seq<(usize, EdgeType)>, n: nat)
    requires
        forall|j: int| 0 <= j < edges.len() ==> (#[trigger] edges[j]).0 < n,
    ensures
        forall|i: int| 0 <= i < group_cases(edges).len() ==> (#[trigger] group_cases(edges)[i]).0 < n,
    decreases edges.len(),
{
    if edges.len() > 0 {
        assert forall|j: int| 0 <= j < edges.drop_last().len() implies (#[trigger] edges.drop_last()[j]).0 < n by {
            assert(edges.drop_last()[j] == edges[j]);
        }
        lemma_group_bound(edges.drop_last(), n);
        assert(edges[edges.len() - 1] == edges.last());
        let g = group_cases(edges.drop_last());
        let (dest, kind) = edges.last();
        assert(dest < n);
        assert forall|i: int| 0 <= i < group_cases(edges).len() implies (#[trigger] group_cases(edges)[i]).0 < n by {
            if i < g.len() && !(g.len() > 0 && g.last().0 == dest && i == g.len() - 1) {
                assert(group_cases(edges)[i] == g[i]);
            }
        }
    }
}

/// The cases of a switch, their values taken by view.
pub open spec fn cases_view(cases: Seq<(usize, Vec<CaseValue>)>) -> Seq<(usize, Seq<CaseValue>)> {
    cases.map_values(|c: (usize, Vec<CaseValue>)| (c.0, c.1@))
}

/// How many passes sorting `n` cases may take before the switch is taken
/// for one the reducer does not handle: `n` squared plus one, or `n` where
/// `n` squared would not fit in a machine word.
pub open spec fn sort_limit(n: nat) -> int {
    if n <= 0xffff {
        (n * n + 1) as int
    } else {
        n as int
    }
}

/// How many passes sorting `n` cases may take.
fn pass_limit(n: usize) -> (r: usize)
    ensures
        r == sort_limit(n as nat),
{
    if n <= 0xffff {
        assert(n * n <= 0xffff * 0xffff) by (nonlinear_arith)
            requires
                n <= 0xffff,
        ;
        n * n + 1
    } else {
        n
    }
}

/// The nodes the cases lead to.
pub open spec fn group_nodes(groups: Seq<(usize, Seq<CaseValue>)>) -> Set<usize> {
    Set::new(|d: usize| exists|i: int| 0 <= i < groups.len() && (#[trigger] groups[i]).0 == d)
}

/// The edges in `out` whose targets are not in `frontier`, in order.
pub open spec fn dominated_part(out: Seq<(usize, EdgeType)>, frontier: Set<usize>) -> Seq<(usize, EdgeType)>
    decreases out.len(),
{
    if out.len() == 0 {
        seq![]
    } else {
        dominated_part(out.drop_last(), frontier) + if frontier.contains(out.last().0) {
            seq![]
        } else {
            seq![out.last()]
        }
    }
}

/// The edges in `out` whose targets are in `frontier`, in order.
pub open spec fn frontier_part(out: Seq<(usize, EdgeType)>, frontier: Set<usize>) -> Seq<(usize, EdgeType)>
    decreases out.len(),
{
    if out.len() == 0 {
        seq![]
    } else {
        frontier_part(out.drop_last(), frontier) + if frontier.contains(out.last().0) {
            seq![out.last()]
        } else {
            seq![]
        }
    }
}

/// The branches of a condition among two edges, the fall-through first
/// and the jump second, in either order of the edges.
pub open spec fn condition_pair(edges: Seq<(usize, EdgeType)>) -> Option<(usize, usize)> {
    if edges.len() == 2 && edges[0].1 is ConditionalJump && edges[1].1 is ConditionalFlow {
        Some((edges[1].0, edges[0].0))
    } else if edges.len() == 2 && edges[0].1 is ConditionalFlow && edges[1].1 is ConditionalJump {
        Some((edges[0].0, edges[1].0))
    } else {
        None
    }
}

/// Whether the edges hold a case at either end.
pub open spec fn has_case_end(edges: Seq<(usize, EdgeType)>) -> bool {
    edges.len() > 0 && (edges.last().1 is Case || edges[0].1 is Case)
}

/// The first result, unless it is a success with nothing in it.
pub open spec fn or_else(
    first: Result<Option<ControlFlow>, NodeReductionError>,
    second: Result<Option<ControlFlow>, NodeReductionError>,
) -> Result<Option<ControlFlow>, NodeReductionError> {
    if first matches Ok(None) {
        second
    } else {
        first
    }
}

/// The construct found, or an error for `node` where none was.
pub open spec fn found_or_unrecognized(node: usize, found: Result<Option<ControlFlow>, NodeReductionError>) -> Result<
    ControlFlow,
    NodeReductionError,
> {
    match found {
        Err(e) => Err(e),
        Ok(Some(flow)) => Ok(flow),
        Ok(None) => Err(NodeReductionError { node, message: "Unrecognized control flow" }),
    }
}

/// Whether a construct starts at a node below `n` and leads only to nodes
/// below `n`.
pub open spec fn flow_within(flow: ControlFlow, n: nat) -> bool {
    &&& flow.node_spec() < n
    &&& forall|i: int| 0 <= i < pushed_nodes(flow).len() ==> (#[trigger] pushed_nodes(flow)[i]) < n
}

/// The one node of a set of nodes below `n` is below `n`.
proof fn lemma_at_most_one_within(found: Set<usize>, node: usize, n: nat)
    requires
        n <= usize::MAX + 1,
        forall|x: usize| #[trigger] found.contains(x) ==> x < n,
    ensures
        at_most_one(found, node) matches Ok(Some(x)) ==> x < n,
{
    lemma_below(n);
    assert(found.subset_of(below(n)));
    vstd::set_lib::lemma_set_subset_finite(below(n), found);
    if found.len() == 1 {
        assert(found.contains(found.choose()));
    }
}

/// An optional node set aside at `depth`.
pub open spec fn opt_entry(node: Option<usize>, depth: usize) -> Seq<(usize, usize)> {
    match node {
        Some(n) => seq![(n, depth)],
        None => seq![],
    }
}

/// The nodes a construct leads to, each with the depth it is set aside
/// at: the node after it at `depth`, its branches one level deeper.
pub open spec fn pushed_entries(flow: ControlFlow, depth: usize) -> Seq<(usize, usize)> {
    let deeper = (depth + 1) as usize;
    match flow {
        ControlFlow::If { then, after, .. } => opt_entry(after, depth) + seq![(then, deeper)],
        ControlFlow::IfElse { then, els, after, .. } => opt_entry(after, depth) + seq![(els, deeper), (then, deeper)],
        ControlFlow::AndOr { with, after, .. } => seq![(after, depth), (with, deeper)],
        ControlFlow::WhileLoop { body, after, .. } => opt_entry(after, depth) + seq![(body, deeper)],
        ControlFlow::Flow { after, .. } => seq![(after, depth)],
        ControlFlow::Switch { cases, after, .. } => opt_entry(after, depth) + cases@.map_values(
            |c: (usize, Vec<CaseValue>)| (c.0, deeper),
        ),
        _ => seq![],
    }
}

/// The entries set aside for a construct are its nodes, at most one level
/// deeper.
proof fn lemma_pushed_entries(flow: ControlFlow, depth: usize)
    requires
        depth < usize::MAX,
    ensures
        pushed_entries(flow, depth).len() == pushed_nodes(flow).len(),
        forall|i: int|
            0 <= i < pushed_nodes(flow).len() ==> (#[trigger] pushed_entries(flow, depth)[i]).0 == pushed_nodes(flow)[i]
                && pushed_entries(flow, depth)[i].1 <= depth + 1,
{
    let e = pushed_entries(flow, depth);
    let p = pushed_nodes(flow);
    assert forall|i: int| 0 <= i < p.len() implies (#[trigger] e[i]).0 == p[i] && e[i].1 <= depth + 1 by {
        match flow {
            ControlFlow::Switch { cases, after, .. } => {
                if i >= opt_entry(after, depth).len() {
                    assert(e[i] == cases@.map_values(|c: (usize, Vec<CaseValue>)| (c.0, (depth + 1) as usize))[i - opt_entry(after, depth).len()]);
                }
            },
            _ => {},
        }
    }
}

/// The state of a walk over a graph's nodes: the nodes set aside with their
/// depths, the enclosing constructs, the claimed nodes, and the constructs
/// found so far.
pub struct WalkState {
    pub stack: Seq<(usize, usize)>,
    pub parents: Seq<FlowType>,
    pub claimed: Set<usize>,
    pub map: Map<usize, ControlFlow>,
}

/// The state a walk from `root` starts in.
pub open spec fn walk_start(root: usize) -> WalkState {
    WalkState { stack: seq![(root, 0usize)], parents: seq![], claimed: Set::empty(), map: Map::empty() }
}

/// The enclosing constructs of a node at `depth`: those up to that depth.
pub open spec fn kept_parents(parents: Seq<FlowType>, depth: usize) -> Seq<FlowType> {
    if depth < parents.len() {
        parents.take(depth + 1)
    } else {
        parents
    }
}

/// Whether a walk's stack holds `t`.
pub open spec fn in_stack(stack: Seq<(usize, usize)>, t: usize) -> bool {
    exists|j: int| 0 <= j < stack.len() && stack[j].0 == t
}

/// Whether an instruction is a bitwise `and` or `or`.
pub open spec fn is_and_or_instruction(instruction: Instruction) -> bool {
    instruction is BitwiseAnd || instruction is BitwiseOr
}

/// The construct `i` places from the end of `parents`.
pub open spec fn from_end(parents: Seq<FlowType>, i: int) -> FlowType {
    parents[parents.len() - 1 - i]
}

/// Whether `candidate` may follow a construct: no construct has claimed it,
/// and none of the enclosing constructs starts at it or continues at it.
pub open spec fn valid_after(candidate: usize, parents: Seq<FlowType>, claimed: Set<usize>) -> bool {
    &&& !claimed.contains(candidate)
    &&& forall|i: int|
        0 <= i < parents.len() ==> (#[trigger] parents[i]).node_of() != candidate && parents[i].after_of()
            != Some(candidate)
}

/// The node after the innermost enclosing construct that has one.
pub open spec fn first_after(parents: Seq<FlowType>) -> Option<usize>
    decreases parents.len(),
{
    if parents.len() == 0 {
        None
    } else {
        match parents.last().after_of() {
            Some(a) => Some(a),
            None => first_after(parents.drop_last()),
        }
    }
}

/// Whether a jump to `target` leaves a loop or switch, looking outwards
/// from the construct `i` places from the end: each loop or switch found
/// continues at the node of a loop right around it, or else at the node
/// after the construct right around it, which is then passed over; the
/// outermost one continues at its own node after.
pub open spec fn breaks_to(parents: Seq<FlowType>, i: int, target: usize) -> bool
    decreases parents.len() - i,
{
    if i < 0 || i >= parents.len() {
        false
    } else {
        let f = from_end(parents, i);
        match f {
            FlowType::NonBreakable { .. } => breaks_to(parents, i + 1, target),
            _ => {
                let (after, next) = if i + 1 < parents.len() {
                    match from_end(parents, i + 1) {
                        FlowType::Loop { node, .. } => (Some(node), i + 1),
                        other => (other.after_of(), i + 2),
                    }
                } else {
                    (f.after_of(), i + 1)
                };
                after == Some(target) || breaks_to(parents, next, target)
            },
        }
    }
}

/// The loop that a jump to `target` continues, looking outwards from the
/// construct `i` places from the end: the first loop that starts at
/// `target` or that `target` has an edge into, provided some construct
/// within it continues somewhere (`seen_after`, or a loop passed over, or
/// a construct with a node after it).
pub open spec fn continued_loop(
    parents: Seq<FlowType>,
    i: int,
    target: usize,
    edges: Seq<(usize, usize, EdgeType)>,
    seen_after: bool,
) -> Option<usize>
    decreases parents.len() - i,
{
    if i < 0 || i >= parents.len() {
        None
    } else {
        match from_end(parents, i) {
            FlowType::Loop { node, .. } => if node == target || incoming_sources(edges, node).contains(target) {
                if seen_after {
                    Some(node)
                } else {
                    None
                }
            } else {
                continued_loop(parents, i + 1, target, edges, true)
            },
            other => continued_loop(parents, i + 1, target, edges, seen_after || other.after_of() is Some),
        }
    }
}

/// The cases of a switch with the values that lead to each, from its
/// edges taken from the last: neighbouring edges to the same node form one
/// case.
fn group_switch_cases(cases: &[(usize, EdgeType)]) -> (r: Vec<CaseGroup>)
    ensures
        cases_view(r@) == group_cases(cases@.reverse()),
{
        let ghost rev = cases@.reverse();
        let len = cases.len();
        let mut groups: Vec<(usize, Vec<CaseValue>)> = Vec::new();
        let mut k: usize = 0;
        while k < len
            invariant
                len == cases@.len(),
                rev == cases@.reverse(),
                k <= len,
                cases_view(groups@) == group_cases(rev.take(k as int)),
            decreases len - k,
        {
            let (dest, kind) = cases[len - 1 - k];
            let value = match kind {
                EdgeType::Case(v) => CaseValue::Value(v),
                _ => CaseValue::Default,
            };
            let ghost prev = groups@;
            proof {
                let t = rev.take(k + 1);
                assert(t.drop_last() =~= rev.take(k as int));
                assert(t.last() == cases@[len - 1 - k]);
            }
            let glen = groups.len();
            if glen > 0 && groups[glen - 1].0 == dest {
                let (d, mut values) = groups.pop().unwrap();
                values.push(value);
                groups.push((d, values));
                assert(cases_view(groups@) =~= cases_view(prev).update(glen - 1, (dest, cases_view(prev).last().1.push(value))));
            } else {
                let mut values: Vec<CaseValue> = Vec::new();
                values.push(value);
                groups.push((dest, values));
                assert(cases_view(groups@) =~= cases_view(prev).push((dest, seq![value])));
            }
            k = k + 1;
        }
        assert(rev.take(k as int) =~= rev);
        groups
}

/// A case of a switch: the node it leads to and the values that lead there.
pub type CaseGroup = (usize, Vec<CaseValue>);

impl<'g> CfgReducer<'g> {
    /// The number of nodes.
    pub open spec fn node_count(&self) -> nat {
        graph_nodes(*self.graph).len()
    }

    /// The edges, source, target and kind.
    pub open spec fn edges(&self) -> Seq<(usize, usize, EdgeType)> {
        graph_edges(*self.graph)
    }

    /// The domination frontier of node `x`.
    pub open spec fn front(&self, x: usize) -> Set<usize> {
        self.frontiers@[x as int]@
    }

    /// The dominators, frontiers and edges describe the nodes of the graph,
    /// and every node spans instructions.
    pub open spec fn wf(&self) -> bool {
        let n = self.node_count();
        &&& n < u32::MAX
        &&& self.root < n
        &&& self.dominators@.len() == n
        &&& forall|i: int| 0 <= i < n ==> (#[trigger] self.dominators@[i] matches Some(d) ==> d < n)
        &&& self.frontiers@.len() == n
        &&& forall|x: int, v: usize| 0 <= x < n && #[trigger] self.frontiers@[x]@.contains(v) ==> v < n
        &&& edges_within(self.edges(), n)
        &&& forall|k: int|
            0 <= k < n ==> (#[trigger] graph_nodes(*self.graph)[k]).0 <= graph_nodes(*self.graph)[k].1
                <= self.instructions@.len()
    }

    /// The one node that `node` dominates among the sources of the edges
    /// into the one node of its domination frontier: none where the
    /// frontier does not hold exactly one node, or where not exactly one
    /// such edge comes from a node that `node` dominates.
    pub open spec fn singular_dominated(&self, node: usize) -> Option<usize> {
        if self.front(node).len() != 1 {
            None
        } else {
            let srcs = dominated_sources(
                incoming_sources(self.edges(), self.front(node).choose()),
                self.dominators@,
                self.root,
                node,
                self.node_count(),
            );
            if srcs.len() == 1 {
                Some(srcs[0])
            } else {
                None
            }
        }
    }

    /// Whether the node found by `singular_dominated` ends with a bitwise
    /// `and` or `or`.
    pub open spec fn and_or_node(&self, node: usize) -> bool {
        match self.singular_dominated(node) {
            None => false,
            Some(last) => {
                let (from, to) = graph_nodes(*self.graph)[last as int];
                from < to && is_and_or_instruction(self.instructions@[to - 1].instruction)
            },
        }
    }

    /// Whether `node` is among the dominators of `x`.
    fn is_dominated_by(&self, x: usize, node: usize) -> (r: bool)
        requires
            self.wf(),
            x < self.node_count(),
        ensures
            r == dominated_by(self.dominators@, self.root, x, node, self.node_count()),
    {
        let n = self.dominators.len();
        let mut current = x;
        let mut fuel = n;
        while true
            invariant
                self.wf(),
                n == self.node_count(),
                current < n,
                fuel <= n,
                dominated_by(self.dominators@, self.root, x, node, n as nat) == dominated_by(
                    self.dominators@,
                    self.root,
                    current,
                    node,
                    fuel as nat,
                ),
            decreases fuel,
        {
            if current != self.root && self.dominators[current].is_none() {
                return false;
            }
            if current == node {
                return true;
            }
            if fuel == 0 || current == self.root {
                return false;
            }
            current = self.dominators[current].unwrap();
            fuel = fuel - 1;
        }
        false
    }

    /// The one node that `node` dominates among the sources of the edges
    /// into the one node of its domination frontier.
    pub fn last_singular_dominated_node(&self, node: usize) -> (r: Option<usize>)
        requires
            self.wf(),
            node < self.node_count(),
        ensures
            r == self.singular_dominated(node),
            r matches Some(l) ==> l < self.node_count(),
    {
        let frontier = &self.frontiers[node];
        if frontier.len() != 1 {
            return None;
        }
        let n = self.dominators.len();
        let ghost f = self.front(node);
        proof {
            lemma_below(n as nat);
            assert(f.subset_of(below(n as nat)));
            vstd::set_lib::lemma_set_subset_finite(below(n as nat), f);
            Set::lemma_is_singleton(f);
        }
        let mut x: usize = 0;
        while x < n && !frontier.contains(&x)
            invariant
                self.wf(),
                n == self.node_count(),
                node < n,
                f == self.front(node),
                *frontier == self.frontiers@[node as int],
                f.is_singleton(),
                x <= n,
                forall|y: usize| y < x ==> !f.contains(y),
            decreases n - x,
        {
            x = x + 1;
        }
        proof {
            let c = f.choose();
            assert(f.contains(c));
            assert(c < n);
            assert(x < n && f.contains(x));
            assert(x == c);
        }
        let sources = incoming(self.graph, x);
        proof {
            lemma_incoming_within(self.edges(), x, n as nat);
        }
        let mut found: Vec<usize> = Vec::new();
        let mut k: usize = 0;
        while k < sources.len()
            invariant
                self.wf(),
                n == self.node_count(),
                sources@ == incoming_sources(self.edges(), x),
                forall|j: int| 0 <= j < sources@.len() ==> (#[trigger] sources@[j]) < n,
                k <= sources@.len(),
                found@ == dominated_sources(sources@.take(k as int), self.dominators@, self.root, node, n as nat),
                forall|j: int| 0 <= j < found@.len() ==> (#[trigger] found@[j]) < n,
            decreases sources@.len() - k,
        {
            if self.is_dominated_by(sources[k], node) {
                found.push(sources[k]);
            }
            proof {
                let t = sources@.take(k + 1);
                assert(t.drop_last() =~= sources@.take(k as int));
                assert(t.last() == sources@[k as int]);
            }
            k = k + 1;
        }
        assert(sources@.take(k as int) =~= sources@);
        if found.len() == 1 {
            Some(found[0])
        } else {
            None
        }
    }

    /// Whether the node found by `last_singular_dominated_node` ends with a
    /// bitwise `and` or `or`.
    pub fn is_and_or_node(&self, node: usize) -> (r: bool)
        requires
            self.wf(),
            node < self.node_count(),
        ensures
            r == self.and_or_node(node),
    {
        match self.last_singular_dominated_node(node) {
            None => false,
            Some(last) => {
                assert(last < self.node_count());
                let (from, to) = match node_weight(self.graph, last) {
                    Some(w) => w,
                    None => {
                        return false;
                    },
                };
                if from < to {
                    match self.instructions[to - 1].instruction {
                        Instruction::BitwiseAnd | Instruction::BitwiseOr => true,
                        _ => false,
                    }
                } else {
                    false
                }
            },
        }
    }
    /// Whether `candidate` may follow a construct.
    pub fn is_valid_after_node(&self, candidate: usize, parents: &[FlowType], claimed_nodes: &HashSet<usize>) -> (r:
        bool)
        ensures
            r == valid_after(candidate, parents@, claimed_nodes@),
    {
        if claimed_nodes.contains(&candidate) {
            return false;
        }
        let mut i: usize = 0;
        while i < parents.len()
            invariant
                i <= parents@.len(),
                forall|j: int|
                    0 <= j < i ==> (#[trigger] parents@[j]).node_of() != candidate && parents@[j].after_of()
                        != Some(candidate),
            decreases parents@.len() - i,
        {
            let (node, after) = match parents[i] {
                FlowType::Loop { node, after } => (node, after),
                FlowType::Switch { node, after } => (node, after),
                FlowType::NonBreakable { node, after } => (node, after),
            };
            let hit = match after {
                Some(a) => a == candidate,
                None => false,
            };
            if hit || node == candidate {
                return false;
            }
            i = i + 1;
        }
        true
    }

    /// The node after the innermost enclosing construct that has one.
    pub fn get_first_after(&self, parents: &[FlowType]) -> (r: Option<usize>)
        ensures
            r == first_after(parents@),
    {
        let mut i: usize = parents.len();
        assert(parents@.take(i as int) =~= parents@);
        while i > 0
            invariant
                i <= parents@.len(),
                first_after(parents@) == first_after(parents@.take(i as int)),
            decreases i,
        {
            let after = match parents[i - 1] {
                FlowType::Loop { after, .. } => after,
                FlowType::Switch { after, .. } => after,
                FlowType::NonBreakable { after, .. } => after,
            };
            assert(parents@.take(i as int).drop_last() =~= parents@.take(i - 1));
            assert(parents@.take(i as int).last() == parents@[i - 1]);
            if after.is_some() {
                return after;
            }
            i = i - 1;
        }
        assert(parents@.take(0) =~= Seq::<FlowType>::empty());
        None
    }

    /// A `break` out of the innermost loop or switch, where a jump from
    /// `node` to `target` leaves one.
    pub fn try_reduce_break(&self, node: usize, target: usize, parents: &[FlowType]) -> (r: Option<ControlFlow>)
        ensures
            r == (if breaks_to(parents@, 0, target) {
                Some(ControlFlow::Break { node, breaks: target })
            } else {
                None
            }),
    {
        let len = parents.len();
        let mut i: usize = 0;
        while i < len
            invariant
                len == parents@.len(),
                i <= len + 1,
                breaks_to(parents@, 0, target) == breaks_to(parents@, i as int, target),
            decreases len + 1 - i,
        {
            let after = match parents[len - 1 - i] {
                FlowType::NonBreakable { .. } => {
                    i = i + 1;
                    continue;
                },
                FlowType::Loop { after, .. } => after,
                FlowType::Switch { after, .. } => after,
            };
            let mut found = after;
            let mut next = i + 1;
            if i + 1 < len {
                match parents[len - 2 - i] {
                    FlowType::Loop { node: loop_node, .. } => {
                        found = Some(loop_node);
                    },
                    FlowType::NonBreakable { after: outer, .. } | FlowType::Switch { after: outer, .. } => {
                        found = outer;
                        next = i + 2;
                    },
                }
            }
            let hit = match found {
                Some(a) => a == target,
                None => false,
            };
            if hit {
                return Some(ControlFlow::Break { node, breaks: target });
            }
            i = next;
        }
        None
    }

    /// A `continue` of an enclosing loop, where a jump from `node` to
    /// `target` goes back to one: not where `target` is the node after the
    /// innermost construct that has one.
    pub fn try_reduce_continue(&self, node: usize, target: usize, parents: &[FlowType]) -> (r: Option<ControlFlow>)
        requires
            forall|i: int| 0 <= i < parents@.len() ==> (#[trigger] parents@[i]).node_of() < graph_nodes(*self.graph).len(),
        ensures
            r == (if first_after(parents@) == Some(target) {
                None
            } else {
                match continued_loop(parents@, 0, target, graph_edges(*self.graph), false) {
                    Some(l) => Some(ControlFlow::Continue { node, continues: l }),
                    None => None,
                }
            }),
    {
        let first = self.get_first_after(parents);
        if let Some(a) = first {
            if a == target {
                return None;
            }
        }
        let ghost edges = graph_edges(*self.graph);
        let len = parents.len();
        let mut i: usize = 0;
        let mut seen_after = false;
        while i < len
            invariant
                len == parents@.len(),
                i <= len,
                edges == graph_edges(*self.graph),
                first_after(parents@) != Some(target),
                forall|j: int| 0 <= j < parents@.len() ==> (#[trigger] parents@[j]).node_of() < graph_nodes(*self.graph).len(),
                continued_loop(parents@, 0, target, edges, false) == continued_loop(parents@, i as int, target, edges, seen_after),
            decreases len - i,
        {
            match parents[len - 1 - i] {
                FlowType::Loop { node: loop_node, .. } => {
                    assert(from_end(parents@, i as int).node_of() == loop_node);
                    let sources = incoming(self.graph, loop_node);
                    let mut k: usize = 0;
                    let mut enters = loop_node == target;
                    while k < sources.len() && !enters
                        invariant
                            k <= sources@.len(),
                            sources@ == incoming_sources(edges, loop_node),
                            enters <==> (loop_node == target || exists|j: int| 0 <= j < k && sources@[j] == target),
                        decreases sources@.len() - k,
                    {
                        if sources[k] == target {
                            enters = true;
                        }
                        k = k + 1;
                    }
                    proof {
                        if sources@.contains(target) && !enters {
                            let j = choose|j: int| 0 <= j < sources@.len() && sources@[j] == target;
                            assert(j < k);
                        }
                    }
                    if enters {
                        if seen_after {
                            return Some(ControlFlow::Continue { node, continues: loop_node });
                        }
                        return None;
                    }
                    seen_after = true;
                },
                FlowType::Switch { after, .. } | FlowType::NonBreakable { after, .. } => {
                    if after.is_some() {
                        seen_after = true;
                    }
                },
            }
            i = i + 1;
        }
        None
    }

    /// `after` where it may follow a construct.
    pub open spec fn valid_or_none(after: Option<usize>, parents: Seq<FlowType>, claimed: Set<usize>) -> Option<usize> {
        match after {
            Some(a) => if valid_after(a, parents, claimed) {
                Some(a)
            } else {
                None
            },
            None => None,
        }
    }

    /// An and/or of `node` and `cond_flow`, continuing at `cond_jmp`: where
    /// `cond_flow` has `cond_jmp` in its frontier and ends with a bitwise
    /// `and` or `or`; an error where the roles are the other way round.
    pub open spec fn and_or_result(&self, node: usize, cond_flow: usize, cond_jmp: usize) -> Result<
        Option<ControlFlow>,
        NodeReductionError,
    > {
        if self.front(cond_jmp).contains(cond_flow) && self.and_or_node(cond_jmp) {
            Err(NodeReductionError { node, message: "inverse and/or statements are not supported" })
        } else if self.front(cond_flow).contains(cond_jmp) && self.and_or_node(cond_flow) {
            Ok(Some(ControlFlow::AndOr { node, with: cond_flow, after: cond_jmp }))
        } else {
            Ok(None)
        }
    }

    /// A while loop at `node` whose body `cond_flow` leads back to it; an
    /// error where the jump leads back instead.
    pub open spec fn while_result(
        &self,
        node: usize,
        cond_flow: usize,
        cond_jmp: Option<usize>,
        parents: Seq<FlowType>,
        claimed: Set<usize>,
    ) -> Result<Option<ControlFlow>, NodeReductionError> {
        if cond_jmp matches Some(j) && self.front(j).contains(node) {
            Err(NodeReductionError { node, message: "inverse while loops are not supported" })
        } else if self.front(cond_flow).contains(node) {
            Ok(
                Some(
                    ControlFlow::WhileLoop {
                        node,
                        body: cond_flow,
                        after: Self::valid_or_none(cond_jmp, parents, claimed),
                    },
                ),
            )
        } else {
            Ok(None)
        }
    }

    /// An if at `node` with the branch `cond_flow`, where that branch flows
    /// on to the jump target (or there is none); an error where the jump
    /// target flows on to the branch instead.
    pub open spec fn if_result(
        &self,
        node: usize,
        cond_flow: usize,
        cond_jmp: Option<usize>,
        parents: Seq<FlowType>,
        claimed: Set<usize>,
    ) -> Result<Option<ControlFlow>, NodeReductionError> {
        if cond_jmp matches Some(j) && self.front(j).contains(cond_flow) {
            Err(NodeReductionError { node, message: "inverse if statements are not supported" })
        } else if (match cond_jmp {
            Some(j) => self.front(cond_flow).contains(j),
            None => true,
        }) {
            Ok(
                Some(
                    ControlFlow::If { node, then: cond_flow, after: Self::valid_or_none(cond_jmp, parents, claimed) },
                ),
            )
        } else {
            Ok(None)
        }
    }

    /// An if reduced at `node` is an if of that node over the branch it was
    /// given, and it continues at the jump target wherever that target may
    /// follow a construct, and nowhere else: the code after an if without
    /// else stays after it, at the if's own depth, not inside its branch.
    pub proof fn lemma_if_continues_at_target(
        &self,
        node: usize,
        cond_flow: usize,
        cond_jmp: Option<usize>,
        parents: Seq<FlowType>,
        claimed: Set<usize>,
        c: ControlFlow,
    )
        requires
            self.if_result(node, cond_flow, cond_jmp, parents, claimed) == Ok::<Option<ControlFlow>, NodeReductionError>(Some(c)),
        ensures
            c is If,
            c->If_node == node,
            c->If_then == cond_flow,
            cond_jmp matches Some(j) ==> (valid_after(j, parents, claimed) ==> c->If_after == Some(j)),
            c->If_after matches Some(a) ==> cond_jmp == Some(a) && valid_after(a, parents, claimed),
    {
    }

    /// A while loop reduced at `node` loops over the body it was given, and
    /// it continues at the jump target wherever that target may follow a
    /// construct, and nowhere else.
    pub proof fn lemma_while_continues_at_target(
        &self,
        node: usize,
        cond_flow: usize,
        cond_jmp: Option<usize>,
        parents: Seq<FlowType>,
        claimed: Set<usize>,
        c: ControlFlow,
    )
        requires
            self.while_result(node, cond_flow, cond_jmp, parents, claimed) == Ok::<Option<ControlFlow>, NodeReductionError>(Some(c)),
        ensures
            c is WhileLoop,
            c->WhileLoop_node == node,
            c->WhileLoop_body == cond_flow,
            cond_jmp matches Some(j) ==> (valid_after(j, parents, claimed) ==> c->WhileLoop_after == Some(j)),
            c->WhileLoop_after matches Some(a) ==> cond_jmp == Some(a) && valid_after(a, parents, claimed),
    {
    }

    /// The nodes in both frontiers that may follow a construct.
    pub open spec fn shared_frontier(
        &self,
        a: usize,
        b: usize,
        parents: Seq<FlowType>,
        claimed: Set<usize>,
    ) -> Set<usize> {
        Set::new(|x: usize| self.front(a).contains(x) && self.front(b).contains(x) && valid_after(x, parents, claimed))
    }

    /// The node after an if/else: the one node in both branches' frontiers
    /// that may follow it, or none; where there are more, the one a search
    /// from the branches reaches.
    pub open spec fn if_else_after(
        &self,
        node: usize,
        cond_jmp: usize,
        cond_flow: usize,
        parents: Seq<FlowType>,
        claimed: Set<usize>,
    ) -> Result<Option<usize>, NodeReductionError> {
        let shared = self.shared_frontier(cond_jmp, cond_flow, parents, claimed);
        if shared.len() <= 1 {
            at_most_one(shared, node)
        } else {
            at_most_one(found_after(self.edges(), set![cond_jmp, cond_flow], shared), node)
        }
    }

    /// An if/else at `node`, where neither branch flows on to the other.
    pub open spec fn if_else_result(
        &self,
        node: usize,
        cond_jmp: usize,
        cond_flow: usize,
        parents: Seq<FlowType>,
        claimed: Set<usize>,
    ) -> Result<Option<ControlFlow>, NodeReductionError> {
        if self.front(cond_jmp).contains(cond_flow) || self.front(cond_flow).contains(cond_jmp) {
            Ok(None)
        } else {
            match self.if_else_after(node, cond_jmp, cond_flow, parents, claimed) {
                Err(e) => Err(e),
                Ok(after) => Ok(Some(ControlFlow::IfElse { node, then: cond_flow, els: cond_jmp, after })),
            }
        }
    }

    /// A plain flow where both ways of a condition lead to the same node.
    pub fn try_reduce_bi_flow(&self, node: usize, cond_flow: usize, cond_jmp: usize) -> (r: Result<
        Option<ControlFlow>,
        NodeReductionError,
    >)
        ensures
            r == (if cond_flow == cond_jmp {
                Ok::<Option<ControlFlow>, NodeReductionError>(Some(ControlFlow::Flow { node, after: cond_flow }))
            } else {
                Ok(None)
            }),
    {
        if cond_flow == cond_jmp {
            Ok(Some(ControlFlow::Flow { node, after: cond_flow }))
        } else {
            Ok(None)
        }
    }

    /// An and/or of `node` and `cond_flow`.
    pub fn try_reduce_and_or(&self, node: usize, cond_flow: usize, cond_jmp: usize) -> (r: Result<
        Option<ControlFlow>,
        NodeReductionError,
    >)
        requires
            self.wf(),
            cond_flow < self.node_count(),
            cond_jmp < self.node_count(),
        ensures
            r == self.and_or_result(node, cond_flow, cond_jmp),
    {
        if self.frontiers[cond_jmp].contains(&cond_flow) && self.is_and_or_node(cond_jmp) {
            Err(NodeReductionError { node, message: "inverse and/or statements are not supported" })
        } else if self.frontiers[cond_flow].contains(&cond_jmp) && self.is_and_or_node(cond_flow) {
            Ok(Some(ControlFlow::AndOr { node, with: cond_flow, after: cond_jmp }))
        } else {
            Ok(None)
        }
    }

    /// `after` where it may follow a construct.
    fn valid_only(&self, after: Option<usize>, parents: &[FlowType], claimed_nodes: &HashSet<usize>) -> (r: Option<
        usize,
    >)
        ensures
            r == Self::valid_or_none(after, parents@, claimed_nodes@),
    {
        match after {
            Some(a) => if self.is_valid_after_node(a, parents, claimed_nodes) {
                Some(a)
            } else {
                None
            },
            None => None,
        }
    }

    /// A while loop at `node` with the body `cond_flow`.
    pub fn try_reduce_while_loop(
        &self,
        node: usize,
        cond_flow: usize,
        cond_jmp: Option<usize>,
        parents: &[FlowType],
        claimed_nodes: &HashSet<usize>,
    ) -> (r: Result<Option<ControlFlow>, NodeReductionError>)
        requires
            self.wf(),
            cond_flow < self.node_count(),
            cond_jmp matches Some(j) ==> j < self.node_count(),
        ensures
            r == self.while_result(node, cond_flow, cond_jmp, parents@, claimed_nodes@),
    {
        let inverse = match cond_jmp {
            Some(j) => self.frontiers[j].contains(&node),
            None => false,
        };
        if inverse {
            Err(NodeReductionError { node, message: "inverse while loops are not supported" })
        } else if self.frontiers[cond_flow].contains(&node) {
            let after = self.valid_only(cond_jmp, parents, claimed_nodes);
            Ok(Some(ControlFlow::WhileLoop { node, body: cond_flow, after }))
        } else {
            Ok(None)
        }
    }

    /// An if at `node` with the branch `cond_flow`.
    pub fn try_reduce_if(
        &self,
        node: usize,
        cond_flow: usize,
        cond_jmp: Option<usize>,
        parents: &[FlowType],
        claimed_nodes: &HashSet<usize>,
    ) -> (r: Result<Option<ControlFlow>, NodeReductionError>)
        requires
            self.wf(),
            cond_flow < self.node_count(),
            cond_jmp matches Some(j) ==> j < self.node_count(),
        ensures
            r == self.if_result(node, cond_flow, cond_jmp, parents@, claimed_nodes@),
    {
        let inverse = match cond_jmp {
            Some(j) => self.frontiers[j].contains(&cond_flow),
            None => false,
        };
        if inverse {
            return Err(NodeReductionError { node, message: "inverse if statements are not supported" });
        }
        let flows_on = match cond_jmp {
            Some(j) => self.frontiers[cond_flow].contains(&j),
            None => true,
        };
        if flows_on {
            let after = self.valid_only(cond_jmp, parents, claimed_nodes);
            Ok(Some(ControlFlow::If { node, then: cond_flow, after }))
        } else {
            Ok(None)
        }
    }

    /// An if/else at `node` with the branches `cond_flow` and `cond_jmp`.
    pub fn try_reduce_if_else(
        &self,
        node: usize,
        cond_jmp: usize,
        cond_flow: usize,
        parents: &[FlowType],
        claimed_nodes: &HashSet<usize>,
    ) -> (r: Result<Option<ControlFlow>, NodeReductionError>)
        requires
            self.wf(),
            cond_flow < self.node_count(),
            cond_jmp < self.node_count(),
        ensures
            r == self.if_else_result(node, cond_jmp, cond_flow, parents@, claimed_nodes@),
    {
        if self.frontiers[cond_jmp].contains(&cond_flow) || self.frontiers[cond_flow].contains(&cond_jmp) {
            return Ok(None);
        }
        let after = self.get_if_else_after_node(node, cond_jmp, cond_flow, parents, claimed_nodes);
        match after {
            Err(e) => Err(e),
            Ok(after) => Ok(Some(ControlFlow::IfElse { node, then: cond_flow, els: cond_jmp, after })),
        }
    }

    /// The node after an if/else.
    pub fn get_if_else_after_node(
        &self,
        node: usize,
        cond_jmp: usize,
        cond_flow: usize,
        parents: &[FlowType],
        claimed_nodes: &HashSet<usize>,
    ) -> (r: Result<Option<usize>, NodeReductionError>)
        requires
            self.wf(),
            cond_flow < self.node_count(),
            cond_jmp < self.node_count(),
        ensures
            r == self.if_else_after(node, cond_jmp, cond_flow, parents@, claimed_nodes@),
            r matches Ok(Some(x)) ==> x < self.node_count(),
    {
        let n = self.dominators.len();
        let ghost shared = self.shared_frontier(cond_jmp, cond_flow, parents@, claimed_nodes@);
        let mut list: Vec<usize> = Vec::new();
        let mut set: HashSet<usize> = HashSet::new();
        let mut x: usize = 0;
        while x < n
            invariant
                self.wf(),
                n == self.node_count(),
                cond_flow < n,
                cond_jmp < n,
                x <= n,
                shared == self.shared_frontier(cond_jmp, cond_flow, parents@, claimed_nodes@),
                set@ == shared.intersect(below(x as nat)),
                forall|t: usize| #[trigger] list@.contains(t) <==> set@.contains(t),
                list@.no_duplicates(),
                forall|j: int| 0 <= j < list@.len() ==> (#[trigger] list@[j]) < x,
            decreases n - x,
        {
            let ghost before = list@;
            if self.frontiers[cond_jmp].contains(&x) && self.frontiers[cond_flow].contains(&x)
                && self.is_valid_after_node(x, parents, claimed_nodes) {
                assert(!before.contains(x));
                list.push(x);
                set.insert(x);
                assert forall|t: usize| #[trigger] list@.contains(t) <==> set@.contains(t) by {
                    vstd::seq_lib::lemma_seq_contains_after_push(before, x, t);
                }
            }
            proof {
                assert(set@ =~= shared.intersect(below(x as nat + 1)));
            }
            x = x + 1;
        }
        proof {
            assert forall|v: usize| shared.contains(v) implies v < n by {
                assert(self.frontiers@[cond_jmp as int]@.contains(v));
            }
            assert(set@ =~= shared);
            assert(list@.to_set() =~= shared);
            list@.unique_seq_to_set();
        }
        if list.len() <= 1 {
            if list.len() == 0 {
                Ok(None)
            } else {
                proof {
                    assert(shared.contains(list@[0]));
                    vstd::set_lib::lemma_set_subset_finite(list@.to_set(), shared);
                    Set::lemma_is_singleton(shared);
                }
                Ok(Some(list[0]))
            }
        } else {
            let initial = vec![cond_jmp, cond_flow];
            assert(initial@.to_set() =~= set![cond_jmp, cond_flow]) by {
                assert(initial@[0] == cond_jmp && initial@[1] == cond_flow);
            }
            self.get_after_node_expensive(node, &initial, &set)
        }
    }


    /// The node after a construct whose branches start at `initial`, found
    /// by searching along jumps and plain flow, not passing candidates: none
    /// where the search reaches no candidate, the one it reaches, or an
    /// error where it reaches more.
    pub fn get_after_node_expensive(
        &self,
        node: usize,
        initial: &Vec<usize>,
        candidates: &HashSet<usize>,
    ) -> (r: Result<Option<usize>, NodeReductionError>)
        requires
            self.wf(),
            forall|i: int| 0 <= i < initial@.len() ==> (#[trigger] initial@[i]) < self.node_count(),
        ensures
            r == at_most_one(found_after(self.edges(), initial@.to_set(), candidates@), node),
            r matches Ok(Some(c)) ==> candidates@.contains(c),
    {
        let ghost edges = self.edges();
        let ghost cands = candidates@;
        let ghost init = initial@.to_set();
        let n = self.dominators.len();
        let mut visited: HashSet<usize> = HashSet::new();
        let mut queue: Vec<usize> = Vec::new();
        let mut i: usize = 0;
        while i < initial.len()
            invariant
                i <= initial@.len(),
                queue@ == initial@.take(i as int),
            decreases initial@.len() - i,
        {
            queue.push(initial[i]);
            i = i + 1;
            assert(queue@ =~= initial@.take(i as int));
        }
        assert(initial@.take(i as int) =~= initial@);
        proof {
            lemma_below(n as nat);
            assert forall|k: int| 0 <= k < queue@.len() implies search_reaches(edges, init, cands, #[trigger] queue@[k]) by {
                let path = seq![queue@[k]];
                assert(initial@[k] == queue@[k]);
                assert(init.contains(queue@[k]));
                assert(search_path(edges, init, cands, path));
            }
        }
        let mut result: Vec<usize> = Vec::new();
        let mut head: usize = 0;
        while head < queue.len()
            invariant
                self.wf(),
                n == self.node_count(),
                edges == self.edges(),
                cands == candidates@,
                init == initial@.to_set(),
                below(n as nat).finite(),
                below(n as nat).len() == n,
                head <= queue@.len(),
                visited@.subset_of(below(n as nat)),
                forall|k: int| 0 <= k < queue@.len() ==> (#[trigger] queue@[k]) < n && search_reaches(edges, init, cands, queue@[k]),
                forall|x: usize| #[trigger] visited@.contains(x) ==> search_reaches(edges, init, cands, x),
                result@.no_duplicates(),
                forall|t: usize| #[trigger] result@.contains(t) <==> visited@.contains(t) && cands.contains(t),
                forall|x: usize| #[trigger] init.contains(x) ==> visited@.contains(x) || queue@.subrange(head as int, queue@.len() as int).contains(x),
                forall|j: int|
                    0 <= j < edges.len() && visited@.contains((#[trigger] edges[j]).0) && !cands.contains(edges[j].0)
                        && steps_on(edges[j].2) ==> visited@.contains(edges[j].1) || queue@.subrange(head as int, queue@.len() as int).contains(edges[j].1),
            decreases n - visited@.len(), queue@.len() - head,
        {
            proof {
                vstd::set_lib::lemma_len_subset(visited@, below(n as nat));
            }
            let ghost pending = queue@.subrange(head as int, queue@.len() as int);
            let ghost seen = visited@;
            let item = queue[head];
            head = head + 1;
            let ghost rest = queue@.subrange(head as int, queue@.len() as int);
            assert forall|t: usize| pending.contains(t) && t != item implies rest.contains(t) by {
                let k = choose|k: int| 0 <= k < pending.len() && pending[k] == t;
                assert(k > 0);
                assert(rest[k - 1] == t);
            }
            if !visited.contains(&item) {
                visited.insert(item);
                if candidates.contains(&item) {
                    let ghost before = result@;
                    assert(!before.contains(item));
                    result.push(item);
                    assert forall|a: int, b: int| 0 <= a < result@.len() && 0 <= b < result@.len() && a != b implies result@[a] != result@[b] by {
                        if a < before.len() && b < before.len() {
                            assert(result@[a] == before[a] && result@[b] == before[b]);
                        } else if a < before.len() {
                            assert(result@[a] == before[a]);
                        } else if b < before.len() {
                            assert(result@[b] == before[b]);
                        }
                    }
                    assert forall|t: usize| #[trigger] result@.contains(t) <==> visited@.contains(t) && cands.contains(t) by {
                        vstd::seq_lib::lemma_seq_contains_after_push(before, item, t);
                    }
                } else {
                    let out = outgoing(self.graph, item);
                    proof {
                        lemma_outgoing_edges(edges, item);
                    }
                    let ghost base = queue@;
                    let mut k: usize = 0;
                    while k < out.len()
                        invariant
                            k <= out@.len(),
                            out@ == outgoing_edges(edges, item),
                            n == self.node_count(),
                            edges == self.edges(),
                            edges_within(edges, n as nat),
                            !cands.contains(item),
                            search_reaches(edges, init, cands, item),
                            forall|t: int| 0 <= t < out@.len() ==> edge_is(edges, item, (#[trigger] out@[t]).0, out@[t].1),
                            base.len() <= queue@.len(),
                            queue@.subrange(0, base.len() as int) == base,
                            forall|t: int| 0 <= t < k && steps_on(out@[t].1) ==> queue@.subrange(base.len() as int, queue@.len() as int).contains(#[trigger] out@[t].0),
                            forall|t: int| 0 <= t < queue@.len() ==> (#[trigger] queue@[t]) < n && search_reaches(edges, init, cands, queue@[t]),
                        decreases out@.len() - k,
                    {
                        let (target, kind) = out[k];
                        let follows = match kind {
                            EdgeType::Jump | EdgeType::ConditionalJump | EdgeType::Flow => true,
                            _ => false,
                        };
                        if follows {
                            proof {
                                assert(edge_is(edges, item, out@[k as int].0, out@[k as int].1));
                                let j = choose|j: int| 0 <= j < edges.len() && edges[j] == (item, target, kind);
                                assert(target < n);
                                assert(step_edge(edges, item, target));
                                lemma_search_step(edges, init, cands, item, target);
                            }
                            let ghost before = queue@;
                            queue.push(target);
                            proof {
                                assert(queue@.subrange(0, base.len() as int) =~= base);
                                assert forall|t: int| 0 <= t < k + 1 && steps_on(out@[t].1) implies queue@.subrange(base.len() as int, queue@.len() as int).contains(#[trigger] out@[t].0) by {
                                    if t < k {
                                        let w = choose|w: int| 0 <= w < before.subrange(base.len() as int, before.len() as int).len() && before.subrange(base.len() as int, before.len() as int)[w] == out@[t].0;
                                        assert(queue@.subrange(base.len() as int, queue@.len() as int)[w] == out@[t].0);
                                    } else {
                                        assert(queue@.subrange(base.len() as int, queue@.len() as int)[queue@.len() - 1 - base.len()] == target);
                                    }
                                }
                            }
                        }
                        k = k + 1;
                    }
                    proof {
                        assert forall|j: int|
                            0 <= j < edges.len() && edges[j].0 == item && steps_on(edges[j].2) implies queue@.subrange(head as int, queue@.len() as int).contains(#[trigger] edges[j].1) by {
                            assert(out@.contains((edges[j].1, edges[j].2)));
                            let t = choose|t: int| 0 <= t < out@.len() && out@[t] == (edges[j].1, edges[j].2);
                            let w = choose|w: int| 0 <= w < queue@.subrange(base.len() as int, queue@.len() as int).len() && queue@.subrange(base.len() as int, queue@.len() as int)[w] == out@[t].0;
                            assert(queue@.subrange(head as int, queue@.len() as int)[base.len() - head + w] == edges[j].1);
                        }
                    }
                }
            }
            proof {
                let now = queue@.subrange(head as int, queue@.len() as int);
                assert forall|t: usize| rest.contains(t) implies now.contains(t) by {
                    let k = choose|k: int| 0 <= k < rest.len() && rest[k] == t;
                    assert(now[k] == t);
                }
                assert forall|x: usize| #[trigger] init.contains(x) implies visited@.contains(x) || now.contains(x) by {
                    if !seen.contains(x) && x != item {
                        assert(pending.contains(x));
                    }
                }
                assert forall|j: int|
                    0 <= j < edges.len() && visited@.contains((#[trigger] edges[j]).0) && !cands.contains(edges[j].0)
                        && steps_on(edges[j].2) implies visited@.contains(edges[j].1) || now.contains(edges[j].1) by {
                    if edges[j].0 != item {
                        assert(seen.contains(edges[j].0));
                        if !seen.contains(edges[j].1) && edges[j].1 != item {
                            assert(pending.contains(edges[j].1));
                        }
                    }
                }
                if !seen.contains(item) {
                    assert(visited@.len() == seen.len() + 1);
                    vstd::set_lib::lemma_len_subset(visited@, below(n as nat));
                }
            }
        }
        proof {
            let found = found_after(edges, init, cands);
            assert forall|c: usize| found.contains(c) implies visited@.intersect(cands).contains(c) by {
                let path = choose|path: Seq<usize>| #[trigger] search_path(edges, init, cands, path) && path.last() == c;
                assert(queue@.subrange(head as int, queue@.len() as int) =~= Seq::<usize>::empty());
                lemma_search_closed(edges, init, cands, visited@, path);
            }
            assert(found =~= visited@.intersect(cands));
            assert(result@.to_set() =~= found);
            result@.unique_seq_to_set();
        }
        if result.len() == 0 {
            Ok(None)
        } else if result.len() == 1 {
            proof {
                let found = found_after(edges, init, cands);
                assert(found.contains(result@[0]));
                vstd::set_lib::lemma_set_subset_finite(result@.to_set(), found);
                Set::lemma_is_singleton(found);
            }
            Ok(Some(result[0]))
        } else {
            Err(NodeReductionError { node, message: "multiple valid after node frontiers" })
        }
    }


    /// Whether `b` is in the domination frontier of `a`, where `a` is a node.
    pub open spec fn front_has(&self, a: usize, b: usize) -> bool {
        a < self.frontiers@.len() && self.front(a).contains(b)
    }

    /// How two cases of switch `node` are ordered: a case that flows on to
    /// another comes first; an error where each flows on to the other.
    pub open spec fn case_order(&self, node: usize, a: usize, b: usize) -> Result<Ordering, NodeReductionError> {
        if self.front_has(a, b) && self.front_has(b, a) {
            Err(NodeReductionError { node, message: "switch has case nodes that frontier at each other" })
        } else if self.front_has(a, b) {
            Ok(Ordering::Less)
        } else if self.front_has(b, a) {
            Ok(Ordering::Greater)
        } else {
            Ok(Ordering::Equal)
        }
    }

    /// How two cases of switch `node` are ordered, by the nodes they lead
    /// to.
    pub open spec fn group_order(&self, node: usize, a: &CaseGroup, b: &CaseGroup) -> Result<Ordering, NodeReductionError> {
        self.case_order(node, a.0, b.0)
    }

    /// How two cases of switch `node`, each a node with its values, are
    /// ordered: by their nodes.
    pub open spec fn case_fn(&self, node: usize) -> spec_fn((usize, Seq<CaseValue>), (usize, Seq<CaseValue>)) -> Result<
        Ordering,
        NodeReductionError,
    > {
        |a: (usize, Seq<CaseValue>), b: (usize, Seq<CaseValue>)| self.case_order(node, a.0, b.0)
    }

    /// How two case nodes of switch `node` are ordered.
    pub open spec fn node_order_fn(&self, node: usize) -> spec_fn(usize, usize) -> Result<Ordering, NodeReductionError> {
        |a: usize, b: usize| self.case_order(node, a, b)
    }

    /// Whether sorting the cases of switch `node` ends within
    /// `sort_limit` passes; there must be two cases or more.
    pub open spec fn case_sort_ends(&self, node: usize, groups: Seq<(usize, Seq<CaseValue>)>) -> bool {
        groups.len() >= 2 && bubble_passes(self.case_fn(node), groups, sort_limit(groups.len())) is Some
    }

    /// The nodes outside the cases that the cases flow on to and that may
    /// follow a construct.
    pub open spec fn switch_frontier(&self, dests: Set<usize>, parents: Seq<FlowType>, claimed: Set<usize>) -> Set<
        usize,
    > {
        Set::new(
            |x: usize|
                (exists|d: usize| dests.contains(d) && #[trigger] self.front(d).contains(x)) && !dests.contains(x)
                    && valid_after(x, parents, claimed),
        )
    }

    /// The node after a switch: the one node the cases flow on to, or none;
    /// where there are more, the one a search from the cases reaches.
    pub open spec fn switch_after(
        &self,
        node: usize,
        dests: Set<usize>,
        parents: Seq<FlowType>,
        claimed: Set<usize>,
    ) -> Result<Option<usize>, NodeReductionError> {
        let frontier = self.switch_frontier(dests, parents, claimed);
        if frontier.len() <= 1 {
            at_most_one(frontier, node)
        } else {
            at_most_one(found_after(self.edges(), dests, frontier), node)
        }
    }

    /// How two cases of switch `node` are ordered.
    fn order_cases(&self, node: usize, a: usize, b: usize) -> (r: Result<Ordering, NodeReductionError>)
        ensures
            r == self.case_order(node, a, b),
    {
        let a_b = a < self.frontiers.len() && self.frontiers[a].contains(&b);
        let b_a = b < self.frontiers.len() && self.frontiers[b].contains(&a);
        if a_b && b_a {
            Err(NodeReductionError { node, message: "switch has case nodes that frontier at each other" })
        } else if a_b {
            Ok(Ordering::Less)
        } else if b_a {
            Ok(Ordering::Greater)
        } else {
            Ok(Ordering::Equal)
        }
    }

    /// The node after a switch with the given cases.
    pub fn get_switch_after_node(
        &self,
        switch_node: usize,
        cases: &[(usize, Vec<CaseValue>)],
        parents: &[FlowType],
        claimed_nodes: &HashSet<usize>,
    ) -> (r: Result<Option<usize>, NodeReductionError>)
        requires
            self.wf(),
            forall|i: int| 0 <= i < cases@.len() ==> (#[trigger] cases@[i]).0 < self.node_count(),
        ensures
            r == self.switch_after(switch_node, group_nodes(cases_view(cases@)), parents@, claimed_nodes@),
            r matches Ok(Some(x)) ==> x < self.node_count(),
    {
        let ghost dests = group_nodes(cases_view(cases@));
        let n = self.dominators.len();
        let mut nodes: Vec<usize> = Vec::new();
        let mut node_set: HashSet<usize> = HashSet::new();
        let mut i: usize = 0;
        while i < cases.len()
            invariant
                i <= cases@.len(),
                nodes@.len() == i,
                forall|j: int| 0 <= j < i ==> nodes@[j] == (#[trigger] cases@[j]).0,
                forall|d: usize| #[trigger] node_set@.contains(d) <==> exists|j: int| 0 <= j < i && cases@[j].0 == d,
            decreases cases@.len() - i,
        {
            nodes.push(cases[i].0);
            node_set.insert(cases[i].0);
            i = i + 1;
        }
        proof {
            assert forall|d: usize| #[trigger] node_set@.contains(d) <==> dests.contains(d) by {
                if node_set@.contains(d) {
                    let j = choose|j: int| 0 <= j < cases@.len() && cases@[j].0 == d;
                    assert(cases_view(cases@)[j].0 == d);
                }
                if dests.contains(d) {
                    let j = choose|j: int| 0 <= j < cases_view(cases@).len() && (#[trigger] cases_view(cases@)[j]).0 == d;
                    assert(cases@[j].0 == d);
                }
            }
            assert(node_set@ =~= dests);
            assert forall|j: int| 0 <= j < nodes@.len() implies (#[trigger] nodes@[j]) < n by {
                assert(nodes@[j] == cases@[j].0);
            }
            assert(nodes@.to_set() =~= dests) by {
                assert forall|d: usize| nodes@.contains(d) <==> dests.contains(d) by {
                    if nodes@.contains(d) {
                        let j = choose|j: int| 0 <= j < nodes@.len() && nodes@[j] == d;
                        assert(cases@[j].0 == d);
                    }
                    if dests.contains(d) {
                        let j = choose|j: int| 0 <= j < cases@.len() && cases@[j].0 == d;
                        assert(nodes@[j] == d);
                    }
                }
            }
        }
        let ghost frontier = self.switch_frontier(dests, parents@, claimed_nodes@);
        let mut list: Vec<usize> = Vec::new();
        let mut set: HashSet<usize> = HashSet::new();
        let mut x: usize = 0;
        while x < n
            invariant
                self.wf(),
                n == self.node_count(),
                x <= n,
                forall|j: int| 0 <= j < cases@.len() ==> (#[trigger] cases@[j]).0 < n,
                node_set@ == dests,
                forall|d: usize| #[trigger] node_set@.contains(d) <==> exists|j: int| 0 <= j < cases@.len() && cases@[j].0 == d,
                nodes@.len() == cases@.len(),
                forall|j: int| 0 <= j < cases@.len() ==> nodes@[j] == (#[trigger] cases@[j]).0,
                forall|j: int| 0 <= j < nodes@.len() ==> (#[trigger] nodes@[j]) < n,
                frontier == self.switch_frontier(dests, parents@, claimed_nodes@),
                set@ == frontier.intersect(below(x as nat)),
                forall|t: usize| #[trigger] list@.contains(t) <==> set@.contains(t),
                list@.no_duplicates(),
                forall|j: int| 0 <= j < list@.len() ==> (#[trigger] list@[j]) < x,
            decreases n - x,
        {
            let mut reached = false;
            let mut j: usize = 0;
            while j < nodes.len() && !reached
                invariant
                    self.wf(),
                    n == self.node_count(),
                    j <= nodes@.len(),
                    nodes@.len() == cases@.len(),
                    forall|t: int| 0 <= t < cases@.len() ==> (#[trigger] cases@[t]).0 < n,
                    forall|t: int| 0 <= t < cases@.len() ==> nodes@[t] == (#[trigger] cases@[t]).0,
                    reached <==> exists|t: int| 0 <= t < j && self.front(nodes@[t]).contains(x),
                decreases nodes@.len() - j,
            {
                assert(nodes@[j as int] == cases@[j as int].0);
                if self.frontiers[nodes[j]].contains(&x) {
                    reached = true;
                }
                j = j + 1;
            }
            proof {
                assert(reached <==> exists|d: usize| dests.contains(d) && #[trigger] self.front(d).contains(x)) by {
                    if reached {
                        let t = choose|t: int| 0 <= t < j && self.front(nodes@[t]).contains(x);
                        assert(nodes@[t] == cases@[t].0);
                        assert(node_set@.contains(nodes@[t]));
                    }
                    if exists|d: usize| dests.contains(d) && #[trigger] self.front(d).contains(x) {
                        let d = choose|d: usize| dests.contains(d) && #[trigger] self.front(d).contains(x);
                        assert(node_set@.contains(d));
                        assert(exists|t: int| 0 <= t < cases@.len() && cases@[t].0 == d);
                        let t = choose|t: int| 0 <= t < cases@.len() && cases@[t].0 == d;
                        if !reached {
                            assert(j == nodes@.len());
                            assert(nodes@[t] == cases@[t].0);
                            assert(self.front(nodes@[t]).contains(x));
                        }
                    }
                }
            }
            let ghost before = list@;
            if reached && !node_set.contains(&x) && self.is_valid_after_node(x, parents, claimed_nodes) {
                assert(!before.contains(x));
                list.push(x);
                set.insert(x);
                assert forall|t: usize| #[trigger] list@.contains(t) <==> set@.contains(t) by {
                    vstd::seq_lib::lemma_seq_contains_after_push(before, x, t);
                }
            }
            proof {
                assert(set@ =~= frontier.intersect(below(x as nat + 1)));
            }
            x = x + 1;
        }
        proof {
            assert forall|v: usize| frontier.contains(v) implies v < n by {
                let d = choose|d: usize| dests.contains(d) && #[trigger] self.front(d).contains(v);
                assert(node_set@.contains(d));
                let t = choose|t: int| 0 <= t < cases@.len() && cases@[t].0 == d;
                assert(self.frontiers@[d as int]@.contains(v));
            }
            assert(set@ =~= frontier);
            assert(list@.to_set() =~= frontier);
            list@.unique_seq_to_set();
        }
        if list.len() <= 1 {
            if list.len() == 0 {
                Ok(None)
            } else {
                proof {
                    assert(frontier.contains(list@[0]));
                    vstd::set_lib::lemma_set_subset_finite(list@.to_set(), frontier);
                    Set::lemma_is_singleton(frontier);
                }
                Ok(Some(list[0]))
            }
        } else {
            self.get_after_node_expensive(switch_node, &nodes, &set)
        }
    }


    /// Whether `r` is what a switch at `node` with the case groups `groups`
    /// reduces to: the groups are bubble-sorted so that a case that flows on
    /// to another comes first, and the node after the switch is then found
    /// from the sorted cases; the first error of either is the result.
    pub open spec fn switch_reduces_to(
        &self,
        node: usize,
        groups: Seq<(usize, Seq<CaseValue>)>,
        parents: Seq<FlowType>,
        claimed: Set<usize>,
        r: Result<ControlFlow, NodeReductionError>,
    ) -> bool {
        let (sorted, sort_r) = bubble_sorted(self.case_fn(node), groups);
        match sort_r {
            Err(e) => r == Err::<ControlFlow, NodeReductionError>(e),
            Ok(_) => match self.switch_after(node, group_nodes(sorted), parents, claimed) {
                Err(e) => r == Err::<ControlFlow, NodeReductionError>(e),
                Ok(after) => r matches Ok(ControlFlow::Switch { node: at, cases: out, after: a2 }) && at == node
                    && cases_view(out@) == sorted && a2 == after,
            },
        }
    }

    /// A switch at `switch_node` with the given edges: neighbouring edges to
    /// the same node, taken from the last, form one case; the cases are
    /// sorted so that one that flows on to another comes first; then the
    /// node after the switch is found.
    pub fn reduce_switch(
        &self,
        switch_node: usize,
        cases: &[(usize, EdgeType)],
        parents: &[FlowType],
        claimed_nodes: &HashSet<usize>,
    ) -> (r: Result<ControlFlow, NodeReductionError>)
        requires
            self.wf(),
            switch_node < self.node_count(),
            forall|i: int| 0 <= i < cases@.len() ==> (#[trigger] cases@[i]).0 < self.node_count() && is_switch_edge(cases@[i].1),
            group_cases(cases@.reverse()).len() >= 2,
            passes_end(self.case_fn(switch_node), group_cases(cases@.reverse())),
        ensures
            r matches Ok(flow) ==> flow_within(flow, self.node_count()),
            self.switch_reduces_to(switch_node, group_cases(cases@.reverse()), parents@, claimed_nodes@, r),
    {
        let mut groups = group_switch_cases(cases);
        let ghost spec_groups = group_cases(cases@.reverse());
        let ghost grouped = groups@;
        proof {
            assert forall|j: int| 0 <= j < cases@.reverse().len() implies (#[trigger] cases@.reverse()[j]).0 < self.node_count() by {
                assert(cases@.reverse()[j] == cases@[cases@.len() - 1 - j]);
            }
            lemma_group_bound(cases@.reverse(), self.node_count());
            assert forall|i: int| 0 <= i < grouped.len() implies (#[trigger] grouped[i]).0 < self.node_count() by {
                assert(cases_view(grouped)[i].0 == grouped[i].0);
            }
        }
        let compare = |a: &CaseGroup, b: &CaseGroup| -> (o: Result<Ordering, NodeReductionError>)
            ensures
                o == self.group_order(switch_node, a, b),
            {
                let (x, _) = a;
                let (y, _) = b;
                self.order_cases(switch_node, *x, *y)
            };
        let ghost by_node = |a: CaseGroup, b: CaseGroup| self.case_order(switch_node, a.0, b.0);
        let ghost seen = |c: CaseGroup| (c.0, c.1@);
        proof {
            assert forall|a: CaseGroup, b: CaseGroup, o: Result<Ordering, NodeReductionError>|
                #[trigger] call_ensures(compare, (&a, &b), o) implies o == by_node(a, b) by {
                assert(o == self.group_order(switch_node, &a, &b));
            }
            assert(answers_as(compare, by_node));
            assert(grouped.map_values(seen) =~= spec_groups) by {
                assert forall|i: int| 0 <= i < grouped.len() implies grouped.map_values(seen)[i] == spec_groups[i] by {
                    assert(cases_view(grouped)[i] == (grouped[i].0, grouped[i].1@));
                }
            }
            lemma_sorted_map(by_node, self.case_fn(switch_node), seen, grouped);
            assert(passes_end(by_node, grouped));
        }
        let sorted = try_bubble_sort_by(groups.as_mut_slice(), compare);
        proof {
            assert(bubble_sorted(by_node, grouped) == (groups@, sorted));
            assert(groups@.map_values(seen) =~= cases_view(groups@));
            assert(bubble_sorted(self.case_fn(switch_node), spec_groups) == (cases_view(groups@), sorted));
        }
        match sorted {
            Err(e) => Err(e),
            Ok(()) => {
                proof {
                    broadcast use vstd::seq_lib::group_to_multiset_ensures;

                    assert forall|i: int| 0 <= i < groups@.len() implies (#[trigger] groups@[i]).0 < self.node_count() by {
                        assert(groups@.contains(groups@[i]));
                        assert(groups@.to_multiset().count(groups@[i]) > 0);
                        assert(grouped.contains(groups@[i]));
                        let j = choose|j: int| 0 <= j < grouped.len() && grouped[j] == groups@[i];
                    }
                }
                let after = self.get_switch_after_node(switch_node, groups.as_slice(), parents, claimed_nodes);
                let ghost sorted_groups = groups@;
                match after {
                    Err(e) => Err(e),
                    Ok(after) => {
                        let flow = ControlFlow::Switch { node: switch_node, cases: groups, after };
                        proof {
                            let opt = crate::decompiler::control_flow::opt_node(after);
                            assert forall|i: int| 0 <= i < pushed_nodes(flow).len() implies (#[trigger] pushed_nodes(flow)[i]) < self.node_count() by {
                                if i >= opt.len() {
                                    assert(pushed_nodes(flow)[i] == sorted_groups[i - opt.len()].0);
                                }
                            }
                            assert(flow.node_spec() < self.node_count());
                            assert(flow_within(flow, self.node_count()));
                        }
                        Ok(flow)
                    },
                }
            },
        }
    }


    /// The edges out of `node` to nodes outside its domination frontier.
    pub open spec fn dominated_edges(&self, node: usize) -> Seq<(usize, EdgeType)> {
        dominated_part(outgoing_edges(self.edges(), node), self.front(node))
    }

    /// The edges out of `node` to nodes in its domination frontier.
    pub open spec fn frontier_edges(&self, node: usize) -> Seq<(usize, EdgeType)> {
        frontier_part(outgoing_edges(self.edges(), node), self.front(node))
    }

    /// Whether the edges out of `node` form a shape the reducer handles: a
    /// condition, a fall-through, a switch whose edges are cases or its
    /// fall-through and whose cases can be sorted, a single flow or jump
    /// within the dominated nodes, a jump out, a condition whose branches
    /// both leave to the same node, a flow out, or no edge at all.
    pub open spec fn recognized(&self, node: usize) -> bool {
        let d = self.dominated_edges(node);
        let f = self.frontier_edges(node);
        ||| condition_pair(d) is Some
        ||| d.len() == 1 && d[0].1 is ConditionalFlow
        ||| has_case_end(d) && f.len() == 0 && (forall|i: int| 0 <= i < d.len() ==> is_switch_edge(#[trigger] d[i].1))
            && self.case_sort_ends(node, group_cases(d.reverse()))
        ||| d.len() == 1 && (d[0].1 is Flow || d[0].1 is Jump) && f.len() == 0
        ||| d.len() == 0 && f.len() == 1 && (f[0].1 is Jump || f[0].1 is Flow)
        ||| d.len() == 0 && (condition_pair(f) matches Some((a, b)) && a == b)
        ||| d.len() == 0 && f.len() == 0
    }

    /// What a condition at `node` becomes: a flow where both ways lead to
    /// the same node, else an and/or, a while loop, an if, or an if/else,
    /// the first that applies.
    pub open spec fn condition_result(
        &self,
        node: usize,
        cond_flow: usize,
        cond_jmp: usize,
        parents: Seq<FlowType>,
        claimed: Set<usize>,
    ) -> Result<Option<ControlFlow>, NodeReductionError> {
        or_else(
            if cond_flow == cond_jmp {
                Ok(Some(ControlFlow::Flow { node, after: cond_flow }))
            } else {
                Ok(None)
            },
            or_else(
                self.and_or_result(node, cond_flow, cond_jmp),
                or_else(
                    self.while_result(node, cond_flow, Some(cond_jmp), parents, claimed),
                    or_else(
                        self.if_result(node, cond_flow, Some(cond_jmp), parents, claimed),
                        self.if_else_result(node, cond_jmp, cond_flow, parents, claimed),
                    ),
                ),
            ),
        )
    }

    /// Whether `r` is what `node` reduces to, given the enclosing
    /// constructs and the nodes already claimed: by the shape of its
    /// dominated and frontier edges, in that order of shapes.
    pub open spec fn reduces_to(
        &self,
        node: usize,
        parents: Seq<FlowType>,
        claimed: Set<usize>,
        r: Result<ControlFlow, NodeReductionError>,
    ) -> bool {
        let d = self.dominated_edges(node);
        let f = self.frontier_edges(node);
        if condition_pair(d) is Some {
            let (cond_flow, cond_jmp) = condition_pair(d)->0;
            r == found_or_unrecognized(node, self.condition_result(node, cond_flow, cond_jmp, parents, claimed))
        } else if d.len() == 1 && d[0].1 is ConditionalFlow {
            r == found_or_unrecognized(
                node,
                or_else(
                    self.while_result(node, d[0].0, None, parents, claimed),
                    self.if_result(node, d[0].0, None, parents, claimed),
                ),
            )
        } else if has_case_end(d) && f.len() == 0 {
            self.switch_reduces_to(node, group_cases(d.reverse()), parents, claimed, r)
        } else if d.len() == 1 && (d[0].1 is Flow || d[0].1 is Jump) && f.len() == 0 {
            r == Ok::<ControlFlow, NodeReductionError>(ControlFlow::Flow { node, after: d[0].0 })
        } else if d.len() == 0 && f.len() == 1 && f[0].1 is Jump {
            r == Ok::<ControlFlow, NodeReductionError>(
                if breaks_to(parents, 0, f[0].0) {
                    ControlFlow::Break { node, breaks: f[0].0 }
                } else if first_after(parents) != Some(f[0].0) && continued_loop(parents, 0, f[0].0, self.edges(), false) is Some {
                    ControlFlow::Continue { node, continues: continued_loop(parents, 0, f[0].0, self.edges(), false)->0 }
                } else {
                    ControlFlow::Leaf { node }
                },
            )
        } else if d.len() == 0 && f.len() == 1 && f[0].1 is Flow && valid_after(f[0].0, parents, claimed) {
            r == Ok::<ControlFlow, NodeReductionError>(ControlFlow::Flow { node, after: f[0].0 })
        } else {
            r == Ok::<ControlFlow, NodeReductionError>(ControlFlow::Leaf { node })
        }
    }


    /// The node after an if/else is a node of the graph.
    proof fn lemma_if_else_after_within(
        &self,
        node: usize,
        cond_jmp: usize,
        cond_flow: usize,
        parents: Seq<FlowType>,
        claimed: Set<usize>,
    )
        requires
            self.wf(),
            cond_jmp < self.node_count(),
        ensures
            self.if_else_after(node, cond_jmp, cond_flow, parents, claimed) matches Ok(Some(x)) ==> x
                < self.node_count(),
    {
        let shared = self.shared_frontier(cond_jmp, cond_flow, parents, claimed);
        assert forall|x: usize| #[trigger] shared.contains(x) implies x < self.node_count() by {
            assert(self.frontiers@[cond_jmp as int]@.contains(x));
        }
        lemma_at_most_one_within(shared, node, self.node_count());
        let found = found_after(self.edges(), set![cond_jmp, cond_flow], shared);
        assert forall|x: usize| #[trigger] found.contains(x) implies x < self.node_count() by {
            assert(shared.contains(x));
        }
        lemma_at_most_one_within(found, node, self.node_count());
    }

    /// What a condition at `node` becomes.
    fn reduce_condition(
        &self,
        node: usize,
        cond_flow: usize,
        cond_jmp: usize,
        parents: &[FlowType],
        claimed_nodes: &HashSet<usize>,
    ) -> (r: Result<Option<ControlFlow>, NodeReductionError>)
        requires
            self.wf(),
            cond_flow < self.node_count(),
            cond_jmp < self.node_count(),
        ensures
            r == self.condition_result(node, cond_flow, cond_jmp, parents@, claimed_nodes@),
    {
        let and_or = || -> (r: Result<Option<ControlFlow>, NodeReductionError>)
            requires
                self.wf(),
                cond_flow < self.node_count(),
                cond_jmp < self.node_count(),
            ensures
                r == self.and_or_result(node, cond_flow, cond_jmp),
            { self.try_reduce_and_or(node, cond_flow, cond_jmp) };
        let while_loop = || -> (r: Result<Option<ControlFlow>, NodeReductionError>)
            requires
                self.wf(),
                cond_flow < self.node_count(),
                cond_jmp < self.node_count(),
            ensures
                r == self.while_result(node, cond_flow, Some(cond_jmp), parents@, claimed_nodes@),
            { self.try_reduce_while_loop(node, cond_flow, Some(cond_jmp), parents, claimed_nodes) };
        let if_then = || -> (r: Result<Option<ControlFlow>, NodeReductionError>)
            requires
                self.wf(),
                cond_flow < self.node_count(),
                cond_jmp < self.node_count(),
            ensures
                r == self.if_result(node, cond_flow, Some(cond_jmp), parents@, claimed_nodes@),
            { self.try_reduce_if(node, cond_flow, Some(cond_jmp), parents, claimed_nodes) };
        let if_else = || -> (r: Result<Option<ControlFlow>, NodeReductionError>)
            requires
                self.wf(),
                cond_flow < self.node_count(),
                cond_jmp < self.node_count(),
            ensures
                r == self.if_else_result(node, cond_jmp, cond_flow, parents@, claimed_nodes@),
            { self.try_reduce_if_else(node, cond_jmp, cond_flow, parents, claimed_nodes) };
        let first = self.try_reduce_bi_flow(node, cond_flow, cond_jmp);
        let second = first.inner_or_else(and_or);
        let third = second.inner_or_else(while_loop);
        let fourth = third.inner_or_else(if_then);
        fourth.inner_or_else(if_else)
    }

    /// What a fall-through to `then` at `node` becomes: a while loop or an
    /// if.
    fn reduce_fall_through(
        &self,
        node: usize,
        then: usize,
        parents: &[FlowType],
        claimed_nodes: &HashSet<usize>,
    ) -> (r: Result<Option<ControlFlow>, NodeReductionError>)
        requires
            self.wf(),
            then < self.node_count(),
        ensures
            r == or_else(
                self.while_result(node, then, None, parents@, claimed_nodes@),
                self.if_result(node, then, None, parents@, claimed_nodes@),
            ),
    {
        let if_then = || -> (r: Result<Option<ControlFlow>, NodeReductionError>)
            requires
                self.wf(),
                then < self.node_count(),
            ensures
                r == self.if_result(node, then, None, parents@, claimed_nodes@),
            { self.try_reduce_if(node, then, None, parents, claimed_nodes) };
        self.try_reduce_while_loop(node, then, None, parents, claimed_nodes).inner_or_else(if_then)
    }

    /// The edges out of `node` to nodes outside its domination frontier,
    /// and those to nodes in it, each in order.
    fn split_edges(&self, node: usize) -> (r: (Vec<(usize, EdgeType)>, Vec<(usize, EdgeType)>))
        requires
            self.wf(),
            node < self.node_count(),
        ensures
            r.0@ == self.dominated_edges(node),
            r.1@ == self.frontier_edges(node),
            forall|t: int| 0 <= t < r.0@.len() ==> (#[trigger] r.0@[t]).0 < self.node_count(),
            forall|t: int| 0 <= t < r.1@.len() ==> (#[trigger] r.1@[t]).0 < self.node_count(),
    {
        let ghost edges = self.edges();
        let ghost front = self.front(node);
        let n = self.dominators.len();
        let out = outgoing(self.graph, node);
        proof {
            lemma_outgoing_edges(edges, node);
        }
        let mut dominated: Vec<(usize, EdgeType)> = Vec::new();
        let mut frontier: Vec<(usize, EdgeType)> = Vec::new();
        let mut k: usize = 0;
        while k < out.len()
            invariant
                self.wf(),
                n == self.node_count(),
                node < n,
                edges == self.edges(),
                front == self.front(node),
                out@ == outgoing_edges(edges, node),
                forall|t: int| 0 <= t < out@.len() ==> edge_is(edges, node, (#[trigger] out@[t]).0, out@[t].1),
                k <= out@.len(),
                dominated@ == dominated_part(out@.take(k as int), front),
                frontier@ == frontier_part(out@.take(k as int), front),
                forall|t: int| 0 <= t < dominated@.len() ==> (#[trigger] dominated@[t]).0 < n,
                forall|t: int| 0 <= t < frontier@.len() ==> (#[trigger] frontier@[t]).0 < n,
            decreases out@.len() - k,
        {
            let e = out[k];
            proof {
                assert(edge_is(edges, node, out@[k as int].0, out@[k as int].1));
                let j = choose|j: int| 0 <= j < edges.len() && edges[j] == (node, out@[k as int].0, out@[k as int].1);
                let t = out@.take(k + 1);
                assert(t.drop_last() =~= out@.take(k as int));
                assert(t.last() == e);
            }
            if self.frontiers[node].contains(&e.0) {
                frontier.push(e);
            } else {
                dominated.push(e);
            }
            k = k + 1;
        }
        assert(out@.take(k as int) =~= out@);
        (dominated, frontier)
    }

    /// The construct `node` becomes, by the shape of its dominated and
    /// frontier edges.
    pub fn reduce_node(&self, node: usize, parents: &[FlowType], claimed_nodes: &HashSet<usize>) -> (r: Result<
        ControlFlow,
        NodeReductionError,
    >)
        requires
            self.wf(),
            node < self.node_count(),
            self.recognized(node),
            forall|i: int| 0 <= i < parents@.len() ==> (#[trigger] parents@[i]).node_of() < self.node_count(),
        ensures
            self.reduces_to(node, parents@, claimed_nodes@, r),
            r matches Ok(flow) ==> flow.node_spec() == node && flow_within(flow, self.node_count()),
    {
        let (dominated, frontier) = self.split_edges(node);
        let dl = dominated.len();
        let fl = frontier.len();
        if dl == 2 {
            let (a, a_kind) = dominated[0];
            let (b, b_kind) = dominated[1];
            let pair = if matches!(a_kind, EdgeType::ConditionalJump) && matches!(b_kind, EdgeType::ConditionalFlow) {
                Some((b, a))
            } else if matches!(a_kind, EdgeType::ConditionalFlow) && matches!(b_kind, EdgeType::ConditionalJump) {
                Some((a, b))
            } else {
                None
            };
            if let Some((cond_flow, cond_jmp)) = pair {
                let found = self.reduce_condition(node, cond_flow, cond_jmp, parents, claimed_nodes);
                proof {
                    self.lemma_if_else_after_within(node, cond_jmp, cond_flow, parents@, claimed_nodes@);
                }
                return match found {
                    Err(e) => Err(e),
                    Ok(Some(flow)) => Ok(flow),
                    Ok(None) => Err(NodeReductionError { node, message: "Unrecognized control flow" }),
                };
            }
        }
        if dl == 1 && matches!(dominated[0].1, EdgeType::ConditionalFlow) {
            let found = self.reduce_fall_through(node, dominated[0].0, parents, claimed_nodes);
            return match found {
                Err(e) => Err(e),
                Ok(Some(flow)) => Ok(flow),
                Ok(None) => Err(NodeReductionError { node, message: "Unrecognized control flow" }),
            };
        }
        if dl > 0 && (matches!(dominated[dl - 1].1, EdgeType::Case(_)) || matches!(dominated[0].1, EdgeType::Case(_)))
            && fl == 0 {
            proof {
                let groups = group_cases(dominated@.reverse());
                if has_case_end(dominated@) {
                    assert(bubble_passes(self.case_fn(node), groups, sort_limit(groups.len())) is Some);
                    assert(passes_end(self.case_fn(node), groups));
                }
            }
            return self.reduce_switch(node, dominated.as_slice(), parents, claimed_nodes);
        }
        if dl == 1 && (matches!(dominated[0].1, EdgeType::Flow) || matches!(dominated[0].1, EdgeType::Jump)) && fl == 0 {
            return Ok(ControlFlow::Flow { node, after: dominated[0].0 });
        }
        if dl == 0 && fl == 1 && matches!(frontier[0].1, EdgeType::Jump) {
            let target = frontier[0].0;
            return match self.try_reduce_break(node, target, parents) {
                Some(flow) => Ok(flow),
                None => match self.try_reduce_continue(node, target, parents) {
                    Some(flow) => Ok(flow),
                    None => Ok(ControlFlow::Leaf { node }),
                },
            };
        }
        if dl == 0 && fl == 1 && matches!(frontier[0].1, EdgeType::Flow) && self.is_valid_after_node(
            frontier[0].0,
            parents,
            claimed_nodes,
        ) {
            return Ok(ControlFlow::Flow { node, after: frontier[0].0 });
        }
        Ok(ControlFlow::Leaf { node })
    }


    /// What a finished walk from `root` gives: a construct for `root`, and for
    /// each node one that starts at it and leads only to nodes of the graph
    /// that have a construct too.
    pub open spec fn walk_result(&self, root: usize, map: Map<usize, ControlFlow>) -> bool {
        &&& map.contains_key(root)
        &&& forall|k: usize| #[trigger] map.contains_key(k) ==> map[k].node_spec() == k && flow_within(
            map[k],
            self.node_count(),
        )
        &&& forall|k: usize, i: int|
            #[trigger] map.contains_key(k) && 0 <= i < pushed_nodes(map[k]).len() ==> map.contains_key(
                #[trigger] pushed_nodes(map[k])[i],
            )
    }

    /// The state after the walk reduces the node on top of its stack to
    /// `flow`: the enclosing constructs are cut back to the node's depth and
    /// the construct's kind is added, the nodes it leads to are set aside and
    /// claimed, and the construct is recorded for the node.
    pub open spec fn walk_step(&self, s: WalkState, flow: ControlFlow) -> WalkState {
        let (node, depth) = s.stack.last();
        WalkState {
            stack: s.stack.drop_last() + pushed_entries(flow, depth),
            parents: kept_parents(s.parents, depth).push(flow_type_of(flow)),
            claimed: s.claimed + pushed_nodes(flow).to_set(),
            map: s.map.insert(node, flow),
        }
    }

    /// Whether step `i` of a walk reduces the node on top of the stack of
    /// `trace[i]`, within the enclosing constructs kept at its depth and the
    /// claimed nodes, to `flows[i]`, and leads to `trace[i + 1]`.
    pub open spec fn step_taken(&self, trace: Seq<WalkState>, flows: Seq<ControlFlow>, i: int) -> bool {
        let s = trace[i];
        &&& s.stack.len() > 0
        &&& self.reduces_to(s.stack.last().0, kept_parents(s.parents, s.stack.last().1), s.claimed, Ok(flows[i]))
        &&& trace[i + 1] == self.walk_step(s, flows[i])
    }

    /// Whether `trace` is the walk from `root` that reduces nodes to
    /// `flows`, one step each.
    pub open spec fn walk_trace(&self, root: usize, trace: Seq<WalkState>, flows: Seq<ControlFlow>) -> bool {
        &&& trace.len() == flows.len() + 1
        &&& trace[0] == walk_start(root)
        &&& forall|i: int| 0 <= i < flows.len() ==> #[trigger] self.step_taken(trace, flows, i)
    }

    /// Whether the walk from `root` ends, its stack empty, with `map`.
    pub open spec fn walk_ends_with(&self, root: usize, map: Map<usize, ControlFlow>) -> bool {
        exists|trace: Seq<WalkState>, flows: Seq<ControlFlow>|
            #[trigger] self.walk_trace(root, trace, flows) && trace.last().stack.len() == 0 && trace.last().map == map
    }

    /// Whether the walk from `root` fails with `e`: the node on top of its
    /// stack reduces to `e`, or it has taken `usize::MAX` steps and `e` says
    /// that it does not end.
    pub open spec fn walk_fails_with(&self, root: usize, e: NodeReductionError) -> bool {
        exists|trace: Seq<WalkState>, flows: Seq<ControlFlow>|
            #[trigger] self.walk_trace(root, trace, flows) && trace.last().stack.len() > 0 && ({
                let s = trace.last();
                ||| self.reduces_to(s.stack.last().0, kept_parents(s.parents, s.stack.last().1), s.claimed, Err(e))
                ||| flows.len() == usize::MAX && e == (NodeReductionError {
                    node: root,
                    message: "control flow walk does not end",
                })
            })
    }

    /// Whether the walk from `root` reaches a node whose edges form a shape
    /// the reducer does not handle.
    pub open spec fn walk_blocked(&self, root: usize) -> bool {
        exists|trace: Seq<WalkState>, flows: Seq<ControlFlow>|
            #[trigger] self.walk_trace(root, trace, flows) && trace.last().stack.len() > 0 && !self.recognized(
                trace.last().stack.last().0,
            )
    }


    /// Sets aside the nodes a construct leads to, in the order of
    /// `pushed_nodes`: the node after it at `depth`, its branches one level
    /// deeper; each is claimed.
    fn push_children(
        &self,
        flow: &ControlFlow,
        depth: usize,
        stack: &mut Vec<(usize, usize)>,
        claimed_nodes: &mut HashSet<usize>,
    )
        requires
            depth < usize::MAX,
        ensures
            final(stack)@ == old(stack)@ + pushed_entries(*flow, depth),
            final(claimed_nodes)@ == old(claimed_nodes)@ + pushed_nodes(*flow).to_set(),
    {
        let ghost start = stack@;
        let ghost start_claimed = claimed_nodes@;
        let start_len = stack.len();
        match flow {
            ControlFlow::If { then, after, .. } => {
                if let Some(after) = after {
                    stack.push((*after, depth));
                }
                stack.push((*then, depth + 1));
            },
            ControlFlow::IfElse { then, els, after, .. } => {
                if let Some(after) = after {
                    stack.push((*after, depth));
                }
                stack.push((*els, depth + 1));
                stack.push((*then, depth + 1));
            },
            ControlFlow::AndOr { with, after, .. } => {
                stack.push((*after, depth));
                stack.push((*with, depth + 1));
            },
            ControlFlow::WhileLoop { body, after, .. } => {
                if let Some(after) = after {
                    stack.push((*after, depth));
                }
                stack.push((*body, depth + 1));
            },
            ControlFlow::Flow { after, .. } => {
                stack.push((*after, depth));
            },
            ControlFlow::Switch { cases, after, .. } => {
                if let Some(after) = after {
                    stack.push((*after, depth));
                }
                let ghost base = stack@;
                let mut i: usize = 0;
                while i < cases.len()
                    invariant
                        depth < usize::MAX,
                        i <= cases@.len(),
                        stack@ == base + cases@.take(i as int).map_values(|c: (usize, Vec<CaseValue>)| (c.0, (depth + 1) as usize)),
                    decreases cases@.len() - i,
                {
                    stack.push((cases[i].0, depth + 1));
                    i = i + 1;
                    assert(stack@ =~= base + cases@.take(i as int).map_values(|c: (usize, Vec<CaseValue>)| (c.0, (depth + 1) as usize)));
                }
                assert(cases@.take(i as int) =~= cases@);
            },
            ControlFlow::Leaf { .. } | ControlFlow::Break { .. } | ControlFlow::Continue { .. } => {},
        }
        assert(stack@ =~= start + pushed_entries(*flow, depth));
        proof {
            lemma_pushed_entries(*flow, depth);
        }
        let mut i: usize = start_len;
        while i < stack.len()
            invariant
                start_len == start.len(),
                start.len() <= i <= stack@.len(),
                stack@ == start + pushed_entries(*flow, depth),
                pushed_entries(*flow, depth).len() == pushed_nodes(*flow).len(),
                forall|k: int|
                    0 <= k < pushed_nodes(*flow).len() ==> (#[trigger] pushed_entries(*flow, depth)[k]).0
                        == pushed_nodes(*flow)[k],
                forall|t: usize| #[trigger] claimed_nodes@.contains(t) <==> start_claimed.contains(t) || exists|k: int|
                    0 <= k < i - start.len() && pushed_nodes(*flow)[k] == t,
            decreases stack@.len() - i,
        {
            let ghost k = i - start.len();
            assert(stack@[i as int] == pushed_entries(*flow, depth)[k]);
            claimed_nodes.insert(stack[i].0);
            i = i + 1;
        }
        assert forall|t: usize| #[trigger] claimed_nodes@.contains(t) <==> (start_claimed + pushed_nodes(*flow).to_set()).contains(t) by {
            if pushed_nodes(*flow).contains(t) {
                let k = choose|k: int| 0 <= k < pushed_nodes(*flow).len() && pushed_nodes(*flow)[k] == t;
            }
        }
        assert(claimed_nodes@ =~= start_claimed + pushed_nodes(*flow).to_set());
    }

    /// The constructs of the nodes that a walk from `root` reaches: each
    /// node taken from the top of a stack is reduced within the constructs
    /// it is nested in, and the nodes its construct leads to are set aside
    /// and claimed. The walk gives up with an error for `root` once it has
    /// taken `usize::MAX` steps.
    pub fn reduce(&self, root: usize) -> (r: Result<HashMap<usize, ControlFlow>, NodeReductionError>)
        requires
            self.wf(),
            root < self.node_count(),
            !self.walk_blocked(root),
        ensures
            r matches Ok(map) ==> self.walk_ends_with(root, map@) && self.walk_result(root, map@),
            r matches Err(e) ==> self.walk_fails_with(root, e),
    {
        match self.walk(root) {
            Some(r) => r,
            None => {
                assert(false);
                Err(NodeReductionError { node: root, message: "Unrecognized control flow" })
            },
        }
    }

    /// The walk from `root`, or `None` where it reaches a node whose edges
    /// form a shape the reducer does not handle.
    #[verifier::rlimit(40)]
    pub fn walk(&self, root: usize) -> (r: Option<Result<HashMap<usize, ControlFlow>, NodeReductionError>>)
        requires
            self.wf(),
            root < self.node_count(),
        ensures
            r is None ==> self.walk_blocked(root),
            r matches Some(Ok(map)) ==> self.walk_ends_with(root, map@) && self.walk_result(root, map@),
            r matches Some(Err(e)) ==> self.walk_fails_with(root, e),
    {
        let n = self.dominators.len();
        let mut result: HashMap<usize, ControlFlow> = HashMap::new();
        let mut parents: Vec<FlowType> = Vec::new();
        let mut stack: Vec<(usize, usize)> = Vec::new();
        stack.push((root, 0));
        assert(stack@[0].0 == root);
        let mut claimed_nodes: HashSet<usize> = HashSet::new();
        let mut steps: usize = 0;
        let ghost mut trace: Seq<WalkState> = seq![walk_start(root)];
        let ghost mut flows: Seq<ControlFlow> = seq![];
        assert(stack@ =~= seq![(root, 0usize)]);
        assert(parents@ =~= Seq::<FlowType>::empty());
        assert(claimed_nodes@ =~= Set::<usize>::empty());
        assert(result@ =~= Map::<usize, ControlFlow>::empty());
        while stack.len() > 0
            invariant
                self.walk_trace(root, trace, flows),
                flows.len() == steps,
                trace.last() == (WalkState { stack: stack@, parents: parents@, claimed: claimed_nodes@, map: result@ }),
                self.wf(),
                n == self.node_count(),
                forall|i: int| 0 <= i < stack@.len() ==> (#[trigger] stack@[i]).0 < n && stack@[i].1 <= steps,
                forall|i: int| 0 <= i < parents@.len() ==> (#[trigger] parents@[i]).node_of() < n,
                result@.contains_key(root) || in_stack(stack@, root),
                forall|k: usize| #[trigger] result@.contains_key(k) ==> {
                    &&& result@[k].node_spec() == k
                    &&& flow_within(result@[k], n as nat)
                    &&& forall|i: int| 0 <= i < pushed_nodes(result@[k]).len() ==> result@.contains_key(#[trigger] pushed_nodes(result@[k])[i])
                        || in_stack(stack@, pushed_nodes(result@[k])[i])
                },
            decreases usize::MAX - steps,
        {
            if steps == usize::MAX {
                assert(self.walk_trace(root, trace, flows));
                return Some(Err(NodeReductionError { node: root, message: "control flow walk does not end" }));
            }
            steps = steps + 1;
            let ghost before = stack@;
            let ghost old_result = result@;
            let (node, depth) = stack.pop().unwrap();
            assert(before[before.len() - 1] == (node, depth));
            if depth < parents.len() {
                parents.truncate(depth + 1);
            }
            if !self.is_recognized(node) {
                assert(self.walk_trace(root, trace, flows));
                return None;
            }
            let ghost call_parents = parents@;
            let ghost call_claimed = claimed_nodes@;
            let reduced = match self.reduce_node(node, parents.as_slice(), &claimed_nodes) {
                Ok(flow) => flow,
                Err(e) => {
                    assert(self.walk_trace(root, trace, flows));
                    return Some(Err(e));
                },
            };
            let ghost mid = stack@;
            self.push_children(&reduced, depth, &mut stack, &mut claimed_nodes);
            proof {
                lemma_pushed_entries(reduced, depth);
            }
            parents.push(reduced.flow_type());
            result.insert(node, reduced);
            proof {
                assert forall|i: int| 0 <= i < stack@.len() implies (#[trigger] stack@[i]).0 < n && stack@[i].1 <= steps by {
                    if i < mid.len() {
                        assert(stack@[i] == mid[i]);
                        assert(stack@[i] == before[i]);
                    } else {
                        let j = i - mid.len();
                        assert(stack@[i] == pushed_entries(reduced, depth)[j]);
                    }
                }
                assert forall|t: usize| #[trigger] in_stack(before, t) && t != node implies in_stack(stack@, t) by {
                    let j = choose|j: int| 0 <= j < before.len() && before[j].0 == t;
                    assert(j < mid.len());
                    assert(stack@[j] == mid[j]);
                }
                assert forall|k: usize| #[trigger] result@.contains_key(k) implies {
                    &&& result@[k].node_spec() == k
                    &&& flow_within(result@[k], n as nat)
                    &&& forall|i: int| 0 <= i < pushed_nodes(result@[k]).len() ==> result@.contains_key(#[trigger] pushed_nodes(result@[k])[i])
                        || in_stack(stack@, pushed_nodes(result@[k])[i])
                } by {
                    if k == node {
                        assert forall|i: int| 0 <= i < pushed_nodes(result@[k]).len() implies result@.contains_key(#[trigger] pushed_nodes(result@[k])[i])
                            || in_stack(stack@, pushed_nodes(result@[k])[i]) by {
                            assert(stack@[mid.len() + i] == pushed_entries(reduced, depth)[i]);
                        }
                    } else {
                        assert(old_result.contains_key(k));
                        assert forall|i: int| 0 <= i < pushed_nodes(result@[k]).len() implies result@.contains_key(#[trigger] pushed_nodes(result@[k])[i])
                            || in_stack(stack@, pushed_nodes(result@[k])[i]) by {
                            let t = pushed_nodes(result@[k])[i];
                            if !old_result.contains_key(t) && t != node {
                                assert(in_stack(before, t));
                            }
                        }
                    }
                }
                if !old_result.contains_key(root) && root != node {
                    assert(in_stack(before, root));
                }
                let old_state = trace.last();
                let new_state = WalkState { stack: stack@, parents: parents@, claimed: claimed_nodes@, map: result@ };
                assert(call_parents == kept_parents(old_state.parents, depth)) by {
                    if depth < old_state.parents.len() {
                        assert(call_parents =~= old_state.parents.take(depth + 1));
                    }
                }
                assert(mid =~= before.drop_last());
                assert(new_state == self.walk_step(old_state, reduced));
                let old_trace = trace;
                let old_flows = flows;
                trace = trace.push(new_state);
                flows = flows.push(reduced);
                assert forall|i: int| 0 <= i < flows.len() implies #[trigger] self.step_taken(trace, flows, i) by {
                    if i < old_flows.len() {
                        assert(self.step_taken(old_trace, old_flows, i));
                        assert(trace[i] == old_trace[i] && trace[i + 1] == old_trace[i + 1] && flows[i] == old_flows[i]);
                    } else {
                        assert(trace[i] == old_state && trace[i + 1] == new_state && flows[i] == reduced);
                    }
                }
            }
        }
        proof {
            assert(self.walk_trace(root, trace, flows));
            assert forall|k: usize, i: int|
                #[trigger] result@.contains_key(k) && 0 <= i < pushed_nodes(result@[k]).len() implies result@.contains_key(
                    #[trigger] pushed_nodes(result@[k])[i],
                ) by {
                assert(!in_stack(stack@, pushed_nodes(result@[k])[i]));
            }
        }
        Some(Ok(result))
    }


    /// Whether sorting the cases of switch `node` ends within `sort_limit`
    /// passes: the sort is tried on their nodes, by which they are ordered.
    fn sort_ends(&self, node: usize, groups: &Vec<CaseGroup>) -> (r: bool)
        ensures
            r == self.case_sort_ends(node, cases_view(groups@)),
    {
        let len = groups.len();
        if len < 2 {
            return false;
        }
        let mut ids: Vec<usize> = Vec::new();
        let mut i: usize = 0;
        while i < len
            invariant
                len == groups@.len(),
                i <= len,
                ids@.len() == i,
                forall|j: int| 0 <= j < i ==> ids@[j] == (#[trigger] groups@[j]).0,
            decreases len - i,
        {
            ids.push(groups[i].0);
            i = i + 1;
        }
        let limit = pass_limit(len);
        let compare = |a: &usize, b: &usize| -> (o: Result<Ordering, NodeReductionError>)
            ensures
                o == self.case_order(node, *a, *b),
            {
                self.order_cases(node, *a, *b)
            };
        let ghost ids0 = ids@;
        let ghost key = |c: (usize, Seq<CaseValue>)| c.0;
        proof {
            assert forall|a: usize, b: usize, o: Result<Ordering, NodeReductionError>|
                #[trigger] call_ensures(compare, (&a, &b), o) implies o == self.node_order_fn(node)(a, b) by {}
            assert(answers_as(compare, self.node_order_fn(node)));
        }
        let ended = bubble_sort_within(ids.as_mut_slice(), compare, limit, Ghost(sort_limit(groups@.len())));
        proof {
            let g = cases_view(groups@);
            assert(g.map_values(key) =~= ids0);
            lemma_passes_map(self.case_fn(node), self.node_order_fn(node), key, g, sort_limit(g.len()));
        }
        ended.is_some()
    }

    /// Whether every edge is a case or a fall-through.
    fn switch_edges_only(edges: &Vec<(usize, EdgeType)>) -> (r: bool)
        ensures
            r == forall|i: int| 0 <= i < edges@.len() ==> is_switch_edge(#[trigger] edges@[i].1),
    {
        let mut i: usize = 0;
        while i < edges.len()
            invariant
                i <= edges@.len(),
                forall|j: int| 0 <= j < i ==> is_switch_edge(#[trigger] edges@[j].1),
            decreases edges@.len() - i,
        {
            if !(matches!(edges[i].1, EdgeType::Case(_)) || matches!(edges[i].1, EdgeType::ConditionalFlow)) {
                return false;
            }
            i = i + 1;
        }
        true
    }

    /// Whether the edges out of `node` form a shape the reducer handles.
    pub fn is_recognized(&self, node: usize) -> (r: bool)
        requires
            self.wf(),
            node < self.node_count(),
        ensures
            r == self.recognized(node),
    {
        let (d, f) = self.split_edges(node);
        let dl = d.len();
        let fl = f.len();
        let condition = dl == 2 && ((matches!(d[0].1, EdgeType::ConditionalJump) && matches!(d[1].1, EdgeType::ConditionalFlow))
            || (matches!(d[0].1, EdgeType::ConditionalFlow) && matches!(d[1].1, EdgeType::ConditionalJump)));
        let fall_through = dl == 1 && matches!(d[0].1, EdgeType::ConditionalFlow);
        let switch = if dl > 0 && (matches!(d[dl - 1].1, EdgeType::Case(_)) || matches!(d[0].1, EdgeType::Case(_))) && fl == 0 {
            let groups = group_switch_cases(d.as_slice());
            Self::switch_edges_only(&d) && self.sort_ends(node, &groups)
        } else {
            false
        };
        let single = dl == 1 && (matches!(d[0].1, EdgeType::Flow) || matches!(d[0].1, EdgeType::Jump)) && fl == 0;
        let leaves = dl == 0 && fl == 1 && (matches!(f[0].1, EdgeType::Jump) || matches!(f[0].1, EdgeType::Flow));
        let both_leave = dl == 0 && fl == 2 && ((matches!(f[0].1, EdgeType::ConditionalFlow) && matches!(f[1].1, EdgeType::ConditionalJump))
            || (matches!(f[0].1, EdgeType::ConditionalJump) && matches!(f[1].1, EdgeType::ConditionalFlow))) && f[0].0 == f[1].0;
        let empty = dl == 0 && fl == 0;
        condition || fall_through || switch || single || leaves || both_leave || empty
    }


}

} // verus!
