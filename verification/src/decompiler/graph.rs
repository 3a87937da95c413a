use crate::decompiler::control_flow::EdgeType;
use petgraph::graph::{DiGraph, NodeIndex};
use petgraph::visit::EdgeRef;
use std::collections::HashSet;
use vstd::prelude::*;

verus! {

/// `petgraph::Graph`, the graph a function's nodes and edges are held in.
#[verifier::external_type_specification]
#[verifier::external_body]
#[verifier::reject_recursive_types(N)]
#[verifier::reject_recursive_types(E)]
#[verifier::reject_recursive_types(Ty)]
#[verifier::reject_recursive_types(Ix)]
pub struct ExGraph<N, E, Ty, Ix>(petgraph::Graph<N, E, Ty, Ix>);

/// `petgraph::Directed`, the kind of a directed graph.
#[verifier::external_type_specification]
#[verifier::external_body]
pub struct ExDirected(petgraph::Directed);

/// The graph of a function: each node weighs the range of instruction
/// indices it spans, each edge its kind.
pub type BlockGraph = DiGraph<(usize, usize), EdgeType>;

/// The node weights of a graph, by node index.
pub uninterp spec fn graph_nodes(g: BlockGraph) -> Seq<(usize, usize)>;

/// The edges of a graph, source, target and weight, in the order they were
/// added.
pub uninterp spec fn graph_edges(g: BlockGraph) -> Seq<(usize, usize, EdgeType)>;

/// The immediate dominator of each of `node_count` nodes in the graph with
/// the given edges, seen from `root`.
pub uninterp spec fn immediate_dominators_of(
    node_count: nat,
    edges: Seq<(usize, usize)>,
    root: usize,
) -> Seq<Option<usize>>;

/// Whether `p` is a path from `from` to `to` along `edges`.
pub open spec fn edge_path(edges: Seq<(usize, usize)>, from: usize, to: usize, p: Seq<usize>) -> bool {
    &&& p.len() > 0
    &&& p[0] == from
    &&& p.last() == to
    &&& forall|i: int| 0 <= i < p.len() - 1 ==> #[trigger] edges.contains((p[i], p[i + 1]))
}

/// Whether every path from `root` to `b` goes through `a`.
pub open spec fn dominates(edges: Seq<(usize, usize)>, root: usize, a: usize, b: usize) -> bool {
    forall|p: Seq<usize>| #[trigger] edge_path(edges, root, b, p) ==> p.contains(a)
}

/// Whether some path leads from `root` to `b`.
pub open spec fn reachable_from(edges: Seq<(usize, usize)>, root: usize, b: usize) -> bool {
    exists|p: Seq<usize>| #[trigger] edge_path(edges, root, b, p)
}

/// The sources and targets of edges.
pub open spec fn edge_pairs(edges: Seq<(usize, usize, EdgeType)>) -> Seq<(usize, usize)> {
    edges.map_values(|e: (usize, usize, EdgeType)| (e.0, e.1))
}

/// The targets and weights of the edges out of `a`, the most recently
/// added first.
pub open spec fn outgoing_edges(edges: Seq<(usize, usize, EdgeType)>, a: usize) -> Seq<(usize, EdgeType)>
    decreases edges.len(),
{
    if edges.len() == 0 {
        seq![]
    } else {
        let e = edges.last();
        (if e.0 == a {
            seq![(e.1, e.2)]
        } else {
            seq![]
        }) + outgoing_edges(edges.drop_last(), a)
    }
}

/// The sources of the edges into `b`, the most recently added first.
pub open spec fn incoming_sources(edges: Seq<(usize, usize, EdgeType)>, b: usize) -> Seq<usize>
    decreases edges.len(),
{
    if edges.len() == 0 {
        seq![]
    } else {
        let e = edges.last();
        (if e.1 == b {
            seq![e.0]
        } else {
            seq![]
        }) + incoming_sources(edges.drop_last(), b)
    }
}

/// How many of the nodes below `i` are kept.
pub open spec fn kept_before(kept: Set<usize>, i: nat) -> nat
    decreases i,
{
    if i == 0 {
        0
    } else {
        kept_before(kept, (i - 1) as nat) + if kept.contains((i - 1) as usize) {
            1nat
        } else {
            0
        }
    }
}

/// The weights of the kept nodes, in order.
pub open spec fn kept_nodes(nodes: Seq<(usize, usize)>, kept: Set<usize>) -> Seq<(usize, usize)>
    decreases nodes.len(),
{
    if nodes.len() == 0 {
        seq![]
    } else {
        kept_nodes(nodes.drop_last(), kept) + if kept.contains((nodes.len() - 1) as usize) {
            seq![nodes.last()]
        } else {
            seq![]
        }
    }
}

/// The edges between kept nodes, in order, their ends renumbered by the
/// kept nodes' new indices.
pub open spec fn kept_edges(edges: Seq<(usize, usize, EdgeType)>, kept: Set<usize>) -> Seq<
    (usize, usize, EdgeType),
>
    decreases edges.len(),
{
    if edges.len() == 0 {
        seq![]
    } else {
        let e = edges.last();
        kept_edges(edges.drop_last(), kept) + if kept.contains(e.0) && kept.contains(e.1) {
            seq![(kept_before(kept, e.0 as nat) as usize, kept_before(kept, e.1 as nat) as usize, e.2)]
        } else {
            seq![]
        }
    }
}

/// An empty graph: `DiGraph::new`.
#[verifier::external_body]
pub(crate) fn new_graph() -> (r: BlockGraph)
    ensures
        graph_nodes(r) == Seq::<(usize, usize)>::empty(),
        graph_edges(r) == Seq::<(usize, usize, EdgeType)>::empty(),
{
    DiGraph::new()
}

/// `Graph::add_node`: appends a node with the given weight and returns its
/// index; it panics once the graph holds `u32::MAX` nodes.
#[verifier::external_body]
pub(crate) fn add_node(g: &mut BlockGraph, weight: (usize, usize)) -> (r: usize)
    requires
        graph_nodes(*old(g)).len() < u32::MAX,
    ensures
        graph_nodes(*final(g)) == graph_nodes(*old(g)).push(weight),
        graph_edges(*final(g)) == graph_edges(*old(g)),
        r == graph_nodes(*old(g)).len(),
{
    g.add_node(weight).index()
}

/// `Graph::add_edge`: appends an edge from `a` to `b`; it panics where a
/// node does not exist or once the graph holds `u32::MAX` edges.
#[verifier::external_body]
pub(crate) fn add_edge(g: &mut BlockGraph, a: usize, b: usize, weight: EdgeType)
    requires
        a < graph_nodes(*old(g)).len(),
        b < graph_nodes(*old(g)).len(),
        graph_edges(*old(g)).len() < u32::MAX,
    ensures
        graph_nodes(*final(g)) == graph_nodes(*old(g)),
        graph_edges(*final(g)) == graph_edges(*old(g)).push((a, b, weight)),
{
    g.add_edge(NodeIndex::new(a), NodeIndex::new(b), weight);
}

/// `Graph::edges_directed` with `Outgoing`: the targets and weights of the
/// edges out of `a`; its documentation says that a directed graph lists
/// them in reverse order of their addition.
#[verifier::external_body]
pub(crate) fn outgoing(g: &BlockGraph, a: usize) -> (r: Vec<(usize, EdgeType)>)
    requires
        a < graph_nodes(*g).len(),
    ensures
        r@ == outgoing_edges(graph_edges(*g), a),
{
    let mut r = Vec::new();
    for e in g.edges_directed(NodeIndex::new(a), petgraph::Direction::Outgoing) {
        r.push((e.target().index(), *e.weight()));
    }
    r
}

/// `Graph::neighbors_directed` with `Incoming`: the sources of the edges
/// into `b`, which its documentation says come in reverse order of their
/// addition.
#[verifier::external_body]
pub(crate) fn incoming(g: &BlockGraph, b: usize) -> (r: Vec<usize>)
    requires
        b < graph_nodes(*g).len(),
    ensures
        r@ == incoming_sources(graph_edges(*g), b),
{
    let mut r = Vec::new();
    for n in g.neighbors_directed(NodeIndex::new(b), petgraph::Direction::Incoming) {
        r.push(n.index());
    }
    r
}

/// `Graph::edge_references`: every edge, source, target and weight, in the
/// order of its index, which is the order the edges were added in.
#[verifier::external_body]
pub(crate) fn graph_edge_list(g: &BlockGraph) -> (r: Vec<(usize, usize, EdgeType)>)
    ensures
        r@ == graph_edges(*g),
{
    let mut r = Vec::new();
    for e in g.edge_references() {
        r.push((e.source().index(), e.target().index(), *e.weight()));
    }
    r
}

/// The weight of node `a`, if it exists: `Graph::node_weight`.
#[verifier::external_body]
pub(crate) fn node_weight(g: &BlockGraph, a: usize) -> (r: Option<(usize, usize)>)
    requires
        a < u32::MAX,
    ensures
        a < graph_nodes(*g).len() ==> r == Some(graph_nodes(*g)[a as int]),
        a >= graph_nodes(*g).len() ==> r is None,
{
    g.node_weight(NodeIndex::new(a)).copied()
}

/// `Graph::filter_map` keeping the nodes in `kept` and every edge between
/// them: its source keeps the kept nodes in order and adds the edges whose
/// ends were both kept, in order, between their new indices.
#[verifier::external_body]
pub(crate) fn keep_nodes(g: &BlockGraph, kept: &HashSet<usize>) -> (r: BlockGraph)
    ensures
        graph_nodes(r) == kept_nodes(graph_nodes(*g), kept@),
        graph_edges(r) == kept_edges(graph_edges(*g), kept@),
{
    g.filter_map(|node, weight| kept_weight(kept, node.index(), weight), |_, weight| same_weight(weight))
}

/// The weight of node `index` where it is kept.
pub(crate) fn kept_weight(kept: &HashSet<usize>, index: usize, weight: &(usize, usize)) -> (r: Option<
    (usize, usize),
>)
    ensures
        r == (if kept@.contains(index) {
            Some(*weight)
        } else {
            None
        }),
{
    broadcast use vstd::std_specs::hash::group_hash_axioms;

    if kept.contains(&index) {
        Some(*weight)
    } else {
        None
    }
}

/// An edge weight kept as it is.
pub(crate) fn same_weight(weight: &EdgeType) -> (r: Option<EdgeType>)
    ensures
        r == Some(*weight),
{
    Some(*weight)
}

/// `petgraph::algo::dominators::simple_fast` from `root`, then
/// `Dominators::immediate_dominator` of each node: by its documentation,
/// none for the root and for nodes the root does not reach; otherwise the
/// node's immediate dominator, a node other than it that every path from
/// the root to it goes through, and that every other such node is on every
/// path to.
#[verifier::external_body]
pub(crate) fn immediate_dominators(g: &BlockGraph, root: usize) -> (r: Vec<Option<usize>>)
    requires
        root < graph_nodes(*g).len(),
    ensures
        r@ == immediate_dominators_of(graph_nodes(*g).len(), edge_pairs(graph_edges(*g)), root),
        r@.len() == graph_nodes(*g).len(),
        r@[root as int] is None,
        forall|i: int|
            0 <= i < r@.len() ==> (#[trigger] r@[i] matches Some(d) ==> d < graph_nodes(*g).len()),
        forall|b: usize|
            b < r@.len() && b != root ==> (#[trigger] r@[b as int] is Some <==> reachable_from(
                edge_pairs(graph_edges(*g)),
                root,
                b,
            )),
        forall|b: usize|
            b < r@.len() && #[trigger] r@[b as int] is Some ==> {
                let e = edge_pairs(graph_edges(*g));
                let d = r@[b as int]->0;
                &&& d != b
                &&& dominates(e, root, d, b)
                &&& forall|c: usize| c != b && #[trigger] dominates(e, root, c, b) ==> dominates(e, root, c, d)
            },
{
    let dominators = petgraph::algo::dominators::simple_fast(g, NodeIndex::new(root));
    let mut r = Vec::new();
    for i in 0..g.node_count() {
        r.push(
            match dominators.immediate_dominator(NodeIndex::new(i)) {
                Some(d) => Some(d.index()),
                None => None,
            },
        );
    }
    r
}

} // verus!
