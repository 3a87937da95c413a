use std::collections::{HashMap, HashSet};
use vstd::prelude::*;

verus! {

broadcast use {vstd::std_specs::hash::group_hash_axioms, vstd::std_specs::vec::group_vec_axioms};

/// The value a switch case matches.
#[derive(Debug, Clone, Copy, PartialEq, Eq, Structural)]
pub enum CaseValue {
    Default,
    Value(i64),
}

/// A structured control flow construct of a function's graph, its nodes
/// named by their index in the graph.
#[derive(Debug, Clone)]
pub enum ControlFlow {
    If { node: usize, then: usize, after: Option<usize> },
    IfElse { node: usize, then: usize, els: usize, after: Option<usize> },
    Leaf { node: usize },
    AndOr { node: usize, with: usize, after: usize },
    WhileLoop { node: usize, body: usize, after: Option<usize> },
    Flow { node: usize, after: usize },
    Break { node: usize, breaks: usize },
    Continue { node: usize, continues: usize },
    Switch { node: usize, cases: Vec<(usize, Vec<CaseValue>)>, after: Option<usize> },
}

/// How a construct treats `break`: the loop or switch it ends, or neither.
#[derive(Debug, Clone, Copy, PartialEq, Eq, Structural)]
pub enum FlowType {
    Loop { node: usize, after: Option<usize> },
    Switch { node: usize, after: Option<usize> },
    NonBreakable { node: usize, after: Option<usize> },
}

impl ControlFlow {
    /// The node the construct starts at.
    pub open spec fn node_spec(&self) -> usize {
        match self {
            ControlFlow::If { node, .. } => *node,
            ControlFlow::IfElse { node, .. } => *node,
            ControlFlow::Leaf { node } => *node,
            ControlFlow::AndOr { node, .. } => *node,
            ControlFlow::WhileLoop { node, .. } => *node,
            ControlFlow::Flow { node, .. } => *node,
            ControlFlow::Break { node, .. } => *node,
            ControlFlow::Continue { node, .. } => *node,
            ControlFlow::Switch { node, .. } => *node,
        }
    }

    /// The node control reaches after the construct, if any: conditionals,
    /// loops and switches name it when they have one, an and/or and a plain
    /// flow always have one, and a jump or a leaf has none.
    pub open spec fn after_spec(&self) -> Option<usize> {
        match self {
            ControlFlow::If { after, .. } => *after,
            ControlFlow::IfElse { after, .. } => *after,
            ControlFlow::WhileLoop { after, .. } => *after,
            ControlFlow::Switch { after, .. } => *after,
            ControlFlow::AndOr { after, .. } => Some(*after),
            ControlFlow::Flow { after, .. } => Some(*after),
            ControlFlow::Break { .. } => None,
            ControlFlow::Continue { .. } => None,
            ControlFlow::Leaf { .. } => None,
        }
    }

    /// How the construct treats `break`: a while loop is a loop and a switch
    /// a switch, each with its after node; conditionals and and/or are not
    /// breakable but keep their after node; everything else is not breakable
    /// and has none.
    pub fn flow_type(&self) -> (r: FlowType)
        ensures
            r.node_of() == self.node_spec(),
            r == flow_type_of(*self),
    {
        match self {
            ControlFlow::If { node, after, .. } | ControlFlow::IfElse { node, after, .. } => {
                FlowType::NonBreakable { node: *node, after: *after }
            },
            ControlFlow::AndOr { node, after, .. } => FlowType::NonBreakable {
                node: *node,
                after: Some(*after),
            },
            ControlFlow::WhileLoop { node, after, .. } => FlowType::Loop { node: *node, after: *after },
            ControlFlow::Switch { node, after, .. } => FlowType::Switch { node: *node, after: *after },
            ControlFlow::Flow { node, .. }
            | ControlFlow::Break { node, .. }
            | ControlFlow::Continue { node, .. }
            | ControlFlow::Leaf { node } => FlowType::NonBreakable { node: *node, after: None },
        }
    }

    /// The node the construct starts at.
    pub fn node(&self) -> (r: usize)
        ensures
            r == self.node_spec(),
    {
        match self {
            ControlFlow::If { node, .. }
            | ControlFlow::IfElse { node, .. }
            | ControlFlow::Leaf { node }
            | ControlFlow::AndOr { node, .. }
            | ControlFlow::WhileLoop { node, .. }
            | ControlFlow::Flow { node, .. }
            | ControlFlow::Break { node, .. }
            | ControlFlow::Continue { node, .. }
            | ControlFlow::Switch { node, .. } => *node,
        }
    }

    /// The node control reaches after the construct, if any.
    pub fn after(&self) -> (r: Option<usize>)
        ensures
            r == self.after_spec(),
    {
        match self {
            ControlFlow::If { after, .. }
            | ControlFlow::IfElse { after, .. }
            | ControlFlow::WhileLoop { after, .. }
            | ControlFlow::Switch { after, .. } => *after,
            ControlFlow::AndOr { after, .. } | ControlFlow::Flow { after, .. } => Some(*after),
            ControlFlow::Continue { .. } | ControlFlow::Break { .. } | ControlFlow::Leaf { .. } => None,
        }
    }
}

impl FlowType {
    /// The node the construct starts at.
    pub open spec fn node_of(self) -> usize {
        match self {
            FlowType::Loop { node, .. } => node,
            FlowType::Switch { node, .. } => node,
            FlowType::NonBreakable { node, .. } => node,
        }
    }

    /// The node control reaches after the construct, if any.
    pub open spec fn after_of(self) -> Option<usize> {
        match self {
            FlowType::Loop { after, .. } => after,
            FlowType::Switch { after, .. } => after,
            FlowType::NonBreakable { after, .. } => after,
        }
    }
}

/// How a construct treats `break`: a while loop is a loop and a switch a
/// switch, each with its after node; an if, an if/else and an and/or are
/// not breakable but keep their after node; everything else is not
/// breakable and has none.
pub open spec fn flow_type_of(flow: ControlFlow) -> FlowType {
    match flow {
        ControlFlow::WhileLoop { node, after, .. } => FlowType::Loop { node, after },
        ControlFlow::Switch { node, after, .. } => FlowType::Switch { node, after },
        ControlFlow::If { node, after, .. } => FlowType::NonBreakable { node, after },
        ControlFlow::IfElse { node, after, .. } => FlowType::NonBreakable { node, after },
        ControlFlow::AndOr { node, after, .. } => FlowType::NonBreakable { node, after: Some(after) },
        _ => FlowType::NonBreakable { node: flow.node_spec(), after: None },
    }
}

/// An optional node as a sequence of at most one node.
pub open spec fn opt_node(node: Option<usize>) -> Seq<usize> {
    match node {
        Some(n) => seq![n],
        None => seq![],
    }
}

/// The nodes a construct leads to, in the order a walk sets them aside:
/// the node after it first, then its branches from the last to the first,
/// so that the first branch is walked first.
pub open spec fn pushed_nodes(flow: ControlFlow) -> Seq<usize> {
    match flow {
        ControlFlow::If { then, after, .. } => opt_node(after) + seq![then],
        ControlFlow::IfElse { then, els, after, .. } => opt_node(after) + seq![els, then],
        ControlFlow::AndOr { with, after, .. } => seq![after, with],
        ControlFlow::WhileLoop { body, after, .. } => opt_node(after) + seq![body],
        ControlFlow::Flow { after, .. } => seq![after],
        ControlFlow::Switch { cases, after, .. } => opt_node(after) + cases@.map_values(
            |c: (usize, Vec<CaseValue>)| c.0,
        ),
        _ => seq![],
    }
}

/// Every node a construct of `nodes` leads to has a construct, of a lower
/// rank: walking from any construct ends.
pub open spec fn ranked(nodes: Map<usize, ControlFlow>, rank: spec_fn(usize) -> nat) -> bool {
    forall|k: usize, i: int|
        nodes.contains_key(k) && 0 <= i < pushed_nodes(nodes[k]).len() ==> nodes.contains_key(
            #[trigger] pushed_nodes(nodes[k])[i],
        ) && rank(pushed_nodes(nodes[k])[i]) < rank(k)
}

/// How many constructs a walk from `k` visits, counting a construct once
/// for each way it is reached.
pub open spec fn tree_size(nodes: Map<usize, ControlFlow>, rank: spec_fn(usize) -> nat, k: usize) -> nat
    decreases rank(k) + 1, 0nat,
{
    if !nodes.contains_key(k) {
        1
    } else {
        1 + sizes(nodes, rank, pushed_nodes(nodes[k]), rank(k))
    }
}

/// The tree sizes of the nodes of `cs` of rank below `bound`, added up.
pub open spec fn sizes(
    nodes: Map<usize, ControlFlow>,
    rank: spec_fn(usize) -> nat,
    cs: Seq<usize>,
    bound: nat,
) -> nat
    decreases bound, cs.len(),
{
    if cs.len() == 0 {
        0
    } else {
        sizes(nodes, rank, cs.drop_last(), bound) + if rank(cs.last()) < bound {
            tree_size(nodes, rank, cs.last())
        } else {
            0
        }
    }
}

/// The tree sizes of the nodes of a walk's stack, added up.
pub open spec fn stack_size(
    nodes: Map<usize, ControlFlow>,
    rank: spec_fn(usize) -> nat,
    stack: Seq<(usize, Option<usize>)>,
) -> nat
    decreases stack.len(),
{
    if stack.len() == 0 {
        0
    } else {
        stack_size(nodes, rank, stack.drop_last()) + tree_size(nodes, rank, stack.last().0)
    }
}

/// The nodes a construct leads to, each with the construct's node as its
/// parent.
pub open spec fn with_parent(cs: Seq<usize>, parent: usize) -> Seq<(usize, Option<usize>)> {
    cs.map_values(|c: usize| (c, Some(parent)))
}

/// The stack sizes of two stacks put together add up.
proof fn lemma_stack_size_concat(
    nodes: Map<usize, ControlFlow>,
    rank: spec_fn(usize) -> nat,
    a: Seq<(usize, Option<usize>)>,
    b: Seq<(usize, Option<usize>)>,
)
    ensures
        stack_size(nodes, rank, a + b) == stack_size(nodes, rank, a) + stack_size(nodes, rank, b),
    decreases b.len(),
{
    if b.len() == 0 {
        assert(a + b =~= a);
    } else {
        lemma_stack_size_concat(nodes, rank, a, b.drop_last());
        assert((a + b).drop_last() =~= a + b.drop_last());
    }
}

/// Nodes of rank below the bound: their sizes are their stack's size.
proof fn lemma_sizes(
    nodes: Map<usize, ControlFlow>,
    rank: spec_fn(usize) -> nat,
    cs: Seq<usize>,
    bound: nat,
    parent: usize,
)
    requires
        forall|i: int| 0 <= i < cs.len() ==> rank(#[trigger] cs[i]) < bound,
    ensures
        sizes(nodes, rank, cs, bound) == stack_size(nodes, rank, with_parent(cs, parent)),
    decreases cs.len(),
{
    if cs.len() > 0 {
        lemma_sizes(nodes, rank, cs.drop_last(), bound, parent);
        assert(with_parent(cs, parent).drop_last() =~= with_parent(cs.drop_last(), parent));
        assert(rank(cs[cs.len() - 1]) < bound);
    }
}

/// Visiting the top of a walk's stack leaves less to visit.
pub proof fn lemma_walk_step(
    nodes: Map<usize, ControlFlow>,
    rank: spec_fn(usize) -> nat,
    stack: Seq<(usize, Option<usize>)>,
)
    requires
        stack.len() > 0,
        ranked(nodes, rank),
        nodes.contains_key(stack.last().0),
    ensures
        stack_size(
            nodes,
            rank,
            stack.drop_last() + with_parent(pushed_nodes(nodes[stack.last().0]), stack.last().0),
        ) < stack_size(nodes, rank, stack),
{
    let k = stack.last().0;
    let cs = pushed_nodes(nodes[k]);
    assert forall|i: int| 0 <= i < cs.len() implies rank(#[trigger] cs[i]) < rank(k) by {
        assert(nodes.contains_key(pushed_nodes(nodes[k])[i]));
    }
    lemma_sizes(nodes, rank, cs, rank(k), k);
    lemma_stack_size_concat(nodes, rank, stack.drop_last(), with_parent(cs, k));
}

/// The constructs a depth-first walk visits, in order, each with the
/// construct it was reached from: the walk takes the top of `stack`,
/// visits it and sets aside the nodes it leads to.
pub open spec fn in_order(
    nodes: Map<usize, ControlFlow>,
    rank: spec_fn(usize) -> nat,
    stack: Seq<(usize, Option<usize>)>,
) -> Seq<(usize, Option<usize>)>
    decreases stack_size(nodes, rank, stack),
{
    if stack.len() == 0 || !ranked(nodes, rank) || !nodes.contains_key(stack.last().0) {
        seq![]
    } else {
        proof {
            lemma_walk_step(nodes, rank, stack);
        }
        let k = stack.last().0;
        seq![stack.last()] + in_order(
            nodes,
            rank,
            stack.drop_last() + with_parent(pushed_nodes(nodes[k]), k),
        )
    }
}

/// A rank that shows the walks from the constructs of `nodes` end.
pub open spec fn rank_of(nodes: Map<usize, ControlFlow>) -> spec_fn(usize) -> nat {
    choose|rank: spec_fn(usize) -> nat| ranked(nodes, rank)
}

/// The constructs of a map, by the node each starts at.
pub open spec fn flow_nodes(nodes: Map<usize, ControlFlow>) -> Set<usize> {
    nodes.dom().map(|k: usize| nodes[k].node_spec())
}

/// Every node a construct of `nodes` leads to has a construct.
pub open spec fn closed(nodes: Map<usize, ControlFlow>) -> bool {
    forall|k: usize, i: int|
        nodes.contains_key(k) && 0 <= i < pushed_nodes(nodes[k]).len() ==> nodes.contains_key(
            #[trigger] pushed_nodes(nodes[k])[i],
        )
}

/// The constructs a depth-first walk finishes, in order: the walk takes the
/// top of `stack`; a construct seen before is finished, any other is marked
/// seen and put back under the nodes it leads to.
pub open spec fn post_order(nodes: Map<usize, ControlFlow>, seen: Set<usize>, stack: Seq<usize>) -> Seq<
    usize,
>
    decreases flow_nodes(nodes).difference(seen).len(), stack.len(),
{
    if stack.len() == 0 || !nodes.dom().finite() || !nodes.contains_key(stack.last()) {
        seq![]
    } else {
        let k = stack.last();
        let f = nodes[k].node_spec();
        if seen.contains(f) {
            seq![k] + post_order(nodes, seen, stack.drop_last())
        } else {
            proof {
                lemma_unseen(nodes, seen, k);
            }
            post_order(nodes, seen.insert(f), stack.drop_last().push(k) + pushed_nodes(nodes[k]))
        }
    }
}

/// Every construct of `order`, and the one it was reached from, is one of
/// `nodes`.
pub open spec fn visits_keys(nodes: Map<usize, ControlFlow>, order: Seq<(usize, Option<usize>)>) -> bool {
    forall|i: int|
        0 <= i < order.len() ==> nodes.contains_key(#[trigger] order[i].0) && (order[i].1 is Some
            ==> nodes.contains_key(order[i].1->0))
}

/// Every construct of `order` is one of `nodes`.
pub open spec fn finishes_keys(nodes: Map<usize, ControlFlow>, order: Seq<usize>) -> bool {
    forall|i: int| 0 <= i < order.len() ==> nodes.contains_key(#[trigger] order[i])
}

/// Whether `cb`, called on the construct `order[j]` visits and the one it was
/// reached from, may answer `o`.
pub open spec fn visit_answers<E, F: Fn(&ControlFlow, Option<&ControlFlow>) -> Result<(), E>>(
    cb: F,
    nodes: Map<usize, ControlFlow>,
    order: Seq<(usize, Option<usize>)>,
    j: int,
    o: Result<(), E>,
) -> bool {
    call_ensures(
        cb,
        (
            &nodes[order[j].0],
            match order[j].1 {
                Some(p) => Some(&nodes[p]),
                None => None,
            },
        ),
        o,
    )
}

/// Whether `cb`, called on the construct `order[j]` finishes, may answer
/// `o`.
pub open spec fn finish_answers<E, F: Fn(&ControlFlow) -> Result<(), E>>(
    cb: F,
    nodes: Map<usize, ControlFlow>,
    order: Seq<usize>,
    j: int,
    o: Result<(), E>,
) -> bool {
    call_ensures(cb, (&nodes[order[j]],), o)
}

/// Marking a construct seen leaves one fewer unseen.
pub proof fn lemma_unseen(nodes: Map<usize, ControlFlow>, seen: Set<usize>, k: usize)
    requires
        nodes.dom().finite(),
        nodes.contains_key(k),
        !seen.contains(nodes[k].node_spec()),
    ensures
        flow_nodes(nodes).difference(seen.insert(nodes[k].node_spec())).len() < flow_nodes(
            nodes,
        ).difference(seen).len(),
{
    let f = nodes[k].node_spec();
    let all = flow_nodes(nodes);
    nodes.dom().lemma_map_finite(|k: usize| nodes[k].node_spec());
    assert(nodes.dom().contains(k));
    assert(all.contains(f));
    assert(all.difference(seen.insert(f)) =~= all.difference(seen).remove(f));
    assert(all.difference(seen).finite());
    assert(all.difference(seen).contains(f));
}

impl ControlFlow {
    /// The constructs a depth-first walk from this one visits, in order,
    /// each by its node and with the node of the construct it was reached
    /// from: a construct is visited before what it leads to, its first
    /// branch before its later ones, and the node after it last.
    pub fn visit_order(&self, nodes: &HashMap<usize, ControlFlow>) -> (r: Vec<(usize, Option<usize>)>)
        requires
            nodes@.contains_key(self.node_spec()),
            exists|rank: spec_fn(usize) -> nat| ranked(nodes@, rank),
        ensures
            r@ == in_order(nodes@, rank_of(nodes@), seq![(self.node_spec(), None)]),
            visits_keys(nodes@, r@),
    {
        let ghost rank = rank_of(nodes@);
        let ghost all = in_order(nodes@, rank, seq![(self.node_spec(), None)]);
        let mut stack: Vec<(usize, Option<usize>)> = Vec::new();
        stack.push((self.node(), None));
        let mut order: Vec<(usize, Option<usize>)> = Vec::new();
        assert(stack@ =~= seq![(self.node_spec(), None)]);
        while stack.len() > 0
            invariant
                ranked(nodes@, rank),
                forall|i: int| 0 <= i < stack@.len() ==> nodes@.contains_key(#[trigger] stack@[i].0),
                forall|i: int| 0 <= i < stack@.len() ==> ((#[trigger] stack@[i]).1 is Some ==> nodes@.contains_key(stack@[i].1->0)),
                visits_keys(nodes@, order@),
                order@ + in_order(nodes@, rank, stack@) == all,
            decreases stack_size(nodes@, rank, stack@),
        {
            let ghost before = stack@;
            let (node, parent) = stack.pop().unwrap();
            assert(nodes@.contains_key(before[before.len() - 1].0));
            let flow = nodes.get(&node).unwrap();
            let ghost base = stack@;
            let ghost children = pushed_nodes(*flow);
            proof {
                lemma_walk_step(nodes@, rank, before);
                assert(base =~= before.drop_last());
            }
            match flow {
                ControlFlow::If { then, after, .. } => {
                    if let Some(after) = after {
                        stack.push((*after, Some(node)));
                    }
                    stack.push((*then, Some(node)));
                },
                ControlFlow::IfElse { then, els, after, .. } => {
                    if let Some(after) = after {
                        stack.push((*after, Some(node)));
                    }
                    stack.push((*els, Some(node)));
                    stack.push((*then, Some(node)));
                },
                ControlFlow::AndOr { with, after, .. } => {
                    stack.push((*after, Some(node)));
                    stack.push((*with, Some(node)));
                },
                ControlFlow::WhileLoop { body, after, .. } => {
                    if let Some(after) = after {
                        stack.push((*after, Some(node)));
                    }
                    stack.push((*body, Some(node)));
                },
                ControlFlow::Flow { after, .. } => {
                    stack.push((*after, Some(node)));
                },
                ControlFlow::Switch { cases, after, .. } => {
                    if let Some(after) = after {
                        stack.push((*after, Some(node)));
                    }
                    let ghost mid = stack@;
                    let mut i: usize = 0;
                    while i < cases.len()
                        invariant
                            i <= cases@.len(),
                            stack@ == mid + with_parent(
                                cases@.take(i as int).map_values(|c: (usize, Vec<CaseValue>)| c.0),
                                node,
                            ),
                        decreases cases@.len() - i,
                    {
                        stack.push((cases[i].0, Some(node)));
                        i = i + 1;
                        assert(stack@ =~= mid + with_parent(
                            cases@.take(i as int).map_values(|c: (usize, Vec<CaseValue>)| c.0),
                            node,
                        ));
                    }
                    assert(cases@.take(i as int) =~= cases@);
                },
                _ => {},
            }
            proof {
                assert(stack@ =~= base + with_parent(children, node));
                assert forall|i: int| 0 <= i < stack@.len() implies nodes@.contains_key(#[trigger] stack@[i].0) by {
                    if i >= base.len() {
                        let j = i - base.len();
                        assert(stack@[i].0 == children[j]);
                        assert(nodes@.contains_key(pushed_nodes(nodes@[node])[j]));
                    } else {
                        assert(stack@[i] == before[i]);
                    }
                }
                assert forall|i: int| 0 <= i < stack@.len() implies ((#[trigger] stack@[i]).1 is Some ==> nodes@.contains_key(stack@[i].1->0)) by {
                    if i >= base.len() {
                        assert(stack@[i].1 == Some(node));
                    } else {
                        assert(stack@[i] == before[i]);
                    }
                }
                assert(before[before.len() - 1] == (node, parent));
                assert(before[before.len() - 1].1 is Some ==> nodes@.contains_key(before[before.len() - 1].1->0));
            }
            let ghost done = order@;
            let ghost parent_known = parent is Some ==> nodes@.contains_key(parent->0);
            assert(parent_known);
            assert(nodes@.contains_key(node));
            order.push((node, parent));
            assert(order@ + in_order(nodes@, rank, stack@) =~= all);
            assert(visits_keys(nodes@, order@)) by {
                assert forall|i: int| 0 <= i < order@.len() implies nodes@.contains_key(#[trigger] order@[i].0) && (order@[i].1 is Some ==> nodes@.contains_key(order@[i].1->0)) by {
                    if i < done.len() {
                        assert(order@[i] == done[i]);
                        assert(visits_keys(nodes@, done));
                        assert(nodes@.contains_key(done[i].0));
                    } else {
                        assert(order@[i] == (node, parent));
                    }
                }
            }
        }
        assert(visits_keys(nodes@, order@));
        order
    }

    /// The nodes of the constructs a depth-first walk from this one
    /// finishes, in order: a construct is finished once the walk comes back
    /// to it after what it leads to, and one that was seen before is
    /// finished where the walk meets it again.
    pub fn finish_order(&self, nodes: &HashMap<usize, ControlFlow>) -> (r: Vec<usize>)
        requires
            nodes@.contains_key(self.node_spec()),
            closed(nodes@),
        ensures
            r@ == post_order(nodes@, Set::empty(), seq![self.node_spec()]),
            finishes_keys(nodes@, r@),
    {
        let ghost all = post_order(nodes@, Set::empty(), seq![self.node_spec()]);
        let mut stack: Vec<usize> = Vec::new();
        stack.push(self.node());
        let mut visited: HashSet<usize> = HashSet::new();
        let mut order: Vec<usize> = Vec::new();
        proof {
            vstd::std_specs::hash::axiom_hashmap_view_finite_dom(*nodes);
        }
        assert(stack@ =~= seq![self.node_spec()]);
        while stack.len() > 0
            invariant
                closed(nodes@),
                nodes@.dom().finite(),
                forall|i: int| 0 <= i < stack@.len() ==> nodes@.contains_key(#[trigger] stack@[i]),
                forall|i: int| 0 <= i < order@.len() ==> nodes@.contains_key(#[trigger] order@[i]),
                order@ + post_order(nodes@, visited@, stack@) == all,
            decreases flow_nodes(nodes@).difference(visited@).len(), stack@.len(),
        {
            let ghost before = stack@;
            let ghost seen = visited@;
            let node = stack.pop().unwrap();
            assert(nodes@.contains_key(before[before.len() - 1]));
            let flow = nodes.get(&node).unwrap();
            let f = flow.node();
            let ghost base = stack@;
            assert(base =~= before.drop_last());
            if visited.contains(&f) {
                order.push(node);
                assert(order@ + post_order(nodes@, visited@, stack@) =~= all);
            } else {
                proof {
                    lemma_unseen(nodes@, seen, node);
                }
                visited.insert(f);
                stack.push(node);
                let ghost mid = stack@;
                match flow {
                    ControlFlow::If { then, after, .. } => {
                        if let Some(after) = after {
                            stack.push(*after);
                        }
                        stack.push(*then);
                    },
                    ControlFlow::IfElse { then, els, after, .. } => {
                        if let Some(after) = after {
                            stack.push(*after);
                        }
                        stack.push(*els);
                        stack.push(*then);
                    },
                    ControlFlow::AndOr { with, after, .. } => {
                        stack.push(*after);
                        stack.push(*with);
                    },
                    ControlFlow::WhileLoop { body, after, .. } => {
                        if let Some(after) = after {
                            stack.push(*after);
                        }
                        stack.push(*body);
                    },
                    ControlFlow::Flow { after, .. } => {
                        stack.push(*after);
                    },
                    ControlFlow::Switch { cases, after, .. } => {
                        if let Some(after) = after {
                            stack.push(*after);
                        }
                        let ghost mid2 = stack@;
                        let mut i: usize = 0;
                        while i < cases.len()
                            invariant
                                i <= cases@.len(),
                                stack@ == mid2 + cases@.take(i as int).map_values(
                                    |c: (usize, Vec<CaseValue>)| c.0,
                                ),
                            decreases cases@.len() - i,
                        {
                            stack.push(cases[i].0);
                            i = i + 1;
                            assert(stack@ =~= mid2 + cases@.take(i as int).map_values(
                                |c: (usize, Vec<CaseValue>)| c.0,
                            ));
                        }
                        assert(cases@.take(i as int) =~= cases@);
                    },
                    _ => {},
                }
                proof {
                    let children = pushed_nodes(*flow);
                    assert(stack@ =~= mid + children);
                    assert forall|i: int| 0 <= i < stack@.len() implies nodes@.contains_key(#[trigger] stack@[i]) by {
                        if i >= mid.len() {
                            let j = i - mid.len();
                            assert(stack@[i] == children[j]);
                            assert(nodes@.contains_key(pushed_nodes(nodes@[node])[j]));
                        } else if i < base.len() {
                            assert(stack@[i] == before[i]);
                        }
                    }
                    assert(visited@ == seen.insert(f));
                }
                assert(order@ + post_order(nodes@, visited@, stack@) =~= all);
            }
        }
        assert(finishes_keys(nodes@, order@));
        order
    }

    /// Calls `cb` on the constructs a depth-first walk from this one visits,
    /// in the order of `visit_order`, each with the construct it was reached
    /// from; the first error of `cb` ends the walk and is returned.
    pub fn dfs_in_order<E, F: Fn(&ControlFlow, Option<&ControlFlow>) -> Result<(), E>>(
        &self,
        nodes: &HashMap<usize, ControlFlow>,
        cb: F,
    ) -> (r: Result<(), E>)
        requires
            nodes@.contains_key(self.node_spec()),
            exists|rank: spec_fn(usize) -> nat| ranked(nodes@, rank),
            forall|a: &ControlFlow, b: Option<&ControlFlow>| call_requires(cb, (a, b)),
        ensures
            ({
                let order = in_order(nodes@, rank_of(nodes@), seq![(self.node_spec(), None)]);
                &&& r is Ok ==> forall|j: int| 0 <= j < order.len() ==> #[trigger] visit_answers(cb, nodes@, order, j, Ok(()))
                &&& r is Err ==> exists|k: int|
                    0 <= k < order.len() && (forall|j: int| 0 <= j < k ==> #[trigger] visit_answers(cb, nodes@, order, j, Ok(())))
                        && #[trigger] visit_answers(cb, nodes@, order, k, r)
            }),
    {
        let order = self.visit_order(nodes);
        let mut i: usize = 0;
        while i < order.len()
            invariant
                i <= order@.len(),
                visits_keys(nodes@, order@),
                order@ == in_order(nodes@, rank_of(nodes@), seq![(self.node_spec(), None)]),
                forall|a: &ControlFlow, b: Option<&ControlFlow>| call_requires(cb, (a, b)),
                forall|j: int| 0 <= j < i ==> #[trigger] visit_answers(cb, nodes@, order@, j, Ok(())),
            decreases order@.len() - i,
        {
            let (node, parent) = order[i];
            assert(nodes@.contains_key(order@[i as int].0));
            let flow = nodes.get(&node).unwrap();
            let from = match parent {
                Some(p) => {
                    assert(nodes@.contains_key(order@[i as int].1->0));
                    nodes.get(&p)
                },
                None => None,
            };
            let answer = cb(flow, from);
            assert(visit_answers(cb, nodes@, order@, i as int, answer));
            match answer {
                Err(e) => {
                    let answer: Result<(), E> = Err(e);
                    let ghost k = i as int;
                    assert(0 <= k < order@.len() && (forall|j: int| 0 <= j < k ==> #[trigger] visit_answers(cb, nodes@, order@, j, Ok(())))
                        && visit_answers(cb, nodes@, order@, k, answer));
                    return answer;
                },
                Ok(u) => {
                    assert(u == ());
                    assert forall|j: int| 0 <= j < i + 1 implies #[trigger] visit_answers(cb, nodes@, order@, j, Ok(())) by {
                        if j == i {
                            assert(visit_answers(cb, nodes@, order@, j, Ok(u)));
                        }
                    }
                },
            }
            i = i + 1;
        }
        let finished: Result<(), E> = Ok(());
        finished
    }

    /// Calls `cb` on the constructs a depth-first walk from this one
    /// finishes, in the order of `finish_order`; the first error of `cb`
    /// ends the walk and is returned.
    pub fn dfs_post_order<E, F: Fn(&ControlFlow) -> Result<(), E>>(
        &self,
        nodes: &HashMap<usize, ControlFlow>,
        cb: F,
    ) -> (r: Result<(), E>)
        requires
            nodes@.contains_key(self.node_spec()),
            closed(nodes@),
            forall|a: &ControlFlow| call_requires(cb, (a,)),
        ensures
            ({
                let order = post_order(nodes@, Set::empty(), seq![self.node_spec()]);
                &&& r is Ok ==> forall|j: int| 0 <= j < order.len() ==> #[trigger] finish_answers(cb, nodes@, order, j, Ok(()))
                &&& r is Err ==> exists|k: int|
                    0 <= k < order.len() && (forall|j: int| 0 <= j < k ==> #[trigger] finish_answers(cb, nodes@, order, j, Ok(())))
                        && #[trigger] finish_answers(cb, nodes@, order, k, r)
            }),
    {
        let order = self.finish_order(nodes);
        let mut i: usize = 0;
        while i < order.len()
            invariant
                i <= order@.len(),
                finishes_keys(nodes@, order@),
                order@ == post_order(nodes@, Set::empty(), seq![self.node_spec()]),
                forall|a: &ControlFlow| call_requires(cb, (a,)),
                forall|j: int| 0 <= j < i ==> #[trigger] finish_answers(cb, nodes@, order@, j, Ok(())),
            decreases order@.len() - i,
        {
            let node = order[i];
            assert(nodes@.contains_key(order@[i as int]));
            let flow = nodes.get(&node).unwrap();
            let answer = cb(flow);
            assert(finish_answers(cb, nodes@, order@, i as int, answer));
            match answer {
                Err(e) => {
                    let answer: Result<(), E> = Err(e);
                    let ghost k = i as int;
                    assert(0 <= k < order@.len() && (forall|j: int| 0 <= j < k ==> #[trigger] finish_answers(cb, nodes@, order@, j, Ok(())))
                        && finish_answers(cb, nodes@, order@, k, answer));
                    return answer;
                },
                Ok(u) => {
                    assert(u == ());
                    assert forall|j: int| 0 <= j < i + 1 implies #[trigger] finish_answers(cb, nodes@, order@, j, Ok(())) by {
                        if j == i {
                            assert(finish_answers(cb, nodes@, order@, j, Ok(u)));
                        }
                    }
                },
            }
            i = i + 1;
        }
        let finished: Result<(), E> = Ok(());
        finished
    }
}

/// An edge of a function's graph.
#[derive(Debug, Clone, Copy, PartialEq, Eq, Structural)]
pub enum EdgeType {
    Jump,
    ConditionalJump,
    ConditionalFlow,
    Case(i64),
    Flow,
}

} // verus!
