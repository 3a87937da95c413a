use crate::decompiler::control_flow::EdgeType;
use crate::decompiler::graph::{graph_edges, graph_nodes, incoming, incoming_sources, BlockGraph};
use std::collections::HashSet;
use vstd::prelude::*;

verus! {

broadcast use {vstd::std_specs::hash::group_hash_axioms, vstd::std_specs::vec::group_vec_axioms};

/// The nodes met climbing the dominator tree from `runner` up to `stop`,
/// `stop` left out; none where the climb leaves the tree or takes more
/// than `fuel` steps.
pub open spec fn climb(idoms: Seq<Option<usize>>, runner: usize, stop: usize, fuel: nat) -> Option<Seq<usize>>
    decreases fuel,
{
    if runner == stop {
        Some(seq![])
    } else if fuel == 0 {
        None
    } else {
        match idoms[runner as int] {
            None => None,
            Some(up) => match climb(idoms, up, stop, (fuel - 1) as nat) {
                Some(rest) => Some(seq![runner] + rest),
                None => None,
            },
        }
    }
}

/// Whether paths join at node `v`: two or more edges lead into it, and it
/// has an immediate dominator.
pub open spec fn joins(edges: Seq<(usize, usize, EdgeType)>, idoms: Seq<Option<usize>>, v: usize) -> bool {
    incoming_sources(edges, v).len() >= 2 && idoms[v as int] is Some
}

/// Whether the climb from predecessor `k` of `v` to the immediate dominator
/// of `v` ends there.
pub open spec fn climb_ends(
    edges: Seq<(usize, usize, EdgeType)>,
    idoms: Seq<Option<usize>>,
    n: nat,
    v: usize,
    k: int,
) -> bool {
    climb(idoms, incoming_sources(edges, v)[k], idoms[v as int]->0, n) is Some
}

/// Whether every climb from a predecessor of a node below `upto` where
/// paths join ends at that node's immediate dominator.
pub open spec fn climbs_end(edges: Seq<(usize, usize, EdgeType)>, idoms: Seq<Option<usize>>, n: nat, upto: int) -> bool {
    forall|v: usize, k: int|
        v < upto && joins(edges, idoms, v) && 0 <= k < incoming_sources(edges, v).len() ==> #[trigger] climb_ends(
            edges,
            idoms,
            n,
            v,
            k,
        )
}

/// Whether the climb from `p` to `d` passes `x`.
pub open spec fn climb_passes(idoms: Seq<Option<usize>>, p: usize, d: usize, n: nat, x: usize) -> bool {
    match climb(idoms, p, d, n) {
        Some(list) => list.contains(x),
        None => false,
    }
}

/// Whether `x` lies on the climb from one of the first `kmax` predecessors
/// of `v` to the immediate dominator of `v`.
pub open spec fn on_climb(
    edges: Seq<(usize, usize, EdgeType)>,
    idoms: Seq<Option<usize>>,
    n: nat,
    v: usize,
    kmax: int,
    x: usize,
) -> bool {
    exists|k: int|
        0 <= k < kmax && #[trigger] climb_passes(idoms, incoming_sources(edges, v)[k], idoms[v as int]->0, n, x)
}

/// The nodes below `upto` in the domination frontier of `x`: those where
/// paths join and that a climb from one of their predecessors to their
/// immediate dominator passes `x` on the way, `x` itself left out.
pub open spec fn frontier_upto(
    edges: Seq<(usize, usize, EdgeType)>,
    idoms: Seq<Option<usize>>,
    n: nat,
    upto: int,
    x: usize,
) -> Set<usize> {
    Set::new(
        |v: usize|
            v < upto && v != x && joins(edges, idoms, v) && on_climb(
                edges,
                idoms,
                n,
                v,
                incoming_sources(edges, v).len() as int,
                x,
            ),
    )
}

/// The domination frontier of node `x` in a graph of `n` nodes.
pub open spec fn frontier(edges: Seq<(usize, usize, EdgeType)>, idoms: Seq<Option<usize>>, n: nat, x: usize) -> Set<
    usize,
> {
    frontier_upto(edges, idoms, n, n as int, x)
}

/// The sources of the edges into `b` lie within the graph.
pub(crate) proof fn lemma_incoming_within(edges: Seq<(usize, usize, EdgeType)>, b: usize, n: nat)
    requires
        forall|i: int| 0 <= i < edges.len() ==> (#[trigger] edges[i]).0 < n,
    ensures
        forall|k: int|
            0 <= k < incoming_sources(edges, b).len() ==> (#[trigger] incoming_sources(edges, b)[k]) < n,
    decreases edges.len(),
{
    if edges.len() > 0 {
        let rest = edges.drop_last();
        assert forall|i: int| 0 <= i < rest.len() implies (#[trigger] rest[i]).0 < n by {
            assert(rest[i] == edges[i]);
        }
        lemma_incoming_within(rest, b, n);
        let e = edges.last();
        let head: Seq<usize> = if e.1 == b {
            seq![e.0]
        } else {
            seq![]
        };
        assert(incoming_sources(edges, b) == head + incoming_sources(rest, b));
        assert(edges[edges.len() - 1] == e);
        assert forall|k: int| 0 <= k < incoming_sources(edges, b).len() implies (#[trigger] incoming_sources(
            edges,
            b,
        )[k]) < n by {
            if k >= head.len() {
                assert(incoming_sources(edges, b)[k] == incoming_sources(rest, b)[k - head.len()]);
            }
        }
    }
}

/// The domination frontier of every node of `g`, given the immediate
/// dominator of each: `None` where a climb from a predecessor of a node
/// where paths join does not reach that node's immediate dominator.
pub fn domination_frontiers(g: &BlockGraph, idoms: &Vec<Option<usize>>) -> (r: Option<Vec<HashSet<usize>>>)
    requires
        idoms@.len() == graph_nodes(*g).len(),
        forall|i: int| 0 <= i < idoms@.len() ==> (#[trigger] idoms@[i] matches Some(d) ==> d < idoms@.len()),
        forall|i: int| 0 <= i < graph_edges(*g).len() ==> (#[trigger] graph_edges(*g)[i]).0 < idoms@.len(),
    ensures
        r is Some <==> climbs_end(graph_edges(*g), idoms@, idoms@.len(), idoms@.len() as int),
        r matches Some(f) ==> f@.len() == idoms@.len() && forall|x: int|
            0 <= x < idoms@.len() ==> (#[trigger] f@[x])@ == frontier(graph_edges(*g), idoms@, idoms@.len(), x as usize),
{
    let ghost edges = graph_edges(*g);
    let ghost ids = idoms@;
    let n = idoms.len();
    let mut frontiers: Vec<HashSet<usize>> = Vec::new();
    let mut i: usize = 0;
    while i < n
        invariant
            i <= n,
            frontiers@.len() == i,
            forall|x: int| 0 <= x < i ==> (#[trigger] frontiers@[x])@ == Set::<usize>::empty(),
        decreases n - i,
    {
        frontiers.push(HashSet::new());
        i = i + 1;
    }
    let mut v: usize = 0;
    while v < n
        invariant
            n == ids.len(),
            ids == idoms@,
            edges == graph_edges(*g),
            n == graph_nodes(*g).len(),
            v <= n,
            forall|i: int| 0 <= i < n ==> (#[trigger] ids[i] matches Some(d) ==> d < n),
            forall|i: int| 0 <= i < edges.len() ==> (#[trigger] edges[i]).0 < n,
            frontiers@.len() == n,
            forall|x: int| 0 <= x < n ==> (#[trigger] frontiers@[x])@ == frontier_upto(edges, ids, n as nat, v as int, x as usize),
            climbs_end(edges, ids, n as nat, v as int),
        decreases n - v,
    {
        let preds = incoming(g, v);
        proof {
            lemma_incoming_within(edges, v, n as nat);
        }
        let ghost start = frontiers@;
        if preds.len() >= 2 && idoms[v].is_some() {
            let d = idoms[v].unwrap();
            let mut k: usize = 0;
            while k < preds.len()
                invariant
                    n == ids.len(),
                    ids == idoms@,
                    v < n,
                    d < n,
                    ids[v as int] == Some(d),
                    forall|i: int| 0 <= i < n ==> (#[trigger] ids[i] matches Some(d) ==> d < n),
                    preds@ == incoming_sources(edges, v),
                    edges == graph_edges(*g),
                    preds@.len() >= 2,
                    forall|j: int| 0 <= j < preds@.len() ==> (#[trigger] preds@[j]) < n,
                    k <= preds@.len(),
                    frontiers@.len() == n,
                    forall|x: int|
                        0 <= x < n ==> (#[trigger] frontiers@[x])@ == start[x]@ + (if x != v && on_climb(
                            edges,
                            ids,
                            n as nat,
                            v,
                            k as int,
                            x as usize,
                        ) {
                            set![v]
                        } else {
                            Set::empty()
                        }),
                    forall|j: int| 0 <= j < k ==> #[trigger] climb_ends(edges, ids, n as nat, v, j),
                decreases preds@.len() - k,
            {
                let p = preds[k];
                let mut runner = p;
                let mut fuel = n;
                let ghost mut visited: Seq<usize> = seq![];
                let ghost base = frontiers@;
                while runner != d
                    invariant
                        n == ids.len(),
                        ids == idoms@,
                        v < n,
                        d < n,
                        runner < n,
                        fuel <= n,
                        edges == graph_edges(*g),
                        ids[v as int] == Some(d),
                        preds@ == incoming_sources(edges, v),
                        k < preds@.len(),
                        preds@.len() >= 2,
                        p == preds@[k as int],
                        forall|i: int| 0 <= i < n ==> (#[trigger] ids[i] matches Some(d) ==> d < n),
                        climb(ids, p, d, n as nat) == (match climb(ids, runner, d, fuel as nat) {
                            Some(rest) => Some(visited + rest),
                            None => None,
                        }),
                        frontiers@.len() == n,
                        forall|x: int|
                            0 <= x < n ==> (#[trigger] frontiers@[x])@ == base[x]@ + (if x != v && visited.contains(
                                x as usize,
                            ) {
                                set![v]
                            } else {
                                Set::empty()
                            }),
                    decreases fuel,
                {
                    if fuel == 0 {
                        proof {
                            assert(!climb_ends(edges, ids, n as nat, v, k as int));
                            assert(joins(edges, ids, v));
                            assert(!climbs_end(edges, ids, n as nat, n as int));
                        }
                        return None;
                    }
                    match idoms[runner] {
                        None => {
                            proof {
                                assert(!climb_ends(edges, ids, n as nat, v, k as int));
                                assert(joins(edges, ids, v));
                                assert(!climbs_end(edges, ids, n as nat, n as int));
                            assert(joins(edges, ids, v));
                            assert(!climbs_end(edges, ids, n as nat, n as int));
                            }
                            return None;
                        },
                        Some(up) => {
                            if runner != v {
                                frontiers[runner].insert(v);
                            }
                            proof {
                                let ghost old_visited = visited;
                                visited = visited.push(runner);
                                assert(climb(ids, runner, d, fuel as nat) == (match climb(ids, up, d, (fuel - 1) as nat) {
                                    Some(rest) => Some(seq![runner] + rest),
                                    None => None,
                                }));
                                match climb(ids, up, d, (fuel - 1) as nat) {
                                    Some(rest) => {
                                        assert(old_visited + (seq![runner] + rest) =~= visited + rest);
                                    },
                                    None => {},
                                }
                                assert forall|x: int| 0 <= x < n implies (#[trigger] frontiers@[x])@ == base[x]@ + (if x
                                    != v && visited.contains(x as usize) {
                                    set![v]
                                } else {
                                    Set::empty()
                                }) by {
                                    if old_visited.contains(x as usize) {
                                        let i = choose|i: int| 0 <= i < old_visited.len() && old_visited[i] == x as usize;
                                        assert(visited[i] == x as usize);
                                    }
                                    if visited.contains(x as usize) && x != runner {
                                        let i = choose|i: int| 0 <= i < visited.len() && visited[i] == x as usize;
                                        assert(i < old_visited.len());
                                        assert(old_visited[i] == x as usize);
                                    }
                                    if x == runner {
                                        assert(visited[visited.len() - 1] == runner);
                                    }
                                }
                            }
                            runner = up;
                            fuel = fuel - 1;
                        },
                    }
                }
                proof {
                    assert(visited + seq![] =~= visited);
                    assert(climb_ends(edges, ids, n as nat, v, k as int));
                    assert forall|x: int| 0 <= x < n implies (#[trigger] frontiers@[x])@ == start[x]@ + (if x != v
                        && on_climb(edges, ids, n as nat, v, k + 1, x as usize) {
                        set![v]
                    } else {
                        Set::empty()
                    }) by {
                        assert(climb(ids, incoming_sources(edges, v)[k as int], ids[v as int]->0, n as nat)
                            == Some(visited));
                        if visited.contains(x as usize) {
                            assert(climb_passes(ids, incoming_sources(edges, v)[k as int], ids[v as int]->0, n as nat, x as usize));
                        }
                        if on_climb(edges, ids, n as nat, v, k + 1, x as usize) && !on_climb(
                            edges,
                            ids,
                            n as nat,
                            v,
                            k as int,
                            x as usize,
                        ) {
                            let j = choose|j: int|
                                0 <= j < k + 1 && #[trigger] climb_passes(
                                    ids,
                                    incoming_sources(edges, v)[j],
                                    ids[v as int]->0,
                                    n as nat,
                                    x as usize,
                                );
                            assert(j == k);
                        }
                        if on_climb(edges, ids, n as nat, v, k as int, x as usize) {
                            let j = choose|j: int|
                                0 <= j < k && #[trigger] climb_passes(
                                    ids,
                                    incoming_sources(edges, v)[j],
                                    ids[v as int]->0,
                                    n as nat,
                                    x as usize,
                                );
                            assert(on_climb(edges, ids, n as nat, v, k + 1, x as usize));
                        }
                    }
                }
                k = k + 1;
            }
        }
        proof {
            assert forall|x: int| 0 <= x < n implies (#[trigger] frontiers@[x])@ == frontier_upto(
                edges,
                ids,
                n as nat,
                v + 1,
                x as usize,
            ) by {
                assert(frontier_upto(edges, ids, n as nat, v + 1, x as usize) =~= frontier_upto(
                    edges,
                    ids,
                    n as nat,
                    v as int,
                    x as usize,
                ) + (if x != v && joins(edges, ids, v) && on_climb(
                    edges,
                    ids,
                    n as nat,
                    v,
                    incoming_sources(edges, v).len() as int,
                    x as usize,
                ) {
                    set![v]
                } else {
                    Set::empty()
                }));
            }
            assert forall|w: usize, j: int|
                w < v + 1 && joins(edges, ids, w) && 0 <= j < incoming_sources(edges, w).len() implies #[trigger] climb_ends(
                edges,
                ids,
                n as nat,
                w,
                j,
            ) by {
                if w < v {
                    assert(climbs_end(edges, ids, n as nat, v as int));
                }
            }
        }
        v = v + 1;
    }
    Some(frontiers)
}

} // verus!
