//! The dependency graph's storage: a `petgraph` stable graph, seen through
//! the set of its node indices and the map from its edge indices to their
//! endpoints. Nothing in this file is proved: each function states what
//! `petgraph` does, and the rest of the crate is verified against that.

use vstd::prelude::*;
use fixedbitset::FixedBitSet;
use petgraph::stable_graph::EdgeIndex;
use petgraph::stable_graph::NodeIndex;
use petgraph::stable_graph::StableGraph;
use petgraph::visit::Bfs;
use petgraph::visit::Topo;
use petgraph::Directed;
use petgraph::Direction;

verus! {

#[verifier::external_type_specification]
#[verifier::external_body]
#[verifier::reject_recursive_types(N)]
#[verifier::reject_recursive_types(E)]
#[verifier::reject_recursive_types(Ty)]
#[verifier::reject_recursive_types(Ix)]
pub struct ExStableGraph<N, E, Ty, Ix>(StableGraph<N, E, Ty, Ix>);

#[verifier::external_type_specification]
#[verifier::external_body]
pub struct ExDirected(Directed);

#[verifier::external_type_specification]
#[verifier::external_body]
#[verifier::reject_recursive_types(Ix)]
pub struct ExNodeIndex<Ix>(NodeIndex<Ix>);

#[verifier::external_type_specification]
#[verifier::external_body]
pub struct ExFixedBitSet(FixedBitSet);

#[verifier::external_type_specification]
#[verifier::external_body]
#[verifier::reject_recursive_types(N)]
#[verifier::reject_recursive_types(VM)]
pub struct ExBfs<N, VM>(Bfs<N, VM>);

#[verifier::external_type_specification]
#[verifier::external_body]
#[verifier::reject_recursive_types(N)]
#[verifier::reject_recursive_types(VM)]
pub struct ExTopo<N, VM>(Topo<N, VM>);

/// Metadata related to a dependency between two entities.
#[derive(Debug)]
pub struct Dependency;

/// The graph that holds the entities' indices and their dependencies.
pub type DependencyGraph = StableGraph<(), Dependency, Directed, usize>;

/// A breadth-first walk over a `DependencyGraph`.
pub type BfsWalk = Bfs<NodeIndex<usize>, FixedBitSet>;

/// A topological walk over a `DependencyGraph`.
pub type TopoWalk = Topo<NodeIndex<usize>, FixedBitSet>;

/// The indices of the nodes that the graph holds.
pub uninterp spec fn graph_nodes(g: StableGraph<(), Dependency, Directed, usize>) -> Set<usize>;

/// The edges that the graph holds: each edge index with its source and its
/// target.
pub uninterp spec fn graph_edges(g: StableGraph<(), Dependency, Directed, usize>) -> Map<
    usize,
    (usize, usize),
>;

/// The sources of the edges into `a`, in the order in which the graph walks
/// them.
pub uninterp spec fn graph_incoming(
    g: StableGraph<(), Dependency, Directed, usize>,
    a: usize,
) -> Seq<usize>;

/// The nodes that a breadth-first walk has still to hand out, first in first.
pub uninterp spec fn bfs_queue(b: Bfs<NodeIndex<usize>, FixedBitSet>) -> Seq<usize>;

/// The nodes that a breadth-first walk has met so far.
pub uninterp spec fn bfs_discovered(b: Bfs<NodeIndex<usize>, FixedBitSet>) -> Set<usize>;

/// The size that the walk's bit set was made with.
pub uninterp spec fn bfs_bound(b: Bfs<NodeIndex<usize>, FixedBitSet>) -> nat;

/// The nodes that a topological walk has still to look at, last in first.
pub uninterp spec fn topo_stack(t: Topo<NodeIndex<usize>, FixedBitSet>) -> Seq<usize>;

/// The nodes that a topological walk has handed out so far.
pub uninterp spec fn topo_ordered(t: Topo<NodeIndex<usize>, FixedBitSet>) -> Set<usize>;

/// The size that the walk's bit set was made with.
pub uninterp spec fn topo_bound(t: Topo<NodeIndex<usize>, FixedBitSet>) -> nat;

/// There is an edge from `a` to `b`.
pub open spec fn linked(edges: Map<usize, (usize, usize)>, a: usize, b: usize) -> bool {
    exists|e: usize| #[trigger] edges.contains_key(e) && edges[e] == (a, b)
}

/// `x` is a node that no edge ends at.
pub open spec fn is_root(g: DependencyGraph, x: usize) -> bool {
    graph_nodes(g).contains(x) && forall|a: usize| !linked(graph_edges(g), a, x)
}

/// Every edge that ends at `b` starts in `done`.
pub open spec fn sources_within(edges: Map<usize, (usize, usize)>, b: usize, done: Set<usize>) -> bool {
    forall|a: usize| linked(edges, a, b) ==> done.contains(a)
}

/// `StableGraph::default`: a graph without nodes and edges.
#[verifier::external_body]
pub(crate) fn graph_new() -> (g: DependencyGraph)
    ensures
        graph_nodes(g) == Set::<usize>::empty(),
        forall|e: usize| !graph_edges(g).contains_key(e),
{
    StableGraph::default()
}

/// `StableGraph::add_node`: the graph gains one node, at an index that held
/// none, and keeps its edges.
#[verifier::external_body]
pub(crate) fn graph_add_node(g: &mut DependencyGraph) -> (n: usize)
    ensures
        !graph_nodes(*old(g)).contains(n),
        graph_nodes(*final(g)) == graph_nodes(*old(g)).insert(n),
        graph_edges(*final(g)) == graph_edges(*old(g)),
{
    g.add_node(()).index()
}

/// `StableGraph::remove_node`: the node leaves with every edge that starts or
/// ends at it; the result tells whether it was there.
#[verifier::external_body]
pub(crate) fn graph_remove_node(
    g: &mut DependencyGraph,
    a: usize,
) -> (removed: bool)
    ensures
        removed == graph_nodes(*old(g)).contains(a),
        graph_nodes(*final(g)) == graph_nodes(*old(g)).remove(a),
        !removed ==> graph_edges(*final(g)) == graph_edges(*old(g)),
        removed ==> forall|e: usize| #[trigger]
            graph_edges(*final(g)).contains_key(e) <==> graph_edges(*old(g)).contains_key(e)
                && graph_edges(*old(g))[e].0 != a && graph_edges(*old(g))[e].1 != a,
        removed ==> forall|e: usize| #[trigger]
            graph_edges(*final(g)).contains_key(e) ==> graph_edges(*final(g))[e] == graph_edges(
                *old(g),
            )[e],
{
    g.remove_node(NodeIndex::new(a)).is_some()
}

/// `StableGraph::node_count`: how many nodes the graph holds.
#[verifier::external_body]
pub(crate) fn graph_node_count(g: &DependencyGraph) -> (count: usize)
    ensures
        count == graph_nodes(*g).len(),
{
    g.node_count()
}

/// `StableGraph::contains_node`.
#[verifier::external_body]
pub(crate) fn graph_contains_node(
    g: &DependencyGraph,
    a: usize,
) -> (present: bool)
    ensures
        present == graph_nodes(*g).contains(a),
{
    g.contains_node(NodeIndex::new(a))
}

/// `StableGraph::find_edge`: the index of an edge from `a` to `b`, or `None`
/// where there is none.
#[verifier::external_body]
pub(crate) fn graph_find_edge(
    g: &DependencyGraph,
    a: usize,
    b: usize,
) -> (found: Option<usize>)
    ensures
        match found {
            Some(e) => graph_edges(*g).contains_key(e) && graph_edges(*g)[e] == (a, b),
            None => !linked(graph_edges(*g), a, b),
        },
{
    g.find_edge(NodeIndex::new(a), NodeIndex::new(b)).map(|e| e.index())
}

/// `StableGraph::add_edge`, which panics unless both ends are nodes: the graph
/// gains one edge from `a` to `b`, at an index that held none.
#[verifier::external_body]
pub(crate) fn graph_add_edge(
    g: &mut DependencyGraph,
    a: usize,
    b: usize,
) -> (e: usize)
    requires
        graph_nodes(*old(g)).contains(a),
        graph_nodes(*old(g)).contains(b),
    ensures
        !graph_edges(*old(g)).contains_key(e),
        graph_edges(*final(g)) == graph_edges(*old(g)).insert(e, (a, b)),
        graph_nodes(*final(g)) == graph_nodes(*old(g)),
{
    g.add_edge(NodeIndex::new(a), NodeIndex::new(b), Dependency).index()
}

/// `StableGraph::remove_edge`: the edge at index `e` leaves; the result tells
/// whether it was there.
#[verifier::external_body]
pub(crate) fn graph_remove_edge(
    g: &mut DependencyGraph,
    e: usize,
) -> (removed: bool)
    ensures
        removed == graph_edges(*old(g)).contains_key(e),
        graph_edges(*final(g)) == graph_edges(*old(g)).remove(e),
        graph_nodes(*final(g)) == graph_nodes(*old(g)),
{
    g.remove_edge(EdgeIndex::new(e)).is_some()
}

/// `StableGraph::neighbors_directed` with `Direction::Incoming`: the sources of
/// the edges into `a`.
#[verifier::external_body]
pub(crate) fn graph_incoming_neighbors(
    g: &DependencyGraph,
    a: usize,
) -> (sources: Vec<usize>)
    ensures
        sources@ == graph_incoming(*g, a),
        forall|x: usize| sources@.contains(x) <==> linked(graph_edges(*g), x, a),
{
    g.neighbors_directed(NodeIndex::new(a), Direction::Incoming).map(|n| n.index()).collect()
}

/// `StableGraph::node_indices`: every node once, by rising index.
#[verifier::external_body]
pub(crate) fn graph_node_indices(g: &DependencyGraph) -> (indices: Vec<usize>)
    ensures
        forall|x: usize| indices@.contains(x) <==> graph_nodes(*g).contains(x),
        forall|i: int, j: int| 0 <= i < j < indices@.len() ==> indices@[i] < indices@[j],
{
    g.node_indices().map(|n| n.index()).collect()
}

/// `Bfs::new`, which panics where `start` is beyond the graph's last node: a
/// walk that has met `start` alone and will hand it out first.
#[verifier::external_body]
pub(crate) fn bfs_new(g: &DependencyGraph, start: usize) -> (walk: BfsWalk)
    requires
        graph_nodes(*g).contains(start),
    ensures
        bfs_queue(walk) == seq![start],
        bfs_discovered(walk) == set![start],
        forall|x: usize| graph_nodes(*g).contains(x) ==> x < bfs_bound(walk),
{
    Bfs::new(g, NodeIndex::new(start))
}

/// `Bfs::next`, which panics where it meets a node beyond its bit set: the
/// head of the queue leaves it and is returned; its successors that the walk
/// had not met are met and join the queue's end, each once.
#[verifier::external_body]
pub(crate) fn bfs_next(
    walk: &mut BfsWalk,
    g: &DependencyGraph,
) -> (node: Option<usize>)
    requires
        forall|x: usize| graph_nodes(*g).contains(x) ==> x < bfs_bound(*old(walk)),
    ensures
        bfs_bound(*final(walk)) == bfs_bound(*old(walk)),
        match node {
            None => {
                &&& bfs_queue(*old(walk)).len() == 0
                &&& bfs_queue(*final(walk)) == bfs_queue(*old(walk))
                &&& bfs_discovered(*final(walk)) == bfs_discovered(*old(walk))
            },
            Some(n) => {
                &&& bfs_queue(*old(walk)).len() > 0
                &&& n == bfs_queue(*old(walk))[0]
                &&& forall|x: usize|
                    bfs_discovered(*final(walk)).contains(x) <==> bfs_discovered(
                        *old(walk),
                    ).contains(x) || linked(graph_edges(*g), n, x)
                &&& exists|added: Seq<usize>|
                    {
                        &&& #[trigger] added.no_duplicates()
                        &&& bfs_queue(*final(walk)) == bfs_queue(*old(walk)).drop_first() + added
                        &&& forall|x: usize|
                            added.contains(x) <==> linked(graph_edges(*g), n, x)
                                && !bfs_discovered(*old(walk)).contains(x)
                    }
            },
        },
{
    walk.next(g).map(|n| n.index())
}

/// `Topo::new`: a walk that has handed out nothing and has the nodes without
/// an edge into them to look at.
#[verifier::external_body]
pub(crate) fn topo_new(g: &DependencyGraph) -> (walk: TopoWalk)
    ensures
        topo_ordered(walk) == Set::<usize>::empty(),
        forall|x: usize| topo_stack(walk).contains(x) <==> is_root(*g, x),
        forall|x: usize| graph_nodes(*g).contains(x) ==> x < topo_bound(walk),
{
    Topo::new(g)
}

/// `Topo::next`, which panics where it meets a node beyond its bit set: the
/// last node of the stack that was not handed out yet is handed out, and what
/// lay above it is dropped; those of its successors whose every predecessor
/// is then handed out go on the stack. `None` where the stack holds no such
/// node.
#[verifier::external_body]
pub(crate) fn topo_next(
    walk: &mut TopoWalk,
    g: &DependencyGraph,
) -> (node: Option<usize>)
    requires
        forall|x: usize| graph_nodes(*g).contains(x) ==> x < topo_bound(*old(walk)),
        forall|i: int|
            0 <= i < topo_stack(*old(walk)).len() ==> topo_stack(*old(walk))[i] < topo_bound(
                *old(walk),
            ),
    ensures
        topo_bound(*final(walk)) == topo_bound(*old(walk)),
        match node {
            None => {
                &&& forall|i: int|
                    0 <= i < topo_stack(*old(walk)).len() ==> topo_ordered(*old(walk)).contains(
                        topo_stack(*old(walk))[i],
                    )
                &&& topo_stack(*final(walk)).len() == 0
                &&& topo_ordered(*final(walk)) == topo_ordered(*old(walk))
            },
            Some(n) => {
                &&& !topo_ordered(*old(walk)).contains(n)
                &&& topo_ordered(*final(walk)) == topo_ordered(*old(walk)).insert(n)
                &&& exists|k: int, added: Seq<usize>|
                    {
                        &&& 0 <= k < topo_stack(*old(walk)).len()
                        &&& topo_stack(*old(walk))[k] == n
                        &&& forall|j: int|
                            k < j < topo_stack(*old(walk)).len() ==> topo_ordered(
                                *old(walk),
                            ).contains(topo_stack(*old(walk))[j])
                        &&& #[trigger] topo_stack(*final(walk)) == topo_stack(*old(walk)).take(k)
                            + added
                        &&& forall|x: usize|
                            added.contains(x) <==> linked(graph_edges(*g), n, x)
                                && sources_within(graph_edges(*g), x, topo_ordered(*final(walk)))
                    }
            },
        },
{
    walk.next(g).map(|n| n.index())
}

} // verus!
