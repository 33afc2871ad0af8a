//! The entity manager: a dependency graph over entities.
//!
//! An edge always runs from the entity that is depended upon to the entity
//! that depends on it: what follows a changed entity along the edges is what
//! has to be rebuilt after it, and a topological order builds every entity
//! after its dependencies.

use vstd::prelude::*;
use std::collections::HashMap;
use crate::common::resources::descriptors::HaveDependencies;
use crate::entity_manager::graph::graph_add_edge;
use crate::entity_manager::graph::graph_add_node;
use crate::entity_manager::graph::graph_contains_node;
use crate::entity_manager::graph::graph_edges;
use crate::entity_manager::graph::graph_find_edge;
use crate::entity_manager::graph::graph_incoming;
use crate::entity_manager::graph::graph_incoming_neighbors;
use crate::entity_manager::graph::graph_new;
use crate::entity_manager::graph::graph_node_count;
use crate::entity_manager::graph::graph_node_indices;
use crate::entity_manager::graph::graph_nodes;
use crate::entity_manager::graph::graph_remove_edge;
use crate::entity_manager::graph::graph_remove_node;
use crate::entity_manager::graph::is_root;
use crate::entity_manager::graph::linked;
use crate::entity_manager::graph::sources_within;
use crate::entity_manager::graph::topo_bound;
use crate::entity_manager::graph::topo_new;
use crate::entity_manager::graph::topo_next;
use crate::entity_manager::graph::topo_ordered;
use crate::entity_manager::graph::topo_stack;
use crate::entity_manager::reach::acyclic;
use crate::entity_manager::reach::lemma_order_follows_walks;
use crate::entity_manager::reach::reachable;
use crate::entity_manager::reach::ranks;
use crate::entity_manager::graph::DependencyGraph;

pub mod dmg_entity_manager;
pub mod graph;
pub mod reach;
pub mod update_context;

verus! {

/// Unique identifier for an entity inside the engine.
#[derive(Debug, Clone, Copy, Hash, PartialEq, Eq, Structural)]
pub struct EntityId(pub usize);

impl EntityId {
    pub fn new(id: usize) -> (entity: Self)
        ensures
            entity.0 == id,
    {
        Self(id)
    }

    pub fn id(&self) -> (index: usize)
        ensures
            index == self.0,
    {
        self.0
    }
}

/// Errors related to entity management.
#[derive(Debug, Clone, Copy, PartialEq, Eq, Structural)]
pub enum EntityManagerError {
    MissingDependencies,
}

/// What an entity manager holds: the entities by their identifiers, and the
/// dependency edges as pairs of the entity depended upon and its dependent.
pub struct ManagerView<N> {
    pub entities: Map<EntityId, N>,
    pub edges: Set<(EntityId, EntityId)>,
}

/// The identifiers of a sequence of node indices.
pub open spec fn ids_of(indices: Seq<usize>) -> Seq<EntityId> {
    Seq::new(indices.len(), |i: int| EntityId(indices[i]))
}

/// The edges after the entity `id` went from the dependencies `before` to the
/// dependencies `after`: an edge into `id` from what is no longer a
/// dependency leaves, one from a new dependency that is an entity comes, and
/// every other edge stays as it was.
pub open spec fn rewired(
    edges: Set<(EntityId, EntityId)>,
    present: Set<EntityId>,
    id: EntityId,
    before: Seq<EntityId>,
    after: Seq<EntityId>,
) -> Set<(EntityId, EntityId)> {
    Set::new(
        |p: (EntityId, EntityId)|
            if p.1 != id {
                edges.contains(p)
            } else if before.contains(p.0) && !after.contains(p.0) {
                false
            } else if after.contains(p.0) && !before.contains(p.0) {
                edges.contains(p) || present.contains(p.0)
            } else {
                edges.contains(p)
            },
    )
}

/// `y` is one of the first `n` items of `order`.
pub open spec fn comes_before(order: Seq<usize>, y: usize, n: int) -> bool {
    exists|i: int| 0 <= i < n && #[trigger] order[i] == y
}

/// In a ranked graph, a set that holds every node whose sources it holds
/// holds every node.
proof fn lemma_ranked_all_done(
    edges: Map<usize, (usize, usize)>,
    nodes: Set<usize>,
    done: Set<usize>,
    rank: spec_fn(EntityId) -> nat,
    u: usize,
)
    requires
        forall|a: usize, b: usize| #[trigger] linked(edges, a, b) ==> rank(EntityId(a)) < rank(
            EntityId(b),
        ),
        forall|a: usize, b: usize| #[trigger]
            linked(edges, a, b) ==> nodes.contains(a) && nodes.contains(b),
        forall|x: usize| nodes.contains(x) && sources_within(edges, x, done) ==> done.contains(x),
        nodes.contains(u),
    ensures
        done.contains(u),
    decreases rank(EntityId(u)),
{
    assert forall|a: usize| linked(edges, a, u) implies done.contains(a) by {
        lemma_ranked_all_done(edges, nodes, done, rank, a);
    }
}

/// Where the dependencies stay what they were, so do the edges.
pub proof fn lemma_rewired_same(
    edges: Set<(EntityId, EntityId)>,
    present: Set<EntityId>,
    id: EntityId,
    dependencies: Seq<EntityId>,
)
    ensures
        rewired(edges, present, id, dependencies, dependencies) == edges,
{
    assert(rewired(edges, present, id, dependencies, dependencies) =~= edges);
}

/// `id` is one of the first `n` items of `ids`.
pub open spec fn among(ids: Seq<EntityId>, n: int, id: EntityId) -> bool {
    exists|j: int| 0 <= j < n && #[trigger] ids[j] == id
}

/// One more item is looked at.
pub proof fn lemma_among_step(ids: Seq<EntityId>, n: int, id: EntityId)
    requires
        0 <= n < ids.len(),
    ensures
        among(ids, n + 1, id) <==> among(ids, n, id) || ids[n] == id,
{
    if among(ids, n + 1, id) {
        let j = choose|j: int| 0 <= j < n + 1 && #[trigger] ids[j] == id;
        if j < n {
            assert(0 <= j < n && ids[j] == id);
        }
    }
    if among(ids, n, id) {
        let j = choose|j: int| 0 <= j < n && #[trigger] ids[j] == id;
        assert(0 <= j < n + 1 && ids[j] == id);
    }
    if ids[n] == id {
        assert(0 <= n < n + 1 && ids[n] == id);
    }
}

/// All items are looked at.
pub proof fn lemma_among_all(ids: Seq<EntityId>, id: EntityId)
    ensures
        among(ids, ids.len() as int, id) <==> ids.contains(id),
        !among(ids, 0, id),
{
    if among(ids, ids.len() as int, id) {
        let j = choose|j: int| 0 <= j < ids.len() && #[trigger] ids[j] == id;
        assert(ids[j] == id);
    }
    if ids.contains(id) {
        let j = choose|j: int| 0 <= j < ids.len() && ids[j] == id;
        assert(0 <= j < ids.len() && ids[j] == id);
    }
}

/// Whether `ids` holds `id`.
pub fn holds_id(ids: &Vec<EntityId>, id: &EntityId) -> (found: bool)
    ensures
        found == ids@.contains(*id),
{
    let mut i: usize = 0;
    while i < ids.len()
        invariant
            i <= ids.len(),
            forall|j: int| 0 <= j < i ==> ids@[j] != *id,
        decreases ids.len() - i,
    {
        if ids[i].0 == id.0 {
            return true;
        }
        i += 1;
    }
    false
}

/// This struct stores entities into a graph based on the declared
/// dependencies.
pub struct EntityManager<N: HaveDependencies> {
    dependency_graph: DependencyGraph,
    entities: HashMap<usize, N>,
}

impl<N: HaveDependencies> View for EntityManager<N> {
    type V = ManagerView<N>;

    closed spec fn view(&self) -> ManagerView<N> {
        ManagerView {
            entities: Map::new(
                |id: EntityId| self.entities@.contains_key(id.0),
                |id: EntityId| self.entities@[id.0],
            ),
            edges: Set::new(
                |p: (EntityId, EntityId)| linked(graph_edges(self.dependency_graph), p.0.0, p.1.0),
            ),
        }
    }
}

impl<N: HaveDependencies> EntityManager<N> {
    /// The manager's invariant: the graph's nodes are the stored entities,
    /// every edge joins two of them, and no two edges join the same pair.
    pub closed spec fn wf(&self) -> bool {
        let nodes = graph_nodes(self.dependency_graph);
        let edges = graph_edges(self.dependency_graph);
        &&& nodes.finite()
        &&& self.entities@.dom() =~= nodes
        &&& forall|e: usize| #[trigger]
            edges.contains_key(e) ==> nodes.contains(edges[e].0) && nodes.contains(edges[e].1)
        &&& forall|e1: usize, e2: usize|
            #[trigger] edges.contains_key(e1) && #[trigger] edges.contains_key(e2) && edges[e1]
                == edges[e2] ==> e1 == e2
    }

    /// `id` names an entity of the manager.
    pub open spec fn contains(&self, id: EntityId) -> bool {
        self@.entities.contains_key(id)
    }

    /// There is an edge from `from` to `to`: `to` depends on `from`.
    pub open spec fn edge(&self, from: EntityId, to: EntityId) -> bool {
        self@.edges.contains((from, to))
    }

    /// Every identifier that `entity` declares as a dependency names an entity.
    pub open spec fn dependencies_present(&self, entity: &N) -> bool {
        forall|i: int|
            0 <= i < entity.dependencies_spec().len() ==> self.contains(
                #[trigger] entity.dependencies_spec()[i],
            )
    }

    /// The entities with an edge into `id`, in the order in which the graph
    /// walks them.
    pub closed spec fn parents_spec(&self, id: EntityId) -> Seq<EntityId> {
        ids_of(graph_incoming(self.dependency_graph, id.0))
    }

    /// The number of entities.
    pub closed spec fn count(&self) -> nat {
        graph_nodes(self.dependency_graph).len()
    }

    /// Every edge joins two entities.
    pub proof fn lemma_edges_join_entities(&self, from: EntityId, to: EntityId)
        requires
            self.wf(),
            self.edge(from, to),
        ensures
            self.contains(from),
            self.contains(to),
    {
        let edges = graph_edges(self.dependency_graph);
        let e = choose|e: usize| #[trigger] edges.contains_key(e) && edges[e] == (from.0, to.0);
        assert(edges.contains_key(e));
    }

    /// How the graph that `graph()` hands out relates to what the manager
    /// holds.
    pub proof fn lemma_graph_view(&self)
        requires
            self.wf(),
        ensures
            graph_nodes(self.graph_spec()).finite(),
            self.count() == graph_nodes(self.graph_spec()).len(),
            forall|id: EntityId|
                self.contains(id) <==> #[trigger] graph_nodes(self.graph_spec()).contains(id.0),
            forall|a: EntityId, b: EntityId|
                self.edge(a, b) <==> #[trigger] linked(graph_edges(self.graph_spec()), a.0, b.0),
            forall|a: usize, b: usize| #[trigger]
                linked(graph_edges(self.graph_spec()), a, b) ==> graph_nodes(
                    self.graph_spec(),
                ).contains(a) && graph_nodes(self.graph_spec()).contains(b),
    {
        let edges = graph_edges(self.dependency_graph);
        assert forall|a: usize, b: usize| #[trigger] linked(edges, a, b) implies graph_nodes(
            self.dependency_graph,
        ).contains(a) && graph_nodes(self.dependency_graph).contains(b) by {
            let e = choose|e: usize| #[trigger] edges.contains_key(e) && edges[e] == (a, b);
            assert(edges.contains_key(e));
        }
    }

    pub fn new() -> (manager: Self)
        ensures
            manager.wf(),
            manager@.entities == Map::<EntityId, N>::empty(),
            manager@.edges == Set::<(EntityId, EntityId)>::empty(),
    {
        let dependency_graph = graph_new();
        let manager = Self { dependency_graph, entities: HashMap::new() };
        assert(manager@.entities =~= Map::<EntityId, N>::empty());
        assert(manager@.edges =~= Set::<(EntityId, EntityId)>::empty());
        manager
    }

    pub fn graph(&self) -> (graph: &DependencyGraph)
        ensures
            *graph == self.graph_spec(),
    {
        &self.dependency_graph
    }

    /// The graph that `graph()` hands out.
    pub closed spec fn graph_spec(&self) -> DependencyGraph {
        self.dependency_graph
    }

    /// Every entity once, by rising index.
    pub fn entities(&self) -> (ids: Vec<EntityId>)
        requires
            self.wf(),
        ensures
            forall|id: EntityId| ids@.contains(id) <==> self.contains(id),
            forall|i: int, j: int| 0 <= i < j < ids@.len() ==> ids@[i].0 < ids@[j].0,
    {
        let indices = graph_node_indices(&self.dependency_graph);
        let mut ids: Vec<EntityId> = Vec::new();
        let mut i: usize = 0;
        while i < indices.len()
            invariant
                i <= indices.len(),
                ids@.len() == i,
                forall|j: int| 0 <= j < i ==> ids@[j] == EntityId(indices@[j]),
            decreases indices.len() - i,
        {
            ids.push(EntityId(indices[i]));
            i += 1;
        }
        assert forall|id: EntityId| ids@.contains(id) <==> self.contains(id) by {
            if ids@.contains(id) {
                let j = choose|j: int| 0 <= j < ids@.len() && ids@[j] == id;
                assert(indices@.contains(indices@[j]));
            }
            if self.contains(id) {
                assert(indices@.contains(id.0));
                let j = choose|j: int| 0 <= j < indices@.len() && indices@[j] == id.0;
                assert(ids@[j] == id);
            }
        }
        ids
    }

    /// How many entities there are.
    pub fn len(&self) -> (count: usize)
        requires
            self.wf(),
        ensures
            count == self.count(),
    {
        graph_node_count(&self.dependency_graph)
    }

    /// Whether `id` names an entity.
    pub fn contains_entity(&self, id: &EntityId) -> (present: bool)
        requires
            self.wf(),
        ensures
            present == self.contains(*id),
    {
        graph_contains_node(&self.dependency_graph, id.0)
    }

    /// Get an entity.
    pub fn entity(&self, id: &EntityId) -> (entity: Option<&N>)
        requires
            self.wf(),
        ensures
            match entity {
                Some(e) => self.contains(*id) && *e == self@.entities[*id],
                None => !self.contains(*id),
            },
    {
        self.entities.get(&id.0)
    }

    /// Get the parents of an entity: the entities it depends on.
    pub fn entity_parents(&self, id: &EntityId) -> (parents: Vec<EntityId>)
        requires
            self.wf(),
        ensures
            parents@ == self.parents_spec(*id),
            forall|p: EntityId| parents@.contains(p) <==> self.edge(p, *id),
    {
        let sources = graph_incoming_neighbors(&self.dependency_graph, id.0);
        let mut parents: Vec<EntityId> = Vec::new();
        let mut i: usize = 0;
        while i < sources.len()
            invariant
                i <= sources.len(),
                parents@.len() == i,
                forall|j: int| 0 <= j < i ==> parents@[j] == EntityId(sources@[j]),
            decreases sources.len() - i,
        {
            parents.push(EntityId(sources[i]));
            i += 1;
        }
        assert(parents@ =~= ids_of(sources@));
        assert forall|p: EntityId| parents@.contains(p) <==> self.edge(p, *id) by {
            if parents@.contains(p) {
                let j = choose|j: int| 0 <= j < parents@.len() && parents@[j] == p;
                assert(sources@.contains(sources@[j]));
            }
            if self.edge(p, *id) {
                assert(sources@.contains(p.0));
                let j = choose|j: int| 0 <= j < sources@.len() && sources@[j] == p.0;
                assert(parents@[j] == p);
            }
        }
        parents
    }

    /// List all the dependencies of an entity: its parents.
    pub fn dependencies(&self, entity: &EntityId) -> (parents: Vec<EntityId>)
        requires
            self.wf(),
        ensures
            parents@ == self.parents_spec(*entity),
            forall|p: EntityId| parents@.contains(p) <==> self.edge(p, *entity),
    {
        self.entity_parents(entity)
    }

    /// The entities in the order of a topological walk of the graph: each
    /// once, and after the entities that it depends on. Where the graph has
    /// no cycle these are all the entities; an entity on a cycle, or after
    /// one, is left out.
    pub fn topological_order(&self) -> (entities: Vec<EntityId>)
        requires
            self.wf(),
        ensures
            forall|j: int| 0 <= j < entities@.len() ==> self.contains(#[trigger] entities@[j]),
            entities@.no_duplicates(),
            forall|j: int, p: EntityId|
                0 <= j < entities@.len() && #[trigger] self.edge(p, entities@[j]) ==> exists|i: int|
                    0 <= i < j && #[trigger] entities@[i] == p,
            acyclic(self@.edges) ==> forall|x: EntityId| self.contains(x) ==> entities@.contains(x),
            forall|i: int, j: int|
                0 <= i < entities@.len() && 0 <= j < entities@.len() && i != j && #[trigger] reachable(
                    self@.edges,
                    entities@[i],
                    entities@[j],
                ) ==> i < j,
    {
        proof {
            self.lemma_graph_view();
        }
        let graph = &self.dependency_graph;
        let ghost nodes = graph_nodes(*graph);
        let ghost edges = graph_edges(*graph);
        let mut entities: Vec<EntityId> = Vec::new();
        let mut walk = topo_new(graph);
        let ghost mut order: Seq<usize> = Seq::empty();
        let mut done = false;
        proof {
            assert forall|i: int| 0 <= i < topo_stack(walk).len() implies nodes.contains(
                #[trigger] topo_stack(walk)[i],
            ) && sources_within(edges, topo_stack(walk)[i], topo_ordered(walk)) by {
                assert(topo_stack(walk).contains(topo_stack(walk)[i]));
                assert(is_root(*graph, topo_stack(walk)[i]));
            }
            assert forall|u: usize|
                nodes.contains(u) && #[trigger] sources_within(
                    edges,
                    u,
                    topo_ordered(walk),
                ) implies topo_stack(walk).contains(u) by {
                assert(forall|a: usize| linked(edges, a, u) ==> topo_ordered(walk).contains(a));
                assert(forall|a: usize| !linked(edges, a, u));
                assert(is_root(*graph, u));
            }
        }
        while !done
            invariant
                self.wf(),
                *graph == self.dependency_graph,
                nodes == graph_nodes(*graph),
                edges == graph_edges(*graph),
                nodes.finite(),
                forall|a: EntityId, b: EntityId|
                    self.edge(a, b) <==> #[trigger] linked(edges, a.0, b.0),
                forall|x: EntityId| self.contains(x) <==> #[trigger] nodes.contains(x.0),
                forall|a: usize, b: usize| #[trigger]
                    linked(edges, a, b) ==> nodes.contains(a) && nodes.contains(b),
                forall|x: usize| nodes.contains(x) ==> x < topo_bound(walk),
                forall|i: int|
                    0 <= i < topo_stack(walk).len() ==> nodes.contains(
                        #[trigger] topo_stack(walk)[i],
                    ) && sources_within(edges, topo_stack(walk)[i], topo_ordered(walk)),
                forall|x: usize| topo_ordered(walk).contains(x) <==> order.contains(x),
                forall|j: int| 0 <= j < order.len() ==> nodes.contains(#[trigger] order[j]),
                order.no_duplicates(),
                topo_ordered(walk).finite(),
                topo_ordered(walk).subset_of(nodes),
                topo_ordered(walk).len() <= nodes.len(),
                forall|j: int, y: usize|
                    0 <= j < order.len() && #[trigger] linked(edges, y, order[j]) ==> comes_before(
                        order,
                        y,
                        j,
                    ),
                entities@.len() == order.len(),
                forall|j: int| 0 <= j < order.len() ==> #[trigger] entities@[j] == EntityId(order[j]),
                done ==> forall|i: int|
                    0 <= i < topo_stack(walk).len() ==> topo_ordered(walk).contains(
                        #[trigger] topo_stack(walk)[i],
                    ),
                forall|u: usize|
                    nodes.contains(u) && #[trigger] sources_within(edges, u, topo_ordered(walk))
                        ==> topo_ordered(walk).contains(u) || topo_stack(walk).contains(u),
            decreases nodes.len() - topo_ordered(walk).len() + (if done { 0int } else { 1int }),
        {
            let ghost stack = topo_stack(walk);
            let ghost ordered = topo_ordered(walk);
            assert forall|i: int| 0 <= i < stack.len() implies stack[i] < topo_bound(walk) by {
                assert(nodes.contains(stack[i]));
            }
            match topo_next(&mut walk, graph) {
                Some(nx) => {
                    let id = EntityId(nx);
                    proof {
                        let (k, added) = choose|k: int, added: Seq<usize>|
                            {
                                &&& 0 <= k < stack.len()
                                &&& stack[k] == nx
                                &&& forall|j: int| k < j < stack.len() ==> ordered.contains(stack[j])
                                &&& #[trigger] topo_stack(walk) == stack.take(k) + added
                                &&& forall|x: usize|
                                    added.contains(x) <==> linked(edges, nx, x) && sources_within(
                                        edges,
                                        x,
                                        topo_ordered(walk),
                                    )
                            };
                        assert(nodes.contains(stack[k]));
                        assert(sources_within(edges, stack[k], ordered));
                        let next = stack.take(k) + added;
                        assert forall|i: int| 0 <= i < next.len() implies nodes.contains(
                            #[trigger] next[i],
                        ) && sources_within(edges, next[i], topo_ordered(walk)) by {
                            if i < k {
                                assert(next[i] == stack[i]);
                                assert(sources_within(edges, stack[i], ordered));
                            } else {
                                assert(added.contains(added[i - k]));
                                assert(next[i] == added[i - k]);
                            }
                        }
                        let grown = order.push(nx);
                        assert forall|x: usize| topo_ordered(walk).contains(x) <==> grown.contains(
                            x,
                        ) by {
                            if order.contains(x) {
                                let j = choose|j: int| 0 <= j < order.len() && order[j] == x;
                                assert(grown[j] == x);
                            }
                            if x == nx {
                                assert(grown[order.len() as int] == nx);
                            }
                            if grown.contains(x) {
                                let j = choose|j: int| 0 <= j < grown.len() && grown[j] == x;
                                if j < order.len() {
                                    assert(order[j] == x);
                                }
                            }
                        }
                        assert(grown.no_duplicates()) by {
                            assert forall|a: int, b: int|
                                0 <= a < grown.len() && 0 <= b < grown.len() && a != b implies grown[a]
                                != grown[b] by {
                                if a < order.len() {
                                    assert(order.contains(order[a]));
                                }
                                if b < order.len() {
                                    assert(order.contains(order[b]));
                                }
                            }
                        }
                        assert forall|j: int, y: usize|
                            0 <= j < grown.len() && #[trigger] linked(
                                edges,
                                y,
                                grown[j],
                            ) implies comes_before(grown, y, j) by {
                            if j < order.len() {
                                assert(linked(edges, y, order[j]));
                                let i = choose|i: int| 0 <= i < j && #[trigger] order[i] == y;
                                assert(grown[i] == y);
                            } else {
                                assert(ordered.contains(y));
                                assert(order.contains(y));
                                let i = choose|i: int| 0 <= i < order.len() && order[i] == y;
                                assert(grown[i] == y);
                            }
                        }
                        assert forall|u: usize|
                            nodes.contains(u) && #[trigger] sources_within(
                                edges,
                                u,
                                topo_ordered(walk),
                            ) implies topo_ordered(walk).contains(u) || next.contains(u) by {
                            if sources_within(edges, u, ordered) {
                                if stack.contains(u) && !ordered.contains(u) {
                                    let j = choose|j: int| 0 <= j < stack.len() && stack[j] == u;
                                    if j < k {
                                        assert(next[j] == u);
                                    }
                                }
                            } else {
                                let y = choose|y: usize| linked(edges, y, u) && !ordered.contains(y);
                                assert(topo_ordered(walk).contains(y));
                                assert(added.contains(u));
                                let j = choose|j: int| 0 <= j < added.len() && added[j] == u;
                                assert(next[k + j] == u);
                            }
                        }
                        vstd::set_lib::lemma_len_subset(ordered.insert(nx), nodes);
                        assert(ordered.insert(nx).len() == ordered.len() + 1);
                        order = grown;
                    }
                    entities.push(id);
                },
                None => {
                    done = true;
                },
            }
        }
        proof {
            assert forall|j: int| 0 <= j < entities@.len() implies self.contains(
                #[trigger] entities@[j],
            ) by {
                assert(nodes.contains(order[j]));
                assert(nodes.contains(entities@[j].0));
            }
            assert(entities@.no_duplicates()) by {
                assert forall|a: int, b: int|
                    0 <= a < entities@.len() && 0 <= b < entities@.len() && a != b implies entities@[a]
                    != entities@[b] by {
                    assert(order[a] != order[b]);
                }
            }
            assert forall|j: int, p: EntityId|
                0 <= j < entities@.len() && #[trigger] self.edge(p, entities@[j]) implies exists|
                i: int,
            | 0 <= i < j && #[trigger] entities@[i] == p by {
                assert(linked(edges, p.0, entities@[j].0));
                assert(linked(edges, p.0, order[j]));
                let i = choose|i: int| 0 <= i < j && #[trigger] order[i] == p.0;
                assert(entities@[i] == p);
            }
            if acyclic(self@.edges) {
                let rank = choose|rank: spec_fn(EntityId) -> nat| ranks(self@.edges, rank);
                let ordered = topo_ordered(walk);
                assert forall|a: usize, b: usize| #[trigger] linked(edges, a, b) implies rank(
                    EntityId(a),
                ) < rank(EntityId(b)) by {
                    assert(linked(edges, EntityId(a).0, EntityId(b).0));
                    assert(self.edge(EntityId(a), EntityId(b)));
                }
                assert forall|x: usize|
                    nodes.contains(x) && sources_within(edges, x, ordered) implies ordered.contains(
                    x,
                ) by {
                    if topo_stack(walk).contains(x) {
                        let i = choose|i: int|
                            0 <= i < topo_stack(walk).len() && topo_stack(walk)[i] == x;
                    }
                }
                assert forall|x: EntityId| self.contains(x) implies entities@.contains(x) by {
                    assert(nodes.contains(x.0));
                    lemma_ranked_all_done(edges, nodes, ordered, rank, x.0);
                    assert(order.contains(x.0));
                    let j = choose|j: int| 0 <= j < order.len() && order[j] == x.0;
                    assert(entities@[j] == x);
                }
            }
        }
        proof {
            let found = entities@;
            assert forall|k: int, p: EntityId|
                0 <= k < found.len() && #[trigger] self@.edges.contains((p, found[k])) implies exists|
                i: int,
            | 0 <= i < k && #[trigger] found[i] == p by {
                assert(self.edge(p, found[k]));
            }
            assert forall|i: int, j: int|
                0 <= i < found.len() && 0 <= j < found.len() && i != j && #[trigger] reachable(
                    self@.edges,
                    found[i],
                    found[j],
                ) implies i < j by {
                let steps = choose|steps: nat|
                    crate::entity_manager::reach::walk(self@.edges, found[i], found[j], steps);
                lemma_order_follows_walks(self@.edges, found, found[i], j, steps);
                let k = choose|k: int|
                    0 <= k <= j && #[trigger] found[k] == found[i] && (steps > 0 ==> k < j);
                assert(k == i);
            }
        }
        entities
    }

    /// Whether every dependency that `descriptor` declares names an entity.
    pub fn check_dependencies(&self, descriptor: &N) -> (present: bool)
        requires
            self.wf(),
        ensures
            present == self.dependencies_present(descriptor),
    {
        let dependencies = descriptor.dependencies();
        let mut i: usize = 0;
        while i < dependencies.len()
            invariant
                self.wf(),
                i <= dependencies.len(),
                dependencies@ == descriptor.dependencies_spec(),
                forall|j: int| 0 <= j < i ==> self.contains(#[trigger] dependencies@[j]),
            decreases dependencies.len() - i,
        {
            if !self.contains_entity(&dependencies[i]) {
                assert(!self.contains(descriptor.dependencies_spec()[i as int]));
                return false;
            }
            i += 1;
        }
        true
    }

    /// Add an entity to the graph, with one edge from each of its
    /// dependencies. Fails, and changes nothing, where a dependency names no
    /// entity.
    pub fn add_entity(&mut self, entity: N) -> (result: Result<EntityId, EntityManagerError>)
        requires
            old(self).wf(),
        ensures
            final(self).wf(),
            match result {
                Ok(id) => {
                    &&& old(self).dependencies_present(&entity)
                    &&& !old(self).contains(id)
                    &&& final(self)@.entities == old(self)@.entities.insert(id, entity)
                    &&& forall|a: EntityId, b: EntityId|
                        final(self).edge(a, b) <==> old(self).edge(a, b) || (b == id
                            && entity.dependencies_spec().contains(a))
                    &&& final(self).count() == old(self).count() + 1
                },
                Err(error) => {
                    &&& error is MissingDependencies
                    &&& !old(self).dependencies_present(&entity)
                    &&& final(self)@ == old(self)@
                    &&& final(self).graph_spec() == old(self).graph_spec()
                    &&& final(self).count() == old(self).count()
                },
            },
    {
        if !self.check_dependencies(&entity) {
            return Err(EntityManagerError::MissingDependencies);
        }
        let dependencies = entity.dependencies();
        let index = graph_add_node(&mut self.dependency_graph);
        let id = EntityId(index);
        let ghost stored = entity;
        self.entities.insert(index, entity);
        assert(self@.entities =~= old(self)@.entities.insert(id, stored));
        assert(self@.edges =~= old(self)@.edges);
        let mut i: usize = 0;
        while i < dependencies.len()
            invariant
                self.wf(),
                i <= dependencies.len(),
                dependencies@ == stored.dependencies_spec(),
                old(self).dependencies_present(&stored),
                !old(self).contains(id),
                self@.entities == old(self)@.entities.insert(id, stored),
                self.count() == old(self).count() + 1,
                forall|p: (EntityId, EntityId)|
                    #[trigger] self@.edges.contains(p) <==> old(self)@.edges.contains(p) || (p.1
                        == id && among(dependencies@, i as int, p.0)),
            decreases dependencies.len() - i,
        {
            assert(old(self).contains(dependencies@[i as int]));
            let ghost prev = self@;
            assert(prev.entities.contains_key(dependencies@[i as int]));
            assert(prev.entities.contains_key(id));
            self.add_dependency(&dependencies[i], &id);
            assert(self@.edges == prev.edges.insert((dependencies@[i as int], id)));
            assert forall|p: (EntityId, EntityId)|
                #[trigger] self@.edges.contains(p) <==> old(self)@.edges.contains(p) || (p.1 == id
                    && among(dependencies@, i + 1, p.0)) by {
                lemma_among_step(dependencies@, i as int, p.0);
            }
            i += 1;
        }
        assert forall|a: EntityId, b: EntityId|
            self.edge(a, b) <==> old(self).edge(a, b) || (b == id
                && stored.dependencies_spec().contains(a)) by {
            lemma_among_all(dependencies@, a);
            assert(self@.edges.contains((a, b)) <==> old(self)@.edges.contains((a, b)) || (b == id
                && among(dependencies@, dependencies@.len() as int, a)));
        }
        Ok(id)
    }

    /// Bring the edges into `id` in line with its dependencies, which went
    /// from `current` to `coming`.
    fn rewire(&mut self, id: &EntityId, current: &Vec<EntityId>, coming: &Vec<EntityId>)
        requires
            old(self).wf(),
            old(self).contains(*id),
        ensures
            final(self).wf(),
            final(self).count() == old(self).count(),
            final(self)@.entities == old(self)@.entities,
            final(self)@.edges == rewired(
                old(self)@.edges,
                old(self)@.entities.dom(),
                *id,
                current@,
                coming@,
            ),
            current@ =~= coming@ ==> final(self).graph_spec() == old(self).graph_spec(),
    {
        let ghost present = old(self)@.entities.dom();
        // Removing what is no longer a dependency.
        let mut i: usize = 0;
        while i < current.len()
            invariant
                self.wf(),
                i <= current.len(),
                self.count() == old(self).count(),
                self@.entities == old(self)@.entities,
                current@ =~= coming@ ==> self.dependency_graph == old(self).dependency_graph,
                forall|p: (EntityId, EntityId)|
                    #[trigger] self@.edges.contains(p) <==> old(self)@.edges.contains(p) && !(p.1
                        == *id && !coming@.contains(p.0) && among(current@, i as int, p.0)),
            decreases current.len() - i,
        {
            if !holds_id(coming, &current[i]) {
                assert(!(current@ =~= coming@)) by {
                    if current@ =~= coming@ {
                        assert(coming@[i as int] == current@[i as int]);
                    }
                }
                self.remove_dependency(&current[i], id);
            }
            assert forall|p: (EntityId, EntityId)|
                #[trigger] self@.edges.contains(p) <==> old(self)@.edges.contains(p) && !(p.1
                    == *id && !coming@.contains(p.0) && among(current@, i + 1, p.0)) by {
                lemma_among_step(current@, i as int, p.0);
            }
            i += 1;
        }
        let ghost pruned = self@.edges;
        assert forall|p: (EntityId, EntityId)|
            #[trigger] pruned.contains(p) <==> old(self)@.edges.contains(p) && !(p.1 == *id
                && !coming@.contains(p.0) && current@.contains(p.0)) by {
            lemma_among_all(current@, p.0);
        }
        // Adding the new dependencies.
        let mut k: usize = 0;
        while k < coming.len()
            invariant
                self.wf(),
                k <= coming.len(),
                self.count() == old(self).count(),
                self@.entities == old(self)@.entities,
                present == old(self)@.entities.dom(),
                present.contains(*id),
                forall|p: (EntityId, EntityId)|
                    #[trigger] pruned.contains(p) <==> old(self)@.edges.contains(p) && !(p.1
                        == *id && !coming@.contains(p.0) && current@.contains(p.0)),
                current@ =~= coming@ ==> self.dependency_graph == old(self).dependency_graph,
                forall|p: (EntityId, EntityId)|
                    #[trigger] self@.edges.contains(p) <==> pruned.contains(p) || (p.1 == *id
                        && !current@.contains(p.0) && present.contains(p.0) && among(
                        coming@,
                        k as int,
                        p.0,
                    )),
            decreases coming.len() - k,
        {
            if !holds_id(current, &coming[k]) {
                assert(!(current@ =~= coming@)) by {
                    if current@ =~= coming@ {
                        assert(current@[k as int] == coming@[k as int]);
                    }
                }
                let ghost prev = self@;
                assert(prev.entities.contains_key(*id));
                assert(prev.entities.dom() =~= present);
                self.add_dependency(&coming[k], id);
                assert(self@.edges == if present.contains(coming@[k as int]) {
                    prev.edges.insert((coming@[k as int], *id))
                } else {
                    prev.edges
                });
            }
            assert forall|p: (EntityId, EntityId)|
                #[trigger] self@.edges.contains(p) <==> pruned.contains(p) || (p.1 == *id
                    && !current@.contains(p.0) && present.contains(p.0) && among(
                    coming@,
                    k + 1,
                    p.0,
                )) by {
                lemma_among_step(coming@, k as int, p.0);
            }
            k += 1;
        }
        assert(self@.edges =~= rewired(old(self)@.edges, present, *id, current@, coming@)) by {
            assert forall|p: (EntityId, EntityId)|
                self@.edges.contains(p) <==> rewired(
                    old(self)@.edges,
                    present,
                    *id,
                    current@,
                    coming@,
                ).contains(p) by {
                lemma_among_all(current@, p.0);
                lemma_among_all(coming@, p.0);
            }
        }
    }

    /// Update an entity in place, then bring the edges into it in line with
    /// the dependencies it declares afterwards.
    pub fn update_entity<T, F: FnOnce(&mut N) -> T>(&mut self, id: &EntityId, callback: F) -> (result:
        Option<T>)
        requires
            old(self).wf(),
            old(self).contains(*id) ==> forall|entity: &mut N|
                *entity == old(self)@.entities[*id] ==> call_requires(callback, (entity,)),
        ensures
            final(self).wf(),
            final(self).count() == old(self).count(),
            result is Some <==> old(self).contains(*id),
            result is None ==> final(self)@ == old(self)@ && final(self).graph_spec() == old(self).graph_spec(),
            result is Some ==> exists|entity: &mut N|
                {
                    &&& *entity == old(self)@.entities[*id]
                    &&& #[trigger] call_ensures(callback, (entity,), result->Some_0)
                    &&& final(self)@.entities == old(self)@.entities.insert(*id, *final(entity))
                },
            result is Some ==> final(self)@.edges == rewired(
                old(self)@.edges,
                old(self)@.entities.dom(),
                *id,
                old(self)@.entities[*id].dependencies_spec(),
                final(self)@.entities[*id].dependencies_spec(),
            ),
            result is Some && old(self)@.entities[*id].dependencies_spec() =~= final(self)@.entities[*id].dependencies_spec() ==> final(self).graph_spec() == old(self).graph_spec(),
    {
        let taken = self.entities.remove(&id.0);
        match taken {
            None => {
                assert(self.entities@ =~= old(self).entities@);
                assert(self@.entities =~= old(self)@.entities);
                assert(self@.edges =~= old(self)@.edges);
                None
            },
            Some(mut entity) => {
                let ghost first = entity;
                let current = entity.dependencies();
                let result = callback(&mut entity);
                let ghost last = entity;
                let ghost value = result;
                assert(exists|e: &mut N|
                    *e == first && #[trigger] call_ensures(callback, (e,), value) && *final(e)
                        == last);
                let coming = entity.dependencies();
                self.entities.insert(id.0, entity);
                assert(self@.entities =~= old(self)@.entities.insert(*id, last));
                assert(self@.edges =~= old(self)@.edges);
                assert(self@.entities.dom() =~= old(self)@.entities.dom());
                self.rewire(id, &current, &coming);
                let updated = Some(result);
                assert(updated->Some_0 == value);
                assert(old(self)@.entities[*id] == first);
                assert(self@.entities == old(self)@.entities.insert(*id, last));
                assert(exists|entity: &mut N|
                    {
                        &&& *entity == old(self)@.entities[*id]
                        &&& #[trigger] call_ensures(callback, (entity,), updated->Some_0)
                        &&& self@.entities == old(self)@.entities.insert(*id, *final(entity))
                    });
                updated
            },
        }
    }

    /// Remove an entity from the graph, with every edge that starts or ends
    /// at it. Fails where `id` names no entity.
    pub fn remove_entity(&mut self, id: &EntityId) -> (result: Result<(), ()>)
        requires
            old(self).wf(),
        ensures
            final(self).wf(),
            result is Ok <==> old(self).contains(*id),
            final(self)@.entities == old(self)@.entities.remove(*id),
            forall|a: EntityId, b: EntityId|
                final(self).edge(a, b) <==> old(self).edge(a, b) && a != *id && b != *id,
            result is Ok ==> final(self).count() + 1 == old(self).count(),
            result is Err ==> final(self).count() == old(self).count(),
    {
        let ghost before = graph_edges(self.dependency_graph);
        if graph_remove_node(&mut self.dependency_graph, id.0) {
            self.entities.remove(&id.0);
            assert(self@.entities =~= old(self)@.entities.remove(*id));
            assert forall|a: EntityId, b: EntityId|
                self.edge(a, b) <==> old(self).edge(a, b) && a != *id && b != *id by {
                let after = graph_edges(self.dependency_graph);
                if self.edge(a, b) {
                    let e = choose|e: usize| #[trigger] after.contains_key(e) && after[e] == (a.0, b.0);
                    assert(before.contains_key(e));
                }
                if old(self).edge(a, b) && a != *id && b != *id {
                    let e = choose|e: usize| #[trigger]
                        before.contains_key(e) && before[e] == (a.0, b.0);
                    assert(after.contains_key(e));
                }
            }
            Ok(())
        } else {
            assert(self@.entities =~= old(self)@.entities.remove(*id));
            assert forall|a: EntityId, b: EntityId|
                self.edge(a, b) <==> old(self).edge(a, b) && a != *id && b != *id by {
                if old(self).edge(a, b) {
                    old(self).lemma_edges_join_entities(a, b);
                }
            }
            Err(())
        }
    }

    /// Add a dependency between two entities: an edge from `entity1` to
    /// `entity2`. Nothing happens where the edge is there already, or where
    /// one of the two names no entity.
    pub fn add_dependency(&mut self, entity1: &EntityId, entity2: &EntityId)
        requires
            old(self).wf(),
        ensures
            final(self).wf(),
            final(self)@.entities == old(self)@.entities,
            final(self).count() == old(self).count(),
            final(self)@.edges == if old(self).contains(*entity1) && old(self).contains(*entity2) {
                old(self)@.edges.insert((*entity1, *entity2))
            } else {
                old(self)@.edges
            },
            !(old(self).contains(*entity1) && old(self).contains(*entity2)) || old(self).edge(
                *entity1,
                *entity2,
            ) ==> final(self).graph_spec() == old(self).graph_spec(),
    {
        let node1 = entity1.0;
        let node2 = entity2.0;
        let ghost before = graph_edges(self.dependency_graph);
        if graph_contains_node(&self.dependency_graph, node1) && graph_contains_node(
            &self.dependency_graph,
            node2,
        ) {
            if graph_find_edge(&self.dependency_graph, node1, node2).is_none() {
                let e = graph_add_edge(&mut self.dependency_graph, node1, node2);
                let ghost after = graph_edges(self.dependency_graph);
                assert(after.contains_key(e));
                assert(self@.edges =~= old(self)@.edges.insert((*entity1, *entity2))) by {
                    assert forall|p: (EntityId, EntityId)|
                        self@.edges.contains(p) <==> old(self)@.edges.insert(
                            (*entity1, *entity2),
                        ).contains(p) by {
                        if self@.edges.contains(p) {
                            let x = choose|x: usize| #[trigger]
                                after.contains_key(x) && after[x] == (p.0.0, p.1.0);
                            if x != e {
                                assert(before.contains_key(x));
                            }
                        }
                        if old(self)@.edges.contains(p) {
                            let x = choose|x: usize| #[trigger]
                                before.contains_key(x) && before[x] == (p.0.0, p.1.0);
                            assert(after.contains_key(x));
                        }
                    }
                }
            } else {
                assert(self@.edges =~= old(self)@.edges.insert((*entity1, *entity2)));
            }
        }
    }

    /// Remove a dependency between two entities: the edge from `entity1` to
    /// `entity2`. Tells whether it was there.
    pub fn remove_dependency(&mut self, entity1: &EntityId, entity2: &EntityId) -> (removed: bool)
        requires
            old(self).wf(),
        ensures
            final(self).wf(),
            removed == old(self).edge(*entity1, *entity2),
            final(self)@.entities == old(self)@.entities,
            final(self).count() == old(self).count(),
            final(self)@.edges == old(self)@.edges.remove((*entity1, *entity2)),
            !removed ==> final(self).graph_spec() == old(self).graph_spec(),
    {
        let ghost before = graph_edges(self.dependency_graph);
        match graph_find_edge(&self.dependency_graph, entity1.0, entity2.0) {
            Some(edge_id) => {
                graph_remove_edge(&mut self.dependency_graph, edge_id);
                let ghost after = graph_edges(self.dependency_graph);
                assert(self@.edges =~= old(self)@.edges.remove((*entity1, *entity2))) by {
                    assert forall|p: (EntityId, EntityId)|
                        self@.edges.contains(p) <==> old(self)@.edges.remove(
                            (*entity1, *entity2),
                        ).contains(p) by {
                        if self@.edges.contains(p) {
                            let x = choose|x: usize| #[trigger]
                                after.contains_key(x) && after[x] == (p.0.0, p.1.0);
                            assert(before.contains_key(x));
                            assert(before.contains_key(edge_id));
                        }
                        if old(self)@.edges.remove((*entity1, *entity2)).contains(p) {
                            let x = choose|x: usize| #[trigger]
                                before.contains_key(x) && before[x] == (p.0.0, p.1.0);
                            assert(after.contains_key(x));
                        }
                    }
                }
                true
            },
            None => {
                assert(self@.edges =~= old(self)@.edges.remove((*entity1, *entity2)));
                false
            },
        }
    }
}

} // verus!
