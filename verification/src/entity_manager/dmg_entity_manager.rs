//! The damage-tracking entity manager: an entity manager with the set of the
//! entities that have to be rebuilt, and with the owners of shared entities.

use vstd::prelude::*;
use std::collections::HashSet;
use crate::common::resources::descriptors::HaveDescriptor;
use crate::common::resources::descriptors::HaveDescriptorAndHandle;
use crate::common::resources::descriptors::HaveHandle;
use crate::common::resources::descriptors::HaveOwners;
use crate::common::tasks::TaskId;
use crate::entity_manager::graph::bfs_bound;
use crate::entity_manager::graph::bfs_discovered;
use crate::entity_manager::graph::bfs_new;
use crate::entity_manager::graph::bfs_next;
use crate::entity_manager::graph::bfs_queue;
use crate::entity_manager::graph::graph_edges;
use crate::entity_manager::graph::graph_nodes;
use crate::entity_manager::graph::linked;
use crate::entity_manager::reach::closed;
use crate::entity_manager::reach::downstream;
use crate::entity_manager::reach::lemma_closed_holds_reachable;
use crate::entity_manager::reach::lemma_downstream_closed;
use crate::entity_manager::reach::lemma_downstream_least;
use crate::entity_manager::reach::lemma_reachable_self;
use crate::entity_manager::reach::lemma_reachable_step;
use crate::entity_manager::reach::reachable;
use crate::entity_manager::rewired;
use crate::entity_manager::EntityId;
use crate::entity_manager::reach::lemma_downstream_of_sink;
use crate::entity_manager::EntityManagerError;
use crate::entity_manager::EntityManager;
use crate::entity_manager::ManagerView;

verus! {

/// The damage set after `id` was damaged: nothing changes where `id` is
/// damaged already or names no entity; else `id` and whatever it reaches
/// along the edges join the set.
pub open spec fn spread(
    damaged: Set<EntityId>,
    present: Set<EntityId>,
    edges: Set<(EntityId, EntityId)>,
    id: EntityId,
) -> Set<EntityId> {
    if damaged.contains(id) || !present.contains(id) {
        damaged
    } else {
        damaged.union(downstream(edges, id))
    }
}

/// Damage propagation: a damage set that holds, with each entity, what the
/// entity's edges lead to, still does so after `id` was damaged; and it then
/// holds whatever `id` reaches along the edges.
pub proof fn lemma_damage_stays_closed(
    damaged: Set<EntityId>,
    present: Set<EntityId>,
    edges: Set<(EntityId, EntityId)>,
    id: EntityId,
)
    requires
        closed(edges, damaged),
        present.contains(id),
    ensures
        closed(edges, spread(damaged, present, edges, id)),
        forall|x: EntityId| reachable(edges, id, x) ==> spread(damaged, present, edges, id).contains(x),
{
    lemma_downstream_closed(edges, id);
    assert forall|x: EntityId| reachable(edges, id, x) implies spread(
        damaged,
        present,
        edges,
        id,
    ).contains(x) by {
        if damaged.contains(id) {
            lemma_closed_holds_reachable(edges, damaged, id, x);
        } else {
            assert(downstream(edges, id).contains(x));
        }
    }
}

/// Damage propagation: once an entity that was not damaged is damaged,
/// whatever it reaches along the edges is damaged, whatever was damaged
/// before.
pub proof fn lemma_new_damage_reaches(
    damaged: Set<EntityId>,
    present: Set<EntityId>,
    edges: Set<(EntityId, EntityId)>,
    id: EntityId,
    to: EntityId,
)
    requires
        present.contains(id),
        !damaged.contains(id),
        reachable(edges, id, to),
    ensures
        spread(damaged, present, edges, id).contains(to),
{
    assert(downstream(edges, id).contains(to));
}

/// Damage propagation: in a damage set that holds, with each entity, what the
/// entity's edges lead to, whatever a damaged entity reaches is damaged.
pub proof fn lemma_damage_reaches(
    damaged: Set<EntityId>,
    edges: Set<(EntityId, EntityId)>,
    from: EntityId,
    to: EntityId,
)
    requires
        closed(edges, damaged),
        damaged.contains(from),
        reachable(edges, from, to),
    ensures
        damaged.contains(to),
{
    lemma_closed_holds_reachable(edges, damaged, from, to);
}

/// `owners` without its first item that is `owner`.
pub open spec fn without_owner(owners: Seq<TaskId>, owner: TaskId) -> Seq<TaskId> {
    match owners.index_of_first(owner) {
        Some(i) => owners.remove(i),
        None => owners,
    }
}

/// `owners` with `owner` at its end, unless it holds `owner` already.
pub open spec fn with_owner(owners: Seq<TaskId>, owner: TaskId) -> Seq<TaskId> {
    if owners.contains(owner) {
        owners
    } else {
        owners.push(owner)
    }
}

/// The position of the first item of `owners` that is `owner`.
pub fn owner_position(owners: &Vec<TaskId>, owner: &TaskId) -> (position: Option<usize>)
    ensures
        match position {
            Some(i) => {
                &&& i < owners@.len()
                &&& owners@[i as int] == *owner
                &&& owners@.contains(*owner)
                &&& owners@.index_of_first(*owner) == Some(i as int)
            },
            None => !owners@.contains(*owner) && owners@.index_of_first(*owner) is None,
        },
{
    let mut i: usize = 0;
    while i < owners.len()
        invariant
            i <= owners.len(),
            forall|j: int| 0 <= j < i ==> owners@[j] != *owner,
        decreases owners.len() - i,
    {
        if owners[i] == *owner {
            proof {
                assert(owners@.contains(*owner));
                owners@.index_of_first_ensures(*owner);
            }
            return Some(i);
        }
        i += 1;
    }
    proof {
        owners@.index_of_first_ensures(*owner);
    }
    None
}

pub struct DMGEntityManager<N: HaveDescriptorAndHandle> {
    manager: EntityManager<N>,
    damaged: HashSet<usize>,
}

impl<N: HaveDescriptorAndHandle> View for DMGEntityManager<N> {
    type V = ManagerView<N>;

    closed spec fn view(&self) -> ManagerView<N> {
        self.manager@
    }
}

impl<N: HaveDescriptorAndHandle> DMGEntityManager<N> {
    /// The entity manager underneath.
    pub closed spec fn inner_spec(&self) -> EntityManager<N> {
        self.manager
    }

    /// The entities that have to be rebuilt.
    pub closed spec fn damaged_spec(&self) -> Set<EntityId> {
        Set::new(|id: EntityId| self.damaged@.contains(id.0))
    }

    /// The manager's invariant: that of the entity manager, and only entities
    /// are damaged.
    pub closed spec fn wf(&self) -> bool {
        &&& self.manager.wf()
        &&& forall|i: usize| #[trigger] self.damaged@.contains(i) ==> self.manager.contains(EntityId(i))
    }

    /// `id` names an entity of the manager.
    pub open spec fn contains(&self, id: EntityId) -> bool {
        self@.entities.contains_key(id)
    }

    /// There is an edge from `from` to `to`: `to` depends on `from`.
    pub open spec fn edge(&self, from: EntityId, to: EntityId) -> bool {
        self@.edges.contains((from, to))
    }

    /// `id` has to be rebuilt.
    pub open spec fn is_damaged_spec(&self, id: EntityId) -> bool {
        self.damaged_spec().contains(id)
    }

    /// What the invariant says, in terms of what the manager shows.
    pub proof fn lemma_wf(&self)
        requires
            self.wf(),
        ensures
            self.inner_spec().wf(),
            self.inner_spec()@ == self@,
            forall|id: EntityId| self.is_damaged_spec(id) ==> self.contains(id),
    {
    }

    pub fn new() -> (manager: Self)
        ensures
            manager.wf(),
            manager@.entities == Map::<EntityId, N>::empty(),
            manager@.edges == Set::<(EntityId, EntityId)>::empty(),
            manager.damaged_spec() == Set::<EntityId>::empty(),
    {
        let manager = Self { manager: EntityManager::new(), damaged: HashSet::new() };
        assert(manager.damaged_spec() =~= Set::<EntityId>::empty());
        manager
    }

    /// The entity manager underneath, to read from.
    pub fn inner(&self) -> (manager: &EntityManager<N>)
        ensures
            *manager == self.inner_spec(),
    {
        &self.manager
    }

    /// Put `descriptor` in the place of the descriptor of `id`, and hand the
    /// former one back. Where the former one asks for a rebuild on the way to
    /// the new one, `id` is damaged.
    pub fn update_entity_descriptor(&mut self, id: &EntityId, descriptor: N::D) -> (result: Option<
        N::D,
    >) where N::D: HaveDescriptor<D = N::D>
        requires
            old(self).wf(),
        ensures
            final(self).wf(),
            result is Some <==> old(self).contains(*id),
            match result {
                None => {
                    &&& final(self)@ == old(self)@
                    &&& final(self).damaged_spec() == old(self).damaged_spec()
                    &&& final(self).inner_spec().graph_spec() == old(self).inner_spec().graph_spec()
                },
                Some(previous) => {
                    &&& previous == old(self)@.entities[*id].descriptor_spec()
                    &&& final(self)@.entities == old(self)@.entities.insert(
                        *id,
                        old(self)@.entities[*id].with_descriptor(descriptor),
                    )
                    &&& final(self)@.edges == rewired(
                        old(self)@.edges,
                        old(self)@.entities.dom(),
                        *id,
                        old(self)@.entities[*id].dependencies_spec(),
                        final(self)@.entities[*id].dependencies_spec(),
                    )
                    &&& final(self).damaged_spec() == if previous.needs_update_spec(&descriptor) {
                        spread(
                            old(self).damaged_spec(),
                            final(self)@.entities.dom(),
                            final(self)@.edges,
                            *id,
                        )
                    } else {
                        old(self).damaged_spec()
                    }
                },
            },
    {
        let ghost incoming = descriptor;
        let ghost first = self@.entities[*id];
        let replace = |entity: &mut N| -> (previous: N::D)
            ensures
                previous == old(entity).descriptor_spec(),
                *final(entity) == old(entity).with_descriptor(incoming),
            {
                let mut slot = descriptor;
                std::mem::swap(entity.descriptor_mut(), &mut slot);
                slot
            };
        let result = self.manager.update_entity(id, replace);
        match result {
            Some(previous) => {
                let needs_update = match self.manager.entity(id) {
                    Some(entity) => {
                        proof {
                            first.lemma_descriptor_set(incoming);
                        }
                        previous.needs_update(entity.descriptor_ref())
                    },
                    None => false,
                };
                assert(self@.entities.dom() =~= old(self)@.entities.dom().insert(*id));
                if needs_update {
                    self.damage_entity(*id);
                }
                Some(previous)
            },
            None => None,
        }
    }

    /// Put `handle` in the place of the handle of `id`; `id` is then no
    /// longer damaged. Tells whether `id` names an entity.
    pub fn update_entity_handle(&mut self, id: &EntityId, handle: N::H) -> (updated: bool)
        requires
            old(self).wf(),
        ensures
            final(self).wf(),
            updated == old(self).contains(*id),
            !updated ==> final(self)@ == old(self)@ && final(self).damaged_spec() == old(
                self,
            ).damaged_spec() && final(self).inner_spec().graph_spec() == old(
                self,
            ).inner_spec().graph_spec(),
            updated ==> final(self)@.entities == old(self)@.entities.insert(
                *id,
                old(self)@.entities[*id].with_handle(handle),
            ),
            updated ==> final(self)@.edges == rewired(
                old(self)@.edges,
                old(self)@.entities.dom(),
                *id,
                old(self)@.entities[*id].dependencies_spec(),
                final(self)@.entities[*id].dependencies_spec(),
            ),
            updated ==> final(self).damaged_spec() == old(self).damaged_spec().remove(*id),
    {
        let ghost incoming = handle;
        let replace = |entity: &mut N| -> (done: bool)
            ensures
                *final(entity) == old(entity).with_handle(incoming),
            {
                let mut slot = handle;
                std::mem::swap(entity.handle_mut(), &mut slot);
                true
            };
        let result = self.manager.update_entity(id, replace);
        if result.is_some() {
            self.fix_entity(id);
            true
        } else {
            assert(self.damaged_spec() =~= old(self).damaged_spec());
            false
        }
    }

    /// Put `handle` in the place of the handle of `id`, and leave what is
    /// damaged as it is. Tells whether `id` names an entity.
    pub fn replace_entity_handle(&mut self, id: &EntityId, handle: N::H) -> (replaced: bool)
        requires
            old(self).wf(),
        ensures
            final(self).wf(),
            replaced == old(self).contains(*id),
            final(self).damaged_spec() == old(self).damaged_spec(),
            !replaced ==> final(self)@ == old(self)@,
            replaced ==> final(self)@.entities == old(self)@.entities.insert(
                *id,
                old(self)@.entities[*id].with_handle(handle),
            ),
            replaced ==> final(self)@.edges == rewired(
                old(self)@.edges,
                old(self)@.entities.dom(),
                *id,
                old(self)@.entities[*id].dependencies_spec(),
                final(self)@.entities[*id].dependencies_spec(),
            ),
    {
        let ghost incoming = handle;
        let replace = |entity: &mut N| -> (done: bool)
            ensures
                *final(entity) == old(entity).with_handle(incoming),
            {
                let mut slot = handle;
                std::mem::swap(entity.handle_mut(), &mut slot);
                true
            };
        let result = self.manager.update_entity(id, replace);
        assert(result is Some ==> self@.entities.dom() =~= old(self)@.entities.dom().insert(*id));
        assert forall|i: usize| #[trigger] self.damaged@.contains(i) implies self.manager.contains(
            EntityId(i),
        ) by {
            assert(old(self).manager.contains(EntityId(i)));
        }
        result.is_some()
    }

    pub fn entity_descriptor_ref(&self, id: &EntityId) -> (descriptor: Option<&N::D>)
        requires
            self.wf(),
        ensures
            match descriptor {
                Some(d) => self.contains(*id) && *d == self@.entities[*id].descriptor_spec(),
                None => !self.contains(*id),
            },
    {
        match self.manager.entity(id) {
            Some(entity) => Some(entity.descriptor_ref()),
            None => None,
        }
    }

    pub fn entity_handle_ref(&self, id: &EntityId) -> (handle: Option<&N::H>)
        requires
            self.wf(),
        ensures
            match handle {
                Some(h) => self.contains(*id) && *h == self@.entities[*id].handle_spec(),
                None => !self.contains(*id),
            },
    {
        match self.manager.entity(id) {
            Some(entity) => Some(entity.handle_ref()),
            None => None,
        }
    }

    /// Damage `id` and whatever it reaches along the edges. Nothing happens
    /// where `id` is damaged already, or names no entity.
    pub fn damage_entity(&mut self, id: EntityId)
        requires
            old(self).wf(),
        ensures
            final(self).wf(),
            final(self)@ == old(self)@,
            final(self).inner_spec() == old(self).inner_spec(),
            final(self).damaged_spec() == spread(
                old(self).damaged_spec(),
                old(self)@.entities.dom(),
                old(self)@.edges,
                id,
            ),
    {
        if self.is_damaged(&id) || !self.manager.contains_entity(&id) {
            return ;
        }
        let graph = self.manager.graph();
        let ghost nodes = graph_nodes(*graph);
        let ghost edges = graph_edges(*graph);
        let ghost view_edges = self@.edges;
        let ghost before = self.damaged@;
        proof {
            self.manager.lemma_graph_view();
            lemma_reachable_self(view_edges, id);
        }
        let mut walk = bfs_new(graph, id.0);
        let ghost mut visited = Set::<usize>::empty();
        assert(bfs_queue(walk)[0] == id.0);
        assert(forall|x: usize| bfs_queue(walk).contains(x) <==> x == id.0);
        let mut done = false;
        while !done
            invariant
                self.manager.wf(),
                self.manager == old(self).manager,
                *graph == self.manager.graph_spec(),
                nodes == graph_nodes(*graph),
                edges == graph_edges(*graph),
                view_edges == self.manager@.edges,
                nodes.finite(),
                forall|a: EntityId, b: EntityId|
                    self.manager.edge(a, b) <==> #[trigger] linked(edges, a.0, b.0),
                forall|x: EntityId| self.manager.contains(x) <==> #[trigger] nodes.contains(x.0),
                forall|a: usize, b: usize| #[trigger]
                    linked(edges, a, b) ==> nodes.contains(a) && nodes.contains(b),
                forall|x: usize| nodes.contains(x) ==> x < bfs_bound(walk),
                bfs_queue(walk).no_duplicates(),
                forall|i: int|
                    0 <= i < bfs_queue(walk).len() ==> !visited.contains(
                        #[trigger] bfs_queue(walk)[i],
                    ),
                forall|x: usize| #[trigger]
                    bfs_discovered(walk).contains(x) <==> visited.contains(x) || bfs_queue(
                        walk,
                    ).contains(x),
                forall|x: usize| #[trigger]
                    bfs_discovered(walk).contains(x) ==> nodes.contains(x) && reachable(
                        view_edges,
                        id,
                        EntityId(x),
                    ),
                forall|x: usize, y: usize|
                    visited.contains(x) && #[trigger] linked(edges, x, y) ==> bfs_discovered(
                        walk,
                    ).contains(y),
                bfs_discovered(walk).contains(id.0),
                visited.finite(),
                visited.subset_of(nodes),
                visited.len() <= nodes.len(),
                self.damaged@ =~= before.union(visited),
                done ==> bfs_queue(walk).len() == 0,
            decreases nodes.len() - visited.len() + (if done { 0int } else { 1int }),
        {
            let ghost queue = bfs_queue(walk);
            let ghost discovered = bfs_discovered(walk);
            match bfs_next(&mut walk, graph) {
                Some(node) => {
                    self.damaged.insert(node);
                    proof {
                        let added = choose|added: Seq<usize>|
                            {
                                &&& #[trigger] added.no_duplicates()
                                &&& bfs_queue(walk) == queue.drop_first() + added
                                &&& forall|x: usize|
                                    added.contains(x) <==> linked(edges, node, x)
                                        && !discovered.contains(x)
                            };
                        let rest = queue.drop_first();
                        assert(queue[0] == node);
                        assert(queue.contains(node));
                        assert(discovered.contains(node));
                        assert(nodes.contains(node));
                        assert forall|x: usize| rest.contains(x) <==> queue.contains(x) && x
                            != node by {
                            if rest.contains(x) {
                                let j = choose|j: int| 0 <= j < rest.len() && rest[j] == x;
                                assert(queue[j + 1] == x);
                            }
                            if queue.contains(x) && x != node {
                                let j = choose|j: int| 0 <= j < queue.len() && queue[j] == x;
                                assert(rest[j - 1] == x);
                            }
                        }
                        let next = rest + added;
                        assert forall|x: usize| next.contains(x) <==> rest.contains(x)
                            || added.contains(x) by {
                            if next.contains(x) {
                                let j = choose|j: int| 0 <= j < next.len() && next[j] == x;
                                if j < rest.len() {
                                    assert(rest[j] == x);
                                } else {
                                    assert(added[j - rest.len()] == x);
                                }
                            }
                            if rest.contains(x) {
                                let j = choose|j: int| 0 <= j < rest.len() && rest[j] == x;
                                assert(next[j] == x);
                            }
                            if added.contains(x) {
                                let j = choose|j: int| 0 <= j < added.len() && added[j] == x;
                                assert(next[j + rest.len()] == x);
                            }
                        }
                        assert(next.no_duplicates()) by {
                            assert forall|i: int, j: int|
                                0 <= i < next.len() && 0 <= j < next.len() && i != j implies next[i]
                                != next[j] by {
                                if i < rest.len() && j < rest.len() {
                                    assert(queue[i + 1] != queue[j + 1]);
                                } else if i >= rest.len() && j >= rest.len() {
                                    assert(added[i - rest.len()] != added[j - rest.len()]);
                                } else if i < rest.len() {
                                    assert(rest.contains(rest[i]));
                                    assert(added.contains(added[j - rest.len()]));
                                } else {
                                    assert(rest.contains(rest[j]));
                                    assert(added.contains(added[i - rest.len()]));
                                }
                            }
                        }
                        assert forall|i: int| 0 <= i < next.len() implies !visited.insert(
                            node,
                        ).contains(#[trigger] next[i]) by {
                            assert(next.contains(next[i]));
                            if rest.contains(next[i]) {
                                let j = choose|j: int| 0 <= j < queue.len() && queue[j] == next[i];
                                assert(!visited.contains(queue[j]));
                            }
                        }
                        assert forall|x: usize| #[trigger]
                            bfs_discovered(walk).contains(x) implies nodes.contains(x)
                            && reachable(view_edges, id, EntityId(x)) by {
                            if !discovered.contains(x) {
                                assert(linked(edges, node, x));
                                assert(self.manager.edge(EntityId(node), EntityId(x)));
                                lemma_reachable_step(view_edges, id, EntityId(node), EntityId(x));
                            }
                        }
                        assert(!visited.contains(node));
                        vstd::set_lib::lemma_len_subset(visited.insert(node), nodes);
                        assert(visited.insert(node).len() == visited.len() + 1);
                        visited = visited.insert(node);
                    }
                },
                None => {
                    done = true;
                },
            }
        }
        proof {
            let marked = Set::new(|x: EntityId| visited.contains(x.0));
            assert forall|x: usize| visited.contains(x) <==> bfs_discovered(walk).contains(x) by {
                if bfs_queue(walk).contains(x) {
                    let j = choose|j: int| 0 <= j < bfs_queue(walk).len() && bfs_queue(walk)[j] == x;
                }
            }
            assert(closed(view_edges, marked)) by {
                assert forall|a: EntityId, b: EntityId|
                    marked.contains(a) && #[trigger] view_edges.contains((a, b)) implies marked.contains(
                    b,
                ) by {
                    assert(self.manager.edge(a, b));
                    assert(linked(edges, a.0, b.0));
                }
            }
            lemma_downstream_least(view_edges, marked, id);
            assert(self.damaged_spec() =~= old(self).damaged_spec().union(
                downstream(view_edges, id),
            )) by {
                assert forall|x: EntityId|
                    self.damaged_spec().contains(x) <==> old(self).damaged_spec().union(
                        downstream(view_edges, id),
                    ).contains(x) by {
                    if downstream(view_edges, id).contains(x) {
                        assert(marked.contains(x));
                    }
                    if visited.contains(x.0) {
                        assert(bfs_discovered(walk).contains(x.0));
                        assert(EntityId(x.0) == x);
                    }
                }
            }
            assert forall|i: usize| #[trigger] self.damaged@.contains(i) implies self.manager.contains(
                EntityId(i),
            ) by {
                if visited.contains(i) {
                    assert(nodes.contains(EntityId(i).0));
                }
            }
        }
    }

    /// `id` is no longer damaged.
    pub fn fix_entity(&mut self, id: &EntityId)
        requires
            old(self).wf(),
        ensures
            final(self).wf(),
            final(self)@ == old(self)@,
            final(self).inner_spec() == old(self).inner_spec(),
            final(self).damaged_spec() == old(self).damaged_spec().remove(*id),
    {
        self.damaged.remove(&id.0);
        assert(self.damaged_spec() =~= old(self).damaged_spec().remove(*id));
    }

    pub fn is_damaged(&self, id: &EntityId) -> (damaged: bool)
        ensures
            damaged == self.is_damaged_spec(*id),
    {
        self.damaged.contains(&id.0)
    }

    /// Add a dependency between two entities, as the entity manager does.
    pub fn add_dependency(&mut self, entity1: &EntityId, entity2: &EntityId)
        requires
            old(self).wf(),
        ensures
            final(self).wf(),
            final(self)@.entities == old(self)@.entities,
            final(self).damaged_spec() == old(self).damaged_spec(),
            final(self)@.edges == if old(self).contains(*entity1) && old(self).contains(*entity2) {
                old(self)@.edges.insert((*entity1, *entity2))
            } else {
                old(self)@.edges
            },
    {
        self.manager.add_dependency(entity1, entity2)
    }

    /// Remove an entity, as the entity manager does; it is then no longer
    /// damaged either.
    pub fn remove_entity(&mut self, id: &EntityId) -> (result: Result<(), ()>)
        requires
            old(self).wf(),
        ensures
            final(self).wf(),
            result is Ok <==> old(self).contains(*id),
            final(self)@.entities == old(self)@.entities.remove(*id),
            forall|a: EntityId, b: EntityId|
                final(self).edge(a, b) <==> old(self).edge(a, b) && a != *id && b != *id,
            final(self).damaged_spec() == old(self).damaged_spec().remove(*id),
    {
        let result = self.manager.remove_entity(id);
        self.damaged.remove(&id.0);
        assert(self.damaged_spec() =~= old(self).damaged_spec().remove(*id));
        assert forall|a: EntityId, b: EntityId|
            self.edge(a, b) <==> old(self).edge(a, b) && a != *id && b != *id by {
            assert(self.edge(a, b) == self.manager.edge(a, b));
            assert(old(self).edge(a, b) == old(self).manager.edge(a, b));
        }
        result
    }

    /// Every entity once, by rising index.
    pub fn entities(&self) -> (ids: Vec<EntityId>)
        requires
            self.wf(),
        ensures
            forall|id: EntityId| ids@.contains(id) <==> self.contains(id),
            forall|i: int, j: int| 0 <= i < j < ids@.len() ==> ids@[i].0 < ids@[j].0,
    {
        self.manager.entities()
    }
}

impl<X, N: HaveDescriptorAndHandle<H = Option<X>>> DMGEntityManager<N> {
    /// Add an entity, with one edge from each of its dependencies. An entity
    /// that comes without a handle is damaged. Fails, and changes nothing,
    /// where a dependency names no entity.
    pub fn add_entity(&mut self, entity: N) -> (result: Result<EntityId, EntityManagerError>)
        requires
            old(self).wf(),
        ensures
            final(self).wf(),
            match result {
                Ok(id) => {
                    &&& old(self).inner_spec().dependencies_present(&entity)
                    &&& !old(self).contains(id)
                    &&& final(self)@.entities == old(self)@.entities.insert(id, entity)
                    &&& forall|a: EntityId, b: EntityId|
                        final(self).edge(a, b) <==> old(self).edge(a, b) || (b == id
                            && entity.dependencies_spec().contains(a))
                    &&& final(self).damaged_spec() == if entity.handle_spec() is None {
                        old(self).damaged_spec().insert(id)
                    } else {
                        old(self).damaged_spec()
                    }
                },
                Err(error) => {
                    &&& error is MissingDependencies
                    &&& !old(self).inner_spec().dependencies_present(&entity)
                    &&& final(self)@ == old(self)@
                    &&& final(self).inner_spec().graph_spec() == old(self).inner_spec().graph_spec()
                    &&& final(self).damaged_spec() == old(self).damaged_spec()
                },
            },
    {
        let ghost added = entity;
        let damaged = entity.handle_ref().is_none();
        proof {
            self.lemma_wf();
        }
        match self.manager.add_entity(entity) {
            Ok(id) => {
                assert forall|a: EntityId, b: EntityId|
                    self.edge(a, b) <==> old(self).edge(a, b) || (b == id
                        && added.dependencies_spec().contains(a)) by {
                    assert(self.edge(a, b) == self.manager.edge(a, b));
                    assert(old(self).edge(a, b) == old(self).manager.edge(a, b));
                }
                let ghost edges = self@.edges;
                let ghost grown = *self;
                if damaged {
                    self.damage_entity(id);
                    proof {
                        assert forall|b: EntityId| !edges.contains((id, b)) by {
                            assert(grown.edge(id, b) == edges.contains((id, b)));
                            if old(self).edge(id, b) {
                                assert(old(self).inner_spec().edge(id, b));
                                old(self).inner_spec().lemma_edges_join_entities(id, b);
                            }
                            if b == id && added.dependencies_spec().contains(id) {
                                let i = choose|i: int|
                                    0 <= i < added.dependencies_spec().len()
                                        && added.dependencies_spec()[i] == id;
                                assert(old(self).inner_spec().contains(
                                    added.dependencies_spec()[i],
                                ));
                            }
                        }
                        lemma_downstream_of_sink(edges, id);
                        assert(!old(self).damaged_spec().contains(id));
                        assert(self.damaged_spec() =~= old(self).damaged_spec().insert(id));
                    }
                }
                Ok(id)
            },
            Err(error) => Err(error),
        }
    }

    /// Take the handle of `id` out and hand it back; `id` is damaged then,
    /// with whatever it reaches along the edges. Nothing happens where `id`
    /// names no entity.
    pub fn take_entity_handle(&mut self, id: &EntityId) -> (handle: Option<X>)
        requires
            old(self).wf(),
        ensures
            final(self).wf(),
            handle == if old(self).contains(*id) {
                old(self)@.entities[*id].handle_spec()
            } else {
                None
            },
            final(self)@.entities == if old(self).contains(*id) {
                old(self)@.entities.insert(*id, old(self)@.entities[*id].with_handle(None))
            } else {
                old(self)@.entities
            },
            old(self).contains(*id) ==> final(self)@.edges == rewired(
                old(self)@.edges,
                old(self)@.entities.dom(),
                *id,
                old(self)@.entities[*id].dependencies_spec(),
                final(self)@.entities[*id].dependencies_spec(),
            ),
            !old(self).contains(*id) ==> final(self)@.edges == old(self)@.edges,
            final(self).damaged_spec() == spread(
                old(self).damaged_spec(),
                final(self)@.entities.dom(),
                final(self)@.edges,
                *id,
            ),
    {
        let take = |entity: &mut N| -> (taken: Option<X>)
            ensures
                taken == old(entity).handle_spec(),
                *final(entity) == old(entity).with_handle(None),
            {
                entity.handle_mut().take()
            };
        let result = self.manager.update_entity(id, take);
        assert(old(self).contains(*id) ==> self@.entities.dom() =~= old(self)@.entities.dom().insert(
            *id,
        ));
        assert(!old(self).contains(*id) ==> self@.entities.dom() =~= old(self)@.entities.dom());
        let handle = match result {
            Some(taken) => taken,
            None => None,
        };
        self.damage_entity(*id);
        handle
    }
}

impl<N: HaveDescriptorAndHandle + HaveOwners<O = TaskId>> DMGEntityManager<N> {
    /// The owners of `id`.
    pub fn entity_owners(&self, id: &EntityId) -> (owners: Option<Vec<TaskId>>)
        requires
            self.wf(),
        ensures
            match owners {
                Some(o) => self.contains(*id) && o@ == self@.entities[*id].owners_spec(),
                None => !self.contains(*id),
            },
    {
        match self.manager.entity(id) {
            Some(entity) => {
                let held = entity.owners_ref();
                let mut owners: Vec<TaskId> = Vec::new();
                let mut i: usize = 0;
                while i < held.len()
                    invariant
                        i <= held.len(),
                        owners@ == held@.take(i as int),
                    decreases held.len() - i,
                {
                    owners.push(held[i]);
                    assert(held@.take(i + 1) =~= held@.take(i as int).push(held@[i as int]));
                    i += 1;
                }
                assert(held@.take(held@.len() as int) =~= held@);
                Some(owners)
            },
            None => None,
        }
    }

    /// `new_owner` joins the owners of `id`, unless it is one of them.
    pub fn add_entity_owner(&mut self, id: &EntityId, new_owner: TaskId)
        requires
            old(self).wf(),
        ensures
            final(self).wf(),
            final(self).damaged_spec() == old(self).damaged_spec(),
            !old(self).contains(*id) ==> final(self)@ == old(self)@,
            old(self).contains(*id) ==> exists|owners: Vec<TaskId>|
                {
                    &&& #[trigger] owners@ == with_owner(
                        old(self)@.entities[*id].owners_spec(),
                        new_owner,
                    )
                    &&& final(self)@.entities == old(self)@.entities.insert(
                        *id,
                        old(self)@.entities[*id].with_owners(owners),
                    )
                },
            old(self).contains(*id) ==> final(self)@.edges == rewired(
                old(self)@.edges,
                old(self)@.entities.dom(),
                *id,
                old(self)@.entities[*id].dependencies_spec(),
                final(self)@.entities[*id].dependencies_spec(),
            ),
    {
        let join = |entity: &mut N| -> (done: bool)
            ensures
                exists|owners: Vec<TaskId>|
                    {
                        &&& #[trigger] owners@ == with_owner(old(entity).owners_spec(), new_owner)
                        &&& *final(entity) == old(entity).with_owners(owners)
                    },
            {
                let ghost first = *entity;
                let owners = entity.owners_mut();
                if owner_position(owners, &new_owner).is_none() {
                    owners.push(new_owner);
                }
                true
            };
        let result = self.manager.update_entity(id, join);
    }

    /// `owner` leaves the owners of `id`, if it is one of them. Hands back
    /// how many owners are left, or `None` where `id` names no entity.
    pub fn remove_entity_owner(&mut self, id: &EntityId, owner: &TaskId) -> (left: Option<usize>)
        requires
            old(self).wf(),
        ensures
            final(self).wf(),
            final(self).damaged_spec() == old(self).damaged_spec(),
            left is Some <==> old(self).contains(*id),
            left is None ==> final(self)@ == old(self)@,
            left is Some ==> left->Some_0 == without_owner(
                old(self)@.entities[*id].owners_spec(),
                *owner,
            ).len(),
            left is Some ==> exists|owners: Vec<TaskId>|
                {
                    &&& #[trigger] owners@ == without_owner(
                        old(self)@.entities[*id].owners_spec(),
                        *owner,
                    )
                    &&& final(self)@.entities == old(self)@.entities.insert(
                        *id,
                        old(self)@.entities[*id].with_owners(owners),
                    )
                },
            left is Some ==> final(self)@.edges == rewired(
                old(self)@.edges,
                old(self)@.entities.dom(),
                *id,
                old(self)@.entities[*id].dependencies_spec(),
                final(self)@.entities[*id].dependencies_spec(),
            ),
    {
        let leaving = *owner;
        let leave = |entity: &mut N| -> (left: usize)
            ensures
                left == without_owner(old(entity).owners_spec(), leaving).len(),
                exists|owners: Vec<TaskId>|
                    {
                        &&& #[trigger] owners@ == without_owner(old(entity).owners_spec(), leaving)
                        &&& *final(entity) == old(entity).with_owners(owners)
                    },
            {
                let owners = entity.owners_mut();
                if let Some(index) = owner_position(owners, &leaving) {
                    owners.remove(index);
                }
                owners.len()
            };
        self.manager.update_entity(id, leave)
    }
}

} // verus!
