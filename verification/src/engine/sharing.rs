//! What holds of resources that tasks share, from what the resource manager
//! says of adding and removing them.

use vstd::prelude::*;
use crate::common::resources::descriptors::Equivalent;
use crate::common::resources::descriptors::HaveDependencies;
use crate::common::resources::descriptors::HaveDescriptor;
use crate::common::resources::descriptors::ResourceDescriptor;
use crate::common::resources::descriptors::StateType;
use crate::common::resources::handles::ResourceHandle;
use crate::common::resources::ResourceId;
use crate::common::tasks::TaskId;
use crate::engine::resource_manager::ResourceManager;
use crate::entity_manager::dmg_entity_manager::with_owner;
use crate::entity_manager::reach::acyclic;
use crate::entity_manager::reach::lemma_acyclic_with_sink;
use crate::entity_manager::dmg_entity_manager::without_owner;
use crate::entity_manager::EntityId;
use crate::entity_manager::EntityManagerError;

verus! {

/// Descriptors that are the same are of the same kind, and both stateless or
/// both statefull.
pub proof fn lemma_same_is_same_kind(first: ResourceDescriptor, second: ResourceDescriptor)
    requires
        first.same(&second),
    ensures
        first.kind_spec() == second.kind_spec(),
        first.state_type_spec() == second.state_type_spec(),
{
}

/// Stateless descriptors that are the same share one resource: where a
/// resource was added for the one, adding a resource for the other gives the
/// same identifier, with no new resource, and the second task joins the
/// owners. Where the first was not shared itself, the owners are then the two
/// tasks.
pub proof fn lemma_same_descriptors_share(
    start: &ResourceManager,
    middle: &ResourceManager,
    end: &ResourceManager,
    first_task: TaskId,
    second_task: TaskId,
    first: ResourceDescriptor,
    second: ResourceDescriptor,
    first_handle: Option<ResourceHandle>,
    second_handle: Option<ResourceHandle>,
    first_result: Result<ResourceId, EntityManagerError>,
    second_result: Result<ResourceId, EntityManagerError>,
)
    requires
        start.wf(),
        middle.wf(),
        end.wf(),
        first.state_type_spec() == StateType::Stateless,
        first.same(&second),
        middle.added(start, first_task, first, first_handle, first_result),
        end.added(middle, second_task, second, second_handle, second_result),
        first_result is Ok,
    ensures
        second_result == first_result,
        end@.entities.dom() == middle@.entities.dom(),
        end.owners_of(first_result->Ok_0.entity_spec()) == with_owner(
            middle.owners_of(first_result->Ok_0.entity_spec()),
            second_task,
        ),
        start.compatible_spec(None, first) is None ==> end.owners_of(
            first_result->Ok_0.entity_spec(),
        ) == with_owner(seq![first_task], second_task),
{
    lemma_same_is_same_kind(first, second);
    let kind = first.kind_spec();
    let id = first_result->Ok_0;
    let entity = id.entity_spec();
    start.lemma_wf();
    middle.lemma_wf();
    start.lemma_compatible_is_valid(None, first);
    let candidates = start.listed_spec(kind);
    start.lemma_first_compatible(candidates, None, first);
    assert forall|c: EntityId| c != entity && start.contains(c) implies middle.is_compatible(
        c,
        None,
        second,
    ) == start.is_compatible(c, None, first) by {
        let stored = start@.entities[c].current_descriptor;
        assert(middle@.entities[c] == start@.entities[c]);
        stored.lemma_same_symmetric(&first);
        stored.lemma_same_symmetric(&second);
        first.lemma_same_symmetric(&second);
        if stored.same(&first) {
            stored.lemma_same_transitive(&first, &second);
        }
        if stored.same(&second) {
            stored.lemma_same_transitive(&second, &first);
        }
    }
    if start.compatible_spec(None, first) is Some {
        assert(middle.listed_spec(kind) == candidates);
        let stored = start@.entities[entity].current_descriptor;
        assert(middle.descriptor_of(entity) == Some(stored));
        assert(stored.same(&first));
        stored.lemma_same_transitive(&first, &second);
        assert forall|i: int| 0 <= i < candidates.len() implies middle.is_compatible(
            #[trigger] candidates[i],
            None,
            second,
        ) == start.is_compatible(candidates[i], None, first) by {
            assert(candidates.contains(candidates[i]));
        }
        middle.lemma_first_compatible_agrees(start, candidates, None, second, None, first);
    } else {
        assert(middle.listed_spec(kind) == candidates.push(entity));
        assert forall|i: int| 0 <= i < candidates.len() implies !middle.is_compatible(
            #[trigger] candidates[i],
            None,
            second,
        ) by {
            assert(candidates.contains(candidates[i]));
            assert(!start.is_compatible(candidates[i], None, first));
        }
        assert(middle.descriptor_of(entity) == Some(first));
        middle.lemma_first_compatible_last(candidates, entity, None, second);
        id.lemma_typed();
    }
    assert(middle.compatible_spec(None, second) == Some(id));
}

/// Statefull descriptors are never shared: two resources added for statefull
/// descriptors, the same or not, are two.
pub proof fn lemma_statefull_is_never_shared(
    start: &ResourceManager,
    middle: &ResourceManager,
    end: &ResourceManager,
    first_task: TaskId,
    second_task: TaskId,
    first: ResourceDescriptor,
    second: ResourceDescriptor,
    first_handle: Option<ResourceHandle>,
    second_handle: Option<ResourceHandle>,
    first_result: Result<ResourceId, EntityManagerError>,
    second_result: Result<ResourceId, EntityManagerError>,
)
    requires
        start.wf(),
        middle.wf(),
        end.wf(),
        first.state_type_spec() == StateType::Statefull,
        second.state_type_spec() == StateType::Statefull,
        middle.added(start, first_task, first, first_handle, first_result),
        end.added(middle, second_task, second, second_handle, second_result),
        first_result is Ok,
        second_result is Ok,
    ensures
        first_result->Ok_0.entity_spec() != second_result->Ok_0.entity_spec(),
        end.contains(first_result->Ok_0.entity_spec()),
        end.contains(second_result->Ok_0.entity_spec()),
        end.owners_of(first_result->Ok_0.entity_spec()) == seq![first_task],
        end.owners_of(second_result->Ok_0.entity_spec()) == seq![second_task],
{
    let one = first_result->Ok_0.entity_spec();
    let two = second_result->Ok_0.entity_spec();
    assert(middle.contains(one));
    assert(!middle.contains(two));
    assert(end@.entities[one] == middle@.entities[one]);
}

/// A resource leaves with its last owner, and not before: where an owner
/// leaves a resource that has another owner left, the resource stays with
/// the owners that are left; where the one owner leaves, the resource is
/// gone, and its identifier names nothing.
pub proof fn lemma_resource_leaves_with_last_owner(
    before: &ResourceManager,
    after: &ResourceManager,
    task: TaskId,
    id: ResourceId,
    result: Result<(), ()>,
)
    requires
        before.wf(),
        after.wf(),
        before.valid(id),
        after.released(before, task, id, result),
    ensures
        result is Ok,
        before.owners_of(id.entity_spec()).len() > 1 ==> {
            &&& after.valid(id)
            &&& after.owners_of(id.entity_spec()) == without_owner(
                before.owners_of(id.entity_spec()),
                task,
            )
            &&& after.owners_of(id.entity_spec()).len() >= before.owners_of(id.entity_spec()).len()
                - 1
            &&& before.owners_of(id.entity_spec()).contains(task) ==> after.owners_of(
                id.entity_spec(),
            ).len() == before.owners_of(id.entity_spec()).len() - 1
        },
        before.owners_of(id.entity_spec()) == seq![task] ==> {
            &&& !after.contains(id.entity_spec())
            &&& !after.valid(id)
            &&& after.descriptor_of(id.entity_spec()) is None
            &&& after.handle_of(id.entity_spec()) is None
            &&& !after.is_damaged_spec(id.entity_spec())
        },
{
    let owners = before.owners_of(id.entity_spec());
    owners.index_of_first_ensures(task);
    if owners == seq![task] {
        assert(owners[0] == task);
        assert(owners.contains(task));
        assert(without_owner(owners, task) =~= Seq::<TaskId>::empty());
    }
}

/// Adding a resource brings no cycle: where the dependency graph had none
/// before a resource was added, it has none afterwards.
pub proof fn lemma_adding_keeps_acyclic(
    before: &ResourceManager,
    after: &ResourceManager,
    task: TaskId,
    descriptor: ResourceDescriptor,
    handle: Option<ResourceHandle>,
    result: Result<ResourceId, EntityManagerError>,
)
    requires
        before.wf(),
        after.wf(),
        after.added(before, task, descriptor, handle, result),
        acyclic(before@.edges),
    ensures
        acyclic(after@.edges),
{
    before.lemma_wf();
    if result is Ok && before.compatible_spec(None, descriptor) is None {
        let id = result->Ok_0.entity_spec();
        let sources = descriptor.dependencies_spec();
        assert forall|a: EntityId, b: EntityId| #[trigger]
            before@.edges.contains((a, b)) implies a != id && b != id by {
            before.inner_spec().lemma_wf();
            assert(before.inner_spec().inner_spec()@ == before@);
            assert(before.inner_spec().inner_spec().edge(a, b));
            before.inner_spec().inner_spec().lemma_edges_join_entities(a, b);
        }
        assert(!sources.contains(id)) by {
            if sources.contains(id) {
                let i = choose|i: int| 0 <= i < sources.len() && sources[i] == id;
                assert(before.contains(sources[i]));
            }
        }
        assert forall|a: EntityId, b: EntityId| #[trigger]
            after@.edges.contains((a, b)) implies before@.edges.contains((a, b)) || (b == id
            && sources.contains(a)) by {
            assert(after.edge(a, b));
        }
        lemma_acyclic_with_sink(before@.edges, after@.edges, id, sources);
    }
}

} // verus!
