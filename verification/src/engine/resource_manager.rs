//! The resource manager: the damage-tracking entity manager, specialized to
//! the resources of the backend. It keeps one list of identifiers per kind of
//! resource, finds a stateless resource again by its descriptor, counts the
//! owners of a resource, and rebuilds what is damaged in dependency order.

use vstd::prelude::*;
use crate::common::resources::builders::alike_on;
use crate::common::resources::builders::kept;
use crate::common::resources::builders::ResourceBuilder;
use crate::common::resources::descriptors::Equivalent;
use crate::common::resources::descriptors::HaveDependencies;
use crate::common::resources::descriptors::HaveDescriptor;
use crate::common::resources::descriptors::HaveHandle;
use crate::common::resources::descriptors::HaveOwners;
use crate::common::resources::descriptors::ResourceDescriptor;
use crate::common::resources::descriptors::StateType;
use crate::common::resources::handles::CommandBufferHandle;
use crate::common::resources::handles::DeviceHandle;
use crate::common::resources::handles::FrameHandle;
use crate::common::resources::handles::ResourceHandle;
use crate::common::resources::CommandBufferId;
use crate::common::resources::DeviceId;
use crate::common::resources::SwapchainId;
use crate::common::resources::TextureViewId;
use crate::common::resources::Resource;
use crate::common::resources::ResourceId;
use crate::common::resources::ResourceType;
use crate::common::tasks::TaskId;
use crate::entity_manager::dmg_entity_manager::spread;
use crate::entity_manager::dmg_entity_manager::with_owner;
use crate::entity_manager::dmg_entity_manager::without_owner;
use crate::entity_manager::dmg_entity_manager::DMGEntityManager;
use crate::entity_manager::lemma_rewired_same;
use crate::entity_manager::reach::acyclic;
use crate::entity_manager::reach::reachable;
use crate::entity_manager::reach::lemma_downstream_of_sink;
use crate::entity_manager::rewired;
use crate::entity_manager::holds_id;
use crate::entity_manager::EntityId;
use crate::entity_manager::EntityManagerError;
use crate::entity_manager::ManagerView;

verus! {

/// The resources of a build order, in their order.
pub open spec fn path_entities(entity_path: Seq<(EntityId, Vec<EntityId>)>) -> Seq<EntityId> {
    Seq::new(entity_path.len(), |i: int| entity_path[i].0)
}

/// `create` makes, for every builder, a handle of the builder's kind.
pub open spec fn always_makes<F: Fn(&ResourceBuilder) -> Option<ResourceHandle>>(create: F) -> bool {
    forall|builder: &ResourceBuilder, made: Option<ResourceHandle>|
        #[trigger] call_ensures(create, (builder,), made) ==> kept(builder.kind_spec(), made) is Some
}

/// The places before `place` whose resource is among the dependencies of the
/// resource at `place`, by rising place: what the resource at `place` has to
/// wait for where the resources of `entity_path` are rebuilt side by side.
pub fn awaited(entity_path: &Vec<(EntityId, Vec<EntityId>)>, place: usize) -> (places: Vec<usize>)
    requires
        place < entity_path@.len(),
    ensures
        forall|j: usize|
            places@.contains(j) <==> j < place && entity_path@[place as int].1@.contains(
                entity_path@[j as int].0,
            ),
        forall|a: int, b: int| 0 <= a < b < places@.len() ==> places@[a] < places@[b],
{
    let mut places: Vec<usize> = Vec::new();
    let mut j: usize = 0;
    while j < place
        invariant
            j <= place,
            place < entity_path@.len(),
            forall|k: usize|
                places@.contains(k) <==> k < j && entity_path@[place as int].1@.contains(
                    entity_path@[k as int].0,
                ),
            forall|a: int, b: int| 0 <= a < b < places@.len() ==> places@[a] < places@[b],
        decreases place - j,
    {
        let ghost before = places@;
        if holds_id(&entity_path[place].1, &entity_path[j].0) {
            places.push(j);
            proof {
                assert(places@.last() == j);
                assert forall|k: usize|
                    places@.contains(k) <==> k < j + 1 && entity_path@[place as int].1@.contains(
                        entity_path@[k as int].0,
                    ) by {
                    if places@.contains(k) {
                        let i = choose|i: int| 0 <= i < places@.len() && places@[i] == k;
                        if i < before.len() {
                            assert(before[i] == k);
                            assert(before.contains(k));
                        }
                    }
                    if k < j + 1 && entity_path@[place as int].1@.contains(
                        entity_path@[k as int].0,
                    ) {
                        if k < j {
                            assert(before.contains(k));
                            let i = choose|i: int| 0 <= i < before.len() && before[i] == k;
                            assert(places@[i] == k);
                        } else {
                            assert(places@[before.len() as int] == k);
                        }
                    }
                }
                assert forall|a: int, b: int| 0 <= a < b < places@.len() implies places@[a]
                    < places@[b] by {
                    if b == before.len() {
                        assert(before[a] == places@[a]);
                        assert(before.contains(places@[a]));
                    } else {
                        assert(before[a] == places@[a]);
                        assert(before[b] == places@[b]);
                    }
                }
            }
        }
        j += 1;
    }
    places
}

/// Whether every one of the places `awaited` stands for a resource that was
/// rebuilt: where resources are rebuilt side by side, one that has waited is
/// rebuilt only then.
pub fn all_built(outcomes: &Vec<bool>, awaited: &Vec<usize>) -> (built: bool)
    ensures
        built == forall|i: int|
            0 <= i < awaited@.len() ==> (#[trigger] awaited@[i]) < outcomes@.len()
                && outcomes@[awaited@[i] as int],
{
    let mut i: usize = 0;
    while i < awaited.len()
        invariant
            i <= awaited.len(),
            forall|k: int|
                0 <= k < i ==> (#[trigger] awaited@[k]) < outcomes@.len()
                    && outcomes@[awaited@[k] as int],
        decreases awaited.len() - i,
    {
        let place = awaited[i];
        if place >= outcomes.len() || !outcomes[place] {
            return false;
        }
        i += 1;
    }
    true
}

/// The position of the first item of `ids` that is `id`.
pub fn position_of(ids: &Vec<EntityId>, id: &EntityId) -> (position: Option<usize>)
    ensures
        match position {
            Some(i) => i < ids@.len() && ids@[i as int] == *id && ids@.contains(*id),
            None => !ids@.contains(*id),
        },
{
    let mut i: usize = 0;
    while i < ids.len()
        invariant
            i <= ids.len(),
            forall|j: int| 0 <= j < i ==> ids@[j] != *id,
        decreases ids.len() - i,
    {
        if ids[i] == *id {
            return Some(i);
        }
        i += 1;
    }
    None
}

pub struct ResourceManager {
    inner: DMGEntityManager<Resource>,
    kinds: Vec<Vec<EntityId>>,
}

impl View for ResourceManager {
    type V = ManagerView<Resource>;

    closed spec fn view(&self) -> ManagerView<Resource> {
        self.inner@
    }
}

impl ResourceManager {
    /// The damage-tracking entity manager underneath.
    pub closed spec fn inner_spec(&self) -> DMGEntityManager<Resource> {
        self.inner
    }

    /// The entities of the kind `kind`, in the order in which they came.
    pub closed spec fn listed_spec(&self, kind: ResourceType) -> Seq<EntityId> {
        self.kinds@[kind.index_spec()]@
    }

    /// `id` names a resource of the manager.
    pub open spec fn contains(&self, id: EntityId) -> bool {
        self@.entities.contains_key(id)
    }

    /// There is an edge from `from` to `to`: `to` depends on `from`.
    pub open spec fn edge(&self, from: EntityId, to: EntityId) -> bool {
        self@.edges.contains((from, to))
    }

    /// The entities that have to be rebuilt.
    pub open spec fn damaged_spec(&self) -> Set<EntityId> {
        self.inner_spec().damaged_spec()
    }

    /// `id` has to be rebuilt.
    pub open spec fn is_damaged_spec(&self, id: EntityId) -> bool {
        self.damaged_spec().contains(id)
    }

    /// The descriptor of `id`, if `id` names a resource.
    pub open spec fn descriptor_of(&self, id: EntityId) -> Option<ResourceDescriptor> {
        if self.contains(id) {
            Some(self@.entities[id].current_descriptor)
        } else {
            None
        }
    }

    /// The handle of `id`, if `id` names a resource that has one.
    pub open spec fn handle_of(&self, id: EntityId) -> Option<ResourceHandle> {
        if self.contains(id) {
            self@.entities[id].current_handle
        } else {
            None
        }
    }

    /// The owners of `id`.
    pub open spec fn owners_of(&self, id: EntityId) -> Seq<TaskId> {
        self@.entities[id].owners@
    }

    /// `id` names a resource, and one of the kind that `id` is for.
    pub open spec fn valid(&self, id: ResourceId) -> bool {
        &&& self.contains(id.entity_spec())
        &&& self@.entities[id.entity_spec()].current_descriptor.kind_spec() == id.kind_spec()
    }

    /// The place of the kind of `id` among the kinds.
    pub open spec fn kind_index_of(&self, id: EntityId) -> int {
        self@.entities[id].current_descriptor.kind_spec().index_spec()
    }

    /// `id` is in the list of the kind at place `k`.
    pub closed spec fn in_list(&self, k: int, id: EntityId) -> bool {
        self.kinds@[k]@.contains(id)
    }

    /// The lists mirror the resources, `missing` left aside: a list holds the
    /// resources of its kind, each once.
    pub closed spec fn mirrored_but(&self, missing: Option<EntityId>) -> bool {
        &&& self.kinds@.len() == ResourceType::COUNT
        &&& forall|k: int, id: EntityId|
            0 <= k < ResourceType::COUNT && Some(id) != missing ==> (#[trigger] self.in_list(k, id)
                <==> self.contains(id) && self.kind_index_of(id) == k)
        &&& forall|k: int|
            #![trigger self.kinds@[k]]
            0 <= k < ResourceType::COUNT ==> self.kinds@[k]@.no_duplicates()
    }

    /// Every dependency that `descriptor` declares names a resource.
    pub open spec fn dependencies_known(&self, descriptor: ResourceDescriptor) -> bool {
        forall|i: int|
            0 <= i < descriptor.dependencies_spec().len() ==> self.contains(
                #[trigger] descriptor.dependencies_spec()[i],
            )
    }

    /// The lists of the kinds are what they were in `before`.
    pub open spec fn same_lists(&self, before: &Self) -> bool {
        forall|kind: ResourceType| #[trigger] self.listed_spec(kind) == before.listed_spec(kind)
    }

    /// The lists of the kinds are what they were in `before`, but for that of
    /// `kind`, which has `id` at its end.
    pub open spec fn listed_with(&self, before: &Self, kind: ResourceType, id: EntityId) -> bool {
        forall|other: ResourceType| #[trigger]
            self.listed_spec(other) == if other == kind {
                before.listed_spec(other).push(id)
            } else {
                before.listed_spec(other)
            }
    }

    /// The lists of the kinds are what they were in `before`, but for that of
    /// `kind`, which `id` has left.
    pub open spec fn listed_without(&self, before: &Self, kind: ResourceType, id: EntityId) -> bool {
        &&& forall|other: ResourceType|
            other != kind ==> #[trigger] self.listed_spec(other) == before.listed_spec(other)
        &&& exists|i: int|
            0 <= i < before.listed_spec(kind).len() && before.listed_spec(kind)[i] == id
                && #[trigger] before.listed_spec(kind).remove(i) == self.listed_spec(kind)
    }

    /// All resources but `id` are what they were in `before`.
    pub open spec fn same_but(&self, before: &Self, id: EntityId) -> bool {
        forall|x: EntityId|
            x != id && before.contains(x) ==> self.contains(x) && #[trigger] self@.entities[x]
                == before@.entities[x]
    }

    /// The manager's invariant: that of the manager underneath, and the lists
    /// mirror the resources.
    pub closed spec fn wf(&self) -> bool {
        &&& self.inner.wf()
        &&& self.mirrored_but(None)
    }

    /// `candidate` can stand for a resource described by `descriptor`: it has
    /// the same descriptor, and is not the one to leave out.
    pub open spec fn is_compatible(
        &self,
        candidate: EntityId,
        exclude: Option<ResourceId>,
        descriptor: ResourceDescriptor,
    ) -> bool {
        &&& self.contains(candidate)
        &&& exclude != Some(ResourceId::typed_spec(descriptor.kind_spec(), candidate))
        &&& self@.entities[candidate].current_descriptor.same(&descriptor)
    }

    /// The first of `candidates` that is compatible.
    pub open spec fn first_compatible(
        &self,
        candidates: Seq<EntityId>,
        exclude: Option<ResourceId>,
        descriptor: ResourceDescriptor,
    ) -> Option<EntityId>
        decreases candidates.len(),
    {
        if candidates.len() == 0 {
            None
        } else if self.is_compatible(candidates.first(), exclude, descriptor) {
            Some(candidates.first())
        } else {
            self.first_compatible(candidates.drop_first(), exclude, descriptor)
        }
    }

    /// The resource that a resource described by `descriptor` is to share:
    /// none for a statefull descriptor; else the first resource of the
    /// descriptor's kind, in the order in which they came, that is compatible.
    pub open spec fn compatible_spec(
        &self,
        exclude: Option<ResourceId>,
        descriptor: ResourceDescriptor,
    ) -> Option<ResourceId> {
        if descriptor.state_type_spec() == StateType::Statefull {
            None
        } else {
            match self.first_compatible(
                self.listed_spec(descriptor.kind_spec()),
                exclude,
                descriptor,
            ) {
                Some(entity) => Some(ResourceId::typed_spec(descriptor.kind_spec(), entity)),
                None => None,
            }
        }
    }

    /// What the invariant says of the lists: a list holds the resources of
    /// its kind, each once; and of the damaged entities: they are resources.
    pub proof fn lemma_wf(&self)
        requires
            self.wf(),
        ensures
            self.inner_spec().wf(),
            self.inner_spec()@ == self@,
            forall|kind: ResourceType, id: EntityId|
                #[trigger] self.listed_spec(kind).contains(id) <==> self.contains(id)
                    && self@.entities[id].current_descriptor.kind_spec() == kind,
            forall|kind: ResourceType| #[trigger] self.listed_spec(kind).no_duplicates(),
            forall|id: EntityId| self.is_damaged_spec(id) ==> self.contains(id),
    {
        self.inner.lemma_wf();
        assert forall|kind: ResourceType, id: EntityId|
            #[trigger] self.listed_spec(kind).contains(id) <==> self.contains(id)
                && self@.entities[id].current_descriptor.kind_spec() == kind by {
            assert(self.in_list(kind.index_spec(), id) == self.listed_spec(kind).contains(id));
        }
        assert forall|kind: ResourceType| #[trigger] self.listed_spec(kind).no_duplicates() by {
            assert(self.kinds@[kind.index_spec()]@.no_duplicates());
        }
        assert forall|id: EntityId| self.is_damaged_spec(id) implies self.contains(id) by {
            assert(self.inner.is_damaged_spec(id));
            assert(self.inner.contains(id));
        }
    }

    pub fn new() -> (manager: Self)
        ensures
            manager.wf(),
            manager@.entities == Map::<EntityId, Resource>::empty(),
            manager@.edges == Set::<(EntityId, EntityId)>::empty(),
            manager.damaged_spec() == Set::<EntityId>::empty(),
    {
        let inner = DMGEntityManager::new();
        let mut kinds: Vec<Vec<EntityId>> = Vec::new();
        let mut k: usize = 0;
        while k < ResourceType::COUNT
            invariant
                k <= ResourceType::COUNT,
                kinds@.len() == k,
                forall|j: int| 0 <= j < k ==> (#[trigger] kinds@[j])@.len() == 0,
            decreases ResourceType::COUNT - k,
        {
            kinds.push(Vec::new());
            k += 1;
        }
        Self { inner, kinds }
    }

    /// The damage-tracking entity manager underneath, to read from.
    pub fn inner(&self) -> (inner: &DMGEntityManager<Resource>)
        ensures
            *inner == self.inner_spec(),
    {
        &self.inner
    }

    pub fn is_damaged(&self, id: &EntityId) -> (damaged: bool)
        ensures
            damaged == self.is_damaged_spec(*id),
    {
        self.inner.is_damaged(id)
    }

    pub fn entity_descriptor_ref(&self, id: &EntityId) -> (descriptor: Option<&ResourceDescriptor>)
        requires
            self.wf(),
        ensures
            match descriptor {
                Some(d) => self.descriptor_of(*id) == Some(*d),
                None => self.descriptor_of(*id) is None,
            },
    {
        self.inner.entity_descriptor_ref(id)
    }

    pub fn entity_handle_ref(&self, id: &EntityId) -> (handle: Option<&ResourceHandle>)
        requires
            self.wf(),
        ensures
            match handle {
                Some(h) => self.handle_of(*id) == Some(*h),
                None => self.handle_of(*id) is None,
            },
    {
        match self.inner.entity_handle_ref(id) {
            Some(Some(handle)) => Some(handle),
            _ => None,
        }
    }

    /// The descriptor of the resource `id`, where `id` names a resource of
    /// its kind.
    pub fn resource_descriptor(&self, id: &ResourceId) -> (descriptor: Option<&ResourceDescriptor>)
        requires
            self.wf(),
        ensures
            match descriptor {
                Some(d) => self.valid(*id) && self.descriptor_of(id.entity_spec()) == Some(*d),
                None => !self.valid(*id),
            },
    {
        match self.inner.entity_descriptor_ref(&id.entity_id()) {
            Some(descriptor) => {
                if descriptor.kind() == id.kind() {
                    Some(descriptor)
                } else {
                    None
                }
            },
            None => None,
        }
    }

    /// Look for the resource that a resource described by `descriptor` is to
    /// share, `id` left out.
    #[verifier::loop_isolation(false)]
    pub fn search_compatible(&self, id: Option<&ResourceId>, descriptor: &ResourceDescriptor) -> (found:
        Option<ResourceId>)
        requires
            self.wf(),
        ensures
            found == self.compatible_spec(
                match id {
                    Some(id) => Some(*id),
                    None => None,
                },
                *descriptor,
            ),
            found matches Some(other) ==> self.valid(other),
    {
        if descriptor.state_type() == StateType::Statefull {
            return None;
        }
        let kind = descriptor.kind();
        let ghost exclude: Option<ResourceId> = match id {
            Some(id) => Some(*id),
            None => None,
        };
        let candidates = &self.kinds[kind.index()];
        let mut i: usize = 0;
        assert(candidates@.skip(0) =~= candidates@);
        while i < candidates.len()
            invariant
                self.wf(),
                i <= candidates.len(),
                kind == descriptor.kind_spec(),
                *candidates == self.kinds@[kind.index_spec()],
                exclude == match id {
                    Some(id) => Some(*id),
                    None => None,
                },
                self.first_compatible(candidates@, exclude, *descriptor) == self.first_compatible(
                    candidates@.skip(i as int),
                    exclude,
                    *descriptor,
                ),
            decreases candidates.len() - i,
        {
            let candidate = candidates[i];
            let ghost rest = candidates@.skip(i as int);
            assert(rest.first() == candidate);
            assert(rest.drop_first() =~= candidates@.skip(i + 1));
            assert(self.in_list(kind.index_spec(), candidate)) by {
                assert(candidates@.contains(candidates@[i as int]));
            }
            let current = ResourceId::typed(kind, candidate);
            let excluded = match id {
                Some(id) => *id == current,
                None => false,
            };
            if !excluded {
                match self.inner.entity_descriptor_ref(&candidate) {
                    Some(stored) => {
                        if stored.equals(descriptor) {
                            assert(self.is_compatible(candidate, exclude, *descriptor));
                            return Some(current);
                        }
                    },
                    None => {},
                }
            }
            assert(!self.is_compatible(candidate, exclude, *descriptor));
            i += 1;
        }
        None
    }

    /// `id`, a resource of the kind `kind` that no list holds yet, joins the
    /// list of its kind.
    fn add_inner(&mut self, kind: ResourceType, id: EntityId) -> (typed: ResourceId)
        requires
            old(self).inner.wf(),
            old(self).mirrored_but(Some(id)),
            old(self).contains(id),
            old(self).kind_index_of(id) == kind.index_spec(),
            forall|k: int| 0 <= k < ResourceType::COUNT ==> !old(self).in_list(k, id),
        ensures
            final(self).wf(),
            final(self).inner == old(self).inner,
            typed == ResourceId::typed_spec(kind, id),
            final(self).listed_with(old(self), kind, id),
    {
        let k = kind.index();
        let ghost before = self.kinds@;
        assert(!self.in_list(k as int, id));
        self.kinds[k].push(id);
        assert forall|j: int, x: EntityId|
            0 <= j < ResourceType::COUNT implies (#[trigger] self.in_list(j, x) <==> self.contains(x)
            && self.kind_index_of(x) == j) by {
            assert(old(self).in_list(j, x) == before[j]@.contains(x));
            if j == k {
                assert(self.kinds@[j]@ == before[j]@.push(id));
                if before[j]@.contains(x) {
                    let i = choose|i: int| 0 <= i < before[j]@.len() && before[j]@[i] == x;
                    assert(self.kinds@[j]@[i] == x);
                }
                if x == id {
                    assert(self.kinds@[j]@[before[j]@.len() as int] == id);
                }
                if self.kinds@[j]@.contains(x) && x != id {
                    let i = choose|i: int| 0 <= i < self.kinds@[j]@.len() && self.kinds@[j]@[i] == x;
                    assert(before[j]@[i] == x);
                }
            } else {
                assert(self.kinds@[j] == before[j]);
            }
        }
        assert forall|j: int|
            #![trigger self.kinds@[j]]
            0 <= j < ResourceType::COUNT implies self.kinds@[j]@.no_duplicates() by {
            if j == k {
                assert(before[j]@.no_duplicates());
                assert(!before[j]@.contains(id)) by {
                    assert(old(self).in_list(j, id) == before[j]@.contains(id));
                }
                assert forall|a: int, b: int|
                    0 <= a < self.kinds@[j]@.len() && 0 <= b < self.kinds@[j]@.len() && a
                        != b implies self.kinds@[j]@[a] != self.kinds@[j]@[b] by {
                    if a < before[j]@.len() {
                        assert(before[j]@.contains(before[j]@[a]));
                    }
                    if b < before[j]@.len() {
                        assert(before[j]@.contains(before[j]@[b]));
                    }
                }
            } else {
                assert(self.kinds@[j] == before[j]);
            }
        }
        assert forall|other: ResourceType| #[trigger]
            self.listed_spec(other) == if other == kind {
                old(self).listed_spec(other).push(id)
            } else {
                old(self).listed_spec(other)
            } by {
            if other != kind {
                assert(other.index_spec() != kind.index_spec());
                assert(self.kinds@[other.index_spec()] == before[other.index_spec()]);
            }
        }
        ResourceId::typed(kind, id)
    }

    /// `id`, which was a resource of the kind `kind` and is none any longer,
    /// leaves the list of its kind.
    fn remove_inner(&mut self, kind: ResourceType, id: EntityId)
        requires
            old(self).inner.wf(),
            old(self).mirrored_but(Some(id)),
            !old(self).contains(id),
            forall|k: int|
                0 <= k < ResourceType::COUNT && k != kind.index_spec() ==> !old(self).in_list(k, id),
            old(self).in_list(kind.index_spec(), id),
        ensures
            final(self).wf(),
            final(self).inner == old(self).inner,
            final(self).listed_without(old(self), kind, id),
    {
        let k = kind.index();
        let ghost before = self.kinds@;
        match position_of(&self.kinds[k], &id) {
            Some(position) => {
                self.kinds[k].remove(position);
                assert(self.kinds@[k as int]@ == before[k as int]@.remove(position as int));
                assert(old(self).listed_spec(kind).remove(position as int) == self.listed_spec(kind));
            },
            None => {},
        }
        assert forall|other: ResourceType| other != kind implies #[trigger] self.listed_spec(other)
            == old(self).listed_spec(other) by {
            assert(other.index_spec() != kind.index_spec());
            assert(self.kinds@[other.index_spec()] == before[other.index_spec()]);
        }
        assert(before[k as int]@.no_duplicates());
        assert forall|j: int, x: EntityId|
            0 <= j < ResourceType::COUNT implies (#[trigger] self.in_list(j, x) <==> self.contains(x)
            && self.kind_index_of(x) == j) by {
            assert(old(self).in_list(j, x) == before[j]@.contains(x));
            if j == k {
                let list = before[j]@;
                let after = self.kinds@[j]@;
                if list.contains(id) {
                    let position = choose|p: int| 0 <= p < list.len() && list[p] == id && after
                        == list.remove(p);
                    if after.contains(x) {
                        let i = choose|i: int| 0 <= i < after.len() && after[i] == x;
                        if i < position {
                            assert(list[i] == x);
                        } else {
                            assert(list[i + 1] == x);
                        }
                        assert(list.contains(x));
                        assert(x != id);
                    }
                    if list.contains(x) && x != id {
                        let i = choose|i: int| 0 <= i < list.len() && list[i] == x;
                        if i < position {
                            assert(after[i] == x);
                        } else {
                            assert(after[i - 1] == x);
                        }
                    }
                }
            } else {
                assert(self.kinds@[j] == before[j]);
            }
        }
        assert forall|j: int|
            #![trigger self.kinds@[j]]
            0 <= j < ResourceType::COUNT implies self.kinds@[j]@.no_duplicates() by {
            if j == k {
                let list = before[j]@;
                let after = self.kinds@[j]@;
                if list.contains(id) {
                    let position = choose|p: int| 0 <= p < list.len() && list[p] == id && after
                        == list.remove(p);
                    assert forall|a: int, b: int|
                        0 <= a < after.len() && 0 <= b < after.len() && a != b implies after[a]
                        != after[b] by {
                        let a0 = if a < position { a } else { a + 1 };
                        let b0 = if b < position { b } else { b + 1 };
                        assert(after[a] == list[a0]);
                        assert(after[b] == list[b0]);
                    }
                }
            } else {
                assert(self.kinds@[j] == before[j]);
            }
        }
    }

    /// What `add_resource` makes of `before`, for `task`, `descriptor` and
    /// `handle`, with `result` for its result.
    pub open spec fn added(
        &self,
        before: &Self,
        task: TaskId,
        descriptor: ResourceDescriptor,
        handle: Option<ResourceHandle>,
        result: Result<ResourceId, EntityManagerError>,
    ) -> bool {
        &&& (result is Ok <==> before.compatible_spec(None, descriptor) is Some || before.dependencies_known(descriptor))
        &&& (result is Err ==> self@ == before@ && self.damaged_spec() == before.damaged_spec()
            && self.same_lists(before))
        &&& (match (result, before.compatible_spec(None, descriptor)) {
                (Ok(id), Some(shared)) => {
                    &&& id == shared
                    &&& self.same_lists(before)
                    &&& self@.entities.dom() == before@.entities.dom()
                    &&& self@.edges == before@.edges
                    &&& self.damaged_spec() == before.damaged_spec()
                    &&& self.same_but(before, id.entity_spec())
                    &&& self.owners_of(id.entity_spec()) == with_owner(
                        before.owners_of(id.entity_spec()),
                        task,
                    )
                    &&& self.descriptor_of(id.entity_spec()) == before.descriptor_of(
                        id.entity_spec(),
                    )
                    &&& self.handle_of(id.entity_spec()) == before.handle_of(
                        id.entity_spec(),
                    )
                },
                (Ok(id), None) => {
                    &&& !before.contains(id.entity_spec())
                    &&& id.kind_spec() == descriptor.kind_spec()
                    &&& self.listed_with(before, descriptor.kind_spec(), id.entity_spec())
                    &&& self@.entities.dom() == before@.entities.dom().insert(
                        id.entity_spec(),
                    )
                    &&& self.same_but(before, id.entity_spec())
                    &&& self.owners_of(id.entity_spec()) == seq![task]
                    &&& self.descriptor_of(id.entity_spec()) == Some(descriptor)
                    &&& self.handle_of(id.entity_spec()) == handle
                    &&& forall|a: EntityId, b: EntityId|
                        self.edge(a, b) <==> before.edge(a, b) || (b == id.entity_spec()
                            && descriptor.dependencies_spec().contains(a))
                    &&& self.damaged_spec() == if handle is None {
                        before.damaged_spec().insert(id.entity_spec())
                    } else {
                        before.damaged_spec()
                    }
                },
                _ => true,
            })
    }

    /// Add a resource for `task`. Where the descriptor is stateless and a
    /// resource with the same descriptor is there, `task` joins its owners
    /// and its identifier is handed back. Else a new resource comes, owned
    /// by `task` and damaged unless `handle` is given; this fails, and
    /// changes nothing, where a dependency of the descriptor names no
    /// resource.
    pub fn add_resource(
        &mut self,
        task: TaskId,
        descriptor: ResourceDescriptor,
        handle: Option<ResourceHandle>,
    ) -> (result: Result<ResourceId, EntityManagerError>)
        requires
            old(self).wf(),
        ensures
            final(self).wf(),
            final(self).added(old(self), task, descriptor, handle, result),
    {
        proof {
            self.inner.lemma_wf();
        }
        if descriptor.state_type() == StateType::Stateless {
            if let Some(id) = self.search_compatible(None, &descriptor) {
                let entity = id.entity_id();
                let ghost first = self@.entities[entity];
                self.inner.add_entity_owner(&entity, task);
                proof {
                    lemma_rewired_same(
                        old(self)@.edges,
                        old(self)@.entities.dom(),
                        entity,
                        first.dependencies_spec(),
                    );
                    let owners = choose|owners: Vec<TaskId>|
                        {
                            &&& #[trigger] owners@ == with_owner(first.owners_spec(), task)
                            &&& self.inner@.entities == old(self).inner@.entities.insert(
                                entity,
                                first.with_owners(owners),
                            )
                        };
                    assert(self@.entities[entity] == first.with_owners(owners));
                    assert(self@.entities.dom() =~= old(self)@.entities.dom());
                    self.lemma_mirror_kept(old(self), entity);
                }
                return Ok(id);
            }
        }
        let kind = descriptor.kind();
        let ghost described = descriptor;
        let mut owners: Vec<TaskId> = Vec::new();
        owners.push(task);
        let resource = Resource::new(owners, descriptor, handle);
        match self.inner.add_entity(resource) {
            Ok(id) => {
                assert(old(self).dependencies_known(described)) by {
                    assert(old(self).inner.inner_spec().dependencies_present(&resource));
                    assert forall|i: int|
                        0 <= i < described.dependencies_spec().len() implies old(self).contains(
                        #[trigger] described.dependencies_spec()[i],
                    ) by {
                        assert(old(self).inner.inner_spec().contains(
                            resource.dependencies_spec()[i],
                        ));
                    }
                }
                let ghost added = self@.edges;
                assert forall|a: EntityId, b: EntityId|
                    added.contains((a, b)) <==> old(self)@.edges.contains((a, b)) || (b == id
                        && described.dependencies_spec().contains(a)) by {
                    assert(self.inner.edge(a, b) == added.contains((a, b)));
                    assert(old(self).inner.edge(a, b) == old(self)@.edges.contains((a, b)));
                }
                assert(self@.entities.dom() =~= old(self)@.entities.dom().insert(id));
                proof {
                    self.lemma_mirror_kept(old(self), id);
                    assert forall|k: int| 0 <= k < ResourceType::COUNT implies !self.in_list(
                        k,
                        id,
                    ) by {
                        assert(old(self).in_list(k, id) == self.in_list(k, id));
                    }
                }
                let typed = self.add_inner(kind, id);
                assert(self@.entities[id] == resource);
                Ok(typed)
            },
            Err(_err) => {
                assert(!old(self).dependencies_known(described)) by {
                    if old(self).dependencies_known(described) {
                        assert forall|i: int|
                            0 <= i < resource.dependencies_spec().len() implies old(self).inner.inner_spec().contains(#[trigger] resource.dependencies_spec()[i]) by {
                            assert(old(self).contains(described.dependencies_spec()[i]));
                        }
                    }
                }
                proof {
                    self.lemma_mirror_same(old(self));
                }
                Err(EntityManagerError::MissingDependencies)
            },
        }
    }

    /// Where the resources and the lists of `self` are those of `before`, the
    /// lists still mirror the resources.
    proof fn lemma_mirror_same(&self, before: &Self)
        requires
            before.mirrored_but(None),
            self.kinds == before.kinds,
            self@.entities == before@.entities,
        ensures
            self.mirrored_but(None),
    {
        assert forall|k: int, x: EntityId|
            0 <= k < ResourceType::COUNT implies (#[trigger] self.in_list(k, x) <==> self.contains(x)
            && self.kind_index_of(x) == k) by {
            assert(self.in_list(k, x) == before.in_list(k, x));
        }
    }

    /// Where the resources of `self` are those of `before` but for `id`, and
    /// the kinds of those are what they were, the lists still mirror the
    /// resources, `id` left aside.
    proof fn lemma_mirror_kept(&self, before: &Self, id: EntityId)
        requires
            before.mirrored_but(None) || before.mirrored_but(Some(id)),
            self.kinds == before.kinds,
            forall|x: EntityId| x != id ==> (self.contains(x) <==> before.contains(x)),
            forall|x: EntityId|
                x != id && before.contains(x) ==> #[trigger] self.kind_index_of(x)
                    == before.kind_index_of(x),
        ensures
            self.mirrored_but(Some(id)),
            before.mirrored_but(None) && self.contains(id) && before.contains(id)
                && self.kind_index_of(id) == before.kind_index_of(id) ==> self.mirrored_but(None),
    {
        assert forall|k: int, x: EntityId|
            0 <= k < ResourceType::COUNT && Some(x) != Some(id) implies (#[trigger] self.in_list(
            k,
            x,
        ) <==> self.contains(x) && self.kind_index_of(x) == k) by {
            assert(self.in_list(k, x) == before.in_list(k, x));
        }
        if before.mirrored_but(None) && self.contains(id) && before.contains(id)
            && self.kind_index_of(id) == before.kind_index_of(id) {
            assert forall|k: int, x: EntityId|
                0 <= k < ResourceType::COUNT implies (#[trigger] self.in_list(k, x)
                <==> self.contains(x) && self.kind_index_of(x) == k) by {
                assert(self.in_list(k, x) == before.in_list(k, x));
            }
        }
    }

    /// Add a resource for `task`, without a handle: see `add_resource`.
    pub fn add_resource_descriptor(&mut self, task: TaskId, descriptor: ResourceDescriptor) -> (result:
        Result<ResourceId, EntityManagerError>)
        requires
            old(self).wf(),
        ensures
            final(self).wf(),
            result is Ok <==> old(self).compatible_spec(None, descriptor) is Some || old(self).dependencies_known(descriptor),
            result is Err ==> final(self)@ == old(self)@ && final(self).damaged_spec() == old(self).damaged_spec(),
            result matches Ok(id) ==> final(self).valid(id)
                && final(self)@.entities[id.entity_spec()].current_descriptor.same(&descriptor),
    {
        proof {
            descriptor.lemma_same_reflexive();
        }
        let ghost found = self.compatible_spec(None, descriptor);
        proof {
            self.lemma_compatible_is_valid(None, descriptor);
        }
        self.add_resource(task, descriptor, None)
    }

    /// What `compatible_spec` picks is a resource of its kind with the same
    /// descriptor.
    pub proof fn lemma_compatible_is_valid(
        &self,
        exclude: Option<ResourceId>,
        descriptor: ResourceDescriptor,
    )
        requires
            self.wf(),
        ensures
            self.compatible_spec(exclude, descriptor) matches Some(found) ==> {
                &&& self.valid(found)
                &&& found.kind_spec() == descriptor.kind_spec()
                &&& Some(found) != exclude
                &&& self@.entities[found.entity_spec()].current_descriptor.same(&descriptor)
            },
    {
        if descriptor.state_type_spec() != StateType::Statefull {
            self.lemma_first_compatible(
                self.listed_spec(descriptor.kind_spec()),
                exclude,
                descriptor,
            );
            self.lemma_wf();
        }
    }

    /// Where two managers agree on which candidates are compatible, they pick
    /// the same one.
    pub proof fn lemma_first_compatible_agrees(
        &self,
        other: &Self,
        candidates: Seq<EntityId>,
        exclude: Option<ResourceId>,
        descriptor: ResourceDescriptor,
        other_exclude: Option<ResourceId>,
        other_descriptor: ResourceDescriptor,
    )
        requires
            forall|i: int|
                0 <= i < candidates.len() ==> self.is_compatible(
                    #[trigger] candidates[i],
                    exclude,
                    descriptor,
                ) == other.is_compatible(candidates[i], other_exclude, other_descriptor),
        ensures
            self.first_compatible(candidates, exclude, descriptor) == other.first_compatible(
                candidates,
                other_exclude,
                other_descriptor,
            ),
        decreases candidates.len(),
    {
        if candidates.len() > 0 {
            assert(candidates[0] == candidates.first());
            assert forall|i: int| 0 <= i < candidates.drop_first().len() implies self.is_compatible(
                #[trigger] candidates.drop_first()[i],
                exclude,
                descriptor,
            ) == other.is_compatible(
                candidates.drop_first()[i],
                other_exclude,
                other_descriptor,
            ) by {
                assert(candidates.drop_first()[i] == candidates[i + 1]);
            }
            self.lemma_first_compatible_agrees(
                other,
                candidates.drop_first(),
                exclude,
                descriptor,
                other_exclude,
                other_descriptor,
            );
        }
    }

    /// Where none of the candidates is compatible and `last` is, `last` is
    /// picked once it stands behind them.
    pub proof fn lemma_first_compatible_last(
        &self,
        candidates: Seq<EntityId>,
        last: EntityId,
        exclude: Option<ResourceId>,
        descriptor: ResourceDescriptor,
    )
        requires
            forall|i: int|
                0 <= i < candidates.len() ==> !self.is_compatible(
                    #[trigger] candidates[i],
                    exclude,
                    descriptor,
                ),
            self.is_compatible(last, exclude, descriptor),
        ensures
            self.first_compatible(candidates.push(last), exclude, descriptor) == Some(last),
        decreases candidates.len(),
    {
        let all = candidates.push(last);
        if candidates.len() > 0 {
            assert(all.first() == candidates[0]);
            assert(all.drop_first() =~= candidates.drop_first().push(last));
            assert forall|i: int| 0 <= i < candidates.drop_first().len() implies !self.is_compatible(
                #[trigger] candidates.drop_first()[i],
                exclude,
                descriptor,
            ) by {
                assert(candidates.drop_first()[i] == candidates[i + 1]);
            }
            self.lemma_first_compatible_last(candidates.drop_first(), last, exclude, descriptor);
        } else {
            assert(all.first() == last);
        }
    }

    /// What `first_compatible` picks is one of the candidates, and
    /// compatible.
    pub proof fn lemma_first_compatible(
        &self,
        candidates: Seq<EntityId>,
        exclude: Option<ResourceId>,
        descriptor: ResourceDescriptor,
    )
        ensures
            match self.first_compatible(candidates, exclude, descriptor) {
                Some(found) => candidates.contains(found) && self.is_compatible(
                    found,
                    exclude,
                    descriptor,
                ),
                None => forall|i: int|
                    0 <= i < candidates.len() ==> !self.is_compatible(
                        #[trigger] candidates[i],
                        exclude,
                        descriptor,
                    ),
            },
        decreases candidates.len(),
    {
        if candidates.len() > 0 {
            if self.is_compatible(candidates.first(), exclude, descriptor) {
                assert(candidates[0] == candidates.first());
            } else {
                self.lemma_first_compatible(candidates.drop_first(), exclude, descriptor);
                match self.first_compatible(candidates.drop_first(), exclude, descriptor) {
                    Some(found) => {
                        let i = choose|i: int|
                            0 <= i < candidates.drop_first().len() && candidates.drop_first()[i]
                                == found;
                        assert(candidates[i + 1] == found);
                    },
                    None => {
                        assert forall|i: int| 0 <= i < candidates.len() implies !self.is_compatible(
                            #[trigger] candidates[i],
                            exclude,
                            descriptor,
                        ) by {
                            if i > 0 {
                                assert(candidates.drop_first()[i - 1] == candidates[i]);
                            }
                        }
                    },
                }
            }
        }
    }

    /// What `update_resource_descriptor` makes of `before`, for `task`, the
    /// identifier `id` and `descriptor`: `after` is the identifier that it
    /// leaves, `updated` its result.
    pub open spec fn redescribed(
        &self,
        before: &Self,
        task: TaskId,
        id: ResourceId,
        after: ResourceId,
        descriptor: ResourceDescriptor,
        updated: bool,
    ) -> bool {
        &&& (updated == (before.valid(id) && id.kind_spec() == descriptor.kind_spec()))
        &&& self.same_lists(before)
        &&& (!updated ==> after == id && self@ == before@ && self.damaged_spec() == before.damaged_spec())
        &&& (updated ==> self@.entities.dom() == before@.entities.dom())
        &&& (updated ==> match before.compatible_spec(Some(id), descriptor) {
                Some(shared) => {
                    &&& after == shared
                    &&& self@.edges == before@.edges
                    &&& self.damaged_spec() == before.damaged_spec()
                    &&& forall|x: EntityId|
                        before.contains(x) ==> #[trigger] self.descriptor_of(x) == before.descriptor_of(x) && self.handle_of(x) == before.handle_of(x)
                    &&& forall|x: EntityId|
                        before.contains(x) && x != shared.entity_spec() && x != id.entity_spec() ==> #[trigger] self.owners_of(x) == before.owners_of(x)
                    &&& self.owners_of(id.entity_spec()) == without_owner(
                        before.owners_of(id.entity_spec()),
                        task,
                    )
                    &&& self.owners_of(shared.entity_spec()) == with_owner(
                        before.owners_of(shared.entity_spec()),
                        task,
                    )
                },
                None => {
                    &&& after == id
                    &&& self.same_but(before, id.entity_spec())
                    &&& self.descriptor_of(id.entity_spec()) == Some(descriptor)
                    &&& self.handle_of(id.entity_spec()) == before.handle_of(
                        id.entity_spec(),
                    )
                    &&& self.owners_of(id.entity_spec()) == before.owners_of(
                        id.entity_spec(),
                    )
                    &&& self@.edges == rewired(
                        before@.edges,
                        before@.entities.dom(),
                        id.entity_spec(),
                        before@.entities[id.entity_spec()].current_descriptor.dependencies_spec(),
                        descriptor.dependencies_spec(),
                    )
                    &&& self.damaged_spec() == if !before@.entities[id.entity_spec()].current_descriptor.same(&descriptor) {
                        spread(
                            before.damaged_spec(),
                            self@.entities.dom(),
                            self@.edges,
                            id.entity_spec(),
                        )
                    } else {
                        before.damaged_spec()
                    }
                },
            })
    }

    /// Put `descriptor` in the place of the descriptor of the resource `id`,
    /// for `task`. Nothing happens, and `false` comes back, unless `id` names
    /// a resource of its kind and `descriptor` is of that kind. Where the
    /// descriptor is stateless and another resource with the same descriptor
    /// is there, `task` leaves the owners of `id` and joins those of the
    /// other, whose identifier is written to `id`. Else the descriptor of
    /// `id` is replaced, and `id` is damaged where the two are not the same.
    pub fn update_resource_descriptor(
        &mut self,
        task: &TaskId,
        id: &mut ResourceId,
        descriptor: ResourceDescriptor,
    ) -> (updated: bool)
        requires
            old(self).wf(),
        ensures
            final(self).wf(),
            final(self).redescribed(old(self), *task, *old(id), *final(id), descriptor, updated),
    {
        let entity = id.entity_id();
        proof {
            self.inner.lemma_wf();
        }
        let of_kind = match self.inner.entity_descriptor_ref(&entity) {
            Some(stored) => stored.kind() == id.kind() && descriptor.kind() == id.kind(),
            None => false,
        };
        if !of_kind {
            return false;
        }
        let ghost first = self@.entities[entity];
        let ghost described = descriptor;
        if descriptor.state_type() == StateType::Stateless {
            if let Some(compatible_id) = self.search_compatible(Some(&*id), &descriptor) {
                let other = compatible_id.entity_id();
                let ghost second = self@.entities[other];
                self.inner.remove_entity_owner(&entity, task);
                let ghost halfway = *self;
                proof {
                    lemma_rewired_same(
                        old(self)@.edges,
                        old(self)@.entities.dom(),
                        entity,
                        first.dependencies_spec(),
                    );
                    let owners = choose|owners: Vec<TaskId>|
                        {
                            &&& #[trigger] owners@ == without_owner(first.owners_spec(), *task)
                            &&& self.inner@.entities == old(self).inner@.entities.insert(
                                entity,
                                first.with_owners(owners),
                            )
                        };
                    assert(self@.entities[entity] == first.with_owners(owners));
                    assert(self@.entities.dom() =~= old(self)@.entities.dom());
                    old(id).lemma_typed();
                    old(self).lemma_compatible_is_valid(Some(*old(id)), described);
                    assert(other != entity);
                    assert(self@.entities[other] == second);
                    self.inner.lemma_wf();
                }
                self.inner.add_entity_owner(&other, *task);
                proof {
                    lemma_rewired_same(
                        halfway@.edges,
                        halfway@.entities.dom(),
                        other,
                        second.dependencies_spec(),
                    );
                    let owners = choose|owners: Vec<TaskId>|
                        {
                            &&& #[trigger] owners@ == with_owner(second.owners_spec(), *task)
                            &&& self.inner@.entities == halfway.inner@.entities.insert(
                                other,
                                second.with_owners(owners),
                            )
                        };
                    assert(self@.entities[other] == second.with_owners(owners));
                    assert(self@.entities.dom() =~= old(self)@.entities.dom());
                    self.lemma_kinds_kept(old(self));
                }
                *id = compatible_id;
                return true;
            }
        }
        let previous = self.inner.update_entity_descriptor(&entity, descriptor);
        proof {
            assert(self@.entities[entity] == first.with_descriptor(described));
            assert(self@.entities.dom() =~= old(self)@.entities.dom());
            self.lemma_kinds_kept(old(self));
        }
        previous.is_some()
    }

    /// Where the lists of `self` are those of `before`, and its resources
    /// too, each with the kind that it had, the lists still mirror the
    /// resources.
    proof fn lemma_kinds_kept(&self, before: &Self)
        requires
            before.mirrored_but(None),
            self.kinds == before.kinds,
            self@.entities.dom() == before@.entities.dom(),
            forall|x: EntityId|
                before.contains(x) ==> #[trigger] self.kind_index_of(x) == before.kind_index_of(x),
        ensures
            self.mirrored_but(None),
    {
        assert forall|k: int, x: EntityId|
            0 <= k < ResourceType::COUNT implies (#[trigger] self.in_list(k, x) <==> self.contains(x)
            && self.kind_index_of(x) == k) by {
            assert(self.in_list(k, x) == before.in_list(k, x));
        }
    }

    /// What `update_resource_handle` makes of `before`, where `id` names a
    /// resource: it has the handle `resource` and is not damaged; all else is
    /// what it was.
    pub open spec fn handle_stored(&self, before: &Self, id: EntityId, resource: ResourceHandle) -> bool {
        &&& self@.entities.dom() == before@.entities.dom()
        &&& self@.edges == before@.edges
        &&& self.same_but(before, id)
        &&& self.handle_of(id) == Some(resource)
        &&& self.descriptor_of(id) == before.descriptor_of(id)
        &&& self.owners_of(id) == before.owners_of(id)
        &&& self.damaged_spec() == before.damaged_spec().remove(id)
    }

    /// Put `resource` in the place of the handle of `id`; `id` is then no
    /// longer damaged. Tells whether `id` names a resource.
    pub fn update_resource_handle(&mut self, id: &EntityId, resource: ResourceHandle) -> (updated: bool)
        requires
            old(self).wf(),
        ensures
            final(self).wf(),
            updated == old(self).contains(*id),
            !updated ==> final(self)@ == old(self)@ && final(self).damaged_spec() == old(self).damaged_spec(),
            updated ==> {
                &&& final(self)@.entities.dom() == old(self)@.entities.dom()
                &&& final(self)@.edges == old(self)@.edges
                &&& final(self).same_but(old(self), *id)
                &&& final(self).handle_of(*id) == Some(resource)
                &&& final(self).descriptor_of(*id) == old(self).descriptor_of(*id)
                &&& final(self).owners_of(*id) == old(self).owners_of(*id)
                &&& final(self).damaged_spec() == old(self).damaged_spec().remove(*id)
            },
            updated ==> final(self).handle_stored(old(self), *id, resource),
    {
        proof {
            self.inner.lemma_wf();
        }
        let ghost first = self@.entities[*id];
        let updated = self.inner.update_entity_handle(id, Some(resource));
        proof {
            if updated {
                lemma_rewired_same(
                    old(self)@.edges,
                    old(self)@.entities.dom(),
                    *id,
                    first.dependencies_spec(),
                );
                assert(self@.entities[*id] == first.with_handle(Some(resource)));
                assert(self@.entities.dom() =~= old(self)@.entities.dom());
                self.lemma_kinds_kept(old(self));
            } else {
                self.lemma_mirror_same(old(self));
            }
        }
        updated
    }

    /// What `remove_resource` makes of `before`, for `task` and `id`, with
    /// `result` for its result.
    pub open spec fn released(
        &self,
        before: &Self,
        task: TaskId,
        id: ResourceId,
        result: Result<(), ()>,
    ) -> bool {
        &&& (result is Ok <==> before.valid(id))
        &&& (result is Err ==> self@ == before@ && self.damaged_spec() == before.damaged_spec()
            && self.same_lists(before))
        &&& (result is Ok ==> self.same_but(before, id.entity_spec()))
        &&& (result is Ok && without_owner(before.owners_of(id.entity_spec()), task).len() > 0
                ==> {
                &&& self.same_lists(before)
                &&& self@.entities.dom() == before@.entities.dom()
                &&& self@.edges == before@.edges
                &&& self.damaged_spec() == before.damaged_spec()
                &&& self.owners_of(id.entity_spec()) == without_owner(
                    before.owners_of(id.entity_spec()),
                    task,
                )
                &&& self.descriptor_of(id.entity_spec()) == before.descriptor_of(
                    id.entity_spec(),
                )
                &&& self.handle_of(id.entity_spec()) == before.handle_of(
                    id.entity_spec(),
                )
            })
        &&& (result is Ok && without_owner(before.owners_of(id.entity_spec()), task).len() == 0
                ==> {
                &&& self.listed_without(before, id.kind_spec(), id.entity_spec())
                &&& self@.entities.dom() == before@.entities.dom().remove(
                    id.entity_spec(),
                )
                &&& forall|a: EntityId, b: EntityId|
                    self.edge(a, b) <==> before.edge(a, b) && a != id.entity_spec() && b
                        != id.entity_spec()
                &&& self.damaged_spec() == before.damaged_spec().remove(
                    id.entity_spec(),
                )
            })
    }

    /// `task` leaves the owners of the resource `id`; the resource leaves
    /// with its last owner. Fails, and changes nothing, unless `id` names a
    /// resource of its kind.
    pub fn remove_resource(&mut self, task: &TaskId, id: &ResourceId) -> (result: Result<(), ()>)
        requires
            old(self).wf(),
        ensures
            final(self).wf(),
            final(self).released(old(self), *task, *id, result),
    {
        let entity = id.entity_id();
        proof {
            self.inner.lemma_wf();
        }
        let kind = match self.inner.entity_descriptor_ref(&entity) {
            Some(stored) => stored.kind(),
            None => {
                return Err(());
            },
        };
        if kind != id.kind() {
            return Err(());
        }
        let ghost first = self@.entities[entity];
        let owners_count = self.inner.remove_entity_owner(&entity, task);
        proof {
            lemma_rewired_same(
                old(self)@.edges,
                old(self)@.entities.dom(),
                entity,
                first.dependencies_spec(),
            );
            let owners = choose|owners: Vec<TaskId>|
                {
                    &&& #[trigger] owners@ == without_owner(first.owners_spec(), *task)
                    &&& self.inner@.entities == old(self).inner@.entities.insert(
                        entity,
                        first.with_owners(owners),
                    )
                };
            assert(self@.entities[entity] == first.with_owners(owners));
            assert(self@.entities.dom() =~= old(self)@.entities.dom());
            self.lemma_kinds_kept(old(self));
            self.inner.lemma_wf();
        }
        match owners_count {
            Some(0) => {
                let ghost halfway = *self;
                let removed = self.inner.remove_entity(&entity);
                proof {
                    assert(self@.entities.dom() =~= old(self)@.entities.dom().remove(entity));
                    self.lemma_mirror_kept(&halfway, entity);
                    assert forall|k: int|
                        0 <= k < ResourceType::COUNT && k != kind.index_spec() implies !self.in_list(
                        k,
                        entity,
                    ) by {
                        assert(self.in_list(k, entity) == halfway.in_list(k, entity));
                    }
                    assert(halfway.in_list(kind.index_spec(), entity));
                    assert(self.in_list(kind.index_spec(), entity) == halfway.in_list(
                        kind.index_spec(),
                        entity,
                    ));
                    assert forall|a: EntityId, b: EntityId|
                        self.edge(a, b) <==> old(self).edge(a, b) && a != entity && b != entity by {
                        assert(self.inner.edge(a, b) == self.edge(a, b));
                        assert(halfway.inner.edge(a, b) == old(self).edge(a, b));
                    }
                }
                let ghost listed = *self;
                assert(listed.same_lists(old(self)));
                self.remove_inner(kind, entity);
                proof {
                    let i = choose|i: int|
                        0 <= i < listed.listed_spec(kind).len() && listed.listed_spec(kind)[i]
                            == entity && #[trigger] listed.listed_spec(kind).remove(i)
                            == self.listed_spec(kind);
                    assert(old(self).listed_spec(kind).remove(i) == self.listed_spec(kind));
                    assert forall|other: ResourceType| other != kind implies #[trigger] self.listed_spec(
                        other,
                    ) == old(self).listed_spec(other) by {
                        assert(listed.listed_spec(other) == old(self).listed_spec(other));
                    }
                }
                removed
            },
            Some(_) => Ok(()),
            None => Err(()),
        }
    }

    /// Take the handle of the resource `id` out and hand it back; `id` is
    /// damaged then, with whatever it reaches along the edges. Nothing
    /// happens where `id` names no resource.
    pub fn take_resource(&mut self, id: &EntityId) -> (handle: Option<ResourceHandle>)
        requires
            old(self).wf(),
        ensures
            final(self).wf(),
            handle == old(self).handle_of(*id),
            final(self)@.entities.dom() == old(self)@.entities.dom(),
            final(self)@.edges == old(self)@.edges,
            final(self).same_but(old(self), *id),
            final(self).handle_of(*id) is None,
            final(self).descriptor_of(*id) == old(self).descriptor_of(*id),
            old(self).contains(*id) ==> final(self).owners_of(*id) == old(self).owners_of(*id),
            final(self).damaged_spec() == spread(
                old(self).damaged_spec(),
                old(self)@.entities.dom(),
                old(self)@.edges,
                *id,
            ),
    {
        proof {
            self.inner.lemma_wf();
        }
        let ghost first = self@.entities[*id];
        let handle = self.inner.take_entity_handle(id);
        proof {
            if old(self).contains(*id) {
                lemma_rewired_same(
                    old(self)@.edges,
                    old(self)@.entities.dom(),
                    *id,
                    first.dependencies_spec(),
                );
                assert(self@.entities[*id] == first.with_handle(None));
                assert(self@.entities.dom() =~= old(self)@.entities.dom());
                self.lemma_kinds_kept(old(self));
            } else {
                self.lemma_mirror_same(old(self));
            }
        }
        handle
    }

    /// The resources of the kind `kind`, by rising index.
    pub fn entities_of_kind(&self, kind: ResourceType) -> (ids: Vec<EntityId>)
        requires
            self.wf(),
        ensures
            forall|id: EntityId|
                ids@.contains(id) <==> self.contains(id)
                    && self@.entities[id].current_descriptor.kind_spec() == kind,
            forall|i: int, j: int| 0 <= i < j < ids@.len() ==> ids@[i].0 < ids@[j].0,
    {
        proof {
            self.inner.lemma_wf();
        }
        let all = self.inner.entities();
        let mut ids: Vec<EntityId> = Vec::new();
        let ghost mut picks: Seq<int> = Seq::empty();
        let mut i: usize = 0;
        while i < all.len()
            invariant
                self.wf(),
                i <= all.len(),
                forall|id: EntityId| all@.contains(id) <==> self.contains(id),
                forall|a: int, b: int| 0 <= a < b < all@.len() ==> all@[a].0 < all@[b].0,
                picks.len() == ids@.len(),
                forall|a: int|
                    0 <= a < picks.len() ==> 0 <= #[trigger] picks[a] < i && all@[picks[a]]
                        == ids@[a],
                forall|a: int, b: int| 0 <= a < b < picks.len() ==> picks[a] < picks[b],
                forall|a: int|
                    0 <= a < ids@.len() ==> self@.entities[#[trigger] ids@[a]].current_descriptor.kind_spec()
                        == kind,
                forall|b: int|
                    0 <= b < i && self@.entities[#[trigger] all@[b]].current_descriptor.kind_spec()
                        == kind ==> ids@.contains(all@[b]),
            decreases all.len() - i,
        {
            let id = all[i];
            assert(all@.contains(all@[i as int]));
            let of_kind = match self.inner.entity_descriptor_ref(&id) {
                Some(descriptor) => descriptor.kind() == kind,
                None => false,
            };
            let ghost before = ids@;
            if of_kind {
                ids.push(id);
                proof {
                    picks = picks.push(i as int);
                    assert(ids@[before.len() as int] == id);
                }
            }
            proof {
                assert forall|b: int|
                    0 <= b < i + 1 && self@.entities[#[trigger] all@[b]].current_descriptor.kind_spec()
                        == kind implies ids@.contains(all@[b]) by {
                    if b < i {
                        assert(before.contains(all@[b]));
                        let a = choose|a: int| 0 <= a < before.len() && before[a] == all@[b];
                        assert(ids@[a] == all@[b]);
                    } else {
                        assert(all@[b] == id);
                        assert(self.contains(id));
                        assert(of_kind);
                        assert(ids@[before.len() as int] == id);
                    }
                }
            }
            i += 1;
        }
        proof {
            assert forall|id: EntityId|
                ids@.contains(id) <==> self.contains(id)
                    && self@.entities[id].current_descriptor.kind_spec() == kind by {
                if ids@.contains(id) {
                    let a = choose|a: int| 0 <= a < ids@.len() && ids@[a] == id;
                    assert(all@.contains(all@[picks[a]]));
                }
                if self.contains(id) && self@.entities[id].current_descriptor.kind_spec() == kind {
                    assert(all@.contains(id));
                    let b = choose|b: int| 0 <= b < all@.len() && all@[b] == id;
                    assert(ids@.contains(all@[b]));
                }
            }
            assert forall|a: int, b: int| 0 <= a < b < ids@.len() implies ids@[a].0 < ids@[b].0 by {
                assert(picks[a] < picks[b]);
            }
        }
        ids
    }

    /// Whether `plan` is an order in which a commit rebuilds: damaged
    /// resources, each once and after those among them that it depends on,
    /// be it through resources that are not damaged, each with its parents;
    /// and all the damaged resources, where the graph has no cycle.
    pub open spec fn is_build_order(&self, plan: Seq<(EntityId, Vec<EntityId>)>) -> bool {
        &&& forall|i: int|
            0 <= i < plan.len() ==> self.contains((#[trigger] plan[i]).0) && self.is_damaged_spec(
                plan[i].0,
            )
        &&& forall|i: int, p: EntityId|
            0 <= i < plan.len() ==> (#[trigger] plan[i].1@.contains(p) <==> self.edge(p, plan[i].0))
        &&& forall|i: int, j: int|
            0 <= i < plan.len() && 0 <= j < plan.len() && self.edge(
                (#[trigger] plan[i]).0,
                (#[trigger] plan[j]).0,
            ) ==> i < j
        &&& forall|i: int, j: int|
            0 <= i < j < plan.len() ==> (#[trigger] plan[i]).0 != (#[trigger] plan[j]).0
        &&& forall|i: int, j: int|
            0 <= i < plan.len() && 0 <= j < plan.len() && i != j && #[trigger] reachable(
                self@.edges,
                plan[i].0,
                plan[j].0,
            ) ==> i < j
        &&& acyclic(self@.edges) ==> forall|x: EntityId|
            self.is_damaged_spec(x) ==> exists|i: int|
                0 <= i < plan.len() && (#[trigger] plan[i]).0 == x
    }

    /// The entities in the order in which a commit rebuilds them: the damaged
    /// entities in the order of a topological walk of the graph, each once
    /// and after those that it depends on, each with its parents. Where the
    /// graph has no cycle these are all the damaged entities.
    pub fn build_order(&self) -> (plan: Vec<(EntityId, Vec<EntityId>)>)
        requires
            self.wf(),
        ensures
            forall|i: int|
                0 <= i < plan@.len() ==> self.contains((#[trigger] plan@[i]).0)
                    && self.is_damaged_spec(plan@[i].0),
            forall|i: int, p: EntityId|
                0 <= i < plan@.len() ==> (#[trigger] plan@[i].1@.contains(p) <==> self.edge(
                    p,
                    plan@[i].0,
                )),
            forall|i: int, j: int|
                0 <= i < plan@.len() && 0 <= j < plan@.len() && self.edge(
                    (#[trigger] plan@[i]).0,
                    (#[trigger] plan@[j]).0,
                ) ==> i < j,
            forall|i: int, j: int|
                0 <= i < j < plan@.len() ==> (#[trigger] plan@[i]).0 != (#[trigger] plan@[j]).0,
            forall|i: int, j: int|
                0 <= i < plan@.len() && 0 <= j < plan@.len() && i != j && #[trigger] reachable(
                    self@.edges,
                    plan@[i].0,
                    plan@[j].0,
                ) ==> i < j,
            acyclic(self@.edges) ==> forall|x: EntityId|
                self.is_damaged_spec(x) ==> exists|i: int|
                    0 <= i < plan@.len() && (#[trigger] plan@[i]).0 == x,
            self.is_build_order(plan@),
    {
        proof {
            self.inner.lemma_wf();
            self.lemma_wf();
        }
        let manager = self.inner.inner();
        let order = manager.topological_order();
        let mut plan: Vec<(EntityId, Vec<EntityId>)> = Vec::new();
        let ghost mut picks: Seq<int> = Seq::empty();
        let mut t: usize = 0;
        while t < order.len()
            invariant
                self.wf(),
                manager.wf(),
                *manager == self.inner.inner_spec(),
                manager@ == self@,
                t <= order.len(),
                picks.len() == plan@.len(),
                forall|a: int|
                    0 <= a < picks.len() ==> 0 <= #[trigger] picks[a] < t && plan@[a].0
                        == order@[picks[a]],
                forall|a: int, b: int| 0 <= a < b < picks.len() ==> picks[a] < picks[b],
                forall|a: int|
                    0 <= a < plan@.len() ==> self.is_damaged_spec((#[trigger] plan@[a]).0),
                forall|a: int, p: EntityId|
                    0 <= a < plan@.len() ==> (#[trigger] plan@[a].1@.contains(p) <==> self.edge(
                        p,
                        plan@[a].0,
                    )),
                forall|j: int|
                    0 <= j < t && self.is_damaged_spec(#[trigger] order@[j]) ==> exists|a: int|
                        0 <= a < picks.len() && #[trigger] picks[a] == j,
            decreases order.len() - t,
        {
            let id = order[t];
            let ghost chosen = picks;
            if self.is_damaged(&id) {
                let dependencies = manager.entity_parents(&id);
                plan.push((id, dependencies));
                proof {
                    picks = picks.push(t as int);
                }
            }
            proof {
                assert forall|j: int|
                    0 <= j < t + 1 && self.is_damaged_spec(#[trigger] order@[j]) implies exists|
                    a: int,
                | 0 <= a < picks.len() && #[trigger] picks[a] == j by {
                    if j < t {
                        let a = choose|a: int| 0 <= a < chosen.len() && #[trigger] chosen[a] == j;
                        assert(picks[a] == j);
                    } else {
                        assert(picks[picks.len() - 1] == j);
                    }
                }
            }
            t += 1;
        }
        proof {
            assert forall|i: int| 0 <= i < plan@.len() implies self.contains(
                (#[trigger] plan@[i]).0,
            ) by {
                assert(manager.contains(order@[picks[i]]));
            }
            assert forall|i: int, j: int|
                0 <= i < plan@.len() && 0 <= j < plan@.len() && self.edge(
                    (#[trigger] plan@[i]).0,
                    (#[trigger] plan@[j]).0,
                ) implies i < j by {
                assert(manager.edge(order@[picks[i]], order@[picks[j]]));
                let c = choose|c: int| 0 <= c < picks[j] && #[trigger] order@[c] == order@[picks[i]];
                assert(c == picks[i]);
                if i > j {
                    assert(picks[j] < picks[i]);
                }
            }
            assert forall|i: int, j: int| 0 <= i < j < plan@.len() implies (#[trigger] plan@[i]).0 != (
            #[trigger] plan@[j]).0 by {
                assert(picks[i] < picks[j]);
            }
            assert forall|i: int, j: int|
                0 <= i < plan@.len() && 0 <= j < plan@.len() && i != j && #[trigger] reachable(
                    self@.edges,
                    plan@[i].0,
                    plan@[j].0,
                ) implies i < j by {
                if i < j {
                    assert(picks[i] < picks[j]);
                } else {
                    assert(picks[j] < picks[i]);
                    assert(reachable(manager@.edges, order@[picks[i]], order@[picks[j]]));
                }
            }
            if acyclic(self@.edges) {
                assert forall|x: EntityId| self.is_damaged_spec(x) implies exists|i: int|
                    0 <= i < plan@.len() && (#[trigger] plan@[i]).0 == x by {
                    assert(self.contains(x));
                    assert(order@.contains(x));
                    let j = choose|j: int| 0 <= j < order@.len() && order@[j] == x;
                    assert(self.is_damaged_spec(order@[j]));
                    let a = choose|a: int| 0 <= a < picks.len() && #[trigger] picks[a] == j;
                    assert(plan@[a].0 == x);
                }
            }
        }
        plan
    }

    /// What a commit keeps of `before`: the resources with their descriptors
    /// and owners, and the edges; nothing becomes damaged; and a handle
    /// changes only with a damaged resource that is rebuilt, to a handle of
    /// the resource's kind.
    pub open spec fn rebuilt_from(&self, before: &Self) -> bool {
        &&& self@.entities.dom() == before@.entities.dom()
        &&& self@.edges == before@.edges
        &&& forall|x: EntityId|
            before.contains(x) ==> #[trigger] self.descriptor_of(x) == before.descriptor_of(x)
                && self.owners_of(x) == before.owners_of(x)
        &&& forall|x: EntityId| #[trigger] self.is_damaged_spec(x) ==> before.is_damaged_spec(x)
        &&& forall|x: EntityId|
            before.contains(x) && #[trigger] self.handle_of(x) != before.handle_of(x) ==> {
                &&& before.is_damaged_spec(x)
                &&& !self.is_damaged_spec(x)
            }
        &&& forall|x: EntityId|
            before.is_damaged_spec(x) && !#[trigger] self.is_damaged_spec(x) ==> {
                &&& self.handle_of(x) matches Some(handle)
                &&& self.descriptor_of(x) matches Some(descriptor)
                &&& handle.kind_spec() == descriptor.kind_spec()
            }
    }

    /// Every dependency of `id` that names a resource has its edge into `id`.
    pub open spec fn well_linked(&self, id: EntityId) -> bool {
        forall|i: int|
            0 <= i < self@.entities[id].current_descriptor.dependencies_spec().len()
                && self.contains(
                #[trigger] self@.entities[id].current_descriptor.dependencies_spec()[i],
            ) ==> self.edge(self@.entities[id].current_descriptor.dependencies_spec()[i], id)
    }

    /// The builder for `id` can be made: whatever it needs is there.
    pub open spec fn buildable(&self, id: EntityId) -> bool {
        ResourceBuilder::resolvable(self, &self@.entities[id].current_descriptor)
    }

    /// Whether `handle` is what `create` has made for a builder of the
    /// resource `entity` as `descriptor` describes it: the builder holds what
    /// the descriptor says, with the handles that some resource manager has
    /// for what it refers to, and `handle` is the handle that `create` gave
    /// for it, of the builder's kind.
    pub open spec fn made_with<F: Fn(&ResourceBuilder) -> Option<ResourceHandle>>(
        create: F,
        entity: EntityId,
        descriptor: ResourceDescriptor,
        handle: ResourceHandle,
    ) -> bool {
        exists|builder: ResourceBuilder, made: Option<ResourceHandle>, at: ResourceManager|
            #![trigger call_ensures(create, (&builder,), made), builder.describes(&at, entity, &descriptor)]
            {
                &&& at.wf()
                &&& builder.describes(&at, entity, &descriptor)
                &&& builder.kind_spec() == descriptor.kind_spec()
                &&& call_ensures(create, (&builder,), made)
                &&& kept(builder.kind_spec(), made) == Some(handle)
            }
    }

    /// What rebuilding the resource `entity` with `create` makes of `before`,
    /// with `built` telling whether it was rebuilt: nothing, where `entity`
    /// names no resource or its builder cannot be made; else `create` is
    /// called for the builder, and where it gives a handle of the builder's
    /// kind, that handle is stored.
    pub open spec fn rebuilt_one<F: Fn(&ResourceBuilder) -> Option<ResourceHandle>>(
        &self,
        before: &Self,
        entity: EntityId,
        create: F,
        built: bool,
    ) -> bool {
        match before.descriptor_of(entity) {
            None => !built && *self == *before,
            Some(descriptor) => if !ResourceBuilder::resolvable(before, &descriptor) {
                !built && *self == *before
            } else {
                exists|builder: ResourceBuilder, made: Option<ResourceHandle>|
                    {
                        &&& builder.describes(before, entity, &descriptor)
                        &&& #[trigger] call_ensures(create, (&builder,), made)
                        &&& match kept(builder.kind_spec(), made) {
                            None => !built && *self == *before,
                            Some(handle) => built && self.handle_stored(before, entity, handle),
                        }
                    }
            },
        }
    }

    /// Each resource of `entities` is rebuilt from the state that the one
    /// before it has left.
    pub open spec fn steps_rebuilt<F: Fn(&ResourceBuilder) -> Option<ResourceHandle>>(
        states: Seq<ResourceManager>,
        built: Seq<bool>,
        entities: Seq<EntityId>,
        create: F,
    ) -> bool {
        forall|i: int|
            0 <= i < entities.len() ==> states[i + 1].rebuilt_one(
                &states[i],
                entities[i],
                create,
                #[trigger] built[i],
            )
    }

    /// Whether rebuilding the resources of `entities` with `create`, one
    /// after the other, leads from `before` to `self`: see `rebuilt_one` and
    /// `turns_settled`.
    pub open spec fn rebuilt_in_turn<F: Fn(&ResourceBuilder) -> Option<ResourceHandle>>(
        &self,
        before: &Self,
        entities: Seq<EntityId>,
        create: F,
    ) -> bool {
        exists|states: Seq<ResourceManager>, built: Seq<bool>|
            {
                &&& states.len() == entities.len() + 1
                &&& built.len() == entities.len()
                &&& states[0] == *before
                &&& states.last() == *self
                &&& #[trigger] Self::steps_rebuilt(states, built, entities, create)
                &&& self.turns_settled(states, built, entities, create)
            }
    }

    /// What the turns have come to in the end: a resource is damaged no more
    /// exactly where it was rebuilt at its turn; and where `create` makes a
    /// handle for every builder, a resource is rebuilt at its turn wherever
    /// its builder can be made then.
    pub open spec fn turns_settled<F: Fn(&ResourceBuilder) -> Option<ResourceHandle>>(
        &self,
        states: Seq<ResourceManager>,
        built: Seq<bool>,
        entities: Seq<EntityId>,
        create: F,
    ) -> bool {
        &&& forall|i: int|
            0 <= i < entities.len() ==> (#[trigger] built[i] <==> !self.is_damaged_spec(entities[i]))
        &&& always_makes(create) ==> forall|i: int|
            0 <= i < entities.len() && states[i].buildable(entities[i]) ==> #[trigger] built[i]
    }

    /// Rebuild what is damaged, in the order of `build_order`: for each
    /// damaged resource a builder is made, which needs the handles of what
    /// the resource refers to; `create` makes the object for the builder, and
    /// its handle becomes the resource's, which is then no longer damaged. A
    /// resource whose builder cannot be made, or for which `create` gives no
    /// handle of its kind, stays damaged for the next commit. Each resource
    /// that is rebuilt has the handle that `create` has made for a builder
    /// of its descriptor.
    pub fn commit_resources<F: Fn(&ResourceBuilder) -> Option<ResourceHandle>>(&mut self, create: &F) -> (done:
        bool)
        requires
            old(self).wf(),
            forall|builder: &ResourceBuilder| call_requires(*create, (builder,)),
        ensures
            done,
            final(self).wf(),
            final(self).rebuilt_from(old(self)),
            exists|plan: Seq<(EntityId, Vec<EntityId>)>|
                {
                    &&& #[trigger] old(self).is_build_order(plan)
                    &&& final(self).rebuilt_in_turn(old(self), path_entities(plan), *create)
                },
            forall|x: EntityId|
                old(self).is_damaged_spec(x) && !#[trigger] final(self).is_damaged_spec(x)
                    ==> Self::made_with(
                    *create,
                    x,
                    final(self).descriptor_of(x)->Some_0,
                    final(self).handle_of(x)->Some_0,
                ),
            always_makes(*create) && acyclic(old(self)@.edges) ==> forall|x: EntityId|
                old(self).is_damaged_spec(x) && old(self).well_linked(x)
                    && #[trigger] final(self).buildable(x) ==> !final(self).is_damaged_spec(x)
                    && final(self).handle_of(x) is Some,
    {
        let entity_path = self.build_order();
        let done = self.commit_resources_st(&entity_path, create);
        proof {
            assert forall|x: EntityId|
                old(self).is_damaged_spec(x) && !#[trigger] self.is_damaged_spec(
                    x,
                ) implies Self::made_with(
                *create,
                x,
                self.descriptor_of(x)->Some_0,
                self.handle_of(x)->Some_0,
            ) by {
                let i = choose|i: int|
                    0 <= i < entity_path@.len() && (#[trigger] entity_path@[i]).0 == x;
                assert(!self.is_damaged_spec(entity_path@[i].0));
            }
        }
        proof {
            assert(old(self).is_build_order(entity_path@));
        }
        proof {
            if always_makes(*create) && acyclic(old(self)@.edges) {
                assert forall|x: EntityId|
                    old(self).is_damaged_spec(x) && old(self).well_linked(x)
                        && #[trigger] self.buildable(x) implies !self.is_damaged_spec(x)
                    && self.handle_of(x) is Some by {
                    let i = choose|i: int|
                        0 <= i < entity_path@.len() && (#[trigger] entity_path@[i]).0 == x;
                    assert(old(self).well_linked(entity_path@[i].0));
                }
            }
        }
        done
    }

    /// Rebuild the resources of `entity_path`, one after the other: see
    /// `commit_resources`.
    pub fn commit_resources_st<F: Fn(&ResourceBuilder) -> Option<ResourceHandle>>(
        &mut self,
        entity_path: &Vec<(EntityId, Vec<EntityId>)>,
        create: &F,
    ) -> (done: bool)
        requires
            old(self).wf(),
            forall|builder: &ResourceBuilder| call_requires(*create, (builder,)),
            forall|i: int|
                0 <= i < entity_path@.len() ==> old(self).contains((#[trigger] entity_path@[i]).0)
                    && old(self).is_damaged_spec(entity_path@[i].0),
            forall|i: int, j: int|
                0 <= i < j < entity_path@.len() ==> (#[trigger] entity_path@[i]).0 != (
                #[trigger] entity_path@[j]).0,
            forall|i: int, j: int|
                0 <= i < entity_path@.len() && 0 <= j < entity_path@.len() && old(self).edge(
                    (#[trigger] entity_path@[i]).0,
                    (#[trigger] entity_path@[j]).0,
                ) ==> i < j,
        ensures
            done,
            final(self).wf(),
            final(self).rebuilt_from(old(self)),
            final(self).rebuilt_in_turn(old(self), path_entities(entity_path@), *create),
            forall|x: EntityId|
                old(self).is_damaged_spec(x) && !#[trigger] final(self).is_damaged_spec(x)
                    ==> exists|i: int| 0 <= i < entity_path@.len() && (#[trigger] entity_path@[i]).0 == x,
            forall|i: int|
                0 <= i < entity_path@.len() && !final(self).is_damaged_spec(
                    (#[trigger] entity_path@[i]).0,
                ) ==> Self::made_with(
                    *create,
                    entity_path@[i].0,
                    final(self).descriptor_of(entity_path@[i].0)->Some_0,
                    final(self).handle_of(entity_path@[i].0)->Some_0,
                ),
            always_makes(*create) ==> forall|i: int|
                0 <= i < entity_path@.len() && old(self).well_linked(
                    (#[trigger] entity_path@[i]).0,
                ) && final(self).buildable(entity_path@[i].0) ==> !final(self).is_damaged_spec(
                    entity_path@[i].0,
                ),
    {
        let ghost entities = path_entities(entity_path@);
        let ghost mut states: Seq<ResourceManager> = seq![*self];
        let ghost mut outcomes: Seq<bool> = Seq::empty();
        let mut t: usize = 0;
        while t < entity_path.len()
            invariant
                self.wf(),
                t <= entity_path.len(),
                entities == path_entities(entity_path@),
                states.len() == t + 1,
                outcomes.len() == t,
                states[0] == *old(self),
                states.last() == *self,
                forall|x: EntityId|
                    old(self).is_damaged_spec(x) && !#[trigger] self.is_damaged_spec(x) ==> exists|
                        i: int,
                    | 0 <= i < t && (#[trigger] entity_path@[i]).0 == x,
                forall|i: int|
                    0 <= i < t && !self.is_damaged_spec((#[trigger] entity_path@[i]).0)
                        ==> Self::made_with(
                        *create,
                        entity_path@[i].0,
                        self.descriptor_of(entity_path@[i].0)->Some_0,
                        self.handle_of(entity_path@[i].0)->Some_0,
                    ),
                forall|i: int|
                    0 <= i < t ==> states[i + 1].rebuilt_one(
                        &states[i],
                        entities[i],
                        *create,
                        #[trigger] outcomes[i],
                    ),
                forall|i: int|
                    0 <= i < t ==> (#[trigger] outcomes[i] <==> !self.is_damaged_spec(entities[i])),
                always_makes(*create) ==> forall|i: int|
                    0 <= i < t && states[i].buildable(entities[i]) ==> #[trigger] outcomes[i],
                forall|builder: &ResourceBuilder| call_requires(*create, (builder,)),
                forall|i: int|
                    0 <= i < entity_path@.len() ==> old(self).contains(
                        (#[trigger] entity_path@[i]).0,
                    ) && old(self).is_damaged_spec(entity_path@[i].0),
                forall|i: int, j: int|
                    0 <= i < j < entity_path@.len() ==> (#[trigger] entity_path@[i]).0 != (
                    #[trigger] entity_path@[j]).0,
                old(self).wf(),
                self.rebuilt_from(old(self)),
                forall|i: int|
                    t <= i < entity_path@.len() ==> self.is_damaged_spec(
                        (#[trigger] entity_path@[i]).0,
                    ),
                forall|i: int, j: int|
                    0 <= i < entity_path@.len() && 0 <= j < entity_path@.len() && old(self).edge(
                        (#[trigger] entity_path@[i]).0,
                        (#[trigger] entity_path@[j]).0,
                    ) ==> i < j,
                always_makes(*create) ==> forall|i: int|
                    0 <= i < t && old(self).well_linked((#[trigger] entity_path@[i]).0)
                        && self.buildable(entity_path@[i].0) ==> !self.is_damaged_spec(
                        entity_path@[i].0,
                    ),
            decreases entity_path.len() - t,
        {
            let entity = entity_path[t].0;
            let ghost before = *self;
            let ghost mut built = false;
            let builder = match self.entity_descriptor_ref(&entity) {
                Some(descriptor) => match ResourceBuilder::new(&*self, entity, descriptor) {
                    Ok(builder) => Some(builder),
                    Err(_) => None,
                },
                None => None,
            };
            if let Some(builder) = builder {
                if let Some(entity_handle) = builder.build(create) {
                    let ghost described = before@.entities[entity].current_descriptor;
                    assert(builder.kind_spec() == described.kind_spec());
                    assert(entity_handle.kind_spec() == builder.kind_spec());
                    self.update_resource_handle(&entity, entity_handle);
                    proof {
                        built = true;
                        let made = choose|made: Option<ResourceHandle>|
                            #[trigger] call_ensures(*create, (&builder,), made) && Some(
                                entity_handle,
                            ) == kept(builder.kind_spec(), made);
                        assert(builder.describes(&before, entity, &described));
                        assert(Self::made_with(*create, entity, described, entity_handle));
                        assert(self.handle_of(entity) == Some(entity_handle));
                        assert(self.descriptor_of(entity) == Some(described));
                        assert(self@.entities.dom() == old(self)@.entities.dom());
                        assert(self@.edges == old(self)@.edges);
                        assert forall|x: EntityId| #[trigger] self.is_damaged_spec(x) implies old(
                            self,
                        ).is_damaged_spec(x) by {
                            assert(before.is_damaged_spec(x));
                        }
                        assert forall|x: EntityId|
                            old(self).contains(x) implies #[trigger] self.descriptor_of(x) == old(
                            self,
                        ).descriptor_of(x) && self.owners_of(x) == old(self).owners_of(x) by {
                            assert(before.descriptor_of(x) == old(self).descriptor_of(x));
                            if x != entity {
                                assert(self@.entities[x] == before@.entities[x]);
                            }
                        }
                        assert forall|x: EntityId|
                            old(self).contains(x) && #[trigger] self.handle_of(x) != old(
                                self,
                            ).handle_of(x) implies old(self).is_damaged_spec(x)
                            && !self.is_damaged_spec(x) by {
                            if x != entity {
                                assert(self@.entities[x] == before@.entities[x]);
                                assert(before.handle_of(x) != old(self).handle_of(x));
                            }
                        }
                        assert forall|x: EntityId|
                            old(self).is_damaged_spec(x) && !#[trigger] self.is_damaged_spec(
                                x,
                            ) implies {
                            &&& self.handle_of(x) matches Some(handle)
                            &&& self.descriptor_of(x) matches Some(descriptor)
                            &&& handle.kind_spec() == descriptor.kind_spec()
                        } by {
                            old(self).lemma_wf();
                            if x != entity {
                                assert(!before.is_damaged_spec(x));
                                assert(self@.entities[x] == before@.entities[x]);
                                assert(before.handle_of(x) matches Some(handle)
                                    && before.descriptor_of(x) matches Some(descriptor)
                                    && handle.kind_spec() == descriptor.kind_spec());
                            }
                        }
                        assert forall|i: int| t + 1 <= i < entity_path@.len() implies self.is_damaged_spec(
                            (#[trigger] entity_path@[i]).0,
                        ) by {
                            assert(entity_path@[t as int].0 != entity_path@[i].0);
                            assert(before.is_damaged_spec(entity_path@[i].0));
                        }
                    }
                }
            }
            proof {
                if always_makes(*create) {
                    assert forall|i: int|
                        0 <= i < t + 1 && old(self).well_linked((#[trigger] entity_path@[i]).0)
                            && self.buildable(entity_path@[i].0) implies !self.is_damaged_spec(
                        entity_path@[i].0,
                    ) by {
                        let x = entity_path@[i].0;
                        let described = old(self)@.entities[x].current_descriptor;
                        assert(before.descriptor_of(x) == old(self).descriptor_of(x));
                        assert(self.descriptor_of(x) == old(self).descriptor_of(x));
                        if i < t {
                            // What `x` needs has not changed in this step:
                            // the one handle that may have changed is that
                            // of `entity`, which comes after `x`.
                            assert forall|k: int|
                                0 <= k < described.dependencies_spec().len() implies before.handle_of(
                                #[trigger] described.dependencies_spec()[k],
                            ) == self.handle_of(described.dependencies_spec()[k]) by {
                                let d = described.dependencies_spec()[k];
                                if d == entity {
                                    assert(old(self).contains(d));
                                    assert(old(self).edge(entity_path@[t as int].0, entity_path@[i].0));
                                } else if before.contains(d) {
                                    assert(self.handle_of(d) == before.handle_of(d)) by {
                                        if self.handle_of(d) != before.handle_of(d) {
                                            assert(self@.entities[d] == before@.entities[d]);
                                        }
                                    }
                                }
                            }
                            assert forall|e: EntityId| #[trigger]
                                before.descriptor_of(e) == self.descriptor_of(e) by {
                                if before.contains(e) {
                                    assert(before.descriptor_of(e) == old(self).descriptor_of(e));
                                    assert(self.descriptor_of(e) == old(self).descriptor_of(e));
                                }
                            }
                            ResourceBuilder::lemma_resolvable_alike(&before, &*self, &described);
                            assert(before.buildable(x) == self.buildable(x));
                            assert(entity_path@[i].0 != entity_path@[t as int].0);
                            assert(before.is_damaged_spec(x) == self.is_damaged_spec(x)) by {
                                if before.is_damaged_spec(x) != self.is_damaged_spec(x) {
                                    assert(before.damaged_spec().remove(entity).contains(x)
                                        == before.damaged_spec().contains(x));
                                }
                            }
                        }
                    }
                }
            }
            proof {
                assert forall|x: EntityId|
                    old(self).is_damaged_spec(x) && !#[trigger] self.is_damaged_spec(x) implies exists|
                    i: int,
                | 0 <= i < t + 1 && (#[trigger] entity_path@[i]).0 == x by {
                    if x == entity {
                        assert(entity_path@[t as int].0 == x);
                    } else {
                        if built {
                            assert(before.damaged_spec().remove(entity).contains(x)
                                == before.damaged_spec().contains(x));
                        }
                        assert(!before.is_damaged_spec(x));
                        let i = choose|i: int| 0 <= i < t && (#[trigger] entity_path@[i]).0 == x;
                        assert(entity_path@[i].0 == x);
                    }
                }
                assert forall|i: int|
                    0 <= i < t + 1 && !self.is_damaged_spec(
                        (#[trigger] entity_path@[i]).0,
                    ) implies Self::made_with(
                    *create,
                    entity_path@[i].0,
                    self.descriptor_of(entity_path@[i].0)->Some_0,
                    self.handle_of(entity_path@[i].0)->Some_0,
                ) by {
                    let x = entity_path@[i].0;
                    if i < t {
                        assert(x != entity);
                        assert(old(self).contains(x));
                        if built {
                            assert(self@.entities[x] == before@.entities[x]);
                            assert(before.damaged_spec().remove(entity).contains(x)
                                == before.damaged_spec().contains(x));
                        }
                        assert(self.is_damaged_spec(x) == before.is_damaged_spec(x));
                        assert(self.handle_of(x) == before.handle_of(x));
                        assert(self.descriptor_of(x) == before.descriptor_of(x));
                    } else {
                        assert(built);
                    }
                }
                assert(entities[t as int] == entity);
                assert(self.rebuilt_one(&before, entity, *create, built));
                let ghost earlier_states = states;
                let ghost earlier_outcomes = outcomes;
                states = states.push(*self);
                outcomes = outcomes.push(built);
                assert forall|i: int| 0 <= i < t + 1 implies (#[trigger] outcomes[i]
                    <==> !self.is_damaged_spec(entities[i])) by {
                    if i < t {
                        assert(outcomes[i] == earlier_outcomes[i]);
                        assert(entity_path@[i].0 != entity);
                        assert(entities[i] == entity_path@[i].0);
                        if built {
                            assert(before.damaged_spec().remove(entity).contains(entities[i])
                                == before.damaged_spec().contains(entities[i]));
                        }
                        assert(self.is_damaged_spec(entities[i]) == before.is_damaged_spec(
                            entities[i],
                        ));
                    } else {
                        assert(before.is_damaged_spec(entity_path@[t as int].0));
                    }
                }
                if always_makes(*create) {
                    assert forall|i: int|
                        0 <= i < t + 1 && states[i].buildable(entities[i]) implies #[trigger] outcomes[i] by {
                        if i < t {
                            assert(states[i] == earlier_states[i]);
                            assert(outcomes[i] == earlier_outcomes[i]);
                        } else {
                            assert(states[i] == before);
                            assert(before.contains(entity));
                        }
                    }
                }
                assert forall|i: int| 0 <= i < t + 1 implies states[i + 1].rebuilt_one(
                    &states[i],
                    entities[i],
                    *create,
                    #[trigger] outcomes[i],
                ) by {
                    if i < t {
                        assert(states[i] == earlier_states[i]);
                        assert(states[i + 1] == earlier_states[i + 1]);
                        assert(outcomes[i] == earlier_outcomes[i]);
                    } else {
                        assert(states[i] == before);
                    }
                }
            }
            t += 1;
        }
        proof {
            assert(entities.len() == entity_path@.len());
            assert(Self::steps_rebuilt(states, outcomes, entities, *create));
            assert(self.turns_settled(states, outcomes, entities, *create));
        }
        true
    }

    /// The parents of `id`, in the order in which the graph walks them.
    pub open spec fn parents_of(&self, id: EntityId) -> Seq<EntityId> {
        self.inner_spec().inner_spec().parents_spec(id)
    }

    /// The device that `id` belongs to: the first parent of `id` where that
    /// is a device with a handle, else what the first parent belongs to; none
    /// where there is no parent, or after `fuel` steps up.
    pub open spec fn device_route(&self, id: EntityId, fuel: nat) -> Option<DeviceId>
        decreases fuel,
    {
        let parents = self.parents_of(id);
        if parents.len() == 0 {
            None
        } else if self.handle_of(parents[0]) matches Some(ResourceHandle::Device(_)) {
            Some(DeviceId(parents[0]))
        } else if fuel == 0 {
            None
        } else {
            self.device_route(parents[0], (fuel - 1) as nat)
        }
    }

    /// How many resources there are.
    pub open spec fn count(&self) -> nat {
        self.inner_spec().inner_spec().count()
    }

    /// The device that `id` belongs to: see `device_route`. No walk up the
    /// parents takes more steps than there are resources.
    pub fn entity_device_id(&self, id: &EntityId) -> (device: Option<DeviceId>)
        requires
            self.wf(),
        ensures
            device == self.device_route(*id, self.count()),
            device matches Some(d) ==> self.device_handle_spec(d) is Some,
    {
        proof {
            self.inner.lemma_wf();
        }
        let manager = self.inner.inner();
        let mut fuel = manager.len();
        let mut current = *id;
        loop
            invariant
                self.wf(),
                manager.wf(),
                *manager == self.inner.inner_spec(),
                self.device_route(*id, self.count()) == self.device_route(current, fuel as nat),
            decreases fuel,
        {
            let parents = manager.entity_parents(&current);
            if parents.len() == 0 {
                return None;
            }
            let parent_id = parents[0];
            let device_id = DeviceId::new(parent_id);
            if self.device_handle_ref(&device_id).is_some() {
                return Some(device_id);
            }
            if fuel == 0 {
                return None;
            }
            fuel = fuel - 1;
            current = parent_id;
        }
    }

    /// The handle of the device that `id` belongs to: see `entity_device_id`.
    pub fn entity_device(&self, id: &EntityId) -> (device: Option<&DeviceHandle>)
        requires
            self.wf(),
        ensures
            match self.device_route(*id, self.count()) {
                Some(d) => device matches Some(handle) && self.device_handle_spec(d) == Some(
                    *handle,
                ),
                None => device is None,
            },
    {
        match self.entity_device_id(id) {
            Some(device_id) => self.device_handle_ref(&device_id),
            None => None,
        }
    }

    /// Take the handle of the command buffer `id` out, to submit it: the
    /// resource is damaged and has no handle afterwards, and the handle is
    /// handed back where it is that of a command buffer.
    pub fn take_command_buffer(&mut self, id: &CommandBufferId) -> (handle: Option<
        CommandBufferHandle,
    >)
        requires
            old(self).wf(),
        ensures
            final(self).wf(),
            handle == old(self).command_buffer_handle_spec(*id),
            final(self)@.entities.dom() == old(self)@.entities.dom(),
            final(self)@.edges == old(self)@.edges,
            final(self).same_but(old(self), id.0),
            final(self).handle_of(id.0) is None,
            final(self).descriptor_of(id.0) == old(self).descriptor_of(id.0),
            old(self).contains(id.0) ==> final(self).owners_of(id.0) == old(self).owners_of(id.0),
            final(self).damaged_spec() == spread(
                old(self).damaged_spec(),
                old(self)@.entities.dom(),
                old(self)@.edges,
                id.0,
            ),
    {
        match self.take_resource(id.id_ref()) {
            Some(ResourceHandle::CommandBuffer(handle)) => Some(handle),
            _ => None,
        }
    }

    /// Put `handle` in the place of the handle of `id`, and leave what is
    /// damaged as it is.
    fn replace_resource_handle(&mut self, id: &EntityId, handle: ResourceHandle) -> (replaced: bool)
        requires
            old(self).wf(),
        ensures
            final(self).wf(),
            replaced == old(self).contains(*id),
            final(self).damaged_spec() == old(self).damaged_spec(),
            final(self)@.entities.dom() == old(self)@.entities.dom(),
            final(self)@.edges == old(self)@.edges,
            final(self).same_but(old(self), *id),
            replaced ==> final(self).handle_of(*id) == Some(handle),
            final(self).descriptor_of(*id) == old(self).descriptor_of(*id),
            replaced ==> final(self).owners_of(*id) == old(self).owners_of(*id),
    {
        proof {
            self.inner.lemma_wf();
        }
        let ghost first = self@.entities[*id];
        let replaced = self.inner.replace_entity_handle(id, Some(handle));
        proof {
            if replaced {
                lemma_rewired_same(
                    old(self)@.edges,
                    old(self)@.entities.dom(),
                    *id,
                    first.dependencies_spec(),
                );
                assert(self@.entities[*id] == first.with_handle(Some(handle)));
                assert(self@.entities.dom() =~= old(self)@.entities.dom());
                self.lemma_kinds_kept(old(self));
            } else {
                self.lemma_mirror_same(old(self));
            }
        }
        replaced
    }

    /// What `present_swapchain` makes of `before` for the swapchain `id`, with
    /// `frame` for its result.
    pub open spec fn frame_presented(
        &self,
        before: &Self,
        id: SwapchainId,
        frame: Option<FrameHandle>,
    ) -> bool {
        &&& frame == match before.swapchain_handle_spec(id) {
            Some(swapchain) => swapchain.frame_spec(),
            None => None,
        }
        &&& self.damaged_spec() == before.damaged_spec()
        &&& self@.entities.dom() == before@.entities.dom()
        &&& self@.edges == before@.edges
        &&& self.same_but(before, id.0)
        &&& self.descriptor_of(id.0) == before.descriptor_of(id.0)
        &&& before.contains(id.0) ==> self.owners_of(id.0) == before.owners_of(id.0)
        &&& self.handle_of(id.0) == presented_handle(before.handle_of(id.0))
    }

    /// What `prepare_swapchain_frame` makes of `before` for the swapchain
    /// `id` with `acquire`, with `found` for its result.
    pub open spec fn frame_prepared<F: FnOnce() -> FrameHandle>(
        &self,
        before: &Self,
        id: SwapchainId,
        acquire: F,
        found: bool,
    ) -> bool {
        &&& found == before.swapchain_handle_spec(id) is Some
        &&& self.damaged_spec() == before.damaged_spec()
        &&& self@.entities.dom() == before@.entities.dom()
        &&& self@.edges == before@.edges
        &&& self.same_but(before, id.0)
        &&& self.descriptor_of(id.0) == before.descriptor_of(id.0)
        &&& before.contains(id.0) ==> self.owners_of(id.0) == before.owners_of(id.0)
        &&& match (before.swapchain_handle_spec(id), self.swapchain_handle_spec(id)) {
            (Some(held), Some(after)) => {
                &&& after.setup_spec() == held.setup_spec()
                &&& after.chain_spec() == held.chain_spec()
                &&& after.frame_spec() is Some
                &&& held.frame_spec() is Some ==> after == held
                &&& held.frame_spec() is None ==> call_ensures(
                    acquire,
                    (),
                    after.frame_spec()->Some_0,
                )
            },
            (None, _) => self.handle_of(id.0) == before.handle_of(id.0),
            _ => false,
        }
    }

    /// The swapchain `id` hands its frame back, to be presented; it has none
    /// afterwards. `None` where `id` names no swapchain with a handle, or the
    /// swapchain has no frame.
    pub fn present_swapchain(&mut self, id: &SwapchainId) -> (frame: Option<FrameHandle>)
        requires
            old(self).wf(),
        ensures
            final(self).wf(),
            frame == match old(self).swapchain_handle_spec(*id) {
                Some(swapchain) => swapchain.frame_spec(),
                None => None,
            },
            final(self).damaged_spec() == old(self).damaged_spec(),
            final(self)@.entities.dom() == old(self)@.entities.dom(),
            final(self)@.edges == old(self)@.edges,
            final(self).same_but(old(self), id.0),
            final(self).descriptor_of(id.0) == old(self).descriptor_of(id.0),
            old(self).contains(id.0) ==> final(self).owners_of(id.0) == old(self).owners_of(id.0),
            final(self).handle_of(id.0) == presented_handle(old(self).handle_of(id.0)),
            final(self).frame_presented(old(self), *id, frame),
            match (old(self).swapchain_handle_spec(*id), final(self).swapchain_handle_spec(*id)) {
                (Some(before), Some(after)) => after.frame_spec() is None && after.setup_spec()
                    == before.setup_spec() && after.chain_spec() == before.chain_spec(),
                (None, _) => final(self).handle_of(id.0) == old(self).handle_of(id.0),
                _ => false,
            },
    {
        let held = match self.swapchain_handle_ref(id) {
            Some(swapchain) => *swapchain,
            None => {
                return None;
            },
        };
        let mut swapchain = held;
        let frame = swapchain.present();
        proof {
            held.lemma_presented();
        }
        self.replace_resource_handle(id.id_ref(), ResourceHandle::Swapchain(swapchain));
        frame
    }

    /// Where the swapchain `id` has no frame, `acquire` is called for one,
    /// which the swapchain then has. Tells whether `id` names a swapchain
    /// with a handle.
    pub fn prepare_swapchain_frame<F: FnOnce() -> FrameHandle>(&mut self, id: &SwapchainId, acquire: F) -> (
    found: bool)
        requires
            old(self).wf(),
            call_requires(acquire, ()),
        ensures
            final(self).wf(),
            found == old(self).swapchain_handle_spec(*id) is Some,
            final(self).frame_prepared(old(self), *id, acquire, found),
            final(self).damaged_spec() == old(self).damaged_spec(),
            final(self)@.entities.dom() == old(self)@.entities.dom(),
            final(self)@.edges == old(self)@.edges,
            final(self).same_but(old(self), id.0),
            final(self).descriptor_of(id.0) == old(self).descriptor_of(id.0),
            match (old(self).swapchain_handle_spec(*id), final(self).swapchain_handle_spec(*id)) {
                (Some(before), Some(after)) => {
                    &&& after.setup_spec() == before.setup_spec()
                    &&& after.chain_spec() == before.chain_spec()
                    &&& after.frame_spec() is Some
                    &&& before.frame_spec() is Some ==> after == before
                    &&& before.frame_spec() is None ==> call_ensures(
                        acquire,
                        (),
                        after.frame_spec()->Some_0,
                    )
                },
                (None, _) => final(self).handle_of(id.0) == old(self).handle_of(id.0),
                _ => false,
            },
    {
        let held = match self.swapchain_handle_ref(id) {
            Some(swapchain) => *swapchain,
            None => {
                return false;
            },
        };
        let mut swapchain = held;
        swapchain.prepare_frame(acquire);
        self.replace_resource_handle(id.id_ref(), ResourceHandle::Swapchain(swapchain));
        true
    }

    /// The handles of the command buffers of `ids`, in their order: for each
    /// identifier that comes for the first time and has a handle, that
    /// handle.
    pub open spec fn first_handles(&self, ids: Seq<CommandBufferId>) -> Seq<CommandBufferHandle>
        decreases ids.len(),
    {
        if ids.len() == 0 {
            Seq::empty()
        } else {
            let rest = self.first_handles(ids.drop_last());
            match self.command_buffer_handle_spec(ids.last()) {
                Some(handle) => if ids.drop_last().contains(ids.last()) {
                    rest
                } else {
                    rest.push(handle)
                },
                None => rest,
            }
        }
    }

    /// What is damaged once the handles of `ids` were taken out, one after
    /// the other: each identifier spreads the damage from its resource.
    pub open spec fn damaged_after_taking(&self, ids: Seq<CommandBufferId>) -> Set<EntityId>
        decreases ids.len(),
    {
        if ids.len() == 0 {
            self.damaged_spec()
        } else {
            spread(
                self.damaged_after_taking(ids.drop_last()),
                self@.entities.dom(),
                self@.edges,
                ids.last().0,
            )
        }
    }

    /// Take the handles of the command buffers of `ids` out, one after the
    /// other: see `take_command_buffer`. Each resource has no handle
    /// afterwards and is damaged; all else is what it was, but for what is
    /// damaged with them.
    pub fn take_command_buffers(&mut self, ids: &Vec<CommandBufferId>) -> (handles: Vec<
        CommandBufferHandle,
    >)
        requires
            old(self).wf(),
        ensures
            final(self).wf(),
            handles@ == old(self).first_handles(ids@),
            final(self)@.entities.dom() == old(self)@.entities.dom(),
            final(self)@.edges == old(self)@.edges,
            forall|x: EntityId|
                old(self).contains(x) ==> #[trigger] final(self).descriptor_of(x) == old(
                    self,
                ).descriptor_of(x) && final(self).owners_of(x) == old(self).owners_of(x),
            forall|x: EntityId|
                #[trigger] final(self).handle_of(x) == if names_command_buffer(ids@, x) {
                    None
                } else {
                    old(self).handle_of(x)
                },
            final(self).damaged_spec() == old(self).damaged_after_taking(ids@),
            forall|x: EntityId| old(self).is_damaged_spec(x) ==> #[trigger] final(self).is_damaged_spec(x),
            forall|i: int|
                0 <= i < ids@.len() && old(self).contains((#[trigger] ids@[i]).0)
                    ==> final(self).is_damaged_spec(ids@[i].0),
    {
        let mut handles: Vec<CommandBufferHandle> = Vec::new();
        let mut t: usize = 0;
        proof {
            assert(ids@.take(0) =~= Seq::<CommandBufferId>::empty());
        }
        while t < ids.len()
            invariant
                self.wf(),
                old(self).wf(),
                t <= ids.len(),
                handles@ == old(self).first_handles(ids@.take(t as int)),
                self.damaged_spec() == old(self).damaged_after_taking(ids@.take(t as int)),
                self@.entities.dom() == old(self)@.entities.dom(),
                self@.edges == old(self)@.edges,
                forall|x: EntityId|
                    old(self).contains(x) ==> #[trigger] self.descriptor_of(x) == old(
                        self,
                    ).descriptor_of(x) && self.owners_of(x) == old(self).owners_of(x),
                forall|x: EntityId|
                    #[trigger] self.handle_of(x) == if exists|i: int|
                        0 <= i < t && ids@[i].0 == x {
                        None
                    } else {
                        old(self).handle_of(x)
                    },
                forall|x: EntityId|
                    old(self).is_damaged_spec(x) ==> #[trigger] self.is_damaged_spec(x),
                forall|i: int|
                    0 <= i < t && old(self).contains((#[trigger] ids@[i]).0)
                        ==> self.is_damaged_spec(ids@[i].0),
            decreases ids.len() - t,
        {
            let ghost before = *self;
            let id = ids[t];
            proof {
                assert(ids@.take(t + 1).drop_last() =~= ids@.take(t as int));
                assert(ids@.take(t + 1).last() == id);
                if ids@.take(t as int).contains(id) {
                    let i = choose|i: int| 0 <= i < t && ids@.take(t as int)[i] == id;
                    assert(ids@[i].0 == id.0);
                    assert(before.handle_of(id.0) is None);
                } else {
                    assert forall|i: int| 0 <= i < t implies ids@[i].0 != id.0 by {
                        assert(ids@.take(t as int)[i] == ids@[i]);
                        assert(ids@.take(t as int).contains(ids@[i]));
                        if ids@[i].0 == id.0 {
                            assert(ids@[i] == id);
                        }
                    }
                    assert(before.handle_of(id.0) == old(self).handle_of(id.0));
                }
            }
            if let Some(handle) = self.take_command_buffer(&id) {
                handles.push(handle);
            }
            proof {
                before.lemma_wf();
                assert forall|x: EntityId|
                    old(self).contains(x) implies #[trigger] self.descriptor_of(x) == old(
                    self,
                ).descriptor_of(x) && self.owners_of(x) == old(self).owners_of(x) by {
                    assert(before.descriptor_of(x) == old(self).descriptor_of(x));
                    if x != id.0 {
                        assert(self@.entities[x] == before@.entities[x]);
                    }
                }
                assert forall|x: EntityId|
                    #[trigger] self.handle_of(x) == if exists|i: int|
                        0 <= i < t + 1 && ids@[i].0 == x {
                        None
                    } else {
                        old(self).handle_of(x)
                    } by {
                    if x == id.0 {
                        assert(0 <= t < t + 1 && ids@[t as int].0 == x);
                    } else {
                        if before.contains(x) {
                            assert(self@.entities[x] == before@.entities[x]);
                        }
                        assert(self.handle_of(x) == before.handle_of(x));
                        if exists|i: int| 0 <= i < t + 1 && ids@[i].0 == x {
                            let i = choose|i: int| 0 <= i < t + 1 && ids@[i].0 == x;
                            assert(0 <= i < t && ids@[i].0 == x);
                        }
                    }
                }
                assert forall|x: EntityId| old(self).is_damaged_spec(x) implies #[trigger] self.is_damaged_spec(
                    x,
                ) by {
                    assert(before.is_damaged_spec(x));
                }
                assert forall|i: int|
                    0 <= i < t + 1 && old(self).contains((#[trigger] ids@[i]).0) implies self.is_damaged_spec(
                    ids@[i].0,
                ) by {
                    if i < t {
                        assert(before.is_damaged_spec(ids@[i].0));
                    } else {
                        crate::entity_manager::reach::lemma_reachable_self(before@.edges, id.0);
                    }
                }
            }
            t += 1;
        }
        proof {
            assert(ids@.take(ids@.len() as int) =~= ids@);
        }
        handles
    }

    /// The frames that the swapchains of `swapchains` hand back, in their
    /// order, once the handles of `taken` were taken out: for each swapchain
    /// that comes for the first time, is not among `taken` and has a frame,
    /// that frame.
    pub open spec fn first_frames(
        &self,
        swapchains: Seq<(SwapchainId, Option<TextureViewId>)>,
        taken: Seq<CommandBufferId>,
    ) -> Seq<FrameHandle>
        decreases swapchains.len(),
    {
        if swapchains.len() == 0 {
            Seq::empty()
        } else {
            let rest = self.first_frames(swapchains.drop_last(), taken);
            let id = swapchains.last().0;
            match self.swapchain_handle_spec(id) {
                Some(swapchain) => if swapchain.frame_spec() is Some && !names_swapchain(
                    swapchains.drop_last(),
                    id.0,
                ) && !names_command_buffer(taken, id.0) {
                    rest.push(swapchain.frame_spec()->Some_0)
                } else {
                    rest
                },
                None => rest,
            }
        }
    }

    /// The frames that the swapchains hand back once the handles of `taken`
    /// were taken out of `self`, which left `after`.
    pub proof fn lemma_first_frames_after_taking(
        &self,
        after: &Self,
        swapchains: Seq<(SwapchainId, Option<TextureViewId>)>,
        taken: Seq<CommandBufferId>,
    )
        requires
            forall|x: EntityId|
                #[trigger] after.handle_of(x) == if names_command_buffer(taken, x) {
                    None
                } else {
                    self.handle_of(x)
                },
        ensures
            after.first_frames(swapchains, Seq::<CommandBufferId>::empty()) == self.first_frames(
                swapchains,
                taken,
            ),
        decreases swapchains.len(),
    {
        if swapchains.len() > 0 {
            self.lemma_first_frames_after_taking(after, swapchains.drop_last(), taken);
            let id = swapchains.last().0;
            assert(after.handle_of(id.0) == if names_command_buffer(taken, id.0) {
                None
            } else {
                self.handle_of(id.0)
            });
            assert(!names_command_buffer(Seq::<CommandBufferId>::empty(), id.0));
        }
    }

    /// The swapchains of `swapchains` hand their frames back, one after the
    /// other, to be presented: see `present_swapchain`.
    pub fn present_swapchains(&mut self, swapchains: &Vec<(SwapchainId, Option<TextureViewId>)>) -> (frames:
        Vec<FrameHandle>)
        requires
            old(self).wf(),
        ensures
            final(self).wf(),
            final(self).damaged_spec() == old(self).damaged_spec(),
            final(self)@.entities.dom() == old(self)@.entities.dom(),
            final(self)@.edges == old(self)@.edges,
            forall|x: EntityId|
                old(self).contains(x) ==> #[trigger] final(self).descriptor_of(x) == old(
                    self,
                ).descriptor_of(x) && final(self).owners_of(x) == old(self).owners_of(x),
            forall|x: EntityId|
                #[trigger] final(self).handle_of(x) == if names_swapchain(swapchains@, x) {
                    presented_handle(old(self).handle_of(x))
                } else {
                    old(self).handle_of(x)
                },
            frames@ == old(self).first_frames(swapchains@, Seq::<CommandBufferId>::empty()),
    {
        let mut frames: Vec<FrameHandle> = Vec::new();
        let mut t: usize = 0;
        while t < swapchains.len()
            invariant
                self.wf(),
                t <= swapchains.len(),
                old(self).wf(),
                frames@ == old(self).first_frames(
                    swapchains@.take(t as int),
                    Seq::<CommandBufferId>::empty(),
                ),
                self.damaged_spec() == old(self).damaged_spec(),
                self@.entities.dom() == old(self)@.entities.dom(),
                self@.edges == old(self)@.edges,
                forall|x: EntityId|
                    old(self).contains(x) ==> #[trigger] self.descriptor_of(x) == old(
                        self,
                    ).descriptor_of(x) && self.owners_of(x) == old(self).owners_of(x),
                forall|x: EntityId|
                    #[trigger] self.handle_of(x) == if names_swapchain(
                        swapchains@.take(t as int),
                        x,
                    ) {
                        presented_handle(old(self).handle_of(x))
                    } else {
                        old(self).handle_of(x)
                    },
            decreases swapchains.len() - t,
        {
            let ghost before = *self;
            let ghost seen = swapchains@.take(t as int);
            let ghost next = swapchains@.take(t + 1);
            let id = swapchains[t].0;
            proof {
                assert(next.drop_last() =~= seen);
                assert(next.last() == swapchains@[t as int]);
                match old(self).handle_of(id.0) {
                    Some(ResourceHandle::Swapchain(first)) => {
                        first.lemma_presented();
                    },
                    _ => {},
                }
            }
            if let Some(frame) = self.present_swapchain(&id) {
                frames.push(frame);
            }
            proof {
                assert forall|x: EntityId|
                    old(self).contains(x) implies #[trigger] self.descriptor_of(x) == old(
                    self,
                ).descriptor_of(x) && self.owners_of(x) == old(self).owners_of(x) by {
                    assert(before.descriptor_of(x) == old(self).descriptor_of(x));
                    if x != id.0 {
                        assert(self@.entities[x] == before@.entities[x]);
                    }
                }
                assert forall|x: EntityId|
                    #[trigger] self.handle_of(x) == if names_swapchain(next, x) {
                        presented_handle(old(self).handle_of(x))
                    } else {
                        old(self).handle_of(x)
                    } by {
                    if names_swapchain(seen, x) {
                        let i = choose|i: int| 0 <= i < seen.len() && (#[trigger] seen[i]).0.0 == x;
                        assert(next[i] == seen[i]);
                    }
                    if names_swapchain(next, x) && x != id.0 {
                        let i = choose|i: int| 0 <= i < next.len() && (#[trigger] next[i]).0.0 == x;
                        assert(next[t as int].0.0 == id.0);
                        assert(i < t);
                        assert(seen[i] == next[i]);
                        assert(names_swapchain(seen, x));
                    }
                    if x == id.0 {
                        assert(next[t as int].0.0 == x);
                        assert(names_swapchain(next, x));
                        assert(self.handle_of(x) == presented_handle(before.handle_of(x)));
                        match old(self).handle_of(x) {
                            Some(ResourceHandle::Swapchain(first)) => {
                                first.lemma_presented();
                                assert(presented_handle(presented_handle(old(self).handle_of(x)))
                                    == presented_handle(old(self).handle_of(x)));
                            },
                            _ => {
                                assert(presented_handle(old(self).handle_of(x)) == old(
                                    self,
                                ).handle_of(x));
                            },
                        }
                    } else {
                        if before.contains(x) {
                            assert(self@.entities[x] == before@.entities[x]);
                        }
                        assert(self.handle_of(x) == before.handle_of(x));
                    }
                }
            }
            t += 1;
        }
        proof {
            assert(swapchains@.take(swapchains@.len() as int) =~= swapchains@);
        }
        frames
    }
}

/// The handle of a resource once its frame was handed back, where it is a
/// swapchain: all other handles are what they were.
pub open spec fn presented_handle(handle: Option<ResourceHandle>) -> Option<ResourceHandle> {
    match handle {
        Some(ResourceHandle::Swapchain(swapchain)) => Some(
            ResourceHandle::Swapchain(swapchain.presented()),
        ),
        other => other,
    }
}

/// Whether the swapchain `id` is among `swapchains`.
pub open spec fn names_swapchain(
    swapchains: Seq<(SwapchainId, Option<TextureViewId>)>,
    id: EntityId,
) -> bool {
    exists|i: int| 0 <= i < swapchains.len() && (#[trigger] swapchains[i]).0.0 == id
}

/// Whether the command buffer `id` is among `ids`.
pub open spec fn names_command_buffer(ids: Seq<CommandBufferId>, id: EntityId) -> bool {
    exists|i: int| 0 <= i < ids.len() && (#[trigger] ids[i]).0 == id
}

} // verus!
