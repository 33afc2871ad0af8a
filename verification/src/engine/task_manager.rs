//! `TaskManager` related structures.

use vstd::prelude::*;
use crate::common::events::ResourceEvent;
use crate::common::resources::descriptors::HaveDependencies;
use crate::common::resources::descriptors::HaveDescriptor;
use crate::common::resources::descriptors::HaveHandle;
use crate::common::tasks::descriptor::TaskDescriptor;
use crate::common::tasks::Task;
use crate::common::tasks::TaskId;
use crate::common::tasks::TaskTrait;
use crate::engine::batch::Batch;
use crate::entity_manager::update_context::UpdateContext;
use crate::engine::resource_manager::ResourceManager;
use crate::common::resources::descriptors::ResourceWrite;
use crate::entity_manager::lemma_rewired_same;
use crate::entity_manager::EntityId;
use crate::entity_manager::EntityManagerError;
use crate::entity_manager::EntityManager;
use crate::entity_manager::ManagerView;

verus! {

/// TaskManager is a specialization of EntityManager and an major subsystem of
/// the engine. It is responsible to manage the task creation, destruction
/// and manipulation. The dependencies of a task say what it comes after, and
/// nothing else.
pub struct TaskManager<T: TaskTrait> {
    tasks: EntityManager<Task<T>>,
}

impl<T: TaskTrait> View for TaskManager<T> {
    type V = ManagerView<Task<T>>;

    closed spec fn view(&self) -> ManagerView<Task<T>> {
        self.tasks@
    }
}

impl<T: TaskTrait> TaskManager<T> {
    /// The manager's invariant: that of the entity manager underneath.
    pub closed spec fn wf(&self) -> bool {
        self.tasks.wf()
    }

    /// `id` names a task of the manager.
    pub open spec fn contains(&self, id: TaskId) -> bool {
        self@.entities.contains_key(id.0)
    }

    /// No task is made: none has a handle.
    pub open spec fn none_made(&self) -> bool {
        forall|x: EntityId|
            self@.entities.contains_key(x) ==> (#[trigger] self@.entities[x]).handle is None
    }

    /// All tasks but `id` are what they were in `before`, and the edges too.
    pub open spec fn same_but(&self, before: &Self, id: TaskId) -> bool {
        &&& self@.entities.dom() == before@.entities.dom()
        &&& self@.edges == before@.edges
        &&& forall|x: EntityId|
            x != id.0 && before@.entities.contains_key(x) ==> #[trigger] self@.entities[x]
                == before@.entities[x]
    }

    pub fn new() -> (manager: Self)
        ensures
            manager.wf(),
            manager@.entities == Map::<EntityId, Task<T>>::empty(),
            manager@.edges == Set::<(EntityId, EntityId)>::empty(),
    {
        Self { tasks: EntityManager::new() }
    }

    /// Add a new task to the manager. Fails, and changes nothing, where a
    /// task that it is to come after is not there.
    pub fn add_task(&mut self, task: Task<T>) -> (result: Result<TaskId, EntityManagerError>)
        requires
            old(self).wf(),
        ensures
            final(self).wf(),
            match result {
                Ok(id) => {
                    &&& !old(self).contains(id)
                    &&& final(self)@.entities == old(self)@.entities.insert(id.0, task)
                    &&& forall|a: EntityId, b: EntityId|
                        final(self)@.edges.contains((a, b)) <==> old(self)@.edges.contains((a, b))
                            || (b == id.0 && task.dependencies_spec().contains(a))
                    &&& forall|i: int|
                        0 <= i < task.dependencies_spec().len() ==> old(self)@.entities.contains_key(
                            #[trigger] task.dependencies_spec()[i],
                        )
                },
                Err(_) => {
                    &&& final(self)@ == old(self)@
                    &&& exists|i: int|
                        0 <= i < task.dependencies_spec().len() && !old(
                            self,
                        )@.entities.contains_key(#[trigger] task.dependencies_spec()[i])
                },
            },
    {
        let ghost added = task;
        match self.tasks.add_entity(task) {
            Ok(id) => {
                assert forall|a: EntityId, b: EntityId|
                    self@.edges.contains((a, b)) <==> old(self)@.edges.contains((a, b)) || (b == id
                        && added.dependencies_spec().contains(a)) by {
                    assert(self.tasks.edge(a, b) == self@.edges.contains((a, b)));
                    assert(old(self).tasks.edge(a, b) == old(self)@.edges.contains((a, b)));
                }
                assert forall|i: int|
                    0 <= i < added.dependencies_spec().len() implies old(self)@.entities.contains_key(
                    #[trigger] added.dependencies_spec()[i],
                ) by {
                    assert(old(self).tasks.contains(added.dependencies_spec()[i]));
                }
                Ok(TaskId::new(id))
            },
            Err(_) => {
                assert(exists|i: int|
                    0 <= i < added.dependencies_spec().len() && !old(self)@.entities.contains_key(
                        #[trigger] added.dependencies_spec()[i],
                    )) by {
                    if forall|i: int|
                        0 <= i < added.dependencies_spec().len() ==> old(self)@.entities.contains_key(
                            #[trigger] added.dependencies_spec()[i],
                        ) {
                        assert forall|i: int|
                            0 <= i < added.dependencies_spec().len() implies old(self).tasks.contains(
                            #[trigger] added.dependencies_spec()[i],
                        ) by {
                            assert(old(self)@.entities.contains_key(added.dependencies_spec()[i]));
                        }
                    }
                }
                Err(EntityManagerError::MissingDependencies)
            },
        }
    }

    /// Create a task: the task `name`, which comes after `dependencies`, is
    /// added without a handle; where that is done, `callback` makes the task
    /// itself, with an update context of the task's own over
    /// `resource_manager`, and what it makes becomes the handle of the task.
    /// The resource manager comes back as `callback` has left it. Nothing
    /// happens where a task of `dependencies` is not there.
    pub fn create_task<C: FnOnce(TaskId, &mut UpdateContext) -> T>(
        &mut self,
        resource_manager: ResourceManager,
        name: String,
        dependencies: Vec<TaskId>,
        callback: C,
    ) -> (made: (ResourceManager, Option<TaskId>))
        requires
            old(self).wf(),
            resource_manager.wf(),
            forall|id: TaskId, context: &mut UpdateContext|
                context.wf() ==> call_requires(callback, (id, context)),
            forall|id: TaskId, context: &mut UpdateContext, task: T|
                context.wf() && call_ensures(callback, (id, context), task) ==> final(context).wf(),
        ensures
            final(self).wf(),
            made.0.wf(),
            made.1 is Some <==> forall|i: int|
                0 <= i < dependencies@.len() ==> old(self).contains(#[trigger] dependencies@[i]),
            made.1 is None ==> made.0 == resource_manager && final(self)@ == old(self)@,
            made.1 matches Some(id) ==> {
                &&& !old(self).contains(id)
                &&& final(self)@.entities.dom() == old(self)@.entities.dom().insert(id.0)
                &&& forall|x: EntityId|
                    old(self)@.entities.contains_key(x) ==> #[trigger] final(self)@.entities[x]
                        == old(self)@.entities[x]
                &&& forall|a: EntityId, b: EntityId|
                    final(self)@.edges.contains((a, b)) <==> old(self)@.edges.contains((a, b)) || (b
                        == id.0 && exists|i: int|
                        0 <= i < dependencies@.len() && (#[trigger] dependencies@[i]).0 == a)
                &&& final(self)@.entities[id.0].descriptor.name == name
                &&& !final(self)@.entities[id.0].descriptor.broken
                &&& final(self)@.entities[id.0].descriptor.dependencies == dependencies
                &&& exists|context: &mut UpdateContext, task: T|
                    {
                        &&& context.task_spec() == id
                        &&& context.manager_spec() == resource_manager
                        &&& context.writes_spec() == Seq::<ResourceWrite>::empty()
                        &&& context.events_spec() == Seq::<ResourceEvent>::empty()
                        &&& #[trigger] call_ensures(callback, (id, context), task)
                        &&& made.0 == final(context).manager_spec()
                        &&& final(self)@.entities[id.0].handle == Some(task)
                    }
            },
    {
        let ghost wanted = dependencies@;
        let descriptor = TaskDescriptor::new(name, dependencies);
        let ghost added = Task::<T> { descriptor, handle: None };
        proof {
            assert(added.dependencies_spec().len() == wanted.len());
            assert forall|i: int| 0 <= i < wanted.len() implies #[trigger] added.dependencies_spec()[i]
                == wanted[i].0 by {}
        }
        match self.add_task(Task::from_parts((descriptor, None))) {
            Ok(id) => {
                let ghost middle = *self;
                let mut update_context = UpdateContext::new(id, resource_manager, Vec::new());
                let ghost first = update_context;
                let handle = callback(id, &mut update_context);
                let ghost last = update_context;
                let ghost value = handle;
                assert(exists|context: &mut UpdateContext, task: T|
                    *context == first && #[trigger] call_ensures(callback, (id, context), task)
                        && *final(context) == last && task == value);
                let (resource_manager, _, _) = update_context.into_parts();
                self.update_task_handle(&id, handle);
                proof {
                    assert(self@.entities.dom() =~= old(self)@.entities.dom().insert(id.0));
                    assert forall|x: EntityId|
                        old(self)@.entities.contains_key(x) implies #[trigger] self@.entities[x]
                        == old(self)@.entities[x] by {
                        assert(middle@.entities[x] == old(self)@.entities[x]);
                    }
                    assert forall|a: EntityId, b: EntityId|
                        self@.edges.contains((a, b)) <==> old(self)@.edges.contains((a, b)) || (b
                            == id.0 && exists|i: int|
                            0 <= i < wanted.len() && (#[trigger] wanted[i]).0 == a) by {
                        if added.dependencies_spec().contains(a) {
                            let i = choose|i: int|
                                0 <= i < added.dependencies_spec().len()
                                    && added.dependencies_spec()[i] == a;
                            assert(wanted[i].0 == a);
                        }
                        if exists|i: int| 0 <= i < wanted.len() && (#[trigger] wanted[i]).0 == a {
                            let i = choose|i: int| 0 <= i < wanted.len() && (#[trigger] wanted[i]).0 == a;
                            assert(added.dependencies_spec()[i] == a);
                        }
                    }
                    assert forall|i: int| 0 <= i < wanted.len() implies old(self).contains(
                        #[trigger] wanted[i],
                    ) by {
                        assert(old(self)@.entities.contains_key(added.dependencies_spec()[i]));
                    }
                }
                (resource_manager, Some(id))
            },
            Err(_) => {
                proof {
                    let i = choose|i: int|
                        0 <= i < added.dependencies_spec().len() && !old(
                            self,
                        )@.entities.contains_key(#[trigger] added.dependencies_spec()[i]);
                    assert(!old(self).contains(wanted[i]));
                }
                (resource_manager, None)
            },
        }
    }

    /// Update the handle of a task.
    pub fn update_task_handle(&mut self, id: &TaskId, handle: T) -> (updated: bool)
        requires
            old(self).wf(),
        ensures
            final(self).wf(),
            updated == old(self).contains(*id),
            !updated ==> final(self)@ == old(self)@,
            updated ==> final(self).same_but(old(self), *id) && final(self)@.entities[id.0] == (Task {
                descriptor: old(self)@.entities[id.0].descriptor,
                handle: Some(handle),
            }),
    {
        let ghost incoming = handle;
        let ghost first = self@.entities[id.0];
        let replace = |task: &mut Task<T>| -> (done: bool)
            ensures
                *final(task) == (Task { descriptor: old(task).descriptor, handle: Some(incoming) }),
            {
                task.handle = Some(handle);
                true
            };
        let result = self.tasks.update_entity(id.id_ref(), replace);
        proof {
            if result is Some {
                lemma_rewired_same(
                    old(self)@.edges,
                    old(self)@.entities.dom(),
                    id.0,
                    first.dependencies_spec(),
                );
                assert(self@.entities.dom() =~= old(self)@.entities.dom());
            }
        }
        result.is_some()
    }

    /// Get the task descriptor reference.
    pub fn task_descriptor_ref(&self, id: &TaskId) -> (descriptor: Option<&TaskDescriptor>)
        requires
            self.wf(),
        ensures
            match descriptor {
                Some(d) => self.contains(*id) && *d == self@.entities[id.0].descriptor,
                None => !self.contains(*id),
            },
    {
        match self.tasks.entity(id.id_ref()) {
            Some(task) => Some(task.descriptor_ref()),
            None => None,
        }
    }

    /// Get the task handle reference.
    pub fn task_handle_ref(&self, id: &TaskId) -> (handle: Option<&T>)
        requires
            self.wf(),
        ensures
            match handle {
                Some(h) => self.contains(*id) && self@.entities[id.0].handle == Some(*h),
                None => !self.contains(*id) || self@.entities[id.0].handle is None,
            },
    {
        match self.tasks.entity(id.id_ref()) {
            Some(task) => task.handle_ref().as_ref(),
            None => None,
        }
    }

    /// Have `callback` work on the task `id`. Tells whether `id` names a task
    /// that is made; `callback` is not called otherwise.
    pub fn task_handle_mut<F: FnOnce(&mut T)>(&mut self, id: &TaskId, callback: F) -> (found: bool)
        requires
            old(self).wf(),
            forall|task: &mut T| call_requires(callback, (task,)),
        ensures
            final(self).wf(),
            found == (old(self).contains(*id) && old(self)@.entities[id.0].handle is Some),
            !found ==> final(self)@ == old(self)@,
            found ==> final(self).same_but(old(self), *id) && final(self)@.entities[id.0].descriptor
                == old(self)@.entities[id.0].descriptor && exists|task: &mut T|
                {
                    &&& Some(*task) == old(self)@.entities[id.0].handle
                    &&& #[trigger] call_ensures(callback, (task,), ())
                    &&& final(self)@.entities[id.0].handle == Some(*final(task))
                },
    {
        let made = match self.tasks.entity(id.id_ref()) {
            Some(task) => task.handle.is_some(),
            None => false,
        };
        if !made {
            return false;
        }
        let ghost first = self@.entities[id.0];
        let work = |task: &mut Task<T>| -> (done: bool)
            requires
                old(task).handle is Some,
                forall|inner: &mut T| call_requires(callback, (inner,)),
            ensures
                final(task).descriptor == old(task).descriptor,
                exists|inner: &mut T|
                    {
                        &&& Some(*inner) == old(task).handle
                        &&& #[trigger] call_ensures(callback, (inner,), ())
                        &&& final(task).handle == Some(*final(inner))
                    },
            {
                match &mut task.handle {
                    Some(handle) => {
                        callback(handle);
                    },
                    None => {},
                }
                true
            };
        let result = self.tasks.update_entity(id.id_ref(), work);
        proof {
            let last = self@.entities[id.0];
            lemma_rewired_same(
                old(self)@.edges,
                old(self)@.entities.dom(),
                id.0,
                first.dependencies_spec(),
            );
            assert(self@.entities.dom() =~= old(self)@.entities.dom());
        }
        true
    }

    /// The task `id`, where it is made, brings its resources up to date
    /// through an update context of its own; its uploads and its command
    /// buffers join the batch.
    fn commit_task(&mut self, id: TaskId, batch: Batch, events: Vec<ResourceEvent>) -> (after: (
        Batch,
        Vec<ResourceEvent>,
    ))
        requires
            old(self).wf(),
            old(self).contains(id),
            batch.wf(),
        ensures
            final(self).wf(),
            after.0.wf(),
            after.0.extends(&batch),
            final(self).same_but(old(self), id),
            final(self)@.entities[id.0].descriptor == old(self)@.entities[id.0].descriptor,
            final(self)@.entities[id.0].handle is Some <==> old(self)@.entities[id.0].handle
                is Some,
            old(self)@.entities[id.0].handle is None ==> final(self)@.entities[id.0] == old(
                self,
            )@.entities[id.0] && after.0 == batch && after.1 == events,
    {
        let ghost first = self@.entities[id.0];
        proof {
            batch.lemma_extends_itself();
        }
        let step = |task: &mut Task<T>| -> (after: (Batch, Vec<ResourceEvent>))
            requires
                batch.wf(),
                batch.extends(&batch),
            ensures
                after.0.wf(),
                after.0.extends(&batch),
                final(task).descriptor == old(task).descriptor,
                final(task).handle is Some <==> old(task).handle is Some,
                old(task).handle is None ==> *final(task) == *old(task) && after.0 == batch
                    && after.1 == events,
            {
                let after = match &mut task.handle {
                    Some(handle) => batch.update_task(id, handle, events),
                    None => (batch, events),
                };
                after
            };
        let result = self.tasks.update_entity(id.id_ref(), step);
        proof {
            lemma_rewired_same(
                old(self)@.edges,
                old(self)@.entities.dom(),
                id.0,
                first.dependencies_spec(),
            );
            assert(self@.entities.dom() =~= old(self)@.entities.dom());
        }
        match result {
            Some(after) => after,
            None => vstd::pervasive::unreached(),
        }
    }

    /// Commit the pending updates of the tasks: each task that is made, in
    /// the order of a topological walk of the tasks, brings its resources up
    /// to date through an update context of its own; its uploads and its
    /// command buffers join the batch. What a task does is its own; whatever
    /// the tasks do, the batch holds afterwards what it held, followed by
    /// what has joined it, a task that is not made is left as it is, and
    /// where none is made the batch comes back as it was given.
    pub fn commit_tasks(&mut self, batch: Batch) -> (after: Batch)
        requires
            old(self).wf(),
            batch.wf(),
        ensures
            final(self).wf(),
            after.wf(),
            after.extends(&batch),
            final(self)@.entities.dom() == old(self)@.entities.dom(),
            final(self)@.edges == old(self)@.edges,
            forall|x: EntityId|
                old(self)@.entities.contains_key(x) ==> #[trigger] final(self)@.entities[x].descriptor
                    == old(self)@.entities[x].descriptor,
            forall|x: EntityId|
                old(self)@.entities.contains_key(x) ==> (#[trigger] final(self)@.entities[x].handle
                    is Some <==> old(self)@.entities[x].handle is Some),
            forall|x: EntityId|
                old(self)@.entities.contains_key(x) && old(self)@.entities[x].handle is None
                    ==> #[trigger] final(self)@.entities[x] == old(self)@.entities[x],
            old(self).none_made() ==> after == batch,
    {
        let order = self.tasks.topological_order();
        let ghost given = batch;
        let mut batch = batch;
        let mut events: Vec<ResourceEvent> = Vec::new();
        let mut t: usize = 0;
        proof {
            given.lemma_extends_itself();
        }
        while t < order.len()
            invariant
                self.wf(),
                batch.wf(),
                batch.extends(&given),
                forall|x: EntityId|
                    old(self)@.entities.contains_key(x) ==> (#[trigger] self@.entities[x].handle
                        is Some <==> old(self)@.entities[x].handle is Some),
                forall|x: EntityId|
                    old(self)@.entities.contains_key(x) && old(self)@.entities[x].handle is None
                        ==> #[trigger] self@.entities[x] == old(self)@.entities[x],
                old(self).none_made() ==> batch == given,
                t <= order.len(),
                forall|j: int| 0 <= j < order@.len() ==> old(self)@.entities.contains_key(
                    #[trigger] order@[j],
                ),
                self@.entities.dom() == old(self)@.entities.dom(),
                self@.edges == old(self)@.edges,
                forall|x: EntityId|
                    old(self)@.entities.contains_key(x) ==> #[trigger] self@.entities[x].descriptor
                        == old(self)@.entities[x].descriptor,
            decreases order.len() - t,
        {
            let id = TaskId::new(order[t]);
            let ghost before = *self;
            let ghost held = batch;
            let after = self.commit_task(id, batch, events);
            batch = after.0;
            events = after.1;
            proof {
                batch.lemma_extends_further(&held, &given);
                assert forall|x: EntityId|
                    old(self)@.entities.contains_key(x) implies #[trigger] self@.entities[x].descriptor
                    == old(self)@.entities[x].descriptor by {
                    assert(before@.entities[x].descriptor == old(self)@.entities[x].descriptor);
                }
                assert forall|x: EntityId| old(self)@.entities.contains_key(x) implies (
                #[trigger] self@.entities[x].handle is Some <==> old(self)@.entities[x].handle
                    is Some) by {
                    assert(before@.entities[x].handle is Some <==> old(self)@.entities[x].handle
                        is Some);
                    if x != id.0 {
                        assert(self@.entities[x] == before@.entities[x]);
                    }
                }
                assert forall|x: EntityId|
                    old(self)@.entities.contains_key(x) && old(self)@.entities[x].handle
                        is None implies #[trigger] self@.entities[x] == old(self)@.entities[x] by {
                    assert(before@.entities[x] == old(self)@.entities[x]);
                    if x != id.0 {
                        assert(self@.entities[x] == before@.entities[x]);
                    }
                }
                if old(self).none_made() {
                    assert(old(self)@.entities.contains_key(id.0));
                    assert(old(self)@.entities[id.0].handle is None);
                    assert(before@.entities[id.0].handle is None);
                }
            }
            t += 1;
        }
        batch
    }
}

} // verus!
