//! Tasks: the clients of the engine. A task describes the resources that it
//! needs through an update context, and names the command buffers that are to
//! be submitted for it.

use vstd::prelude::*;
use crate::common::resources::descriptors::Equivalent;
use crate::common::resources::descriptors::HaveDependencies;
use crate::common::resources::descriptors::HaveDescriptor;
use crate::common::resources::descriptors::HaveDescriptorAndHandle;
use crate::common::resources::descriptors::HaveHandle;
use crate::common::resources::descriptors::Identifier;
use crate::common::resources::descriptors::StateType;
use crate::common::resources::CommandBufferId;
use crate::common::tasks::descriptor::TaskDescriptor;
use crate::entity_manager::update_context::UpdateContext;
use crate::entity_manager::EntityId;

pub mod descriptor;

verus! {

/// Id of a task.
#[derive(Debug, Clone, Copy, Hash, PartialEq, Eq, Structural)]
pub struct TaskId(pub EntityId);

impl TaskId {
    pub fn new(entity_id: EntityId) -> (id: Self)
        ensures
            id.0 == entity_id,
    {
        Self(entity_id)
    }

    pub fn id(&self) -> (entity_id: EntityId)
        ensures
            entity_id == self.0,
    {
        self.0
    }

    pub fn id_ref(&self) -> (entity_id: &EntityId)
        ensures
            *entity_id == self.0,
    {
        &self.0
    }

    pub fn id_mut(&mut self) -> (entity_id: &mut EntityId)
        ensures
            *entity_id == old(self).0,
            final(self).0 == *final(entity_id),
    {
        &mut self.0
    }
}

impl Identifier for TaskId {
    open spec fn entity(&self) -> EntityId {
        self.0
    }

    fn entity_id(&self) -> (id: EntityId) {
        self.0
    }
}

impl Equivalent for TaskId {
    open spec fn same(&self, other: &Self) -> bool {
        *self == *other
    }

    fn equals(&self, other: &Self) -> (equal: bool) {
        *self == *other
    }

    proof fn lemma_same_reflexive(&self) {
    }

    proof fn lemma_same_symmetric(&self, other: &Self) {
    }

    proof fn lemma_same_transitive(&self, middle: &Self, other: &Self) {
    }
}
/// What the engine asks of a task. An update changes the resources through
/// the update context alone, which keeps the resource manager in order and
/// stays that of the same task: this is taken on trust of every
/// implementation.
pub trait TaskTrait {
    fn name(&self) -> String;

    /// The task brings the resources that it needs up to date.
    fn update_resources(&mut self, update_context: &mut UpdateContext)
        requires
            old(update_context).wf(),
        ensures
            final(update_context).wf(),
            final(update_context).task_spec() == old(update_context).task_spec(),
    ;

    /// The command buffers that are to be submitted for the task.
    fn command_buffers(&self) -> Vec<CommandBufferId>;
}

/// A task that the engine holds: its descriptor, and the task itself once it
/// is made.
pub struct Task<T: TaskTrait> {
    pub descriptor: TaskDescriptor,
    pub handle: Option<T>,
}

impl<T: TaskTrait> Task<T> {
    pub fn from_parts(descriptor: (TaskDescriptor, Option<T>)) -> (task: Self)
        ensures
            task.descriptor == descriptor.0,
            task.handle == descriptor.1,
    {
        Self { descriptor: descriptor.0, handle: descriptor.1 }
    }
}

impl<T: TaskTrait> HaveDependencies for Task<T> {
    open spec fn dependencies_spec(&self) -> Seq<EntityId> {
        self.descriptor.dependencies_spec()
    }

    fn dependencies(&self) -> (dependencies: Vec<EntityId>) {
        self.descriptor.dependencies()
    }
}

impl<T: TaskTrait> HaveDescriptor for Task<T> {
    type D = TaskDescriptor;

    open spec fn descriptor_spec(&self) -> TaskDescriptor {
        self.descriptor
    }

    open spec fn with_descriptor(&self, descriptor: TaskDescriptor) -> Self {
        Task { descriptor, handle: self.handle }
    }

    open spec fn state_type_spec(&self) -> StateType {
        StateType::Statefull
    }

    open spec fn needs_update_spec(&self, other: &TaskDescriptor) -> bool {
        false
    }

    proof fn lemma_descriptor_set(&self, descriptor: TaskDescriptor) {
    }

    fn descriptor_ref(&self) -> (descriptor: &TaskDescriptor) {
        &self.descriptor
    }

    fn descriptor_mut(&mut self) -> (descriptor: &mut TaskDescriptor) {
        &mut self.descriptor
    }

    fn state_type(&self) -> (state: StateType) {
        StateType::Statefull
    }

    fn needs_update(&self, other: &TaskDescriptor) -> (needed: bool) {
        self.descriptor.needs_update(other)
    }
}

impl<T: TaskTrait> HaveHandle for Task<T> {
    type H = Option<T>;

    open spec fn handle_spec(&self) -> Option<T> {
        self.handle
    }

    open spec fn with_handle(&self, handle: Option<T>) -> Self {
        Task { descriptor: self.descriptor, handle }
    }

    fn handle_ref(&self) -> (handle: &Option<T>) {
        &self.handle
    }

    fn handle_mut(&mut self) -> (handle: &mut Option<T>) {
        &mut self.handle
    }
}

impl<T: TaskTrait> HaveDescriptorAndHandle for Task<T> {

}

} // verus!
