//! The descriptor of a task.

use vstd::prelude::*;
use crate::common::resources::descriptors::entities_of;
use crate::common::resources::descriptors::items_equal;
use crate::common::resources::descriptors::lemma_same_items_reflexive;
use crate::common::resources::descriptors::lemma_same_items_symmetric;
use crate::common::resources::descriptors::lemma_same_items_transitive;
use crate::common::resources::descriptors::push_entities;
use crate::common::resources::descriptors::same_items;
use crate::common::resources::descriptors::Equivalent;
use crate::common::resources::descriptors::HaveDependencies;
use crate::common::resources::descriptors::HaveDescriptor;
use crate::common::resources::descriptors::StateType;
use crate::common::tasks::TaskId;
use crate::entity_manager::EntityId;

verus! {

/// What a task is: its name, whether it is broken, and the tasks that it
/// comes after.
#[derive(Debug, Clone)]
pub struct TaskDescriptor {
    pub name: String,
    pub broken: bool,
    pub dependencies: Vec<TaskId>,
}

impl TaskDescriptor {
    pub fn new(name: String, dependencies: Vec<TaskId>) -> (descriptor: Self)
        ensures
            descriptor.name == name,
            !descriptor.broken,
            descriptor.dependencies == dependencies,
    {
        let broken = false;
        Self { name, broken, dependencies }
    }

    pub fn name(&self) -> (name: &str)
        ensures
            name@ == self.name@,
    {
        self.name.as_str()
    }

    pub fn set_broken(&mut self, value: bool)
        ensures
            final(self).broken == value,
            final(self).name == old(self).name,
            final(self).dependencies == old(self).dependencies,
    {
        self.broken = value;
    }

    pub fn broken(&self) -> (broken: bool)
        ensures
            broken == self.broken,
    {
        self.broken
    }
}

impl Equivalent for TaskDescriptor {
    open spec fn same(&self, other: &Self) -> bool {
        &&& self.name@ == other.name@
        &&& self.broken == other.broken
        &&& same_items(self.dependencies@, other.dependencies@)
    }

    fn equals(&self, other: &Self) -> (equal: bool) {
        self.name == other.name && self.broken == other.broken && items_equal(
            &self.dependencies,
            &other.dependencies,
        )
    }

    proof fn lemma_same_reflexive(&self) {
        lemma_same_items_reflexive(self.dependencies@);
    }

    proof fn lemma_same_symmetric(&self, other: &Self) {
        lemma_same_items_symmetric(self.dependencies@, other.dependencies@);
    }

    proof fn lemma_same_transitive(&self, middle: &Self, other: &Self) {
        lemma_same_items_transitive(self.dependencies@, middle.dependencies@, other.dependencies@);
    }
}

impl HaveDependencies for TaskDescriptor {
    open spec fn dependencies_spec(&self) -> Seq<EntityId> {
        entities_of(self.dependencies@)
    }

    fn dependencies(&self) -> (dependencies: Vec<EntityId>) {
        let mut dependencies: Vec<EntityId> = Vec::new();
        push_entities(&self.dependencies, &mut dependencies);
        dependencies
    }
}

impl HaveDescriptor for TaskDescriptor {
    type D = Self;

    open spec fn descriptor_spec(&self) -> Self {
        *self
    }

    open spec fn with_descriptor(&self, descriptor: Self) -> Self {
        descriptor
    }

    open spec fn state_type_spec(&self) -> StateType {
        StateType::Statefull
    }

    open spec fn needs_update_spec(&self, other: &Self) -> bool {
        false
    }

    proof fn lemma_descriptor_set(&self, descriptor: Self) {
    }

    fn descriptor_ref(&self) -> (descriptor: &Self) {
        self
    }

    fn descriptor_mut(&mut self) -> (descriptor: &mut Self) {
        self
    }

    fn state_type(&self) -> (state: StateType) {
        StateType::Statefull
    }

    fn needs_update(&self, other: &Self) -> (needed: bool) {
        false
    }
}

} // verus!
