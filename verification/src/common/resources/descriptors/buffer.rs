//! Buffer related structures and enumerations.

use vstd::prelude::*;
use crate::common::backend::BufferAddress;
use crate::common::backend::BufferUsage;
use crate::common::resources::DeviceId;
use crate::common::resources::descriptors::Equivalent;
use crate::common::resources::descriptors::HaveDependencies;
use crate::common::resources::descriptors::HaveDescriptor;
use crate::common::resources::descriptors::StateType;
use crate::entity_manager::EntityId;

verus! {

/// Descriptor of a `BufferHandle`.
#[derive(Debug, Clone)]
pub struct BufferDescriptor {
    pub label: String,
    pub device: DeviceId,
    pub size: BufferAddress,
    pub usage: BufferUsage,
}

impl Equivalent for BufferDescriptor {
    open spec fn same(&self, other: &Self) -> bool {
        &&& self.label@ == other.label@
        &&& self.device == other.device
        &&& self.size == other.size
        &&& self.usage == other.usage
    }

    fn equals(&self, other: &Self) -> (equal: bool) {
        self.label == other.label
            && self.device == other.device
            && self.size == other.size
            && self.usage == other.usage
    }

    proof fn lemma_same_reflexive(&self) {
    }

    proof fn lemma_same_symmetric(&self, other: &Self) {
    }

    proof fn lemma_same_transitive(&self, middle: &Self, other: &Self) {
    }
}

impl HaveDependencies for BufferDescriptor {
    open spec fn dependencies_spec(&self) -> Seq<EntityId> {
        seq![self.device.0]
    }

    fn dependencies(&self) -> (dependencies: Vec<EntityId>) {
        let mut dependencies: Vec<EntityId> = Vec::new();
        dependencies.push(self.device.0);
        dependencies
    }
}

impl HaveDescriptor for BufferDescriptor {
    type D = Self;

    open spec fn descriptor_spec(&self) -> Self {
        *self
    }

    open spec fn with_descriptor(&self, descriptor: Self) -> Self {
        descriptor
    }

    open spec fn state_type_spec(&self) -> StateType {
        StateType::Statefull
    }

    open spec fn needs_update_spec(&self, other: &Self) -> bool {
        !self.same(other)
    }

    proof fn lemma_descriptor_set(&self, descriptor: Self) {
    }

    fn descriptor_ref(&self) -> (descriptor: &Self) {
        self
    }

    fn descriptor_mut(&mut self) -> (descriptor: &mut Self) {
        self
    }

    fn state_type(&self) -> (state: StateType) {
        StateType::Statefull
    }

    fn needs_update(&self, other: &Self) -> (needed: bool) {
        !self.equals(other)
    }
}

} // verus!
