//! Instance related structures and enumerations.

use vstd::prelude::*;
use crate::common::backend::BackendBit;
use crate::common::resources::descriptors::Equivalent;
use crate::common::resources::descriptors::HaveDependencies;
use crate::common::resources::descriptors::HaveDescriptor;
use crate::common::resources::descriptors::StateType;
use crate::entity_manager::EntityId;

verus! {

/// Descriptor of an `InstanceHandle`.
#[derive(Debug, Clone)]
pub struct InstanceDescriptor {
    pub label: String,
    pub backend: BackendBit,
}

impl Equivalent for InstanceDescriptor {
    open spec fn same(&self, other: &Self) -> bool {
        &&& self.label@ == other.label@
        &&& self.backend == other.backend
    }

    fn equals(&self, other: &Self) -> (equal: bool) {
        self.label == other.label
            && self.backend == other.backend
    }

    proof fn lemma_same_reflexive(&self) {
    }

    proof fn lemma_same_symmetric(&self, other: &Self) {
    }

    proof fn lemma_same_transitive(&self, middle: &Self, other: &Self) {
    }
}

impl HaveDependencies for InstanceDescriptor {
    open spec fn dependencies_spec(&self) -> Seq<EntityId> {
        Seq::empty()
    }

    fn dependencies(&self) -> (dependencies: Vec<EntityId>) {
        Vec::new()
    }
}

impl HaveDescriptor for InstanceDescriptor {
    type D = Self;

    open spec fn descriptor_spec(&self) -> Self {
        *self
    }

    open spec fn with_descriptor(&self, descriptor: Self) -> Self {
        descriptor
    }

    open spec fn state_type_spec(&self) -> StateType {
        StateType::Stateless
    }

    open spec fn needs_update_spec(&self, other: &Self) -> bool {
        !self.same(other)
    }

    proof fn lemma_descriptor_set(&self, descriptor: Self) {
    }

    fn descriptor_ref(&self) -> (descriptor: &Self) {
        self
    }

    fn descriptor_mut(&mut self) -> (descriptor: &mut Self) {
        self
    }

    fn state_type(&self) -> (state: StateType) {
        StateType::Stateless
    }

    fn needs_update(&self, other: &Self) -> (needed: bool) {
        !self.equals(other)
    }
}

} // verus!
