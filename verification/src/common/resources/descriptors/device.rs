//! Device related structures and enumerations.

use vstd::prelude::*;
use crate::common::backend::BackendBit;
use crate::common::backend::Features;
use crate::common::backend::Limits;
use crate::common::resources::InstanceId;
use crate::common::resources::descriptors::Equivalent;
use crate::common::resources::descriptors::HaveDependencies;
use crate::common::resources::descriptors::HaveDescriptor;
use crate::common::resources::descriptors::StateType;
use crate::entity_manager::EntityId;

verus! {

/// Descriptor of a `DeviceHandle`.
#[derive(Debug, Clone)]
pub struct DeviceDescriptor {
    pub label: String,
    pub instance: InstanceId,
    pub backend: BackendBit,
    pub pci_id: usize,
    pub features: Features,
    pub limits: Limits,
}

impl Equivalent for DeviceDescriptor {
    open spec fn same(&self, other: &Self) -> bool {
        &&& self.label@ == other.label@
        &&& self.instance == other.instance
        &&& self.backend == other.backend
        &&& self.pci_id == other.pci_id
        &&& self.features == other.features
        &&& self.limits == other.limits
    }

    fn equals(&self, other: &Self) -> (equal: bool) {
        self.label == other.label
            && self.instance == other.instance
            && self.backend == other.backend
            && self.pci_id == other.pci_id
            && self.features == other.features
            && self.limits == other.limits
    }

    proof fn lemma_same_reflexive(&self) {
    }

    proof fn lemma_same_symmetric(&self, other: &Self) {
    }

    proof fn lemma_same_transitive(&self, middle: &Self, other: &Self) {
    }
}

impl HaveDependencies for DeviceDescriptor {
    open spec fn dependencies_spec(&self) -> Seq<EntityId> {
        seq![self.instance.0]
    }

    fn dependencies(&self) -> (dependencies: Vec<EntityId>) {
        let mut dependencies: Vec<EntityId> = Vec::new();
        dependencies.push(self.instance.0);
        dependencies
    }
}

impl HaveDescriptor for DeviceDescriptor {
    type D = Self;

    open spec fn descriptor_spec(&self) -> Self {
        *self
    }

    open spec fn with_descriptor(&self, descriptor: Self) -> Self {
        descriptor
    }

    open spec fn state_type_spec(&self) -> StateType {
        StateType::Stateless
    }

    open spec fn needs_update_spec(&self, other: &Self) -> bool {
        !self.same(other)
    }

    proof fn lemma_descriptor_set(&self, descriptor: Self) {
    }

    fn descriptor_ref(&self) -> (descriptor: &Self) {
        self
    }

    fn descriptor_mut(&mut self) -> (descriptor: &mut Self) {
        self
    }

    fn state_type(&self) -> (state: StateType) {
        StateType::Stateless
    }

    fn needs_update(&self, other: &Self) -> (needed: bool) {
        !self.equals(other)
    }
}

} // verus!
