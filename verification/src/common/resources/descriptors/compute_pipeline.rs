//! Compute pipeline related structures and enumerations.

use vstd::prelude::*;
use crate::common::resources::DeviceId;
use crate::common::resources::PipelineLayoutId;
use crate::common::resources::ShaderModuleId;
use crate::common::resources::descriptors::Equivalent;
use crate::common::resources::descriptors::HaveDependencies;
use crate::common::resources::descriptors::HaveDescriptor;
use crate::common::resources::descriptors::StateType;
use crate::common::resources::descriptors::all_dependencies;
use crate::common::resources::descriptors::entities_of;
use crate::common::resources::descriptors::optional_entity;
use crate::common::resources::descriptors::push_dependencies;
use crate::common::resources::descriptors::push_entities;
use crate::entity_manager::EntityId;

verus! {

/// Descriptor of a `ComputePipelineHandle`.
#[derive(Debug, Clone)]
pub struct ComputePipelineDescriptor {
    pub label: String,
    pub device: DeviceId,
    pub layout: Option<PipelineLayoutId>,
    pub module: ShaderModuleId,
    pub entry_point: String,
}

impl Equivalent for ComputePipelineDescriptor {
    open spec fn same(&self, other: &Self) -> bool {
        &&& self.label@ == other.label@
        &&& self.device == other.device
        &&& self.layout == other.layout
        &&& self.module == other.module
        &&& self.entry_point@ == other.entry_point@
    }

    fn equals(&self, other: &Self) -> (equal: bool) {
        self.label == other.label
            && self.device == other.device
            && self.layout == other.layout
            && self.module == other.module
            && self.entry_point == other.entry_point
    }

    proof fn lemma_same_reflexive(&self) {
    }

    proof fn lemma_same_symmetric(&self, other: &Self) {
    }

    proof fn lemma_same_transitive(&self, middle: &Self, other: &Self) {
    }
}

impl HaveDependencies for ComputePipelineDescriptor {
    open spec fn dependencies_spec(&self) -> Seq<EntityId> {
        seq![self.device.0] + optional_entity(self.layout) + seq![self.module.0]
    }

    fn dependencies(&self) -> (dependencies: Vec<EntityId>) {
        let mut dependencies: Vec<EntityId> = Vec::new();
        dependencies.push(self.device.0);
        if let Some(id) = &self.layout {
            dependencies.push(id.0);
        }
        dependencies.push(self.module.0);
        dependencies
    }
}

impl HaveDescriptor for ComputePipelineDescriptor {
    type D = Self;

    open spec fn descriptor_spec(&self) -> Self {
        *self
    }

    open spec fn with_descriptor(&self, descriptor: Self) -> Self {
        descriptor
    }

    open spec fn state_type_spec(&self) -> StateType {
        StateType::Stateless
    }

    open spec fn needs_update_spec(&self, other: &Self) -> bool {
        !self.same(other)
    }

    proof fn lemma_descriptor_set(&self, descriptor: Self) {
    }

    fn descriptor_ref(&self) -> (descriptor: &Self) {
        self
    }

    fn descriptor_mut(&mut self) -> (descriptor: &mut Self) {
        self
    }

    fn state_type(&self) -> (state: StateType) {
        StateType::Stateless
    }

    fn needs_update(&self, other: &Self) -> (needed: bool) {
        !self.equals(other)
    }
}

} // verus!
