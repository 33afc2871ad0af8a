//! Pipeline layout related structures and enumerations.

use vstd::prelude::*;
use crate::common::backend::PushConstantRange;
use crate::common::resources::BindGroupLayoutId;
use crate::common::resources::DeviceId;
use crate::common::resources::descriptors::Equivalent;
use crate::common::resources::descriptors::HaveDependencies;
use crate::common::resources::descriptors::HaveDescriptor;
use crate::common::resources::descriptors::StateType;
use crate::common::resources::descriptors::all_dependencies;
use crate::common::resources::descriptors::entities_of;
use crate::common::resources::descriptors::items_equal;
use crate::common::resources::descriptors::lemma_same_items_reflexive;
use crate::common::resources::descriptors::lemma_same_items_symmetric;
use crate::common::resources::descriptors::lemma_same_items_transitive;
use crate::common::resources::descriptors::optional_entity;
use crate::common::resources::descriptors::push_dependencies;
use crate::common::resources::descriptors::push_entities;
use crate::common::resources::descriptors::same_items;
use crate::entity_manager::EntityId;

verus! {

/// Descriptor of a `PipelineLayoutHandle`.
#[derive(Debug, Clone)]
pub struct PipelineLayoutDescriptor {
    pub label: String,
    pub device: DeviceId,
    pub bind_group_layouts: Vec<BindGroupLayoutId>,
    pub push_constant_ranges: Vec<PushConstantRange>,
}

impl Equivalent for PipelineLayoutDescriptor {
    open spec fn same(&self, other: &Self) -> bool {
        &&& self.label@ == other.label@
        &&& self.device == other.device
        &&& same_items(self.bind_group_layouts@, other.bind_group_layouts@)
        &&& same_items(self.push_constant_ranges@, other.push_constant_ranges@)
    }

    fn equals(&self, other: &Self) -> (equal: bool) {
        self.label == other.label
            && self.device == other.device
            && items_equal(&self.bind_group_layouts, &other.bind_group_layouts)
            && items_equal(&self.push_constant_ranges, &other.push_constant_ranges)
    }

    proof fn lemma_same_reflexive(&self) {
        lemma_same_items_reflexive(self.bind_group_layouts@);
        lemma_same_items_reflexive(self.push_constant_ranges@);
    }

    proof fn lemma_same_symmetric(&self, other: &Self) {
        lemma_same_items_symmetric(self.bind_group_layouts@, other.bind_group_layouts@);
        lemma_same_items_symmetric(self.push_constant_ranges@, other.push_constant_ranges@);
    }

    proof fn lemma_same_transitive(&self, middle: &Self, other: &Self) {
        if same_items(self.bind_group_layouts@, middle.bind_group_layouts@) && same_items(middle.bind_group_layouts@, other.bind_group_layouts@) { lemma_same_items_transitive(self.bind_group_layouts@, middle.bind_group_layouts@, other.bind_group_layouts@); }
        if same_items(self.push_constant_ranges@, middle.push_constant_ranges@) && same_items(middle.push_constant_ranges@, other.push_constant_ranges@) { lemma_same_items_transitive(self.push_constant_ranges@, middle.push_constant_ranges@, other.push_constant_ranges@); }
    }
}

impl HaveDependencies for PipelineLayoutDescriptor {
    open spec fn dependencies_spec(&self) -> Seq<EntityId> {
        seq![self.device.0] + entities_of(self.bind_group_layouts@)
    }

    fn dependencies(&self) -> (dependencies: Vec<EntityId>) {
        let mut dependencies: Vec<EntityId> = Vec::new();
        dependencies.push(self.device.0);
        push_entities(&self.bind_group_layouts, &mut dependencies);
        dependencies
    }
}

impl HaveDescriptor for PipelineLayoutDescriptor {
    type D = Self;

    open spec fn descriptor_spec(&self) -> Self {
        *self
    }

    open spec fn with_descriptor(&self, descriptor: Self) -> Self {
        descriptor
    }

    open spec fn state_type_spec(&self) -> StateType {
        StateType::Stateless
    }

    open spec fn needs_update_spec(&self, other: &Self) -> bool {
        !self.same(other)
    }

    proof fn lemma_descriptor_set(&self, descriptor: Self) {
    }

    fn descriptor_ref(&self) -> (descriptor: &Self) {
        self
    }

    fn descriptor_mut(&mut self) -> (descriptor: &mut Self) {
        self
    }

    fn state_type(&self) -> (state: StateType) {
        StateType::Stateless
    }

    fn needs_update(&self, other: &Self) -> (needed: bool) {
        !self.equals(other)
    }
}

} // verus!
