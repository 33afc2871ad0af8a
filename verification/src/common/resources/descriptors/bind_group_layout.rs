//! Bind group layout related structures and enumerations.

use vstd::prelude::*;
use crate::common::backend::BindGroupLayoutEntry;
use crate::common::resources::DeviceId;
use crate::common::resources::descriptors::Equivalent;
use crate::common::resources::descriptors::HaveDependencies;
use crate::common::resources::descriptors::HaveDescriptor;
use crate::common::resources::descriptors::StateType;
use crate::common::resources::descriptors::items_equal;
use crate::common::resources::descriptors::lemma_same_items_reflexive;
use crate::common::resources::descriptors::lemma_same_items_symmetric;
use crate::common::resources::descriptors::lemma_same_items_transitive;
use crate::common::resources::descriptors::same_items;
use crate::entity_manager::EntityId;

verus! {

/// Descriptor of a `BindGroupLayoutHandle`.
#[derive(Debug, Clone)]
pub struct BindGroupLayoutDescriptor {
    pub label: String,
    pub device: DeviceId,
    pub entries: Vec<BindGroupLayoutEntry>,
}

impl Equivalent for BindGroupLayoutDescriptor {
    open spec fn same(&self, other: &Self) -> bool {
        &&& self.label@ == other.label@
        &&& self.device == other.device
        &&& same_items(self.entries@, other.entries@)
    }

    fn equals(&self, other: &Self) -> (equal: bool) {
        self.label == other.label
            && self.device == other.device
            && items_equal(&self.entries, &other.entries)
    }

    proof fn lemma_same_reflexive(&self) {
        lemma_same_items_reflexive(self.entries@);
    }

    proof fn lemma_same_symmetric(&self, other: &Self) {
        lemma_same_items_symmetric(self.entries@, other.entries@);
    }

    proof fn lemma_same_transitive(&self, middle: &Self, other: &Self) {
        if same_items(self.entries@, middle.entries@) && same_items(middle.entries@, other.entries@) { lemma_same_items_transitive(self.entries@, middle.entries@, other.entries@); }
    }
}

impl HaveDependencies for BindGroupLayoutDescriptor {
    open spec fn dependencies_spec(&self) -> Seq<EntityId> {
        seq![self.device.0]
    }

    fn dependencies(&self) -> (dependencies: Vec<EntityId>) {
        let mut dependencies: Vec<EntityId> = Vec::new();
        dependencies.push(self.device.0);
        dependencies
    }
}

impl HaveDescriptor for BindGroupLayoutDescriptor {
    type D = Self;

    open spec fn descriptor_spec(&self) -> Self {
        *self
    }

    open spec fn with_descriptor(&self, descriptor: Self) -> Self {
        descriptor
    }

    open spec fn state_type_spec(&self) -> StateType {
        StateType::Stateless
    }

    open spec fn needs_update_spec(&self, other: &Self) -> bool {
        !self.same(other)
    }

    proof fn lemma_descriptor_set(&self, descriptor: Self) {
    }

    fn descriptor_ref(&self) -> (descriptor: &Self) {
        self
    }

    fn descriptor_mut(&mut self) -> (descriptor: &mut Self) {
        self
    }

    fn state_type(&self) -> (state: StateType) {
        StateType::Stateless
    }

    fn needs_update(&self, other: &Self) -> (needed: bool) {
        !self.equals(other)
    }
}

} // verus!
