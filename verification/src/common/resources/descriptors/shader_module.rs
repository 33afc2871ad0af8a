//! ShaderModule related structures and enumerations.

use vstd::prelude::*;
use crate::common::backend::ShaderFlags;
use crate::common::resources::DeviceId;
use crate::common::resources::descriptors::Equivalent;
use crate::common::resources::descriptors::HaveDependencies;
use crate::common::resources::descriptors::HaveDescriptor;
use crate::common::resources::descriptors::StateType;
use crate::common::resources::descriptors::items_equal;
use crate::common::resources::descriptors::lemma_same_items_reflexive;
use crate::common::resources::descriptors::lemma_same_items_symmetric;
use crate::common::resources::descriptors::lemma_same_items_transitive;
use crate::common::resources::descriptors::same_items;
use crate::entity_manager::EntityId;

verus! {

/// Source of a shader module.
#[derive(Debug, Clone)]
pub enum ShaderSource {
    SpirV(Vec<u32>),
    Wgsl(String),
}

impl Equivalent for ShaderSource {
    open spec fn same(&self, other: &Self) -> bool {
        match (*self, *other) {
            (Self::SpirV(a_words), Self::SpirV(b_words)) => same_items(a_words@, b_words@),
            (Self::Wgsl(a_text), Self::Wgsl(b_text)) => a_text@ == b_text@,
            _ => false,
        }
    }

    fn equals(&self, other: &Self) -> (equal: bool) {
        match (self, other) {
            (Self::SpirV(a_words), Self::SpirV(b_words)) => items_equal(a_words, b_words),
            (Self::Wgsl(a_text), Self::Wgsl(b_text)) => *a_text == *b_text,
            _ => false,
        }
    }

    proof fn lemma_same_reflexive(&self) {
        match (*self,) {
            (Self::SpirV(s0_words),) => {
                lemma_same_items_reflexive(s0_words@);
            },
            _ => {},
        }
    }

    proof fn lemma_same_symmetric(&self, other: &Self) {
        match (*self, *other) {
            (Self::SpirV(s0_words), Self::SpirV(o1_words)) => {
                lemma_same_items_symmetric(s0_words@, o1_words@);
            },
            _ => {},
        }
    }

    proof fn lemma_same_transitive(&self, middle: &Self, other: &Self) {
        match (*self, *middle, *other) {
            (Self::SpirV(s0_words), Self::SpirV(m1_words), Self::SpirV(o2_words)) => {
                if same_items(s0_words@, m1_words@) && same_items(m1_words@, o2_words@) { lemma_same_items_transitive(s0_words@, m1_words@, o2_words@); }
            },
            _ => {},
        }
    }
}

/// Descriptor of a `ShaderModuleHandle`.
#[derive(Debug, Clone)]
pub struct ShaderModuleDescriptor {
    pub label: String,
    pub device: DeviceId,
    pub source: ShaderSource,
    pub flags: ShaderFlags,
}

impl Equivalent for ShaderModuleDescriptor {
    open spec fn same(&self, other: &Self) -> bool {
        &&& self.label@ == other.label@
        &&& self.device == other.device
        &&& self.source.same(&other.source)
        &&& self.flags == other.flags
    }

    fn equals(&self, other: &Self) -> (equal: bool) {
        self.label == other.label
            && self.device == other.device
            && self.source.equals(&other.source)
            && self.flags == other.flags
    }

    proof fn lemma_same_reflexive(&self) {
        self.source.lemma_same_reflexive();
    }

    proof fn lemma_same_symmetric(&self, other: &Self) {
        self.source.lemma_same_symmetric(&other.source);
    }

    proof fn lemma_same_transitive(&self, middle: &Self, other: &Self) {
        if self.source.same(&middle.source) && middle.source.same(&other.source) { self.source.lemma_same_transitive(&middle.source, &other.source); }
    }
}

impl HaveDependencies for ShaderModuleDescriptor {
    open spec fn dependencies_spec(&self) -> Seq<EntityId> {
        seq![self.device.0]
    }

    fn dependencies(&self) -> (dependencies: Vec<EntityId>) {
        let mut dependencies: Vec<EntityId> = Vec::new();
        dependencies.push(self.device.0);
        dependencies
    }
}

impl HaveDescriptor for ShaderModuleDescriptor {
    type D = Self;

    open spec fn descriptor_spec(&self) -> Self {
        *self
    }

    open spec fn with_descriptor(&self, descriptor: Self) -> Self {
        descriptor
    }

    open spec fn state_type_spec(&self) -> StateType {
        StateType::Stateless
    }

    open spec fn needs_update_spec(&self, other: &Self) -> bool {
        !self.same(other)
    }

    proof fn lemma_descriptor_set(&self, descriptor: Self) {
    }

    fn descriptor_ref(&self) -> (descriptor: &Self) {
        self
    }

    fn descriptor_mut(&mut self) -> (descriptor: &mut Self) {
        self
    }

    fn state_type(&self) -> (state: StateType) {
        StateType::Stateless
    }

    fn needs_update(&self, other: &Self) -> (needed: bool) {
        !self.equals(other)
    }
}

} // verus!
