//! Texture view related structures and enumerations.

use vstd::prelude::*;
use crate::common::backend::TextureAspect;
use crate::common::backend::TextureFormat;
use crate::common::backend::TextureViewDimension;
use crate::common::resources::DeviceId;
use crate::common::resources::TextureId;
use crate::common::resources::descriptors::Equivalent;
use crate::common::resources::descriptors::HaveDependencies;
use crate::common::resources::descriptors::HaveDescriptor;
use crate::common::resources::descriptors::StateType;
use crate::entity_manager::EntityId;

verus! {

/// Descriptor of a `TextureViewHandle`.
#[derive(Debug, Clone)]
pub struct TextureViewDescriptor {
    pub label: String,
    pub device: DeviceId,
    pub texture: TextureId,
    pub format: TextureFormat,
    pub dimension: TextureViewDimension,
    pub aspect: TextureAspect,
    pub base_mip_level: u32,
    /// Not zero where it is given.
    pub mip_level_count: Option<u32>,
    pub base_array_layer: u32,
    /// Not zero where it is given.
    pub array_layer_count: Option<u32>,
}

impl Equivalent for TextureViewDescriptor {
    open spec fn same(&self, other: &Self) -> bool {
        &&& self.label@ == other.label@
        &&& self.device == other.device
        &&& self.texture == other.texture
        &&& self.format == other.format
        &&& self.dimension == other.dimension
        &&& self.aspect == other.aspect
        &&& self.base_mip_level == other.base_mip_level
        &&& self.mip_level_count == other.mip_level_count
        &&& self.base_array_layer == other.base_array_layer
        &&& self.array_layer_count == other.array_layer_count
    }

    fn equals(&self, other: &Self) -> (equal: bool) {
        self.label == other.label
            && self.device == other.device
            && self.texture == other.texture
            && self.format == other.format
            && self.dimension == other.dimension
            && self.aspect == other.aspect
            && self.base_mip_level == other.base_mip_level
            && self.mip_level_count == other.mip_level_count
            && self.base_array_layer == other.base_array_layer
            && self.array_layer_count == other.array_layer_count
    }

    proof fn lemma_same_reflexive(&self) {
    }

    proof fn lemma_same_symmetric(&self, other: &Self) {
    }

    proof fn lemma_same_transitive(&self, middle: &Self, other: &Self) {
    }
}

impl HaveDependencies for TextureViewDescriptor {
    open spec fn dependencies_spec(&self) -> Seq<EntityId> {
        seq![self.device.0] + seq![self.texture.0]
    }

    fn dependencies(&self) -> (dependencies: Vec<EntityId>) {
        let mut dependencies: Vec<EntityId> = Vec::new();
        dependencies.push(self.device.0);
        dependencies.push(self.texture.0);
        dependencies
    }
}

impl HaveDescriptor for TextureViewDescriptor {
    type D = Self;

    open spec fn descriptor_spec(&self) -> Self {
        *self
    }

    open spec fn with_descriptor(&self, descriptor: Self) -> Self {
        descriptor
    }

    open spec fn state_type_spec(&self) -> StateType {
        StateType::Stateless
    }

    open spec fn needs_update_spec(&self, other: &Self) -> bool {
        !self.same(other)
    }

    proof fn lemma_descriptor_set(&self, descriptor: Self) {
    }

    fn descriptor_ref(&self) -> (descriptor: &Self) {
        self
    }

    fn descriptor_mut(&mut self) -> (descriptor: &mut Self) {
        self
    }

    fn state_type(&self) -> (state: StateType) {
        StateType::Stateless
    }

    fn needs_update(&self, other: &Self) -> (needed: bool) {
        !self.equals(other)
    }
}

} // verus!
