//! Texture related structures and enumerations.

use vstd::prelude::*;
use crate::common::backend::Extent3d;
use crate::common::backend::TextureDimension;
use crate::common::backend::TextureFormat;
use crate::common::backend::TextureUsage;
use crate::common::resources::DeviceId;
use crate::common::resources::descriptors::Equivalent;
use crate::common::resources::descriptors::HaveDependencies;
use crate::common::resources::descriptors::HaveDescriptor;
use crate::common::resources::descriptors::StateType;
use crate::entity_manager::EntityId;

verus! {

/// Possible sources of a texture.
#[derive(Debug, Clone, Copy, PartialEq, Eq, Structural)]
pub enum TextureSource {
    /// A DMA buffer, by its file descriptor, with the code of its format's
    /// modifier where one is given.
    DmaBuf { fd: i32, drm_modifier: Option<u64>, offset: u64 },
    /// Memory behind an opaque file descriptor.
    OpaqueFd { fd: i32, offset: u64 },
    /// Memory that the device allocates itself.
    Local,
}

/// Descriptor of a `TextureHandle`.
#[derive(Debug, Clone)]
pub struct TextureDescriptor {
    pub label: String,
    pub device: DeviceId,
    pub source: TextureSource,
    pub usage: TextureUsage,
    pub size: Extent3d,
    pub format: TextureFormat,
    pub dimension: TextureDimension,
    pub mip_level_count: u32,
    pub sample_count: u32,
}

impl Equivalent for TextureDescriptor {
    open spec fn same(&self, other: &Self) -> bool {
        &&& self.label@ == other.label@
        &&& self.device == other.device
        &&& self.source == other.source
        &&& self.usage == other.usage
        &&& self.size == other.size
        &&& self.format == other.format
        &&& self.dimension == other.dimension
        &&& self.mip_level_count == other.mip_level_count
        &&& self.sample_count == other.sample_count
    }

    fn equals(&self, other: &Self) -> (equal: bool) {
        self.label == other.label
            && self.device == other.device
            && self.source == other.source
            && self.usage == other.usage
            && self.size == other.size
            && self.format == other.format
            && self.dimension == other.dimension
            && self.mip_level_count == other.mip_level_count
            && self.sample_count == other.sample_count
    }

    proof fn lemma_same_reflexive(&self) {
    }

    proof fn lemma_same_symmetric(&self, other: &Self) {
    }

    proof fn lemma_same_transitive(&self, middle: &Self, other: &Self) {
    }
}

impl HaveDependencies for TextureDescriptor {
    open spec fn dependencies_spec(&self) -> Seq<EntityId> {
        seq![self.device.0]
    }

    fn dependencies(&self) -> (dependencies: Vec<EntityId>) {
        let mut dependencies: Vec<EntityId> = Vec::new();
        dependencies.push(self.device.0);
        dependencies
    }
}

impl HaveDescriptor for TextureDescriptor {
    type D = Self;

    open spec fn descriptor_spec(&self) -> Self {
        *self
    }

    open spec fn with_descriptor(&self, descriptor: Self) -> Self {
        descriptor
    }

    open spec fn state_type_spec(&self) -> StateType {
        StateType::Statefull
    }

    open spec fn needs_update_spec(&self, other: &Self) -> bool {
        !self.same(other)
    }

    proof fn lemma_descriptor_set(&self, descriptor: Self) {
    }

    fn descriptor_ref(&self) -> (descriptor: &Self) {
        self
    }

    fn descriptor_mut(&mut self) -> (descriptor: &mut Self) {
        self
    }

    fn state_type(&self) -> (state: StateType) {
        StateType::Statefull
    }

    fn needs_update(&self, other: &Self) -> (needed: bool) {
        !self.equals(other)
    }
}

} // verus!
