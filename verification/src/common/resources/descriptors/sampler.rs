//! Sampler related structures and enumerations.

use vstd::prelude::*;
use crate::common::backend::AddressMode;
use crate::common::backend::CompareFunction;
use crate::common::backend::FilterMode;
use crate::common::backend::SamplerBorderColor;
use crate::common::resources::DeviceId;
use crate::common::resources::descriptors::Equivalent;
use crate::common::resources::descriptors::HaveDependencies;
use crate::common::resources::descriptors::HaveDescriptor;
use crate::common::resources::descriptors::StateType;
use crate::entity_manager::EntityId;

verus! {

/// Descriptor of a `SamplerHandle`. The two level-of-detail clamps are held by
/// the bits of their 32-bit floating-point values.
#[derive(Debug, Clone)]
pub struct SamplerDescriptor {
    pub label: String,
    pub device: DeviceId,
    pub address_mode_u: AddressMode,
    pub address_mode_v: AddressMode,
    pub address_mode_w: AddressMode,
    pub mag_filter: FilterMode,
    pub min_filter: FilterMode,
    pub mipmap_filter: FilterMode,
    pub lod_min_clamp_bits: u32,
    pub lod_max_clamp_bits: u32,
    pub compare: Option<CompareFunction>,
    /// Not zero where it is given.
    pub anisotropy_clamp: Option<u8>,
    pub border_color: Option<SamplerBorderColor>,
}

impl Equivalent for SamplerDescriptor {
    open spec fn same(&self, other: &Self) -> bool {
        &&& self.label@ == other.label@
        &&& self.device == other.device
        &&& self.address_mode_u == other.address_mode_u
        &&& self.address_mode_v == other.address_mode_v
        &&& self.address_mode_w == other.address_mode_w
        &&& self.mag_filter == other.mag_filter
        &&& self.min_filter == other.min_filter
        &&& self.mipmap_filter == other.mipmap_filter
        &&& self.lod_min_clamp_bits == other.lod_min_clamp_bits
        &&& self.lod_max_clamp_bits == other.lod_max_clamp_bits
        &&& self.compare == other.compare
        &&& self.anisotropy_clamp == other.anisotropy_clamp
        &&& self.border_color == other.border_color
    }

    fn equals(&self, other: &Self) -> (equal: bool) {
        self.label == other.label
            && self.device == other.device
            && self.address_mode_u == other.address_mode_u
            && self.address_mode_v == other.address_mode_v
            && self.address_mode_w == other.address_mode_w
            && self.mag_filter == other.mag_filter
            && self.min_filter == other.min_filter
            && self.mipmap_filter == other.mipmap_filter
            && self.lod_min_clamp_bits == other.lod_min_clamp_bits
            && self.lod_max_clamp_bits == other.lod_max_clamp_bits
            && self.compare == other.compare
            && self.anisotropy_clamp == other.anisotropy_clamp
            && self.border_color == other.border_color
    }

    proof fn lemma_same_reflexive(&self) {
    }

    proof fn lemma_same_symmetric(&self, other: &Self) {
    }

    proof fn lemma_same_transitive(&self, middle: &Self, other: &Self) {
    }
}

impl HaveDependencies for SamplerDescriptor {
    open spec fn dependencies_spec(&self) -> Seq<EntityId> {
        seq![self.device.0]
    }

    fn dependencies(&self) -> (dependencies: Vec<EntityId>) {
        let mut dependencies: Vec<EntityId> = Vec::new();
        dependencies.push(self.device.0);
        dependencies
    }
}

impl HaveDescriptor for SamplerDescriptor {
    type D = Self;

    open spec fn descriptor_spec(&self) -> Self {
        *self
    }

    open spec fn with_descriptor(&self, descriptor: Self) -> Self {
        descriptor
    }

    open spec fn state_type_spec(&self) -> StateType {
        StateType::Stateless
    }

    open spec fn needs_update_spec(&self, other: &Self) -> bool {
        !self.same(other)
    }

    proof fn lemma_descriptor_set(&self, descriptor: Self) {
    }

    fn descriptor_ref(&self) -> (descriptor: &Self) {
        self
    }

    fn descriptor_mut(&mut self) -> (descriptor: &mut Self) {
        self
    }

    fn state_type(&self) -> (state: StateType) {
        StateType::Stateless
    }

    fn needs_update(&self, other: &Self) -> (needed: bool) {
        !self.equals(other)
    }
}

} // verus!
