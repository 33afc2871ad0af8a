//! What a task asks of a device: features and limits.

use vstd::prelude::*;
use crate::common::backend::Features;
use crate::common::backend::Limits;

verus! {

impl Limits {
    /// `self` comes after `other` in the order of limits: the two differ, and
    /// `self` has the higher number at the first limit at which they do.
    pub open spec fn outranks(&self, other: &Limits) -> bool {
        if self.max_texture_dimension_1d != other.max_texture_dimension_1d {
            self.max_texture_dimension_1d > other.max_texture_dimension_1d
        } else if self.max_texture_dimension_2d != other.max_texture_dimension_2d {
            self.max_texture_dimension_2d > other.max_texture_dimension_2d
        } else if self.max_texture_dimension_3d != other.max_texture_dimension_3d {
            self.max_texture_dimension_3d > other.max_texture_dimension_3d
        } else if self.max_texture_array_layers != other.max_texture_array_layers {
            self.max_texture_array_layers > other.max_texture_array_layers
        } else if self.max_bind_groups != other.max_bind_groups {
            self.max_bind_groups > other.max_bind_groups
        } else if self.max_dynamic_uniform_buffers_per_pipeline_layout != other.max_dynamic_uniform_buffers_per_pipeline_layout {
            self.max_dynamic_uniform_buffers_per_pipeline_layout > other.max_dynamic_uniform_buffers_per_pipeline_layout
        } else if self.max_dynamic_storage_buffers_per_pipeline_layout != other.max_dynamic_storage_buffers_per_pipeline_layout {
            self.max_dynamic_storage_buffers_per_pipeline_layout > other.max_dynamic_storage_buffers_per_pipeline_layout
        } else if self.max_sampled_textures_per_shader_stage != other.max_sampled_textures_per_shader_stage {
            self.max_sampled_textures_per_shader_stage > other.max_sampled_textures_per_shader_stage
        } else if self.max_samplers_per_shader_stage != other.max_samplers_per_shader_stage {
            self.max_samplers_per_shader_stage > other.max_samplers_per_shader_stage
        } else if self.max_storage_buffers_per_shader_stage != other.max_storage_buffers_per_shader_stage {
            self.max_storage_buffers_per_shader_stage > other.max_storage_buffers_per_shader_stage
        } else if self.max_storage_textures_per_shader_stage != other.max_storage_textures_per_shader_stage {
            self.max_storage_textures_per_shader_stage > other.max_storage_textures_per_shader_stage
        } else if self.max_uniform_buffers_per_shader_stage != other.max_uniform_buffers_per_shader_stage {
            self.max_uniform_buffers_per_shader_stage > other.max_uniform_buffers_per_shader_stage
        } else if self.max_uniform_buffer_binding_size != other.max_uniform_buffer_binding_size {
            self.max_uniform_buffer_binding_size > other.max_uniform_buffer_binding_size
        } else if self.max_storage_buffer_binding_size != other.max_storage_buffer_binding_size {
            self.max_storage_buffer_binding_size > other.max_storage_buffer_binding_size
        } else if self.max_vertex_buffers != other.max_vertex_buffers {
            self.max_vertex_buffers > other.max_vertex_buffers
        } else if self.max_vertex_attributes != other.max_vertex_attributes {
            self.max_vertex_attributes > other.max_vertex_attributes
        } else if self.max_vertex_buffer_array_stride != other.max_vertex_buffer_array_stride {
            self.max_vertex_buffer_array_stride > other.max_vertex_buffer_array_stride
        } else if self.max_push_constant_size != other.max_push_constant_size {
            self.max_push_constant_size > other.max_push_constant_size
        } else {
            false
        }
    }

    /// Whether `self` comes after `other` in the order of limits.
    pub fn comes_after(&self, other: &Limits) -> (after: bool)
        ensures
            after == self.outranks(other),
    {
        if self.max_texture_dimension_1d != other.max_texture_dimension_1d {
            self.max_texture_dimension_1d > other.max_texture_dimension_1d
        } else if self.max_texture_dimension_2d != other.max_texture_dimension_2d {
            self.max_texture_dimension_2d > other.max_texture_dimension_2d
        } else if self.max_texture_dimension_3d != other.max_texture_dimension_3d {
            self.max_texture_dimension_3d > other.max_texture_dimension_3d
        } else if self.max_texture_array_layers != other.max_texture_array_layers {
            self.max_texture_array_layers > other.max_texture_array_layers
        } else if self.max_bind_groups != other.max_bind_groups {
            self.max_bind_groups > other.max_bind_groups
        } else if self.max_dynamic_uniform_buffers_per_pipeline_layout != other.max_dynamic_uniform_buffers_per_pipeline_layout {
            self.max_dynamic_uniform_buffers_per_pipeline_layout > other.max_dynamic_uniform_buffers_per_pipeline_layout
        } else if self.max_dynamic_storage_buffers_per_pipeline_layout != other.max_dynamic_storage_buffers_per_pipeline_layout {
            self.max_dynamic_storage_buffers_per_pipeline_layout > other.max_dynamic_storage_buffers_per_pipeline_layout
        } else if self.max_sampled_textures_per_shader_stage != other.max_sampled_textures_per_shader_stage {
            self.max_sampled_textures_per_shader_stage > other.max_sampled_textures_per_shader_stage
        } else if self.max_samplers_per_shader_stage != other.max_samplers_per_shader_stage {
            self.max_samplers_per_shader_stage > other.max_samplers_per_shader_stage
        } else if self.max_storage_buffers_per_shader_stage != other.max_storage_buffers_per_shader_stage {
            self.max_storage_buffers_per_shader_stage > other.max_storage_buffers_per_shader_stage
        } else if self.max_storage_textures_per_shader_stage != other.max_storage_textures_per_shader_stage {
            self.max_storage_textures_per_shader_stage > other.max_storage_textures_per_shader_stage
        } else if self.max_uniform_buffers_per_shader_stage != other.max_uniform_buffers_per_shader_stage {
            self.max_uniform_buffers_per_shader_stage > other.max_uniform_buffers_per_shader_stage
        } else if self.max_uniform_buffer_binding_size != other.max_uniform_buffer_binding_size {
            self.max_uniform_buffer_binding_size > other.max_uniform_buffer_binding_size
        } else if self.max_storage_buffer_binding_size != other.max_storage_buffer_binding_size {
            self.max_storage_buffer_binding_size > other.max_storage_buffer_binding_size
        } else if self.max_vertex_buffers != other.max_vertex_buffers {
            self.max_vertex_buffers > other.max_vertex_buffers
        } else if self.max_vertex_attributes != other.max_vertex_attributes {
            self.max_vertex_attributes > other.max_vertex_attributes
        } else if self.max_vertex_buffer_array_stride != other.max_vertex_buffer_array_stride {
            self.max_vertex_buffer_array_stride > other.max_vertex_buffer_array_stride
        } else if self.max_push_constant_size != other.max_push_constant_size {
            self.max_push_constant_size > other.max_push_constant_size
        } else {
            false
        }
    }

    /// The later of the two in the order of limits; `other` where they are
    /// equal.
    pub open spec fn max_spec(self, other: Limits) -> Limits {
        if self.outranks(&other) {
            self
        } else {
            other
        }
    }

    /// The later of the two in the order of limits.
    pub fn max(self, other: Limits) -> (later: Limits)
        ensures
            later == self.max_spec(other),
    {
        if self.comes_after(&other) {
            self
        } else {
            other
        }
    }

    /// The earlier of the two in the order of limits; `self` where they are
    /// equal.
    pub open spec fn min_spec(self, other: Limits) -> Limits {
        if self.outranks(&other) {
            other
        } else {
            self
        }
    }

    /// The earlier of the two in the order of limits.
    pub fn min(self, other: Limits) -> (earlier: Limits)
        ensures
            earlier == self.min_spec(other),
    {
        if self.comes_after(&other) {
            other
        } else {
            self
        }
    }

    /// The limits that a device is asked for where nothing else is said.
    pub open spec fn default_spec() -> Limits {
        Limits {
            max_texture_dimension_1d: 8192,
            max_texture_dimension_2d: 8192,
            max_texture_dimension_3d: 2048,
            max_texture_array_layers: 2048,
            max_bind_groups: 4,
            max_dynamic_uniform_buffers_per_pipeline_layout: 8,
            max_dynamic_storage_buffers_per_pipeline_layout: 4,
            max_sampled_textures_per_shader_stage: 16,
            max_samplers_per_shader_stage: 16,
            max_storage_buffers_per_shader_stage: 4,
            max_storage_textures_per_shader_stage: 4,
            max_uniform_buffers_per_shader_stage: 12,
            max_uniform_buffer_binding_size: 16384,
            max_storage_buffer_binding_size: 134217728,
            max_vertex_buffers: 8,
            max_vertex_attributes: 16,
            max_vertex_buffer_array_stride: 2048,
            max_push_constant_size: 0,
        }
    }

    /// The limits that a device is asked for where nothing else is said.
    pub fn standard() -> (limits: Limits)
        ensures
            limits == Self::default_spec(),
    {
        Limits {
            max_texture_dimension_1d: 8192,
            max_texture_dimension_2d: 8192,
            max_texture_dimension_3d: 2048,
            max_texture_array_layers: 2048,
            max_bind_groups: 4,
            max_dynamic_uniform_buffers_per_pipeline_layout: 8,
            max_dynamic_storage_buffers_per_pipeline_layout: 4,
            max_sampled_textures_per_shader_stage: 16,
            max_samplers_per_shader_stage: 16,
            max_storage_buffers_per_shader_stage: 4,
            max_storage_textures_per_shader_stage: 4,
            max_uniform_buffers_per_shader_stage: 12,
            max_uniform_buffer_binding_size: 16384,
            max_storage_buffer_binding_size: 134217728,
            max_vertex_buffers: 8,
            max_vertex_attributes: 16,
            max_vertex_buffer_array_stride: 2048,
            max_push_constant_size: 0,
        }
    }
}

/// The features and limits that are asked of a device.
#[derive(Debug, Clone, Copy, PartialEq, Eq, Structural)]
pub struct Requirements(pub Features, pub Limits);

impl Requirements {
    /// The features of `requirements` join those asked for, and the limits
    /// become the later of the two in the order of limits.
    pub fn add(&mut self, requirements: (Features, Limits))
        ensures
            final(self).0.0 == old(self).0.0 | requirements.0.0,
            final(self).1 == old(self).1.max_spec(requirements.1),
    {
        self.0 = self.0.union(requirements.0);
        self.1 = self.1.max(requirements.1);
    }

    /// The requirements with these features and limits.
    pub fn from_parts(requirements: (Features, Limits)) -> (made: Self)
        ensures
            made.0 == requirements.0,
            made.1 == requirements.1,
    {
        Self(requirements.0, requirements.1)
    }

    /// The features and the limits.
    pub fn into_parts(self) -> (parts: (Features, Limits))
        ensures
            parts.0 == self.0,
            parts.1 == self.1,
    {
        (self.0, self.1)
    }
}

impl Default for Requirements {
    fn default() -> (made: Self)
        ensures
            made.0 == Features(0),
            made.1 == Limits::default_spec(),
    {
        Requirements(Features::empty(), Limits::standard())
    }
}

} // verus!
