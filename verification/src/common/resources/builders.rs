//! Builder helpers used to create resources. A builder holds what its
//! descriptor describes, with the handles of what the descriptor refers to in
//! the place of the identifiers: all that the backend needs to make the
//! object.

use vstd::prelude::*;
use crate::common::backend::AddressMode;
use crate::common::backend::BackendBit;
use crate::common::backend::BindGroupLayoutEntry;
use crate::common::backend::BufferAddress;
use crate::common::backend::BufferUsage;
use crate::common::backend::CompareFunction;
use crate::common::backend::DepthBiasState;
use crate::common::backend::DynamicOffset;
use crate::common::backend::Extent3d;
use crate::common::backend::Features;
use crate::common::backend::FilterMode;
use crate::common::backend::ImageDataLayout;
use crate::common::backend::IndexFormat;
use crate::common::backend::InputStepMode;
use crate::common::backend::Limits;
use crate::common::backend::MultisampleState;
use crate::common::backend::Operations;
use crate::common::backend::Origin3d;
use crate::common::backend::PrimitiveState;
use crate::common::backend::PushConstantRange;
use crate::common::backend::SamplerBorderColor;
use crate::common::backend::ShaderFlags;
use crate::common::backend::ShaderStage;
use crate::common::backend::StencilState;
use crate::common::backend::TargetState;
use crate::common::backend::TextureAspect;
use crate::common::backend::TextureDimension;
use crate::common::backend::TextureFormat;
use crate::common::backend::TextureUsage;
use crate::common::backend::TextureViewDimension;
use crate::common::backend::VertexAttribute;
use crate::common::resources::BindGroupId;
use crate::common::resources::BindGroupLayoutId;
use crate::common::resources::BufferId;
use crate::common::resources::CommandBufferId;
use crate::common::resources::ComputePipelineId;
use crate::common::resources::DeviceId;
use crate::common::resources::InstanceId;
use crate::common::resources::PipelineLayoutId;
use crate::common::resources::RenderPipelineId;
use crate::common::resources::ResourceType;
use crate::common::resources::SamplerId;
use crate::common::resources::ShaderModuleId;
use crate::common::resources::SwapchainId;
use crate::common::resources::TextureId;
use crate::common::resources::TextureViewId;
use crate::common::resources::descriptors::Equivalent;
use crate::common::resources::descriptors::HaveDependencies;
use crate::common::resources::descriptors::Identifier;
use crate::common::resources::descriptors::ResourceDescriptor;
use crate::common::resources::descriptors::all_dependencies;
use crate::common::resources::descriptors::bind_group::BindGroupDescriptor;
use crate::common::resources::descriptors::bind_group::BindGroupEntry;
use crate::common::resources::descriptors::bind_group::BindingResource;
use crate::common::resources::descriptors::bind_group::BufferBinding;
use crate::common::resources::descriptors::bind_group_layout::BindGroupLayoutDescriptor;
use crate::common::resources::descriptors::buffer::BufferDescriptor;
use crate::common::resources::descriptors::command_buffer::BufferToBufferCopy;
use crate::common::resources::descriptors::command_buffer::BufferToTextureCopy;
use crate::common::resources::descriptors::command_buffer::ColorView;
use crate::common::resources::descriptors::command_buffer::Command;
use crate::common::resources::descriptors::command_buffer::CommandBufferDescriptor;
use crate::common::resources::descriptors::command_buffer::ComputeCommand;
use crate::common::resources::descriptors::command_buffer::RenderCommand;
use crate::common::resources::descriptors::command_buffer::RenderPassColorAttachment;
use crate::common::resources::descriptors::command_buffer::Slice;
use crate::common::resources::descriptors::command_buffer::Span;
use crate::common::resources::descriptors::command_buffer::TextureToBufferCopy;
use crate::common::resources::descriptors::command_buffer::TextureToTextureCopy;
use crate::common::resources::descriptors::compute_pipeline::ComputePipelineDescriptor;
use crate::common::resources::descriptors::device::DeviceDescriptor;
use crate::common::resources::descriptors::entities_of;
use crate::common::resources::descriptors::instance::InstanceDescriptor;
use crate::common::resources::descriptors::optional_dependencies;
use crate::common::resources::descriptors::optional_entity;
use crate::common::resources::descriptors::pipeline_layout::PipelineLayoutDescriptor;
use crate::common::resources::descriptors::render_pipeline::ColorTarget;
use crate::common::resources::descriptors::render_pipeline::DepthStencilState;
use crate::common::resources::descriptors::render_pipeline::FragmentState;
use crate::common::resources::descriptors::render_pipeline::RenderPipelineDescriptor;
use crate::common::resources::descriptors::render_pipeline::VertexBufferLayout;
use crate::common::resources::descriptors::render_pipeline::VertexState;
use crate::common::resources::descriptors::sampler::SamplerDescriptor;
use crate::common::resources::descriptors::shader_module::ShaderModuleDescriptor;
use crate::common::resources::descriptors::shader_module::ShaderSource;
use crate::common::resources::descriptors::swapchain::SwapchainDescriptor;
use crate::common::resources::descriptors::texture::TextureDescriptor;
use crate::common::resources::descriptors::texture::TextureSource;
use crate::common::resources::descriptors::texture_view::TextureViewDescriptor;
use crate::common::resources::handles::BindGroupHandle;
use crate::common::resources::handles::BindGroupLayoutHandle;
use crate::common::resources::handles::BufferHandle;
use crate::common::resources::handles::CommandBufferHandle;
use crate::common::resources::handles::ComputePipelineHandle;
use crate::common::resources::handles::DeviceHandle;
use crate::common::resources::handles::InstanceHandle;
use crate::common::resources::handles::PipelineLayoutHandle;
use crate::common::resources::handles::RenderPipelineHandle;
use crate::common::resources::handles::ResourceHandle;
use crate::common::resources::handles::SamplerHandle;
use crate::common::resources::handles::ShaderModuleHandle;
use crate::common::resources::handles::SurfaceHandle;
use crate::common::resources::handles::SwapchainHandle;
use crate::common::resources::handles::TextureHandle;
use crate::common::resources::handles::TextureViewHandle;
use crate::engine::resource_manager::ResourceManager;
use crate::entity_manager::EntityId;

verus! {

/// Possible errors related to resource builders.
#[derive(Debug, Clone, Copy, PartialEq, Eq, Structural)]
pub enum ResourceBuilderError {
    MissingDependencies,
}

/// A copy of `items`.
pub fn copy_items<T: Copy>(items: &Vec<T>) -> (copy: Vec<T>)
    ensures
        copy@ == items@,
{
    let mut copy: Vec<T> = Vec::new();
    let mut i: usize = 0;
    while i < items.len()
        invariant
            i <= items.len(),
            copy@ == items@.take(i as int),
        decreases items.len() - i,
    {
        copy.push(items[i]);
        assert(items@.take(i + 1) =~= items@.take(i as int).push(items@[i as int]));
        i += 1;
    }
    assert(items@.take(items@.len() as int) =~= items@);
    copy
}

/// What is kept of the handle that the backend made for a builder of the
/// kind `kind`: the handle, where it is of that kind.
pub open spec fn kept(kind: ResourceType, made: Option<ResourceHandle>) -> Option<ResourceHandle> {
    match made {
        Some(handle) => if handle.kind_spec() == kind {
            Some(handle)
        } else {
            None
        },
        None => None,
    }
}

/// Builder for an instance of the backend.
#[derive(Debug, Clone)]
pub struct InstanceBuilder {
    pub id: InstanceId,
    pub label: String,
    pub backend: BackendBit,
}

impl InstanceBuilder {
    /// Whatever the builder needs of other resources is there.
    pub open spec fn resolvable(resource_manager: &ResourceManager, descriptor: &InstanceDescriptor) -> bool {
        true
    }

    /// The builder holds what `descriptor` describes, with the handles that the
    /// resource manager has for what it refers to.
    pub open spec fn describes(&self, resource_manager: &ResourceManager, id: InstanceId, descriptor: &InstanceDescriptor) -> bool {
        &&& self.id == id
        &&& self.label@ == descriptor.label@
        &&& self.backend == descriptor.backend
    }

    pub fn new(resource_manager: &ResourceManager, id: InstanceId, descriptor: &InstanceDescriptor) -> (result: Result<
        Self,
        ResourceBuilderError,
    >)
        requires
            resource_manager.wf(),
        ensures
            result is Ok <==> Self::resolvable(resource_manager, descriptor),
            result matches Ok(builder) ==> builder.describes(resource_manager, id, descriptor),
    {
        let label = descriptor.label.clone();
        let backend = descriptor.backend;
        Ok(Self { id, label, backend })
    }

    /// Have `create` make the object that the builder describes, and hand back
    /// the handle that it gives, if it gives one.
    pub fn build<F: FnOnce(&InstanceBuilder) -> Option<InstanceHandle>>(&self, create: F) -> (handle: Option<InstanceHandle>)
        requires
            call_requires(create, (self,)),
        ensures
            call_ensures(create, (self,), handle),
    {
        create(self)
    }
}

/// Builder for a device.
#[derive(Debug, Clone)]
pub struct DeviceBuilder {
    pub id: DeviceId,
    pub label: String,
    pub instance: InstanceHandle,
    pub backend: BackendBit,
    pub pci_id: usize,
    pub features: Features,
    pub limits: Limits,
}

impl DeviceBuilder {
    /// Whatever the builder needs of other resources is there.
    pub open spec fn resolvable(resource_manager: &ResourceManager, descriptor: &DeviceDescriptor) -> bool {
        &&& resource_manager.instance_handle_spec(descriptor.instance) is Some
    }

    /// The builder holds what `descriptor` describes, with the handles that the
    /// resource manager has for what it refers to.
    pub open spec fn describes(&self, resource_manager: &ResourceManager, id: DeviceId, descriptor: &DeviceDescriptor) -> bool {
        &&& self.id == id
        &&& self.label@ == descriptor.label@
        &&& Some(self.instance) == resource_manager.instance_handle_spec(descriptor.instance)
        &&& self.backend == descriptor.backend
        &&& self.pci_id == descriptor.pci_id
        &&& self.features == descriptor.features
        &&& self.limits == descriptor.limits
    }

    pub fn new(resource_manager: &ResourceManager, id: DeviceId, descriptor: &DeviceDescriptor) -> (result: Result<
        Self,
        ResourceBuilderError,
    >)
        requires
            resource_manager.wf(),
        ensures
            result is Ok <==> Self::resolvable(resource_manager, descriptor),
            result matches Ok(builder) ==> builder.describes(resource_manager, id, descriptor),
    {
        let label = descriptor.label.clone();
        let instance = match resource_manager.instance_handle_ref(&descriptor.instance) {
            Some(handle) => *handle,
            None => {
                return Err(ResourceBuilderError::MissingDependencies);
            },
        };
        let backend = descriptor.backend;
        let pci_id = descriptor.pci_id;
        let features = descriptor.features;
        let limits = descriptor.limits;
        Ok(Self { id, label, instance, backend, pci_id, features, limits })
    }

    /// Have `create` make the object that the builder describes, and hand back
    /// the handle that it gives, if it gives one.
    pub fn build<F: FnOnce(&DeviceBuilder) -> Option<DeviceHandle>>(&self, create: F) -> (handle: Option<DeviceHandle>)
        requires
            call_requires(create, (self,)),
        ensures
            call_ensures(create, (self,), handle),
    {
        create(self)
    }
}

/// Builder for a `Swapchain` object.
#[derive(Debug, Clone)]
pub struct SwapchainBuilder {
    pub id: SwapchainId,
    pub label: String,
    pub device: DeviceHandle,
    pub surface: SurfaceHandle,
    pub width: u32,
    pub height: u32,
}

impl SwapchainBuilder {
    /// Whatever the builder needs of other resources is there.
    pub open spec fn resolvable(resource_manager: &ResourceManager, descriptor: &SwapchainDescriptor) -> bool {
        &&& resource_manager.device_handle_spec(descriptor.device) is Some
    }

    /// The builder holds what `descriptor` describes, with the handles that the
    /// resource manager has for what it refers to.
    pub open spec fn describes(&self, resource_manager: &ResourceManager, id: SwapchainId, descriptor: &SwapchainDescriptor) -> bool {
        &&& self.id == id
        &&& self.label@ == descriptor.label@
        &&& Some(self.device) == resource_manager.device_handle_spec(descriptor.device)
        &&& self.surface == descriptor.surface
        &&& self.width == descriptor.width
        &&& self.height == descriptor.height
    }

    pub fn new(resource_manager: &ResourceManager, id: SwapchainId, descriptor: &SwapchainDescriptor) -> (result: Result<
        Self,
        ResourceBuilderError,
    >)
        requires
            resource_manager.wf(),
        ensures
            result is Ok <==> Self::resolvable(resource_manager, descriptor),
            result matches Ok(builder) ==> builder.describes(resource_manager, id, descriptor),
    {
        let label = descriptor.label.clone();
        let device = match resource_manager.device_handle_ref(&descriptor.device) {
            Some(handle) => *handle,
            None => {
                return Err(ResourceBuilderError::MissingDependencies);
            },
        };
        let surface = descriptor.surface;
        let width = descriptor.width;
        let height = descriptor.height;
        Ok(Self { id, label, device, surface, width, height })
    }

    /// Have `create` make the object that the builder describes, and hand back
    /// the handle that it gives, if it gives one.
    pub fn build<F: FnOnce(&SwapchainBuilder) -> Option<SwapchainHandle>>(&self, create: F) -> (handle: Option<SwapchainHandle>)
        requires
            call_requires(create, (self,)),
        ensures
            call_ensures(create, (self,), handle),
    {
        create(self)
    }
}

/// Builder for a buffer.
#[derive(Debug, Clone)]
pub struct BufferBuilder {
    pub id: BufferId,
    pub device: DeviceHandle,
    pub label: String,
    pub size: BufferAddress,
    pub usage: BufferUsage,
}

impl BufferBuilder {
    /// Whatever the builder needs of other resources is there.
    pub open spec fn resolvable(resource_manager: &ResourceManager, descriptor: &BufferDescriptor) -> bool {
        &&& resource_manager.device_handle_spec(descriptor.device) is Some
    }

    /// The builder holds what `descriptor` describes, with the handles that the
    /// resource manager has for what it refers to.
    pub open spec fn describes(&self, resource_manager: &ResourceManager, id: BufferId, descriptor: &BufferDescriptor) -> bool {
        &&& self.id == id
        &&& Some(self.device) == resource_manager.device_handle_spec(descriptor.device)
        &&& self.label@ == descriptor.label@
        &&& self.size == descriptor.size
        &&& self.usage == descriptor.usage
    }

    pub fn new(resource_manager: &ResourceManager, id: BufferId, descriptor: &BufferDescriptor) -> (result: Result<
        Self,
        ResourceBuilderError,
    >)
        requires
            resource_manager.wf(),
        ensures
            result is Ok <==> Self::resolvable(resource_manager, descriptor),
            result matches Ok(builder) ==> builder.describes(resource_manager, id, descriptor),
    {
        let device = match resource_manager.device_handle_ref(&descriptor.device) {
            Some(handle) => *handle,
            None => {
                return Err(ResourceBuilderError::MissingDependencies);
            },
        };
        let label = descriptor.label.clone();
        let size = descriptor.size;
        let usage = descriptor.usage;
        Ok(Self { id, device, label, size, usage })
    }

    /// Have `create` make the object that the builder describes, and hand back
    /// the handle that it gives, if it gives one.
    pub fn build<F: FnOnce(&BufferBuilder) -> Option<BufferHandle>>(&self, create: F) -> (handle: Option<BufferHandle>)
        requires
            call_requires(create, (self,)),
        ensures
            call_ensures(create, (self,), handle),
    {
        create(self)
    }
}

/// Builder for a texture.
#[derive(Debug, Clone)]
pub struct TextureBuilder {
    pub id: TextureId,
    pub device: DeviceHandle,
    pub label: String,
    pub source: TextureSource,
    pub size: Extent3d,
    pub mip_level_count: u32,
    pub sample_count: u32,
    pub dimension: TextureDimension,
    pub format: TextureFormat,
    pub usage: TextureUsage,
}

impl TextureBuilder {
    /// Whatever the builder needs of other resources is there.
    pub open spec fn resolvable(resource_manager: &ResourceManager, descriptor: &TextureDescriptor) -> bool {
        &&& resource_manager.device_handle_spec(descriptor.device) is Some
    }

    /// The builder holds what `descriptor` describes, with the handles that the
    /// resource manager has for what it refers to.
    pub open spec fn describes(&self, resource_manager: &ResourceManager, id: TextureId, descriptor: &TextureDescriptor) -> bool {
        &&& self.id == id
        &&& Some(self.device) == resource_manager.device_handle_spec(descriptor.device)
        &&& self.label@ == descriptor.label@
        &&& self.source == descriptor.source
        &&& self.size == descriptor.size
        &&& self.mip_level_count == descriptor.mip_level_count
        &&& self.sample_count == descriptor.sample_count
        &&& self.dimension == descriptor.dimension
        &&& self.format == descriptor.format
        &&& self.usage == descriptor.usage
    }

    pub fn new(resource_manager: &ResourceManager, id: TextureId, descriptor: &TextureDescriptor) -> (result: Result<
        Self,
        ResourceBuilderError,
    >)
        requires
            resource_manager.wf(),
        ensures
            result is Ok <==> Self::resolvable(resource_manager, descriptor),
            result matches Ok(builder) ==> builder.describes(resource_manager, id, descriptor),
    {
        let device = match resource_manager.device_handle_ref(&descriptor.device) {
            Some(handle) => *handle,
            None => {
                return Err(ResourceBuilderError::MissingDependencies);
            },
        };
        let label = descriptor.label.clone();
        let source = descriptor.source;
        let size = descriptor.size;
        let mip_level_count = descriptor.mip_level_count;
        let sample_count = descriptor.sample_count;
        let dimension = descriptor.dimension;
        let format = descriptor.format;
        let usage = descriptor.usage;
        Ok(Self { id, device, label, source, size, mip_level_count, sample_count, dimension, format, usage })
    }

    /// Have `create` make the object that the builder describes, and hand back
    /// the handle that it gives, if it gives one.
    pub fn build<F: FnOnce(&TextureBuilder) -> Option<TextureHandle>>(&self, create: F) -> (handle: Option<TextureHandle>)
        requires
            call_requires(create, (self,)),
        ensures
            call_ensures(create, (self,), handle),
    {
        create(self)
    }
}

/// Builder for a texture view.
#[derive(Debug, Clone)]
pub struct TextureViewBuilder {
    pub label: String,
    pub texture: TextureHandle,
    pub format: TextureFormat,
    pub dimension: TextureViewDimension,
    pub aspect: TextureAspect,
    pub base_mip_level: u32,
    pub mip_level_count: Option<u32>,
    pub base_array_layer: u32,
    pub array_layer_count: Option<u32>,
}

impl TextureViewBuilder {
    /// Whatever the builder needs of other resources is there.
    pub open spec fn resolvable(resource_manager: &ResourceManager, descriptor: &TextureViewDescriptor) -> bool {
        &&& resource_manager.texture_handle_spec(descriptor.texture) is Some
    }

    /// The builder holds what `descriptor` describes, with the handles that the
    /// resource manager has for what it refers to.
    pub open spec fn describes(&self, resource_manager: &ResourceManager, descriptor: &TextureViewDescriptor) -> bool {
        &&& self.label@ == descriptor.label@
        &&& Some(self.texture) == resource_manager.texture_handle_spec(descriptor.texture)
        &&& self.format == descriptor.format
        &&& self.dimension == descriptor.dimension
        &&& self.aspect == descriptor.aspect
        &&& self.base_mip_level == descriptor.base_mip_level
        &&& self.mip_level_count == descriptor.mip_level_count
        &&& self.base_array_layer == descriptor.base_array_layer
        &&& self.array_layer_count == descriptor.array_layer_count
    }

    pub fn new(resource_manager: &ResourceManager, descriptor: &TextureViewDescriptor) -> (result: Result<
        Self,
        ResourceBuilderError,
    >)
        requires
            resource_manager.wf(),
        ensures
            result is Ok <==> Self::resolvable(resource_manager, descriptor),
            result matches Ok(builder) ==> builder.describes(resource_manager, descriptor),
    {
        let label = descriptor.label.clone();
        let texture = match resource_manager.texture_handle_ref(&descriptor.texture) {
            Some(handle) => *handle,
            None => {
                return Err(ResourceBuilderError::MissingDependencies);
            },
        };
        let format = descriptor.format;
        let dimension = descriptor.dimension;
        let aspect = descriptor.aspect;
        let base_mip_level = descriptor.base_mip_level;
        let mip_level_count = descriptor.mip_level_count;
        let base_array_layer = descriptor.base_array_layer;
        let array_layer_count = descriptor.array_layer_count;
        Ok(Self { label, texture, format, dimension, aspect, base_mip_level, mip_level_count, base_array_layer, array_layer_count })
    }

    /// Have `create` make the object that the builder describes, and hand back
    /// the handle that it gives, if it gives one.
    pub fn build<F: FnOnce(&TextureViewBuilder) -> Option<TextureViewHandle>>(&self, create: F) -> (handle: Option<TextureViewHandle>)
        requires
            call_requires(create, (self,)),
        ensures
            call_ensures(create, (self,), handle),
    {
        create(self)
    }
}

/// Builder for a sampler.
#[derive(Debug, Clone)]
pub struct SamplerBuilder {
    pub id: SamplerId,
    pub device: DeviceHandle,
    pub label: String,
    pub address_mode_u: AddressMode,
    pub address_mode_v: AddressMode,
    pub address_mode_w: AddressMode,
    pub mag_filter: FilterMode,
    pub min_filter: FilterMode,
    pub mipmap_filter: FilterMode,
    pub lod_min_clamp_bits: u32,
    pub lod_max_clamp_bits: u32,
    pub compare: Option<CompareFunction>,
    pub anisotropy_clamp: Option<u8>,
    pub border_color: Option<SamplerBorderColor>,
}

impl SamplerBuilder {
    /// Whatever the builder needs of other resources is there.
    pub open spec fn resolvable(resource_manager: &ResourceManager, descriptor: &SamplerDescriptor) -> bool {
        &&& resource_manager.device_handle_spec(descriptor.device) is Some
    }

    /// The builder holds what `descriptor` describes, with the handles that the
    /// resource manager has for what it refers to.
    pub open spec fn describes(&self, resource_manager: &ResourceManager, id: SamplerId, descriptor: &SamplerDescriptor) -> bool {
        &&& self.id == id
        &&& Some(self.device) == resource_manager.device_handle_spec(descriptor.device)
        &&& self.label@ == descriptor.label@
        &&& self.address_mode_u == descriptor.address_mode_u
        &&& self.address_mode_v == descriptor.address_mode_v
        &&& self.address_mode_w == descriptor.address_mode_w
        &&& self.mag_filter == descriptor.mag_filter
        &&& self.min_filter == descriptor.min_filter
        &&& self.mipmap_filter == descriptor.mipmap_filter
        &&& self.lod_min_clamp_bits == descriptor.lod_min_clamp_bits
        &&& self.lod_max_clamp_bits == descriptor.lod_max_clamp_bits
        &&& self.compare == descriptor.compare
        &&& self.anisotropy_clamp == descriptor.anisotropy_clamp
        &&& self.border_color == descriptor.border_color
    }

    pub fn new(resource_manager: &ResourceManager, id: SamplerId, descriptor: &SamplerDescriptor) -> (result: Result<
        Self,
        ResourceBuilderError,
    >)
        requires
            resource_manager.wf(),
        ensures
            result is Ok <==> Self::resolvable(resource_manager, descriptor),
            result matches Ok(builder) ==> builder.describes(resource_manager, id, descriptor),
    {
        let device = match resource_manager.device_handle_ref(&descriptor.device) {
            Some(handle) => *handle,
            None => {
                return Err(ResourceBuilderError::MissingDependencies);
            },
        };
        let label = descriptor.label.clone();
        let address_mode_u = descriptor.address_mode_u;
        let address_mode_v = descriptor.address_mode_v;
        let address_mode_w = descriptor.address_mode_w;
        let mag_filter = descriptor.mag_filter;
        let min_filter = descriptor.min_filter;
        let mipmap_filter = descriptor.mipmap_filter;
        let lod_min_clamp_bits = descriptor.lod_min_clamp_bits;
        let lod_max_clamp_bits = descriptor.lod_max_clamp_bits;
        let compare = descriptor.compare;
        let anisotropy_clamp = descriptor.anisotropy_clamp;
        let border_color = descriptor.border_color;
        Ok(Self { id, device, label, address_mode_u, address_mode_v, address_mode_w, mag_filter, min_filter, mipmap_filter, lod_min_clamp_bits, lod_max_clamp_bits, compare, anisotropy_clamp, border_color })
    }

    /// Have `create` make the object that the builder describes, and hand back
    /// the handle that it gives, if it gives one.
    pub fn build<F: FnOnce(&SamplerBuilder) -> Option<SamplerHandle>>(&self, create: F) -> (handle: Option<SamplerHandle>)
        requires
            call_requires(create, (self,)),
        ensures
            call_ensures(create, (self,), handle),
    {
        create(self)
    }
}

/// Builder for a shader module.
#[derive(Debug, Clone)]
pub struct ShaderModuleBuilder {
    pub id: ShaderModuleId,
    pub device: DeviceHandle,
    pub label: String,
    pub source: ShaderSource,
    pub flags: ShaderFlags,
}

impl ShaderModuleBuilder {
    /// Whatever the builder needs of other resources is there.
    pub open spec fn resolvable(resource_manager: &ResourceManager, descriptor: &ShaderModuleDescriptor) -> bool {
        resource_manager.device_handle_spec(descriptor.device) is Some
    }

    /// The builder holds what `descriptor` describes, with the handles that the
    /// resource manager has for what it refers to.
    pub open spec fn describes(&self, resource_manager: &ResourceManager, id: ShaderModuleId, descriptor: &ShaderModuleDescriptor) -> bool {
        &&& self.id == id
        &&& Some(self.device) == resource_manager.device_handle_spec(descriptor.device)
        &&& self.label@ == descriptor.label@
        &&& self.source.same(&descriptor.source)
        &&& self.flags == descriptor.flags
    }

    pub fn new(resource_manager: &ResourceManager, id: ShaderModuleId, descriptor: &ShaderModuleDescriptor) -> (result: Result<
        Self,
        ResourceBuilderError,
    >)
        requires
            resource_manager.wf(),
        ensures
            result is Ok <==> Self::resolvable(resource_manager, descriptor),
            result matches Ok(builder) ==> builder.describes(resource_manager, id, descriptor),
    {
        let device = match resource_manager.device_handle_ref(&descriptor.device) {
            Some(handle) => *handle,
            None => {
                return Err(ResourceBuilderError::MissingDependencies);
            },
        };
        let label = descriptor.label.clone();
        let source = match &descriptor.source {
            ShaderSource::SpirV(words) => ShaderSource::SpirV(copy_items(words)),
            ShaderSource::Wgsl(text) => ShaderSource::Wgsl(text.clone()),
        };
        let flags = descriptor.flags;
        Ok(Self { id, device, label, source, flags })
    }

    /// Have `create` make the object that the builder describes, and hand back
    /// the handle that it gives, if it gives one.
    pub fn build<F: FnOnce(&ShaderModuleBuilder) -> Option<ShaderModuleHandle>>(&self, create: F) -> (handle: Option<ShaderModuleHandle>)
        requires
            call_requires(create, (self,)),
        ensures
            call_ensures(create, (self,), handle),
    {
        create(self)
    }
}

/// Builder for a bind group layout.
#[derive(Debug, Clone)]
pub struct BindGroupLayoutBuilder {
    pub id: BindGroupLayoutId,
    pub device: DeviceHandle,
    pub label: String,
    pub entries: Vec<BindGroupLayoutEntry>,
}

impl BindGroupLayoutBuilder {
    /// Whatever the builder needs of other resources is there.
    pub open spec fn resolvable(resource_manager: &ResourceManager, descriptor: &BindGroupLayoutDescriptor) -> bool {
        &&& resource_manager.device_handle_spec(descriptor.device) is Some
    }

    /// The builder holds what `descriptor` describes, with the handles that the
    /// resource manager has for what it refers to.
    pub open spec fn describes(&self, resource_manager: &ResourceManager, id: BindGroupLayoutId, descriptor: &BindGroupLayoutDescriptor) -> bool {
        &&& self.id == id
        &&& Some(self.device) == resource_manager.device_handle_spec(descriptor.device)
        &&& self.label@ == descriptor.label@
        &&& self.entries@ == descriptor.entries@
    }

    pub fn new(resource_manager: &ResourceManager, id: BindGroupLayoutId, descriptor: &BindGroupLayoutDescriptor) -> (result: Result<
        Self,
        ResourceBuilderError,
    >)
        requires
            resource_manager.wf(),
        ensures
            result is Ok <==> Self::resolvable(resource_manager, descriptor),
            result matches Ok(builder) ==> builder.describes(resource_manager, id, descriptor),
    {
        let device = match resource_manager.device_handle_ref(&descriptor.device) {
            Some(handle) => *handle,
            None => {
                return Err(ResourceBuilderError::MissingDependencies);
            },
        };
        let label = descriptor.label.clone();
        let entries = copy_items(&descriptor.entries);
        Ok(Self { id, device, label, entries })
    }

    /// Have `create` make the object that the builder describes, and hand back
    /// the handle that it gives, if it gives one.
    pub fn build<F: FnOnce(&BindGroupLayoutBuilder) -> Option<BindGroupLayoutHandle>>(&self, create: F) -> (handle: Option<BindGroupLayoutHandle>)
        requires
            call_requires(create, (self,)),
        ensures
            call_ensures(create, (self,), handle),
    {
        create(self)
    }
}

/// Builder for a buffer binding.
#[derive(Debug, Clone, Copy)]
pub struct BufferBindingBuilder {
    pub buffer: BufferHandle,
    pub offset: BufferAddress,
    pub size: Option<u64>,
}

impl BufferBindingBuilder {
    /// Whatever the builder needs of other resources is there.
    pub open spec fn resolvable(resource_manager: &ResourceManager, descriptor: &BufferBinding) -> bool {
        &&& resource_manager.buffer_handle_spec(descriptor.buffer) is Some
    }

    /// The builder holds what `descriptor` describes, with the handles that the
    /// resource manager has for what it refers to.
    pub open spec fn describes(&self, resource_manager: &ResourceManager, descriptor: &BufferBinding) -> bool {
        &&& Some(self.buffer) == resource_manager.buffer_handle_spec(descriptor.buffer)
        &&& self.offset == descriptor.offset
        &&& self.size == descriptor.size
    }

    pub fn new(resource_manager: &ResourceManager, descriptor: &BufferBinding) -> (result: Result<
        Self,
        ResourceBuilderError,
    >)
        requires
            resource_manager.wf(),
        ensures
            result is Ok <==> Self::resolvable(resource_manager, descriptor),
            result matches Ok(builder) ==> builder.describes(resource_manager, descriptor),
    {
        let buffer = match resource_manager.buffer_handle_ref(&descriptor.buffer) {
            Some(handle) => *handle,
            None => {
                return Err(ResourceBuilderError::MissingDependencies);
            },
        };
        let offset = descriptor.offset;
        let size = descriptor.size;
        Ok(Self { buffer, offset, size })
    }
}

/// Builder for a binding resource.
#[derive(Debug, Clone)]
pub enum BindingResourceBuilder {
    Buffer(BufferBindingBuilder),
    BufferArray(Vec<BufferBindingBuilder>),
    Sampler(SamplerHandle),
    TextureView(TextureViewHandle),
    TextureViewArray(Vec<TextureViewHandle>),
}

impl BindingResourceBuilder {
    /// Whatever the builder needs of other resources is there.
    pub open spec fn resolvable(resource_manager: &ResourceManager, descriptor: &BindingResource) -> bool {
        match *descriptor {
            BindingResource::Buffer(d_binding) => (BufferBindingBuilder::resolvable(resource_manager, &d_binding)),
            BindingResource::BufferArray(d_bindings) => (forall|i: int| 0 <= i < d_bindings@.len() ==> BufferBindingBuilder::resolvable(resource_manager, &#[trigger] d_bindings@[i])),
            BindingResource::Sampler(d_sampler) => (resource_manager.sampler_handle_spec(d_sampler) is Some),
            BindingResource::TextureView(d_view) => (resource_manager.texture_view_handle_spec(d_view) is Some),
            BindingResource::TextureViewArray(d_views) => (forall|i: int| 0 <= i < d_views@.len() ==> resource_manager.texture_view_handle_spec(#[trigger] d_views@[i]) is Some),
        }
    }

    /// The builder holds what `descriptor` describes, with the handles that the
    /// resource manager has for what it refers to.
    pub open spec fn describes(&self, resource_manager: &ResourceManager, descriptor: &BindingResource) -> bool {
        match (*self, *descriptor) {
            (Self::Buffer(b_binding), BindingResource::Buffer(d_binding)) => {
                &&& b_binding.describes(resource_manager, &d_binding)
            },
            (Self::BufferArray(b_bindings), BindingResource::BufferArray(d_bindings)) => {
                &&& b_bindings@.len() == d_bindings@.len()
                &&& forall|i: int| 0 <= i < d_bindings@.len() ==> (#[trigger] b_bindings@[i]).describes(resource_manager, &d_bindings@[i])
            },
            (Self::Sampler(b_sampler), BindingResource::Sampler(d_sampler)) => {
                &&& Some(b_sampler) == resource_manager.sampler_handle_spec(d_sampler)
            },
            (Self::TextureView(b_view), BindingResource::TextureView(d_view)) => {
                &&& Some(b_view) == resource_manager.texture_view_handle_spec(d_view)
            },
            (Self::TextureViewArray(b_views), BindingResource::TextureViewArray(d_views)) => {
                &&& b_views@.len() == d_views@.len()
                &&& forall|i: int| 0 <= i < d_views@.len() ==> Some(#[trigger] b_views@[i]) == resource_manager.texture_view_handle_spec(d_views@[i])
            },
            _ => false,
        }
    }

    #[verifier::loop_isolation(false)]
    pub fn new(resource_manager: &ResourceManager, descriptor: &BindingResource) -> (result: Result<
        Self,
        ResourceBuilderError,
    >)
        requires
            resource_manager.wf(),
        ensures
            result is Ok <==> Self::resolvable(resource_manager, descriptor),
            result matches Ok(builder) ==> builder.describes(resource_manager, descriptor),
    {
        match descriptor {
            BindingResource::Buffer(binding) => {
                let b_binding = match BufferBindingBuilder::new(resource_manager, binding) {
                    Ok(builder) => builder,
                    Err(error) => {
                        return Err(error);
                    },
                };
                Ok(Self::Buffer(b_binding))
            },
            BindingResource::BufferArray(bindings) => {
                let mut b_bindings: Vec<BufferBindingBuilder> = Vec::new();
                let mut i: usize = 0;
                while i < bindings.len()
                    invariant
                        i <= bindings.len(),
                        b_bindings@.len() == i,
                        forall|j: int|
                            #![trigger b_bindings@[j]]
                            #![trigger bindings@[j]]
                            0 <= j < i ==> BufferBindingBuilder::resolvable(resource_manager, &bindings@[j]) && b_bindings@[j].describes(resource_manager, &bindings@[j]),
                    decreases bindings.len() - i,
                {
                    match BufferBindingBuilder::new(resource_manager, &bindings[i]) {
                        Ok(builder) => {
                            b_bindings.push(builder);
                        },
                        Err(error) => {
                            return Err(error);
                        },
                    }
                    i += 1;
                }
                Ok(Self::BufferArray(b_bindings))
            },
            BindingResource::Sampler(sampler) => {
                let b_sampler = match resource_manager.sampler_handle_ref(sampler) {
                    Some(handle) => *handle,
                    None => {
                        return Err(ResourceBuilderError::MissingDependencies);
                    },
                };
                Ok(Self::Sampler(b_sampler))
            },
            BindingResource::TextureView(view) => {
                let b_view = match resource_manager.texture_view_handle_ref(view) {
                    Some(handle) => *handle,
                    None => {
                        return Err(ResourceBuilderError::MissingDependencies);
                    },
                };
                Ok(Self::TextureView(b_view))
            },
            BindingResource::TextureViewArray(views) => {
                let mut b_views: Vec<TextureViewHandle> = Vec::new();
                let mut i: usize = 0;
                while i < views.len()
                    invariant
                        i <= views.len(),
                        b_views@.len() == i,
                        forall|j: int|
                            #![trigger b_views@[j]]
                            #![trigger views@[j]]
                            0 <= j < i ==> Some(b_views@[j]) == resource_manager.texture_view_handle_spec(views@[j]),
                    decreases views.len() - i,
                {
                    match resource_manager.texture_view_handle_ref(&views[i]) {
                        Some(handle) => {
                            b_views.push(*handle);
                        },
                        None => {
                            return Err(ResourceBuilderError::MissingDependencies);
                        },
                    }
                    i += 1;
                }
                Ok(Self::TextureViewArray(b_views))
            },
        }
    }
}

/// Builder for a bind group entry.
#[derive(Debug, Clone)]
pub struct BindGroupEntryBuilder {
    pub binding: u32,
    pub resource: BindingResourceBuilder,
}

impl BindGroupEntryBuilder {
    /// Whatever the builder needs of other resources is there.
    pub open spec fn resolvable(resource_manager: &ResourceManager, descriptor: &BindGroupEntry) -> bool {
        &&& BindingResourceBuilder::resolvable(resource_manager, &descriptor.resource)
    }

    /// The builder holds what `descriptor` describes, with the handles that the
    /// resource manager has for what it refers to.
    pub open spec fn describes(&self, resource_manager: &ResourceManager, descriptor: &BindGroupEntry) -> bool {
        &&& self.binding == descriptor.binding
        &&& self.resource.describes(resource_manager, &descriptor.resource)
    }

    pub fn new(resource_manager: &ResourceManager, descriptor: &BindGroupEntry) -> (result: Result<
        Self,
        ResourceBuilderError,
    >)
        requires
            resource_manager.wf(),
        ensures
            result is Ok <==> Self::resolvable(resource_manager, descriptor),
            result matches Ok(builder) ==> builder.describes(resource_manager, descriptor),
    {
        let binding = descriptor.binding;
        let resource = match BindingResourceBuilder::new(resource_manager, &descriptor.resource) {
            Ok(builder) => builder,
            Err(error) => {
                return Err(error);
            },
        };
        Ok(Self { binding, resource })
    }
}

/// Builder for a bind group.
#[derive(Debug, Clone)]
pub struct BindGroupBuilder {
    pub id: BindGroupId,
    pub device: DeviceHandle,
    pub label: String,
    pub layout: BindGroupLayoutHandle,
    pub entries: Vec<BindGroupEntryBuilder>,
}

impl BindGroupBuilder {
    /// Whatever the builder needs of other resources is there.
    pub open spec fn resolvable(resource_manager: &ResourceManager, descriptor: &BindGroupDescriptor) -> bool {
        &&& resource_manager.device_handle_spec(descriptor.device) is Some
        &&& resource_manager.bind_group_layout_handle_spec(descriptor.layout) is Some
        &&& forall|i: int| 0 <= i < descriptor.entries@.len() ==> BindGroupEntryBuilder::resolvable(resource_manager, &#[trigger] descriptor.entries@[i])
    }

    /// The builder holds what `descriptor` describes, with the handles that the
    /// resource manager has for what it refers to.
    pub open spec fn describes(&self, resource_manager: &ResourceManager, id: BindGroupId, descriptor: &BindGroupDescriptor) -> bool {
        &&& self.id == id
        &&& Some(self.device) == resource_manager.device_handle_spec(descriptor.device)
        &&& self.label@ == descriptor.label@
        &&& Some(self.layout) == resource_manager.bind_group_layout_handle_spec(descriptor.layout)
        &&& self.entries@.len() == descriptor.entries@.len()
        &&& forall|i: int| 0 <= i < descriptor.entries@.len() ==> (#[trigger] self.entries@[i]).describes(resource_manager, &descriptor.entries@[i])
    }

    #[verifier::loop_isolation(false)]
    pub fn new(resource_manager: &ResourceManager, id: BindGroupId, descriptor: &BindGroupDescriptor) -> (result: Result<
        Self,
        ResourceBuilderError,
    >)
        requires
            resource_manager.wf(),
        ensures
            result is Ok <==> Self::resolvable(resource_manager, descriptor),
            result matches Ok(builder) ==> builder.describes(resource_manager, id, descriptor),
    {
        let device = match resource_manager.device_handle_ref(&descriptor.device) {
            Some(handle) => *handle,
            None => {
                return Err(ResourceBuilderError::MissingDependencies);
            },
        };
        let label = descriptor.label.clone();
        let layout = match resource_manager.bind_group_layout_handle_ref(&descriptor.layout) {
            Some(handle) => *handle,
            None => {
                return Err(ResourceBuilderError::MissingDependencies);
            },
        };
        let mut entries: Vec<BindGroupEntryBuilder> = Vec::new();
        let mut i: usize = 0;
        while i < descriptor.entries.len()
            invariant
                i <= descriptor.entries.len(),
                entries@.len() == i,
                forall|j: int|
                    #![trigger entries@[j]]
                    #![trigger descriptor.entries@[j]]
                    0 <= j < i ==> BindGroupEntryBuilder::resolvable(resource_manager, &descriptor.entries@[j]) && entries@[j].describes(resource_manager, &descriptor.entries@[j]),
            decreases descriptor.entries.len() - i,
        {
            match BindGroupEntryBuilder::new(resource_manager, &descriptor.entries[i]) {
                Ok(builder) => {
                    entries.push(builder);
                },
                Err(error) => {
                    return Err(error);
                },
            }
            i += 1;
        }
        Ok(Self { id, device, label, layout, entries })
    }

    /// Have `create` make the object that the builder describes, and hand back
    /// the handle that it gives, if it gives one.
    pub fn build<F: FnOnce(&BindGroupBuilder) -> Option<BindGroupHandle>>(&self, create: F) -> (handle: Option<BindGroupHandle>)
        requires
            call_requires(create, (self,)),
        ensures
            call_ensures(create, (self,), handle),
    {
        create(self)
    }
}

/// Builder for a pipeline layout.
#[derive(Debug, Clone)]
pub struct PipelineLayoutBuilder {
    pub id: PipelineLayoutId,
    pub device: DeviceHandle,
    pub label: String,
    pub bind_group_layouts: Vec<BindGroupLayoutHandle>,
    pub push_constant_ranges: Vec<PushConstantRange>,
}

impl PipelineLayoutBuilder {
    /// Whatever the builder needs of other resources is there.
    pub open spec fn resolvable(resource_manager: &ResourceManager, descriptor: &PipelineLayoutDescriptor) -> bool {
        &&& resource_manager.device_handle_spec(descriptor.device) is Some
        &&& forall|i: int| 0 <= i < descriptor.bind_group_layouts@.len() ==> resource_manager.bind_group_layout_handle_spec(#[trigger] descriptor.bind_group_layouts@[i]) is Some
    }

    /// The builder holds what `descriptor` describes, with the handles that the
    /// resource manager has for what it refers to.
    pub open spec fn describes(&self, resource_manager: &ResourceManager, id: PipelineLayoutId, descriptor: &PipelineLayoutDescriptor) -> bool {
        &&& self.id == id
        &&& Some(self.device) == resource_manager.device_handle_spec(descriptor.device)
        &&& self.label@ == descriptor.label@
        &&& self.bind_group_layouts@.len() == descriptor.bind_group_layouts@.len()
        &&& forall|i: int| 0 <= i < descriptor.bind_group_layouts@.len() ==> Some(#[trigger] self.bind_group_layouts@[i]) == resource_manager.bind_group_layout_handle_spec(descriptor.bind_group_layouts@[i])
        &&& self.push_constant_ranges@ == descriptor.push_constant_ranges@
    }

    #[verifier::loop_isolation(false)]
    pub fn new(resource_manager: &ResourceManager, id: PipelineLayoutId, descriptor: &PipelineLayoutDescriptor) -> (result: Result<
        Self,
        ResourceBuilderError,
    >)
        requires
            resource_manager.wf(),
        ensures
            result is Ok <==> Self::resolvable(resource_manager, descriptor),
            result matches Ok(builder) ==> builder.describes(resource_manager, id, descriptor),
    {
        let device = match resource_manager.device_handle_ref(&descriptor.device) {
            Some(handle) => *handle,
            None => {
                return Err(ResourceBuilderError::MissingDependencies);
            },
        };
        let label = descriptor.label.clone();
        let mut bind_group_layouts: Vec<BindGroupLayoutHandle> = Vec::new();
        let mut i: usize = 0;
        while i < descriptor.bind_group_layouts.len()
            invariant
                i <= descriptor.bind_group_layouts.len(),
                bind_group_layouts@.len() == i,
                forall|j: int|
                    #![trigger bind_group_layouts@[j]]
                    #![trigger descriptor.bind_group_layouts@[j]]
                    0 <= j < i ==> Some(bind_group_layouts@[j]) == resource_manager.bind_group_layout_handle_spec(descriptor.bind_group_layouts@[j]),
            decreases descriptor.bind_group_layouts.len() - i,
        {
            match resource_manager.bind_group_layout_handle_ref(&descriptor.bind_group_layouts[i]) {
                Some(handle) => {
                    bind_group_layouts.push(*handle);
                },
                None => {
                    return Err(ResourceBuilderError::MissingDependencies);
                },
            }
            i += 1;
        }
        let push_constant_ranges = copy_items(&descriptor.push_constant_ranges);
        Ok(Self { id, device, label, bind_group_layouts, push_constant_ranges })
    }

    /// Have `create` make the object that the builder describes, and hand back
    /// the handle that it gives, if it gives one.
    pub fn build<F: FnOnce(&PipelineLayoutBuilder) -> Option<PipelineLayoutHandle>>(&self, create: F) -> (handle: Option<PipelineLayoutHandle>)
        requires
            call_requires(create, (self,)),
        ensures
            call_ensures(create, (self,), handle),
    {
        create(self)
    }
}

/// Builder for a vertex buffer layout.
#[derive(Debug, Clone)]
pub struct VertexBufferLayoutBuilder {
    pub array_stride: BufferAddress,
    pub step_mode: InputStepMode,
    pub attributes: Vec<VertexAttribute>,
}

impl VertexBufferLayoutBuilder {
    /// The builder holds what `descriptor` describes, with the handles that the
    /// resource manager has for what it refers to.
    pub open spec fn describes(&self, descriptor: &VertexBufferLayout) -> bool {
        &&& self.array_stride == descriptor.array_stride
        &&& self.step_mode == descriptor.step_mode
        &&& self.attributes@ == descriptor.attributes@
    }

    pub fn new(descriptor: &VertexBufferLayout) -> (builder: Self)
        ensures
            builder.describes(descriptor),
    {
        let array_stride = descriptor.array_stride;
        let step_mode = descriptor.step_mode;
        let attributes = copy_items(&descriptor.attributes);
        Self { array_stride, step_mode, attributes }
    }
}

/// The layouts of `buffers`, place by place.
pub fn layout_builders(buffers: &Vec<VertexBufferLayout>) -> (builders: Vec<VertexBufferLayoutBuilder>)
    ensures
        builders@.len() == buffers@.len(),
        forall|i: int|
            0 <= i < buffers@.len() ==> (#[trigger] builders@[i]).describes(&buffers@[i]),
{
    let mut builders: Vec<VertexBufferLayoutBuilder> = Vec::new();
    let mut i: usize = 0;
    while i < buffers.len()
        invariant
            i <= buffers.len(),
            builders@.len() == i,
            forall|j: int| 0 <= j < i ==> (#[trigger] builders@[j]).describes(&buffers@[j]),
        decreases buffers.len() - i,
    {
        builders.push(VertexBufferLayoutBuilder::new(&buffers[i]));
        i += 1;
    }
    builders
}

/// Builder for a vertex state.
#[derive(Debug, Clone)]
pub struct VertexStateBuilder {
    pub module: ShaderModuleHandle,
    pub entry_point: String,
    pub buffers: Vec<VertexBufferLayoutBuilder>,
}

impl VertexStateBuilder {
    /// Whatever the builder needs of other resources is there.
    pub open spec fn resolvable(resource_manager: &ResourceManager, descriptor: &VertexState) -> bool {
        resource_manager.shader_module_handle_spec(descriptor.module) is Some
    }

    /// The builder holds what `descriptor` describes, with the handles that the
    /// resource manager has for what it refers to.
    pub open spec fn describes(&self, resource_manager: &ResourceManager, descriptor: &VertexState) -> bool {
        &&& Some(self.module) == resource_manager.shader_module_handle_spec(descriptor.module)
        &&& self.entry_point@ == descriptor.entry_point@
        &&& self.buffers@.len() == descriptor.buffers@.len()
        &&& forall|i: int|
            0 <= i < descriptor.buffers@.len() ==> (#[trigger] self.buffers@[i]).describes(
                &descriptor.buffers@[i],
            )
    }

    pub fn new(resource_manager: &ResourceManager, descriptor: &VertexState) -> (result: Result<
        Self,
        ResourceBuilderError,
    >)
        requires
            resource_manager.wf(),
        ensures
            result is Ok <==> Self::resolvable(resource_manager, descriptor),
            result matches Ok(builder) ==> builder.describes(resource_manager, descriptor),
    {
        let module = match resource_manager.shader_module_handle_ref(&descriptor.module) {
            Some(handle) => *handle,
            None => {
                return Err(ResourceBuilderError::MissingDependencies);
            },
        };
        let entry_point = descriptor.entry_point.clone();
        let buffers = layout_builders(&descriptor.buffers);
        Ok(Self { module, entry_point, buffers })
    }
}

/// Builder for a fragment state.
#[derive(Debug, Clone)]
pub struct FragmentStateBuilder {
    pub module: ShaderModuleHandle,
    pub entry_point: String,
    pub targets: Vec<TargetState>,
}

impl FragmentStateBuilder {
    /// Whatever the builder needs of other resources is there.
    pub open spec fn resolvable(resource_manager: &ResourceManager, descriptor: &FragmentState) -> bool {
        &&& resource_manager.shader_module_handle_spec(descriptor.module) is Some
    }

    /// The builder holds what `descriptor` describes, with the handles that the
    /// resource manager has for what it refers to.
    pub open spec fn describes(&self, resource_manager: &ResourceManager, descriptor: &FragmentState) -> bool {
        &&& Some(self.module) == resource_manager.shader_module_handle_spec(descriptor.module)
        &&& self.entry_point@ == descriptor.entry_point@
        &&& self.targets@ == descriptor.targets@
    }

    pub fn new(resource_manager: &ResourceManager, descriptor: &FragmentState) -> (result: Result<
        Self,
        ResourceBuilderError,
    >)
        requires
            resource_manager.wf(),
        ensures
            result is Ok <==> Self::resolvable(resource_manager, descriptor),
            result matches Ok(builder) ==> builder.describes(resource_manager, descriptor),
    {
        let module = match resource_manager.shader_module_handle_ref(&descriptor.module) {
            Some(handle) => *handle,
            None => {
                return Err(ResourceBuilderError::MissingDependencies);
            },
        };
        let entry_point = descriptor.entry_point.clone();
        let targets = copy_items(&descriptor.targets);
        Ok(Self { module, entry_point, targets })
    }
}

/// The depth and stencil state of a render pipeline, as the backend takes it:
/// with the format of the view in the place of the view.
#[derive(Debug, Clone, Copy, PartialEq, Eq, Structural)]
pub struct DepthStencil {
    pub format: TextureFormat,
    pub depth_write_enabled: bool,
    pub depth_compare: CompareFunction,
    pub stencil: StencilState,
    pub bias: DepthBiasState,
}

/// The depth and stencil state for `state`, whose view has the format
/// `format`.
pub open spec fn stencil_for(format: TextureFormat, state: DepthStencilState) -> DepthStencil {
    DepthStencil {
        format,
        depth_write_enabled: state.depth_write_enabled,
        depth_compare: state.depth_compare,
        stencil: state.stencil,
        bias: state.bias,
    }
}

/// The swapchain `id` has a handle, and a frame that is being drawn.
pub open spec fn swapchain_in_frame(resource_manager: &ResourceManager, id: SwapchainId) -> bool {
    resource_manager.swapchain_handle_spec(id) matches Some(swapchain)
        && swapchain.frame_spec() is Some
}

/// Builder for a render pipeline.
#[derive(Debug, Clone)]
pub struct RenderPipelineBuilder {
    pub id: RenderPipelineId,
    pub device: DeviceHandle,
    pub label: String,
    pub layout: Option<PipelineLayoutHandle>,
    pub vertex: VertexStateBuilder,
    pub primitive: PrimitiveState,
    pub depth_stencil: Option<DepthStencil>,
    pub multisample: MultisampleState,
    pub fragment: Option<FragmentStateBuilder>,
}

impl RenderPipelineBuilder {
    /// Whatever the builder needs of other resources is there.
    pub open spec fn resolvable(resource_manager: &ResourceManager, descriptor: &RenderPipelineDescriptor) -> bool {
        &&& resource_manager.device_handle_spec(descriptor.device) is Some
        &&& (descriptor.layout matches Some(id) ==> resource_manager.pipeline_layout_handle_spec(id) is Some)
        &&& VertexStateBuilder::resolvable(resource_manager, &descriptor.vertex)
        &&& (descriptor.depth_stencil matches Some(state) ==> resource_manager.texture_view_descriptor_spec(state.id) is Some)
        &&& (descriptor.fragment matches Some(inner) ==> FragmentStateBuilder::resolvable(resource_manager, &inner))
    }

    /// The builder holds what `descriptor` describes, with the handles that the
    /// resource manager has for what it refers to.
    pub open spec fn describes(&self, resource_manager: &ResourceManager, id: RenderPipelineId, descriptor: &RenderPipelineDescriptor) -> bool {
        &&& self.id == id
        &&& Some(self.device) == resource_manager.device_handle_spec(descriptor.device)
        &&& self.label@ == descriptor.label@
        &&& match descriptor.layout {
            Some(id) => self.layout == resource_manager.pipeline_layout_handle_spec(id),
            None => self.layout is None,
        }
        &&& self.vertex.describes(resource_manager, &descriptor.vertex)
        &&& self.primitive == descriptor.primitive
        &&& match descriptor.depth_stencil {
            Some(state) => resource_manager.texture_view_descriptor_spec(state.id) matches Some(view) && self.depth_stencil == Some(stencil_for(view.format, state)),
            None => self.depth_stencil is None,
        }
        &&& self.multisample == descriptor.multisample
        &&& match (self.fragment, descriptor.fragment) {
            (Some(built), Some(inner)) => built.describes(resource_manager, &inner),
            (None, None) => true,
            _ => false,
        }
    }

    pub fn new(resource_manager: &ResourceManager, id: RenderPipelineId, descriptor: &RenderPipelineDescriptor) -> (result: Result<
        Self,
        ResourceBuilderError,
    >)
        requires
            resource_manager.wf(),
        ensures
            result is Ok <==> Self::resolvable(resource_manager, descriptor),
            result matches Ok(builder) ==> builder.describes(resource_manager, id, descriptor),
    {
        let device = match resource_manager.device_handle_ref(&descriptor.device) {
            Some(handle) => *handle,
            None => {
                return Err(ResourceBuilderError::MissingDependencies);
            },
        };
        let label = descriptor.label.clone();
        let layout = match &descriptor.layout {
            Some(id) => match resource_manager.pipeline_layout_handle_ref(id) {
                Some(handle) => Some(*handle),
                None => {
                    return Err(ResourceBuilderError::MissingDependencies);
                },
            },
            None => None,
        };
        let vertex = match VertexStateBuilder::new(resource_manager, &descriptor.vertex) {
            Ok(builder) => builder,
            Err(error) => {
                return Err(error);
            },
        };
        let primitive = descriptor.primitive;
        let depth_stencil = match &descriptor.depth_stencil {
            Some(state) => match resource_manager.texture_view_descriptor_ref(&state.id) {
                Some(view) => Some(
                    DepthStencil {
                        format: view.format,
                        depth_write_enabled: state.depth_write_enabled,
                        depth_compare: state.depth_compare,
                        stencil: state.stencil,
                        bias: state.bias,
                    },
                ),
                None => {
                    return Err(ResourceBuilderError::MissingDependencies);
                },
            },
            None => None,
        };
        let multisample = descriptor.multisample;
        let fragment = match &descriptor.fragment {
            Some(inner) => match FragmentStateBuilder::new(resource_manager, inner) {
                Ok(builder) => Some(builder),
                Err(error) => {
                    return Err(error);
                },
            },
            None => None,
        };
        Ok(Self { id, device, label, layout, vertex, primitive, depth_stencil, multisample, fragment })
    }

    /// Have `create` make the object that the builder describes, and hand back
    /// the handle that it gives, if it gives one.
    pub fn build<F: FnOnce(&RenderPipelineBuilder) -> Option<RenderPipelineHandle>>(&self, create: F) -> (handle: Option<RenderPipelineHandle>)
        requires
            call_requires(create, (self,)),
        ensures
            call_ensures(create, (self,), handle),
    {
        create(self)
    }
}

/// Builder for a compute pipeline.
#[derive(Debug, Clone)]
pub struct ComputePipelineBuilder {
    pub id: ComputePipelineId,
    pub device: DeviceHandle,
    pub label: String,
    pub layout: Option<PipelineLayoutHandle>,
    pub module: ShaderModuleHandle,
    pub entry_point: String,
}

impl ComputePipelineBuilder {
    /// Whatever the builder needs of other resources is there.
    pub open spec fn resolvable(resource_manager: &ResourceManager, descriptor: &ComputePipelineDescriptor) -> bool {
        &&& resource_manager.device_handle_spec(descriptor.device) is Some
        &&& (descriptor.layout matches Some(id) ==> resource_manager.pipeline_layout_handle_spec(id) is Some)
        &&& resource_manager.shader_module_handle_spec(descriptor.module) is Some
    }

    /// The builder holds what `descriptor` describes, with the handles that the
    /// resource manager has for what it refers to.
    pub open spec fn describes(&self, resource_manager: &ResourceManager, id: ComputePipelineId, descriptor: &ComputePipelineDescriptor) -> bool {
        &&& self.id == id
        &&& Some(self.device) == resource_manager.device_handle_spec(descriptor.device)
        &&& self.label@ == descriptor.label@
        &&& match descriptor.layout {
            Some(id) => self.layout == resource_manager.pipeline_layout_handle_spec(id),
            None => self.layout is None,
        }
        &&& Some(self.module) == resource_manager.shader_module_handle_spec(descriptor.module)
        &&& self.entry_point@ == descriptor.entry_point@
    }

    pub fn new(resource_manager: &ResourceManager, id: ComputePipelineId, descriptor: &ComputePipelineDescriptor) -> (result: Result<
        Self,
        ResourceBuilderError,
    >)
        requires
            resource_manager.wf(),
        ensures
            result is Ok <==> Self::resolvable(resource_manager, descriptor),
            result matches Ok(builder) ==> builder.describes(resource_manager, id, descriptor),
    {
        let device = match resource_manager.device_handle_ref(&descriptor.device) {
            Some(handle) => *handle,
            None => {
                return Err(ResourceBuilderError::MissingDependencies);
            },
        };
        let label = descriptor.label.clone();
        let layout = match &descriptor.layout {
            Some(id) => match resource_manager.pipeline_layout_handle_ref(id) {
                Some(handle) => Some(*handle),
                None => {
                    return Err(ResourceBuilderError::MissingDependencies);
                },
            },
            None => None,
        };
        let module = match resource_manager.shader_module_handle_ref(&descriptor.module) {
            Some(handle) => *handle,
            None => {
                return Err(ResourceBuilderError::MissingDependencies);
            },
        };
        let entry_point = descriptor.entry_point.clone();
        Ok(Self { id, device, label, layout, module, entry_point })
    }

    /// Have `create` make the object that the builder describes, and hand back
    /// the handle that it gives, if it gives one.
    pub fn build<F: FnOnce(&ComputePipelineBuilder) -> Option<ComputePipelineHandle>>(&self, create: F) -> (handle: Option<ComputePipelineHandle>)
        requires
            call_requires(create, (self,)),
        ensures
            call_ensures(create, (self,), handle),
    {
        create(self)
    }
}

/// Builder for a compute command.
#[derive(Debug, Clone, Copy)]
pub enum ComputeCommandBuilder {
    Nothing,
}

impl ComputeCommandBuilder {
    /// Whatever the builder needs of other resources is there.
    pub open spec fn resolvable(resource_manager: &ResourceManager, descriptor: &ComputeCommand) -> bool {
        match *descriptor {
            ComputeCommand::Nothing => true,
        }
    }

    /// The builder holds what `descriptor` describes, with the handles that the
    /// resource manager has for what it refers to.
    pub open spec fn describes(&self, resource_manager: &ResourceManager, descriptor: &ComputeCommand) -> bool {
        match (*self, *descriptor) {
            (Self::Nothing, ComputeCommand::Nothing) => {
                true
            },
        }
    }

    pub fn new(resource_manager: &ResourceManager, descriptor: &ComputeCommand) -> (result: Result<
        Self,
        ResourceBuilderError,
    >)
        requires
            resource_manager.wf(),
        ensures
            result is Ok <==> Self::resolvable(resource_manager, descriptor),
            result matches Ok(builder) ==> builder.describes(resource_manager, descriptor),
    {
        match descriptor {
            ComputeCommand::Nothing => {
                Ok(Self::Nothing)
            },
        }
    }
}

/// Builder for a render command.
#[derive(Debug, Clone)]
pub enum RenderCommandBuilder {
    SetPipeline { pipeline: RenderPipelineHandle },
    SetPushConstants { stages: ShaderStage, offset: u32, data: Vec<u8> },
    SetBindGroup { index: u32, bind_group: BindGroupHandle, offsets: Vec<DynamicOffset> },
    SetVertexBuffer { slot: u32, buffer: BufferHandle, slice: Slice },
    SetIndexBuffer { index_format: IndexFormat, buffer: BufferHandle, slice: Slice },
    Draw { vertices: Span, instances: Span },
    DrawIndexed { indices: Span, base_vertex: i32, instances: Span },
}

impl RenderCommandBuilder {
    /// Whatever the builder needs of other resources is there.
    pub open spec fn resolvable(resource_manager: &ResourceManager, descriptor: &RenderCommand) -> bool {
        match *descriptor {
            RenderCommand::SetPipeline { pipeline: d_pipeline, .. } => (resource_manager.render_pipeline_handle_spec(d_pipeline) is Some),
            RenderCommand::SetPushConstants { .. } => true,
            RenderCommand::SetBindGroup { bind_group: d_bind_group, .. } => (resource_manager.bind_group_handle_spec(d_bind_group) is Some),
            RenderCommand::SetVertexBuffer { buffer: d_buffer, .. } => (resource_manager.buffer_handle_spec(d_buffer) is Some),
            RenderCommand::SetIndexBuffer { buffer: d_buffer, .. } => (resource_manager.buffer_handle_spec(d_buffer) is Some),
            RenderCommand::Draw { .. } => true,
            RenderCommand::DrawIndexed { .. } => true,
        }
    }

    /// The builder holds what `descriptor` describes, with the handles that the
    /// resource manager has for what it refers to.
    pub open spec fn describes(&self, resource_manager: &ResourceManager, descriptor: &RenderCommand) -> bool {
        match (*self, *descriptor) {
            (Self::SetPipeline { pipeline: b_pipeline }, RenderCommand::SetPipeline { pipeline: d_pipeline, .. }) => {
                &&& Some(b_pipeline) == resource_manager.render_pipeline_handle_spec(d_pipeline)
            },
            (Self::SetPushConstants { stages: b_stages, offset: b_offset, data: b_data }, RenderCommand::SetPushConstants { stages: d_stages, offset: d_offset, data: d_data, .. }) => {
                &&& b_stages == d_stages
                &&& b_offset == d_offset
                &&& b_data@ == d_data@
            },
            (Self::SetBindGroup { index: b_index, bind_group: b_bind_group, offsets: b_offsets }, RenderCommand::SetBindGroup { index: d_index, bind_group: d_bind_group, offsets: d_offsets, .. }) => {
                &&& b_index == d_index
                &&& Some(b_bind_group) == resource_manager.bind_group_handle_spec(d_bind_group)
                &&& b_offsets@ == d_offsets@
            },
            (Self::SetVertexBuffer { slot: b_slot, buffer: b_buffer, slice: b_slice }, RenderCommand::SetVertexBuffer { slot: d_slot, buffer: d_buffer, slice: d_slice, .. }) => {
                &&& b_slot == d_slot
                &&& Some(b_buffer) == resource_manager.buffer_handle_spec(d_buffer)
                &&& b_slice == d_slice
            },
            (Self::SetIndexBuffer { index_format: b_index_format, buffer: b_buffer, slice: b_slice }, RenderCommand::SetIndexBuffer { index_format: d_index_format, buffer: d_buffer, slice: d_slice, .. }) => {
                &&& b_index_format == d_index_format
                &&& Some(b_buffer) == resource_manager.buffer_handle_spec(d_buffer)
                &&& b_slice == d_slice
            },
            (Self::Draw { vertices: b_vertices, instances: b_instances }, RenderCommand::Draw { vertices: d_vertices, instances: d_instances, .. }) => {
                &&& b_vertices == d_vertices
                &&& b_instances == d_instances
            },
            (Self::DrawIndexed { indices: b_indices, base_vertex: b_base_vertex, instances: b_instances }, RenderCommand::DrawIndexed { indices: d_indices, base_vertex: d_base_vertex, instances: d_instances, .. }) => {
                &&& b_indices == d_indices
                &&& b_base_vertex == d_base_vertex
                &&& b_instances == d_instances
            },
            _ => false,
        }
    }

    pub fn new(resource_manager: &ResourceManager, descriptor: &RenderCommand) -> (result: Result<
        Self,
        ResourceBuilderError,
    >)
        requires
            resource_manager.wf(),
        ensures
            result is Ok <==> Self::resolvable(resource_manager, descriptor),
            result matches Ok(builder) ==> builder.describes(resource_manager, descriptor),
    {
        match descriptor {
            RenderCommand::SetPipeline { pipeline } => {
                let b_pipeline = match resource_manager.render_pipeline_handle_ref(pipeline) {
                    Some(handle) => *handle,
                    None => {
                        return Err(ResourceBuilderError::MissingDependencies);
                    },
                };
                Ok(Self::SetPipeline { pipeline: b_pipeline })
            },
            RenderCommand::SetPushConstants { stages, offset, data } => {
                let b_stages = *stages;
                let b_offset = *offset;
                let b_data = copy_items(data);
                Ok(Self::SetPushConstants { stages: b_stages, offset: b_offset, data: b_data })
            },
            RenderCommand::SetBindGroup { index, bind_group, offsets } => {
                let b_index = *index;
                let b_bind_group = match resource_manager.bind_group_handle_ref(bind_group) {
                    Some(handle) => *handle,
                    None => {
                        return Err(ResourceBuilderError::MissingDependencies);
                    },
                };
                let b_offsets = copy_items(offsets);
                Ok(Self::SetBindGroup { index: b_index, bind_group: b_bind_group, offsets: b_offsets })
            },
            RenderCommand::SetVertexBuffer { slot, buffer, slice } => {
                let b_slot = *slot;
                let b_buffer = match resource_manager.buffer_handle_ref(buffer) {
                    Some(handle) => *handle,
                    None => {
                        return Err(ResourceBuilderError::MissingDependencies);
                    },
                };
                let b_slice = *slice;
                Ok(Self::SetVertexBuffer { slot: b_slot, buffer: b_buffer, slice: b_slice })
            },
            RenderCommand::SetIndexBuffer { index_format, buffer, slice } => {
                let b_index_format = *index_format;
                let b_buffer = match resource_manager.buffer_handle_ref(buffer) {
                    Some(handle) => *handle,
                    None => {
                        return Err(ResourceBuilderError::MissingDependencies);
                    },
                };
                let b_slice = *slice;
                Ok(Self::SetIndexBuffer { index_format: b_index_format, buffer: b_buffer, slice: b_slice })
            },
            RenderCommand::Draw { vertices, instances } => {
                let b_vertices = *vertices;
                let b_instances = *instances;
                Ok(Self::Draw { vertices: b_vertices, instances: b_instances })
            },
            RenderCommand::DrawIndexed { indices, base_vertex, instances } => {
                let b_indices = *indices;
                let b_base_vertex = *base_vertex;
                let b_instances = *instances;
                Ok(Self::DrawIndexed { indices: b_indices, base_vertex: b_base_vertex, instances: b_instances })
            },
        }
    }
}

/// Builder for a texture to buffer copy.
#[derive(Debug, Clone, Copy)]
pub struct TextureToBufferCopyBuilder {
    pub src_texture: TextureHandle,
    pub src_mip_level: u32,
    pub src_origin: Origin3d,
    pub dst_buffer: BufferHandle,
    pub dst_layout: ImageDataLayout,
    pub copy_size: Extent3d,
}

impl TextureToBufferCopyBuilder {
    /// Whatever the builder needs of other resources is there.
    pub open spec fn resolvable(resource_manager: &ResourceManager, descriptor: &TextureToBufferCopy) -> bool {
        &&& resource_manager.texture_handle_spec(descriptor.src_texture) is Some
        &&& resource_manager.buffer_handle_spec(descriptor.dst_buffer) is Some
    }

    /// The builder holds what `descriptor` describes, with the handles that the
    /// resource manager has for what it refers to.
    pub open spec fn describes(&self, resource_manager: &ResourceManager, descriptor: &TextureToBufferCopy) -> bool {
        &&& Some(self.src_texture) == resource_manager.texture_handle_spec(descriptor.src_texture)
        &&& self.src_mip_level == descriptor.src_mip_level
        &&& self.src_origin == descriptor.src_origin
        &&& Some(self.dst_buffer) == resource_manager.buffer_handle_spec(descriptor.dst_buffer)
        &&& self.dst_layout == descriptor.dst_layout
        &&& self.copy_size == descriptor.copy_size
    }

    pub fn new(resource_manager: &ResourceManager, descriptor: &TextureToBufferCopy) -> (result: Result<
        Self,
        ResourceBuilderError,
    >)
        requires
            resource_manager.wf(),
        ensures
            result is Ok <==> Self::resolvable(resource_manager, descriptor),
            result matches Ok(builder) ==> builder.describes(resource_manager, descriptor),
    {
        let src_texture = match resource_manager.texture_handle_ref(&descriptor.src_texture) {
            Some(handle) => *handle,
            None => {
                return Err(ResourceBuilderError::MissingDependencies);
            },
        };
        let src_mip_level = descriptor.src_mip_level;
        let src_origin = descriptor.src_origin;
        let dst_buffer = match resource_manager.buffer_handle_ref(&descriptor.dst_buffer) {
            Some(handle) => *handle,
            None => {
                return Err(ResourceBuilderError::MissingDependencies);
            },
        };
        let dst_layout = descriptor.dst_layout;
        let copy_size = descriptor.copy_size;
        Ok(Self { src_texture, src_mip_level, src_origin, dst_buffer, dst_layout, copy_size })
    }
}

/// Builder for a texture to texture copy.
#[derive(Debug, Clone, Copy)]
pub struct TextureToTextureCopyBuilder {
    pub src_texture: TextureHandle,
    pub src_mip_level: u32,
    pub src_origin: Origin3d,
    pub dst_texture: TextureHandle,
    pub dst_mip_level: u32,
    pub dst_origin: Origin3d,
    pub copy_size: Extent3d,
}

impl TextureToTextureCopyBuilder {
    /// Whatever the builder needs of other resources is there.
    pub open spec fn resolvable(resource_manager: &ResourceManager, descriptor: &TextureToTextureCopy) -> bool {
        &&& resource_manager.texture_handle_spec(descriptor.src_texture) is Some
        &&& resource_manager.texture_handle_spec(descriptor.dst_texture) is Some
    }

    /// The builder holds what `descriptor` describes, with the handles that the
    /// resource manager has for what it refers to.
    pub open spec fn describes(&self, resource_manager: &ResourceManager, descriptor: &TextureToTextureCopy) -> bool {
        &&& Some(self.src_texture) == resource_manager.texture_handle_spec(descriptor.src_texture)
        &&& self.src_mip_level == descriptor.src_mip_level
        &&& self.src_origin == descriptor.src_origin
        &&& Some(self.dst_texture) == resource_manager.texture_handle_spec(descriptor.dst_texture)
        &&& self.dst_mip_level == descriptor.dst_mip_level
        &&& self.dst_origin == descriptor.dst_origin
        &&& self.copy_size == descriptor.copy_size
    }

    pub fn new(resource_manager: &ResourceManager, descriptor: &TextureToTextureCopy) -> (result: Result<
        Self,
        ResourceBuilderError,
    >)
        requires
            resource_manager.wf(),
        ensures
            result is Ok <==> Self::resolvable(resource_manager, descriptor),
            result matches Ok(builder) ==> builder.describes(resource_manager, descriptor),
    {
        let src_texture = match resource_manager.texture_handle_ref(&descriptor.src_texture) {
            Some(handle) => *handle,
            None => {
                return Err(ResourceBuilderError::MissingDependencies);
            },
        };
        let src_mip_level = descriptor.src_mip_level;
        let src_origin = descriptor.src_origin;
        let dst_texture = match resource_manager.texture_handle_ref(&descriptor.dst_texture) {
            Some(handle) => *handle,
            None => {
                return Err(ResourceBuilderError::MissingDependencies);
            },
        };
        let dst_mip_level = descriptor.dst_mip_level;
        let dst_origin = descriptor.dst_origin;
        let copy_size = descriptor.copy_size;
        Ok(Self { src_texture, src_mip_level, src_origin, dst_texture, dst_mip_level, dst_origin, copy_size })
    }
}

/// Builder for a buffer to texture copy.
#[derive(Debug, Clone, Copy)]
pub struct BufferToTextureCopyBuilder {
    pub src_buffer: BufferHandle,
    pub src_layout: ImageDataLayout,
    pub dst_texture: TextureHandle,
    pub dst_mip_level: u32,
    pub dst_origin: Origin3d,
    pub copy_size: Extent3d,
}

impl BufferToTextureCopyBuilder {
    /// Whatever the builder needs of other resources is there.
    pub open spec fn resolvable(resource_manager: &ResourceManager, descriptor: &BufferToTextureCopy) -> bool {
        &&& resource_manager.buffer_handle_spec(descriptor.src_buffer) is Some
        &&& resource_manager.texture_handle_spec(descriptor.dst_texture) is Some
    }

    /// The builder holds what `descriptor` describes, with the handles that the
    /// resource manager has for what it refers to.
    pub open spec fn describes(&self, resource_manager: &ResourceManager, descriptor: &BufferToTextureCopy) -> bool {
        &&& Some(self.src_buffer) == resource_manager.buffer_handle_spec(descriptor.src_buffer)
        &&& self.src_layout == descriptor.src_layout
        &&& Some(self.dst_texture) == resource_manager.texture_handle_spec(descriptor.dst_texture)
        &&& self.dst_mip_level == descriptor.dst_mip_level
        &&& self.dst_origin == descriptor.dst_origin
        &&& self.copy_size == descriptor.copy_size
    }

    pub fn new(resource_manager: &ResourceManager, descriptor: &BufferToTextureCopy) -> (result: Result<
        Self,
        ResourceBuilderError,
    >)
        requires
            resource_manager.wf(),
        ensures
            result is Ok <==> Self::resolvable(resource_manager, descriptor),
            result matches Ok(builder) ==> builder.describes(resource_manager, descriptor),
    {
        let src_buffer = match resource_manager.buffer_handle_ref(&descriptor.src_buffer) {
            Some(handle) => *handle,
            None => {
                return Err(ResourceBuilderError::MissingDependencies);
            },
        };
        let src_layout = descriptor.src_layout;
        let dst_texture = match resource_manager.texture_handle_ref(&descriptor.dst_texture) {
            Some(handle) => *handle,
            None => {
                return Err(ResourceBuilderError::MissingDependencies);
            },
        };
        let dst_mip_level = descriptor.dst_mip_level;
        let dst_origin = descriptor.dst_origin;
        let copy_size = descriptor.copy_size;
        Ok(Self { src_buffer, src_layout, dst_texture, dst_mip_level, dst_origin, copy_size })
    }
}

/// Builder for a buffer to buffer copy.
#[derive(Debug, Clone, Copy)]
pub struct BufferToBufferCopyBuilder {
    pub src_buffer: BufferHandle,
    pub src_offset: BufferAddress,
    pub dst_buffer: BufferHandle,
    pub dst_offset: BufferAddress,
    pub size: BufferAddress,
}

impl BufferToBufferCopyBuilder {
    /// Whatever the builder needs of other resources is there.
    pub open spec fn resolvable(resource_manager: &ResourceManager, descriptor: &BufferToBufferCopy) -> bool {
        &&& resource_manager.buffer_handle_spec(descriptor.src_buffer) is Some
        &&& resource_manager.buffer_handle_spec(descriptor.dst_buffer) is Some
    }

    /// The builder holds what `descriptor` describes, with the handles that the
    /// resource manager has for what it refers to.
    pub open spec fn describes(&self, resource_manager: &ResourceManager, descriptor: &BufferToBufferCopy) -> bool {
        &&& Some(self.src_buffer) == resource_manager.buffer_handle_spec(descriptor.src_buffer)
        &&& self.src_offset == descriptor.src_offset
        &&& Some(self.dst_buffer) == resource_manager.buffer_handle_spec(descriptor.dst_buffer)
        &&& self.dst_offset == descriptor.dst_offset
        &&& self.size == descriptor.size
    }

    pub fn new(resource_manager: &ResourceManager, descriptor: &BufferToBufferCopy) -> (result: Result<
        Self,
        ResourceBuilderError,
    >)
        requires
            resource_manager.wf(),
        ensures
            result is Ok <==> Self::resolvable(resource_manager, descriptor),
            result matches Ok(builder) ==> builder.describes(resource_manager, descriptor),
    {
        let src_buffer = match resource_manager.buffer_handle_ref(&descriptor.src_buffer) {
            Some(handle) => *handle,
            None => {
                return Err(ResourceBuilderError::MissingDependencies);
            },
        };
        let src_offset = descriptor.src_offset;
        let dst_buffer = match resource_manager.buffer_handle_ref(&descriptor.dst_buffer) {
            Some(handle) => *handle,
            None => {
                return Err(ResourceBuilderError::MissingDependencies);
            },
        };
        let dst_offset = descriptor.dst_offset;
        let size = descriptor.size;
        Ok(Self { src_buffer, src_offset, dst_buffer, dst_offset, size })
    }
}

/// Builder for a color view. A swapchain can be drawn to only while it has a
/// frame.
#[derive(Debug, Clone, Copy)]
pub enum ColorViewBuilder {
    TextureView(TextureViewHandle),
    Swapchain(SwapchainHandle),
}

impl ColorViewBuilder {
    /// Whatever the builder needs of other resources is there.
    pub open spec fn resolvable(resource_manager: &ResourceManager, descriptor: &ColorView) -> bool {
        match *descriptor {
            ColorView::TextureView(d_view) => (resource_manager.texture_view_handle_spec(d_view) is Some),
            ColorView::Swapchain(d_swapchain) => (swapchain_in_frame(resource_manager, d_swapchain)),
        }
    }

    /// The builder holds what `descriptor` describes, with the handles that the
    /// resource manager has for what it refers to.
    pub open spec fn describes(&self, resource_manager: &ResourceManager, descriptor: &ColorView) -> bool {
        match (*self, *descriptor) {
            (Self::TextureView(b_view), ColorView::TextureView(d_view)) => {
                &&& Some(b_view) == resource_manager.texture_view_handle_spec(d_view)
            },
            (Self::Swapchain(b_swapchain), ColorView::Swapchain(d_swapchain)) => {
                &&& Some(b_swapchain) == resource_manager.swapchain_handle_spec(d_swapchain)
            },
            _ => false,
        }
    }

    pub fn new(resource_manager: &ResourceManager, descriptor: &ColorView) -> (result: Result<
        Self,
        ResourceBuilderError,
    >)
        requires
            resource_manager.wf(),
        ensures
            result is Ok <==> Self::resolvable(resource_manager, descriptor),
            result matches Ok(builder) ==> builder.describes(resource_manager, descriptor),
    {
        match descriptor {
            ColorView::TextureView(view) => {
                let b_view = match resource_manager.texture_view_handle_ref(view) {
                    Some(handle) => *handle,
                    None => {
                        return Err(ResourceBuilderError::MissingDependencies);
                    },
                };
                Ok(Self::TextureView(b_view))
            },
            ColorView::Swapchain(swapchain) => {
                let b_swapchain = match resource_manager.swapchain_handle_ref(swapchain) {
                    Some(handle) => {
                        if handle.current_frame().is_none() {
                            return Err(ResourceBuilderError::MissingDependencies);
                        }
                        *handle
                    },
                    None => {
                        return Err(ResourceBuilderError::MissingDependencies);
                    },
                };
                Ok(Self::Swapchain(b_swapchain))
            },
        }
    }
}

/// Builder for a color attachment of a render pass.
#[derive(Debug, Clone, Copy)]
pub struct RenderPassColorAttachmentBuilder {
    pub view: ColorViewBuilder,
    pub resolve_target: Option<TextureViewHandle>,
    pub ops: Operations,
}

impl RenderPassColorAttachmentBuilder {
    /// Whatever the builder needs of other resources is there.
    pub open spec fn resolvable(resource_manager: &ResourceManager, descriptor: &RenderPassColorAttachment) -> bool {
        &&& ColorViewBuilder::resolvable(resource_manager, &descriptor.view)
        &&& (descriptor.resolve_target matches Some(id) ==> resource_manager.texture_view_handle_spec(id) is Some)
    }

    /// The builder holds what `descriptor` describes, with the handles that the
    /// resource manager has for what it refers to.
    pub open spec fn describes(&self, resource_manager: &ResourceManager, descriptor: &RenderPassColorAttachment) -> bool {
        &&& self.view.describes(resource_manager, &descriptor.view)
        &&& match descriptor.resolve_target {
            Some(id) => self.resolve_target == resource_manager.texture_view_handle_spec(id),
            None => self.resolve_target is None,
        }
        &&& self.ops == descriptor.ops
    }

    pub fn new(resource_manager: &ResourceManager, descriptor: &RenderPassColorAttachment) -> (result: Result<
        Self,
        ResourceBuilderError,
    >)
        requires
            resource_manager.wf(),
        ensures
            result is Ok <==> Self::resolvable(resource_manager, descriptor),
            result matches Ok(builder) ==> builder.describes(resource_manager, descriptor),
    {
        let view = match ColorViewBuilder::new(resource_manager, &descriptor.view) {
            Ok(builder) => builder,
            Err(error) => {
                return Err(error);
            },
        };
        let resolve_target = match &descriptor.resolve_target {
            Some(id) => match resource_manager.texture_view_handle_ref(id) {
                Some(handle) => Some(*handle),
                None => {
                    return Err(ResourceBuilderError::MissingDependencies);
                },
            },
            None => None,
        };
        let ops = descriptor.ops;
        Ok(Self { view, resolve_target, ops })
    }
}

/// Builder for a color target.
#[derive(Debug, Clone, Copy)]
pub enum ColorTargetBuilder {
    Swapchain(SwapchainHandle),
    TextureView(TextureViewHandle),
}

impl ColorTargetBuilder {
    /// Whatever the builder needs of other resources is there.
    pub open spec fn resolvable(resource_manager: &ResourceManager, descriptor: &ColorTarget) -> bool {
        match *descriptor {
            ColorTarget::Swapchain(d_swapchain) => (resource_manager.swapchain_handle_spec(d_swapchain) is Some),
            ColorTarget::TextureView(d_view) => (resource_manager.texture_view_handle_spec(d_view) is Some),
        }
    }

    /// The builder holds what `descriptor` describes, with the handles that the
    /// resource manager has for what it refers to.
    pub open spec fn describes(&self, resource_manager: &ResourceManager, descriptor: &ColorTarget) -> bool {
        match (*self, *descriptor) {
            (Self::Swapchain(b_swapchain), ColorTarget::Swapchain(d_swapchain)) => {
                &&& Some(b_swapchain) == resource_manager.swapchain_handle_spec(d_swapchain)
            },
            (Self::TextureView(b_view), ColorTarget::TextureView(d_view)) => {
                &&& Some(b_view) == resource_manager.texture_view_handle_spec(d_view)
            },
            _ => false,
        }
    }

    pub fn new(resource_manager: &ResourceManager, descriptor: &ColorTarget) -> (result: Result<
        Self,
        ResourceBuilderError,
    >)
        requires
            resource_manager.wf(),
        ensures
            result is Ok <==> Self::resolvable(resource_manager, descriptor),
            result matches Ok(builder) ==> builder.describes(resource_manager, descriptor),
    {
        match descriptor {
            ColorTarget::Swapchain(swapchain) => {
                let b_swapchain = match resource_manager.swapchain_handle_ref(swapchain) {
                    Some(handle) => *handle,
                    None => {
                        return Err(ResourceBuilderError::MissingDependencies);
                    },
                };
                Ok(Self::Swapchain(b_swapchain))
            },
            ColorTarget::TextureView(view) => {
                let b_view = match resource_manager.texture_view_handle_ref(view) {
                    Some(handle) => *handle,
                    None => {
                        return Err(ResourceBuilderError::MissingDependencies);
                    },
                };
                Ok(Self::TextureView(b_view))
            },
        }
    }
}

/// Builder for a command to be written into a command encoder.
#[derive(Debug, Clone)]
pub enum CommandBuilder {
    BufferToBuffer(BufferToBufferCopyBuilder),
    BufferToTexture(BufferToTextureCopyBuilder),
    TextureToTexture(TextureToTextureCopyBuilder),
    TextureToBuffer(TextureToBufferCopyBuilder),
    ComputePass { commands: Vec<ComputeCommandBuilder> },
    RenderPass { label: String, depth_stencil: Option<TextureViewHandle>, color_attachments: Vec<RenderPassColorAttachmentBuilder>, commands: Vec<RenderCommandBuilder> },
}

impl CommandBuilder {
    /// Whatever the builder needs of other resources is there.
    pub open spec fn resolvable(resource_manager: &ResourceManager, descriptor: &Command) -> bool {
        match *descriptor {
            Command::BufferToBuffer(d_copy) => (BufferToBufferCopyBuilder::resolvable(resource_manager, &d_copy)),
            Command::BufferToTexture(d_copy) => (BufferToTextureCopyBuilder::resolvable(resource_manager, &d_copy)),
            Command::TextureToTexture(d_copy) => (TextureToTextureCopyBuilder::resolvable(resource_manager, &d_copy)),
            Command::TextureToBuffer(d_copy) => (TextureToBufferCopyBuilder::resolvable(resource_manager, &d_copy)),
            Command::ComputePass(d_commands) => (forall|i: int| 0 <= i < d_commands@.len() ==> ComputeCommandBuilder::resolvable(resource_manager, &#[trigger] d_commands@[i])),
            Command::RenderPass { depth_stencil: d_depth_stencil, color_attachments: d_color_attachments, commands: d_commands, .. } => ((d_depth_stencil matches Some(id) ==> resource_manager.texture_view_handle_spec(id) is Some)) && (forall|i: int| 0 <= i < d_color_attachments@.len() ==> RenderPassColorAttachmentBuilder::resolvable(resource_manager, &#[trigger] d_color_attachments@[i])) && (forall|i: int| 0 <= i < d_commands@.len() ==> RenderCommandBuilder::resolvable(resource_manager, &#[trigger] d_commands@[i])),
        }
    }

    /// The builder holds what `descriptor` describes, with the handles that the
    /// resource manager has for what it refers to.
    pub open spec fn describes(&self, resource_manager: &ResourceManager, descriptor: &Command) -> bool {
        match (*self, *descriptor) {
            (Self::BufferToBuffer(b_copy), Command::BufferToBuffer(d_copy)) => {
                &&& b_copy.describes(resource_manager, &d_copy)
            },
            (Self::BufferToTexture(b_copy), Command::BufferToTexture(d_copy)) => {
                &&& b_copy.describes(resource_manager, &d_copy)
            },
            (Self::TextureToTexture(b_copy), Command::TextureToTexture(d_copy)) => {
                &&& b_copy.describes(resource_manager, &d_copy)
            },
            (Self::TextureToBuffer(b_copy), Command::TextureToBuffer(d_copy)) => {
                &&& b_copy.describes(resource_manager, &d_copy)
            },
            (Self::ComputePass { commands: b_commands }, Command::ComputePass(d_commands)) => {
                &&& b_commands@.len() == d_commands@.len()
                &&& forall|i: int| 0 <= i < d_commands@.len() ==> (#[trigger] b_commands@[i]).describes(resource_manager, &d_commands@[i])
            },
            (Self::RenderPass { label: b_label, depth_stencil: b_depth_stencil, color_attachments: b_color_attachments, commands: b_commands }, Command::RenderPass { label: d_label, depth_stencil: d_depth_stencil, color_attachments: d_color_attachments, commands: d_commands, .. }) => {
                &&& b_label@ == d_label@
                &&& match d_depth_stencil {
                    Some(id) => b_depth_stencil == resource_manager.texture_view_handle_spec(id),
                    None => b_depth_stencil is None,
                }
                &&& b_color_attachments@.len() == d_color_attachments@.len()
                &&& forall|i: int| 0 <= i < d_color_attachments@.len() ==> (#[trigger] b_color_attachments@[i]).describes(resource_manager, &d_color_attachments@[i])
                &&& b_commands@.len() == d_commands@.len()
                &&& forall|i: int| 0 <= i < d_commands@.len() ==> (#[trigger] b_commands@[i]).describes(resource_manager, &d_commands@[i])
            },
            _ => false,
        }
    }

    #[verifier::loop_isolation(false)]
    pub fn new(resource_manager: &ResourceManager, descriptor: &Command) -> (result: Result<
        Self,
        ResourceBuilderError,
    >)
        requires
            resource_manager.wf(),
        ensures
            result is Ok <==> Self::resolvable(resource_manager, descriptor),
            result matches Ok(builder) ==> builder.describes(resource_manager, descriptor),
    {
        match descriptor {
            Command::BufferToBuffer(copy) => {
                let b_copy = match BufferToBufferCopyBuilder::new(resource_manager, copy) {
                    Ok(builder) => builder,
                    Err(error) => {
                        return Err(error);
                    },
                };
                Ok(Self::BufferToBuffer(b_copy))
            },
            Command::BufferToTexture(copy) => {
                let b_copy = match BufferToTextureCopyBuilder::new(resource_manager, copy) {
                    Ok(builder) => builder,
                    Err(error) => {
                        return Err(error);
                    },
                };
                Ok(Self::BufferToTexture(b_copy))
            },
            Command::TextureToTexture(copy) => {
                let b_copy = match TextureToTextureCopyBuilder::new(resource_manager, copy) {
                    Ok(builder) => builder,
                    Err(error) => {
                        return Err(error);
                    },
                };
                Ok(Self::TextureToTexture(b_copy))
            },
            Command::TextureToBuffer(copy) => {
                let b_copy = match TextureToBufferCopyBuilder::new(resource_manager, copy) {
                    Ok(builder) => builder,
                    Err(error) => {
                        return Err(error);
                    },
                };
                Ok(Self::TextureToBuffer(b_copy))
            },
            Command::ComputePass(commands) => {
                let mut b_commands: Vec<ComputeCommandBuilder> = Vec::new();
                let mut i: usize = 0;
                while i < commands.len()
                    invariant
                        i <= commands.len(),
                        b_commands@.len() == i,
                        forall|j: int|
                            #![trigger b_commands@[j]]
                            #![trigger commands@[j]]
                            0 <= j < i ==> ComputeCommandBuilder::resolvable(resource_manager, &commands@[j]) && b_commands@[j].describes(resource_manager, &commands@[j]),
                    decreases commands.len() - i,
                {
                    match ComputeCommandBuilder::new(resource_manager, &commands[i]) {
                        Ok(builder) => {
                            b_commands.push(builder);
                        },
                        Err(error) => {
                            return Err(error);
                        },
                    }
                    i += 1;
                }
                Ok(Self::ComputePass { commands: b_commands })
            },
            Command::RenderPass { label, depth_stencil, color_attachments, commands } => {
                let b_label = label.clone();
                let b_depth_stencil = match depth_stencil {
                    Some(id) => match resource_manager.texture_view_handle_ref(id) {
                        Some(handle) => Some(*handle),
                        None => {
                            return Err(ResourceBuilderError::MissingDependencies);
                        },
                    },
                    None => None,
                };
                let mut b_color_attachments: Vec<RenderPassColorAttachmentBuilder> = Vec::new();
                let mut i: usize = 0;
                while i < color_attachments.len()
                    invariant
                        i <= color_attachments.len(),
                        b_color_attachments@.len() == i,
                        forall|j: int|
                            #![trigger b_color_attachments@[j]]
                            #![trigger color_attachments@[j]]
                            0 <= j < i ==> RenderPassColorAttachmentBuilder::resolvable(resource_manager, &color_attachments@[j]) && b_color_attachments@[j].describes(resource_manager, &color_attachments@[j]),
                    decreases color_attachments.len() - i,
                {
                    match RenderPassColorAttachmentBuilder::new(resource_manager, &color_attachments[i]) {
                        Ok(builder) => {
                            b_color_attachments.push(builder);
                        },
                        Err(error) => {
                            return Err(error);
                        },
                    }
                    i += 1;
                }
                let mut b_commands: Vec<RenderCommandBuilder> = Vec::new();
                let mut i: usize = 0;
                while i < commands.len()
                    invariant
                        i <= commands.len(),
                        b_commands@.len() == i,
                        forall|j: int|
                            #![trigger b_commands@[j]]
                            #![trigger commands@[j]]
                            0 <= j < i ==> RenderCommandBuilder::resolvable(resource_manager, &commands@[j]) && b_commands@[j].describes(resource_manager, &commands@[j]),
                    decreases commands.len() - i,
                {
                    match RenderCommandBuilder::new(resource_manager, &commands[i]) {
                        Ok(builder) => {
                            b_commands.push(builder);
                        },
                        Err(error) => {
                            return Err(error);
                        },
                    }
                    i += 1;
                }
                Ok(Self::RenderPass { label: b_label, depth_stencil: b_depth_stencil, color_attachments: b_color_attachments, commands: b_commands })
            },
        }
    }
}

/// Builder for a command buffer.
#[derive(Debug, Clone)]
pub struct CommandBufferBuilder {
    pub id: CommandBufferId,
    pub device: DeviceHandle,
    pub label: String,
    pub commands: Vec<CommandBuilder>,
}

impl CommandBufferBuilder {
    /// Whatever the builder needs of other resources is there.
    pub open spec fn resolvable(resource_manager: &ResourceManager, descriptor: &CommandBufferDescriptor) -> bool {
        &&& resource_manager.device_handle_spec(descriptor.device) is Some
        &&& forall|i: int| 0 <= i < descriptor.commands@.len() ==> CommandBuilder::resolvable(resource_manager, &#[trigger] descriptor.commands@[i])
    }

    /// The builder holds what `descriptor` describes, with the handles that the
    /// resource manager has for what it refers to.
    pub open spec fn describes(&self, resource_manager: &ResourceManager, id: CommandBufferId, descriptor: &CommandBufferDescriptor) -> bool {
        &&& self.id == id
        &&& Some(self.device) == resource_manager.device_handle_spec(descriptor.device)
        &&& self.label@ == descriptor.label@
        &&& self.commands@.len() == descriptor.commands@.len()
        &&& forall|i: int| 0 <= i < descriptor.commands@.len() ==> (#[trigger] self.commands@[i]).describes(resource_manager, &descriptor.commands@[i])
    }

    #[verifier::loop_isolation(false)]
    pub fn new(resource_manager: &ResourceManager, id: CommandBufferId, descriptor: &CommandBufferDescriptor) -> (result: Result<
        Self,
        ResourceBuilderError,
    >)
        requires
            resource_manager.wf(),
        ensures
            result is Ok <==> Self::resolvable(resource_manager, descriptor),
            result matches Ok(builder) ==> builder.describes(resource_manager, id, descriptor),
    {
        let device = match resource_manager.device_handle_ref(&descriptor.device) {
            Some(handle) => *handle,
            None => {
                return Err(ResourceBuilderError::MissingDependencies);
            },
        };
        let label = descriptor.label.clone();
        let mut commands: Vec<CommandBuilder> = Vec::new();
        let mut i: usize = 0;
        while i < descriptor.commands.len()
            invariant
                i <= descriptor.commands.len(),
                commands@.len() == i,
                forall|j: int|
                    #![trigger commands@[j]]
                    #![trigger descriptor.commands@[j]]
                    0 <= j < i ==> CommandBuilder::resolvable(resource_manager, &descriptor.commands@[j]) && commands@[j].describes(resource_manager, &descriptor.commands@[j]),
            decreases descriptor.commands.len() - i,
        {
            match CommandBuilder::new(resource_manager, &descriptor.commands[i]) {
                Ok(builder) => {
                    commands.push(builder);
                },
                Err(error) => {
                    return Err(error);
                },
            }
            i += 1;
        }
        Ok(Self { id, device, label, commands })
    }

    /// Have `create` make the object that the builder describes, and hand back
    /// the handle that it gives, if it gives one.
    pub fn build<F: FnOnce(&CommandBufferBuilder) -> Option<CommandBufferHandle>>(&self, create: F) -> (handle: Option<CommandBufferHandle>)
        requires
            call_requires(create, (self,)),
        ensures
            call_ensures(create, (self,), handle),
    {
        create(self)
    }
}

/// A enum combining all the possible resource builders.
#[derive(Debug, Clone)]
pub enum ResourceBuilder {
    Instance(InstanceBuilder),
    Device(DeviceBuilder),
    Swapchain(SwapchainBuilder),
    Buffer(BufferBuilder),
    Texture(TextureBuilder),
    TextureView(TextureViewBuilder),
    Sampler(SamplerBuilder),
    ShaderModule(ShaderModuleBuilder),
    BindGroupLayout(BindGroupLayoutBuilder),
    BindGroup(BindGroupBuilder),
    PipelineLayout(PipelineLayoutBuilder),
    RenderPipeline(RenderPipelineBuilder),
    ComputePipeline(ComputePipelineBuilder),
    CommandBuffer(CommandBufferBuilder),
}

impl ResourceBuilder {
    /// The kind of resource that is built.
    pub open spec fn kind_spec(&self) -> ResourceType {
        match *self {
            Self::Instance(_) => ResourceType::Instance,
            Self::Device(_) => ResourceType::Device,
            Self::Swapchain(_) => ResourceType::Swapchain,
            Self::Buffer(_) => ResourceType::Buffer,
            Self::Texture(_) => ResourceType::Texture,
            Self::TextureView(_) => ResourceType::TextureView,
            Self::Sampler(_) => ResourceType::Sampler,
            Self::ShaderModule(_) => ResourceType::ShaderModule,
            Self::BindGroupLayout(_) => ResourceType::BindGroupLayout,
            Self::BindGroup(_) => ResourceType::BindGroup,
            Self::PipelineLayout(_) => ResourceType::PipelineLayout,
            Self::RenderPipeline(_) => ResourceType::RenderPipeline,
            Self::ComputePipeline(_) => ResourceType::ComputePipeline,
            Self::CommandBuffer(_) => ResourceType::CommandBuffer,
        }
    }

    /// Whatever a builder for `descriptor` needs of other resources is there.
    pub open spec fn resolvable(resource_manager: &ResourceManager, descriptor: &ResourceDescriptor) -> bool {
        match *descriptor {
            ResourceDescriptor::Instance(descriptor) => InstanceBuilder::resolvable(resource_manager, &descriptor),
            ResourceDescriptor::Device(descriptor) => DeviceBuilder::resolvable(resource_manager, &descriptor),
            ResourceDescriptor::Swapchain(descriptor) => SwapchainBuilder::resolvable(resource_manager, &descriptor),
            ResourceDescriptor::Buffer(descriptor) => BufferBuilder::resolvable(resource_manager, &descriptor),
            ResourceDescriptor::Texture(descriptor) => TextureBuilder::resolvable(resource_manager, &descriptor),
            ResourceDescriptor::TextureView(descriptor) => TextureViewBuilder::resolvable(resource_manager, &descriptor),
            ResourceDescriptor::Sampler(descriptor) => SamplerBuilder::resolvable(resource_manager, &descriptor),
            ResourceDescriptor::ShaderModule(descriptor) => ShaderModuleBuilder::resolvable(resource_manager, &descriptor),
            ResourceDescriptor::BindGroupLayout(descriptor) => BindGroupLayoutBuilder::resolvable(resource_manager, &descriptor),
            ResourceDescriptor::BindGroup(descriptor) => BindGroupBuilder::resolvable(resource_manager, &descriptor),
            ResourceDescriptor::PipelineLayout(descriptor) => PipelineLayoutBuilder::resolvable(resource_manager, &descriptor),
            ResourceDescriptor::RenderPipeline(descriptor) => RenderPipelineBuilder::resolvable(resource_manager, &descriptor),
            ResourceDescriptor::ComputePipeline(descriptor) => ComputePipelineBuilder::resolvable(resource_manager, &descriptor),
            ResourceDescriptor::CommandBuffer(descriptor) => CommandBufferBuilder::resolvable(resource_manager, &descriptor),
        }
    }

    /// The builder holds what `descriptor` describes, for the resource `id`,
    /// with the handles that the resource manager has for what it refers to.
    pub open spec fn describes(&self, resource_manager: &ResourceManager, id: EntityId, descriptor: &ResourceDescriptor) -> bool {
        match (*self, *descriptor) {
            (Self::Instance(builder), ResourceDescriptor::Instance(descriptor)) => builder.describes(
                resource_manager,
                InstanceId(id), &descriptor,
            ),
            (Self::Device(builder), ResourceDescriptor::Device(descriptor)) => builder.describes(
                resource_manager,
                DeviceId(id), &descriptor,
            ),
            (Self::Swapchain(builder), ResourceDescriptor::Swapchain(descriptor)) => builder.describes(
                resource_manager,
                SwapchainId(id), &descriptor,
            ),
            (Self::Buffer(builder), ResourceDescriptor::Buffer(descriptor)) => builder.describes(
                resource_manager,
                BufferId(id), &descriptor,
            ),
            (Self::Texture(builder), ResourceDescriptor::Texture(descriptor)) => builder.describes(
                resource_manager,
                TextureId(id), &descriptor,
            ),
            (Self::TextureView(builder), ResourceDescriptor::TextureView(descriptor)) => builder.describes(
                resource_manager,
                &descriptor,
            ),
            (Self::Sampler(builder), ResourceDescriptor::Sampler(descriptor)) => builder.describes(
                resource_manager,
                SamplerId(id), &descriptor,
            ),
            (Self::ShaderModule(builder), ResourceDescriptor::ShaderModule(descriptor)) => builder.describes(
                resource_manager,
                ShaderModuleId(id), &descriptor,
            ),
            (Self::BindGroupLayout(builder), ResourceDescriptor::BindGroupLayout(descriptor)) => builder.describes(
                resource_manager,
                BindGroupLayoutId(id), &descriptor,
            ),
            (Self::BindGroup(builder), ResourceDescriptor::BindGroup(descriptor)) => builder.describes(
                resource_manager,
                BindGroupId(id), &descriptor,
            ),
            (Self::PipelineLayout(builder), ResourceDescriptor::PipelineLayout(descriptor)) => builder.describes(
                resource_manager,
                PipelineLayoutId(id), &descriptor,
            ),
            (Self::RenderPipeline(builder), ResourceDescriptor::RenderPipeline(descriptor)) => builder.describes(
                resource_manager,
                RenderPipelineId(id), &descriptor,
            ),
            (Self::ComputePipeline(builder), ResourceDescriptor::ComputePipeline(descriptor)) => builder.describes(
                resource_manager,
                ComputePipelineId(id), &descriptor,
            ),
            (Self::CommandBuffer(builder), ResourceDescriptor::CommandBuffer(descriptor)) => builder.describes(
                resource_manager,
                CommandBufferId(id), &descriptor,
            ),
            _ => false,
        }
    }

    /// The builder for the resource `id`, which `descriptor` describes. Fails
    /// where something that it needs of another resource is not there.
    pub fn new(resource_manager: &ResourceManager, id: EntityId, descriptor: &ResourceDescriptor) -> (result: Result<
        Self,
        ResourceBuilderError,
    >)
        requires
            resource_manager.wf(),
        ensures
            result is Ok <==> Self::resolvable(resource_manager, descriptor),
            result matches Ok(builder) ==> builder.describes(resource_manager, id, descriptor)
                && builder.kind_spec() == descriptor.kind_spec(),
            result matches Err(error) ==> error is MissingDependencies,
    {
        match descriptor {
            ResourceDescriptor::Instance(descriptor) => match InstanceBuilder::new(resource_manager, InstanceId::new(id), descriptor) {
                Ok(builder) => Ok(Self::Instance(builder)),
                Err(error) => Err(error),
            },
            ResourceDescriptor::Device(descriptor) => match DeviceBuilder::new(resource_manager, DeviceId::new(id), descriptor) {
                Ok(builder) => Ok(Self::Device(builder)),
                Err(error) => Err(error),
            },
            ResourceDescriptor::Swapchain(descriptor) => match SwapchainBuilder::new(resource_manager, SwapchainId::new(id), descriptor) {
                Ok(builder) => Ok(Self::Swapchain(builder)),
                Err(error) => Err(error),
            },
            ResourceDescriptor::Buffer(descriptor) => match BufferBuilder::new(resource_manager, BufferId::new(id), descriptor) {
                Ok(builder) => Ok(Self::Buffer(builder)),
                Err(error) => Err(error),
            },
            ResourceDescriptor::Texture(descriptor) => match TextureBuilder::new(resource_manager, TextureId::new(id), descriptor) {
                Ok(builder) => Ok(Self::Texture(builder)),
                Err(error) => Err(error),
            },
            ResourceDescriptor::TextureView(descriptor) => match TextureViewBuilder::new(resource_manager, descriptor) {
                Ok(builder) => Ok(Self::TextureView(builder)),
                Err(error) => Err(error),
            },
            ResourceDescriptor::Sampler(descriptor) => match SamplerBuilder::new(resource_manager, SamplerId::new(id), descriptor) {
                Ok(builder) => Ok(Self::Sampler(builder)),
                Err(error) => Err(error),
            },
            ResourceDescriptor::ShaderModule(descriptor) => match ShaderModuleBuilder::new(resource_manager, ShaderModuleId::new(id), descriptor) {
                Ok(builder) => Ok(Self::ShaderModule(builder)),
                Err(error) => Err(error),
            },
            ResourceDescriptor::BindGroupLayout(descriptor) => match BindGroupLayoutBuilder::new(resource_manager, BindGroupLayoutId::new(id), descriptor) {
                Ok(builder) => Ok(Self::BindGroupLayout(builder)),
                Err(error) => Err(error),
            },
            ResourceDescriptor::BindGroup(descriptor) => match BindGroupBuilder::new(resource_manager, BindGroupId::new(id), descriptor) {
                Ok(builder) => Ok(Self::BindGroup(builder)),
                Err(error) => Err(error),
            },
            ResourceDescriptor::PipelineLayout(descriptor) => match PipelineLayoutBuilder::new(resource_manager, PipelineLayoutId::new(id), descriptor) {
                Ok(builder) => Ok(Self::PipelineLayout(builder)),
                Err(error) => Err(error),
            },
            ResourceDescriptor::RenderPipeline(descriptor) => match RenderPipelineBuilder::new(resource_manager, RenderPipelineId::new(id), descriptor) {
                Ok(builder) => Ok(Self::RenderPipeline(builder)),
                Err(error) => Err(error),
            },
            ResourceDescriptor::ComputePipeline(descriptor) => match ComputePipelineBuilder::new(resource_manager, ComputePipelineId::new(id), descriptor) {
                Ok(builder) => Ok(Self::ComputePipeline(builder)),
                Err(error) => Err(error),
            },
            ResourceDescriptor::CommandBuffer(descriptor) => match CommandBufferBuilder::new(resource_manager, CommandBufferId::new(id), descriptor) {
                Ok(builder) => Ok(Self::CommandBuffer(builder)),
                Err(error) => Err(error),
            },
        }
    }

    /// The kind of resource that is built.
    pub fn kind(&self) -> (kind: ResourceType)
        ensures
            kind == self.kind_spec(),
    {
        match self {
            Self::Instance(_) => ResourceType::Instance,
            Self::Device(_) => ResourceType::Device,
            Self::Swapchain(_) => ResourceType::Swapchain,
            Self::Buffer(_) => ResourceType::Buffer,
            Self::Texture(_) => ResourceType::Texture,
            Self::TextureView(_) => ResourceType::TextureView,
            Self::Sampler(_) => ResourceType::Sampler,
            Self::ShaderModule(_) => ResourceType::ShaderModule,
            Self::BindGroupLayout(_) => ResourceType::BindGroupLayout,
            Self::BindGroup(_) => ResourceType::BindGroup,
            Self::PipelineLayout(_) => ResourceType::PipelineLayout,
            Self::RenderPipeline(_) => ResourceType::RenderPipeline,
            Self::ComputePipeline(_) => ResourceType::ComputePipeline,
            Self::CommandBuffer(_) => ResourceType::CommandBuffer,
        }
    }

    /// Have `create` make the object that the builder describes. The handle
    /// that it gives is handed back where it is of the builder's kind.
    pub fn build<F: Fn(&ResourceBuilder) -> Option<ResourceHandle>>(&self, create: &F) -> (handle: Option<
        ResourceHandle,
    >)
        requires
            call_requires(*create, (self,)),
        ensures
            exists|made: Option<ResourceHandle>|
                #[trigger] call_ensures(*create, (self,), made) && handle == kept(self.kind_spec(), made),
    {
        let made = create(self);
        match made {
            Some(handle) => {
                if handle.kind() == self.kind() {
                    Some(handle)
                } else {
                    None
                }
            },
            None => None,
        }
    }
}

/// The two resource managers hold the same descriptors, and the same handles
/// for the entities of `ids`.
pub open spec fn alike_on(first: &ResourceManager, second: &ResourceManager, ids: Seq<EntityId>) -> bool {
    &&& forall|e: EntityId| #[trigger] first.descriptor_of(e) == second.descriptor_of(e)
    &&& forall|i: int|
        0 <= i < ids.len() ==> first.handle_of(#[trigger] ids[i]) == second.handle_of(ids[i])
}

/// What holds on a list of entities holds on its parts.
pub proof fn lemma_alike_parts(
    first: &ResourceManager,
    second: &ResourceManager,
    left: Seq<EntityId>,
    right: Seq<EntityId>,
)
    requires
        alike_on(first, second, left + right),
    ensures
        alike_on(first, second, left),
        alike_on(first, second, right),
{
    let whole = left + right;
    assert forall|i: int| 0 <= i < left.len() implies first.handle_of(#[trigger] left[i])
        == second.handle_of(left[i]) by {
        assert(whole[i] == left[i]);
    }
    assert forall|i: int| 0 <= i < right.len() implies first.handle_of(#[trigger] right[i])
        == second.handle_of(right[i]) by {
        assert(whole[left.len() + i] == right[i]);
    }
}

/// What holds on the dependencies of all the objects holds on those of each.
pub proof fn lemma_alike_item<T: HaveDependencies>(
    first: &ResourceManager,
    second: &ResourceManager,
    items: Seq<T>,
    i: int,
)
    requires
        alike_on(first, second, all_dependencies(items)),
        0 <= i < items.len(),
    ensures
        alike_on(first, second, items[i].dependencies_spec()),
    decreases items.len(),
{
    lemma_alike_parts(first, second, all_dependencies(items.drop_last()), items.last().dependencies_spec());
    if i < items.len() - 1 {
        lemma_alike_item(first, second, items.drop_last(), i);
        assert(items.drop_last()[i] == items[i]);
    }
}

impl InstanceBuilder {
    /// Whether the builder can be made depends on the handles of what the
    /// descriptor depends on, and on the descriptors, alone.
    pub proof fn lemma_resolvable_alike(first: &ResourceManager, second: &ResourceManager, descriptor: &InstanceDescriptor)
        requires
            alike_on(first, second, descriptor.dependencies_spec()),
        ensures
            Self::resolvable(first, descriptor) == Self::resolvable(second, descriptor),
    {
    }
}

impl DeviceBuilder {
    /// Whether the builder can be made depends on the handles of what the
    /// descriptor depends on, and on the descriptors, alone.
    pub proof fn lemma_resolvable_alike(first: &ResourceManager, second: &ResourceManager, descriptor: &DeviceDescriptor)
        requires
            alike_on(first, second, descriptor.dependencies_spec()),
        ensures
            Self::resolvable(first, descriptor) == Self::resolvable(second, descriptor),
    {
        assert(seq![descriptor.instance.0][0] == descriptor.instance.0);
    }
}

impl SwapchainBuilder {
    /// Whether the builder can be made depends on the handles of what the
    /// descriptor depends on, and on the descriptors, alone.
    pub proof fn lemma_resolvable_alike(first: &ResourceManager, second: &ResourceManager, descriptor: &SwapchainDescriptor)
        requires
            alike_on(first, second, descriptor.dependencies_spec()),
        ensures
            Self::resolvable(first, descriptor) == Self::resolvable(second, descriptor),
    {
        assert(seq![descriptor.device.0][0] == descriptor.device.0);
    }
}

impl BufferBuilder {
    /// Whether the builder can be made depends on the handles of what the
    /// descriptor depends on, and on the descriptors, alone.
    pub proof fn lemma_resolvable_alike(first: &ResourceManager, second: &ResourceManager, descriptor: &BufferDescriptor)
        requires
            alike_on(first, second, descriptor.dependencies_spec()),
        ensures
            Self::resolvable(first, descriptor) == Self::resolvable(second, descriptor),
    {
        assert(seq![descriptor.device.0][0] == descriptor.device.0);
    }
}

impl TextureBuilder {
    /// Whether the builder can be made depends on the handles of what the
    /// descriptor depends on, and on the descriptors, alone.
    pub proof fn lemma_resolvable_alike(first: &ResourceManager, second: &ResourceManager, descriptor: &TextureDescriptor)
        requires
            alike_on(first, second, descriptor.dependencies_spec()),
        ensures
            Self::resolvable(first, descriptor) == Self::resolvable(second, descriptor),
    {
        assert(seq![descriptor.device.0][0] == descriptor.device.0);
    }
}

impl SamplerBuilder {
    /// Whether the builder can be made depends on the handles of what the
    /// descriptor depends on, and on the descriptors, alone.
    pub proof fn lemma_resolvable_alike(first: &ResourceManager, second: &ResourceManager, descriptor: &SamplerDescriptor)
        requires
            alike_on(first, second, descriptor.dependencies_spec()),
        ensures
            Self::resolvable(first, descriptor) == Self::resolvable(second, descriptor),
    {
        assert(seq![descriptor.device.0][0] == descriptor.device.0);
    }
}

impl ShaderModuleBuilder {
    /// Whether the builder can be made depends on the handles of what the
    /// descriptor depends on, and on the descriptors, alone.
    pub proof fn lemma_resolvable_alike(first: &ResourceManager, second: &ResourceManager, descriptor: &ShaderModuleDescriptor)
        requires
            alike_on(first, second, descriptor.dependencies_spec()),
        ensures
            Self::resolvable(first, descriptor) == Self::resolvable(second, descriptor),
    {
        assert(seq![descriptor.device.0][0] == descriptor.device.0);
    }
}

impl BindGroupLayoutBuilder {
    /// Whether the builder can be made depends on the handles of what the
    /// descriptor depends on, and on the descriptors, alone.
    pub proof fn lemma_resolvable_alike(first: &ResourceManager, second: &ResourceManager, descriptor: &BindGroupLayoutDescriptor)
        requires
            alike_on(first, second, descriptor.dependencies_spec()),
        ensures
            Self::resolvable(first, descriptor) == Self::resolvable(second, descriptor),
    {
        assert(seq![descriptor.device.0][0] == descriptor.device.0);
    }
}

impl TextureViewBuilder {
    /// Whether the builder can be made depends on the handles of what the
    /// descriptor depends on, and on the descriptors, alone.
    pub proof fn lemma_resolvable_alike(first: &ResourceManager, second: &ResourceManager, descriptor: &TextureViewDescriptor)
        requires
            alike_on(first, second, descriptor.dependencies_spec()),
        ensures
            Self::resolvable(first, descriptor) == Self::resolvable(second, descriptor),
    {
        lemma_alike_parts(first, second, seq![descriptor.device.0], seq![descriptor.texture.0]);
        assert(seq![descriptor.device.0][0] == descriptor.device.0);
        assert(seq![descriptor.texture.0][0] == descriptor.texture.0);
    }
}

impl BufferBindingBuilder {
    /// Whether the builder can be made depends on the handles of what the
    /// descriptor depends on, and on the descriptors, alone.
    pub proof fn lemma_resolvable_alike(first: &ResourceManager, second: &ResourceManager, descriptor: &BufferBinding)
        requires
            alike_on(first, second, descriptor.dependencies_spec()),
        ensures
            Self::resolvable(first, descriptor) == Self::resolvable(second, descriptor),
    {
        assert(seq![descriptor.buffer.0][0] == descriptor.buffer.0);
    }
}

impl BindingResourceBuilder {
    /// Whether the builder can be made depends on the handles of what the
    /// descriptor depends on, and on the descriptors, alone.
    pub proof fn lemma_resolvable_alike(first: &ResourceManager, second: &ResourceManager, descriptor: &BindingResource)
        requires
            alike_on(first, second, descriptor.dependencies_spec()),
        ensures
            Self::resolvable(first, descriptor) == Self::resolvable(second, descriptor),
    {
        match *descriptor {
            BindingResource::Buffer(binding) => {
                BufferBindingBuilder::lemma_resolvable_alike(first, second, &binding);
            },
            BindingResource::BufferArray(bindings) => {
                assert forall|i: int| 0 <= i < bindings@.len() implies BufferBindingBuilder::resolvable(
                    first,
                    &#[trigger] bindings@[i],
                ) == BufferBindingBuilder::resolvable(second, &bindings@[i]) by {
                    lemma_alike_item(first, second, bindings@, i);
                    BufferBindingBuilder::lemma_resolvable_alike(first, second, &bindings@[i]);
                }
            },
            BindingResource::Sampler(sampler) => {
                assert(seq![sampler.0][0] == sampler.0);
            },
            BindingResource::TextureView(view) => {
                assert(seq![view.0][0] == view.0);
            },
            BindingResource::TextureViewArray(views) => {
                assert forall|i: int| 0 <= i < views@.len() implies first.handle_of(
                    (#[trigger] views@[i]).0,
                ) == second.handle_of(views@[i].0) by {
                    assert(entities_of(views@)[i] == views@[i].entity());
                }
            },
        }
    }
}

impl BindGroupEntryBuilder {
    /// Whether the builder can be made depends on the handles of what the
    /// descriptor depends on, and on the descriptors, alone.
    pub proof fn lemma_resolvable_alike(first: &ResourceManager, second: &ResourceManager, descriptor: &BindGroupEntry)
        requires
            alike_on(first, second, descriptor.dependencies_spec()),
        ensures
            Self::resolvable(first, descriptor) == Self::resolvable(second, descriptor),
    {
        BindingResourceBuilder::lemma_resolvable_alike(first, second, &descriptor.resource);
    }
}

impl BindGroupBuilder {
    /// Whether the builder can be made depends on the handles of what the
    /// descriptor depends on, and on the descriptors, alone.
    pub proof fn lemma_resolvable_alike(first: &ResourceManager, second: &ResourceManager, descriptor: &BindGroupDescriptor)
        requires
            alike_on(first, second, descriptor.dependencies_spec()),
        ensures
            Self::resolvable(first, descriptor) == Self::resolvable(second, descriptor),
    {
        lemma_alike_parts(first, second, seq![descriptor.device.0] + seq![descriptor.layout.0], all_dependencies(descriptor.entries@));
        lemma_alike_parts(first, second, seq![descriptor.device.0], seq![descriptor.layout.0]);
        assert(seq![descriptor.device.0][0] == descriptor.device.0);
        assert(seq![descriptor.layout.0][0] == descriptor.layout.0);
        assert forall|i: int| 0 <= i < descriptor.entries@.len() implies BindGroupEntryBuilder::resolvable(
            first,
            &#[trigger] descriptor.entries@[i],
        ) == BindGroupEntryBuilder::resolvable(second, &descriptor.entries@[i]) by {
            lemma_alike_item(first, second, descriptor.entries@, i);
            BindGroupEntryBuilder::lemma_resolvable_alike(first, second, &descriptor.entries@[i]);
        }
    }
}

impl PipelineLayoutBuilder {
    /// Whether the builder can be made depends on the handles of what the
    /// descriptor depends on, and on the descriptors, alone.
    pub proof fn lemma_resolvable_alike(first: &ResourceManager, second: &ResourceManager, descriptor: &PipelineLayoutDescriptor)
        requires
            alike_on(first, second, descriptor.dependencies_spec()),
        ensures
            Self::resolvable(first, descriptor) == Self::resolvable(second, descriptor),
    {
        lemma_alike_parts(first, second, seq![descriptor.device.0], entities_of(descriptor.bind_group_layouts@));
        assert(seq![descriptor.device.0][0] == descriptor.device.0);
        assert forall|i: int| 0 <= i < descriptor.bind_group_layouts@.len() implies first.handle_of(
            (#[trigger] descriptor.bind_group_layouts@[i]).0,
        ) == second.handle_of(descriptor.bind_group_layouts@[i].0) by {
            assert(entities_of(descriptor.bind_group_layouts@)[i] == descriptor.bind_group_layouts@[i].entity());
        }
    }
}

impl VertexStateBuilder {
    /// Whether the builder can be made depends on the handles of what the
    /// descriptor depends on, and on the descriptors, alone.
    pub proof fn lemma_resolvable_alike(first: &ResourceManager, second: &ResourceManager, descriptor: &VertexState)
        requires
            alike_on(first, second, descriptor.dependencies_spec()),
        ensures
            Self::resolvable(first, descriptor) == Self::resolvable(second, descriptor),
    {
        assert(seq![descriptor.module.0][0] == descriptor.module.0);
    }
}

impl FragmentStateBuilder {
    /// Whether the builder can be made depends on the handles of what the
    /// descriptor depends on, and on the descriptors, alone.
    pub proof fn lemma_resolvable_alike(first: &ResourceManager, second: &ResourceManager, descriptor: &FragmentState)
        requires
            alike_on(first, second, descriptor.dependencies_spec()),
        ensures
            Self::resolvable(first, descriptor) == Self::resolvable(second, descriptor),
    {
        assert(seq![descriptor.module.0][0] == descriptor.module.0);
    }
}

impl RenderPipelineBuilder {
    /// Whether the builder can be made depends on the handles of what the
    /// descriptor depends on, and on the descriptors, alone.
    pub proof fn lemma_resolvable_alike(first: &ResourceManager, second: &ResourceManager, descriptor: &RenderPipelineDescriptor)
        requires
            alike_on(first, second, descriptor.dependencies_spec()),
        ensures
            Self::resolvable(first, descriptor) == Self::resolvable(second, descriptor),
    {
        lemma_alike_parts(first, second, seq![descriptor.device.0] + optional_entity(descriptor.layout) + descriptor.vertex.dependencies_spec(), optional_dependencies(descriptor.fragment));
        lemma_alike_parts(first, second, seq![descriptor.device.0] + optional_entity(descriptor.layout), descriptor.vertex.dependencies_spec());
        lemma_alike_parts(first, second, seq![descriptor.device.0], optional_entity(descriptor.layout));
        assert(seq![descriptor.device.0][0] == descriptor.device.0);
        if let Some(id) = descriptor.layout {
            assert(optional_entity(descriptor.layout)[0] == id.entity());
        }
        VertexStateBuilder::lemma_resolvable_alike(first, second, &descriptor.vertex);
        if let Some(inner) = descriptor.fragment {
            FragmentStateBuilder::lemma_resolvable_alike(first, second, &inner);
        }
    }
}

impl ComputePipelineBuilder {
    /// Whether the builder can be made depends on the handles of what the
    /// descriptor depends on, and on the descriptors, alone.
    pub proof fn lemma_resolvable_alike(first: &ResourceManager, second: &ResourceManager, descriptor: &ComputePipelineDescriptor)
        requires
            alike_on(first, second, descriptor.dependencies_spec()),
        ensures
            Self::resolvable(first, descriptor) == Self::resolvable(second, descriptor),
    {
        lemma_alike_parts(first, second, seq![descriptor.device.0] + optional_entity(descriptor.layout), seq![descriptor.module.0]);
        lemma_alike_parts(first, second, seq![descriptor.device.0], optional_entity(descriptor.layout));
        assert(seq![descriptor.device.0][0] == descriptor.device.0);
        if let Some(id) = descriptor.layout {
            assert(optional_entity(descriptor.layout)[0] == id.entity());
        }
        assert(seq![descriptor.module.0][0] == descriptor.module.0);
    }
}

impl ComputeCommandBuilder {
    /// Whether the builder can be made depends on the handles of what the
    /// descriptor depends on, and on the descriptors, alone.
    pub proof fn lemma_resolvable_alike(first: &ResourceManager, second: &ResourceManager, descriptor: &ComputeCommand)
        requires
            alike_on(first, second, descriptor.dependencies_spec()),
        ensures
            Self::resolvable(first, descriptor) == Self::resolvable(second, descriptor),
    {
        match *descriptor {
            ComputeCommand::Nothing => {},
        }
    }
}

impl RenderCommandBuilder {
    /// Whether the builder can be made depends on the handles of what the
    /// descriptor depends on, and on the descriptors, alone.
    pub proof fn lemma_resolvable_alike(first: &ResourceManager, second: &ResourceManager, descriptor: &RenderCommand)
        requires
            alike_on(first, second, descriptor.dependencies_spec()),
        ensures
            Self::resolvable(first, descriptor) == Self::resolvable(second, descriptor),
    {
        match *descriptor {
            RenderCommand::SetPipeline { pipeline } => {
                assert(seq![pipeline.0][0] == pipeline.0);
            },
            RenderCommand::SetPushConstants { .. } => {},
            RenderCommand::SetBindGroup { bind_group, .. } => {
                assert(seq![bind_group.0][0] == bind_group.0);
            },
            RenderCommand::SetVertexBuffer { buffer, .. } => {
                assert(seq![buffer.0][0] == buffer.0);
            },
            RenderCommand::SetIndexBuffer { buffer, .. } => {
                assert(seq![buffer.0][0] == buffer.0);
            },
            RenderCommand::Draw { .. } => {},
            RenderCommand::DrawIndexed { .. } => {},
        }
    }
}

impl TextureToBufferCopyBuilder {
    /// Whether the builder can be made depends on the handles of what the
    /// descriptor depends on, and on the descriptors, alone.
    pub proof fn lemma_resolvable_alike(first: &ResourceManager, second: &ResourceManager, descriptor: &TextureToBufferCopy)
        requires
            alike_on(first, second, descriptor.dependencies_spec()),
        ensures
            Self::resolvable(first, descriptor) == Self::resolvable(second, descriptor),
    {
        lemma_alike_parts(first, second, seq![descriptor.src_texture.0], seq![descriptor.dst_buffer.0]);
        assert(seq![descriptor.src_texture.0][0] == descriptor.src_texture.0);
        assert(seq![descriptor.dst_buffer.0][0] == descriptor.dst_buffer.0);
    }
}

impl TextureToTextureCopyBuilder {
    /// Whether the builder can be made depends on the handles of what the
    /// descriptor depends on, and on the descriptors, alone.
    pub proof fn lemma_resolvable_alike(first: &ResourceManager, second: &ResourceManager, descriptor: &TextureToTextureCopy)
        requires
            alike_on(first, second, descriptor.dependencies_spec()),
        ensures
            Self::resolvable(first, descriptor) == Self::resolvable(second, descriptor),
    {
        lemma_alike_parts(first, second, seq![descriptor.src_texture.0], seq![descriptor.dst_texture.0]);
        assert(seq![descriptor.src_texture.0][0] == descriptor.src_texture.0);
        assert(seq![descriptor.dst_texture.0][0] == descriptor.dst_texture.0);
    }
}

impl BufferToTextureCopyBuilder {
    /// Whether the builder can be made depends on the handles of what the
    /// descriptor depends on, and on the descriptors, alone.
    pub proof fn lemma_resolvable_alike(first: &ResourceManager, second: &ResourceManager, descriptor: &BufferToTextureCopy)
        requires
            alike_on(first, second, descriptor.dependencies_spec()),
        ensures
            Self::resolvable(first, descriptor) == Self::resolvable(second, descriptor),
    {
        lemma_alike_parts(first, second, seq![descriptor.src_buffer.0], seq![descriptor.dst_texture.0]);
        assert(seq![descriptor.src_buffer.0][0] == descriptor.src_buffer.0);
        assert(seq![descriptor.dst_texture.0][0] == descriptor.dst_texture.0);
    }
}

impl BufferToBufferCopyBuilder {
    /// Whether the builder can be made depends on the handles of what the
    /// descriptor depends on, and on the descriptors, alone.
    pub proof fn lemma_resolvable_alike(first: &ResourceManager, second: &ResourceManager, descriptor: &BufferToBufferCopy)
        requires
            alike_on(first, second, descriptor.dependencies_spec()),
        ensures
            Self::resolvable(first, descriptor) == Self::resolvable(second, descriptor),
    {
        lemma_alike_parts(first, second, seq![descriptor.src_buffer.0], seq![descriptor.dst_buffer.0]);
        assert(seq![descriptor.src_buffer.0][0] == descriptor.src_buffer.0);
        assert(seq![descriptor.dst_buffer.0][0] == descriptor.dst_buffer.0);
    }
}

impl ColorViewBuilder {
    /// Whether the builder can be made depends on the handles of what the
    /// descriptor depends on, and on the descriptors, alone.
    pub proof fn lemma_resolvable_alike(first: &ResourceManager, second: &ResourceManager, descriptor: &ColorView)
        requires
            alike_on(first, second, descriptor.dependencies_spec()),
        ensures
            Self::resolvable(first, descriptor) == Self::resolvable(second, descriptor),
    {
        match *descriptor {
            ColorView::TextureView(view) => {
                assert(seq![view.0][0] == view.0);
            },
            ColorView::Swapchain(swapchain) => {
                assert(seq![swapchain.0][0] == swapchain.0);
            },
        }
    }
}

impl RenderPassColorAttachmentBuilder {
    /// Whether the builder can be made depends on the handles of what the
    /// descriptor depends on, and on the descriptors, alone.
    pub proof fn lemma_resolvable_alike(first: &ResourceManager, second: &ResourceManager, descriptor: &RenderPassColorAttachment)
        requires
            alike_on(first, second, descriptor.dependencies_spec()),
        ensures
            Self::resolvable(first, descriptor) == Self::resolvable(second, descriptor),
    {
        lemma_alike_parts(first, second, descriptor.view.dependencies_spec(), optional_entity(descriptor.resolve_target));
        ColorViewBuilder::lemma_resolvable_alike(first, second, &descriptor.view);
        if let Some(id) = descriptor.resolve_target {
            assert(optional_entity(descriptor.resolve_target)[0] == id.entity());
        }
    }
}

impl ColorTargetBuilder {
    /// Whether the builder can be made depends on the handles of what the
    /// descriptor depends on, and on the descriptors, alone.
    pub proof fn lemma_resolvable_alike(first: &ResourceManager, second: &ResourceManager, descriptor: &ColorTarget)
        requires
            alike_on(first, second, descriptor.dependencies_spec()),
        ensures
            Self::resolvable(first, descriptor) == Self::resolvable(second, descriptor),
    {
        match *descriptor {
            ColorTarget::Swapchain(swapchain) => {
                assert(seq![swapchain.0][0] == swapchain.0);
            },
            ColorTarget::TextureView(view) => {
                assert(seq![view.0][0] == view.0);
            },
        }
    }
}

impl CommandBuilder {
    /// Whether the builder can be made depends on the handles of what the
    /// descriptor depends on, and on the descriptors, alone.
    pub proof fn lemma_resolvable_alike(first: &ResourceManager, second: &ResourceManager, descriptor: &Command)
        requires
            alike_on(first, second, descriptor.dependencies_spec()),
        ensures
            Self::resolvable(first, descriptor) == Self::resolvable(second, descriptor),
    {
        match *descriptor {
            Command::BufferToBuffer(copy) => {
                BufferToBufferCopyBuilder::lemma_resolvable_alike(first, second, &copy);
            },
            Command::BufferToTexture(copy) => {
                BufferToTextureCopyBuilder::lemma_resolvable_alike(first, second, &copy);
            },
            Command::TextureToTexture(copy) => {
                TextureToTextureCopyBuilder::lemma_resolvable_alike(first, second, &copy);
            },
            Command::TextureToBuffer(copy) => {
                TextureToBufferCopyBuilder::lemma_resolvable_alike(first, second, &copy);
            },
            Command::ComputePass(commands) => {
                assert forall|i: int| 0 <= i < commands@.len() implies ComputeCommandBuilder::resolvable(
                    first,
                    &#[trigger] commands@[i],
                ) == ComputeCommandBuilder::resolvable(second, &commands@[i]) by {
                    lemma_alike_item(first, second, commands@, i);
                    ComputeCommandBuilder::lemma_resolvable_alike(first, second, &commands@[i]);
                }
            },
            Command::RenderPass { depth_stencil, color_attachments, commands, .. } => {
                lemma_alike_parts(first, second, optional_entity(depth_stencil) + all_dependencies(color_attachments@), all_dependencies(commands@));
                lemma_alike_parts(first, second, optional_entity(depth_stencil), all_dependencies(color_attachments@));
                if let Some(id) = depth_stencil {
                    assert(optional_entity(depth_stencil)[0] == id.entity());
                }
                assert forall|i: int| 0 <= i < color_attachments@.len() implies RenderPassColorAttachmentBuilder::resolvable(
                    first,
                    &#[trigger] color_attachments@[i],
                ) == RenderPassColorAttachmentBuilder::resolvable(second, &color_attachments@[i]) by {
                    lemma_alike_item(first, second, color_attachments@, i);
                    RenderPassColorAttachmentBuilder::lemma_resolvable_alike(first, second, &color_attachments@[i]);
                }
                assert forall|i: int| 0 <= i < commands@.len() implies RenderCommandBuilder::resolvable(
                    first,
                    &#[trigger] commands@[i],
                ) == RenderCommandBuilder::resolvable(second, &commands@[i]) by {
                    lemma_alike_item(first, second, commands@, i);
                    RenderCommandBuilder::lemma_resolvable_alike(first, second, &commands@[i]);
                }
            },
        }
    }
}

impl CommandBufferBuilder {
    /// Whether the builder can be made depends on the handles of what the
    /// descriptor depends on, and on the descriptors, alone.
    pub proof fn lemma_resolvable_alike(first: &ResourceManager, second: &ResourceManager, descriptor: &CommandBufferDescriptor)
        requires
            alike_on(first, second, descriptor.dependencies_spec()),
        ensures
            Self::resolvable(first, descriptor) == Self::resolvable(second, descriptor),
    {
        lemma_alike_parts(first, second, seq![descriptor.device.0], all_dependencies(descriptor.commands@));
        assert(seq![descriptor.device.0][0] == descriptor.device.0);
        assert forall|i: int| 0 <= i < descriptor.commands@.len() implies CommandBuilder::resolvable(
            first,
            &#[trigger] descriptor.commands@[i],
        ) == CommandBuilder::resolvable(second, &descriptor.commands@[i]) by {
            lemma_alike_item(first, second, descriptor.commands@, i);
            CommandBuilder::lemma_resolvable_alike(first, second, &descriptor.commands@[i]);
        }
    }
}

impl ResourceBuilder {
    /// Whether the builder can be made depends on the handles of what the
    /// descriptor depends on, and on the descriptors, alone.
    pub proof fn lemma_resolvable_alike(first: &ResourceManager, second: &ResourceManager, descriptor: &ResourceDescriptor)
        requires
            alike_on(first, second, descriptor.dependencies_spec()),
        ensures
            Self::resolvable(first, descriptor) == Self::resolvable(second, descriptor),
    {
        match *descriptor {
            ResourceDescriptor::Instance(inner) => InstanceBuilder::lemma_resolvable_alike(first, second, &inner),
            ResourceDescriptor::Device(inner) => DeviceBuilder::lemma_resolvable_alike(first, second, &inner),
            ResourceDescriptor::Swapchain(inner) => SwapchainBuilder::lemma_resolvable_alike(first, second, &inner),
            ResourceDescriptor::Buffer(inner) => BufferBuilder::lemma_resolvable_alike(first, second, &inner),
            ResourceDescriptor::Texture(inner) => TextureBuilder::lemma_resolvable_alike(first, second, &inner),
            ResourceDescriptor::TextureView(inner) => TextureViewBuilder::lemma_resolvable_alike(first, second, &inner),
            ResourceDescriptor::Sampler(inner) => SamplerBuilder::lemma_resolvable_alike(first, second, &inner),
            ResourceDescriptor::ShaderModule(inner) => ShaderModuleBuilder::lemma_resolvable_alike(first, second, &inner),
            ResourceDescriptor::BindGroupLayout(inner) => BindGroupLayoutBuilder::lemma_resolvable_alike(first, second, &inner),
            ResourceDescriptor::BindGroup(inner) => BindGroupBuilder::lemma_resolvable_alike(first, second, &inner),
            ResourceDescriptor::PipelineLayout(inner) => PipelineLayoutBuilder::lemma_resolvable_alike(first, second, &inner),
            ResourceDescriptor::RenderPipeline(inner) => RenderPipelineBuilder::lemma_resolvable_alike(first, second, &inner),
            ResourceDescriptor::ComputePipeline(inner) => ComputePipelineBuilder::lemma_resolvable_alike(first, second, &inner),
            ResourceDescriptor::CommandBuffer(inner) => CommandBufferBuilder::lemma_resolvable_alike(first, second, &inner),
        }
    }
}

} // verus!
