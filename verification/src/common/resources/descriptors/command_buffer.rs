//! CommandBuffer related structures and enumerations.

use vstd::prelude::*;
use crate::common::backend::BufferAddress;
use crate::common::backend::DynamicOffset;
use crate::common::backend::Extent3d;
use crate::common::backend::ImageDataLayout;
use crate::common::backend::IndexFormat;
use crate::common::backend::Operations;
use crate::common::backend::Origin3d;
use crate::common::backend::ShaderStage;
use crate::common::resources::BindGroupId;
use crate::common::resources::BufferId;
use crate::common::resources::DeviceId;
use crate::common::resources::RenderPipelineId;
use crate::common::resources::SwapchainId;
use crate::common::resources::TextureId;
use crate::common::resources::TextureViewId;
use crate::common::resources::descriptors::Equivalent;
use crate::common::resources::descriptors::HaveDependencies;
use crate::common::resources::descriptors::HaveDescriptor;
use crate::common::resources::descriptors::StateType;
use crate::common::resources::descriptors::all_dependencies;
use crate::common::resources::descriptors::entities_of;
use crate::common::resources::descriptors::items_equal;
use crate::common::resources::descriptors::lemma_same_items_reflexive;
use crate::common::resources::descriptors::lemma_same_items_symmetric;
use crate::common::resources::descriptors::lemma_same_items_transitive;
use crate::common::resources::descriptors::optional_entity;
use crate::common::resources::descriptors::push_dependencies;
use crate::common::resources::descriptors::push_entities;
use crate::common::resources::descriptors::same_items;
use crate::entity_manager::EntityId;

verus! {

/// Enumeration containing all the possible type of ranges over a buffer.
#[derive(Debug, Clone, Copy, PartialEq, Eq, Structural)]
pub enum Slice {
    Range { start: BufferAddress, end: BufferAddress },
    RangeFrom { start: BufferAddress },
    RangeTo { end: BufferAddress },
    RangeFull,
    RangeInclusive { start: BufferAddress, end: BufferAddress },
    RangeToInclusive { end: BufferAddress },
}

/// The items from `start` up to `end`, `end` left out.
#[derive(Debug, Clone, Copy, PartialEq, Eq, Structural)]
pub struct Span {
    pub start: u32,
    pub end: u32,
}

/// Commands to be written in a compute pass. There is none yet but the one
/// that does nothing.
#[derive(Debug, Clone, Copy, PartialEq, Eq, Structural)]
pub enum ComputeCommand {
    Nothing,
}

impl Equivalent for ComputeCommand {
    open spec fn same(&self, other: &Self) -> bool {
        true
    }

    fn equals(&self, other: &Self) -> (equal: bool) {
        true
    }

    proof fn lemma_same_reflexive(&self) {
    }

    proof fn lemma_same_symmetric(&self, other: &Self) {
    }

    proof fn lemma_same_transitive(&self, middle: &Self, other: &Self) {
    }
}

impl HaveDependencies for ComputeCommand {
    open spec fn dependencies_spec(&self) -> Seq<EntityId> {
        Seq::empty()
    }

    fn dependencies(&self) -> (dependencies: Vec<EntityId>) {
        Vec::new()
    }
}

/// View of the object where colors are going to be written.
/// Required for the `RenderPassColorAttachment` object.
#[derive(Debug, Clone, Copy)]
pub enum ColorView {
    TextureView(TextureViewId),
    Swapchain(SwapchainId),
}

impl Equivalent for ColorView {
    open spec fn same(&self, other: &Self) -> bool {
        match (*self, *other) {
            (Self::TextureView(a_view), Self::TextureView(b_view)) => a_view == b_view,
            (Self::Swapchain(a_swapchain), Self::Swapchain(b_swapchain)) => a_swapchain == b_swapchain,
            _ => false,
        }
    }

    fn equals(&self, other: &Self) -> (equal: bool) {
        match (self, other) {
            (Self::TextureView(a_view), Self::TextureView(b_view)) => *a_view == *b_view,
            (Self::Swapchain(a_swapchain), Self::Swapchain(b_swapchain)) => *a_swapchain == *b_swapchain,
            _ => false,
        }
    }

    proof fn lemma_same_reflexive(&self) {
    }

    proof fn lemma_same_symmetric(&self, other: &Self) {
    }

    proof fn lemma_same_transitive(&self, middle: &Self, other: &Self) {
    }
}

impl HaveDependencies for ColorView {
    open spec fn dependencies_spec(&self) -> Seq<EntityId> {
        match *self {
            Self::TextureView(view) => seq![view.0],
            Self::Swapchain(swapchain) => seq![swapchain.0],
        }
    }

    fn dependencies(&self) -> (dependencies: Vec<EntityId>) {
        let mut dependencies: Vec<EntityId> = Vec::new();
        match self {
            Self::TextureView(view) => {
                dependencies.push(view.0);
            },
            Self::Swapchain(swapchain) => {
                dependencies.push(swapchain.0);
            },
        }
        dependencies
    }
}

/// Parameters for a render pass attachment of a `Command::RenderPass` object.
#[derive(Debug, Clone)]
pub struct RenderPassColorAttachment {
    pub view: ColorView,
    pub resolve_target: Option<TextureViewId>,
    pub ops: Operations,
}

impl Equivalent for RenderPassColorAttachment {
    open spec fn same(&self, other: &Self) -> bool {
        &&& self.view.same(&other.view)
        &&& self.resolve_target == other.resolve_target
        &&& self.ops == other.ops
    }

    fn equals(&self, other: &Self) -> (equal: bool) {
        self.view.equals(&other.view)
            && self.resolve_target == other.resolve_target
            && self.ops == other.ops
    }

    proof fn lemma_same_reflexive(&self) {
        self.view.lemma_same_reflexive();
    }

    proof fn lemma_same_symmetric(&self, other: &Self) {
        self.view.lemma_same_symmetric(&other.view);
    }

    proof fn lemma_same_transitive(&self, middle: &Self, other: &Self) {
        if self.view.same(&middle.view) && middle.view.same(&other.view) { self.view.lemma_same_transitive(&middle.view, &other.view); }
    }
}

impl HaveDependencies for RenderPassColorAttachment {
    open spec fn dependencies_spec(&self) -> Seq<EntityId> {
        self.view.dependencies_spec() + optional_entity(self.resolve_target)
    }

    fn dependencies(&self) -> (dependencies: Vec<EntityId>) {
        let mut dependencies: Vec<EntityId> = Vec::new();
        let mut nested = self.view.dependencies();
        dependencies.append(&mut nested);
        if let Some(id) = &self.resolve_target {
            dependencies.push(id.0);
        }
        dependencies
    }
}

/// Commands to be written in a render pass.
#[derive(Debug, Clone)]
pub enum RenderCommand {
    SetPipeline {
        pipeline: RenderPipelineId,
    },
    SetPushConstants {
        stages: ShaderStage,
        offset: u32,
        data: Vec<u8>,
    },
    SetBindGroup {
        index: u32,
        bind_group: BindGroupId,
        offsets: Vec<DynamicOffset>,
    },
    SetVertexBuffer {
        slot: u32,
        buffer: BufferId,
        slice: Slice,
    },
    SetIndexBuffer {
        index_format: IndexFormat,
        buffer: BufferId,
        slice: Slice,
    },
    Draw {
        vertices: Span,
        instances: Span,
    },
    DrawIndexed {
        indices: Span,
        base_vertex: i32,
        instances: Span,
    },
}

impl Equivalent for RenderCommand {
    open spec fn same(&self, other: &Self) -> bool {
        match (*self, *other) {
            (Self::SetPipeline { pipeline: a_pipeline }, Self::SetPipeline { pipeline: b_pipeline }) => a_pipeline == b_pipeline,
            (Self::SetPushConstants { stages: a_stages, offset: a_offset, data: a_data }, Self::SetPushConstants { stages: b_stages, offset: b_offset, data: b_data }) => a_stages == b_stages && a_offset == b_offset && same_items(a_data@, b_data@),
            (Self::SetBindGroup { index: a_index, bind_group: a_bind_group, offsets: a_offsets }, Self::SetBindGroup { index: b_index, bind_group: b_bind_group, offsets: b_offsets }) => a_index == b_index && a_bind_group == b_bind_group && same_items(a_offsets@, b_offsets@),
            (Self::SetVertexBuffer { slot: a_slot, buffer: a_buffer, slice: a_slice }, Self::SetVertexBuffer { slot: b_slot, buffer: b_buffer, slice: b_slice }) => a_slot == b_slot && a_buffer == b_buffer && a_slice == b_slice,
            (Self::SetIndexBuffer { index_format: a_index_format, buffer: a_buffer, slice: a_slice }, Self::SetIndexBuffer { index_format: b_index_format, buffer: b_buffer, slice: b_slice }) => a_index_format == b_index_format && a_buffer == b_buffer && a_slice == b_slice,
            (Self::Draw { vertices: a_vertices, instances: a_instances }, Self::Draw { vertices: b_vertices, instances: b_instances }) => a_vertices == b_vertices && a_instances == b_instances,
            (Self::DrawIndexed { indices: a_indices, base_vertex: a_base_vertex, instances: a_instances }, Self::DrawIndexed { indices: b_indices, base_vertex: b_base_vertex, instances: b_instances }) => a_indices == b_indices && a_base_vertex == b_base_vertex && a_instances == b_instances,
            _ => false,
        }
    }

    fn equals(&self, other: &Self) -> (equal: bool) {
        match (self, other) {
            (Self::SetPipeline { pipeline: a_pipeline }, Self::SetPipeline { pipeline: b_pipeline }) => *a_pipeline == *b_pipeline,
            (Self::SetPushConstants { stages: a_stages, offset: a_offset, data: a_data }, Self::SetPushConstants { stages: b_stages, offset: b_offset, data: b_data }) => *a_stages == *b_stages && *a_offset == *b_offset && items_equal(a_data, b_data),
            (Self::SetBindGroup { index: a_index, bind_group: a_bind_group, offsets: a_offsets }, Self::SetBindGroup { index: b_index, bind_group: b_bind_group, offsets: b_offsets }) => *a_index == *b_index && *a_bind_group == *b_bind_group && items_equal(a_offsets, b_offsets),
            (Self::SetVertexBuffer { slot: a_slot, buffer: a_buffer, slice: a_slice }, Self::SetVertexBuffer { slot: b_slot, buffer: b_buffer, slice: b_slice }) => *a_slot == *b_slot && *a_buffer == *b_buffer && *a_slice == *b_slice,
            (Self::SetIndexBuffer { index_format: a_index_format, buffer: a_buffer, slice: a_slice }, Self::SetIndexBuffer { index_format: b_index_format, buffer: b_buffer, slice: b_slice }) => *a_index_format == *b_index_format && *a_buffer == *b_buffer && *a_slice == *b_slice,
            (Self::Draw { vertices: a_vertices, instances: a_instances }, Self::Draw { vertices: b_vertices, instances: b_instances }) => *a_vertices == *b_vertices && *a_instances == *b_instances,
            (Self::DrawIndexed { indices: a_indices, base_vertex: a_base_vertex, instances: a_instances }, Self::DrawIndexed { indices: b_indices, base_vertex: b_base_vertex, instances: b_instances }) => *a_indices == *b_indices && *a_base_vertex == *b_base_vertex && *a_instances == *b_instances,
            _ => false,
        }
    }

    proof fn lemma_same_reflexive(&self) {
        match (*self,) {
            (Self::SetPushConstants { stages: s0_stages, offset: s0_offset, data: s0_data },) => {
                lemma_same_items_reflexive(s0_data@);
            },
            (Self::SetBindGroup { index: s0_index, bind_group: s0_bind_group, offsets: s0_offsets },) => {
                lemma_same_items_reflexive(s0_offsets@);
            },
            _ => {},
        }
    }

    proof fn lemma_same_symmetric(&self, other: &Self) {
        match (*self, *other) {
            (Self::SetPushConstants { stages: s0_stages, offset: s0_offset, data: s0_data }, Self::SetPushConstants { stages: o1_stages, offset: o1_offset, data: o1_data }) => {
                lemma_same_items_symmetric(s0_data@, o1_data@);
            },
            (Self::SetBindGroup { index: s0_index, bind_group: s0_bind_group, offsets: s0_offsets }, Self::SetBindGroup { index: o1_index, bind_group: o1_bind_group, offsets: o1_offsets }) => {
                lemma_same_items_symmetric(s0_offsets@, o1_offsets@);
            },
            _ => {},
        }
    }

    proof fn lemma_same_transitive(&self, middle: &Self, other: &Self) {
        match (*self, *middle, *other) {
            (Self::SetPushConstants { stages: s0_stages, offset: s0_offset, data: s0_data }, Self::SetPushConstants { stages: m1_stages, offset: m1_offset, data: m1_data }, Self::SetPushConstants { stages: o2_stages, offset: o2_offset, data: o2_data }) => {
                if same_items(s0_data@, m1_data@) && same_items(m1_data@, o2_data@) { lemma_same_items_transitive(s0_data@, m1_data@, o2_data@); }
            },
            (Self::SetBindGroup { index: s0_index, bind_group: s0_bind_group, offsets: s0_offsets }, Self::SetBindGroup { index: m1_index, bind_group: m1_bind_group, offsets: m1_offsets }, Self::SetBindGroup { index: o2_index, bind_group: o2_bind_group, offsets: o2_offsets }) => {
                if same_items(s0_offsets@, m1_offsets@) && same_items(m1_offsets@, o2_offsets@) { lemma_same_items_transitive(s0_offsets@, m1_offsets@, o2_offsets@); }
            },
            _ => {},
        }
    }
}

impl HaveDependencies for RenderCommand {
    open spec fn dependencies_spec(&self) -> Seq<EntityId> {
        match *self {
            Self::SetPipeline { pipeline, .. } => seq![pipeline.0],
            Self::SetPushConstants { .. } => Seq::empty(),
            Self::SetBindGroup { bind_group, .. } => seq![bind_group.0],
            Self::SetVertexBuffer { buffer, .. } => seq![buffer.0],
            Self::SetIndexBuffer { buffer, .. } => seq![buffer.0],
            Self::Draw { .. } => Seq::empty(),
            Self::DrawIndexed { .. } => Seq::empty(),
        }
    }

    fn dependencies(&self) -> (dependencies: Vec<EntityId>) {
        let mut dependencies: Vec<EntityId> = Vec::new();
        match self {
            Self::SetPipeline { pipeline, .. } => {
                dependencies.push(pipeline.0);
            },
            Self::SetPushConstants { .. } => {},
            Self::SetBindGroup { bind_group, .. } => {
                dependencies.push(bind_group.0);
            },
            Self::SetVertexBuffer { buffer, .. } => {
                dependencies.push(buffer.0);
            },
            Self::SetIndexBuffer { buffer, .. } => {
                dependencies.push(buffer.0);
            },
            Self::Draw { .. } => {},
            Self::DrawIndexed { .. } => {},
        }
        dependencies
    }
}

/// Buffer to buffer copy command.
#[derive(Debug, Clone)]
pub struct BufferToBufferCopy {
    pub src_buffer: BufferId,
    pub src_offset: BufferAddress,
    pub dst_buffer: BufferId,
    pub dst_offset: BufferAddress,
    pub size: BufferAddress,
}

impl Equivalent for BufferToBufferCopy {
    open spec fn same(&self, other: &Self) -> bool {
        &&& self.src_buffer == other.src_buffer
        &&& self.src_offset == other.src_offset
        &&& self.dst_buffer == other.dst_buffer
        &&& self.dst_offset == other.dst_offset
        &&& self.size == other.size
    }

    fn equals(&self, other: &Self) -> (equal: bool) {
        self.src_buffer == other.src_buffer
            && self.src_offset == other.src_offset
            && self.dst_buffer == other.dst_buffer
            && self.dst_offset == other.dst_offset
            && self.size == other.size
    }

    proof fn lemma_same_reflexive(&self) {
    }

    proof fn lemma_same_symmetric(&self, other: &Self) {
    }

    proof fn lemma_same_transitive(&self, middle: &Self, other: &Self) {
    }
}

impl HaveDependencies for BufferToBufferCopy {
    open spec fn dependencies_spec(&self) -> Seq<EntityId> {
        seq![self.src_buffer.0] + seq![self.dst_buffer.0]
    }

    fn dependencies(&self) -> (dependencies: Vec<EntityId>) {
        let mut dependencies: Vec<EntityId> = Vec::new();
        dependencies.push(self.src_buffer.0);
        dependencies.push(self.dst_buffer.0);
        dependencies
    }
}

/// Buffer to Texture copy command.
#[derive(Debug, Clone)]
pub struct BufferToTextureCopy {
    pub src_buffer: BufferId,
    pub src_layout: ImageDataLayout,
    pub dst_texture: TextureId,
    pub dst_mip_level: u32,
    pub dst_origin: Origin3d,
    pub copy_size: Extent3d,
}

impl Equivalent for BufferToTextureCopy {
    open spec fn same(&self, other: &Self) -> bool {
        &&& self.src_buffer == other.src_buffer
        &&& self.src_layout == other.src_layout
        &&& self.dst_texture == other.dst_texture
        &&& self.dst_mip_level == other.dst_mip_level
        &&& self.dst_origin == other.dst_origin
        &&& self.copy_size == other.copy_size
    }

    fn equals(&self, other: &Self) -> (equal: bool) {
        self.src_buffer == other.src_buffer
            && self.src_layout == other.src_layout
            && self.dst_texture == other.dst_texture
            && self.dst_mip_level == other.dst_mip_level
            && self.dst_origin == other.dst_origin
            && self.copy_size == other.copy_size
    }

    proof fn lemma_same_reflexive(&self) {
    }

    proof fn lemma_same_symmetric(&self, other: &Self) {
    }

    proof fn lemma_same_transitive(&self, middle: &Self, other: &Self) {
    }
}

impl HaveDependencies for BufferToTextureCopy {
    open spec fn dependencies_spec(&self) -> Seq<EntityId> {
        seq![self.src_buffer.0] + seq![self.dst_texture.0]
    }

    fn dependencies(&self) -> (dependencies: Vec<EntityId>) {
        let mut dependencies: Vec<EntityId> = Vec::new();
        dependencies.push(self.src_buffer.0);
        dependencies.push(self.dst_texture.0);
        dependencies
    }
}

/// Texture to buffer copy command.
#[derive(Debug, Clone)]
pub struct TextureToBufferCopy {
    pub src_texture: TextureId,
    pub src_mip_level: u32,
    pub src_origin: Origin3d,
    pub dst_buffer: BufferId,
    pub dst_layout: ImageDataLayout,
    pub copy_size: Extent3d,
}

impl Equivalent for TextureToBufferCopy {
    open spec fn same(&self, other: &Self) -> bool {
        &&& self.src_texture == other.src_texture
        &&& self.src_mip_level == other.src_mip_level
        &&& self.src_origin == other.src_origin
        &&& self.dst_buffer == other.dst_buffer
        &&& self.dst_layout == other.dst_layout
        &&& self.copy_size == other.copy_size
    }

    fn equals(&self, other: &Self) -> (equal: bool) {
        self.src_texture == other.src_texture
            && self.src_mip_level == other.src_mip_level
            && self.src_origin == other.src_origin
            && self.dst_buffer == other.dst_buffer
            && self.dst_layout == other.dst_layout
            && self.copy_size == other.copy_size
    }

    proof fn lemma_same_reflexive(&self) {
    }

    proof fn lemma_same_symmetric(&self, other: &Self) {
    }

    proof fn lemma_same_transitive(&self, middle: &Self, other: &Self) {
    }
}

impl HaveDependencies for TextureToBufferCopy {
    open spec fn dependencies_spec(&self) -> Seq<EntityId> {
        seq![self.src_texture.0] + seq![self.dst_buffer.0]
    }

    fn dependencies(&self) -> (dependencies: Vec<EntityId>) {
        let mut dependencies: Vec<EntityId> = Vec::new();
        dependencies.push(self.src_texture.0);
        dependencies.push(self.dst_buffer.0);
        dependencies
    }
}

/// Texture to texture copy command.
#[derive(Debug, Clone)]
pub struct TextureToTextureCopy {
    pub src_texture: TextureId,
    pub src_mip_level: u32,
    pub src_origin: Origin3d,
    pub dst_texture: TextureId,
    pub dst_mip_level: u32,
    pub dst_origin: Origin3d,
    pub copy_size: Extent3d,
}

impl Equivalent for TextureToTextureCopy {
    open spec fn same(&self, other: &Self) -> bool {
        &&& self.src_texture == other.src_texture
        &&& self.src_mip_level == other.src_mip_level
        &&& self.src_origin == other.src_origin
        &&& self.dst_texture == other.dst_texture
        &&& self.dst_mip_level == other.dst_mip_level
        &&& self.dst_origin == other.dst_origin
        &&& self.copy_size == other.copy_size
    }

    fn equals(&self, other: &Self) -> (equal: bool) {
        self.src_texture == other.src_texture
            && self.src_mip_level == other.src_mip_level
            && self.src_origin == other.src_origin
            && self.dst_texture == other.dst_texture
            && self.dst_mip_level == other.dst_mip_level
            && self.dst_origin == other.dst_origin
            && self.copy_size == other.copy_size
    }

    proof fn lemma_same_reflexive(&self) {
    }

    proof fn lemma_same_symmetric(&self, other: &Self) {
    }

    proof fn lemma_same_transitive(&self, middle: &Self, other: &Self) {
    }
}

impl HaveDependencies for TextureToTextureCopy {
    open spec fn dependencies_spec(&self) -> Seq<EntityId> {
        seq![self.src_texture.0] + seq![self.dst_texture.0]
    }

    fn dependencies(&self) -> (dependencies: Vec<EntityId>) {
        let mut dependencies: Vec<EntityId> = Vec::new();
        dependencies.push(self.src_texture.0);
        dependencies.push(self.dst_texture.0);
        dependencies
    }
}

/// Command to be written on a `CommandBufferDescriptor` descriptor.
#[derive(Debug, Clone)]
pub enum Command {
    BufferToBuffer(BufferToBufferCopy),
    BufferToTexture(BufferToTextureCopy),
    TextureToTexture(TextureToTextureCopy),
    TextureToBuffer(TextureToBufferCopy),
    ComputePass(Vec<ComputeCommand>),
    RenderPass {
        label: String,
        depth_stencil: Option<TextureViewId>,
        color_attachments: Vec<RenderPassColorAttachment>,
        commands: Vec<RenderCommand>,
    },
}

impl Equivalent for Command {
    open spec fn same(&self, other: &Self) -> bool {
        match (*self, *other) {
            (Self::BufferToBuffer(a_copy), Self::BufferToBuffer(b_copy)) => a_copy.same(&b_copy),
            (Self::BufferToTexture(a_copy), Self::BufferToTexture(b_copy)) => a_copy.same(&b_copy),
            (Self::TextureToTexture(a_copy), Self::TextureToTexture(b_copy)) => a_copy.same(&b_copy),
            (Self::TextureToBuffer(a_copy), Self::TextureToBuffer(b_copy)) => a_copy.same(&b_copy),
            (Self::ComputePass(a_commands), Self::ComputePass(b_commands)) => same_items(a_commands@, b_commands@),
            (Self::RenderPass { label: a_label, depth_stencil: a_depth_stencil, color_attachments: a_color_attachments, commands: a_commands }, Self::RenderPass { label: b_label, depth_stencil: b_depth_stencil, color_attachments: b_color_attachments, commands: b_commands }) => a_label@ == b_label@ && a_depth_stencil == b_depth_stencil && same_items(a_color_attachments@, b_color_attachments@) && same_items(a_commands@, b_commands@),
            _ => false,
        }
    }

    fn equals(&self, other: &Self) -> (equal: bool) {
        match (self, other) {
            (Self::BufferToBuffer(a_copy), Self::BufferToBuffer(b_copy)) => a_copy.equals(b_copy),
            (Self::BufferToTexture(a_copy), Self::BufferToTexture(b_copy)) => a_copy.equals(b_copy),
            (Self::TextureToTexture(a_copy), Self::TextureToTexture(b_copy)) => a_copy.equals(b_copy),
            (Self::TextureToBuffer(a_copy), Self::TextureToBuffer(b_copy)) => a_copy.equals(b_copy),
            (Self::ComputePass(a_commands), Self::ComputePass(b_commands)) => items_equal(a_commands, b_commands),
            (Self::RenderPass { label: a_label, depth_stencil: a_depth_stencil, color_attachments: a_color_attachments, commands: a_commands }, Self::RenderPass { label: b_label, depth_stencil: b_depth_stencil, color_attachments: b_color_attachments, commands: b_commands }) => *a_label == *b_label && *a_depth_stencil == *b_depth_stencil && items_equal(a_color_attachments, b_color_attachments) && items_equal(a_commands, b_commands),
            _ => false,
        }
    }

    proof fn lemma_same_reflexive(&self) {
        match (*self,) {
            (Self::BufferToBuffer(s0_copy),) => {
                s0_copy.lemma_same_reflexive();
            },
            (Self::BufferToTexture(s0_copy),) => {
                s0_copy.lemma_same_reflexive();
            },
            (Self::TextureToTexture(s0_copy),) => {
                s0_copy.lemma_same_reflexive();
            },
            (Self::TextureToBuffer(s0_copy),) => {
                s0_copy.lemma_same_reflexive();
            },
            (Self::ComputePass(s0_commands),) => {
                lemma_same_items_reflexive(s0_commands@);
            },
            (Self::RenderPass { label: s0_label, depth_stencil: s0_depth_stencil, color_attachments: s0_color_attachments, commands: s0_commands },) => {
                lemma_same_items_reflexive(s0_color_attachments@);
                lemma_same_items_reflexive(s0_commands@);
            },
        }
    }

    proof fn lemma_same_symmetric(&self, other: &Self) {
        match (*self, *other) {
            (Self::BufferToBuffer(s0_copy), Self::BufferToBuffer(o1_copy)) => {
                s0_copy.lemma_same_symmetric(&o1_copy);
            },
            (Self::BufferToTexture(s0_copy), Self::BufferToTexture(o1_copy)) => {
                s0_copy.lemma_same_symmetric(&o1_copy);
            },
            (Self::TextureToTexture(s0_copy), Self::TextureToTexture(o1_copy)) => {
                s0_copy.lemma_same_symmetric(&o1_copy);
            },
            (Self::TextureToBuffer(s0_copy), Self::TextureToBuffer(o1_copy)) => {
                s0_copy.lemma_same_symmetric(&o1_copy);
            },
            (Self::ComputePass(s0_commands), Self::ComputePass(o1_commands)) => {
                lemma_same_items_symmetric(s0_commands@, o1_commands@);
            },
            (Self::RenderPass { label: s0_label, depth_stencil: s0_depth_stencil, color_attachments: s0_color_attachments, commands: s0_commands }, Self::RenderPass { label: o1_label, depth_stencil: o1_depth_stencil, color_attachments: o1_color_attachments, commands: o1_commands }) => {
                lemma_same_items_symmetric(s0_color_attachments@, o1_color_attachments@);
                lemma_same_items_symmetric(s0_commands@, o1_commands@);
            },
            _ => {},
        }
    }

    proof fn lemma_same_transitive(&self, middle: &Self, other: &Self) {
        match (*self, *middle, *other) {
            (Self::BufferToBuffer(s0_copy), Self::BufferToBuffer(m1_copy), Self::BufferToBuffer(o2_copy)) => {
                if s0_copy.same(&m1_copy) && m1_copy.same(&o2_copy) { s0_copy.lemma_same_transitive(&m1_copy, &o2_copy); }
            },
            (Self::BufferToTexture(s0_copy), Self::BufferToTexture(m1_copy), Self::BufferToTexture(o2_copy)) => {
                if s0_copy.same(&m1_copy) && m1_copy.same(&o2_copy) { s0_copy.lemma_same_transitive(&m1_copy, &o2_copy); }
            },
            (Self::TextureToTexture(s0_copy), Self::TextureToTexture(m1_copy), Self::TextureToTexture(o2_copy)) => {
                if s0_copy.same(&m1_copy) && m1_copy.same(&o2_copy) { s0_copy.lemma_same_transitive(&m1_copy, &o2_copy); }
            },
            (Self::TextureToBuffer(s0_copy), Self::TextureToBuffer(m1_copy), Self::TextureToBuffer(o2_copy)) => {
                if s0_copy.same(&m1_copy) && m1_copy.same(&o2_copy) { s0_copy.lemma_same_transitive(&m1_copy, &o2_copy); }
            },
            (Self::ComputePass(s0_commands), Self::ComputePass(m1_commands), Self::ComputePass(o2_commands)) => {
                if same_items(s0_commands@, m1_commands@) && same_items(m1_commands@, o2_commands@) { lemma_same_items_transitive(s0_commands@, m1_commands@, o2_commands@); }
            },
            (Self::RenderPass { label: s0_label, depth_stencil: s0_depth_stencil, color_attachments: s0_color_attachments, commands: s0_commands }, Self::RenderPass { label: m1_label, depth_stencil: m1_depth_stencil, color_attachments: m1_color_attachments, commands: m1_commands }, Self::RenderPass { label: o2_label, depth_stencil: o2_depth_stencil, color_attachments: o2_color_attachments, commands: o2_commands }) => {
                if same_items(s0_color_attachments@, m1_color_attachments@) && same_items(m1_color_attachments@, o2_color_attachments@) { lemma_same_items_transitive(s0_color_attachments@, m1_color_attachments@, o2_color_attachments@); }
                if same_items(s0_commands@, m1_commands@) && same_items(m1_commands@, o2_commands@) { lemma_same_items_transitive(s0_commands@, m1_commands@, o2_commands@); }
            },
            _ => {},
        }
    }
}

impl HaveDependencies for Command {
    open spec fn dependencies_spec(&self) -> Seq<EntityId> {
        match *self {
            Self::BufferToBuffer(copy) => copy.dependencies_spec(),
            Self::BufferToTexture(copy) => copy.dependencies_spec(),
            Self::TextureToTexture(copy) => copy.dependencies_spec(),
            Self::TextureToBuffer(copy) => copy.dependencies_spec(),
            Self::ComputePass(commands) => all_dependencies(commands@),
            Self::RenderPass { depth_stencil, color_attachments, commands, .. } => optional_entity(depth_stencil) + all_dependencies(color_attachments@) + all_dependencies(commands@),
        }
    }

    fn dependencies(&self) -> (dependencies: Vec<EntityId>) {
        let mut dependencies: Vec<EntityId> = Vec::new();
        match self {
            Self::BufferToBuffer(copy) => {
                let mut nested = copy.dependencies();
                dependencies.append(&mut nested);
            },
            Self::BufferToTexture(copy) => {
                let mut nested = copy.dependencies();
                dependencies.append(&mut nested);
            },
            Self::TextureToTexture(copy) => {
                let mut nested = copy.dependencies();
                dependencies.append(&mut nested);
            },
            Self::TextureToBuffer(copy) => {
                let mut nested = copy.dependencies();
                dependencies.append(&mut nested);
            },
            Self::ComputePass(commands) => {
                push_dependencies(commands, &mut dependencies);
            },
            Self::RenderPass { depth_stencil, color_attachments, commands, .. } => {
                if let Some(id) = depth_stencil {
                    dependencies.push(id.0);
                }
                push_dependencies(color_attachments, &mut dependencies);
                push_dependencies(commands, &mut dependencies);
            },
        }
        dependencies
    }
}

/// Descriptor of a `CommandBufferHandle`.
#[derive(Debug, Clone)]
pub struct CommandBufferDescriptor {
    pub label: String,
    pub device: DeviceId,
    pub commands: Vec<Command>,
}

impl Equivalent for CommandBufferDescriptor {
    open spec fn same(&self, other: &Self) -> bool {
        &&& self.label@ == other.label@
        &&& self.device == other.device
        &&& same_items(self.commands@, other.commands@)
    }

    fn equals(&self, other: &Self) -> (equal: bool) {
        self.label == other.label
            && self.device == other.device
            && items_equal(&self.commands, &other.commands)
    }

    proof fn lemma_same_reflexive(&self) {
        lemma_same_items_reflexive(self.commands@);
    }

    proof fn lemma_same_symmetric(&self, other: &Self) {
        lemma_same_items_symmetric(self.commands@, other.commands@);
    }

    proof fn lemma_same_transitive(&self, middle: &Self, other: &Self) {
        if same_items(self.commands@, middle.commands@) && same_items(middle.commands@, other.commands@) { lemma_same_items_transitive(self.commands@, middle.commands@, other.commands@); }
    }
}

impl HaveDependencies for CommandBufferDescriptor {
    open spec fn dependencies_spec(&self) -> Seq<EntityId> {
        seq![self.device.0] + all_dependencies(self.commands@)
    }

    fn dependencies(&self) -> (dependencies: Vec<EntityId>) {
        let mut dependencies: Vec<EntityId> = Vec::new();
        dependencies.push(self.device.0);
        push_dependencies(&self.commands, &mut dependencies);
        dependencies
    }
}

impl HaveDescriptor for CommandBufferDescriptor {
    type D = Self;

    open spec fn descriptor_spec(&self) -> Self {
        *self
    }

    open spec fn with_descriptor(&self, descriptor: Self) -> Self {
        descriptor
    }

    open spec fn state_type_spec(&self) -> StateType {
        StateType::Stateless
    }

    open spec fn needs_update_spec(&self, other: &Self) -> bool {
        !self.same(other)
    }

    proof fn lemma_descriptor_set(&self, descriptor: Self) {
    }

    fn descriptor_ref(&self) -> (descriptor: &Self) {
        self
    }

    fn descriptor_mut(&mut self) -> (descriptor: &mut Self) {
        self
    }

    fn state_type(&self) -> (state: StateType) {
        StateType::Stateless
    }

    fn needs_update(&self, other: &Self) -> (needed: bool) {
        !self.equals(other)
    }
}

/// Host to buffer copy command.
#[derive(Debug, Clone)]
pub struct BufferWrite {
    pub buffer: BufferId,
    pub offset: BufferAddress,
    pub data: Vec<u8>,
}

impl Equivalent for BufferWrite {
    open spec fn same(&self, other: &Self) -> bool {
        &&& self.buffer == other.buffer
        &&& self.offset == other.offset
        &&& same_items(self.data@, other.data@)
    }

    fn equals(&self, other: &Self) -> (equal: bool) {
        self.buffer == other.buffer
            && self.offset == other.offset
            && items_equal(&self.data, &other.data)
    }

    proof fn lemma_same_reflexive(&self) {
        lemma_same_items_reflexive(self.data@);
    }

    proof fn lemma_same_symmetric(&self, other: &Self) {
        lemma_same_items_symmetric(self.data@, other.data@);
    }

    proof fn lemma_same_transitive(&self, middle: &Self, other: &Self) {
        if same_items(self.data@, middle.data@) && same_items(middle.data@, other.data@) { lemma_same_items_transitive(self.data@, middle.data@, other.data@); }
    }
}

/// Host to texture copy command.
#[derive(Debug, Clone)]
pub struct TextureWrite {
    pub texture: TextureId,
    pub mip_level: u32,
    pub origin: Origin3d,
    pub data: Vec<u8>,
    pub layout: ImageDataLayout,
    pub size: Extent3d,
}

impl Equivalent for TextureWrite {
    open spec fn same(&self, other: &Self) -> bool {
        &&& self.texture == other.texture
        &&& self.mip_level == other.mip_level
        &&& self.origin == other.origin
        &&& same_items(self.data@, other.data@)
        &&& self.layout == other.layout
        &&& self.size == other.size
    }

    fn equals(&self, other: &Self) -> (equal: bool) {
        self.texture == other.texture
            && self.mip_level == other.mip_level
            && self.origin == other.origin
            && items_equal(&self.data, &other.data)
            && self.layout == other.layout
            && self.size == other.size
    }

    proof fn lemma_same_reflexive(&self) {
        lemma_same_items_reflexive(self.data@);
    }

    proof fn lemma_same_symmetric(&self, other: &Self) {
        lemma_same_items_symmetric(self.data@, other.data@);
    }

    proof fn lemma_same_transitive(&self, middle: &Self, other: &Self) {
        if same_items(self.data@, middle.data@) && same_items(middle.data@, other.data@) { lemma_same_items_transitive(self.data@, middle.data@, other.data@); }
    }
}

/// The first swapchain that one of the attachments writes to.
pub open spec fn first_swapchain(attachments: Seq<RenderPassColorAttachment>) -> Option<SwapchainId>
    decreases attachments.len(),
{
    if attachments.len() == 0 {
        None
    } else {
        match attachments.first().swapchain_spec() {
            Some(swapchain) => Some(swapchain),
            None => first_swapchain(attachments.drop_first()),
        }
    }
}

/// The swapchains that the attachments write to, one attachment after the
/// other.
pub open spec fn attached_swapchains(attachments: Seq<RenderPassColorAttachment>) -> Seq<
    SwapchainId,
>
    decreases attachments.len(),
{
    if attachments.len() == 0 {
        Seq::empty()
    } else {
        attached_swapchains(attachments.drop_last()) + attachments.last().swapchains_spec()
    }
}

/// For each command that draws to a swapchain, in the order of the commands:
/// the swapchain with the depth and stencil view that the command uses.
pub open spec fn targeted_swapchains(commands: Seq<Command>) -> Seq<
    (SwapchainId, Option<TextureViewId>),
>
    decreases commands.len(),
{
    if commands.len() == 0 {
        Seq::empty()
    } else {
        targeted_swapchains(commands.drop_last()) + match commands.last().swapchain_spec() {
            Some(target) => seq![target],
            None => Seq::empty(),
        }
    }
}

impl ColorView {
    /// The swapchain that the view is, if it is one.
    pub open spec fn swapchain_spec(&self) -> Option<SwapchainId> {
        match *self {
            Self::Swapchain(id) => Some(id),
            Self::TextureView(_) => None,
        }
    }

    /// The swapchain that the view is, as a list.
    pub open spec fn swapchains_spec(&self) -> Seq<SwapchainId> {
        match *self {
            Self::Swapchain(id) => seq![id],
            Self::TextureView(_) => Seq::empty(),
        }
    }

    pub fn swapchain(&self) -> (swapchain: Option<SwapchainId>)
        ensures
            swapchain == self.swapchain_spec(),
    {
        match self {
            Self::Swapchain(id) => Some(*id),
            _ => None,
        }
    }

    pub fn swapchains(&self) -> (swapchains: Vec<SwapchainId>)
        ensures
            swapchains@ == self.swapchains_spec(),
    {
        let mut swapchains: Vec<SwapchainId> = Vec::new();
        match self {
            Self::Swapchain(id) => {
                swapchains.push(*id);
            },
            _ => {},
        }
        swapchains
    }
}

impl RenderPassColorAttachment {
    /// The swapchain that the attachment writes to, if it writes to one.
    pub open spec fn swapchain_spec(&self) -> Option<SwapchainId> {
        self.view.swapchain_spec()
    }

    /// The swapchain that the attachment writes to, as a list.
    pub open spec fn swapchains_spec(&self) -> Seq<SwapchainId> {
        self.view.swapchains_spec()
    }

    pub fn swapchain(&self) -> (swapchain: Option<SwapchainId>)
        ensures
            swapchain == self.swapchain_spec(),
    {
        self.view.swapchain()
    }

    pub fn swapchains(&self) -> (swapchains: Vec<SwapchainId>)
        ensures
            swapchains@ == self.swapchains_spec(),
    {
        self.view.swapchains()
    }
}

impl Command {
    /// For a render pass that draws to a swapchain: the first swapchain among
    /// its color attachments, with the pass's depth and stencil view.
    pub open spec fn swapchain_spec(&self) -> Option<(SwapchainId, Option<TextureViewId>)> {
        match *self {
            Self::RenderPass { depth_stencil, color_attachments, .. } => match first_swapchain(
                color_attachments@,
            ) {
                Some(swapchain) => Some((swapchain, depth_stencil)),
                None => None,
            },
            _ => None,
        }
    }

    /// For a render pass: the swapchains that its color attachments write to.
    pub open spec fn swapchains_spec(&self) -> Seq<SwapchainId> {
        match *self {
            Self::RenderPass { color_attachments, .. } => attached_swapchains(color_attachments@),
            _ => Seq::empty(),
        }
    }

    #[verifier::loop_isolation(false)]
    pub fn swapchain(&self) -> (target: Option<(SwapchainId, Option<TextureViewId>)>)
        ensures
            target == self.swapchain_spec(),
    {
        if let Command::RenderPass { label: _, depth_stencil, color_attachments, commands: _ } = self {
            let mut i: usize = 0;
            assert(color_attachments@.skip(0) =~= color_attachments@);
            while i < color_attachments.len()
                invariant
                    i <= color_attachments.len(),
                    first_swapchain(color_attachments@) == first_swapchain(
                        color_attachments@.skip(i as int),
                    ),
                decreases color_attachments.len() - i,
            {
                let ghost rest = color_attachments@.skip(i as int);
                assert(rest.first() == color_attachments@[i as int]);
                assert(rest.drop_first() =~= color_attachments@.skip(i + 1));
                if let Some(swapchain) = color_attachments[i].swapchain() {
                    assert(first_swapchain(rest) == Some(swapchain));
                    return Some((swapchain, *depth_stencil));
                }
                assert(first_swapchain(rest) == first_swapchain(rest.drop_first()));
                i += 1;
            }
            None
        } else {
            None
        }
    }

    pub fn swapchains(&self) -> (swapchains: Vec<SwapchainId>)
        ensures
            swapchains@ == self.swapchains_spec(),
    {
        let mut swapchains: Vec<SwapchainId> = Vec::new();
        if let Command::RenderPass { label: _, depth_stencil: _, color_attachments, commands: _ } = self {
            let mut i: usize = 0;
            while i < color_attachments.len()
                invariant
                    i <= color_attachments.len(),
                    swapchains@ == attached_swapchains(color_attachments@.take(i as int)),
                decreases color_attachments.len() - i,
            {
                let mut found = color_attachments[i].swapchains();
                swapchains.append(&mut found);
                assert(color_attachments@.take(i + 1).drop_last() =~= color_attachments@.take(
                    i as int,
                ));
                assert(color_attachments@.take(i + 1).last() == color_attachments@[i as int]);
                i += 1;
            }
            assert(color_attachments@.take(color_attachments@.len() as int) =~= color_attachments@);
        }
        swapchains
    }
}

impl CommandBufferDescriptor {
    /// The swapchains that the commands draw to: see `targeted_swapchains`.
    pub open spec fn swapchains_spec(&self) -> Seq<(SwapchainId, Option<TextureViewId>)> {
        targeted_swapchains(self.commands@)
    }

    pub fn swapchains(&self) -> (swapchains: Vec<(SwapchainId, Option<TextureViewId>)>)
        ensures
            swapchains@ == self.swapchains_spec(),
    {
        let mut swapchains: Vec<(SwapchainId, Option<TextureViewId>)> = Vec::new();
        let mut i: usize = 0;
        while i < self.commands.len()
            invariant
                i <= self.commands.len(),
                swapchains@ == targeted_swapchains(self.commands@.take(i as int)),
            decreases self.commands.len() - i,
        {
            if let Some(target) = self.commands[i].swapchain() {
                swapchains.push(target);
            }
            assert(self.commands@.take(i + 1).drop_last() =~= self.commands@.take(i as int));
            assert(self.commands@.take(i + 1).last() == self.commands@[i as int]);
            i += 1;
        }
        assert(self.commands@.take(self.commands@.len() as int) =~= self.commands@);
        swapchains
    }
}

} // verus!
