//! Render pipeline related structures and enumerations.

use vstd::prelude::*;
use crate::common::backend::BlendState;
use crate::common::backend::BufferAddress;
use crate::common::backend::ColorWrite;
use crate::common::backend::CompareFunction;
use crate::common::backend::DepthBiasState;
use crate::common::backend::InputStepMode;
use crate::common::backend::MultisampleState;
use crate::common::backend::PrimitiveState;
use crate::common::backend::StencilState;
use crate::common::backend::TargetState;
use crate::common::backend::VertexAttribute;
use crate::common::resources::DeviceId;
use crate::common::resources::PipelineLayoutId;
use crate::common::resources::ShaderModuleId;
use crate::common::resources::SwapchainId;
use crate::common::resources::TextureViewId;
use crate::common::resources::descriptors::Equivalent;
use crate::common::resources::descriptors::HaveDependencies;
use crate::common::resources::descriptors::HaveDescriptor;
use crate::common::resources::descriptors::StateType;
use crate::common::resources::descriptors::all_dependencies;
use crate::common::resources::descriptors::entities_of;
use crate::common::resources::descriptors::items_equal;
use crate::common::resources::descriptors::lemma_same_items_reflexive;
use crate::common::resources::descriptors::lemma_same_items_symmetric;
use crate::common::resources::descriptors::lemma_same_items_transitive;
use crate::common::resources::descriptors::lemma_same_option_reflexive;
use crate::common::resources::descriptors::lemma_same_option_symmetric;
use crate::common::resources::descriptors::lemma_same_option_transitive;
use crate::common::resources::descriptors::option_equals;
use crate::common::resources::descriptors::optional_dependencies;
use crate::common::resources::descriptors::optional_entity;
use crate::common::resources::descriptors::push_dependencies;
use crate::common::resources::descriptors::push_entities;
use crate::common::resources::descriptors::same_items;
use crate::common::resources::descriptors::same_option;
use crate::entity_manager::EntityId;

verus! {

/// Describes how a vertex buffer is interpreted.
#[derive(Debug, Clone)]
pub struct VertexBufferLayout {
    pub array_stride: BufferAddress,
    pub step_mode: InputStepMode,
    pub attributes: Vec<VertexAttribute>,
}

impl Equivalent for VertexBufferLayout {
    open spec fn same(&self, other: &Self) -> bool {
        &&& self.array_stride == other.array_stride
        &&& self.step_mode == other.step_mode
        &&& same_items(self.attributes@, other.attributes@)
    }

    fn equals(&self, other: &Self) -> (equal: bool) {
        self.array_stride == other.array_stride
            && self.step_mode == other.step_mode
            && items_equal(&self.attributes, &other.attributes)
    }

    proof fn lemma_same_reflexive(&self) {
        lemma_same_items_reflexive(self.attributes@);
    }

    proof fn lemma_same_symmetric(&self, other: &Self) {
        lemma_same_items_symmetric(self.attributes@, other.attributes@);
    }

    proof fn lemma_same_transitive(&self, middle: &Self, other: &Self) {
        if same_items(self.attributes@, middle.attributes@) && same_items(middle.attributes@, other.attributes@) { lemma_same_items_transitive(self.attributes@, middle.attributes@, other.attributes@); }
    }
}

/// Describes the vertex process in a render pipeline.
#[derive(Debug, Clone)]
pub struct VertexState {
    pub module: ShaderModuleId,
    pub entry_point: String,
    pub buffers: Vec<VertexBufferLayout>,
}

impl Equivalent for VertexState {
    open spec fn same(&self, other: &Self) -> bool {
        &&& self.module == other.module
        &&& self.entry_point@ == other.entry_point@
        &&& same_items(self.buffers@, other.buffers@)
    }

    fn equals(&self, other: &Self) -> (equal: bool) {
        self.module == other.module
            && self.entry_point == other.entry_point
            && items_equal(&self.buffers, &other.buffers)
    }

    proof fn lemma_same_reflexive(&self) {
        lemma_same_items_reflexive(self.buffers@);
    }

    proof fn lemma_same_symmetric(&self, other: &Self) {
        lemma_same_items_symmetric(self.buffers@, other.buffers@);
    }

    proof fn lemma_same_transitive(&self, middle: &Self, other: &Self) {
        if same_items(self.buffers@, middle.buffers@) && same_items(middle.buffers@, other.buffers@) { lemma_same_items_transitive(self.buffers@, middle.buffers@, other.buffers@); }
    }
}

impl HaveDependencies for VertexState {
    open spec fn dependencies_spec(&self) -> Seq<EntityId> {
        seq![self.module.0]
    }

    fn dependencies(&self) -> (dependencies: Vec<EntityId>) {
        let mut dependencies: Vec<EntityId> = Vec::new();
        dependencies.push(self.module.0);
        dependencies
    }
}

/// What a color is written to.
#[derive(Debug, Clone, Copy)]
pub enum ColorTarget {
    Swapchain(SwapchainId),
    TextureView(TextureViewId),
}

impl Equivalent for ColorTarget {
    open spec fn same(&self, other: &Self) -> bool {
        match (*self, *other) {
            (Self::Swapchain(a_swapchain), Self::Swapchain(b_swapchain)) => a_swapchain == b_swapchain,
            (Self::TextureView(a_view), Self::TextureView(b_view)) => a_view == b_view,
            _ => false,
        }
    }

    fn equals(&self, other: &Self) -> (equal: bool) {
        match (self, other) {
            (Self::Swapchain(a_swapchain), Self::Swapchain(b_swapchain)) => *a_swapchain == *b_swapchain,
            (Self::TextureView(a_view), Self::TextureView(b_view)) => *a_view == *b_view,
            _ => false,
        }
    }

    proof fn lemma_same_reflexive(&self) {
    }

    proof fn lemma_same_symmetric(&self, other: &Self) {
    }

    proof fn lemma_same_transitive(&self, middle: &Self, other: &Self) {
    }
}

impl HaveDependencies for ColorTarget {
    open spec fn dependencies_spec(&self) -> Seq<EntityId> {
        match *self {
            Self::Swapchain(swapchain) => seq![swapchain.0],
            Self::TextureView(view) => seq![view.0],
        }
    }

    fn dependencies(&self) -> (dependencies: Vec<EntityId>) {
        let mut dependencies: Vec<EntityId> = Vec::new();
        match self {
            Self::Swapchain(swapchain) => {
                dependencies.push(swapchain.0);
            },
            Self::TextureView(view) => {
                dependencies.push(view.0);
            },
        }
        dependencies
    }
}

/// Describes the color state of a render pipeline.
#[derive(Debug, Clone)]
pub struct ColorTargetState {
    pub target: ColorTarget,
    pub blend: Option<BlendState>,
    pub write_mask: ColorWrite,
}

impl Equivalent for ColorTargetState {
    open spec fn same(&self, other: &Self) -> bool {
        &&& self.target.same(&other.target)
        &&& self.blend == other.blend
        &&& self.write_mask == other.write_mask
    }

    fn equals(&self, other: &Self) -> (equal: bool) {
        self.target.equals(&other.target)
            && self.blend == other.blend
            && self.write_mask == other.write_mask
    }

    proof fn lemma_same_reflexive(&self) {
        self.target.lemma_same_reflexive();
    }

    proof fn lemma_same_symmetric(&self, other: &Self) {
        self.target.lemma_same_symmetric(&other.target);
    }

    proof fn lemma_same_transitive(&self, middle: &Self, other: &Self) {
        if self.target.same(&middle.target) && middle.target.same(&other.target) { self.target.lemma_same_transitive(&middle.target, &other.target); }
    }
}

impl HaveDependencies for ColorTargetState {
    open spec fn dependencies_spec(&self) -> Seq<EntityId> {
        self.target.dependencies_spec()
    }

    fn dependencies(&self) -> (dependencies: Vec<EntityId>) {
        let mut dependencies: Vec<EntityId> = Vec::new();
        let mut nested = self.target.dependencies();
        dependencies.append(&mut nested);
        dependencies
    }
}

/// Describes the fragment process in a render pipeline.
#[derive(Debug, Clone)]
pub struct FragmentState {
    pub module: ShaderModuleId,
    pub entry_point: String,
    pub targets: Vec<TargetState>,
}

impl Equivalent for FragmentState {
    open spec fn same(&self, other: &Self) -> bool {
        &&& self.module == other.module
        &&& self.entry_point@ == other.entry_point@
        &&& same_items(self.targets@, other.targets@)
    }

    fn equals(&self, other: &Self) -> (equal: bool) {
        self.module == other.module
            && self.entry_point == other.entry_point
            && items_equal(&self.targets, &other.targets)
    }

    proof fn lemma_same_reflexive(&self) {
        lemma_same_items_reflexive(self.targets@);
    }

    proof fn lemma_same_symmetric(&self, other: &Self) {
        lemma_same_items_symmetric(self.targets@, other.targets@);
    }

    proof fn lemma_same_transitive(&self, middle: &Self, other: &Self) {
        if same_items(self.targets@, middle.targets@) && same_items(middle.targets@, other.targets@) { lemma_same_items_transitive(self.targets@, middle.targets@, other.targets@); }
    }
}

impl HaveDependencies for FragmentState {
    open spec fn dependencies_spec(&self) -> Seq<EntityId> {
        seq![self.module.0]
    }

    fn dependencies(&self) -> (dependencies: Vec<EntityId>) {
        let mut dependencies: Vec<EntityId> = Vec::new();
        dependencies.push(self.module.0);
        dependencies
    }
}

/// Describes the depth and stencil state in a render pipeline.
#[derive(Debug, Clone, Copy, PartialEq, Eq, Structural)]
pub struct DepthStencilState {
    pub id: TextureViewId,
    pub depth_write_enabled: bool,
    pub depth_compare: CompareFunction,
    pub stencil: StencilState,
    pub bias: DepthBiasState,
}

impl Equivalent for DepthStencilState {
    open spec fn same(&self, other: &Self) -> bool {
        *self == *other
    }

    fn equals(&self, other: &Self) -> (equal: bool) {
        *self == *other
    }

    proof fn lemma_same_reflexive(&self) {
    }

    proof fn lemma_same_symmetric(&self, other: &Self) {
    }

    proof fn lemma_same_transitive(&self, middle: &Self, other: &Self) {
    }
}

/// Descriptor of a `RenderPipelineHandle`.
#[derive(Debug, Clone)]
pub struct RenderPipelineDescriptor {
    pub label: String,
    pub device: DeviceId,
    pub layout: Option<PipelineLayoutId>,
    pub vertex: VertexState,
    pub primitive: PrimitiveState,
    pub depth_stencil: Option<DepthStencilState>,
    pub multisample: MultisampleState,
    pub fragment: Option<FragmentState>,
}

impl Equivalent for RenderPipelineDescriptor {
    open spec fn same(&self, other: &Self) -> bool {
        &&& self.label@ == other.label@
        &&& self.device == other.device
        &&& self.layout == other.layout
        &&& self.vertex.same(&other.vertex)
        &&& self.primitive == other.primitive
        &&& self.depth_stencil == other.depth_stencil
        &&& self.multisample == other.multisample
        &&& same_option(self.fragment, other.fragment)
    }

    fn equals(&self, other: &Self) -> (equal: bool) {
        self.label == other.label
            && self.device == other.device
            && self.layout == other.layout
            && self.vertex.equals(&other.vertex)
            && self.primitive == other.primitive
            && self.depth_stencil == other.depth_stencil
            && self.multisample == other.multisample
            && option_equals(&self.fragment, &other.fragment)
    }

    proof fn lemma_same_reflexive(&self) {
        self.vertex.lemma_same_reflexive();
        lemma_same_option_reflexive(self.fragment);
    }

    proof fn lemma_same_symmetric(&self, other: &Self) {
        self.vertex.lemma_same_symmetric(&other.vertex);
        lemma_same_option_symmetric(self.fragment, other.fragment);
    }

    proof fn lemma_same_transitive(&self, middle: &Self, other: &Self) {
        if self.vertex.same(&middle.vertex) && middle.vertex.same(&other.vertex) { self.vertex.lemma_same_transitive(&middle.vertex, &other.vertex); }
        if same_option(self.fragment, middle.fragment) && same_option(middle.fragment, other.fragment) { lemma_same_option_transitive(self.fragment, middle.fragment, other.fragment); }
    }
}

impl HaveDependencies for RenderPipelineDescriptor {
    open spec fn dependencies_spec(&self) -> Seq<EntityId> {
        seq![self.device.0] + optional_entity(self.layout) + self.vertex.dependencies_spec() + optional_dependencies(self.fragment)
    }

    fn dependencies(&self) -> (dependencies: Vec<EntityId>) {
        let mut dependencies: Vec<EntityId> = Vec::new();
        dependencies.push(self.device.0);
        if let Some(id) = &self.layout {
            dependencies.push(id.0);
        }
        let mut nested = self.vertex.dependencies();
        dependencies.append(&mut nested);
        if let Some(inner) = &self.fragment {
            let mut nested = inner.dependencies();
            dependencies.append(&mut nested);
        }
        dependencies
    }
}

impl HaveDescriptor for RenderPipelineDescriptor {
    type D = Self;

    open spec fn descriptor_spec(&self) -> Self {
        *self
    }

    open spec fn with_descriptor(&self, descriptor: Self) -> Self {
        descriptor
    }

    open spec fn state_type_spec(&self) -> StateType {
        StateType::Stateless
    }

    open spec fn needs_update_spec(&self, other: &Self) -> bool {
        !self.same(other)
    }

    proof fn lemma_descriptor_set(&self, descriptor: Self) {
    }

    fn descriptor_ref(&self) -> (descriptor: &Self) {
        self
    }

    fn descriptor_mut(&mut self) -> (descriptor: &mut Self) {
        self
    }

    fn state_type(&self) -> (state: StateType) {
        StateType::Stateless
    }

    fn needs_update(&self, other: &Self) -> (needed: bool) {
        !self.equals(other)
    }
}

} // verus!
