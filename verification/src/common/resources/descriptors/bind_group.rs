//! Bind group related structures and enumerations.

use vstd::prelude::*;
use crate::common::backend::BufferAddress;
use crate::common::resources::BindGroupLayoutId;
use crate::common::resources::BufferId;
use crate::common::resources::DeviceId;
use crate::common::resources::SamplerId;
use crate::common::resources::TextureViewId;
use crate::common::resources::descriptors::Equivalent;
use crate::common::resources::descriptors::HaveDependencies;
use crate::common::resources::descriptors::HaveDescriptor;
use crate::common::resources::descriptors::StateType;
use crate::common::resources::descriptors::all_dependencies;
use crate::common::resources::descriptors::entities_of;
use crate::common::resources::descriptors::items_equal;
use crate::common::resources::descriptors::lemma_same_items_reflexive;
use crate::common::resources::descriptors::lemma_same_items_symmetric;
use crate::common::resources::descriptors::lemma_same_items_transitive;
use crate::common::resources::descriptors::optional_entity;
use crate::common::resources::descriptors::push_dependencies;
use crate::common::resources::descriptors::push_entities;
use crate::common::resources::descriptors::same_items;
use crate::entity_manager::EntityId;

verus! {

/// Buffer binding for the `BindingResource` object.
#[derive(Debug, Clone)]
pub struct BufferBinding {
    pub buffer: BufferId,
    pub offset: BufferAddress,
    /// Not zero where it is given.
    pub size: Option<u64>,
}

impl Equivalent for BufferBinding {
    open spec fn same(&self, other: &Self) -> bool {
        &&& self.buffer == other.buffer
        &&& self.offset == other.offset
        &&& self.size == other.size
    }

    fn equals(&self, other: &Self) -> (equal: bool) {
        self.buffer == other.buffer
            && self.offset == other.offset
            && self.size == other.size
    }

    proof fn lemma_same_reflexive(&self) {
    }

    proof fn lemma_same_symmetric(&self, other: &Self) {
    }

    proof fn lemma_same_transitive(&self, middle: &Self, other: &Self) {
    }
}

impl HaveDependencies for BufferBinding {
    open spec fn dependencies_spec(&self) -> Seq<EntityId> {
        seq![self.buffer.0]
    }

    fn dependencies(&self) -> (dependencies: Vec<EntityId>) {
        let mut dependencies: Vec<EntityId> = Vec::new();
        dependencies.push(self.buffer.0);
        dependencies
    }
}

/// Binding resource for the `BindGroupEntry` object.
#[derive(Debug, Clone)]
pub enum BindingResource {
    Buffer(BufferBinding),
    BufferArray(Vec<BufferBinding>),
    Sampler(SamplerId),
    TextureView(TextureViewId),
    TextureViewArray(Vec<TextureViewId>),
}

impl Equivalent for BindingResource {
    open spec fn same(&self, other: &Self) -> bool {
        match (*self, *other) {
            (Self::Buffer(a_binding), Self::Buffer(b_binding)) => a_binding.same(&b_binding),
            (Self::BufferArray(a_bindings), Self::BufferArray(b_bindings)) => same_items(a_bindings@, b_bindings@),
            (Self::Sampler(a_sampler), Self::Sampler(b_sampler)) => a_sampler == b_sampler,
            (Self::TextureView(a_view), Self::TextureView(b_view)) => a_view == b_view,
            (Self::TextureViewArray(a_views), Self::TextureViewArray(b_views)) => same_items(a_views@, b_views@),
            _ => false,
        }
    }

    fn equals(&self, other: &Self) -> (equal: bool) {
        match (self, other) {
            (Self::Buffer(a_binding), Self::Buffer(b_binding)) => a_binding.equals(b_binding),
            (Self::BufferArray(a_bindings), Self::BufferArray(b_bindings)) => items_equal(a_bindings, b_bindings),
            (Self::Sampler(a_sampler), Self::Sampler(b_sampler)) => *a_sampler == *b_sampler,
            (Self::TextureView(a_view), Self::TextureView(b_view)) => *a_view == *b_view,
            (Self::TextureViewArray(a_views), Self::TextureViewArray(b_views)) => items_equal(a_views, b_views),
            _ => false,
        }
    }

    proof fn lemma_same_reflexive(&self) {
        match (*self,) {
            (Self::Buffer(s0_binding),) => {
                s0_binding.lemma_same_reflexive();
            },
            (Self::BufferArray(s0_bindings),) => {
                lemma_same_items_reflexive(s0_bindings@);
            },
            (Self::TextureViewArray(s0_views),) => {
                lemma_same_items_reflexive(s0_views@);
            },
            _ => {},
        }
    }

    proof fn lemma_same_symmetric(&self, other: &Self) {
        match (*self, *other) {
            (Self::Buffer(s0_binding), Self::Buffer(o1_binding)) => {
                s0_binding.lemma_same_symmetric(&o1_binding);
            },
            (Self::BufferArray(s0_bindings), Self::BufferArray(o1_bindings)) => {
                lemma_same_items_symmetric(s0_bindings@, o1_bindings@);
            },
            (Self::TextureViewArray(s0_views), Self::TextureViewArray(o1_views)) => {
                lemma_same_items_symmetric(s0_views@, o1_views@);
            },
            _ => {},
        }
    }

    proof fn lemma_same_transitive(&self, middle: &Self, other: &Self) {
        match (*self, *middle, *other) {
            (Self::Buffer(s0_binding), Self::Buffer(m1_binding), Self::Buffer(o2_binding)) => {
                if s0_binding.same(&m1_binding) && m1_binding.same(&o2_binding) { s0_binding.lemma_same_transitive(&m1_binding, &o2_binding); }
            },
            (Self::BufferArray(s0_bindings), Self::BufferArray(m1_bindings), Self::BufferArray(o2_bindings)) => {
                if same_items(s0_bindings@, m1_bindings@) && same_items(m1_bindings@, o2_bindings@) { lemma_same_items_transitive(s0_bindings@, m1_bindings@, o2_bindings@); }
            },
            (Self::TextureViewArray(s0_views), Self::TextureViewArray(m1_views), Self::TextureViewArray(o2_views)) => {
                if same_items(s0_views@, m1_views@) && same_items(m1_views@, o2_views@) { lemma_same_items_transitive(s0_views@, m1_views@, o2_views@); }
            },
            _ => {},
        }
    }
}

impl HaveDependencies for BindingResource {
    open spec fn dependencies_spec(&self) -> Seq<EntityId> {
        match *self {
            Self::Buffer(binding) => binding.dependencies_spec(),
            Self::BufferArray(bindings) => all_dependencies(bindings@),
            Self::Sampler(sampler) => seq![sampler.0],
            Self::TextureView(view) => seq![view.0],
            Self::TextureViewArray(views) => entities_of(views@),
        }
    }

    fn dependencies(&self) -> (dependencies: Vec<EntityId>) {
        let mut dependencies: Vec<EntityId> = Vec::new();
        match self {
            Self::Buffer(binding) => {
                let mut nested = binding.dependencies();
                dependencies.append(&mut nested);
            },
            Self::BufferArray(bindings) => {
                push_dependencies(bindings, &mut dependencies);
            },
            Self::Sampler(sampler) => {
                dependencies.push(sampler.0);
            },
            Self::TextureView(view) => {
                dependencies.push(view.0);
            },
            Self::TextureViewArray(views) => {
                push_entities(views, &mut dependencies);
            },
        }
        dependencies
    }
}

/// Entry for the `BindGroupDescriptor`.
#[derive(Debug, Clone)]
pub struct BindGroupEntry {
    pub binding: u32,
    pub resource: BindingResource,
}

impl Equivalent for BindGroupEntry {
    open spec fn same(&self, other: &Self) -> bool {
        &&& self.binding == other.binding
        &&& self.resource.same(&other.resource)
    }

    fn equals(&self, other: &Self) -> (equal: bool) {
        self.binding == other.binding
            && self.resource.equals(&other.resource)
    }

    proof fn lemma_same_reflexive(&self) {
        self.resource.lemma_same_reflexive();
    }

    proof fn lemma_same_symmetric(&self, other: &Self) {
        self.resource.lemma_same_symmetric(&other.resource);
    }

    proof fn lemma_same_transitive(&self, middle: &Self, other: &Self) {
        if self.resource.same(&middle.resource) && middle.resource.same(&other.resource) { self.resource.lemma_same_transitive(&middle.resource, &other.resource); }
    }
}

impl HaveDependencies for BindGroupEntry {
    open spec fn dependencies_spec(&self) -> Seq<EntityId> {
        self.resource.dependencies_spec()
    }

    fn dependencies(&self) -> (dependencies: Vec<EntityId>) {
        let mut dependencies: Vec<EntityId> = Vec::new();
        let mut nested = self.resource.dependencies();
        dependencies.append(&mut nested);
        dependencies
    }
}

/// Descriptor of a `BindGroupHandle`.
#[derive(Debug, Clone)]
pub struct BindGroupDescriptor {
    pub label: String,
    pub device: DeviceId,
    pub layout: BindGroupLayoutId,
    pub entries: Vec<BindGroupEntry>,
}

impl Equivalent for BindGroupDescriptor {
    open spec fn same(&self, other: &Self) -> bool {
        &&& self.label@ == other.label@
        &&& self.device == other.device
        &&& self.layout == other.layout
        &&& same_items(self.entries@, other.entries@)
    }

    fn equals(&self, other: &Self) -> (equal: bool) {
        self.label == other.label
            && self.device == other.device
            && self.layout == other.layout
            && items_equal(&self.entries, &other.entries)
    }

    proof fn lemma_same_reflexive(&self) {
        lemma_same_items_reflexive(self.entries@);
    }

    proof fn lemma_same_symmetric(&self, other: &Self) {
        lemma_same_items_symmetric(self.entries@, other.entries@);
    }

    proof fn lemma_same_transitive(&self, middle: &Self, other: &Self) {
        if same_items(self.entries@, middle.entries@) && same_items(middle.entries@, other.entries@) { lemma_same_items_transitive(self.entries@, middle.entries@, other.entries@); }
    }
}

impl HaveDependencies for BindGroupDescriptor {
    open spec fn dependencies_spec(&self) -> Seq<EntityId> {
        seq![self.device.0] + seq![self.layout.0] + all_dependencies(self.entries@)
    }

    fn dependencies(&self) -> (dependencies: Vec<EntityId>) {
        let mut dependencies: Vec<EntityId> = Vec::new();
        dependencies.push(self.device.0);
        dependencies.push(self.layout.0);
        push_dependencies(&self.entries, &mut dependencies);
        dependencies
    }
}

impl HaveDescriptor for BindGroupDescriptor {
    type D = Self;

    open spec fn descriptor_spec(&self) -> Self {
        *self
    }

    open spec fn with_descriptor(&self, descriptor: Self) -> Self {
        descriptor
    }

    open spec fn state_type_spec(&self) -> StateType {
        StateType::Stateless
    }

    open spec fn needs_update_spec(&self, other: &Self) -> bool {
        !self.same(other)
    }

    proof fn lemma_descriptor_set(&self, descriptor: Self) {
    }

    fn descriptor_ref(&self) -> (descriptor: &Self) {
        self
    }

    fn descriptor_mut(&mut self) -> (descriptor: &mut Self) {
        self
    }

    fn state_type(&self) -> (state: StateType) {
        StateType::Stateless
    }

    fn needs_update(&self, other: &Self) -> (needed: bool) {
        !self.equals(other)
    }
}

} // verus!
