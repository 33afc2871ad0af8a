//! Descriptors for the resources.

use vstd::prelude::*;
use crate::common::backend::TextureFormat;
use crate::common::resources::descriptors::command_buffer::BufferWrite;
use crate::common::resources::descriptors::command_buffer::TextureWrite;
use crate::common::resources::descriptors::instance::InstanceDescriptor;
use crate::common::resources::descriptors::device::DeviceDescriptor;
use crate::common::resources::descriptors::swapchain::SwapchainDescriptor;
use crate::common::resources::descriptors::buffer::BufferDescriptor;
use crate::common::resources::descriptors::texture::TextureDescriptor;
use crate::common::resources::descriptors::texture_view::TextureViewDescriptor;
use crate::common::resources::descriptors::sampler::SamplerDescriptor;
use crate::common::resources::descriptors::shader_module::ShaderModuleDescriptor;
use crate::common::resources::descriptors::bind_group_layout::BindGroupLayoutDescriptor;
use crate::common::resources::descriptors::bind_group::BindGroupDescriptor;
use crate::common::resources::descriptors::pipeline_layout::PipelineLayoutDescriptor;
use crate::common::resources::descriptors::render_pipeline::RenderPipelineDescriptor;
use crate::common::resources::descriptors::compute_pipeline::ComputePipelineDescriptor;
use crate::common::resources::descriptors::command_buffer::CommandBufferDescriptor;
use crate::common::resources::ResourceType;
use crate::entity_manager::EntityId;

pub mod bind_group;
pub mod bind_group_layout;
pub mod buffer;
pub mod command_buffer;
pub mod compute_pipeline;
pub mod device;
pub mod instance;
pub mod pipeline_layout;
pub mod render_pipeline;
pub mod sampler;
pub mod shader_module;
pub mod swapchain;
pub mod texture;
pub mod texture_view;

verus! {

/// A stateless resource do no contains data or informations other than its
/// descriptor. A statefull data contains additional data other than its
/// descriptor.
#[derive(Debug, Clone, Copy, PartialEq, Eq, Structural)]
pub enum StateType {
    Stateless,
    Statefull,
}

/// The implementor object have owers.
pub trait HaveOwners: Sized {
    type O;

    /// The owners of the object.
    spec fn owners_spec(&self) -> Seq<Self::O>;

    /// The object with `owners` for its owners, and nothing else changed.
    spec fn with_owners(&self, owners: Vec<Self::O>) -> Self;

    /// Returns a reference of the owner of the object.
    fn owners_ref(&self) -> (owners: &Vec<Self::O>)
        ensures
            owners@ == self.owners_spec(),
    ;

    /// Returns a mutable reference of the owner of the object.
    fn owners_mut(&mut self) -> (owners: &mut Vec<Self::O>)
        ensures
            owners@ == old(self).owners_spec(),
            *final(self) == old(self).with_owners(*final(owners)),
    ;
}

/// The implementor object have dependencies.
pub trait HaveDependencies {
    /// The dependencies of the object: the identifiers it refers to.
    spec fn dependencies_spec(&self) -> Seq<EntityId>;

    /// Returns the dependencies of the object.
    fn dependencies(&self) -> (dependencies: Vec<EntityId>)
        ensures
            dependencies@ == self.dependencies_spec(),
    ;
}

/// The implementor object have a descriptor.
pub trait HaveDescriptor: HaveDependencies + Sized {
    type D;

    /// The descriptor of the object.
    spec fn descriptor_spec(&self) -> Self::D;

    /// The object with `descriptor` for its descriptor, and nothing else
    /// changed.
    spec fn with_descriptor(&self, descriptor: Self::D) -> Self;

    /// The state type of the object.
    spec fn state_type_spec(&self) -> StateType;

    /// Whether going from this object's descriptor to `other` asks for a
    /// rebuild.
    spec fn needs_update_spec(&self, other: &Self::D) -> bool;

    /// What `with_descriptor` sets is what `descriptor_spec` tells of.
    proof fn lemma_descriptor_set(&self, descriptor: Self::D)
        ensures
            self.with_descriptor(descriptor).descriptor_spec() == descriptor,
    ;

    /// Returns a reference of the descriptor of the object.
    fn descriptor_ref(&self) -> (descriptor: &Self::D)
        ensures
            *descriptor == self.descriptor_spec(),
    ;

    /// Returns a mutable reference of the descriptor of the object.
    fn descriptor_mut(&mut self) -> (descriptor: &mut Self::D)
        ensures
            *descriptor == old(self).descriptor_spec(),
            *final(self) == old(self).with_descriptor(*final(descriptor)),
    ;

    /// Returns the state type of the object.
    fn state_type(&self) -> (state: StateType)
        ensures
            state == self.state_type_spec(),
    ;

    /// Returns true if object needs to be updated.
    fn needs_update(&self, other: &Self::D) -> (needed: bool)
        ensures
            needed == self.needs_update_spec(other),
    ;
}

/// The implementor object have an handle.
pub trait HaveHandle: Sized {
    type H;

    /// The handle of the object.
    spec fn handle_spec(&self) -> Self::H;

    /// The object with `handle` for its handle, and nothing else changed.
    spec fn with_handle(&self, handle: Self::H) -> Self;

    fn handle_ref(&self) -> (handle: &Self::H)
        ensures
            *handle == self.handle_spec(),
    ;

    fn handle_mut(&mut self) -> (handle: &mut Self::H)
        ensures
            *handle == old(self).handle_spec(),
            *final(self) == old(self).with_handle(*final(handle)),
    ;
}

/// The implementor object have a descriptor and an handle.
pub trait HaveDescriptorAndHandle: HaveDescriptor + HaveHandle {

}

/// The implementor object names an entity.
pub trait Identifier {
    /// The entity that the identifier names.
    spec fn entity(&self) -> EntityId;

    fn entity_id(&self) -> (id: EntityId)
        ensures
            id == self.entity(),
    ;
}

/// The implementor objects can be compared for what they describe: two
/// objects are the same where their fields are, texts and lists by what they
/// hold.
pub trait Equivalent: Sized {
    /// The two objects describe the same.
    spec fn same(&self, other: &Self) -> bool;

    /// Whether the two objects describe the same.
    fn equals(&self, other: &Self) -> (equal: bool)
        ensures
            equal == self.same(other),
    ;

    proof fn lemma_same_reflexive(&self)
        ensures
            self.same(self),
    ;

    proof fn lemma_same_symmetric(&self, other: &Self)
        ensures
            self.same(other) == other.same(self),
    ;

    proof fn lemma_same_transitive(&self, middle: &Self, other: &Self)
        requires
            self.same(middle),
            middle.same(other),
        ensures
            self.same(other),
    ;
}

impl Equivalent for u8 {
    open spec fn same(&self, other: &Self) -> bool {
        *self == *other
    }

    fn equals(&self, other: &Self) -> (equal: bool) {
        *self == *other
    }

    proof fn lemma_same_reflexive(&self) {
    }

    proof fn lemma_same_symmetric(&self, other: &Self) {
    }

    proof fn lemma_same_transitive(&self, middle: &Self, other: &Self) {
    }
}

impl Equivalent for u32 {
    open spec fn same(&self, other: &Self) -> bool {
        *self == *other
    }

    fn equals(&self, other: &Self) -> (equal: bool) {
        *self == *other
    }

    proof fn lemma_same_reflexive(&self) {
    }

    proof fn lemma_same_symmetric(&self, other: &Self) {
    }

    proof fn lemma_same_transitive(&self, middle: &Self, other: &Self) {
    }
}

/// The two lists are as long as each other, and their items are the same
/// place by place.
pub open spec fn same_items<T: Equivalent>(left: Seq<T>, right: Seq<T>) -> bool {
    &&& left.len() == right.len()
    &&& forall|i: int| 0 <= i < left.len() ==> (#[trigger] left[i]).same(&right[i])
}

pub proof fn lemma_same_items_reflexive<T: Equivalent>(items: Seq<T>)
    ensures
        same_items(items, items),
{
    assert forall|i: int| 0 <= i < items.len() implies (#[trigger] items[i]).same(&items[i]) by {
        items[i].lemma_same_reflexive();
    }
}

pub proof fn lemma_same_items_symmetric<T: Equivalent>(left: Seq<T>, right: Seq<T>)
    ensures
        same_items(left, right) == same_items(right, left),
{
    if same_items(left, right) {
        assert forall|i: int| 0 <= i < right.len() implies (#[trigger] right[i]).same(&left[i]) by {
            assert(left[i].same(&right[i]));
            left[i].lemma_same_symmetric(&right[i]);
        }
    }
    if same_items(right, left) {
        assert forall|i: int| 0 <= i < left.len() implies (#[trigger] left[i]).same(&right[i]) by {
            assert(right[i].same(&left[i]));
            right[i].lemma_same_symmetric(&left[i]);
        }
    }
}

pub proof fn lemma_same_items_transitive<T: Equivalent>(left: Seq<T>, middle: Seq<T>, right: Seq<T>)
    requires
        same_items(left, middle),
        same_items(middle, right),
    ensures
        same_items(left, right),
{
    assert forall|i: int| 0 <= i < left.len() implies (#[trigger] left[i]).same(&right[i]) by {
        assert(left[i].same(&middle[i]));
        assert(middle[i].same(&right[i]));
        left[i].lemma_same_transitive(&middle[i], &right[i]);
    }
}

/// Whether the two lists hold the same, place by place.
pub fn items_equal<T: Equivalent>(left: &Vec<T>, right: &Vec<T>) -> (equal: bool)
    ensures
        equal == same_items(left@, right@),
{
    if left.len() != right.len() {
        return false;
    }
    let mut i: usize = 0;
    while i < left.len()
        invariant
            i <= left.len(),
            left.len() == right.len(),
            forall|j: int| 0 <= j < i ==> (#[trigger] left@[j]).same(&right@[j]),
        decreases left.len() - i,
    {
        if !left[i].equals(&right[i]) {
            assert(!left@[i as int].same(&right@[i as int]));
            return false;
        }
        i += 1;
    }
    true
}

/// Both are absent, or both are there and the same.
pub open spec fn same_option<T: Equivalent>(left: Option<T>, right: Option<T>) -> bool {
    match (left, right) {
        (Some(a), Some(b)) => a.same(&b),
        (None, None) => true,
        _ => false,
    }
}

pub proof fn lemma_same_option_reflexive<T: Equivalent>(item: Option<T>)
    ensures
        same_option(item, item),
{
    if let Some(a) = item {
        a.lemma_same_reflexive();
    }
}

pub proof fn lemma_same_option_symmetric<T: Equivalent>(left: Option<T>, right: Option<T>)
    ensures
        same_option(left, right) == same_option(right, left),
{
    if let (Some(a), Some(b)) = (left, right) {
        a.lemma_same_symmetric(&b);
    }
}

pub proof fn lemma_same_option_transitive<T: Equivalent>(
    left: Option<T>,
    middle: Option<T>,
    right: Option<T>,
)
    requires
        same_option(left, middle),
        same_option(middle, right),
    ensures
        same_option(left, right),
{
    if let (Some(a), Some(b), Some(c)) = (left, middle, right) {
        a.lemma_same_transitive(&b, &c);
    }
}

/// Whether both are absent, or both are there and the same.
pub fn option_equals<T: Equivalent>(left: &Option<T>, right: &Option<T>) -> (equal: bool)
    ensures
        equal == same_option(*left, *right),
{
    match (left, right) {
        (Some(a), Some(b)) => a.equals(b),
        (None, None) => true,
        _ => false,
    }
}

/// The entities that the identifiers name, in their order.
pub open spec fn entities_of<I: Identifier>(ids: Seq<I>) -> Seq<EntityId> {
    Seq::new(ids.len(), |i: int| ids[i].entity())
}

/// The entity that the identifier names, if there is one.
pub open spec fn optional_entity<I: Identifier>(id: Option<I>) -> Seq<EntityId> {
    match id {
        Some(id) => seq![id.entity()],
        None => Seq::empty(),
    }
}

/// The dependencies of the object, if there is one.
pub open spec fn optional_dependencies<T: HaveDependencies>(item: Option<T>) -> Seq<EntityId> {
    match item {
        Some(item) => item.dependencies_spec(),
        None => Seq::empty(),
    }
}

/// The dependencies of all the objects, one object after the other.
pub open spec fn all_dependencies<T: HaveDependencies>(items: Seq<T>) -> Seq<EntityId>
    decreases items.len(),
{
    if items.len() == 0 {
        Seq::empty()
    } else {
        all_dependencies(items.drop_last()) + items.last().dependencies_spec()
    }
}

/// The entities that `ids` name join `into`, in their order.
pub fn push_entities<I: Identifier>(ids: &Vec<I>, into: &mut Vec<EntityId>)
    ensures
        final(into)@ == old(into)@ + entities_of(ids@),
{
    let mut i: usize = 0;
    while i < ids.len()
        invariant
            i <= ids.len(),
            into@ == old(into)@ + entities_of(ids@.take(i as int)),
        decreases ids.len() - i,
    {
        into.push(ids[i].entity_id());
        assert(entities_of(ids@.take(i + 1)) =~= entities_of(ids@.take(i as int)).push(
            ids@[i as int].entity(),
        ));
        i += 1;
    }
    assert(ids@.take(ids@.len() as int) =~= ids@);
}

/// The dependencies of all of `items` join `into`, one object after the other.
pub fn push_dependencies<T: HaveDependencies>(items: &Vec<T>, into: &mut Vec<EntityId>)
    ensures
        final(into)@ == old(into)@ + all_dependencies(items@),
{
    let mut i: usize = 0;
    while i < items.len()
        invariant
            i <= items.len(),
            into@ == old(into)@ + all_dependencies(items@.take(i as int)),
        decreases items.len() - i,
    {
        let mut nested = items[i].dependencies();
        into.append(&mut nested);
        assert(items@.take(i + 1).drop_last() =~= items@.take(i as int));
        assert(items@.take(i + 1).last() == items@[i as int]);
        i += 1;
    }
    assert(items@.take(items@.len() as int) =~= items@);
}

/// A enum combining all the possible resource descriptors.
#[derive(Debug, Clone)]
pub enum ResourceDescriptor {
    Instance(InstanceDescriptor),
    Device(DeviceDescriptor),
    Swapchain(SwapchainDescriptor),
    Buffer(BufferDescriptor),
    Texture(TextureDescriptor),
    TextureView(TextureViewDescriptor),
    Sampler(SamplerDescriptor),
    ShaderModule(ShaderModuleDescriptor),
    BindGroupLayout(BindGroupLayoutDescriptor),
    BindGroup(BindGroupDescriptor),
    PipelineLayout(PipelineLayoutDescriptor),
    RenderPipeline(RenderPipelineDescriptor),
    ComputePipeline(ComputePipelineDescriptor),
    CommandBuffer(CommandBufferDescriptor),
}

impl ResourceDescriptor {
    /// The kind of resource that is described.
    pub open spec fn kind_spec(&self) -> ResourceType {
        match *self {
            Self::Instance(_) => ResourceType::Instance,
            Self::Device(_) => ResourceType::Device,
            Self::Swapchain(_) => ResourceType::Swapchain,
            Self::Buffer(_) => ResourceType::Buffer,
            Self::Texture(_) => ResourceType::Texture,
            Self::TextureView(_) => ResourceType::TextureView,
            Self::Sampler(_) => ResourceType::Sampler,
            Self::ShaderModule(_) => ResourceType::ShaderModule,
            Self::BindGroupLayout(_) => ResourceType::BindGroupLayout,
            Self::BindGroup(_) => ResourceType::BindGroup,
            Self::PipelineLayout(_) => ResourceType::PipelineLayout,
            Self::RenderPipeline(_) => ResourceType::RenderPipeline,
            Self::ComputePipeline(_) => ResourceType::ComputePipeline,
            Self::CommandBuffer(_) => ResourceType::CommandBuffer,
        }
    }

    /// The kind of resource that is described.
    pub fn kind(&self) -> (kind: ResourceType)
        ensures
            kind == self.kind_spec(),
    {
        match self {
            Self::Instance(_) => ResourceType::Instance,
            Self::Device(_) => ResourceType::Device,
            Self::Swapchain(_) => ResourceType::Swapchain,
            Self::Buffer(_) => ResourceType::Buffer,
            Self::Texture(_) => ResourceType::Texture,
            Self::TextureView(_) => ResourceType::TextureView,
            Self::Sampler(_) => ResourceType::Sampler,
            Self::ShaderModule(_) => ResourceType::ShaderModule,
            Self::BindGroupLayout(_) => ResourceType::BindGroupLayout,
            Self::BindGroup(_) => ResourceType::BindGroup,
            Self::PipelineLayout(_) => ResourceType::PipelineLayout,
            Self::RenderPipeline(_) => ResourceType::RenderPipeline,
            Self::ComputePipeline(_) => ResourceType::ComputePipeline,
            Self::CommandBuffer(_) => ResourceType::CommandBuffer,
        }
    }
}

impl Equivalent for ResourceDescriptor {
    open spec fn same(&self, other: &Self) -> bool {
        match (*self, *other) {
            (Self::Instance(a), Self::Instance(b)) => a.same(&b),
            (Self::Device(a), Self::Device(b)) => a.same(&b),
            (Self::Swapchain(a), Self::Swapchain(b)) => a.same(&b),
            (Self::Buffer(a), Self::Buffer(b)) => a.same(&b),
            (Self::Texture(a), Self::Texture(b)) => a.same(&b),
            (Self::TextureView(a), Self::TextureView(b)) => a.same(&b),
            (Self::Sampler(a), Self::Sampler(b)) => a.same(&b),
            (Self::ShaderModule(a), Self::ShaderModule(b)) => a.same(&b),
            (Self::BindGroupLayout(a), Self::BindGroupLayout(b)) => a.same(&b),
            (Self::BindGroup(a), Self::BindGroup(b)) => a.same(&b),
            (Self::PipelineLayout(a), Self::PipelineLayout(b)) => a.same(&b),
            (Self::RenderPipeline(a), Self::RenderPipeline(b)) => a.same(&b),
            (Self::ComputePipeline(a), Self::ComputePipeline(b)) => a.same(&b),
            (Self::CommandBuffer(a), Self::CommandBuffer(b)) => a.same(&b),
            _ => false,
        }
    }

    fn equals(&self, other: &Self) -> (equal: bool) {
        match (self, other) {
            (Self::Instance(a), Self::Instance(b)) => a.equals(b),
            (Self::Device(a), Self::Device(b)) => a.equals(b),
            (Self::Swapchain(a), Self::Swapchain(b)) => a.equals(b),
            (Self::Buffer(a), Self::Buffer(b)) => a.equals(b),
            (Self::Texture(a), Self::Texture(b)) => a.equals(b),
            (Self::TextureView(a), Self::TextureView(b)) => a.equals(b),
            (Self::Sampler(a), Self::Sampler(b)) => a.equals(b),
            (Self::ShaderModule(a), Self::ShaderModule(b)) => a.equals(b),
            (Self::BindGroupLayout(a), Self::BindGroupLayout(b)) => a.equals(b),
            (Self::BindGroup(a), Self::BindGroup(b)) => a.equals(b),
            (Self::PipelineLayout(a), Self::PipelineLayout(b)) => a.equals(b),
            (Self::RenderPipeline(a), Self::RenderPipeline(b)) => a.equals(b),
            (Self::ComputePipeline(a), Self::ComputePipeline(b)) => a.equals(b),
            (Self::CommandBuffer(a), Self::CommandBuffer(b)) => a.equals(b),
            _ => false,
        }
    }

    proof fn lemma_same_reflexive(&self) {
        match *self {
            Self::Instance(a) => a.lemma_same_reflexive(),
            Self::Device(a) => a.lemma_same_reflexive(),
            Self::Swapchain(a) => a.lemma_same_reflexive(),
            Self::Buffer(a) => a.lemma_same_reflexive(),
            Self::Texture(a) => a.lemma_same_reflexive(),
            Self::TextureView(a) => a.lemma_same_reflexive(),
            Self::Sampler(a) => a.lemma_same_reflexive(),
            Self::ShaderModule(a) => a.lemma_same_reflexive(),
            Self::BindGroupLayout(a) => a.lemma_same_reflexive(),
            Self::BindGroup(a) => a.lemma_same_reflexive(),
            Self::PipelineLayout(a) => a.lemma_same_reflexive(),
            Self::RenderPipeline(a) => a.lemma_same_reflexive(),
            Self::ComputePipeline(a) => a.lemma_same_reflexive(),
            Self::CommandBuffer(a) => a.lemma_same_reflexive(),
        }
    }

    proof fn lemma_same_symmetric(&self, other: &Self) {
        match (*self, *other) {
            (Self::Instance(a), Self::Instance(b)) => a.lemma_same_symmetric(&b),
            (Self::Device(a), Self::Device(b)) => a.lemma_same_symmetric(&b),
            (Self::Swapchain(a), Self::Swapchain(b)) => a.lemma_same_symmetric(&b),
            (Self::Buffer(a), Self::Buffer(b)) => a.lemma_same_symmetric(&b),
            (Self::Texture(a), Self::Texture(b)) => a.lemma_same_symmetric(&b),
            (Self::TextureView(a), Self::TextureView(b)) => a.lemma_same_symmetric(&b),
            (Self::Sampler(a), Self::Sampler(b)) => a.lemma_same_symmetric(&b),
            (Self::ShaderModule(a), Self::ShaderModule(b)) => a.lemma_same_symmetric(&b),
            (Self::BindGroupLayout(a), Self::BindGroupLayout(b)) => a.lemma_same_symmetric(&b),
            (Self::BindGroup(a), Self::BindGroup(b)) => a.lemma_same_symmetric(&b),
            (Self::PipelineLayout(a), Self::PipelineLayout(b)) => a.lemma_same_symmetric(&b),
            (Self::RenderPipeline(a), Self::RenderPipeline(b)) => a.lemma_same_symmetric(&b),
            (Self::ComputePipeline(a), Self::ComputePipeline(b)) => a.lemma_same_symmetric(&b),
            (Self::CommandBuffer(a), Self::CommandBuffer(b)) => a.lemma_same_symmetric(&b),
            _ => {},
        }
    }

    proof fn lemma_same_transitive(&self, middle: &Self, other: &Self) {
        match (*self, *middle, *other) {
            (Self::Instance(a), Self::Instance(b), Self::Instance(c)) => a.lemma_same_transitive(&b, &c),
            (Self::Device(a), Self::Device(b), Self::Device(c)) => a.lemma_same_transitive(&b, &c),
            (Self::Swapchain(a), Self::Swapchain(b), Self::Swapchain(c)) => a.lemma_same_transitive(&b, &c),
            (Self::Buffer(a), Self::Buffer(b), Self::Buffer(c)) => a.lemma_same_transitive(&b, &c),
            (Self::Texture(a), Self::Texture(b), Self::Texture(c)) => a.lemma_same_transitive(&b, &c),
            (Self::TextureView(a), Self::TextureView(b), Self::TextureView(c)) => a.lemma_same_transitive(&b, &c),
            (Self::Sampler(a), Self::Sampler(b), Self::Sampler(c)) => a.lemma_same_transitive(&b, &c),
            (Self::ShaderModule(a), Self::ShaderModule(b), Self::ShaderModule(c)) => a.lemma_same_transitive(&b, &c),
            (Self::BindGroupLayout(a), Self::BindGroupLayout(b), Self::BindGroupLayout(c)) => a.lemma_same_transitive(&b, &c),
            (Self::BindGroup(a), Self::BindGroup(b), Self::BindGroup(c)) => a.lemma_same_transitive(&b, &c),
            (Self::PipelineLayout(a), Self::PipelineLayout(b), Self::PipelineLayout(c)) => a.lemma_same_transitive(&b, &c),
            (Self::RenderPipeline(a), Self::RenderPipeline(b), Self::RenderPipeline(c)) => a.lemma_same_transitive(&b, &c),
            (Self::ComputePipeline(a), Self::ComputePipeline(b), Self::ComputePipeline(c)) => a.lemma_same_transitive(&b, &c),
            (Self::CommandBuffer(a), Self::CommandBuffer(b), Self::CommandBuffer(c)) => a.lemma_same_transitive(&b, &c),
            _ => {},
        }
    }
}

impl HaveDependencies for ResourceDescriptor {
    open spec fn dependencies_spec(&self) -> Seq<EntityId> {
        match *self {
            Self::Instance(descriptor) => descriptor.dependencies_spec(),
            Self::Device(descriptor) => descriptor.dependencies_spec(),
            Self::Swapchain(descriptor) => descriptor.dependencies_spec(),
            Self::Buffer(descriptor) => descriptor.dependencies_spec(),
            Self::Texture(descriptor) => descriptor.dependencies_spec(),
            Self::TextureView(descriptor) => descriptor.dependencies_spec(),
            Self::Sampler(descriptor) => descriptor.dependencies_spec(),
            Self::ShaderModule(descriptor) => descriptor.dependencies_spec(),
            Self::BindGroupLayout(descriptor) => descriptor.dependencies_spec(),
            Self::BindGroup(descriptor) => descriptor.dependencies_spec(),
            Self::PipelineLayout(descriptor) => descriptor.dependencies_spec(),
            Self::RenderPipeline(descriptor) => descriptor.dependencies_spec(),
            Self::ComputePipeline(descriptor) => descriptor.dependencies_spec(),
            Self::CommandBuffer(descriptor) => descriptor.dependencies_spec(),
        }
    }

    fn dependencies(&self) -> (dependencies: Vec<EntityId>) {
        match self {
            Self::Instance(descriptor) => descriptor.dependencies(),
            Self::Device(descriptor) => descriptor.dependencies(),
            Self::Swapchain(descriptor) => descriptor.dependencies(),
            Self::Buffer(descriptor) => descriptor.dependencies(),
            Self::Texture(descriptor) => descriptor.dependencies(),
            Self::TextureView(descriptor) => descriptor.dependencies(),
            Self::Sampler(descriptor) => descriptor.dependencies(),
            Self::ShaderModule(descriptor) => descriptor.dependencies(),
            Self::BindGroupLayout(descriptor) => descriptor.dependencies(),
            Self::BindGroup(descriptor) => descriptor.dependencies(),
            Self::PipelineLayout(descriptor) => descriptor.dependencies(),
            Self::RenderPipeline(descriptor) => descriptor.dependencies(),
            Self::ComputePipeline(descriptor) => descriptor.dependencies(),
            Self::CommandBuffer(descriptor) => descriptor.dependencies(),
        }
    }
}

impl HaveDescriptor for ResourceDescriptor {
    type D = Self;

    open spec fn descriptor_spec(&self) -> Self {
        *self
    }

    open spec fn with_descriptor(&self, descriptor: Self) -> Self {
        descriptor
    }

    open spec fn state_type_spec(&self) -> StateType {
        match *self {
            Self::Instance(descriptor) => descriptor.state_type_spec(),
            Self::Device(descriptor) => descriptor.state_type_spec(),
            Self::Swapchain(descriptor) => descriptor.state_type_spec(),
            Self::Buffer(descriptor) => descriptor.state_type_spec(),
            Self::Texture(descriptor) => descriptor.state_type_spec(),
            Self::TextureView(descriptor) => descriptor.state_type_spec(),
            Self::Sampler(descriptor) => descriptor.state_type_spec(),
            Self::ShaderModule(descriptor) => descriptor.state_type_spec(),
            Self::BindGroupLayout(descriptor) => descriptor.state_type_spec(),
            Self::BindGroup(descriptor) => descriptor.state_type_spec(),
            Self::PipelineLayout(descriptor) => descriptor.state_type_spec(),
            Self::RenderPipeline(descriptor) => descriptor.state_type_spec(),
            Self::ComputePipeline(descriptor) => descriptor.state_type_spec(),
            Self::CommandBuffer(descriptor) => descriptor.state_type_spec(),
        }
    }

    open spec fn needs_update_spec(&self, other: &Self) -> bool {
        !self.same(other)
    }

    proof fn lemma_descriptor_set(&self, descriptor: Self) {
    }

    fn descriptor_ref(&self) -> (descriptor: &Self) {
        self
    }

    fn descriptor_mut(&mut self) -> (descriptor: &mut Self) {
        self
    }

    fn state_type(&self) -> (state: StateType) {
        match self {
            Self::Instance(descriptor) => descriptor.state_type(),
            Self::Device(descriptor) => descriptor.state_type(),
            Self::Swapchain(descriptor) => descriptor.state_type(),
            Self::Buffer(descriptor) => descriptor.state_type(),
            Self::Texture(descriptor) => descriptor.state_type(),
            Self::TextureView(descriptor) => descriptor.state_type(),
            Self::Sampler(descriptor) => descriptor.state_type(),
            Self::ShaderModule(descriptor) => descriptor.state_type(),
            Self::BindGroupLayout(descriptor) => descriptor.state_type(),
            Self::BindGroup(descriptor) => descriptor.state_type(),
            Self::PipelineLayout(descriptor) => descriptor.state_type(),
            Self::RenderPipeline(descriptor) => descriptor.state_type(),
            Self::ComputePipeline(descriptor) => descriptor.state_type(),
            Self::CommandBuffer(descriptor) => descriptor.state_type(),
        }
    }

    fn needs_update(&self, other: &Self) -> (needed: bool) {
        !self.equals(other)
    }
}

/// Describes a command encoder.
#[derive(Debug, Clone)]
pub struct CommandEncoderDescriptor {
    pub label: String,
}

/// Describes a render bundle encoder.
#[derive(Debug, Clone)]
pub struct RenderBundleEncoderDescriptor {
    pub label: String,
    pub color_formats: Vec<TextureFormat>,
    pub depth_stencil_format: Option<TextureFormat>,
    pub sample_count: u32,
}

/// A pending upload from the host to a resource.
#[derive(Debug, Clone)]
pub enum ResourceWrite {
    Buffer(BufferWrite),
    Texture(TextureWrite),
}

impl Equivalent for ResourceWrite {
    open spec fn same(&self, other: &Self) -> bool {
        match (*self, *other) {
            (Self::Buffer(a), Self::Buffer(b)) => a.same(&b),
            (Self::Texture(a), Self::Texture(b)) => a.same(&b),
            _ => false,
        }
    }

    fn equals(&self, other: &Self) -> (equal: bool) {
        match (self, other) {
            (Self::Buffer(a), Self::Buffer(b)) => a.equals(b),
            (Self::Texture(a), Self::Texture(b)) => a.equals(b),
            _ => false,
        }
    }

    proof fn lemma_same_reflexive(&self) {
        match *self {
            Self::Buffer(a) => a.lemma_same_reflexive(),
            Self::Texture(a) => a.lemma_same_reflexive(),
        }
    }

    proof fn lemma_same_symmetric(&self, other: &Self) {
        match (*self, *other) {
            (Self::Buffer(a), Self::Buffer(b)) => a.lemma_same_symmetric(&b),
            (Self::Texture(a), Self::Texture(b)) => a.lemma_same_symmetric(&b),
            _ => {},
        }
    }

    proof fn lemma_same_transitive(&self, middle: &Self, other: &Self) {
        match (*self, *middle, *other) {
            (Self::Buffer(a), Self::Buffer(b), Self::Buffer(c)) => a.lemma_same_transitive(&b, &c),
            (Self::Texture(a), Self::Texture(b), Self::Texture(c)) => a.lemma_same_transitive(
                &b,
                &c,
            ),
            _ => {},
        }
    }
}

} // verus!
