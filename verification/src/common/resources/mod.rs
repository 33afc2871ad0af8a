//! Resources: what the engine manages for the tasks.

use vstd::prelude::*;
use crate::common::resources::descriptors::Equivalent;
use crate::common::resources::descriptors::HaveDependencies;
use crate::common::resources::descriptors::HaveDescriptor;
use crate::common::resources::descriptors::HaveDescriptorAndHandle;
use crate::common::resources::descriptors::HaveHandle;
use crate::common::resources::descriptors::HaveOwners;
use crate::common::resources::descriptors::Identifier;
use crate::common::resources::descriptors::ResourceDescriptor;
use crate::common::resources::descriptors::StateType;
use crate::common::resources::handles::ResourceHandle;
use crate::common::tasks::TaskId;
use crate::entity_manager::EntityId;

pub mod builders;
pub mod descriptors;
pub mod handles;

verus! {

/// A combination of owners, a descriptor and a handle.
#[derive(Debug, Clone)]
pub struct Resource {
    pub owners: Vec<TaskId>,
    pub current_descriptor: ResourceDescriptor,
    pub current_handle: Option<ResourceHandle>,
}

impl Resource {
    pub fn new(
        owners: Vec<TaskId>,
        descriptor: ResourceDescriptor,
        handle: Option<ResourceHandle>,
    ) -> (resource: Self)
        ensures
            resource.owners == owners,
            resource.current_descriptor == descriptor,
            resource.current_handle == handle,
    {
        Self { owners, current_descriptor: descriptor, current_handle: handle }
    }
}

impl HaveOwners for Resource {
    type O = TaskId;

    open spec fn owners_spec(&self) -> Seq<TaskId> {
        self.owners@
    }

    open spec fn with_owners(&self, owners: Vec<TaskId>) -> Self {
        Resource {
            owners,
            current_descriptor: self.current_descriptor,
            current_handle: self.current_handle,
        }
    }

    fn owners_ref(&self) -> (owners: &Vec<TaskId>) {
        &self.owners
    }

    fn owners_mut(&mut self) -> (owners: &mut Vec<TaskId>) {
        &mut self.owners
    }
}

impl HaveDependencies for Resource {
    open spec fn dependencies_spec(&self) -> Seq<EntityId> {
        self.current_descriptor.dependencies_spec()
    }

    fn dependencies(&self) -> (dependencies: Vec<EntityId>) {
        self.current_descriptor.dependencies()
    }
}

impl HaveDescriptor for Resource {
    type D = ResourceDescriptor;

    open spec fn descriptor_spec(&self) -> ResourceDescriptor {
        self.current_descriptor
    }

    open spec fn with_descriptor(&self, descriptor: ResourceDescriptor) -> Self {
        Resource {
            owners: self.owners,
            current_descriptor: descriptor,
            current_handle: self.current_handle,
        }
    }

    open spec fn state_type_spec(&self) -> StateType {
        self.current_descriptor.state_type_spec()
    }

    open spec fn needs_update_spec(&self, other: &ResourceDescriptor) -> bool {
        self.current_descriptor.needs_update_spec(other)
    }

    proof fn lemma_descriptor_set(&self, descriptor: ResourceDescriptor) {
    }

    fn descriptor_ref(&self) -> (descriptor: &ResourceDescriptor) {
        &self.current_descriptor
    }

    fn descriptor_mut(&mut self) -> (descriptor: &mut ResourceDescriptor) {
        &mut self.current_descriptor
    }

    fn state_type(&self) -> (state: StateType) {
        self.current_descriptor.state_type()
    }

    fn needs_update(&self, other: &ResourceDescriptor) -> (needed: bool) {
        self.current_descriptor.needs_update(other)
    }
}

impl HaveHandle for Resource {
    type H = Option<ResourceHandle>;

    open spec fn handle_spec(&self) -> Option<ResourceHandle> {
        self.current_handle
    }

    open spec fn with_handle(&self, handle: Option<ResourceHandle>) -> Self {
        Resource {
            owners: self.owners,
            current_descriptor: self.current_descriptor,
            current_handle: handle,
        }
    }

    fn handle_ref(&self) -> (handle: &Option<ResourceHandle>) {
        &self.current_handle
    }

    fn handle_mut(&mut self) -> (handle: &mut Option<ResourceHandle>) {
        &mut self.current_handle
    }
}

impl HaveDescriptorAndHandle for Resource {

}

/// Id of a `InstanceHandle`.
#[derive(Debug, Clone, Copy, Hash, PartialEq, Eq, Structural)]
pub struct InstanceId(pub EntityId);

impl InstanceId {
    pub fn new(entity_id: EntityId) -> (id: Self)
        ensures
            id.0 == entity_id,
    {
        Self(entity_id)
    }

    pub fn id(&self) -> (entity_id: EntityId)
        ensures
            entity_id == self.0,
    {
        self.0
    }

    pub fn id_ref(&self) -> (entity_id: &EntityId)
        ensures
            *entity_id == self.0,
    {
        &self.0
    }

    pub fn id_mut(&mut self) -> (entity_id: &mut EntityId)
        ensures
            *entity_id == old(self).0,
            final(self).0 == *final(entity_id),
    {
        &mut self.0
    }
}

impl Identifier for InstanceId {
    open spec fn entity(&self) -> EntityId {
        self.0
    }

    fn entity_id(&self) -> (id: EntityId) {
        self.0
    }
}

impl Equivalent for InstanceId {
    open spec fn same(&self, other: &Self) -> bool {
        *self == *other
    }

    fn equals(&self, other: &Self) -> (equal: bool) {
        *self == *other
    }

    proof fn lemma_same_reflexive(&self) {
    }

    proof fn lemma_same_symmetric(&self, other: &Self) {
    }

    proof fn lemma_same_transitive(&self, middle: &Self, other: &Self) {
    }
}

/// Id of a `DeviceHandle`.
#[derive(Debug, Clone, Copy, Hash, PartialEq, Eq, Structural)]
pub struct DeviceId(pub EntityId);

impl DeviceId {
    pub fn new(entity_id: EntityId) -> (id: Self)
        ensures
            id.0 == entity_id,
    {
        Self(entity_id)
    }

    pub fn id(&self) -> (entity_id: EntityId)
        ensures
            entity_id == self.0,
    {
        self.0
    }

    pub fn id_ref(&self) -> (entity_id: &EntityId)
        ensures
            *entity_id == self.0,
    {
        &self.0
    }

    pub fn id_mut(&mut self) -> (entity_id: &mut EntityId)
        ensures
            *entity_id == old(self).0,
            final(self).0 == *final(entity_id),
    {
        &mut self.0
    }
}

impl Identifier for DeviceId {
    open spec fn entity(&self) -> EntityId {
        self.0
    }

    fn entity_id(&self) -> (id: EntityId) {
        self.0
    }
}

impl Equivalent for DeviceId {
    open spec fn same(&self, other: &Self) -> bool {
        *self == *other
    }

    fn equals(&self, other: &Self) -> (equal: bool) {
        *self == *other
    }

    proof fn lemma_same_reflexive(&self) {
    }

    proof fn lemma_same_symmetric(&self, other: &Self) {
    }

    proof fn lemma_same_transitive(&self, middle: &Self, other: &Self) {
    }
}

/// Id of a `SwapchainHandle`.
#[derive(Debug, Clone, Copy, Hash, PartialEq, Eq, Structural)]
pub struct SwapchainId(pub EntityId);

impl SwapchainId {
    pub fn new(entity_id: EntityId) -> (id: Self)
        ensures
            id.0 == entity_id,
    {
        Self(entity_id)
    }

    pub fn id(&self) -> (entity_id: EntityId)
        ensures
            entity_id == self.0,
    {
        self.0
    }

    pub fn id_ref(&self) -> (entity_id: &EntityId)
        ensures
            *entity_id == self.0,
    {
        &self.0
    }

    pub fn id_mut(&mut self) -> (entity_id: &mut EntityId)
        ensures
            *entity_id == old(self).0,
            final(self).0 == *final(entity_id),
    {
        &mut self.0
    }
}

impl Identifier for SwapchainId {
    open spec fn entity(&self) -> EntityId {
        self.0
    }

    fn entity_id(&self) -> (id: EntityId) {
        self.0
    }
}

impl Equivalent for SwapchainId {
    open spec fn same(&self, other: &Self) -> bool {
        *self == *other
    }

    fn equals(&self, other: &Self) -> (equal: bool) {
        *self == *other
    }

    proof fn lemma_same_reflexive(&self) {
    }

    proof fn lemma_same_symmetric(&self, other: &Self) {
    }

    proof fn lemma_same_transitive(&self, middle: &Self, other: &Self) {
    }
}

/// Id of a `BufferHandle`.
#[derive(Debug, Clone, Copy, Hash, PartialEq, Eq, Structural)]
pub struct BufferId(pub EntityId);

impl BufferId {
    pub fn new(entity_id: EntityId) -> (id: Self)
        ensures
            id.0 == entity_id,
    {
        Self(entity_id)
    }

    pub fn id(&self) -> (entity_id: EntityId)
        ensures
            entity_id == self.0,
    {
        self.0
    }

    pub fn id_ref(&self) -> (entity_id: &EntityId)
        ensures
            *entity_id == self.0,
    {
        &self.0
    }

    pub fn id_mut(&mut self) -> (entity_id: &mut EntityId)
        ensures
            *entity_id == old(self).0,
            final(self).0 == *final(entity_id),
    {
        &mut self.0
    }
}

impl Identifier for BufferId {
    open spec fn entity(&self) -> EntityId {
        self.0
    }

    fn entity_id(&self) -> (id: EntityId) {
        self.0
    }
}

impl Equivalent for BufferId {
    open spec fn same(&self, other: &Self) -> bool {
        *self == *other
    }

    fn equals(&self, other: &Self) -> (equal: bool) {
        *self == *other
    }

    proof fn lemma_same_reflexive(&self) {
    }

    proof fn lemma_same_symmetric(&self, other: &Self) {
    }

    proof fn lemma_same_transitive(&self, middle: &Self, other: &Self) {
    }
}

/// Id of a `TextureHandle`.
#[derive(Debug, Clone, Copy, Hash, PartialEq, Eq, Structural)]
pub struct TextureId(pub EntityId);

impl TextureId {
    pub fn new(entity_id: EntityId) -> (id: Self)
        ensures
            id.0 == entity_id,
    {
        Self(entity_id)
    }

    pub fn id(&self) -> (entity_id: EntityId)
        ensures
            entity_id == self.0,
    {
        self.0
    }

    pub fn id_ref(&self) -> (entity_id: &EntityId)
        ensures
            *entity_id == self.0,
    {
        &self.0
    }

    pub fn id_mut(&mut self) -> (entity_id: &mut EntityId)
        ensures
            *entity_id == old(self).0,
            final(self).0 == *final(entity_id),
    {
        &mut self.0
    }
}

impl Identifier for TextureId {
    open spec fn entity(&self) -> EntityId {
        self.0
    }

    fn entity_id(&self) -> (id: EntityId) {
        self.0
    }
}

impl Equivalent for TextureId {
    open spec fn same(&self, other: &Self) -> bool {
        *self == *other
    }

    fn equals(&self, other: &Self) -> (equal: bool) {
        *self == *other
    }

    proof fn lemma_same_reflexive(&self) {
    }

    proof fn lemma_same_symmetric(&self, other: &Self) {
    }

    proof fn lemma_same_transitive(&self, middle: &Self, other: &Self) {
    }
}

/// Id of a `TextureViewHandle`.
#[derive(Debug, Clone, Copy, Hash, PartialEq, Eq, Structural)]
pub struct TextureViewId(pub EntityId);

impl TextureViewId {
    pub fn new(entity_id: EntityId) -> (id: Self)
        ensures
            id.0 == entity_id,
    {
        Self(entity_id)
    }

    pub fn id(&self) -> (entity_id: EntityId)
        ensures
            entity_id == self.0,
    {
        self.0
    }

    pub fn id_ref(&self) -> (entity_id: &EntityId)
        ensures
            *entity_id == self.0,
    {
        &self.0
    }

    pub fn id_mut(&mut self) -> (entity_id: &mut EntityId)
        ensures
            *entity_id == old(self).0,
            final(self).0 == *final(entity_id),
    {
        &mut self.0
    }
}

impl Identifier for TextureViewId {
    open spec fn entity(&self) -> EntityId {
        self.0
    }

    fn entity_id(&self) -> (id: EntityId) {
        self.0
    }
}

impl Equivalent for TextureViewId {
    open spec fn same(&self, other: &Self) -> bool {
        *self == *other
    }

    fn equals(&self, other: &Self) -> (equal: bool) {
        *self == *other
    }

    proof fn lemma_same_reflexive(&self) {
    }

    proof fn lemma_same_symmetric(&self, other: &Self) {
    }

    proof fn lemma_same_transitive(&self, middle: &Self, other: &Self) {
    }
}

/// Id of a `SamplerHandle`.
#[derive(Debug, Clone, Copy, Hash, PartialEq, Eq, Structural)]
pub struct SamplerId(pub EntityId);

impl SamplerId {
    pub fn new(entity_id: EntityId) -> (id: Self)
        ensures
            id.0 == entity_id,
    {
        Self(entity_id)
    }

    pub fn id(&self) -> (entity_id: EntityId)
        ensures
            entity_id == self.0,
    {
        self.0
    }

    pub fn id_ref(&self) -> (entity_id: &EntityId)
        ensures
            *entity_id == self.0,
    {
        &self.0
    }

    pub fn id_mut(&mut self) -> (entity_id: &mut EntityId)
        ensures
            *entity_id == old(self).0,
            final(self).0 == *final(entity_id),
    {
        &mut self.0
    }
}

impl Identifier for SamplerId {
    open spec fn entity(&self) -> EntityId {
        self.0
    }

    fn entity_id(&self) -> (id: EntityId) {
        self.0
    }
}

impl Equivalent for SamplerId {
    open spec fn same(&self, other: &Self) -> bool {
        *self == *other
    }

    fn equals(&self, other: &Self) -> (equal: bool) {
        *self == *other
    }

    proof fn lemma_same_reflexive(&self) {
    }

    proof fn lemma_same_symmetric(&self, other: &Self) {
    }

    proof fn lemma_same_transitive(&self, middle: &Self, other: &Self) {
    }
}

/// Id of a `ShaderModuleHandle`.
#[derive(Debug, Clone, Copy, Hash, PartialEq, Eq, Structural)]
pub struct ShaderModuleId(pub EntityId);

impl ShaderModuleId {
    pub fn new(entity_id: EntityId) -> (id: Self)
        ensures
            id.0 == entity_id,
    {
        Self(entity_id)
    }

    pub fn id(&self) -> (entity_id: EntityId)
        ensures
            entity_id == self.0,
    {
        self.0
    }

    pub fn id_ref(&self) -> (entity_id: &EntityId)
        ensures
            *entity_id == self.0,
    {
        &self.0
    }

    pub fn id_mut(&mut self) -> (entity_id: &mut EntityId)
        ensures
            *entity_id == old(self).0,
            final(self).0 == *final(entity_id),
    {
        &mut self.0
    }
}

impl Identifier for ShaderModuleId {
    open spec fn entity(&self) -> EntityId {
        self.0
    }

    fn entity_id(&self) -> (id: EntityId) {
        self.0
    }
}

impl Equivalent for ShaderModuleId {
    open spec fn same(&self, other: &Self) -> bool {
        *self == *other
    }

    fn equals(&self, other: &Self) -> (equal: bool) {
        *self == *other
    }

    proof fn lemma_same_reflexive(&self) {
    }

    proof fn lemma_same_symmetric(&self, other: &Self) {
    }

    proof fn lemma_same_transitive(&self, middle: &Self, other: &Self) {
    }
}

/// Id of a `BindGroupLayoutHandle`.
#[derive(Debug, Clone, Copy, Hash, PartialEq, Eq, Structural)]
pub struct BindGroupLayoutId(pub EntityId);

impl BindGroupLayoutId {
    pub fn new(entity_id: EntityId) -> (id: Self)
        ensures
            id.0 == entity_id,
    {
        Self(entity_id)
    }

    pub fn id(&self) -> (entity_id: EntityId)
        ensures
            entity_id == self.0,
    {
        self.0
    }

    pub fn id_ref(&self) -> (entity_id: &EntityId)
        ensures
            *entity_id == self.0,
    {
        &self.0
    }

    pub fn id_mut(&mut self) -> (entity_id: &mut EntityId)
        ensures
            *entity_id == old(self).0,
            final(self).0 == *final(entity_id),
    {
        &mut self.0
    }
}

impl Identifier for BindGroupLayoutId {
    open spec fn entity(&self) -> EntityId {
        self.0
    }

    fn entity_id(&self) -> (id: EntityId) {
        self.0
    }
}

impl Equivalent for BindGroupLayoutId {
    open spec fn same(&self, other: &Self) -> bool {
        *self == *other
    }

    fn equals(&self, other: &Self) -> (equal: bool) {
        *self == *other
    }

    proof fn lemma_same_reflexive(&self) {
    }

    proof fn lemma_same_symmetric(&self, other: &Self) {
    }

    proof fn lemma_same_transitive(&self, middle: &Self, other: &Self) {
    }
}

/// Id of a `BindGroupHandle`.
#[derive(Debug, Clone, Copy, Hash, PartialEq, Eq, Structural)]
pub struct BindGroupId(pub EntityId);

impl BindGroupId {
    pub fn new(entity_id: EntityId) -> (id: Self)
        ensures
            id.0 == entity_id,
    {
        Self(entity_id)
    }

    pub fn id(&self) -> (entity_id: EntityId)
        ensures
            entity_id == self.0,
    {
        self.0
    }

    pub fn id_ref(&self) -> (entity_id: &EntityId)
        ensures
            *entity_id == self.0,
    {
        &self.0
    }

    pub fn id_mut(&mut self) -> (entity_id: &mut EntityId)
        ensures
            *entity_id == old(self).0,
            final(self).0 == *final(entity_id),
    {
        &mut self.0
    }
}

impl Identifier for BindGroupId {
    open spec fn entity(&self) -> EntityId {
        self.0
    }

    fn entity_id(&self) -> (id: EntityId) {
        self.0
    }
}

impl Equivalent for BindGroupId {
    open spec fn same(&self, other: &Self) -> bool {
        *self == *other
    }

    fn equals(&self, other: &Self) -> (equal: bool) {
        *self == *other
    }

    proof fn lemma_same_reflexive(&self) {
    }

    proof fn lemma_same_symmetric(&self, other: &Self) {
    }

    proof fn lemma_same_transitive(&self, middle: &Self, other: &Self) {
    }
}

/// Id of a `PipelineLayoutHandle`.
#[derive(Debug, Clone, Copy, Hash, PartialEq, Eq, Structural)]
pub struct PipelineLayoutId(pub EntityId);

impl PipelineLayoutId {
    pub fn new(entity_id: EntityId) -> (id: Self)
        ensures
            id.0 == entity_id,
    {
        Self(entity_id)
    }

    pub fn id(&self) -> (entity_id: EntityId)
        ensures
            entity_id == self.0,
    {
        self.0
    }

    pub fn id_ref(&self) -> (entity_id: &EntityId)
        ensures
            *entity_id == self.0,
    {
        &self.0
    }

    pub fn id_mut(&mut self) -> (entity_id: &mut EntityId)
        ensures
            *entity_id == old(self).0,
            final(self).0 == *final(entity_id),
    {
        &mut self.0
    }
}

impl Identifier for PipelineLayoutId {
    open spec fn entity(&self) -> EntityId {
        self.0
    }

    fn entity_id(&self) -> (id: EntityId) {
        self.0
    }
}

impl Equivalent for PipelineLayoutId {
    open spec fn same(&self, other: &Self) -> bool {
        *self == *other
    }

    fn equals(&self, other: &Self) -> (equal: bool) {
        *self == *other
    }

    proof fn lemma_same_reflexive(&self) {
    }

    proof fn lemma_same_symmetric(&self, other: &Self) {
    }

    proof fn lemma_same_transitive(&self, middle: &Self, other: &Self) {
    }
}

/// Id of a `RenderPipelineHandle`.
#[derive(Debug, Clone, Copy, Hash, PartialEq, Eq, Structural)]
pub struct RenderPipelineId(pub EntityId);

impl RenderPipelineId {
    pub fn new(entity_id: EntityId) -> (id: Self)
        ensures
            id.0 == entity_id,
    {
        Self(entity_id)
    }

    pub fn id(&self) -> (entity_id: EntityId)
        ensures
            entity_id == self.0,
    {
        self.0
    }

    pub fn id_ref(&self) -> (entity_id: &EntityId)
        ensures
            *entity_id == self.0,
    {
        &self.0
    }

    pub fn id_mut(&mut self) -> (entity_id: &mut EntityId)
        ensures
            *entity_id == old(self).0,
            final(self).0 == *final(entity_id),
    {
        &mut self.0
    }
}

impl Identifier for RenderPipelineId {
    open spec fn entity(&self) -> EntityId {
        self.0
    }

    fn entity_id(&self) -> (id: EntityId) {
        self.0
    }
}

impl Equivalent for RenderPipelineId {
    open spec fn same(&self, other: &Self) -> bool {
        *self == *other
    }

    fn equals(&self, other: &Self) -> (equal: bool) {
        *self == *other
    }

    proof fn lemma_same_reflexive(&self) {
    }

    proof fn lemma_same_symmetric(&self, other: &Self) {
    }

    proof fn lemma_same_transitive(&self, middle: &Self, other: &Self) {
    }
}

/// Id of a `ComputePipelineHandle`.
#[derive(Debug, Clone, Copy, Hash, PartialEq, Eq, Structural)]
pub struct ComputePipelineId(pub EntityId);

impl ComputePipelineId {
    pub fn new(entity_id: EntityId) -> (id: Self)
        ensures
            id.0 == entity_id,
    {
        Self(entity_id)
    }

    pub fn id(&self) -> (entity_id: EntityId)
        ensures
            entity_id == self.0,
    {
        self.0
    }

    pub fn id_ref(&self) -> (entity_id: &EntityId)
        ensures
            *entity_id == self.0,
    {
        &self.0
    }

    pub fn id_mut(&mut self) -> (entity_id: &mut EntityId)
        ensures
            *entity_id == old(self).0,
            final(self).0 == *final(entity_id),
    {
        &mut self.0
    }
}

impl Identifier for ComputePipelineId {
    open spec fn entity(&self) -> EntityId {
        self.0
    }

    fn entity_id(&self) -> (id: EntityId) {
        self.0
    }
}

impl Equivalent for ComputePipelineId {
    open spec fn same(&self, other: &Self) -> bool {
        *self == *other
    }

    fn equals(&self, other: &Self) -> (equal: bool) {
        *self == *other
    }

    proof fn lemma_same_reflexive(&self) {
    }

    proof fn lemma_same_symmetric(&self, other: &Self) {
    }

    proof fn lemma_same_transitive(&self, middle: &Self, other: &Self) {
    }
}

/// Id of a `CommandBufferHandle`.
#[derive(Debug, Clone, Copy, Hash, PartialEq, Eq, Structural)]
pub struct CommandBufferId(pub EntityId);

impl CommandBufferId {
    pub fn new(entity_id: EntityId) -> (id: Self)
        ensures
            id.0 == entity_id,
    {
        Self(entity_id)
    }

    pub fn id(&self) -> (entity_id: EntityId)
        ensures
            entity_id == self.0,
    {
        self.0
    }

    pub fn id_ref(&self) -> (entity_id: &EntityId)
        ensures
            *entity_id == self.0,
    {
        &self.0
    }

    pub fn id_mut(&mut self) -> (entity_id: &mut EntityId)
        ensures
            *entity_id == old(self).0,
            final(self).0 == *final(entity_id),
    {
        &mut self.0
    }
}

impl Identifier for CommandBufferId {
    open spec fn entity(&self) -> EntityId {
        self.0
    }

    fn entity_id(&self) -> (id: EntityId) {
        self.0
    }
}

impl Equivalent for CommandBufferId {
    open spec fn same(&self, other: &Self) -> bool {
        *self == *other
    }

    fn equals(&self, other: &Self) -> (equal: bool) {
        *self == *other
    }

    proof fn lemma_same_reflexive(&self) {
    }

    proof fn lemma_same_symmetric(&self, other: &Self) {
    }

    proof fn lemma_same_transitive(&self, middle: &Self, other: &Self) {
    }
}

/// The kinds of resources.
#[derive(Debug, Clone, Copy, PartialEq, Eq, Structural)]
pub enum ResourceType {
    Instance,
    Device,
    Swapchain,
    Buffer,
    Texture,
    TextureView,
    Sampler,
    ShaderModule,
    BindGroupLayout,
    BindGroup,
    PipelineLayout,
    RenderPipeline,
    ComputePipeline,
    CommandBuffer,
}

impl ResourceType {
    /// How many kinds there are.
    pub const COUNT: usize = 14;

    /// The place of the kind among the kinds.
    pub open spec fn index_spec(&self) -> int {
        match *self {
            Self::Instance => 0,
            Self::Device => 1,
            Self::Swapchain => 2,
            Self::Buffer => 3,
            Self::Texture => 4,
            Self::TextureView => 5,
            Self::Sampler => 6,
            Self::ShaderModule => 7,
            Self::BindGroupLayout => 8,
            Self::BindGroup => 9,
            Self::PipelineLayout => 10,
            Self::RenderPipeline => 11,
            Self::ComputePipeline => 12,
            Self::CommandBuffer => 13,
        }
    }

    /// The place of the kind among the kinds.
    pub fn index(&self) -> (index: usize)
        ensures
            index == self.index_spec(),
            index < Self::COUNT,
    {
        match self {
            Self::Instance => 0,
            Self::Device => 1,
            Self::Swapchain => 2,
            Self::Buffer => 3,
            Self::Texture => 4,
            Self::TextureView => 5,
            Self::Sampler => 6,
            Self::ShaderModule => 7,
            Self::BindGroupLayout => 8,
            Self::BindGroup => 9,
            Self::PipelineLayout => 10,
            Self::RenderPipeline => 11,
            Self::ComputePipeline => 12,
            Self::CommandBuffer => 13,
        }
    }
}

/// The identifier of a resource of any kind.
#[derive(Debug, Clone, Copy, PartialEq, Eq, Structural)]
pub enum ResourceId {
    Instance(InstanceId),
    Device(DeviceId),
    Swapchain(SwapchainId),
    Buffer(BufferId),
    Texture(TextureId),
    TextureView(TextureViewId),
    Sampler(SamplerId),
    ShaderModule(ShaderModuleId),
    BindGroupLayout(BindGroupLayoutId),
    BindGroup(BindGroupId),
    PipelineLayout(PipelineLayoutId),
    RenderPipeline(RenderPipelineId),
    ComputePipeline(ComputePipelineId),
    CommandBuffer(CommandBufferId),
}

impl ResourceId {
    /// The entity that the identifier names.
    pub open spec fn entity_spec(&self) -> EntityId {
        match *self {
            Self::Instance(id) => id.0,
            Self::Device(id) => id.0,
            Self::Swapchain(id) => id.0,
            Self::Buffer(id) => id.0,
            Self::Texture(id) => id.0,
            Self::TextureView(id) => id.0,
            Self::Sampler(id) => id.0,
            Self::ShaderModule(id) => id.0,
            Self::BindGroupLayout(id) => id.0,
            Self::BindGroup(id) => id.0,
            Self::PipelineLayout(id) => id.0,
            Self::RenderPipeline(id) => id.0,
            Self::ComputePipeline(id) => id.0,
            Self::CommandBuffer(id) => id.0,
        }
    }

    /// The kind of resource that the identifier is for.
    pub open spec fn kind_spec(&self) -> ResourceType {
        match *self {
            Self::Instance(_) => ResourceType::Instance,
            Self::Device(_) => ResourceType::Device,
            Self::Swapchain(_) => ResourceType::Swapchain,
            Self::Buffer(_) => ResourceType::Buffer,
            Self::Texture(_) => ResourceType::Texture,
            Self::TextureView(_) => ResourceType::TextureView,
            Self::Sampler(_) => ResourceType::Sampler,
            Self::ShaderModule(_) => ResourceType::ShaderModule,
            Self::BindGroupLayout(_) => ResourceType::BindGroupLayout,
            Self::BindGroup(_) => ResourceType::BindGroup,
            Self::PipelineLayout(_) => ResourceType::PipelineLayout,
            Self::RenderPipeline(_) => ResourceType::RenderPipeline,
            Self::ComputePipeline(_) => ResourceType::ComputePipeline,
            Self::CommandBuffer(_) => ResourceType::CommandBuffer,
        }
    }

    /// The identifier of the kind `kind` for `entity`.
    pub open spec fn typed_spec(kind: ResourceType, entity: EntityId) -> Self {
        match kind {
            ResourceType::Instance => Self::Instance(InstanceId(entity)),
            ResourceType::Device => Self::Device(DeviceId(entity)),
            ResourceType::Swapchain => Self::Swapchain(SwapchainId(entity)),
            ResourceType::Buffer => Self::Buffer(BufferId(entity)),
            ResourceType::Texture => Self::Texture(TextureId(entity)),
            ResourceType::TextureView => Self::TextureView(TextureViewId(entity)),
            ResourceType::Sampler => Self::Sampler(SamplerId(entity)),
            ResourceType::ShaderModule => Self::ShaderModule(ShaderModuleId(entity)),
            ResourceType::BindGroupLayout => Self::BindGroupLayout(BindGroupLayoutId(entity)),
            ResourceType::BindGroup => Self::BindGroup(BindGroupId(entity)),
            ResourceType::PipelineLayout => Self::PipelineLayout(PipelineLayoutId(entity)),
            ResourceType::RenderPipeline => Self::RenderPipeline(RenderPipelineId(entity)),
            ResourceType::ComputePipeline => Self::ComputePipeline(ComputePipelineId(entity)),
            ResourceType::CommandBuffer => Self::CommandBuffer(CommandBufferId(entity)),
        }
    }

    /// An identifier is that of its kind for its entity.
    pub proof fn lemma_typed(&self)
        ensures
            Self::typed_spec(self.kind_spec(), self.entity_spec()) == *self,
    {
    }

    /// The entity that the identifier names.
    pub fn entity_id(&self) -> (entity: EntityId)
        ensures
            entity == self.entity_spec(),
    {
        match self {
            Self::Instance(id) => id.0,
            Self::Device(id) => id.0,
            Self::Swapchain(id) => id.0,
            Self::Buffer(id) => id.0,
            Self::Texture(id) => id.0,
            Self::TextureView(id) => id.0,
            Self::Sampler(id) => id.0,
            Self::ShaderModule(id) => id.0,
            Self::BindGroupLayout(id) => id.0,
            Self::BindGroup(id) => id.0,
            Self::PipelineLayout(id) => id.0,
            Self::RenderPipeline(id) => id.0,
            Self::ComputePipeline(id) => id.0,
            Self::CommandBuffer(id) => id.0,
        }
    }

    /// The kind of resource that the identifier is for.
    pub fn kind(&self) -> (kind: ResourceType)
        ensures
            kind == self.kind_spec(),
    {
        match self {
            Self::Instance(_) => ResourceType::Instance,
            Self::Device(_) => ResourceType::Device,
            Self::Swapchain(_) => ResourceType::Swapchain,
            Self::Buffer(_) => ResourceType::Buffer,
            Self::Texture(_) => ResourceType::Texture,
            Self::TextureView(_) => ResourceType::TextureView,
            Self::Sampler(_) => ResourceType::Sampler,
            Self::ShaderModule(_) => ResourceType::ShaderModule,
            Self::BindGroupLayout(_) => ResourceType::BindGroupLayout,
            Self::BindGroup(_) => ResourceType::BindGroup,
            Self::PipelineLayout(_) => ResourceType::PipelineLayout,
            Self::RenderPipeline(_) => ResourceType::RenderPipeline,
            Self::ComputePipeline(_) => ResourceType::ComputePipeline,
            Self::CommandBuffer(_) => ResourceType::CommandBuffer,
        }
    }

    /// The identifier of the kind `kind` for `entity`.
    pub fn typed(kind: ResourceType, entity: EntityId) -> (id: Self)
        ensures
            id == Self::typed_spec(kind, entity),
            id.kind_spec() == kind,
            id.entity_spec() == entity,
    {
        match kind {
            ResourceType::Instance => Self::Instance(InstanceId(entity)),
            ResourceType::Device => Self::Device(DeviceId(entity)),
            ResourceType::Swapchain => Self::Swapchain(SwapchainId(entity)),
            ResourceType::Buffer => Self::Buffer(BufferId(entity)),
            ResourceType::Texture => Self::Texture(TextureId(entity)),
            ResourceType::TextureView => Self::TextureView(TextureViewId(entity)),
            ResourceType::Sampler => Self::Sampler(SamplerId(entity)),
            ResourceType::ShaderModule => Self::ShaderModule(ShaderModuleId(entity)),
            ResourceType::BindGroupLayout => Self::BindGroupLayout(BindGroupLayoutId(entity)),
            ResourceType::BindGroup => Self::BindGroup(BindGroupId(entity)),
            ResourceType::PipelineLayout => Self::PipelineLayout(PipelineLayoutId(entity)),
            ResourceType::RenderPipeline => Self::RenderPipeline(RenderPipelineId(entity)),
            ResourceType::ComputePipeline => Self::ComputePipeline(ComputePipelineId(entity)),
            ResourceType::CommandBuffer => Self::CommandBuffer(CommandBufferId(entity)),
        }
    }
}

} // verus!
