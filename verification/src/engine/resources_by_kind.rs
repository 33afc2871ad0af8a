//! The resource manager, kind by kind: for each kind of resource, its
//! resources, their descriptors and handles, and how to add, update and
//! remove one.

use vstd::prelude::*;
use crate::common::resources::BindGroupId;
use crate::common::resources::BindGroupLayoutId;
use crate::common::resources::BufferId;
use crate::common::resources::CommandBufferId;
use crate::common::resources::ComputePipelineId;
use crate::common::resources::DeviceId;
use crate::common::resources::InstanceId;
use crate::common::resources::PipelineLayoutId;
use crate::common::resources::RenderPipelineId;
use crate::common::resources::ResourceId;
use crate::common::resources::ResourceType;
use crate::common::resources::SamplerId;
use crate::common::resources::ShaderModuleId;
use crate::common::resources::SwapchainId;
use crate::common::resources::TextureId;
use crate::common::resources::TextureViewId;
use crate::common::resources::descriptors::ResourceDescriptor;
use crate::common::resources::descriptors::bind_group::BindGroupDescriptor;
use crate::common::resources::descriptors::bind_group_layout::BindGroupLayoutDescriptor;
use crate::common::resources::descriptors::buffer::BufferDescriptor;
use crate::common::resources::descriptors::command_buffer::CommandBufferDescriptor;
use crate::common::resources::descriptors::compute_pipeline::ComputePipelineDescriptor;
use crate::common::resources::descriptors::device::DeviceDescriptor;
use crate::common::resources::descriptors::instance::InstanceDescriptor;
use crate::common::resources::descriptors::pipeline_layout::PipelineLayoutDescriptor;
use crate::common::resources::descriptors::render_pipeline::RenderPipelineDescriptor;
use crate::common::resources::descriptors::sampler::SamplerDescriptor;
use crate::common::resources::descriptors::shader_module::ShaderModuleDescriptor;
use crate::common::resources::descriptors::swapchain::SwapchainDescriptor;
use crate::common::resources::descriptors::texture::TextureDescriptor;
use crate::common::resources::descriptors::texture_view::TextureViewDescriptor;
use crate::common::resources::handles::BindGroupHandle;
use crate::common::resources::handles::BindGroupLayoutHandle;
use crate::common::resources::handles::BufferHandle;
use crate::common::resources::handles::CommandBufferHandle;
use crate::common::resources::handles::ComputePipelineHandle;
use crate::common::resources::handles::DeviceHandle;
use crate::common::resources::handles::InstanceHandle;
use crate::common::resources::handles::PipelineLayoutHandle;
use crate::common::resources::handles::RenderPipelineHandle;
use crate::common::resources::handles::ResourceHandle;
use crate::common::resources::handles::SamplerHandle;
use crate::common::resources::handles::ShaderModuleHandle;
use crate::common::resources::handles::SwapchainHandle;
use crate::common::resources::handles::TextureHandle;
use crate::common::resources::handles::TextureViewHandle;
use crate::common::tasks::TaskId;
use crate::engine::resource_manager::ResourceManager;
use crate::entity_manager::EntityId;
use crate::entity_manager::EntityManagerError;

verus! {

impl ResourceManager {
    /// The descriptor of the instance `id`, where `id` names one.
    pub open spec fn instance_descriptor_spec(&self, id: InstanceId) -> Option<InstanceDescriptor> {
        match self.descriptor_of(id.0) {
            Some(ResourceDescriptor::Instance(descriptor)) => Some(descriptor),
            _ => None,
        }
    }

    /// The handle of the instance `id`, where `id` names a resource with a handle
    /// of that kind.
    pub open spec fn instance_handle_spec(&self, id: InstanceId) -> Option<InstanceHandle> {
        match self.handle_of(id.0) {
            Some(ResourceHandle::Instance(handle)) => Some(handle),
            _ => None,
        }
    }

    /// The instances, by rising index.
    pub fn instances(&self) -> (ids: Vec<InstanceId>)
        requires
            self.wf(),
        ensures
            forall|id: InstanceId| ids@.contains(id) <==> self.instance_descriptor_spec(id) is Some,
            forall|i: int, j: int| 0 <= i < j < ids@.len() ==> ids@[i].0.0 < ids@[j].0.0,
    {
        let entities = self.entities_of_kind(ResourceType::Instance);
        let mut ids: Vec<InstanceId> = Vec::new();
        let mut i: usize = 0;
        while i < entities.len()
            invariant
                i <= entities.len(),
                ids@.len() == i,
                forall|j: int| 0 <= j < i ==> ids@[j] == InstanceId(entities@[j]),
            decreases entities.len() - i,
        {
            ids.push(InstanceId(entities[i]));
            i += 1;
        }
        proof {
            assert forall|id: InstanceId| ids@.contains(id) <==> self.instance_descriptor_spec(id) is Some by {
                if ids@.contains(id) {
                    let j = choose|j: int| 0 <= j < ids@.len() && ids@[j] == id;
                    assert(entities@.contains(entities@[j]));
                }
                if self.instance_descriptor_spec(id) is Some {
                    assert(entities@.contains(id.0));
                    let j = choose|j: int| 0 <= j < entities@.len() && entities@[j] == id.0;
                    assert(ids@[j] == id);
                }
            }
        }
        ids
    }

    pub fn instance_descriptor_ref(&self, id: &InstanceId) -> (descriptor: Option<&InstanceDescriptor>)
        requires
            self.wf(),
        ensures
            match descriptor {
                Some(d) => self.instance_descriptor_spec(*id) == Some(*d),
                None => self.instance_descriptor_spec(*id) is None,
            },
    {
        match self.entity_descriptor_ref(id.id_ref()) {
            Some(ResourceDescriptor::Instance(descriptor)) => Some(descriptor),
            _ => None,
        }
    }

    pub fn instance_handle_ref(&self, id: &InstanceId) -> (handle: Option<&InstanceHandle>)
        requires
            self.wf(),
        ensures
            match handle {
                Some(h) => self.instance_handle_spec(*id) == Some(*h),
                None => self.instance_handle_spec(*id) is None,
            },
    {
        match self.entity_handle_ref(id.id_ref()) {
            Some(ResourceHandle::Instance(handle)) => Some(handle),
            _ => None,
        }
    }

    /// Add an instance for `task`: see `add_resource`.
    pub fn add_instance(&mut self, task: TaskId, descriptor: InstanceDescriptor, handle: Option<InstanceHandle>) -> (result:
        Result<InstanceId, EntityManagerError>)
        requires
            old(self).wf(),
        ensures
            final(self).wf(),
            final(self).added(
                old(self),
                task,
                ResourceDescriptor::Instance(descriptor),
                match handle {
                    Some(h) => Some(ResourceHandle::Instance(h)),
                    None => None,
                },
                match result {
                    Ok(id) => Ok(ResourceId::Instance(id)),
                    Err(error) => Err(error),
                },
            ),
    {
        let handle = match handle {
            Some(h) => Some(ResourceHandle::Instance(h)),
            None => None,
        };
        proof {
            self.lemma_compatible_is_valid(None, ResourceDescriptor::Instance(descriptor));
        }
        match self.add_resource(task, ResourceDescriptor::Instance(descriptor), handle) {
            Ok(ResourceId::Instance(id)) => Ok(id),
            Ok(_) => {
                assert(false);
                Err(EntityManagerError::MissingDependencies)
            },
            Err(error) => Err(error),
        }
    }

    /// Update the descriptor of the instance `id`, for `task`: see
    /// `update_resource_descriptor`.
    pub fn update_instance_descriptor(&mut self, task: &TaskId, id: &mut InstanceId, descriptor: InstanceDescriptor) -> (updated:
        bool)
        requires
            old(self).wf(),
        ensures
            final(self).wf(),
            final(self).redescribed(
                old(self),
                *task,
                ResourceId::Instance(*old(id)),
                ResourceId::Instance(*final(id)),
                ResourceDescriptor::Instance(descriptor),
                updated,
            ),
    {
        let mut resource = ResourceId::Instance(*id);
        proof {
            self.lemma_compatible_is_valid(Some(resource), ResourceDescriptor::Instance(descriptor));
        }
        let updated = self.update_resource_descriptor(
            task,
            &mut resource,
            ResourceDescriptor::Instance(descriptor),
        );
        match resource {
            ResourceId::Instance(moved) => {
                *id = moved;
            },
            _ => {
                assert(false);
            },
        }
        updated
    }

    /// Remove the instance `id`, for `task`: see `remove_resource`.
    pub fn remove_instance(&mut self, task: &TaskId, id: &InstanceId) -> (result: Result<(), ()>)
        requires
            old(self).wf(),
        ensures
            final(self).wf(),
            final(self).released(old(self), *task, ResourceId::Instance(*id), result),
    {
        self.remove_resource(task, &ResourceId::Instance(*id))
    }

    /// The descriptor of the device `id`, where `id` names one.
    pub open spec fn device_descriptor_spec(&self, id: DeviceId) -> Option<DeviceDescriptor> {
        match self.descriptor_of(id.0) {
            Some(ResourceDescriptor::Device(descriptor)) => Some(descriptor),
            _ => None,
        }
    }

    /// The handle of the device `id`, where `id` names a resource with a handle
    /// of that kind.
    pub open spec fn device_handle_spec(&self, id: DeviceId) -> Option<DeviceHandle> {
        match self.handle_of(id.0) {
            Some(ResourceHandle::Device(handle)) => Some(handle),
            _ => None,
        }
    }

    /// The devices, by rising index.
    pub fn devices(&self) -> (ids: Vec<DeviceId>)
        requires
            self.wf(),
        ensures
            forall|id: DeviceId| ids@.contains(id) <==> self.device_descriptor_spec(id) is Some,
            forall|i: int, j: int| 0 <= i < j < ids@.len() ==> ids@[i].0.0 < ids@[j].0.0,
    {
        let entities = self.entities_of_kind(ResourceType::Device);
        let mut ids: Vec<DeviceId> = Vec::new();
        let mut i: usize = 0;
        while i < entities.len()
            invariant
                i <= entities.len(),
                ids@.len() == i,
                forall|j: int| 0 <= j < i ==> ids@[j] == DeviceId(entities@[j]),
            decreases entities.len() - i,
        {
            ids.push(DeviceId(entities[i]));
            i += 1;
        }
        proof {
            assert forall|id: DeviceId| ids@.contains(id) <==> self.device_descriptor_spec(id) is Some by {
                if ids@.contains(id) {
                    let j = choose|j: int| 0 <= j < ids@.len() && ids@[j] == id;
                    assert(entities@.contains(entities@[j]));
                }
                if self.device_descriptor_spec(id) is Some {
                    assert(entities@.contains(id.0));
                    let j = choose|j: int| 0 <= j < entities@.len() && entities@[j] == id.0;
                    assert(ids@[j] == id);
                }
            }
        }
        ids
    }

    pub fn device_descriptor_ref(&self, id: &DeviceId) -> (descriptor: Option<&DeviceDescriptor>)
        requires
            self.wf(),
        ensures
            match descriptor {
                Some(d) => self.device_descriptor_spec(*id) == Some(*d),
                None => self.device_descriptor_spec(*id) is None,
            },
    {
        match self.entity_descriptor_ref(id.id_ref()) {
            Some(ResourceDescriptor::Device(descriptor)) => Some(descriptor),
            _ => None,
        }
    }

    pub fn device_handle_ref(&self, id: &DeviceId) -> (handle: Option<&DeviceHandle>)
        requires
            self.wf(),
        ensures
            match handle {
                Some(h) => self.device_handle_spec(*id) == Some(*h),
                None => self.device_handle_spec(*id) is None,
            },
    {
        match self.entity_handle_ref(id.id_ref()) {
            Some(ResourceHandle::Device(handle)) => Some(handle),
            _ => None,
        }
    }

    /// Add a device for `task`: see `add_resource`.
    pub fn add_device(&mut self, task: TaskId, descriptor: DeviceDescriptor, handle: Option<DeviceHandle>) -> (result:
        Result<DeviceId, EntityManagerError>)
        requires
            old(self).wf(),
        ensures
            final(self).wf(),
            final(self).added(
                old(self),
                task,
                ResourceDescriptor::Device(descriptor),
                match handle {
                    Some(h) => Some(ResourceHandle::Device(h)),
                    None => None,
                },
                match result {
                    Ok(id) => Ok(ResourceId::Device(id)),
                    Err(error) => Err(error),
                },
            ),
    {
        let handle = match handle {
            Some(h) => Some(ResourceHandle::Device(h)),
            None => None,
        };
        proof {
            self.lemma_compatible_is_valid(None, ResourceDescriptor::Device(descriptor));
        }
        match self.add_resource(task, ResourceDescriptor::Device(descriptor), handle) {
            Ok(ResourceId::Device(id)) => Ok(id),
            Ok(_) => {
                assert(false);
                Err(EntityManagerError::MissingDependencies)
            },
            Err(error) => Err(error),
        }
    }

    /// Update the descriptor of the device `id`, for `task`: see
    /// `update_resource_descriptor`.
    pub fn update_device_descriptor(&mut self, task: &TaskId, id: &mut DeviceId, descriptor: DeviceDescriptor) -> (updated:
        bool)
        requires
            old(self).wf(),
        ensures
            final(self).wf(),
            final(self).redescribed(
                old(self),
                *task,
                ResourceId::Device(*old(id)),
                ResourceId::Device(*final(id)),
                ResourceDescriptor::Device(descriptor),
                updated,
            ),
    {
        let mut resource = ResourceId::Device(*id);
        proof {
            self.lemma_compatible_is_valid(Some(resource), ResourceDescriptor::Device(descriptor));
        }
        let updated = self.update_resource_descriptor(
            task,
            &mut resource,
            ResourceDescriptor::Device(descriptor),
        );
        match resource {
            ResourceId::Device(moved) => {
                *id = moved;
            },
            _ => {
                assert(false);
            },
        }
        updated
    }

    /// Remove the device `id`, for `task`: see `remove_resource`.
    pub fn remove_device(&mut self, task: &TaskId, id: &DeviceId) -> (result: Result<(), ()>)
        requires
            old(self).wf(),
        ensures
            final(self).wf(),
            final(self).released(old(self), *task, ResourceId::Device(*id), result),
    {
        self.remove_resource(task, &ResourceId::Device(*id))
    }

    /// The descriptor of the swapchain `id`, where `id` names one.
    pub open spec fn swapchain_descriptor_spec(&self, id: SwapchainId) -> Option<SwapchainDescriptor> {
        match self.descriptor_of(id.0) {
            Some(ResourceDescriptor::Swapchain(descriptor)) => Some(descriptor),
            _ => None,
        }
    }

    /// The handle of the swapchain `id`, where `id` names a resource with a handle
    /// of that kind.
    pub open spec fn swapchain_handle_spec(&self, id: SwapchainId) -> Option<SwapchainHandle> {
        match self.handle_of(id.0) {
            Some(ResourceHandle::Swapchain(handle)) => Some(handle),
            _ => None,
        }
    }

    /// The swapchains, by rising index.
    pub fn swapchains(&self) -> (ids: Vec<SwapchainId>)
        requires
            self.wf(),
        ensures
            forall|id: SwapchainId| ids@.contains(id) <==> self.swapchain_descriptor_spec(id) is Some,
            forall|i: int, j: int| 0 <= i < j < ids@.len() ==> ids@[i].0.0 < ids@[j].0.0,
    {
        let entities = self.entities_of_kind(ResourceType::Swapchain);
        let mut ids: Vec<SwapchainId> = Vec::new();
        let mut i: usize = 0;
        while i < entities.len()
            invariant
                i <= entities.len(),
                ids@.len() == i,
                forall|j: int| 0 <= j < i ==> ids@[j] == SwapchainId(entities@[j]),
            decreases entities.len() - i,
        {
            ids.push(SwapchainId(entities[i]));
            i += 1;
        }
        proof {
            assert forall|id: SwapchainId| ids@.contains(id) <==> self.swapchain_descriptor_spec(id) is Some by {
                if ids@.contains(id) {
                    let j = choose|j: int| 0 <= j < ids@.len() && ids@[j] == id;
                    assert(entities@.contains(entities@[j]));
                }
                if self.swapchain_descriptor_spec(id) is Some {
                    assert(entities@.contains(id.0));
                    let j = choose|j: int| 0 <= j < entities@.len() && entities@[j] == id.0;
                    assert(ids@[j] == id);
                }
            }
        }
        ids
    }

    pub fn swapchain_descriptor_ref(&self, id: &SwapchainId) -> (descriptor: Option<&SwapchainDescriptor>)
        requires
            self.wf(),
        ensures
            match descriptor {
                Some(d) => self.swapchain_descriptor_spec(*id) == Some(*d),
                None => self.swapchain_descriptor_spec(*id) is None,
            },
    {
        match self.entity_descriptor_ref(id.id_ref()) {
            Some(ResourceDescriptor::Swapchain(descriptor)) => Some(descriptor),
            _ => None,
        }
    }

    pub fn swapchain_handle_ref(&self, id: &SwapchainId) -> (handle: Option<&SwapchainHandle>)
        requires
            self.wf(),
        ensures
            match handle {
                Some(h) => self.swapchain_handle_spec(*id) == Some(*h),
                None => self.swapchain_handle_spec(*id) is None,
            },
    {
        match self.entity_handle_ref(id.id_ref()) {
            Some(ResourceHandle::Swapchain(handle)) => Some(handle),
            _ => None,
        }
    }

    /// Add a swapchain for `task`: see `add_resource`.
    pub fn add_swapchain(&mut self, task: TaskId, descriptor: SwapchainDescriptor, handle: Option<SwapchainHandle>) -> (result:
        Result<SwapchainId, EntityManagerError>)
        requires
            old(self).wf(),
        ensures
            final(self).wf(),
            final(self).added(
                old(self),
                task,
                ResourceDescriptor::Swapchain(descriptor),
                match handle {
                    Some(h) => Some(ResourceHandle::Swapchain(h)),
                    None => None,
                },
                match result {
                    Ok(id) => Ok(ResourceId::Swapchain(id)),
                    Err(error) => Err(error),
                },
            ),
    {
        let handle = match handle {
            Some(h) => Some(ResourceHandle::Swapchain(h)),
            None => None,
        };
        proof {
            self.lemma_compatible_is_valid(None, ResourceDescriptor::Swapchain(descriptor));
        }
        match self.add_resource(task, ResourceDescriptor::Swapchain(descriptor), handle) {
            Ok(ResourceId::Swapchain(id)) => Ok(id),
            Ok(_) => {
                assert(false);
                Err(EntityManagerError::MissingDependencies)
            },
            Err(error) => Err(error),
        }
    }

    /// Update the descriptor of the swapchain `id`, for `task`: see
    /// `update_resource_descriptor`.
    pub fn update_swapchain_descriptor(&mut self, task: &TaskId, id: &mut SwapchainId, descriptor: SwapchainDescriptor) -> (updated:
        bool)
        requires
            old(self).wf(),
        ensures
            final(self).wf(),
            final(self).redescribed(
                old(self),
                *task,
                ResourceId::Swapchain(*old(id)),
                ResourceId::Swapchain(*final(id)),
                ResourceDescriptor::Swapchain(descriptor),
                updated,
            ),
    {
        let mut resource = ResourceId::Swapchain(*id);
        proof {
            self.lemma_compatible_is_valid(Some(resource), ResourceDescriptor::Swapchain(descriptor));
        }
        let updated = self.update_resource_descriptor(
            task,
            &mut resource,
            ResourceDescriptor::Swapchain(descriptor),
        );
        match resource {
            ResourceId::Swapchain(moved) => {
                *id = moved;
            },
            _ => {
                assert(false);
            },
        }
        updated
    }

    /// Remove the swapchain `id`, for `task`: see `remove_resource`.
    pub fn remove_swapchain(&mut self, task: &TaskId, id: &SwapchainId) -> (result: Result<(), ()>)
        requires
            old(self).wf(),
        ensures
            final(self).wf(),
            final(self).released(old(self), *task, ResourceId::Swapchain(*id), result),
    {
        self.remove_resource(task, &ResourceId::Swapchain(*id))
    }

    /// The descriptor of the buffer `id`, where `id` names one.
    pub open spec fn buffer_descriptor_spec(&self, id: BufferId) -> Option<BufferDescriptor> {
        match self.descriptor_of(id.0) {
            Some(ResourceDescriptor::Buffer(descriptor)) => Some(descriptor),
            _ => None,
        }
    }

    /// The handle of the buffer `id`, where `id` names a resource with a handle
    /// of that kind.
    pub open spec fn buffer_handle_spec(&self, id: BufferId) -> Option<BufferHandle> {
        match self.handle_of(id.0) {
            Some(ResourceHandle::Buffer(handle)) => Some(handle),
            _ => None,
        }
    }

    /// The buffers, by rising index.
    pub fn buffers(&self) -> (ids: Vec<BufferId>)
        requires
            self.wf(),
        ensures
            forall|id: BufferId| ids@.contains(id) <==> self.buffer_descriptor_spec(id) is Some,
            forall|i: int, j: int| 0 <= i < j < ids@.len() ==> ids@[i].0.0 < ids@[j].0.0,
    {
        let entities = self.entities_of_kind(ResourceType::Buffer);
        let mut ids: Vec<BufferId> = Vec::new();
        let mut i: usize = 0;
        while i < entities.len()
            invariant
                i <= entities.len(),
                ids@.len() == i,
                forall|j: int| 0 <= j < i ==> ids@[j] == BufferId(entities@[j]),
            decreases entities.len() - i,
        {
            ids.push(BufferId(entities[i]));
            i += 1;
        }
        proof {
            assert forall|id: BufferId| ids@.contains(id) <==> self.buffer_descriptor_spec(id) is Some by {
                if ids@.contains(id) {
                    let j = choose|j: int| 0 <= j < ids@.len() && ids@[j] == id;
                    assert(entities@.contains(entities@[j]));
                }
                if self.buffer_descriptor_spec(id) is Some {
                    assert(entities@.contains(id.0));
                    let j = choose|j: int| 0 <= j < entities@.len() && entities@[j] == id.0;
                    assert(ids@[j] == id);
                }
            }
        }
        ids
    }

    pub fn buffer_descriptor_ref(&self, id: &BufferId) -> (descriptor: Option<&BufferDescriptor>)
        requires
            self.wf(),
        ensures
            match descriptor {
                Some(d) => self.buffer_descriptor_spec(*id) == Some(*d),
                None => self.buffer_descriptor_spec(*id) is None,
            },
    {
        match self.entity_descriptor_ref(id.id_ref()) {
            Some(ResourceDescriptor::Buffer(descriptor)) => Some(descriptor),
            _ => None,
        }
    }

    pub fn buffer_handle_ref(&self, id: &BufferId) -> (handle: Option<&BufferHandle>)
        requires
            self.wf(),
        ensures
            match handle {
                Some(h) => self.buffer_handle_spec(*id) == Some(*h),
                None => self.buffer_handle_spec(*id) is None,
            },
    {
        match self.entity_handle_ref(id.id_ref()) {
            Some(ResourceHandle::Buffer(handle)) => Some(handle),
            _ => None,
        }
    }

    /// Add a buffer for `task`: see `add_resource`.
    pub fn add_buffer(&mut self, task: TaskId, descriptor: BufferDescriptor, handle: Option<BufferHandle>) -> (result:
        Result<BufferId, EntityManagerError>)
        requires
            old(self).wf(),
        ensures
            final(self).wf(),
            final(self).added(
                old(self),
                task,
                ResourceDescriptor::Buffer(descriptor),
                match handle {
                    Some(h) => Some(ResourceHandle::Buffer(h)),
                    None => None,
                },
                match result {
                    Ok(id) => Ok(ResourceId::Buffer(id)),
                    Err(error) => Err(error),
                },
            ),
    {
        let handle = match handle {
            Some(h) => Some(ResourceHandle::Buffer(h)),
            None => None,
        };
        proof {
            self.lemma_compatible_is_valid(None, ResourceDescriptor::Buffer(descriptor));
        }
        match self.add_resource(task, ResourceDescriptor::Buffer(descriptor), handle) {
            Ok(ResourceId::Buffer(id)) => Ok(id),
            Ok(_) => {
                assert(false);
                Err(EntityManagerError::MissingDependencies)
            },
            Err(error) => Err(error),
        }
    }

    /// Update the descriptor of the buffer `id`, for `task`: see
    /// `update_resource_descriptor`.
    pub fn update_buffer_descriptor(&mut self, task: &TaskId, id: &mut BufferId, descriptor: BufferDescriptor) -> (updated:
        bool)
        requires
            old(self).wf(),
        ensures
            final(self).wf(),
            final(self).redescribed(
                old(self),
                *task,
                ResourceId::Buffer(*old(id)),
                ResourceId::Buffer(*final(id)),
                ResourceDescriptor::Buffer(descriptor),
                updated,
            ),
    {
        let mut resource = ResourceId::Buffer(*id);
        proof {
            self.lemma_compatible_is_valid(Some(resource), ResourceDescriptor::Buffer(descriptor));
        }
        let updated = self.update_resource_descriptor(
            task,
            &mut resource,
            ResourceDescriptor::Buffer(descriptor),
        );
        match resource {
            ResourceId::Buffer(moved) => {
                *id = moved;
            },
            _ => {
                assert(false);
            },
        }
        updated
    }

    /// Remove the buffer `id`, for `task`: see `remove_resource`.
    pub fn remove_buffer(&mut self, task: &TaskId, id: &BufferId) -> (result: Result<(), ()>)
        requires
            old(self).wf(),
        ensures
            final(self).wf(),
            final(self).released(old(self), *task, ResourceId::Buffer(*id), result),
    {
        self.remove_resource(task, &ResourceId::Buffer(*id))
    }

    /// The descriptor of the texture `id`, where `id` names one.
    pub open spec fn texture_descriptor_spec(&self, id: TextureId) -> Option<TextureDescriptor> {
        match self.descriptor_of(id.0) {
            Some(ResourceDescriptor::Texture(descriptor)) => Some(descriptor),
            _ => None,
        }
    }

    /// The handle of the texture `id`, where `id` names a resource with a handle
    /// of that kind.
    pub open spec fn texture_handle_spec(&self, id: TextureId) -> Option<TextureHandle> {
        match self.handle_of(id.0) {
            Some(ResourceHandle::Texture(handle)) => Some(handle),
            _ => None,
        }
    }

    /// The textures, by rising index.
    pub fn textures(&self) -> (ids: Vec<TextureId>)
        requires
            self.wf(),
        ensures
            forall|id: TextureId| ids@.contains(id) <==> self.texture_descriptor_spec(id) is Some,
            forall|i: int, j: int| 0 <= i < j < ids@.len() ==> ids@[i].0.0 < ids@[j].0.0,
    {
        let entities = self.entities_of_kind(ResourceType::Texture);
        let mut ids: Vec<TextureId> = Vec::new();
        let mut i: usize = 0;
        while i < entities.len()
            invariant
                i <= entities.len(),
                ids@.len() == i,
                forall|j: int| 0 <= j < i ==> ids@[j] == TextureId(entities@[j]),
            decreases entities.len() - i,
        {
            ids.push(TextureId(entities[i]));
            i += 1;
        }
        proof {
            assert forall|id: TextureId| ids@.contains(id) <==> self.texture_descriptor_spec(id) is Some by {
                if ids@.contains(id) {
                    let j = choose|j: int| 0 <= j < ids@.len() && ids@[j] == id;
                    assert(entities@.contains(entities@[j]));
                }
                if self.texture_descriptor_spec(id) is Some {
                    assert(entities@.contains(id.0));
                    let j = choose|j: int| 0 <= j < entities@.len() && entities@[j] == id.0;
                    assert(ids@[j] == id);
                }
            }
        }
        ids
    }

    pub fn texture_descriptor_ref(&self, id: &TextureId) -> (descriptor: Option<&TextureDescriptor>)
        requires
            self.wf(),
        ensures
            match descriptor {
                Some(d) => self.texture_descriptor_spec(*id) == Some(*d),
                None => self.texture_descriptor_spec(*id) is None,
            },
    {
        match self.entity_descriptor_ref(id.id_ref()) {
            Some(ResourceDescriptor::Texture(descriptor)) => Some(descriptor),
            _ => None,
        }
    }

    pub fn texture_handle_ref(&self, id: &TextureId) -> (handle: Option<&TextureHandle>)
        requires
            self.wf(),
        ensures
            match handle {
                Some(h) => self.texture_handle_spec(*id) == Some(*h),
                None => self.texture_handle_spec(*id) is None,
            },
    {
        match self.entity_handle_ref(id.id_ref()) {
            Some(ResourceHandle::Texture(handle)) => Some(handle),
            _ => None,
        }
    }

    /// Add a texture for `task`: see `add_resource`.
    pub fn add_texture(&mut self, task: TaskId, descriptor: TextureDescriptor, handle: Option<TextureHandle>) -> (result:
        Result<TextureId, EntityManagerError>)
        requires
            old(self).wf(),
        ensures
            final(self).wf(),
            final(self).added(
                old(self),
                task,
                ResourceDescriptor::Texture(descriptor),
                match handle {
                    Some(h) => Some(ResourceHandle::Texture(h)),
                    None => None,
                },
                match result {
                    Ok(id) => Ok(ResourceId::Texture(id)),
                    Err(error) => Err(error),
                },
            ),
    {
        let handle = match handle {
            Some(h) => Some(ResourceHandle::Texture(h)),
            None => None,
        };
        proof {
            self.lemma_compatible_is_valid(None, ResourceDescriptor::Texture(descriptor));
        }
        match self.add_resource(task, ResourceDescriptor::Texture(descriptor), handle) {
            Ok(ResourceId::Texture(id)) => Ok(id),
            Ok(_) => {
                assert(false);
                Err(EntityManagerError::MissingDependencies)
            },
            Err(error) => Err(error),
        }
    }

    /// Update the descriptor of the texture `id`, for `task`: see
    /// `update_resource_descriptor`.
    pub fn update_texture_descriptor(&mut self, task: &TaskId, id: &mut TextureId, descriptor: TextureDescriptor) -> (updated:
        bool)
        requires
            old(self).wf(),
        ensures
            final(self).wf(),
            final(self).redescribed(
                old(self),
                *task,
                ResourceId::Texture(*old(id)),
                ResourceId::Texture(*final(id)),
                ResourceDescriptor::Texture(descriptor),
                updated,
            ),
    {
        let mut resource = ResourceId::Texture(*id);
        proof {
            self.lemma_compatible_is_valid(Some(resource), ResourceDescriptor::Texture(descriptor));
        }
        let updated = self.update_resource_descriptor(
            task,
            &mut resource,
            ResourceDescriptor::Texture(descriptor),
        );
        match resource {
            ResourceId::Texture(moved) => {
                *id = moved;
            },
            _ => {
                assert(false);
            },
        }
        updated
    }

    /// Remove the texture `id`, for `task`: see `remove_resource`.
    pub fn remove_texture(&mut self, task: &TaskId, id: &TextureId) -> (result: Result<(), ()>)
        requires
            old(self).wf(),
        ensures
            final(self).wf(),
            final(self).released(old(self), *task, ResourceId::Texture(*id), result),
    {
        self.remove_resource(task, &ResourceId::Texture(*id))
    }

    /// The descriptor of the texture_view `id`, where `id` names one.
    pub open spec fn texture_view_descriptor_spec(&self, id: TextureViewId) -> Option<TextureViewDescriptor> {
        match self.descriptor_of(id.0) {
            Some(ResourceDescriptor::TextureView(descriptor)) => Some(descriptor),
            _ => None,
        }
    }

    /// The handle of the texture_view `id`, where `id` names a resource with a handle
    /// of that kind.
    pub open spec fn texture_view_handle_spec(&self, id: TextureViewId) -> Option<TextureViewHandle> {
        match self.handle_of(id.0) {
            Some(ResourceHandle::TextureView(handle)) => Some(handle),
            _ => None,
        }
    }

    /// The texture_views, by rising index.
    pub fn texture_views(&self) -> (ids: Vec<TextureViewId>)
        requires
            self.wf(),
        ensures
            forall|id: TextureViewId| ids@.contains(id) <==> self.texture_view_descriptor_spec(id) is Some,
            forall|i: int, j: int| 0 <= i < j < ids@.len() ==> ids@[i].0.0 < ids@[j].0.0,
    {
        let entities = self.entities_of_kind(ResourceType::TextureView);
        let mut ids: Vec<TextureViewId> = Vec::new();
        let mut i: usize = 0;
        while i < entities.len()
            invariant
                i <= entities.len(),
                ids@.len() == i,
                forall|j: int| 0 <= j < i ==> ids@[j] == TextureViewId(entities@[j]),
            decreases entities.len() - i,
        {
            ids.push(TextureViewId(entities[i]));
            i += 1;
        }
        proof {
            assert forall|id: TextureViewId| ids@.contains(id) <==> self.texture_view_descriptor_spec(id) is Some by {
                if ids@.contains(id) {
                    let j = choose|j: int| 0 <= j < ids@.len() && ids@[j] == id;
                    assert(entities@.contains(entities@[j]));
                }
                if self.texture_view_descriptor_spec(id) is Some {
                    assert(entities@.contains(id.0));
                    let j = choose|j: int| 0 <= j < entities@.len() && entities@[j] == id.0;
                    assert(ids@[j] == id);
                }
            }
        }
        ids
    }

    pub fn texture_view_descriptor_ref(&self, id: &TextureViewId) -> (descriptor: Option<&TextureViewDescriptor>)
        requires
            self.wf(),
        ensures
            match descriptor {
                Some(d) => self.texture_view_descriptor_spec(*id) == Some(*d),
                None => self.texture_view_descriptor_spec(*id) is None,
            },
    {
        match self.entity_descriptor_ref(id.id_ref()) {
            Some(ResourceDescriptor::TextureView(descriptor)) => Some(descriptor),
            _ => None,
        }
    }

    pub fn texture_view_handle_ref(&self, id: &TextureViewId) -> (handle: Option<&TextureViewHandle>)
        requires
            self.wf(),
        ensures
            match handle {
                Some(h) => self.texture_view_handle_spec(*id) == Some(*h),
                None => self.texture_view_handle_spec(*id) is None,
            },
    {
        match self.entity_handle_ref(id.id_ref()) {
            Some(ResourceHandle::TextureView(handle)) => Some(handle),
            _ => None,
        }
    }

    /// Add a texture_view for `task`: see `add_resource`.
    pub fn add_texture_view(&mut self, task: TaskId, descriptor: TextureViewDescriptor, handle: Option<TextureViewHandle>) -> (result:
        Result<TextureViewId, EntityManagerError>)
        requires
            old(self).wf(),
        ensures
            final(self).wf(),
            final(self).added(
                old(self),
                task,
                ResourceDescriptor::TextureView(descriptor),
                match handle {
                    Some(h) => Some(ResourceHandle::TextureView(h)),
                    None => None,
                },
                match result {
                    Ok(id) => Ok(ResourceId::TextureView(id)),
                    Err(error) => Err(error),
                },
            ),
    {
        let handle = match handle {
            Some(h) => Some(ResourceHandle::TextureView(h)),
            None => None,
        };
        proof {
            self.lemma_compatible_is_valid(None, ResourceDescriptor::TextureView(descriptor));
        }
        match self.add_resource(task, ResourceDescriptor::TextureView(descriptor), handle) {
            Ok(ResourceId::TextureView(id)) => Ok(id),
            Ok(_) => {
                assert(false);
                Err(EntityManagerError::MissingDependencies)
            },
            Err(error) => Err(error),
        }
    }

    /// Update the descriptor of the texture_view `id`, for `task`: see
    /// `update_resource_descriptor`.
    pub fn update_texture_view_descriptor(&mut self, task: &TaskId, id: &mut TextureViewId, descriptor: TextureViewDescriptor) -> (updated:
        bool)
        requires
            old(self).wf(),
        ensures
            final(self).wf(),
            final(self).redescribed(
                old(self),
                *task,
                ResourceId::TextureView(*old(id)),
                ResourceId::TextureView(*final(id)),
                ResourceDescriptor::TextureView(descriptor),
                updated,
            ),
    {
        let mut resource = ResourceId::TextureView(*id);
        proof {
            self.lemma_compatible_is_valid(Some(resource), ResourceDescriptor::TextureView(descriptor));
        }
        let updated = self.update_resource_descriptor(
            task,
            &mut resource,
            ResourceDescriptor::TextureView(descriptor),
        );
        match resource {
            ResourceId::TextureView(moved) => {
                *id = moved;
            },
            _ => {
                assert(false);
            },
        }
        updated
    }

    /// Remove the texture_view `id`, for `task`: see `remove_resource`.
    pub fn remove_texture_view(&mut self, task: &TaskId, id: &TextureViewId) -> (result: Result<(), ()>)
        requires
            old(self).wf(),
        ensures
            final(self).wf(),
            final(self).released(old(self), *task, ResourceId::TextureView(*id), result),
    {
        self.remove_resource(task, &ResourceId::TextureView(*id))
    }

    /// The descriptor of the sampler `id`, where `id` names one.
    pub open spec fn sampler_descriptor_spec(&self, id: SamplerId) -> Option<SamplerDescriptor> {
        match self.descriptor_of(id.0) {
            Some(ResourceDescriptor::Sampler(descriptor)) => Some(descriptor),
            _ => None,
        }
    }

    /// The handle of the sampler `id`, where `id` names a resource with a handle
    /// of that kind.
    pub open spec fn sampler_handle_spec(&self, id: SamplerId) -> Option<SamplerHandle> {
        match self.handle_of(id.0) {
            Some(ResourceHandle::Sampler(handle)) => Some(handle),
            _ => None,
        }
    }

    /// The samplers, by rising index.
    pub fn samplers(&self) -> (ids: Vec<SamplerId>)
        requires
            self.wf(),
        ensures
            forall|id: SamplerId| ids@.contains(id) <==> self.sampler_descriptor_spec(id) is Some,
            forall|i: int, j: int| 0 <= i < j < ids@.len() ==> ids@[i].0.0 < ids@[j].0.0,
    {
        let entities = self.entities_of_kind(ResourceType::Sampler);
        let mut ids: Vec<SamplerId> = Vec::new();
        let mut i: usize = 0;
        while i < entities.len()
            invariant
                i <= entities.len(),
                ids@.len() == i,
                forall|j: int| 0 <= j < i ==> ids@[j] == SamplerId(entities@[j]),
            decreases entities.len() - i,
        {
            ids.push(SamplerId(entities[i]));
            i += 1;
        }
        proof {
            assert forall|id: SamplerId| ids@.contains(id) <==> self.sampler_descriptor_spec(id) is Some by {
                if ids@.contains(id) {
                    let j = choose|j: int| 0 <= j < ids@.len() && ids@[j] == id;
                    assert(entities@.contains(entities@[j]));
                }
                if self.sampler_descriptor_spec(id) is Some {
                    assert(entities@.contains(id.0));
                    let j = choose|j: int| 0 <= j < entities@.len() && entities@[j] == id.0;
                    assert(ids@[j] == id);
                }
            }
        }
        ids
    }

    pub fn sampler_descriptor_ref(&self, id: &SamplerId) -> (descriptor: Option<&SamplerDescriptor>)
        requires
            self.wf(),
        ensures
            match descriptor {
                Some(d) => self.sampler_descriptor_spec(*id) == Some(*d),
                None => self.sampler_descriptor_spec(*id) is None,
            },
    {
        match self.entity_descriptor_ref(id.id_ref()) {
            Some(ResourceDescriptor::Sampler(descriptor)) => Some(descriptor),
            _ => None,
        }
    }

    pub fn sampler_handle_ref(&self, id: &SamplerId) -> (handle: Option<&SamplerHandle>)
        requires
            self.wf(),
        ensures
            match handle {
                Some(h) => self.sampler_handle_spec(*id) == Some(*h),
                None => self.sampler_handle_spec(*id) is None,
            },
    {
        match self.entity_handle_ref(id.id_ref()) {
            Some(ResourceHandle::Sampler(handle)) => Some(handle),
            _ => None,
        }
    }

    /// Add a sampler for `task`: see `add_resource`.
    pub fn add_sampler(&mut self, task: TaskId, descriptor: SamplerDescriptor, handle: Option<SamplerHandle>) -> (result:
        Result<SamplerId, EntityManagerError>)
        requires
            old(self).wf(),
        ensures
            final(self).wf(),
            final(self).added(
                old(self),
                task,
                ResourceDescriptor::Sampler(descriptor),
                match handle {
                    Some(h) => Some(ResourceHandle::Sampler(h)),
                    None => None,
                },
                match result {
                    Ok(id) => Ok(ResourceId::Sampler(id)),
                    Err(error) => Err(error),
                },
            ),
    {
        let handle = match handle {
            Some(h) => Some(ResourceHandle::Sampler(h)),
            None => None,
        };
        proof {
            self.lemma_compatible_is_valid(None, ResourceDescriptor::Sampler(descriptor));
        }
        match self.add_resource(task, ResourceDescriptor::Sampler(descriptor), handle) {
            Ok(ResourceId::Sampler(id)) => Ok(id),
            Ok(_) => {
                assert(false);
                Err(EntityManagerError::MissingDependencies)
            },
            Err(error) => Err(error),
        }
    }

    /// Update the descriptor of the sampler `id`, for `task`: see
    /// `update_resource_descriptor`.
    pub fn update_sampler_descriptor(&mut self, task: &TaskId, id: &mut SamplerId, descriptor: SamplerDescriptor) -> (updated:
        bool)
        requires
            old(self).wf(),
        ensures
            final(self).wf(),
            final(self).redescribed(
                old(self),
                *task,
                ResourceId::Sampler(*old(id)),
                ResourceId::Sampler(*final(id)),
                ResourceDescriptor::Sampler(descriptor),
                updated,
            ),
    {
        let mut resource = ResourceId::Sampler(*id);
        proof {
            self.lemma_compatible_is_valid(Some(resource), ResourceDescriptor::Sampler(descriptor));
        }
        let updated = self.update_resource_descriptor(
            task,
            &mut resource,
            ResourceDescriptor::Sampler(descriptor),
        );
        match resource {
            ResourceId::Sampler(moved) => {
                *id = moved;
            },
            _ => {
                assert(false);
            },
        }
        updated
    }

    /// Remove the sampler `id`, for `task`: see `remove_resource`.
    pub fn remove_sampler(&mut self, task: &TaskId, id: &SamplerId) -> (result: Result<(), ()>)
        requires
            old(self).wf(),
        ensures
            final(self).wf(),
            final(self).released(old(self), *task, ResourceId::Sampler(*id), result),
    {
        self.remove_resource(task, &ResourceId::Sampler(*id))
    }

    /// The descriptor of the shader_module `id`, where `id` names one.
    pub open spec fn shader_module_descriptor_spec(&self, id: ShaderModuleId) -> Option<ShaderModuleDescriptor> {
        match self.descriptor_of(id.0) {
            Some(ResourceDescriptor::ShaderModule(descriptor)) => Some(descriptor),
            _ => None,
        }
    }

    /// The handle of the shader_module `id`, where `id` names a resource with a handle
    /// of that kind.
    pub open spec fn shader_module_handle_spec(&self, id: ShaderModuleId) -> Option<ShaderModuleHandle> {
        match self.handle_of(id.0) {
            Some(ResourceHandle::ShaderModule(handle)) => Some(handle),
            _ => None,
        }
    }

    /// The shader_modules, by rising index.
    pub fn shader_modules(&self) -> (ids: Vec<ShaderModuleId>)
        requires
            self.wf(),
        ensures
            forall|id: ShaderModuleId| ids@.contains(id) <==> self.shader_module_descriptor_spec(id) is Some,
            forall|i: int, j: int| 0 <= i < j < ids@.len() ==> ids@[i].0.0 < ids@[j].0.0,
    {
        let entities = self.entities_of_kind(ResourceType::ShaderModule);
        let mut ids: Vec<ShaderModuleId> = Vec::new();
        let mut i: usize = 0;
        while i < entities.len()
            invariant
                i <= entities.len(),
                ids@.len() == i,
                forall|j: int| 0 <= j < i ==> ids@[j] == ShaderModuleId(entities@[j]),
            decreases entities.len() - i,
        {
            ids.push(ShaderModuleId(entities[i]));
            i += 1;
        }
        proof {
            assert forall|id: ShaderModuleId| ids@.contains(id) <==> self.shader_module_descriptor_spec(id) is Some by {
                if ids@.contains(id) {
                    let j = choose|j: int| 0 <= j < ids@.len() && ids@[j] == id;
                    assert(entities@.contains(entities@[j]));
                }
                if self.shader_module_descriptor_spec(id) is Some {
                    assert(entities@.contains(id.0));
                    let j = choose|j: int| 0 <= j < entities@.len() && entities@[j] == id.0;
                    assert(ids@[j] == id);
                }
            }
        }
        ids
    }

    pub fn shader_module_descriptor_ref(&self, id: &ShaderModuleId) -> (descriptor: Option<&ShaderModuleDescriptor>)
        requires
            self.wf(),
        ensures
            match descriptor {
                Some(d) => self.shader_module_descriptor_spec(*id) == Some(*d),
                None => self.shader_module_descriptor_spec(*id) is None,
            },
    {
        match self.entity_descriptor_ref(id.id_ref()) {
            Some(ResourceDescriptor::ShaderModule(descriptor)) => Some(descriptor),
            _ => None,
        }
    }

    pub fn shader_module_handle_ref(&self, id: &ShaderModuleId) -> (handle: Option<&ShaderModuleHandle>)
        requires
            self.wf(),
        ensures
            match handle {
                Some(h) => self.shader_module_handle_spec(*id) == Some(*h),
                None => self.shader_module_handle_spec(*id) is None,
            },
    {
        match self.entity_handle_ref(id.id_ref()) {
            Some(ResourceHandle::ShaderModule(handle)) => Some(handle),
            _ => None,
        }
    }

    /// Add a shader_module for `task`: see `add_resource`.
    pub fn add_shader_module(&mut self, task: TaskId, descriptor: ShaderModuleDescriptor, handle: Option<ShaderModuleHandle>) -> (result:
        Result<ShaderModuleId, EntityManagerError>)
        requires
            old(self).wf(),
        ensures
            final(self).wf(),
            final(self).added(
                old(self),
                task,
                ResourceDescriptor::ShaderModule(descriptor),
                match handle {
                    Some(h) => Some(ResourceHandle::ShaderModule(h)),
                    None => None,
                },
                match result {
                    Ok(id) => Ok(ResourceId::ShaderModule(id)),
                    Err(error) => Err(error),
                },
            ),
    {
        let handle = match handle {
            Some(h) => Some(ResourceHandle::ShaderModule(h)),
            None => None,
        };
        proof {
            self.lemma_compatible_is_valid(None, ResourceDescriptor::ShaderModule(descriptor));
        }
        match self.add_resource(task, ResourceDescriptor::ShaderModule(descriptor), handle) {
            Ok(ResourceId::ShaderModule(id)) => Ok(id),
            Ok(_) => {
                assert(false);
                Err(EntityManagerError::MissingDependencies)
            },
            Err(error) => Err(error),
        }
    }

    /// Update the descriptor of the shader_module `id`, for `task`: see
    /// `update_resource_descriptor`.
    pub fn update_shader_module_descriptor(&mut self, task: &TaskId, id: &mut ShaderModuleId, descriptor: ShaderModuleDescriptor) -> (updated:
        bool)
        requires
            old(self).wf(),
        ensures
            final(self).wf(),
            final(self).redescribed(
                old(self),
                *task,
                ResourceId::ShaderModule(*old(id)),
                ResourceId::ShaderModule(*final(id)),
                ResourceDescriptor::ShaderModule(descriptor),
                updated,
            ),
    {
        let mut resource = ResourceId::ShaderModule(*id);
        proof {
            self.lemma_compatible_is_valid(Some(resource), ResourceDescriptor::ShaderModule(descriptor));
        }
        let updated = self.update_resource_descriptor(
            task,
            &mut resource,
            ResourceDescriptor::ShaderModule(descriptor),
        );
        match resource {
            ResourceId::ShaderModule(moved) => {
                *id = moved;
            },
            _ => {
                assert(false);
            },
        }
        updated
    }

    /// Remove the shader_module `id`, for `task`: see `remove_resource`.
    pub fn remove_shader_module(&mut self, task: &TaskId, id: &ShaderModuleId) -> (result: Result<(), ()>)
        requires
            old(self).wf(),
        ensures
            final(self).wf(),
            final(self).released(old(self), *task, ResourceId::ShaderModule(*id), result),
    {
        self.remove_resource(task, &ResourceId::ShaderModule(*id))
    }

    /// The descriptor of the bind_group_layout `id`, where `id` names one.
    pub open spec fn bind_group_layout_descriptor_spec(&self, id: BindGroupLayoutId) -> Option<BindGroupLayoutDescriptor> {
        match self.descriptor_of(id.0) {
            Some(ResourceDescriptor::BindGroupLayout(descriptor)) => Some(descriptor),
            _ => None,
        }
    }

    /// The handle of the bind_group_layout `id`, where `id` names a resource with a handle
    /// of that kind.
    pub open spec fn bind_group_layout_handle_spec(&self, id: BindGroupLayoutId) -> Option<BindGroupLayoutHandle> {
        match self.handle_of(id.0) {
            Some(ResourceHandle::BindGroupLayout(handle)) => Some(handle),
            _ => None,
        }
    }

    /// The bind_group_layouts, by rising index.
    pub fn bind_group_layouts(&self) -> (ids: Vec<BindGroupLayoutId>)
        requires
            self.wf(),
        ensures
            forall|id: BindGroupLayoutId| ids@.contains(id) <==> self.bind_group_layout_descriptor_spec(id) is Some,
            forall|i: int, j: int| 0 <= i < j < ids@.len() ==> ids@[i].0.0 < ids@[j].0.0,
    {
        let entities = self.entities_of_kind(ResourceType::BindGroupLayout);
        let mut ids: Vec<BindGroupLayoutId> = Vec::new();
        let mut i: usize = 0;
        while i < entities.len()
            invariant
                i <= entities.len(),
                ids@.len() == i,
                forall|j: int| 0 <= j < i ==> ids@[j] == BindGroupLayoutId(entities@[j]),
            decreases entities.len() - i,
        {
            ids.push(BindGroupLayoutId(entities[i]));
            i += 1;
        }
        proof {
            assert forall|id: BindGroupLayoutId| ids@.contains(id) <==> self.bind_group_layout_descriptor_spec(id) is Some by {
                if ids@.contains(id) {
                    let j = choose|j: int| 0 <= j < ids@.len() && ids@[j] == id;
                    assert(entities@.contains(entities@[j]));
                }
                if self.bind_group_layout_descriptor_spec(id) is Some {
                    assert(entities@.contains(id.0));
                    let j = choose|j: int| 0 <= j < entities@.len() && entities@[j] == id.0;
                    assert(ids@[j] == id);
                }
            }
        }
        ids
    }

    pub fn bind_group_layout_descriptor_ref(&self, id: &BindGroupLayoutId) -> (descriptor: Option<&BindGroupLayoutDescriptor>)
        requires
            self.wf(),
        ensures
            match descriptor {
                Some(d) => self.bind_group_layout_descriptor_spec(*id) == Some(*d),
                None => self.bind_group_layout_descriptor_spec(*id) is None,
            },
    {
        match self.entity_descriptor_ref(id.id_ref()) {
            Some(ResourceDescriptor::BindGroupLayout(descriptor)) => Some(descriptor),
            _ => None,
        }
    }

    pub fn bind_group_layout_handle_ref(&self, id: &BindGroupLayoutId) -> (handle: Option<&BindGroupLayoutHandle>)
        requires
            self.wf(),
        ensures
            match handle {
                Some(h) => self.bind_group_layout_handle_spec(*id) == Some(*h),
                None => self.bind_group_layout_handle_spec(*id) is None,
            },
    {
        match self.entity_handle_ref(id.id_ref()) {
            Some(ResourceHandle::BindGroupLayout(handle)) => Some(handle),
            _ => None,
        }
    }

    /// Add a bind_group_layout for `task`: see `add_resource`.
    pub fn add_bind_group_layout(&mut self, task: TaskId, descriptor: BindGroupLayoutDescriptor, handle: Option<BindGroupLayoutHandle>) -> (result:
        Result<BindGroupLayoutId, EntityManagerError>)
        requires
            old(self).wf(),
        ensures
            final(self).wf(),
            final(self).added(
                old(self),
                task,
                ResourceDescriptor::BindGroupLayout(descriptor),
                match handle {
                    Some(h) => Some(ResourceHandle::BindGroupLayout(h)),
                    None => None,
                },
                match result {
                    Ok(id) => Ok(ResourceId::BindGroupLayout(id)),
                    Err(error) => Err(error),
                },
            ),
    {
        let handle = match handle {
            Some(h) => Some(ResourceHandle::BindGroupLayout(h)),
            None => None,
        };
        proof {
            self.lemma_compatible_is_valid(None, ResourceDescriptor::BindGroupLayout(descriptor));
        }
        match self.add_resource(task, ResourceDescriptor::BindGroupLayout(descriptor), handle) {
            Ok(ResourceId::BindGroupLayout(id)) => Ok(id),
            Ok(_) => {
                assert(false);
                Err(EntityManagerError::MissingDependencies)
            },
            Err(error) => Err(error),
        }
    }

    /// Update the descriptor of the bind_group_layout `id`, for `task`: see
    /// `update_resource_descriptor`.
    pub fn update_bind_group_layout_descriptor(&mut self, task: &TaskId, id: &mut BindGroupLayoutId, descriptor: BindGroupLayoutDescriptor) -> (updated:
        bool)
        requires
            old(self).wf(),
        ensures
            final(self).wf(),
            final(self).redescribed(
                old(self),
                *task,
                ResourceId::BindGroupLayout(*old(id)),
                ResourceId::BindGroupLayout(*final(id)),
                ResourceDescriptor::BindGroupLayout(descriptor),
                updated,
            ),
    {
        let mut resource = ResourceId::BindGroupLayout(*id);
        proof {
            self.lemma_compatible_is_valid(Some(resource), ResourceDescriptor::BindGroupLayout(descriptor));
        }
        let updated = self.update_resource_descriptor(
            task,
            &mut resource,
            ResourceDescriptor::BindGroupLayout(descriptor),
        );
        match resource {
            ResourceId::BindGroupLayout(moved) => {
                *id = moved;
            },
            _ => {
                assert(false);
            },
        }
        updated
    }

    /// Remove the bind_group_layout `id`, for `task`: see `remove_resource`.
    pub fn remove_bind_group_layout(&mut self, task: &TaskId, id: &BindGroupLayoutId) -> (result: Result<(), ()>)
        requires
            old(self).wf(),
        ensures
            final(self).wf(),
            final(self).released(old(self), *task, ResourceId::BindGroupLayout(*id), result),
    {
        self.remove_resource(task, &ResourceId::BindGroupLayout(*id))
    }

    /// The descriptor of the bind_group `id`, where `id` names one.
    pub open spec fn bind_group_descriptor_spec(&self, id: BindGroupId) -> Option<BindGroupDescriptor> {
        match self.descriptor_of(id.0) {
            Some(ResourceDescriptor::BindGroup(descriptor)) => Some(descriptor),
            _ => None,
        }
    }

    /// The handle of the bind_group `id`, where `id` names a resource with a handle
    /// of that kind.
    pub open spec fn bind_group_handle_spec(&self, id: BindGroupId) -> Option<BindGroupHandle> {
        match self.handle_of(id.0) {
            Some(ResourceHandle::BindGroup(handle)) => Some(handle),
            _ => None,
        }
    }

    /// The bind_groups, by rising index.
    pub fn bind_groups(&self) -> (ids: Vec<BindGroupId>)
        requires
            self.wf(),
        ensures
            forall|id: BindGroupId| ids@.contains(id) <==> self.bind_group_descriptor_spec(id) is Some,
            forall|i: int, j: int| 0 <= i < j < ids@.len() ==> ids@[i].0.0 < ids@[j].0.0,
    {
        let entities = self.entities_of_kind(ResourceType::BindGroup);
        let mut ids: Vec<BindGroupId> = Vec::new();
        let mut i: usize = 0;
        while i < entities.len()
            invariant
                i <= entities.len(),
                ids@.len() == i,
                forall|j: int| 0 <= j < i ==> ids@[j] == BindGroupId(entities@[j]),
            decreases entities.len() - i,
        {
            ids.push(BindGroupId(entities[i]));
            i += 1;
        }
        proof {
            assert forall|id: BindGroupId| ids@.contains(id) <==> self.bind_group_descriptor_spec(id) is Some by {
                if ids@.contains(id) {
                    let j = choose|j: int| 0 <= j < ids@.len() && ids@[j] == id;
                    assert(entities@.contains(entities@[j]));
                }
                if self.bind_group_descriptor_spec(id) is Some {
                    assert(entities@.contains(id.0));
                    let j = choose|j: int| 0 <= j < entities@.len() && entities@[j] == id.0;
                    assert(ids@[j] == id);
                }
            }
        }
        ids
    }

    pub fn bind_group_descriptor_ref(&self, id: &BindGroupId) -> (descriptor: Option<&BindGroupDescriptor>)
        requires
            self.wf(),
        ensures
            match descriptor {
                Some(d) => self.bind_group_descriptor_spec(*id) == Some(*d),
                None => self.bind_group_descriptor_spec(*id) is None,
            },
    {
        match self.entity_descriptor_ref(id.id_ref()) {
            Some(ResourceDescriptor::BindGroup(descriptor)) => Some(descriptor),
            _ => None,
        }
    }

    pub fn bind_group_handle_ref(&self, id: &BindGroupId) -> (handle: Option<&BindGroupHandle>)
        requires
            self.wf(),
        ensures
            match handle {
                Some(h) => self.bind_group_handle_spec(*id) == Some(*h),
                None => self.bind_group_handle_spec(*id) is None,
            },
    {
        match self.entity_handle_ref(id.id_ref()) {
            Some(ResourceHandle::BindGroup(handle)) => Some(handle),
            _ => None,
        }
    }

    /// Add a bind_group for `task`: see `add_resource`.
    pub fn add_bind_group(&mut self, task: TaskId, descriptor: BindGroupDescriptor, handle: Option<BindGroupHandle>) -> (result:
        Result<BindGroupId, EntityManagerError>)
        requires
            old(self).wf(),
        ensures
            final(self).wf(),
            final(self).added(
                old(self),
                task,
                ResourceDescriptor::BindGroup(descriptor),
                match handle {
                    Some(h) => Some(ResourceHandle::BindGroup(h)),
                    None => None,
                },
                match result {
                    Ok(id) => Ok(ResourceId::BindGroup(id)),
                    Err(error) => Err(error),
                },
            ),
    {
        let handle = match handle {
            Some(h) => Some(ResourceHandle::BindGroup(h)),
            None => None,
        };
        proof {
            self.lemma_compatible_is_valid(None, ResourceDescriptor::BindGroup(descriptor));
        }
        match self.add_resource(task, ResourceDescriptor::BindGroup(descriptor), handle) {
            Ok(ResourceId::BindGroup(id)) => Ok(id),
            Ok(_) => {
                assert(false);
                Err(EntityManagerError::MissingDependencies)
            },
            Err(error) => Err(error),
        }
    }

    /// Update the descriptor of the bind_group `id`, for `task`: see
    /// `update_resource_descriptor`.
    pub fn update_bind_group_descriptor(&mut self, task: &TaskId, id: &mut BindGroupId, descriptor: BindGroupDescriptor) -> (updated:
        bool)
        requires
            old(self).wf(),
        ensures
            final(self).wf(),
            final(self).redescribed(
                old(self),
                *task,
                ResourceId::BindGroup(*old(id)),
                ResourceId::BindGroup(*final(id)),
                ResourceDescriptor::BindGroup(descriptor),
                updated,
            ),
    {
        let mut resource = ResourceId::BindGroup(*id);
        proof {
            self.lemma_compatible_is_valid(Some(resource), ResourceDescriptor::BindGroup(descriptor));
        }
        let updated = self.update_resource_descriptor(
            task,
            &mut resource,
            ResourceDescriptor::BindGroup(descriptor),
        );
        match resource {
            ResourceId::BindGroup(moved) => {
                *id = moved;
            },
            _ => {
                assert(false);
            },
        }
        updated
    }

    /// Remove the bind_group `id`, for `task`: see `remove_resource`.
    pub fn remove_bind_group(&mut self, task: &TaskId, id: &BindGroupId) -> (result: Result<(), ()>)
        requires
            old(self).wf(),
        ensures
            final(self).wf(),
            final(self).released(old(self), *task, ResourceId::BindGroup(*id), result),
    {
        self.remove_resource(task, &ResourceId::BindGroup(*id))
    }

    /// The descriptor of the pipeline_layout `id`, where `id` names one.
    pub open spec fn pipeline_layout_descriptor_spec(&self, id: PipelineLayoutId) -> Option<PipelineLayoutDescriptor> {
        match self.descriptor_of(id.0) {
            Some(ResourceDescriptor::PipelineLayout(descriptor)) => Some(descriptor),
            _ => None,
        }
    }

    /// The handle of the pipeline_layout `id`, where `id` names a resource with a handle
    /// of that kind.
    pub open spec fn pipeline_layout_handle_spec(&self, id: PipelineLayoutId) -> Option<PipelineLayoutHandle> {
        match self.handle_of(id.0) {
            Some(ResourceHandle::PipelineLayout(handle)) => Some(handle),
            _ => None,
        }
    }

    /// The pipeline_layouts, by rising index.
    pub fn pipeline_layouts(&self) -> (ids: Vec<PipelineLayoutId>)
        requires
            self.wf(),
        ensures
            forall|id: PipelineLayoutId| ids@.contains(id) <==> self.pipeline_layout_descriptor_spec(id) is Some,
            forall|i: int, j: int| 0 <= i < j < ids@.len() ==> ids@[i].0.0 < ids@[j].0.0,
    {
        let entities = self.entities_of_kind(ResourceType::PipelineLayout);
        let mut ids: Vec<PipelineLayoutId> = Vec::new();
        let mut i: usize = 0;
        while i < entities.len()
            invariant
                i <= entities.len(),
                ids@.len() == i,
                forall|j: int| 0 <= j < i ==> ids@[j] == PipelineLayoutId(entities@[j]),
            decreases entities.len() - i,
        {
            ids.push(PipelineLayoutId(entities[i]));
            i += 1;
        }
        proof {
            assert forall|id: PipelineLayoutId| ids@.contains(id) <==> self.pipeline_layout_descriptor_spec(id) is Some by {
                if ids@.contains(id) {
                    let j = choose|j: int| 0 <= j < ids@.len() && ids@[j] == id;
                    assert(entities@.contains(entities@[j]));
                }
                if self.pipeline_layout_descriptor_spec(id) is Some {
                    assert(entities@.contains(id.0));
                    let j = choose|j: int| 0 <= j < entities@.len() && entities@[j] == id.0;
                    assert(ids@[j] == id);
                }
            }
        }
        ids
    }

    pub fn pipeline_layout_descriptor_ref(&self, id: &PipelineLayoutId) -> (descriptor: Option<&PipelineLayoutDescriptor>)
        requires
            self.wf(),
        ensures
            match descriptor {
                Some(d) => self.pipeline_layout_descriptor_spec(*id) == Some(*d),
                None => self.pipeline_layout_descriptor_spec(*id) is None,
            },
    {
        match self.entity_descriptor_ref(id.id_ref()) {
            Some(ResourceDescriptor::PipelineLayout(descriptor)) => Some(descriptor),
            _ => None,
        }
    }

    pub fn pipeline_layout_handle_ref(&self, id: &PipelineLayoutId) -> (handle: Option<&PipelineLayoutHandle>)
        requires
            self.wf(),
        ensures
            match handle {
                Some(h) => self.pipeline_layout_handle_spec(*id) == Some(*h),
                None => self.pipeline_layout_handle_spec(*id) is None,
            },
    {
        match self.entity_handle_ref(id.id_ref()) {
            Some(ResourceHandle::PipelineLayout(handle)) => Some(handle),
            _ => None,
        }
    }

    /// Add a pipeline_layout for `task`: see `add_resource`.
    pub fn add_pipeline_layout(&mut self, task: TaskId, descriptor: PipelineLayoutDescriptor, handle: Option<PipelineLayoutHandle>) -> (result:
        Result<PipelineLayoutId, EntityManagerError>)
        requires
            old(self).wf(),
        ensures
            final(self).wf(),
            final(self).added(
                old(self),
                task,
                ResourceDescriptor::PipelineLayout(descriptor),
                match handle {
                    Some(h) => Some(ResourceHandle::PipelineLayout(h)),
                    None => None,
                },
                match result {
                    Ok(id) => Ok(ResourceId::PipelineLayout(id)),
                    Err(error) => Err(error),
                },
            ),
    {
        let handle = match handle {
            Some(h) => Some(ResourceHandle::PipelineLayout(h)),
            None => None,
        };
        proof {
            self.lemma_compatible_is_valid(None, ResourceDescriptor::PipelineLayout(descriptor));
        }
        match self.add_resource(task, ResourceDescriptor::PipelineLayout(descriptor), handle) {
            Ok(ResourceId::PipelineLayout(id)) => Ok(id),
            Ok(_) => {
                assert(false);
                Err(EntityManagerError::MissingDependencies)
            },
            Err(error) => Err(error),
        }
    }

    /// Update the descriptor of the pipeline_layout `id`, for `task`: see
    /// `update_resource_descriptor`.
    pub fn update_pipeline_layout_descriptor(&mut self, task: &TaskId, id: &mut PipelineLayoutId, descriptor: PipelineLayoutDescriptor) -> (updated:
        bool)
        requires
            old(self).wf(),
        ensures
            final(self).wf(),
            final(self).redescribed(
                old(self),
                *task,
                ResourceId::PipelineLayout(*old(id)),
                ResourceId::PipelineLayout(*final(id)),
                ResourceDescriptor::PipelineLayout(descriptor),
                updated,
            ),
    {
        let mut resource = ResourceId::PipelineLayout(*id);
        proof {
            self.lemma_compatible_is_valid(Some(resource), ResourceDescriptor::PipelineLayout(descriptor));
        }
        let updated = self.update_resource_descriptor(
            task,
            &mut resource,
            ResourceDescriptor::PipelineLayout(descriptor),
        );
        match resource {
            ResourceId::PipelineLayout(moved) => {
                *id = moved;
            },
            _ => {
                assert(false);
            },
        }
        updated
    }

    /// Remove the pipeline_layout `id`, for `task`: see `remove_resource`.
    pub fn remove_pipeline_layout(&mut self, task: &TaskId, id: &PipelineLayoutId) -> (result: Result<(), ()>)
        requires
            old(self).wf(),
        ensures
            final(self).wf(),
            final(self).released(old(self), *task, ResourceId::PipelineLayout(*id), result),
    {
        self.remove_resource(task, &ResourceId::PipelineLayout(*id))
    }

    /// The descriptor of the render_pipeline `id`, where `id` names one.
    pub open spec fn render_pipeline_descriptor_spec(&self, id: RenderPipelineId) -> Option<RenderPipelineDescriptor> {
        match self.descriptor_of(id.0) {
            Some(ResourceDescriptor::RenderPipeline(descriptor)) => Some(descriptor),
            _ => None,
        }
    }

    /// The handle of the render_pipeline `id`, where `id` names a resource with a handle
    /// of that kind.
    pub open spec fn render_pipeline_handle_spec(&self, id: RenderPipelineId) -> Option<RenderPipelineHandle> {
        match self.handle_of(id.0) {
            Some(ResourceHandle::RenderPipeline(handle)) => Some(handle),
            _ => None,
        }
    }

    /// The render_pipelines, by rising index.
    pub fn render_pipelines(&self) -> (ids: Vec<RenderPipelineId>)
        requires
            self.wf(),
        ensures
            forall|id: RenderPipelineId| ids@.contains(id) <==> self.render_pipeline_descriptor_spec(id) is Some,
            forall|i: int, j: int| 0 <= i < j < ids@.len() ==> ids@[i].0.0 < ids@[j].0.0,
    {
        let entities = self.entities_of_kind(ResourceType::RenderPipeline);
        let mut ids: Vec<RenderPipelineId> = Vec::new();
        let mut i: usize = 0;
        while i < entities.len()
            invariant
                i <= entities.len(),
                ids@.len() == i,
                forall|j: int| 0 <= j < i ==> ids@[j] == RenderPipelineId(entities@[j]),
            decreases entities.len() - i,
        {
            ids.push(RenderPipelineId(entities[i]));
            i += 1;
        }
        proof {
            assert forall|id: RenderPipelineId| ids@.contains(id) <==> self.render_pipeline_descriptor_spec(id) is Some by {
                if ids@.contains(id) {
                    let j = choose|j: int| 0 <= j < ids@.len() && ids@[j] == id;
                    assert(entities@.contains(entities@[j]));
                }
                if self.render_pipeline_descriptor_spec(id) is Some {
                    assert(entities@.contains(id.0));
                    let j = choose|j: int| 0 <= j < entities@.len() && entities@[j] == id.0;
                    assert(ids@[j] == id);
                }
            }
        }
        ids
    }

    pub fn render_pipeline_descriptor_ref(&self, id: &RenderPipelineId) -> (descriptor: Option<&RenderPipelineDescriptor>)
        requires
            self.wf(),
        ensures
            match descriptor {
                Some(d) => self.render_pipeline_descriptor_spec(*id) == Some(*d),
                None => self.render_pipeline_descriptor_spec(*id) is None,
            },
    {
        match self.entity_descriptor_ref(id.id_ref()) {
            Some(ResourceDescriptor::RenderPipeline(descriptor)) => Some(descriptor),
            _ => None,
        }
    }

    pub fn render_pipeline_handle_ref(&self, id: &RenderPipelineId) -> (handle: Option<&RenderPipelineHandle>)
        requires
            self.wf(),
        ensures
            match handle {
                Some(h) => self.render_pipeline_handle_spec(*id) == Some(*h),
                None => self.render_pipeline_handle_spec(*id) is None,
            },
    {
        match self.entity_handle_ref(id.id_ref()) {
            Some(ResourceHandle::RenderPipeline(handle)) => Some(handle),
            _ => None,
        }
    }

    /// Add a render_pipeline for `task`: see `add_resource`.
    pub fn add_render_pipeline(&mut self, task: TaskId, descriptor: RenderPipelineDescriptor, handle: Option<RenderPipelineHandle>) -> (result:
        Result<RenderPipelineId, EntityManagerError>)
        requires
            old(self).wf(),
        ensures
            final(self).wf(),
            final(self).added(
                old(self),
                task,
                ResourceDescriptor::RenderPipeline(descriptor),
                match handle {
                    Some(h) => Some(ResourceHandle::RenderPipeline(h)),
                    None => None,
                },
                match result {
                    Ok(id) => Ok(ResourceId::RenderPipeline(id)),
                    Err(error) => Err(error),
                },
            ),
    {
        let handle = match handle {
            Some(h) => Some(ResourceHandle::RenderPipeline(h)),
            None => None,
        };
        proof {
            self.lemma_compatible_is_valid(None, ResourceDescriptor::RenderPipeline(descriptor));
        }
        match self.add_resource(task, ResourceDescriptor::RenderPipeline(descriptor), handle) {
            Ok(ResourceId::RenderPipeline(id)) => Ok(id),
            Ok(_) => {
                assert(false);
                Err(EntityManagerError::MissingDependencies)
            },
            Err(error) => Err(error),
        }
    }

    /// Update the descriptor of the render_pipeline `id`, for `task`: see
    /// `update_resource_descriptor`.
    pub fn update_render_pipeline_descriptor(&mut self, task: &TaskId, id: &mut RenderPipelineId, descriptor: RenderPipelineDescriptor) -> (updated:
        bool)
        requires
            old(self).wf(),
        ensures
            final(self).wf(),
            final(self).redescribed(
                old(self),
                *task,
                ResourceId::RenderPipeline(*old(id)),
                ResourceId::RenderPipeline(*final(id)),
                ResourceDescriptor::RenderPipeline(descriptor),
                updated,
            ),
    {
        let mut resource = ResourceId::RenderPipeline(*id);
        proof {
            self.lemma_compatible_is_valid(Some(resource), ResourceDescriptor::RenderPipeline(descriptor));
        }
        let updated = self.update_resource_descriptor(
            task,
            &mut resource,
            ResourceDescriptor::RenderPipeline(descriptor),
        );
        match resource {
            ResourceId::RenderPipeline(moved) => {
                *id = moved;
            },
            _ => {
                assert(false);
            },
        }
        updated
    }

    /// Remove the render_pipeline `id`, for `task`: see `remove_resource`.
    pub fn remove_render_pipeline(&mut self, task: &TaskId, id: &RenderPipelineId) -> (result: Result<(), ()>)
        requires
            old(self).wf(),
        ensures
            final(self).wf(),
            final(self).released(old(self), *task, ResourceId::RenderPipeline(*id), result),
    {
        self.remove_resource(task, &ResourceId::RenderPipeline(*id))
    }

    /// The descriptor of the compute_pipeline `id`, where `id` names one.
    pub open spec fn compute_pipeline_descriptor_spec(&self, id: ComputePipelineId) -> Option<ComputePipelineDescriptor> {
        match self.descriptor_of(id.0) {
            Some(ResourceDescriptor::ComputePipeline(descriptor)) => Some(descriptor),
            _ => None,
        }
    }

    /// The handle of the compute_pipeline `id`, where `id` names a resource with a handle
    /// of that kind.
    pub open spec fn compute_pipeline_handle_spec(&self, id: ComputePipelineId) -> Option<ComputePipelineHandle> {
        match self.handle_of(id.0) {
            Some(ResourceHandle::ComputePipeline(handle)) => Some(handle),
            _ => None,
        }
    }

    /// The compute_pipelines, by rising index.
    pub fn compute_pipelines(&self) -> (ids: Vec<ComputePipelineId>)
        requires
            self.wf(),
        ensures
            forall|id: ComputePipelineId| ids@.contains(id) <==> self.compute_pipeline_descriptor_spec(id) is Some,
            forall|i: int, j: int| 0 <= i < j < ids@.len() ==> ids@[i].0.0 < ids@[j].0.0,
    {
        let entities = self.entities_of_kind(ResourceType::ComputePipeline);
        let mut ids: Vec<ComputePipelineId> = Vec::new();
        let mut i: usize = 0;
        while i < entities.len()
            invariant
                i <= entities.len(),
                ids@.len() == i,
                forall|j: int| 0 <= j < i ==> ids@[j] == ComputePipelineId(entities@[j]),
            decreases entities.len() - i,
        {
            ids.push(ComputePipelineId(entities[i]));
            i += 1;
        }
        proof {
            assert forall|id: ComputePipelineId| ids@.contains(id) <==> self.compute_pipeline_descriptor_spec(id) is Some by {
                if ids@.contains(id) {
                    let j = choose|j: int| 0 <= j < ids@.len() && ids@[j] == id;
                    assert(entities@.contains(entities@[j]));
                }
                if self.compute_pipeline_descriptor_spec(id) is Some {
                    assert(entities@.contains(id.0));
                    let j = choose|j: int| 0 <= j < entities@.len() && entities@[j] == id.0;
                    assert(ids@[j] == id);
                }
            }
        }
        ids
    }

    pub fn compute_pipeline_descriptor_ref(&self, id: &ComputePipelineId) -> (descriptor: Option<&ComputePipelineDescriptor>)
        requires
            self.wf(),
        ensures
            match descriptor {
                Some(d) => self.compute_pipeline_descriptor_spec(*id) == Some(*d),
                None => self.compute_pipeline_descriptor_spec(*id) is None,
            },
    {
        match self.entity_descriptor_ref(id.id_ref()) {
            Some(ResourceDescriptor::ComputePipeline(descriptor)) => Some(descriptor),
            _ => None,
        }
    }

    pub fn compute_pipeline_handle_ref(&self, id: &ComputePipelineId) -> (handle: Option<&ComputePipelineHandle>)
        requires
            self.wf(),
        ensures
            match handle {
                Some(h) => self.compute_pipeline_handle_spec(*id) == Some(*h),
                None => self.compute_pipeline_handle_spec(*id) is None,
            },
    {
        match self.entity_handle_ref(id.id_ref()) {
            Some(ResourceHandle::ComputePipeline(handle)) => Some(handle),
            _ => None,
        }
    }

    /// Add a compute_pipeline for `task`: see `add_resource`.
    pub fn add_compute_pipeline(&mut self, task: TaskId, descriptor: ComputePipelineDescriptor, handle: Option<ComputePipelineHandle>) -> (result:
        Result<ComputePipelineId, EntityManagerError>)
        requires
            old(self).wf(),
        ensures
            final(self).wf(),
            final(self).added(
                old(self),
                task,
                ResourceDescriptor::ComputePipeline(descriptor),
                match handle {
                    Some(h) => Some(ResourceHandle::ComputePipeline(h)),
                    None => None,
                },
                match result {
                    Ok(id) => Ok(ResourceId::ComputePipeline(id)),
                    Err(error) => Err(error),
                },
            ),
    {
        let handle = match handle {
            Some(h) => Some(ResourceHandle::ComputePipeline(h)),
            None => None,
        };
        proof {
            self.lemma_compatible_is_valid(None, ResourceDescriptor::ComputePipeline(descriptor));
        }
        match self.add_resource(task, ResourceDescriptor::ComputePipeline(descriptor), handle) {
            Ok(ResourceId::ComputePipeline(id)) => Ok(id),
            Ok(_) => {
                assert(false);
                Err(EntityManagerError::MissingDependencies)
            },
            Err(error) => Err(error),
        }
    }

    /// Update the descriptor of the compute_pipeline `id`, for `task`: see
    /// `update_resource_descriptor`.
    pub fn update_compute_pipeline_descriptor(&mut self, task: &TaskId, id: &mut ComputePipelineId, descriptor: ComputePipelineDescriptor) -> (updated:
        bool)
        requires
            old(self).wf(),
        ensures
            final(self).wf(),
            final(self).redescribed(
                old(self),
                *task,
                ResourceId::ComputePipeline(*old(id)),
                ResourceId::ComputePipeline(*final(id)),
                ResourceDescriptor::ComputePipeline(descriptor),
                updated,
            ),
    {
        let mut resource = ResourceId::ComputePipeline(*id);
        proof {
            self.lemma_compatible_is_valid(Some(resource), ResourceDescriptor::ComputePipeline(descriptor));
        }
        let updated = self.update_resource_descriptor(
            task,
            &mut resource,
            ResourceDescriptor::ComputePipeline(descriptor),
        );
        match resource {
            ResourceId::ComputePipeline(moved) => {
                *id = moved;
            },
            _ => {
                assert(false);
            },
        }
        updated
    }

    /// Remove the compute_pipeline `id`, for `task`: see `remove_resource`.
    pub fn remove_compute_pipeline(&mut self, task: &TaskId, id: &ComputePipelineId) -> (result: Result<(), ()>)
        requires
            old(self).wf(),
        ensures
            final(self).wf(),
            final(self).released(old(self), *task, ResourceId::ComputePipeline(*id), result),
    {
        self.remove_resource(task, &ResourceId::ComputePipeline(*id))
    }

    /// The descriptor of the command_buffer `id`, where `id` names one.
    pub open spec fn command_buffer_descriptor_spec(&self, id: CommandBufferId) -> Option<CommandBufferDescriptor> {
        match self.descriptor_of(id.0) {
            Some(ResourceDescriptor::CommandBuffer(descriptor)) => Some(descriptor),
            _ => None,
        }
    }

    /// The handle of the command_buffer `id`, where `id` names a resource with a handle
    /// of that kind.
    pub open spec fn command_buffer_handle_spec(&self, id: CommandBufferId) -> Option<CommandBufferHandle> {
        match self.handle_of(id.0) {
            Some(ResourceHandle::CommandBuffer(handle)) => Some(handle),
            _ => None,
        }
    }

    /// The command_buffers, by rising index.
    pub fn command_buffers(&self) -> (ids: Vec<CommandBufferId>)
        requires
            self.wf(),
        ensures
            forall|id: CommandBufferId| ids@.contains(id) <==> self.command_buffer_descriptor_spec(id) is Some,
            forall|i: int, j: int| 0 <= i < j < ids@.len() ==> ids@[i].0.0 < ids@[j].0.0,
    {
        let entities = self.entities_of_kind(ResourceType::CommandBuffer);
        let mut ids: Vec<CommandBufferId> = Vec::new();
        let mut i: usize = 0;
        while i < entities.len()
            invariant
                i <= entities.len(),
                ids@.len() == i,
                forall|j: int| 0 <= j < i ==> ids@[j] == CommandBufferId(entities@[j]),
            decreases entities.len() - i,
        {
            ids.push(CommandBufferId(entities[i]));
            i += 1;
        }
        proof {
            assert forall|id: CommandBufferId| ids@.contains(id) <==> self.command_buffer_descriptor_spec(id) is Some by {
                if ids@.contains(id) {
                    let j = choose|j: int| 0 <= j < ids@.len() && ids@[j] == id;
                    assert(entities@.contains(entities@[j]));
                }
                if self.command_buffer_descriptor_spec(id) is Some {
                    assert(entities@.contains(id.0));
                    let j = choose|j: int| 0 <= j < entities@.len() && entities@[j] == id.0;
                    assert(ids@[j] == id);
                }
            }
        }
        ids
    }

    pub fn command_buffer_descriptor_ref(&self, id: &CommandBufferId) -> (descriptor: Option<&CommandBufferDescriptor>)
        requires
            self.wf(),
        ensures
            match descriptor {
                Some(d) => self.command_buffer_descriptor_spec(*id) == Some(*d),
                None => self.command_buffer_descriptor_spec(*id) is None,
            },
    {
        match self.entity_descriptor_ref(id.id_ref()) {
            Some(ResourceDescriptor::CommandBuffer(descriptor)) => Some(descriptor),
            _ => None,
        }
    }

    pub fn command_buffer_handle_ref(&self, id: &CommandBufferId) -> (handle: Option<&CommandBufferHandle>)
        requires
            self.wf(),
        ensures
            match handle {
                Some(h) => self.command_buffer_handle_spec(*id) == Some(*h),
                None => self.command_buffer_handle_spec(*id) is None,
            },
    {
        match self.entity_handle_ref(id.id_ref()) {
            Some(ResourceHandle::CommandBuffer(handle)) => Some(handle),
            _ => None,
        }
    }

    /// Add a command_buffer for `task`: see `add_resource`.
    pub fn add_command_buffer(&mut self, task: TaskId, descriptor: CommandBufferDescriptor, handle: Option<CommandBufferHandle>) -> (result:
        Result<CommandBufferId, EntityManagerError>)
        requires
            old(self).wf(),
        ensures
            final(self).wf(),
            final(self).added(
                old(self),
                task,
                ResourceDescriptor::CommandBuffer(descriptor),
                match handle {
                    Some(h) => Some(ResourceHandle::CommandBuffer(h)),
                    None => None,
                },
                match result {
                    Ok(id) => Ok(ResourceId::CommandBuffer(id)),
                    Err(error) => Err(error),
                },
            ),
    {
        let handle = match handle {
            Some(h) => Some(ResourceHandle::CommandBuffer(h)),
            None => None,
        };
        proof {
            self.lemma_compatible_is_valid(None, ResourceDescriptor::CommandBuffer(descriptor));
        }
        match self.add_resource(task, ResourceDescriptor::CommandBuffer(descriptor), handle) {
            Ok(ResourceId::CommandBuffer(id)) => Ok(id),
            Ok(_) => {
                assert(false);
                Err(EntityManagerError::MissingDependencies)
            },
            Err(error) => Err(error),
        }
    }

    /// Update the descriptor of the command_buffer `id`, for `task`: see
    /// `update_resource_descriptor`.
    pub fn update_command_buffer_descriptor(&mut self, task: &TaskId, id: &mut CommandBufferId, descriptor: CommandBufferDescriptor) -> (updated:
        bool)
        requires
            old(self).wf(),
        ensures
            final(self).wf(),
            final(self).redescribed(
                old(self),
                *task,
                ResourceId::CommandBuffer(*old(id)),
                ResourceId::CommandBuffer(*final(id)),
                ResourceDescriptor::CommandBuffer(descriptor),
                updated,
            ),
    {
        let mut resource = ResourceId::CommandBuffer(*id);
        proof {
            self.lemma_compatible_is_valid(Some(resource), ResourceDescriptor::CommandBuffer(descriptor));
        }
        let updated = self.update_resource_descriptor(
            task,
            &mut resource,
            ResourceDescriptor::CommandBuffer(descriptor),
        );
        match resource {
            ResourceId::CommandBuffer(moved) => {
                *id = moved;
            },
            _ => {
                assert(false);
            },
        }
        updated
    }

    /// Remove the command_buffer `id`, for `task`: see `remove_resource`.
    pub fn remove_command_buffer(&mut self, task: &TaskId, id: &CommandBufferId) -> (result: Result<(), ()>)
        requires
            old(self).wf(),
        ensures
            final(self).wf(),
            final(self).released(old(self), *task, ResourceId::CommandBuffer(*id), result),
    {
        self.remove_resource(task, &ResourceId::CommandBuffer(*id))
    }

}

} // verus!
