//! The update context: what a task changes the resources through. Every
//! resource that is added through it is owned by the context's task.

use vstd::prelude::*;
use crate::common::events::ResourceEvent;
use crate::common::resources::BindGroupId;
use crate::common::resources::BindGroupLayoutId;
use crate::common::resources::BufferId;
use crate::common::resources::CommandBufferId;
use crate::common::resources::ComputePipelineId;
use crate::common::resources::DeviceId;
use crate::common::resources::InstanceId;
use crate::common::resources::PipelineLayoutId;
use crate::common::resources::RenderPipelineId;
use crate::common::resources::ResourceId;
use crate::common::resources::SamplerId;
use crate::common::resources::ShaderModuleId;
use crate::common::resources::SwapchainId;
use crate::common::resources::TextureId;
use crate::common::resources::TextureViewId;
use crate::common::resources::descriptors::ResourceDescriptor;
use crate::common::resources::descriptors::ResourceWrite;
use crate::common::resources::descriptors::bind_group::BindGroupDescriptor;
use crate::common::resources::descriptors::bind_group_layout::BindGroupLayoutDescriptor;
use crate::common::resources::descriptors::buffer::BufferDescriptor;
use crate::common::resources::descriptors::command_buffer::CommandBufferDescriptor;
use crate::common::resources::descriptors::compute_pipeline::ComputePipelineDescriptor;
use crate::common::resources::descriptors::device::DeviceDescriptor;
use crate::common::resources::descriptors::instance::InstanceDescriptor;
use crate::common::resources::descriptors::pipeline_layout::PipelineLayoutDescriptor;
use crate::common::resources::descriptors::render_pipeline::RenderPipelineDescriptor;
use crate::common::resources::descriptors::sampler::SamplerDescriptor;
use crate::common::resources::descriptors::shader_module::ShaderModuleDescriptor;
use crate::common::resources::descriptors::swapchain::SwapchainDescriptor;
use crate::common::resources::descriptors::texture::TextureDescriptor;
use crate::common::resources::descriptors::texture_view::TextureViewDescriptor;
use crate::common::resources::handles::BindGroupHandle;
use crate::common::resources::handles::BindGroupLayoutHandle;
use crate::common::resources::handles::BufferHandle;
use crate::common::resources::handles::CommandBufferHandle;
use crate::common::resources::handles::ComputePipelineHandle;
use crate::common::resources::handles::DeviceHandle;
use crate::common::resources::handles::FrameHandle;
use crate::common::resources::handles::InstanceHandle;
use crate::common::resources::handles::PipelineLayoutHandle;
use crate::common::resources::handles::RenderPipelineHandle;
use crate::common::resources::handles::ResourceHandle;
use crate::common::resources::handles::SamplerHandle;
use crate::common::resources::handles::ShaderModuleHandle;
use crate::common::resources::handles::SwapchainHandle;
use crate::common::resources::handles::TextureHandle;
use crate::common::resources::handles::TextureViewHandle;
use crate::common::tasks::TaskId;
use crate::engine::resource_manager::ResourceManager;
use crate::entity_manager::EntityId;
use crate::entity_manager::EntityManagerError;

verus! {

/// The events after `event` was pushed: nothing changes where the last event
/// is `event` already.
pub open spec fn pushed(events: Seq<ResourceEvent>, event: ResourceEvent) -> Seq<ResourceEvent> {
    if events.len() > 0 && events.last() == event {
        events
    } else {
        events.push(event)
    }
}

pub struct UpdateContext {
    task: TaskId,
    resource_manager: ResourceManager,
    resource_writes: Vec<ResourceWrite>,
    events: Vec<ResourceEvent>,
}

impl UpdateContext {
    /// The task that the context is for.
    pub closed spec fn task_spec(&self) -> TaskId {
        self.task
    }

    /// The resource manager that the context changes.
    pub closed spec fn manager_spec(&self) -> ResourceManager {
        self.resource_manager
    }

    /// The pending uploads.
    pub closed spec fn writes_spec(&self) -> Seq<ResourceWrite> {
        self.resource_writes@
    }

    /// The events.
    pub closed spec fn events_spec(&self) -> Seq<ResourceEvent> {
        self.events@
    }

    /// The context's invariant: that of its resource manager.
    pub open spec fn wf(&self) -> bool {
        self.manager_spec().wf()
    }

    /// All but the resource manager is what it was in `before`.
    pub open spec fn kept(&self, before: &Self) -> bool {
        &&& self.task_spec() == before.task_spec()
        &&& self.writes_spec() == before.writes_spec()
        &&& self.events_spec() == before.events_spec()
    }

    pub fn new(task: TaskId, resource_manager: ResourceManager, events: Vec<ResourceEvent>) -> (context:
        Self)
        ensures
            context.task_spec() == task,
            context.manager_spec() == resource_manager,
            context.writes_spec() == Seq::<ResourceWrite>::empty(),
            context.events_spec() == events@,
    {
        Self { task, resource_manager, resource_writes: Vec::new(), events }
    }

    /// The resource manager, the pending uploads and the events, once the
    /// task is done with the context.
    pub fn into_parts(self) -> (parts: (ResourceManager, Vec<ResourceWrite>, Vec<ResourceEvent>))
        ensures
            parts.0 == self.manager_spec(),
            parts.1@ == self.writes_spec(),
            parts.2@ == self.events_spec(),
    {
        (self.resource_manager, self.resource_writes, self.events)
    }

    /// The resource manager, to read from.
    pub fn resource_manager(&self) -> (manager: &ResourceManager)
        ensures
            *manager == self.manager_spec(),
    {
        &self.resource_manager
    }

    /// The swapchain `id` hands its frame back, to be presented; it has none
    /// afterwards. `None` where `id` names no swapchain with a handle, or the
    /// swapchain has no frame.
    pub fn present_swapchain(&mut self, id: &SwapchainId) -> (frame: Option<FrameHandle>)
        requires
            old(self).wf(),
        ensures
            final(self).wf(),
            final(self).kept(old(self)),
            final(self).manager_spec().frame_presented(&old(self).manager_spec(), *id, frame),
            frame == match old(self).manager_spec().swapchain_handle_spec(*id) {
                Some(swapchain) => swapchain.frame_spec(),
                None => None,
            },
            final(self).manager_spec().damaged_spec() == old(self).manager_spec().damaged_spec(),
            final(self).manager_spec()@.entities.dom() == old(self).manager_spec()@.entities.dom(),
            final(self).manager_spec()@.edges == old(self).manager_spec()@.edges,
            final(self).manager_spec().same_but(&old(self).manager_spec(), id.0),
            final(self).manager_spec().descriptor_of(id.0) == old(self).manager_spec().descriptor_of(
                id.0,
            ),
            match (
                old(self).manager_spec().swapchain_handle_spec(*id),
                final(self).manager_spec().swapchain_handle_spec(*id),
            ) {
                (Some(before), Some(after)) => after.frame_spec() is None && after.setup_spec()
                    == before.setup_spec() && after.chain_spec() == before.chain_spec(),
                (None, _) => final(self).manager_spec().handle_of(id.0)
                    == old(self).manager_spec().handle_of(id.0),
                _ => false,
            },
    {
        self.resource_manager.present_swapchain(id)
    }

    /// Where the swapchain `id` has no frame, `acquire` is called for one,
    /// which the swapchain then has. Tells whether `id` names a swapchain
    /// with a handle.
    pub fn prepare_swapchain_frame<F: FnOnce() -> FrameHandle>(
        &mut self,
        id: &SwapchainId,
        acquire: F,
    ) -> (found: bool)
        requires
            old(self).wf(),
            call_requires(acquire, ()),
        ensures
            final(self).wf(),
            final(self).kept(old(self)),
            final(self).manager_spec().frame_prepared(
                &old(self).manager_spec(),
                *id,
                acquire,
                found,
            ),
            found == old(self).manager_spec().swapchain_handle_spec(*id) is Some,
            final(self).manager_spec().damaged_spec() == old(self).manager_spec().damaged_spec(),
            final(self).manager_spec()@.entities.dom() == old(self).manager_spec()@.entities.dom(),
            final(self).manager_spec()@.edges == old(self).manager_spec()@.edges,
            final(self).manager_spec().same_but(&old(self).manager_spec(), id.0),
            final(self).manager_spec().descriptor_of(id.0) == old(self).manager_spec().descriptor_of(
                id.0,
            ),
            match (
                old(self).manager_spec().swapchain_handle_spec(*id),
                final(self).manager_spec().swapchain_handle_spec(*id),
            ) {
                (Some(before), Some(after)) => {
                    &&& after.setup_spec() == before.setup_spec()
                    &&& after.chain_spec() == before.chain_spec()
                    &&& after.frame_spec() is Some
                    &&& before.frame_spec() is Some ==> after == before
                    &&& before.frame_spec() is None ==> call_ensures(
                        acquire,
                        (),
                        after.frame_spec()->Some_0,
                    )
                },
                (None, _) => final(self).manager_spec().handle_of(id.0)
                    == old(self).manager_spec().handle_of(id.0),
                _ => false,
            },
    {
        self.resource_manager.prepare_swapchain_frame(id, acquire)
    }

    pub fn is_damaged(&self, id: &EntityId) -> (damaged: bool)
        ensures
            damaged == self.manager_spec().is_damaged_spec(*id),
    {
        self.resource_manager.is_damaged(id)
    }

    pub fn entity_device_id(&self, id: &EntityId) -> (device: Option<DeviceId>)
        requires
            self.wf(),
        ensures
            device == self.manager_spec().device_route(*id, self.manager_spec().count()),
    {
        self.resource_manager.entity_device_id(id)
    }

    /// The uploads of `writes` join the pending ones, and leave `writes`.
    pub fn write_resource(&mut self, writes: &mut Vec<ResourceWrite>)
        ensures
            final(self).writes_spec() == old(self).writes_spec() + old(writes)@,
            final(writes)@ == Seq::<ResourceWrite>::empty(),
            final(self).task_spec() == old(self).task_spec(),
            final(self).manager_spec() == old(self).manager_spec(),
            final(self).events_spec() == old(self).events_spec(),
    {
        self.resource_writes.append(writes);
    }

    pub fn events(&self) -> (events: &Vec<ResourceEvent>)
        ensures
            events@ == self.events_spec(),
    {
        &self.events
    }

    /// `event` joins the events, unless the last event is `event` already.
    pub fn push_event(&mut self, event: ResourceEvent)
        ensures
            final(self).events_spec() == pushed(old(self).events_spec(), event),
            final(self).task_spec() == old(self).task_spec(),
            final(self).manager_spec() == old(self).manager_spec(),
            final(self).writes_spec() == old(self).writes_spec(),
    {
        let repeated = if self.events.len() > 0 {
            self.events[self.events.len() - 1] == event
        } else {
            false
        };
        if !repeated {
            self.events.push(event);
        }
    }

    pub fn into_resource_writes(self) -> (writes: Vec<ResourceWrite>)
        ensures
            writes@ == self.writes_spec(),
    {
        self.resource_writes
    }


    pub fn instances(&self) -> (ids: Vec<InstanceId>)
        requires
            self.wf(),
        ensures
            forall|id: InstanceId| ids@.contains(id) <==> self.manager_spec().instance_descriptor_spec(id) is Some,
            forall|i: int, j: int| 0 <= i < j < ids@.len() ==> ids@[i].0.0 < ids@[j].0.0,
    {
        self.resource_manager.instances()
    }

    pub fn instance_descriptor_ref(&self, id: &InstanceId) -> (descriptor: Option<&InstanceDescriptor>)
        requires
            self.wf(),
        ensures
            match descriptor {
                Some(d) => self.manager_spec().instance_descriptor_spec(*id) == Some(*d),
                None => self.manager_spec().instance_descriptor_spec(*id) is None,
            },
    {
        self.resource_manager.instance_descriptor_ref(id)
    }

    pub fn instance_handle_ref(&self, id: &InstanceId) -> (handle: Option<&InstanceHandle>)
        requires
            self.wf(),
        ensures
            match handle {
                Some(h) => self.manager_spec().instance_handle_spec(*id) == Some(*h),
                None => self.manager_spec().instance_handle_spec(*id) is None,
            },
    {
        self.resource_manager.instance_handle_ref(id)
    }

    /// Add an instance for the context's task, without a handle.
    pub fn add_instance_descriptor(&mut self, descriptor: InstanceDescriptor) -> (result: Result<InstanceId, EntityManagerError>)
        requires
            old(self).wf(),
        ensures
            final(self).wf(),
            final(self).kept(old(self)),
            final(self).manager_spec().added(
                &old(self).manager_spec(),
                old(self).task_spec(),
                ResourceDescriptor::Instance(descriptor),
                None,
                match result {
                    Ok(id) => Ok(ResourceId::Instance(id)),
                    Err(error) => Err(error),
                },
            ),
    {
        self.add_instance(descriptor, None)
    }

    /// Add an instance for the context's task.
    pub fn add_instance(&mut self, descriptor: InstanceDescriptor, handle: Option<InstanceHandle>) -> (result: Result<
        InstanceId,
        EntityManagerError,
    >)
        requires
            old(self).wf(),
        ensures
            final(self).wf(),
            final(self).kept(old(self)),
            final(self).manager_spec().added(
                &old(self).manager_spec(),
                old(self).task_spec(),
                ResourceDescriptor::Instance(descriptor),
                match handle {
                    Some(h) => Some(ResourceHandle::Instance(h)),
                    None => None,
                },
                match result {
                    Ok(id) => Ok(ResourceId::Instance(id)),
                    Err(error) => Err(error),
                },
            ),
    {
        self.resource_manager.add_instance(self.task, descriptor, handle)
    }

    /// Update the descriptor of the instance `id`, for the context's task.
    pub fn update_instance_descriptor(&mut self, id: &mut InstanceId, descriptor: InstanceDescriptor) -> (updated: bool)
        requires
            old(self).wf(),
        ensures
            final(self).wf(),
            final(self).kept(old(self)),
            final(self).manager_spec().redescribed(
                &old(self).manager_spec(),
                old(self).task_spec(),
                ResourceId::Instance(*old(id)),
                ResourceId::Instance(*final(id)),
                ResourceDescriptor::Instance(descriptor),
                updated,
            ),
    {
        let task = self.task;
        self.resource_manager.update_instance_descriptor(&task, id, descriptor)
    }

    /// Remove the instance `id`, for the context's task.
    pub fn remove_instance(&mut self, id: &InstanceId) -> (result: Result<(), ()>)
        requires
            old(self).wf(),
        ensures
            final(self).wf(),
            final(self).kept(old(self)),
            final(self).manager_spec().released(
                &old(self).manager_spec(),
                old(self).task_spec(),
                ResourceId::Instance(*id),
                result,
            ),
    {
        let task = self.task;
        self.resource_manager.remove_instance(&task, id)
    }


    pub fn devices(&self) -> (ids: Vec<DeviceId>)
        requires
            self.wf(),
        ensures
            forall|id: DeviceId| ids@.contains(id) <==> self.manager_spec().device_descriptor_spec(id) is Some,
            forall|i: int, j: int| 0 <= i < j < ids@.len() ==> ids@[i].0.0 < ids@[j].0.0,
    {
        self.resource_manager.devices()
    }

    pub fn device_descriptor_ref(&self, id: &DeviceId) -> (descriptor: Option<&DeviceDescriptor>)
        requires
            self.wf(),
        ensures
            match descriptor {
                Some(d) => self.manager_spec().device_descriptor_spec(*id) == Some(*d),
                None => self.manager_spec().device_descriptor_spec(*id) is None,
            },
    {
        self.resource_manager.device_descriptor_ref(id)
    }

    pub fn device_handle_ref(&self, id: &DeviceId) -> (handle: Option<&DeviceHandle>)
        requires
            self.wf(),
        ensures
            match handle {
                Some(h) => self.manager_spec().device_handle_spec(*id) == Some(*h),
                None => self.manager_spec().device_handle_spec(*id) is None,
            },
    {
        self.resource_manager.device_handle_ref(id)
    }

    /// Add a device for the context's task, without a handle.
    pub fn add_device_descriptor(&mut self, descriptor: DeviceDescriptor) -> (result: Result<DeviceId, EntityManagerError>)
        requires
            old(self).wf(),
        ensures
            final(self).wf(),
            final(self).kept(old(self)),
            final(self).manager_spec().added(
                &old(self).manager_spec(),
                old(self).task_spec(),
                ResourceDescriptor::Device(descriptor),
                None,
                match result {
                    Ok(id) => Ok(ResourceId::Device(id)),
                    Err(error) => Err(error),
                },
            ),
    {
        self.add_device(descriptor, None)
    }

    /// Add a device for the context's task.
    pub fn add_device(&mut self, descriptor: DeviceDescriptor, handle: Option<DeviceHandle>) -> (result: Result<
        DeviceId,
        EntityManagerError,
    >)
        requires
            old(self).wf(),
        ensures
            final(self).wf(),
            final(self).kept(old(self)),
            final(self).manager_spec().added(
                &old(self).manager_spec(),
                old(self).task_spec(),
                ResourceDescriptor::Device(descriptor),
                match handle {
                    Some(h) => Some(ResourceHandle::Device(h)),
                    None => None,
                },
                match result {
                    Ok(id) => Ok(ResourceId::Device(id)),
                    Err(error) => Err(error),
                },
            ),
    {
        self.resource_manager.add_device(self.task, descriptor, handle)
    }

    /// Update the descriptor of the device `id`, for the context's task.
    pub fn update_device_descriptor(&mut self, id: &mut DeviceId, descriptor: DeviceDescriptor) -> (updated: bool)
        requires
            old(self).wf(),
        ensures
            final(self).wf(),
            final(self).kept(old(self)),
            final(self).manager_spec().redescribed(
                &old(self).manager_spec(),
                old(self).task_spec(),
                ResourceId::Device(*old(id)),
                ResourceId::Device(*final(id)),
                ResourceDescriptor::Device(descriptor),
                updated,
            ),
    {
        let task = self.task;
        self.resource_manager.update_device_descriptor(&task, id, descriptor)
    }

    /// Remove the device `id`, for the context's task.
    pub fn remove_device(&mut self, id: &DeviceId) -> (result: Result<(), ()>)
        requires
            old(self).wf(),
        ensures
            final(self).wf(),
            final(self).kept(old(self)),
            final(self).manager_spec().released(
                &old(self).manager_spec(),
                old(self).task_spec(),
                ResourceId::Device(*id),
                result,
            ),
    {
        let task = self.task;
        self.resource_manager.remove_device(&task, id)
    }


    pub fn swapchains(&self) -> (ids: Vec<SwapchainId>)
        requires
            self.wf(),
        ensures
            forall|id: SwapchainId| ids@.contains(id) <==> self.manager_spec().swapchain_descriptor_spec(id) is Some,
            forall|i: int, j: int| 0 <= i < j < ids@.len() ==> ids@[i].0.0 < ids@[j].0.0,
    {
        self.resource_manager.swapchains()
    }

    pub fn swapchain_descriptor_ref(&self, id: &SwapchainId) -> (descriptor: Option<&SwapchainDescriptor>)
        requires
            self.wf(),
        ensures
            match descriptor {
                Some(d) => self.manager_spec().swapchain_descriptor_spec(*id) == Some(*d),
                None => self.manager_spec().swapchain_descriptor_spec(*id) is None,
            },
    {
        self.resource_manager.swapchain_descriptor_ref(id)
    }

    pub fn swapchain_handle_ref(&self, id: &SwapchainId) -> (handle: Option<&SwapchainHandle>)
        requires
            self.wf(),
        ensures
            match handle {
                Some(h) => self.manager_spec().swapchain_handle_spec(*id) == Some(*h),
                None => self.manager_spec().swapchain_handle_spec(*id) is None,
            },
    {
        self.resource_manager.swapchain_handle_ref(id)
    }

    /// Add a swapchain for the context's task, without a handle.
    pub fn add_swapchain_descriptor(&mut self, descriptor: SwapchainDescriptor) -> (result: Result<SwapchainId, EntityManagerError>)
        requires
            old(self).wf(),
        ensures
            final(self).wf(),
            final(self).kept(old(self)),
            final(self).manager_spec().added(
                &old(self).manager_spec(),
                old(self).task_spec(),
                ResourceDescriptor::Swapchain(descriptor),
                None,
                match result {
                    Ok(id) => Ok(ResourceId::Swapchain(id)),
                    Err(error) => Err(error),
                },
            ),
    {
        self.add_swapchain(descriptor, None)
    }

    /// Add a swapchain for the context's task.
    pub fn add_swapchain(&mut self, descriptor: SwapchainDescriptor, handle: Option<SwapchainHandle>) -> (result: Result<
        SwapchainId,
        EntityManagerError,
    >)
        requires
            old(self).wf(),
        ensures
            final(self).wf(),
            final(self).kept(old(self)),
            final(self).manager_spec().added(
                &old(self).manager_spec(),
                old(self).task_spec(),
                ResourceDescriptor::Swapchain(descriptor),
                match handle {
                    Some(h) => Some(ResourceHandle::Swapchain(h)),
                    None => None,
                },
                match result {
                    Ok(id) => Ok(ResourceId::Swapchain(id)),
                    Err(error) => Err(error),
                },
            ),
    {
        self.resource_manager.add_swapchain(self.task, descriptor, handle)
    }

    /// Update the descriptor of the swapchain `id`, for the context's task.
    pub fn update_swapchain_descriptor(&mut self, id: &mut SwapchainId, descriptor: SwapchainDescriptor) -> (updated: bool)
        requires
            old(self).wf(),
        ensures
            final(self).wf(),
            final(self).kept(old(self)),
            final(self).manager_spec().redescribed(
                &old(self).manager_spec(),
                old(self).task_spec(),
                ResourceId::Swapchain(*old(id)),
                ResourceId::Swapchain(*final(id)),
                ResourceDescriptor::Swapchain(descriptor),
                updated,
            ),
    {
        let task = self.task;
        self.resource_manager.update_swapchain_descriptor(&task, id, descriptor)
    }

    /// Remove the swapchain `id`, for the context's task.
    pub fn remove_swapchain(&mut self, id: &SwapchainId) -> (result: Result<(), ()>)
        requires
            old(self).wf(),
        ensures
            final(self).wf(),
            final(self).kept(old(self)),
            final(self).manager_spec().released(
                &old(self).manager_spec(),
                old(self).task_spec(),
                ResourceId::Swapchain(*id),
                result,
            ),
    {
        let task = self.task;
        self.resource_manager.remove_swapchain(&task, id)
    }


    pub fn buffers(&self) -> (ids: Vec<BufferId>)
        requires
            self.wf(),
        ensures
            forall|id: BufferId| ids@.contains(id) <==> self.manager_spec().buffer_descriptor_spec(id) is Some,
            forall|i: int, j: int| 0 <= i < j < ids@.len() ==> ids@[i].0.0 < ids@[j].0.0,
    {
        self.resource_manager.buffers()
    }

    pub fn buffer_descriptor_ref(&self, id: &BufferId) -> (descriptor: Option<&BufferDescriptor>)
        requires
            self.wf(),
        ensures
            match descriptor {
                Some(d) => self.manager_spec().buffer_descriptor_spec(*id) == Some(*d),
                None => self.manager_spec().buffer_descriptor_spec(*id) is None,
            },
    {
        self.resource_manager.buffer_descriptor_ref(id)
    }

    pub fn buffer_handle_ref(&self, id: &BufferId) -> (handle: Option<&BufferHandle>)
        requires
            self.wf(),
        ensures
            match handle {
                Some(h) => self.manager_spec().buffer_handle_spec(*id) == Some(*h),
                None => self.manager_spec().buffer_handle_spec(*id) is None,
            },
    {
        self.resource_manager.buffer_handle_ref(id)
    }

    /// Add a buffer for the context's task, without a handle.
    pub fn add_buffer_descriptor(&mut self, descriptor: BufferDescriptor) -> (result: Result<BufferId, EntityManagerError>)
        requires
            old(self).wf(),
        ensures
            final(self).wf(),
            final(self).kept(old(self)),
            final(self).manager_spec().added(
                &old(self).manager_spec(),
                old(self).task_spec(),
                ResourceDescriptor::Buffer(descriptor),
                None,
                match result {
                    Ok(id) => Ok(ResourceId::Buffer(id)),
                    Err(error) => Err(error),
                },
            ),
    {
        self.add_buffer(descriptor, None)
    }

    /// Add a buffer for the context's task.
    pub fn add_buffer(&mut self, descriptor: BufferDescriptor, handle: Option<BufferHandle>) -> (result: Result<
        BufferId,
        EntityManagerError,
    >)
        requires
            old(self).wf(),
        ensures
            final(self).wf(),
            final(self).kept(old(self)),
            final(self).manager_spec().added(
                &old(self).manager_spec(),
                old(self).task_spec(),
                ResourceDescriptor::Buffer(descriptor),
                match handle {
                    Some(h) => Some(ResourceHandle::Buffer(h)),
                    None => None,
                },
                match result {
                    Ok(id) => Ok(ResourceId::Buffer(id)),
                    Err(error) => Err(error),
                },
            ),
    {
        self.resource_manager.add_buffer(self.task, descriptor, handle)
    }

    /// Update the descriptor of the buffer `id`, for the context's task.
    pub fn update_buffer_descriptor(&mut self, id: &mut BufferId, descriptor: BufferDescriptor) -> (updated: bool)
        requires
            old(self).wf(),
        ensures
            final(self).wf(),
            final(self).kept(old(self)),
            final(self).manager_spec().redescribed(
                &old(self).manager_spec(),
                old(self).task_spec(),
                ResourceId::Buffer(*old(id)),
                ResourceId::Buffer(*final(id)),
                ResourceDescriptor::Buffer(descriptor),
                updated,
            ),
    {
        let task = self.task;
        self.resource_manager.update_buffer_descriptor(&task, id, descriptor)
    }

    /// Remove the buffer `id`, for the context's task.
    pub fn remove_buffer(&mut self, id: &BufferId) -> (result: Result<(), ()>)
        requires
            old(self).wf(),
        ensures
            final(self).wf(),
            final(self).kept(old(self)),
            final(self).manager_spec().released(
                &old(self).manager_spec(),
                old(self).task_spec(),
                ResourceId::Buffer(*id),
                result,
            ),
    {
        let task = self.task;
        self.resource_manager.remove_buffer(&task, id)
    }


    pub fn textures(&self) -> (ids: Vec<TextureId>)
        requires
            self.wf(),
        ensures
            forall|id: TextureId| ids@.contains(id) <==> self.manager_spec().texture_descriptor_spec(id) is Some,
            forall|i: int, j: int| 0 <= i < j < ids@.len() ==> ids@[i].0.0 < ids@[j].0.0,
    {
        self.resource_manager.textures()
    }

    pub fn texture_descriptor_ref(&self, id: &TextureId) -> (descriptor: Option<&TextureDescriptor>)
        requires
            self.wf(),
        ensures
            match descriptor {
                Some(d) => self.manager_spec().texture_descriptor_spec(*id) == Some(*d),
                None => self.manager_spec().texture_descriptor_spec(*id) is None,
            },
    {
        self.resource_manager.texture_descriptor_ref(id)
    }

    pub fn texture_handle_ref(&self, id: &TextureId) -> (handle: Option<&TextureHandle>)
        requires
            self.wf(),
        ensures
            match handle {
                Some(h) => self.manager_spec().texture_handle_spec(*id) == Some(*h),
                None => self.manager_spec().texture_handle_spec(*id) is None,
            },
    {
        self.resource_manager.texture_handle_ref(id)
    }

    /// Add a texture for the context's task, without a handle.
    pub fn add_texture_descriptor(&mut self, descriptor: TextureDescriptor) -> (result: Result<TextureId, EntityManagerError>)
        requires
            old(self).wf(),
        ensures
            final(self).wf(),
            final(self).kept(old(self)),
            final(self).manager_spec().added(
                &old(self).manager_spec(),
                old(self).task_spec(),
                ResourceDescriptor::Texture(descriptor),
                None,
                match result {
                    Ok(id) => Ok(ResourceId::Texture(id)),
                    Err(error) => Err(error),
                },
            ),
    {
        self.add_texture(descriptor, None)
    }

    /// Add a texture for the context's task.
    pub fn add_texture(&mut self, descriptor: TextureDescriptor, handle: Option<TextureHandle>) -> (result: Result<
        TextureId,
        EntityManagerError,
    >)
        requires
            old(self).wf(),
        ensures
            final(self).wf(),
            final(self).kept(old(self)),
            final(self).manager_spec().added(
                &old(self).manager_spec(),
                old(self).task_spec(),
                ResourceDescriptor::Texture(descriptor),
                match handle {
                    Some(h) => Some(ResourceHandle::Texture(h)),
                    None => None,
                },
                match result {
                    Ok(id) => Ok(ResourceId::Texture(id)),
                    Err(error) => Err(error),
                },
            ),
    {
        self.resource_manager.add_texture(self.task, descriptor, handle)
    }

    /// Update the descriptor of the texture `id`, for the context's task.
    pub fn update_texture_descriptor(&mut self, id: &mut TextureId, descriptor: TextureDescriptor) -> (updated: bool)
        requires
            old(self).wf(),
        ensures
            final(self).wf(),
            final(self).kept(old(self)),
            final(self).manager_spec().redescribed(
                &old(self).manager_spec(),
                old(self).task_spec(),
                ResourceId::Texture(*old(id)),
                ResourceId::Texture(*final(id)),
                ResourceDescriptor::Texture(descriptor),
                updated,
            ),
    {
        let task = self.task;
        self.resource_manager.update_texture_descriptor(&task, id, descriptor)
    }

    /// Remove the texture `id`, for the context's task.
    pub fn remove_texture(&mut self, id: &TextureId) -> (result: Result<(), ()>)
        requires
            old(self).wf(),
        ensures
            final(self).wf(),
            final(self).kept(old(self)),
            final(self).manager_spec().released(
                &old(self).manager_spec(),
                old(self).task_spec(),
                ResourceId::Texture(*id),
                result,
            ),
    {
        let task = self.task;
        self.resource_manager.remove_texture(&task, id)
    }


    pub fn texture_views(&self) -> (ids: Vec<TextureViewId>)
        requires
            self.wf(),
        ensures
            forall|id: TextureViewId| ids@.contains(id) <==> self.manager_spec().texture_view_descriptor_spec(id) is Some,
            forall|i: int, j: int| 0 <= i < j < ids@.len() ==> ids@[i].0.0 < ids@[j].0.0,
    {
        self.resource_manager.texture_views()
    }

    pub fn texture_view_descriptor_ref(&self, id: &TextureViewId) -> (descriptor: Option<&TextureViewDescriptor>)
        requires
            self.wf(),
        ensures
            match descriptor {
                Some(d) => self.manager_spec().texture_view_descriptor_spec(*id) == Some(*d),
                None => self.manager_spec().texture_view_descriptor_spec(*id) is None,
            },
    {
        self.resource_manager.texture_view_descriptor_ref(id)
    }

    pub fn texture_view_handle_ref(&self, id: &TextureViewId) -> (handle: Option<&TextureViewHandle>)
        requires
            self.wf(),
        ensures
            match handle {
                Some(h) => self.manager_spec().texture_view_handle_spec(*id) == Some(*h),
                None => self.manager_spec().texture_view_handle_spec(*id) is None,
            },
    {
        self.resource_manager.texture_view_handle_ref(id)
    }

    /// Add a texture_view for the context's task, without a handle.
    pub fn add_texture_view_descriptor(&mut self, descriptor: TextureViewDescriptor) -> (result: Result<TextureViewId, EntityManagerError>)
        requires
            old(self).wf(),
        ensures
            final(self).wf(),
            final(self).kept(old(self)),
            final(self).manager_spec().added(
                &old(self).manager_spec(),
                old(self).task_spec(),
                ResourceDescriptor::TextureView(descriptor),
                None,
                match result {
                    Ok(id) => Ok(ResourceId::TextureView(id)),
                    Err(error) => Err(error),
                },
            ),
    {
        self.add_texture_view(descriptor, None)
    }

    /// Add a texture_view for the context's task.
    pub fn add_texture_view(&mut self, descriptor: TextureViewDescriptor, handle: Option<TextureViewHandle>) -> (result: Result<
        TextureViewId,
        EntityManagerError,
    >)
        requires
            old(self).wf(),
        ensures
            final(self).wf(),
            final(self).kept(old(self)),
            final(self).manager_spec().added(
                &old(self).manager_spec(),
                old(self).task_spec(),
                ResourceDescriptor::TextureView(descriptor),
                match handle {
                    Some(h) => Some(ResourceHandle::TextureView(h)),
                    None => None,
                },
                match result {
                    Ok(id) => Ok(ResourceId::TextureView(id)),
                    Err(error) => Err(error),
                },
            ),
    {
        self.resource_manager.add_texture_view(self.task, descriptor, handle)
    }

    /// Update the descriptor of the texture_view `id`, for the context's task.
    pub fn update_texture_view_descriptor(&mut self, id: &mut TextureViewId, descriptor: TextureViewDescriptor) -> (updated: bool)
        requires
            old(self).wf(),
        ensures
            final(self).wf(),
            final(self).kept(old(self)),
            final(self).manager_spec().redescribed(
                &old(self).manager_spec(),
                old(self).task_spec(),
                ResourceId::TextureView(*old(id)),
                ResourceId::TextureView(*final(id)),
                ResourceDescriptor::TextureView(descriptor),
                updated,
            ),
    {
        let task = self.task;
        self.resource_manager.update_texture_view_descriptor(&task, id, descriptor)
    }

    /// Remove the texture_view `id`, for the context's task.
    pub fn remove_texture_view(&mut self, id: &TextureViewId) -> (result: Result<(), ()>)
        requires
            old(self).wf(),
        ensures
            final(self).wf(),
            final(self).kept(old(self)),
            final(self).manager_spec().released(
                &old(self).manager_spec(),
                old(self).task_spec(),
                ResourceId::TextureView(*id),
                result,
            ),
    {
        let task = self.task;
        self.resource_manager.remove_texture_view(&task, id)
    }


    pub fn samplers(&self) -> (ids: Vec<SamplerId>)
        requires
            self.wf(),
        ensures
            forall|id: SamplerId| ids@.contains(id) <==> self.manager_spec().sampler_descriptor_spec(id) is Some,
            forall|i: int, j: int| 0 <= i < j < ids@.len() ==> ids@[i].0.0 < ids@[j].0.0,
    {
        self.resource_manager.samplers()
    }

    pub fn sampler_descriptor_ref(&self, id: &SamplerId) -> (descriptor: Option<&SamplerDescriptor>)
        requires
            self.wf(),
        ensures
            match descriptor {
                Some(d) => self.manager_spec().sampler_descriptor_spec(*id) == Some(*d),
                None => self.manager_spec().sampler_descriptor_spec(*id) is None,
            },
    {
        self.resource_manager.sampler_descriptor_ref(id)
    }

    pub fn sampler_handle_ref(&self, id: &SamplerId) -> (handle: Option<&SamplerHandle>)
        requires
            self.wf(),
        ensures
            match handle {
                Some(h) => self.manager_spec().sampler_handle_spec(*id) == Some(*h),
                None => self.manager_spec().sampler_handle_spec(*id) is None,
            },
    {
        self.resource_manager.sampler_handle_ref(id)
    }

    /// Add a sampler for the context's task, without a handle.
    pub fn add_sampler_descriptor(&mut self, descriptor: SamplerDescriptor) -> (result: Result<SamplerId, EntityManagerError>)
        requires
            old(self).wf(),
        ensures
            final(self).wf(),
            final(self).kept(old(self)),
            final(self).manager_spec().added(
                &old(self).manager_spec(),
                old(self).task_spec(),
                ResourceDescriptor::Sampler(descriptor),
                None,
                match result {
                    Ok(id) => Ok(ResourceId::Sampler(id)),
                    Err(error) => Err(error),
                },
            ),
    {
        self.add_sampler(descriptor, None)
    }

    /// Add a sampler for the context's task.
    pub fn add_sampler(&mut self, descriptor: SamplerDescriptor, handle: Option<SamplerHandle>) -> (result: Result<
        SamplerId,
        EntityManagerError,
    >)
        requires
            old(self).wf(),
        ensures
            final(self).wf(),
            final(self).kept(old(self)),
            final(self).manager_spec().added(
                &old(self).manager_spec(),
                old(self).task_spec(),
                ResourceDescriptor::Sampler(descriptor),
                match handle {
                    Some(h) => Some(ResourceHandle::Sampler(h)),
                    None => None,
                },
                match result {
                    Ok(id) => Ok(ResourceId::Sampler(id)),
                    Err(error) => Err(error),
                },
            ),
    {
        self.resource_manager.add_sampler(self.task, descriptor, handle)
    }

    /// Update the descriptor of the sampler `id`, for the context's task.
    pub fn update_sampler_descriptor(&mut self, id: &mut SamplerId, descriptor: SamplerDescriptor) -> (updated: bool)
        requires
            old(self).wf(),
        ensures
            final(self).wf(),
            final(self).kept(old(self)),
            final(self).manager_spec().redescribed(
                &old(self).manager_spec(),
                old(self).task_spec(),
                ResourceId::Sampler(*old(id)),
                ResourceId::Sampler(*final(id)),
                ResourceDescriptor::Sampler(descriptor),
                updated,
            ),
    {
        let task = self.task;
        self.resource_manager.update_sampler_descriptor(&task, id, descriptor)
    }

    /// Remove the sampler `id`, for the context's task.
    pub fn remove_sampler(&mut self, id: &SamplerId) -> (result: Result<(), ()>)
        requires
            old(self).wf(),
        ensures
            final(self).wf(),
            final(self).kept(old(self)),
            final(self).manager_spec().released(
                &old(self).manager_spec(),
                old(self).task_spec(),
                ResourceId::Sampler(*id),
                result,
            ),
    {
        let task = self.task;
        self.resource_manager.remove_sampler(&task, id)
    }


    pub fn shader_modules(&self) -> (ids: Vec<ShaderModuleId>)
        requires
            self.wf(),
        ensures
            forall|id: ShaderModuleId| ids@.contains(id) <==> self.manager_spec().shader_module_descriptor_spec(id) is Some,
            forall|i: int, j: int| 0 <= i < j < ids@.len() ==> ids@[i].0.0 < ids@[j].0.0,
    {
        self.resource_manager.shader_modules()
    }

    pub fn shader_module_descriptor_ref(&self, id: &ShaderModuleId) -> (descriptor: Option<&ShaderModuleDescriptor>)
        requires
            self.wf(),
        ensures
            match descriptor {
                Some(d) => self.manager_spec().shader_module_descriptor_spec(*id) == Some(*d),
                None => self.manager_spec().shader_module_descriptor_spec(*id) is None,
            },
    {
        self.resource_manager.shader_module_descriptor_ref(id)
    }

    pub fn shader_module_handle_ref(&self, id: &ShaderModuleId) -> (handle: Option<&ShaderModuleHandle>)
        requires
            self.wf(),
        ensures
            match handle {
                Some(h) => self.manager_spec().shader_module_handle_spec(*id) == Some(*h),
                None => self.manager_spec().shader_module_handle_spec(*id) is None,
            },
    {
        self.resource_manager.shader_module_handle_ref(id)
    }

    /// Add a shader_module for the context's task, without a handle.
    pub fn add_shader_module_descriptor(&mut self, descriptor: ShaderModuleDescriptor) -> (result: Result<ShaderModuleId, EntityManagerError>)
        requires
            old(self).wf(),
        ensures
            final(self).wf(),
            final(self).kept(old(self)),
            final(self).manager_spec().added(
                &old(self).manager_spec(),
                old(self).task_spec(),
                ResourceDescriptor::ShaderModule(descriptor),
                None,
                match result {
                    Ok(id) => Ok(ResourceId::ShaderModule(id)),
                    Err(error) => Err(error),
                },
            ),
    {
        self.add_shader_module(descriptor, None)
    }

    /// Add a shader_module for the context's task.
    pub fn add_shader_module(&mut self, descriptor: ShaderModuleDescriptor, handle: Option<ShaderModuleHandle>) -> (result: Result<
        ShaderModuleId,
        EntityManagerError,
    >)
        requires
            old(self).wf(),
        ensures
            final(self).wf(),
            final(self).kept(old(self)),
            final(self).manager_spec().added(
                &old(self).manager_spec(),
                old(self).task_spec(),
                ResourceDescriptor::ShaderModule(descriptor),
                match handle {
                    Some(h) => Some(ResourceHandle::ShaderModule(h)),
                    None => None,
                },
                match result {
                    Ok(id) => Ok(ResourceId::ShaderModule(id)),
                    Err(error) => Err(error),
                },
            ),
    {
        self.resource_manager.add_shader_module(self.task, descriptor, handle)
    }

    /// Update the descriptor of the shader_module `id`, for the context's task.
    pub fn update_shader_module_descriptor(&mut self, id: &mut ShaderModuleId, descriptor: ShaderModuleDescriptor) -> (updated: bool)
        requires
            old(self).wf(),
        ensures
            final(self).wf(),
            final(self).kept(old(self)),
            final(self).manager_spec().redescribed(
                &old(self).manager_spec(),
                old(self).task_spec(),
                ResourceId::ShaderModule(*old(id)),
                ResourceId::ShaderModule(*final(id)),
                ResourceDescriptor::ShaderModule(descriptor),
                updated,
            ),
    {
        let task = self.task;
        self.resource_manager.update_shader_module_descriptor(&task, id, descriptor)
    }

    /// Remove the shader_module `id`, for the context's task.
    pub fn remove_shader_module(&mut self, id: &ShaderModuleId) -> (result: Result<(), ()>)
        requires
            old(self).wf(),
        ensures
            final(self).wf(),
            final(self).kept(old(self)),
            final(self).manager_spec().released(
                &old(self).manager_spec(),
                old(self).task_spec(),
                ResourceId::ShaderModule(*id),
                result,
            ),
    {
        let task = self.task;
        self.resource_manager.remove_shader_module(&task, id)
    }


    pub fn bind_group_layouts(&self) -> (ids: Vec<BindGroupLayoutId>)
        requires
            self.wf(),
        ensures
            forall|id: BindGroupLayoutId| ids@.contains(id) <==> self.manager_spec().bind_group_layout_descriptor_spec(id) is Some,
            forall|i: int, j: int| 0 <= i < j < ids@.len() ==> ids@[i].0.0 < ids@[j].0.0,
    {
        self.resource_manager.bind_group_layouts()
    }

    pub fn bind_group_layout_descriptor_ref(&self, id: &BindGroupLayoutId) -> (descriptor: Option<&BindGroupLayoutDescriptor>)
        requires
            self.wf(),
        ensures
            match descriptor {
                Some(d) => self.manager_spec().bind_group_layout_descriptor_spec(*id) == Some(*d),
                None => self.manager_spec().bind_group_layout_descriptor_spec(*id) is None,
            },
    {
        self.resource_manager.bind_group_layout_descriptor_ref(id)
    }

    pub fn bind_group_layout_handle_ref(&self, id: &BindGroupLayoutId) -> (handle: Option<&BindGroupLayoutHandle>)
        requires
            self.wf(),
        ensures
            match handle {
                Some(h) => self.manager_spec().bind_group_layout_handle_spec(*id) == Some(*h),
                None => self.manager_spec().bind_group_layout_handle_spec(*id) is None,
            },
    {
        self.resource_manager.bind_group_layout_handle_ref(id)
    }

    /// Add a bind_group_layout for the context's task, without a handle.
    pub fn add_bind_group_layout_descriptor(&mut self, descriptor: BindGroupLayoutDescriptor) -> (result: Result<BindGroupLayoutId, EntityManagerError>)
        requires
            old(self).wf(),
        ensures
            final(self).wf(),
            final(self).kept(old(self)),
            final(self).manager_spec().added(
                &old(self).manager_spec(),
                old(self).task_spec(),
                ResourceDescriptor::BindGroupLayout(descriptor),
                None,
                match result {
                    Ok(id) => Ok(ResourceId::BindGroupLayout(id)),
                    Err(error) => Err(error),
                },
            ),
    {
        self.add_bind_group_layout(descriptor, None)
    }

    /// Add a bind_group_layout for the context's task.
    pub fn add_bind_group_layout(&mut self, descriptor: BindGroupLayoutDescriptor, handle: Option<BindGroupLayoutHandle>) -> (result: Result<
        BindGroupLayoutId,
        EntityManagerError,
    >)
        requires
            old(self).wf(),
        ensures
            final(self).wf(),
            final(self).kept(old(self)),
            final(self).manager_spec().added(
                &old(self).manager_spec(),
                old(self).task_spec(),
                ResourceDescriptor::BindGroupLayout(descriptor),
                match handle {
                    Some(h) => Some(ResourceHandle::BindGroupLayout(h)),
                    None => None,
                },
                match result {
                    Ok(id) => Ok(ResourceId::BindGroupLayout(id)),
                    Err(error) => Err(error),
                },
            ),
    {
        self.resource_manager.add_bind_group_layout(self.task, descriptor, handle)
    }

    /// Update the descriptor of the bind_group_layout `id`, for the context's task.
    pub fn update_bind_group_layout_descriptor(&mut self, id: &mut BindGroupLayoutId, descriptor: BindGroupLayoutDescriptor) -> (updated: bool)
        requires
            old(self).wf(),
        ensures
            final(self).wf(),
            final(self).kept(old(self)),
            final(self).manager_spec().redescribed(
                &old(self).manager_spec(),
                old(self).task_spec(),
                ResourceId::BindGroupLayout(*old(id)),
                ResourceId::BindGroupLayout(*final(id)),
                ResourceDescriptor::BindGroupLayout(descriptor),
                updated,
            ),
    {
        let task = self.task;
        self.resource_manager.update_bind_group_layout_descriptor(&task, id, descriptor)
    }

    /// Remove the bind_group_layout `id`, for the context's task.
    pub fn remove_bind_group_layout(&mut self, id: &BindGroupLayoutId) -> (result: Result<(), ()>)
        requires
            old(self).wf(),
        ensures
            final(self).wf(),
            final(self).kept(old(self)),
            final(self).manager_spec().released(
                &old(self).manager_spec(),
                old(self).task_spec(),
                ResourceId::BindGroupLayout(*id),
                result,
            ),
    {
        let task = self.task;
        self.resource_manager.remove_bind_group_layout(&task, id)
    }


    pub fn bind_groups(&self) -> (ids: Vec<BindGroupId>)
        requires
            self.wf(),
        ensures
            forall|id: BindGroupId| ids@.contains(id) <==> self.manager_spec().bind_group_descriptor_spec(id) is Some,
            forall|i: int, j: int| 0 <= i < j < ids@.len() ==> ids@[i].0.0 < ids@[j].0.0,
    {
        self.resource_manager.bind_groups()
    }

    pub fn bind_group_descriptor_ref(&self, id: &BindGroupId) -> (descriptor: Option<&BindGroupDescriptor>)
        requires
            self.wf(),
        ensures
            match descriptor {
                Some(d) => self.manager_spec().bind_group_descriptor_spec(*id) == Some(*d),
                None => self.manager_spec().bind_group_descriptor_spec(*id) is None,
            },
    {
        self.resource_manager.bind_group_descriptor_ref(id)
    }

    pub fn bind_group_handle_ref(&self, id: &BindGroupId) -> (handle: Option<&BindGroupHandle>)
        requires
            self.wf(),
        ensures
            match handle {
                Some(h) => self.manager_spec().bind_group_handle_spec(*id) == Some(*h),
                None => self.manager_spec().bind_group_handle_spec(*id) is None,
            },
    {
        self.resource_manager.bind_group_handle_ref(id)
    }

    /// Add a bind_group for the context's task, without a handle.
    pub fn add_bind_group_descriptor(&mut self, descriptor: BindGroupDescriptor) -> (result: Result<BindGroupId, EntityManagerError>)
        requires
            old(self).wf(),
        ensures
            final(self).wf(),
            final(self).kept(old(self)),
            final(self).manager_spec().added(
                &old(self).manager_spec(),
                old(self).task_spec(),
                ResourceDescriptor::BindGroup(descriptor),
                None,
                match result {
                    Ok(id) => Ok(ResourceId::BindGroup(id)),
                    Err(error) => Err(error),
                },
            ),
    {
        self.add_bind_group(descriptor, None)
    }

    /// Add a bind_group for the context's task.
    pub fn add_bind_group(&mut self, descriptor: BindGroupDescriptor, handle: Option<BindGroupHandle>) -> (result: Result<
        BindGroupId,
        EntityManagerError,
    >)
        requires
            old(self).wf(),
        ensures
            final(self).wf(),
            final(self).kept(old(self)),
            final(self).manager_spec().added(
                &old(self).manager_spec(),
                old(self).task_spec(),
                ResourceDescriptor::BindGroup(descriptor),
                match handle {
                    Some(h) => Some(ResourceHandle::BindGroup(h)),
                    None => None,
                },
                match result {
                    Ok(id) => Ok(ResourceId::BindGroup(id)),
                    Err(error) => Err(error),
                },
            ),
    {
        self.resource_manager.add_bind_group(self.task, descriptor, handle)
    }

    /// Update the descriptor of the bind_group `id`, for the context's task.
    pub fn update_bind_group_descriptor(&mut self, id: &mut BindGroupId, descriptor: BindGroupDescriptor) -> (updated: bool)
        requires
            old(self).wf(),
        ensures
            final(self).wf(),
            final(self).kept(old(self)),
            final(self).manager_spec().redescribed(
                &old(self).manager_spec(),
                old(self).task_spec(),
                ResourceId::BindGroup(*old(id)),
                ResourceId::BindGroup(*final(id)),
                ResourceDescriptor::BindGroup(descriptor),
                updated,
            ),
    {
        let task = self.task;
        self.resource_manager.update_bind_group_descriptor(&task, id, descriptor)
    }

    /// Remove the bind_group `id`, for the context's task.
    pub fn remove_bind_group(&mut self, id: &BindGroupId) -> (result: Result<(), ()>)
        requires
            old(self).wf(),
        ensures
            final(self).wf(),
            final(self).kept(old(self)),
            final(self).manager_spec().released(
                &old(self).manager_spec(),
                old(self).task_spec(),
                ResourceId::BindGroup(*id),
                result,
            ),
    {
        let task = self.task;
        self.resource_manager.remove_bind_group(&task, id)
    }


    pub fn pipeline_layouts(&self) -> (ids: Vec<PipelineLayoutId>)
        requires
            self.wf(),
        ensures
            forall|id: PipelineLayoutId| ids@.contains(id) <==> self.manager_spec().pipeline_layout_descriptor_spec(id) is Some,
            forall|i: int, j: int| 0 <= i < j < ids@.len() ==> ids@[i].0.0 < ids@[j].0.0,
    {
        self.resource_manager.pipeline_layouts()
    }

    pub fn pipeline_layout_descriptor_ref(&self, id: &PipelineLayoutId) -> (descriptor: Option<&PipelineLayoutDescriptor>)
        requires
            self.wf(),
        ensures
            match descriptor {
                Some(d) => self.manager_spec().pipeline_layout_descriptor_spec(*id) == Some(*d),
                None => self.manager_spec().pipeline_layout_descriptor_spec(*id) is None,
            },
    {
        self.resource_manager.pipeline_layout_descriptor_ref(id)
    }

    pub fn pipeline_layout_handle_ref(&self, id: &PipelineLayoutId) -> (handle: Option<&PipelineLayoutHandle>)
        requires
            self.wf(),
        ensures
            match handle {
                Some(h) => self.manager_spec().pipeline_layout_handle_spec(*id) == Some(*h),
                None => self.manager_spec().pipeline_layout_handle_spec(*id) is None,
            },
    {
        self.resource_manager.pipeline_layout_handle_ref(id)
    }

    /// Add a pipeline_layout for the context's task, without a handle.
    pub fn add_pipeline_layout_descriptor(&mut self, descriptor: PipelineLayoutDescriptor) -> (result: Result<PipelineLayoutId, EntityManagerError>)
        requires
            old(self).wf(),
        ensures
            final(self).wf(),
            final(self).kept(old(self)),
            final(self).manager_spec().added(
                &old(self).manager_spec(),
                old(self).task_spec(),
                ResourceDescriptor::PipelineLayout(descriptor),
                None,
                match result {
                    Ok(id) => Ok(ResourceId::PipelineLayout(id)),
                    Err(error) => Err(error),
                },
            ),
    {
        self.add_pipeline_layout(descriptor, None)
    }

    /// Add a pipeline_layout for the context's task.
    pub fn add_pipeline_layout(&mut self, descriptor: PipelineLayoutDescriptor, handle: Option<PipelineLayoutHandle>) -> (result: Result<
        PipelineLayoutId,
        EntityManagerError,
    >)
        requires
            old(self).wf(),
        ensures
            final(self).wf(),
            final(self).kept(old(self)),
            final(self).manager_spec().added(
                &old(self).manager_spec(),
                old(self).task_spec(),
                ResourceDescriptor::PipelineLayout(descriptor),
                match handle {
                    Some(h) => Some(ResourceHandle::PipelineLayout(h)),
                    None => None,
                },
                match result {
                    Ok(id) => Ok(ResourceId::PipelineLayout(id)),
                    Err(error) => Err(error),
                },
            ),
    {
        self.resource_manager.add_pipeline_layout(self.task, descriptor, handle)
    }

    /// Update the descriptor of the pipeline_layout `id`, for the context's task.
    pub fn update_pipeline_layout_descriptor(&mut self, id: &mut PipelineLayoutId, descriptor: PipelineLayoutDescriptor) -> (updated: bool)
        requires
            old(self).wf(),
        ensures
            final(self).wf(),
            final(self).kept(old(self)),
            final(self).manager_spec().redescribed(
                &old(self).manager_spec(),
                old(self).task_spec(),
                ResourceId::PipelineLayout(*old(id)),
                ResourceId::PipelineLayout(*final(id)),
                ResourceDescriptor::PipelineLayout(descriptor),
                updated,
            ),
    {
        let task = self.task;
        self.resource_manager.update_pipeline_layout_descriptor(&task, id, descriptor)
    }

    /// Remove the pipeline_layout `id`, for the context's task.
    pub fn remove_pipeline_layout(&mut self, id: &PipelineLayoutId) -> (result: Result<(), ()>)
        requires
            old(self).wf(),
        ensures
            final(self).wf(),
            final(self).kept(old(self)),
            final(self).manager_spec().released(
                &old(self).manager_spec(),
                old(self).task_spec(),
                ResourceId::PipelineLayout(*id),
                result,
            ),
    {
        let task = self.task;
        self.resource_manager.remove_pipeline_layout(&task, id)
    }


    pub fn render_pipelines(&self) -> (ids: Vec<RenderPipelineId>)
        requires
            self.wf(),
        ensures
            forall|id: RenderPipelineId| ids@.contains(id) <==> self.manager_spec().render_pipeline_descriptor_spec(id) is Some,
            forall|i: int, j: int| 0 <= i < j < ids@.len() ==> ids@[i].0.0 < ids@[j].0.0,
    {
        self.resource_manager.render_pipelines()
    }

    pub fn render_pipeline_descriptor_ref(&self, id: &RenderPipelineId) -> (descriptor: Option<&RenderPipelineDescriptor>)
        requires
            self.wf(),
        ensures
            match descriptor {
                Some(d) => self.manager_spec().render_pipeline_descriptor_spec(*id) == Some(*d),
                None => self.manager_spec().render_pipeline_descriptor_spec(*id) is None,
            },
    {
        self.resource_manager.render_pipeline_descriptor_ref(id)
    }

    pub fn render_pipeline_handle_ref(&self, id: &RenderPipelineId) -> (handle: Option<&RenderPipelineHandle>)
        requires
            self.wf(),
        ensures
            match handle {
                Some(h) => self.manager_spec().render_pipeline_handle_spec(*id) == Some(*h),
                None => self.manager_spec().render_pipeline_handle_spec(*id) is None,
            },
    {
        self.resource_manager.render_pipeline_handle_ref(id)
    }

    /// Add a render_pipeline for the context's task, without a handle.
    pub fn add_render_pipeline_descriptor(&mut self, descriptor: RenderPipelineDescriptor) -> (result: Result<RenderPipelineId, EntityManagerError>)
        requires
            old(self).wf(),
        ensures
            final(self).wf(),
            final(self).kept(old(self)),
            final(self).manager_spec().added(
                &old(self).manager_spec(),
                old(self).task_spec(),
                ResourceDescriptor::RenderPipeline(descriptor),
                None,
                match result {
                    Ok(id) => Ok(ResourceId::RenderPipeline(id)),
                    Err(error) => Err(error),
                },
            ),
    {
        self.add_render_pipeline(descriptor, None)
    }

    /// Add a render_pipeline for the context's task.
    pub fn add_render_pipeline(&mut self, descriptor: RenderPipelineDescriptor, handle: Option<RenderPipelineHandle>) -> (result: Result<
        RenderPipelineId,
        EntityManagerError,
    >)
        requires
            old(self).wf(),
        ensures
            final(self).wf(),
            final(self).kept(old(self)),
            final(self).manager_spec().added(
                &old(self).manager_spec(),
                old(self).task_spec(),
                ResourceDescriptor::RenderPipeline(descriptor),
                match handle {
                    Some(h) => Some(ResourceHandle::RenderPipeline(h)),
                    None => None,
                },
                match result {
                    Ok(id) => Ok(ResourceId::RenderPipeline(id)),
                    Err(error) => Err(error),
                },
            ),
    {
        self.resource_manager.add_render_pipeline(self.task, descriptor, handle)
    }

    /// Update the descriptor of the render_pipeline `id`, for the context's task.
    pub fn update_render_pipeline_descriptor(&mut self, id: &mut RenderPipelineId, descriptor: RenderPipelineDescriptor) -> (updated: bool)
        requires
            old(self).wf(),
        ensures
            final(self).wf(),
            final(self).kept(old(self)),
            final(self).manager_spec().redescribed(
                &old(self).manager_spec(),
                old(self).task_spec(),
                ResourceId::RenderPipeline(*old(id)),
                ResourceId::RenderPipeline(*final(id)),
                ResourceDescriptor::RenderPipeline(descriptor),
                updated,
            ),
    {
        let task = self.task;
        self.resource_manager.update_render_pipeline_descriptor(&task, id, descriptor)
    }

    /// Remove the render_pipeline `id`, for the context's task.
    pub fn remove_render_pipeline(&mut self, id: &RenderPipelineId) -> (result: Result<(), ()>)
        requires
            old(self).wf(),
        ensures
            final(self).wf(),
            final(self).kept(old(self)),
            final(self).manager_spec().released(
                &old(self).manager_spec(),
                old(self).task_spec(),
                ResourceId::RenderPipeline(*id),
                result,
            ),
    {
        let task = self.task;
        self.resource_manager.remove_render_pipeline(&task, id)
    }


    pub fn compute_pipelines(&self) -> (ids: Vec<ComputePipelineId>)
        requires
            self.wf(),
        ensures
            forall|id: ComputePipelineId| ids@.contains(id) <==> self.manager_spec().compute_pipeline_descriptor_spec(id) is Some,
            forall|i: int, j: int| 0 <= i < j < ids@.len() ==> ids@[i].0.0 < ids@[j].0.0,
    {
        self.resource_manager.compute_pipelines()
    }

    pub fn compute_pipeline_descriptor_ref(&self, id: &ComputePipelineId) -> (descriptor: Option<&ComputePipelineDescriptor>)
        requires
            self.wf(),
        ensures
            match descriptor {
                Some(d) => self.manager_spec().compute_pipeline_descriptor_spec(*id) == Some(*d),
                None => self.manager_spec().compute_pipeline_descriptor_spec(*id) is None,
            },
    {
        self.resource_manager.compute_pipeline_descriptor_ref(id)
    }

    pub fn compute_pipeline_handle_ref(&self, id: &ComputePipelineId) -> (handle: Option<&ComputePipelineHandle>)
        requires
            self.wf(),
        ensures
            match handle {
                Some(h) => self.manager_spec().compute_pipeline_handle_spec(*id) == Some(*h),
                None => self.manager_spec().compute_pipeline_handle_spec(*id) is None,
            },
    {
        self.resource_manager.compute_pipeline_handle_ref(id)
    }

    /// Add a compute_pipeline for the context's task, without a handle.
    pub fn add_compute_pipeline_descriptor(&mut self, descriptor: ComputePipelineDescriptor) -> (result: Result<ComputePipelineId, EntityManagerError>)
        requires
            old(self).wf(),
        ensures
            final(self).wf(),
            final(self).kept(old(self)),
            final(self).manager_spec().added(
                &old(self).manager_spec(),
                old(self).task_spec(),
                ResourceDescriptor::ComputePipeline(descriptor),
                None,
                match result {
                    Ok(id) => Ok(ResourceId::ComputePipeline(id)),
                    Err(error) => Err(error),
                },
            ),
    {
        self.add_compute_pipeline(descriptor, None)
    }

    /// Add a compute_pipeline for the context's task.
    pub fn add_compute_pipeline(&mut self, descriptor: ComputePipelineDescriptor, handle: Option<ComputePipelineHandle>) -> (result: Result<
        ComputePipelineId,
        EntityManagerError,
    >)
        requires
            old(self).wf(),
        ensures
            final(self).wf(),
            final(self).kept(old(self)),
            final(self).manager_spec().added(
                &old(self).manager_spec(),
                old(self).task_spec(),
                ResourceDescriptor::ComputePipeline(descriptor),
                match handle {
                    Some(h) => Some(ResourceHandle::ComputePipeline(h)),
                    None => None,
                },
                match result {
                    Ok(id) => Ok(ResourceId::ComputePipeline(id)),
                    Err(error) => Err(error),
                },
            ),
    {
        self.resource_manager.add_compute_pipeline(self.task, descriptor, handle)
    }

    /// Update the descriptor of the compute_pipeline `id`, for the context's task.
    pub fn update_compute_pipeline_descriptor(&mut self, id: &mut ComputePipelineId, descriptor: ComputePipelineDescriptor) -> (updated: bool)
        requires
            old(self).wf(),
        ensures
            final(self).wf(),
            final(self).kept(old(self)),
            final(self).manager_spec().redescribed(
                &old(self).manager_spec(),
                old(self).task_spec(),
                ResourceId::ComputePipeline(*old(id)),
                ResourceId::ComputePipeline(*final(id)),
                ResourceDescriptor::ComputePipeline(descriptor),
                updated,
            ),
    {
        let task = self.task;
        self.resource_manager.update_compute_pipeline_descriptor(&task, id, descriptor)
    }

    /// Remove the compute_pipeline `id`, for the context's task.
    pub fn remove_compute_pipeline(&mut self, id: &ComputePipelineId) -> (result: Result<(), ()>)
        requires
            old(self).wf(),
        ensures
            final(self).wf(),
            final(self).kept(old(self)),
            final(self).manager_spec().released(
                &old(self).manager_spec(),
                old(self).task_spec(),
                ResourceId::ComputePipeline(*id),
                result,
            ),
    {
        let task = self.task;
        self.resource_manager.remove_compute_pipeline(&task, id)
    }


    pub fn command_buffers(&self) -> (ids: Vec<CommandBufferId>)
        requires
            self.wf(),
        ensures
            forall|id: CommandBufferId| ids@.contains(id) <==> self.manager_spec().command_buffer_descriptor_spec(id) is Some,
            forall|i: int, j: int| 0 <= i < j < ids@.len() ==> ids@[i].0.0 < ids@[j].0.0,
    {
        self.resource_manager.command_buffers()
    }

    pub fn command_buffer_descriptor_ref(&self, id: &CommandBufferId) -> (descriptor: Option<&CommandBufferDescriptor>)
        requires
            self.wf(),
        ensures
            match descriptor {
                Some(d) => self.manager_spec().command_buffer_descriptor_spec(*id) == Some(*d),
                None => self.manager_spec().command_buffer_descriptor_spec(*id) is None,
            },
    {
        self.resource_manager.command_buffer_descriptor_ref(id)
    }

    pub fn command_buffer_handle_ref(&self, id: &CommandBufferId) -> (handle: Option<&CommandBufferHandle>)
        requires
            self.wf(),
        ensures
            match handle {
                Some(h) => self.manager_spec().command_buffer_handle_spec(*id) == Some(*h),
                None => self.manager_spec().command_buffer_handle_spec(*id) is None,
            },
    {
        self.resource_manager.command_buffer_handle_ref(id)
    }

    /// Add a command_buffer for the context's task, without a handle.
    pub fn add_command_buffer_descriptor(&mut self, descriptor: CommandBufferDescriptor) -> (result: Result<CommandBufferId, EntityManagerError>)
        requires
            old(self).wf(),
        ensures
            final(self).wf(),
            final(self).kept(old(self)),
            final(self).manager_spec().added(
                &old(self).manager_spec(),
                old(self).task_spec(),
                ResourceDescriptor::CommandBuffer(descriptor),
                None,
                match result {
                    Ok(id) => Ok(ResourceId::CommandBuffer(id)),
                    Err(error) => Err(error),
                },
            ),
    {
        self.add_command_buffer(descriptor, None)
    }

    /// Add a command_buffer for the context's task.
    pub fn add_command_buffer(&mut self, descriptor: CommandBufferDescriptor, handle: Option<CommandBufferHandle>) -> (result: Result<
        CommandBufferId,
        EntityManagerError,
    >)
        requires
            old(self).wf(),
        ensures
            final(self).wf(),
            final(self).kept(old(self)),
            final(self).manager_spec().added(
                &old(self).manager_spec(),
                old(self).task_spec(),
                ResourceDescriptor::CommandBuffer(descriptor),
                match handle {
                    Some(h) => Some(ResourceHandle::CommandBuffer(h)),
                    None => None,
                },
                match result {
                    Ok(id) => Ok(ResourceId::CommandBuffer(id)),
                    Err(error) => Err(error),
                },
            ),
    {
        self.resource_manager.add_command_buffer(self.task, descriptor, handle)
    }

    /// Update the descriptor of the command_buffer `id`, for the context's task.
    pub fn update_command_buffer_descriptor(&mut self, id: &mut CommandBufferId, descriptor: CommandBufferDescriptor) -> (updated: bool)
        requires
            old(self).wf(),
        ensures
            final(self).wf(),
            final(self).kept(old(self)),
            final(self).manager_spec().redescribed(
                &old(self).manager_spec(),
                old(self).task_spec(),
                ResourceId::CommandBuffer(*old(id)),
                ResourceId::CommandBuffer(*final(id)),
                ResourceDescriptor::CommandBuffer(descriptor),
                updated,
            ),
    {
        let task = self.task;
        self.resource_manager.update_command_buffer_descriptor(&task, id, descriptor)
    }

    /// Remove the command_buffer `id`, for the context's task.
    pub fn remove_command_buffer(&mut self, id: &CommandBufferId) -> (result: Result<(), ()>)
        requires
            old(self).wf(),
        ensures
            final(self).wf(),
            final(self).kept(old(self)),
            final(self).manager_spec().released(
                &old(self).manager_spec(),
                old(self).task_spec(),
                ResourceId::CommandBuffer(*id),
                result,
            ),
    {
        let task = self.task;
        self.resource_manager.remove_command_buffer(&task, id)
    }

}

} // verus!
