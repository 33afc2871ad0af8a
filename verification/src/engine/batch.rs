//! What a dispatch cycle gathers for the devices: pending uploads, the
//! swapchains to clear and the command buffers to submit, device by device.

use vstd::prelude::*;
use crate::common::events::ResourceEvent;
use crate::common::resources::descriptors::ResourceWrite;
use crate::common::resources::handles::BufferHandle;
use crate::common::resources::handles::CommandBufferHandle;
use crate::common::resources::handles::DeviceHandle;
use crate::common::resources::handles::FrameHandle;
use crate::common::resources::handles::ResourceHandle;
use crate::common::resources::handles::TextureHandle;
use crate::common::resources::handles::TextureViewHandle;
use crate::common::resources::CommandBufferId;
use crate::common::resources::DeviceId;
use crate::common::resources::SwapchainId;
use crate::common::resources::TextureViewId;
use crate::common::tasks::TaskId;
use crate::common::tasks::TaskTrait;
use crate::entity_manager::update_context::UpdateContext;
use crate::engine::resource_manager::ResourceManager;
use crate::engine::resource_manager::presented_handle;
use crate::engine::resource_manager::names_swapchain;
use crate::engine::resource_manager::names_command_buffer;
use crate::entity_manager::EntityId;

verus! {

/// The lists of a device's batch, each in the order in which its items came.
pub struct DeviceLists {
    pub writes: Seq<ResourceWrite>,
    pub swapchains: Seq<(SwapchainId, Option<TextureViewId>)>,
    pub command_buffers: Seq<CommandBufferId>,
}

/// The lists of a batch that holds nothing.
pub open spec fn no_lists() -> DeviceLists {
    DeviceLists { writes: Seq::empty(), swapchains: Seq::empty(), command_buffers: Seq::empty() }
}

/// The resource that an upload goes to.
pub open spec fn write_target(write: ResourceWrite) -> EntityId {
    match write {
        ResourceWrite::Buffer(write) => write.buffer.0,
        ResourceWrite::Texture(write) => write.texture.0,
    }
}

/// The handle of what an upload goes to.
#[derive(Debug, Clone, Copy, PartialEq, Eq, Structural)]
pub enum WriteTarget {
    Buffer(BufferHandle),
    Texture(TextureHandle),
}

/// A pass that clears the frame of a swapchain, and with it the depth of a
/// depth and stencil view where there is one.
#[derive(Debug, Clone, Copy, PartialEq, Eq, Structural)]
pub struct ClearPass {
    pub frame: FrameHandle,
    pub depth_stencil: Option<TextureViewHandle>,
}

/// What is handed to the queue of a device, in this order: the uploads are
/// written, the clear passes are encoded and submitted ahead of the command
/// buffers, all in one call, and the frames are presented then.
#[derive(Debug)]
pub struct Submission {
    pub device: DeviceHandle,
    pub writes: Vec<(WriteTarget, ResourceWrite)>,
    pub clears: Vec<ClearPass>,
    pub command_buffers: Vec<CommandBufferHandle>,
    pub frames: Vec<FrameHandle>,
}

/// The handle of what `write` goes to, where it has one of the right kind.
pub open spec fn target_handle(resource_manager: &ResourceManager, write: ResourceWrite) -> Option<
    WriteTarget,
> {
    match write {
        ResourceWrite::Buffer(inner) => match resource_manager.buffer_handle_spec(inner.buffer) {
            Some(handle) => Some(WriteTarget::Buffer(handle)),
            None => None,
        },
        ResourceWrite::Texture(inner) => match resource_manager.texture_handle_spec(inner.texture) {
            Some(handle) => Some(WriteTarget::Texture(handle)),
            None => None,
        },
    }
}

/// The uploads of `writes` whose target has a handle, each with that handle,
/// in their order.
pub open spec fn resolved_writes(resource_manager: &ResourceManager, writes: Seq<ResourceWrite>) -> Seq<
    (WriteTarget, ResourceWrite),
>
    decreases writes.len(),
{
    if writes.len() == 0 {
        Seq::empty()
    } else {
        let rest = resolved_writes(resource_manager, writes.drop_last());
        match target_handle(resource_manager, writes.last()) {
            Some(target) => rest.push((target, writes.last())),
            None => rest,
        }
    }
}

/// The pass that clears `swapchain`, where it has a handle and a frame.
pub open spec fn clear_pass(
    resource_manager: &ResourceManager,
    swapchain: (SwapchainId, Option<TextureViewId>),
) -> Option<ClearPass> {
    match resource_manager.swapchain_handle_spec(swapchain.0) {
        Some(handle) => match handle.frame_spec() {
            Some(frame) => Some(
                ClearPass {
                    frame,
                    depth_stencil: match swapchain.1 {
                        Some(view) => resource_manager.texture_view_handle_spec(view),
                        None => None,
                    },
                },
            ),
            None => None,
        },
        None => None,
    }
}

/// The passes that clear those of `swapchains` that have a handle and a
/// frame, in their order.
pub open spec fn clear_passes(
    resource_manager: &ResourceManager,
    swapchains: Seq<(SwapchainId, Option<TextureViewId>)>,
) -> Seq<ClearPass>
    decreases swapchains.len(),
{
    if swapchains.len() == 0 {
        Seq::empty()
    } else {
        let rest = clear_passes(resource_manager, swapchains.drop_last());
        match clear_pass(resource_manager, swapchains.last()) {
            Some(pass) => rest.push(pass),
            None => rest,
        }
    }
}

impl ResourceWrite {
    /// The device of what the upload goes to, as its descriptor names it.
    pub open spec fn device_spec(&self, resource_manager: &ResourceManager) -> Option<DeviceId> {
        match *self {
            ResourceWrite::Buffer(write) => match resource_manager.buffer_descriptor_spec(
                write.buffer,
            ) {
                Some(descriptor) => Some(descriptor.device),
                None => None,
            },
            ResourceWrite::Texture(write) => match resource_manager.texture_descriptor_spec(
                write.texture,
            ) {
                Some(descriptor) => Some(descriptor.device),
                None => None,
            },
        }
    }

    /// The device of what the upload goes to, as its descriptor names it;
    /// `None` where it goes to no buffer or texture of the resource manager.
    pub fn device(&self, resource_manager: &ResourceManager) -> (device: Option<DeviceId>)
        requires
            resource_manager.wf(),
        ensures
            device == self.device_spec(resource_manager),
    {
        match self {
            Self::Buffer(write) => match resource_manager.buffer_descriptor_ref(&write.buffer) {
                Some(descriptor) => Some(descriptor.device),
                None => None,
            },
            Self::Texture(write) => match resource_manager.texture_descriptor_ref(&write.texture) {
                Some(descriptor) => Some(descriptor.device),
                None => None,
            },
        }
    }
}

/// Device specific part of a batch.
#[derive(Debug)]
pub struct DeviceBatch {
    resource_writes: Vec<ResourceWrite>,
    swapchains_to_clear: Vec<(SwapchainId, Option<TextureViewId>)>,
    command_buffers_to_dispatch: Vec<CommandBufferId>,
}

impl Default for DeviceBatch {
    fn default() -> (batch: Self)
        ensures
            batch.writes_spec() == Seq::<ResourceWrite>::empty(),
            batch.swapchains_spec() == Seq::<(SwapchainId, Option<TextureViewId>)>::empty(),
            batch.command_buffers_spec() == Seq::<CommandBufferId>::empty(),
    {
        Self {
            resource_writes: Vec::new(),
            swapchains_to_clear: Vec::new(),
            command_buffers_to_dispatch: Vec::new(),
        }
    }
}

/// What the batch of the device `device`, with the lists `lists`, makes of
/// the resource manager `before` when it is submitted: `submission` is what
/// is handed to the queue, and `after` is the resource manager then. There is
/// no submission, and nothing changes, where the device has no handle.
pub open spec fn device_submitted(
    lists: DeviceLists,
    before: &ResourceManager,
    device: DeviceId,
    after: &ResourceManager,
    submission: Option<Submission>,
) -> bool {
    &&& submission is Some <==> before.device_handle_spec(device) is Some
    &&& submission is None ==> *after == *before
    &&& submission matches Some(s) ==> {
        &&& Some(s.device) == before.device_handle_spec(device)
        &&& s.writes@ == resolved_writes(before, lists.writes)
        &&& s.clears@ == clear_passes(before, lists.swapchains)
        &&& s.command_buffers@ == before.first_handles(lists.command_buffers)
        &&& s.frames@ == before.first_frames(lists.swapchains, lists.command_buffers)
        &&& after@.entities.dom() == before@.entities.dom()
        &&& after@.edges == before@.edges
        &&& after.damaged_spec() == before.damaged_after_taking(lists.command_buffers)
        &&& forall|x: EntityId|
            before.contains(x) ==> #[trigger] after.descriptor_of(x) == before.descriptor_of(x)
                && after.owners_of(x) == before.owners_of(x)
        &&& forall|x: EntityId|
            #[trigger] after.handle_of(x) == if names_command_buffer(lists.command_buffers, x) {
                None
            } else if names_swapchain(lists.swapchains, x) {
                presented_handle(before.handle_of(x))
            } else {
                before.handle_of(x)
            }
    }
}

impl View for DeviceBatch {
    type V = DeviceLists;

    closed spec fn view(&self) -> DeviceLists {
        DeviceLists {
            writes: self.resource_writes@,
            swapchains: self.swapchains_to_clear@,
            command_buffers: self.command_buffers_to_dispatch@,
        }
    }
}

impl DeviceBatch {
    /// The three lists are what the batch shows.
    pub proof fn lemma_view(&self)
        ensures
            self@.writes == self.writes_spec(),
            self@.swapchains == self.swapchains_spec(),
            self@.command_buffers == self.command_buffers_spec(),
    {
    }

    /// The pending uploads, in the order in which they came.
    pub closed spec fn writes_spec(&self) -> Seq<ResourceWrite> {
        self.resource_writes@
    }

    /// The swapchains to clear, each with the depth and stencil view to clear
    /// with it, in the order in which they came.
    pub closed spec fn swapchains_spec(&self) -> Seq<(SwapchainId, Option<TextureViewId>)> {
        self.swapchains_to_clear@
    }

    /// The command buffers to submit, in the order in which they came.
    pub closed spec fn command_buffers_spec(&self) -> Seq<CommandBufferId> {
        self.command_buffers_to_dispatch@
    }

    /// Add a pending resource write operation.
    pub fn add_resource_write(&mut self, resource_write: ResourceWrite)
        ensures
            final(self).writes_spec() == old(self).writes_spec().push(resource_write),
            final(self).swapchains_spec() == old(self).swapchains_spec(),
            final(self).command_buffers_spec() == old(self).command_buffers_spec(),
    {
        self.resource_writes.push(resource_write);
    }

    /// Add multiple pending resource write operation.
    pub fn add_resource_writes(&mut self, resource_writes: Vec<ResourceWrite>)
        ensures
            final(self).writes_spec() == old(self).writes_spec() + resource_writes@,
            final(self).swapchains_spec() == old(self).swapchains_spec(),
            final(self).command_buffers_spec() == old(self).command_buffers_spec(),
    {
        let mut resource_writes = resource_writes;
        self.resource_writes.append(&mut resource_writes);
    }

    /// Add a swapchain to the batch.
    pub fn add_swapchain(&mut self, swapchain: (SwapchainId, Option<TextureViewId>))
        ensures
            final(self).swapchains_spec() == old(self).swapchains_spec().push(swapchain),
            final(self).writes_spec() == old(self).writes_spec(),
            final(self).command_buffers_spec() == old(self).command_buffers_spec(),
    {
        self.swapchains_to_clear.push(swapchain);
    }

    /// Add a command buffer to the batch.
    pub fn add_command_buffer(&mut self, command_buffer: CommandBufferId)
        ensures
            final(self).command_buffers_spec() == old(self).command_buffers_spec().push(
                command_buffer,
            ),
            final(self).writes_spec() == old(self).writes_spec(),
            final(self).swapchains_spec() == old(self).swapchains_spec(),
    {
        self.command_buffers_to_dispatch.push(command_buffer);
    }

    /// Add multiple command buffer to the batch.
    pub fn add_command_buffers(&mut self, command_buffers: Vec<CommandBufferId>)
        ensures
            final(self).command_buffers_spec() == old(self).command_buffers_spec()
                + command_buffers@,
            final(self).writes_spec() == old(self).writes_spec(),
            final(self).swapchains_spec() == old(self).swapchains_spec(),
    {
        let mut command_buffers = command_buffers;
        self.command_buffers_to_dispatch.append(&mut command_buffers);
    }

    /// What is to be handed to the queue of the device `device_id` for this
    /// batch, or `None` where the device has no handle. The uploads are those
    /// whose target has a handle; the clear passes are for the swapchains
    /// that have a frame; the command buffers are taken out of the resource
    /// manager, which damages their resources; the frames are taken from the
    /// swapchains, which have none afterwards.
    pub fn submit(self, resource_manager: &mut ResourceManager, device_id: &DeviceId) -> (submission:
        Option<Submission>)
        requires
            old(resource_manager).wf(),
        ensures
            final(resource_manager).wf(),
            device_submitted(
                self@,
                old(resource_manager),
                *device_id,
                final(resource_manager),
                submission,
            ),
            final(resource_manager)@.entities.dom() == old(resource_manager)@.entities.dom(),
            final(resource_manager)@.edges == old(resource_manager)@.edges,
    {
        proof {
            self.lemma_view();
        }
        let device = match resource_manager.device_handle_ref(device_id) {
            Some(device) => *device,
            None => {
                return None;
            },
        };
        let ghost all_writes = self.resource_writes@;
        let ghost all_swapchains = self.swapchains_to_clear@;
        let swapchains_to_clear = self.swapchains_to_clear;
        let command_buffers_to_dispatch = self.command_buffers_to_dispatch;
        // The uploads are moved out one by one, from the end of a reversed
        // list.
        let mut pending = self.resource_writes;
        let mut reversed: Vec<ResourceWrite> = Vec::new();
        let total = pending.len();
        while pending.len() > 0
            invariant
                reversed@.len() + pending@.len() == all_writes.len(),
                all_writes.len() == total,
                forall|i: int| 0 <= i < pending@.len() ==> pending@[i] == all_writes[i],
                forall|i: int|
                    0 <= i < reversed@.len() ==> reversed@[i] == all_writes[all_writes.len() - 1 - i],
            decreases pending@.len(),
        {
            let write = pending.pop().unwrap();
            reversed.push(write);
        }
        let mut writes: Vec<(WriteTarget, ResourceWrite)> = Vec::new();
        let mut done: usize = 0;
        proof {
            assert(all_writes.take(0) =~= Seq::<ResourceWrite>::empty());
        }
        while reversed.len() > 0
            invariant
                resource_manager.wf(),
                *resource_manager == *old(resource_manager),
                done + reversed@.len() == all_writes.len(),
                all_writes.len() == total,
                forall|i: int|
                    0 <= i < reversed@.len() ==> reversed@[i] == all_writes[all_writes.len() - 1 - i],
                writes@ == resolved_writes(old(resource_manager), all_writes.take(done as int)),
            decreases reversed@.len(),
        {
            let write = reversed.pop().unwrap();
            proof {
                assert(write == all_writes[done as int]);
                assert(all_writes.take(done + 1).drop_last() =~= all_writes.take(done as int));
                assert(all_writes.take(done + 1).last() == all_writes[done as int]);
            }
            let target = match &write {
                ResourceWrite::Buffer(inner) => match resource_manager.buffer_handle_ref(
                    &inner.buffer,
                ) {
                    Some(handle) => Some(WriteTarget::Buffer(*handle)),
                    None => None,
                },
                ResourceWrite::Texture(inner) => match resource_manager.texture_handle_ref(
                    &inner.texture,
                ) {
                    Some(handle) => Some(WriteTarget::Texture(*handle)),
                    None => None,
                },
            };
            if let Some(target) = target {
                writes.push((target, write));
            }
            done += 1;
        }
        proof {
            assert(all_writes.take(all_writes.len() as int) =~= all_writes);
        }
        let mut clears: Vec<ClearPass> = Vec::new();
        let mut i: usize = 0;
        proof {
            assert(all_swapchains.take(0) =~= Seq::<(SwapchainId, Option<TextureViewId>)>::empty());
        }
        while i < swapchains_to_clear.len()
            invariant
                resource_manager.wf(),
                *resource_manager == *old(resource_manager),
                i <= swapchains_to_clear.len(),
                swapchains_to_clear@ == all_swapchains,
                clears@ == clear_passes(old(resource_manager), all_swapchains.take(i as int)),
            decreases swapchains_to_clear.len() - i,
        {
            proof {
                assert(all_swapchains.take(i + 1).drop_last() =~= all_swapchains.take(i as int));
                assert(all_swapchains.take(i + 1).last() == all_swapchains[i as int]);
            }
            let (swapchain_id, depth_stencil_id) = swapchains_to_clear[i];
            match resource_manager.swapchain_handle_ref(&swapchain_id) {
                Some(swapchain) => {
                    if let Some(frame) = swapchain.current_frame() {
                        let depth_stencil = match depth_stencil_id {
                            Some(view) => match resource_manager.texture_view_handle_ref(&view) {
                                Some(handle) => Some(*handle),
                                None => None,
                            },
                            None => None,
                        };
                        clears.push(ClearPass { frame, depth_stencil });
                    }
                },
                None => {},
            }
            i += 1;
        }
        proof {
            assert(all_swapchains.take(all_swapchains.len() as int) =~= all_swapchains);
        }
        let command_buffers = resource_manager.take_command_buffers(&command_buffers_to_dispatch);
        let ghost taken = *resource_manager;
        let frames = resource_manager.present_swapchains(&swapchains_to_clear);
        proof {
            old(resource_manager).lemma_first_frames_after_taking(
                &taken,
                swapchains_to_clear@,
                command_buffers_to_dispatch@,
            );
            assert forall|x: EntityId|
                old(resource_manager).contains(x) implies #[trigger] resource_manager.descriptor_of(
                x,
            ) == old(resource_manager).descriptor_of(x) && resource_manager.owners_of(x) == old(
                resource_manager,
            ).owners_of(x) by {
                assert(taken.descriptor_of(x) == old(resource_manager).descriptor_of(x));
                assert(taken.contains(x));
            }
            assert forall|x: EntityId| #[trigger]
                resource_manager.handle_of(x) == if names_command_buffer(
                    command_buffers_to_dispatch@,
                    x,
                ) {
                    None
                } else if names_swapchain(swapchains_to_clear@, x) {
                    presented_handle(old(resource_manager).handle_of(x))
                } else {
                    old(resource_manager).handle_of(x)
                } by {
                assert(taken.handle_of(x) == if names_command_buffer(
                    command_buffers_to_dispatch@,
                    x,
                ) {
                    None
                } else {
                    old(resource_manager).handle_of(x)
                });
            }
        }
        Some(Submission { device, writes, clears, command_buffers, frames })
    }

    /// The pending uploads.
    pub fn resource_writes(&self) -> (writes: &Vec<ResourceWrite>)
        ensures
            writes@ == self.writes_spec(),
    {
        &self.resource_writes
    }

    /// The swapchains to clear.
    pub fn swapchains_to_clear(&self) -> (swapchains: &Vec<(SwapchainId, Option<TextureViewId>)>)
        ensures
            swapchains@ == self.swapchains_spec(),
    {
        &self.swapchains_to_clear
    }

    /// The command buffers to submit.
    pub fn command_buffers_to_dispatch(&self) -> (command_buffers: &Vec<CommandBufferId>)
        ensures
            command_buffers@ == self.command_buffers_spec(),
    {
        &self.command_buffers_to_dispatch
    }
}

/// The devices once `device` has a batch: it comes last where it had none.
pub open spec fn with_device(devices: Seq<DeviceId>, device: DeviceId) -> Seq<DeviceId> {
    if devices.contains(device) {
        devices
    } else {
        devices.push(device)
    }
}

/// The submissions among `outcomes`, in their order.
pub open spec fn submissions_of(outcomes: Seq<Option<Submission>>) -> Seq<Submission>
    decreases outcomes.len(),
{
    if outcomes.len() == 0 {
        Seq::empty()
    } else {
        let rest = submissions_of(outcomes.drop_last());
        match outcomes.last() {
            Some(submission) => rest.push(submission),
            None => rest,
        }
    }
}

/// Structure that store the data relative to a batch.
pub struct Batch {
    resource_manager: ResourceManager,
    batches: Vec<(DeviceId, DeviceBatch)>,
}

impl Batch {
    /// The resource manager that the batch works on.
    pub closed spec fn manager_spec(&self) -> ResourceManager {
        self.resource_manager
    }

    /// The devices that the batch holds something for, in the order in which
    /// they came.
    pub closed spec fn devices_spec(&self) -> Seq<DeviceId> {
        Seq::new(self.batches@.len(), |i: int| self.batches@[i].0)
    }

    /// The lists that the batch holds, each with its device, in the order in
    /// which the devices came.
    pub closed spec fn held(&self) -> Seq<(DeviceId, DeviceLists)> {
        Seq::new(self.batches@.len(), |i: int| (self.batches@[i].0, self.batches@[i].1@))
    }

    /// The lists that the batch holds for `device`.
    pub closed spec fn lists_of(&self, device: DeviceId) -> DeviceLists {
        if exists|i: int| 0 <= i < self.batches@.len() && self.batches@[i].0 == device {
            let i = choose|i: int| 0 <= i < self.batches@.len() && self.batches@[i].0 == device;
            self.batches@[i].1@
        } else {
            no_lists()
        }
    }

    /// The batch's invariant: that of the resource manager, and no device
    /// comes twice.
    pub closed spec fn wf(&self) -> bool {
        &&& self.resource_manager.wf()
        &&& forall|i: int, j: int|
            0 <= i < j < self.batches@.len() ==> (#[trigger] self.batches@[i]).0 != (
            #[trigger] self.batches@[j]).0
    }

    /// The device that an upload goes to, as the resource manager routes it.
    pub open spec fn write_device(&self, write: ResourceWrite) -> Option<DeviceId> {
        self.manager_spec().device_route(write_target(write), self.manager_spec().count())
    }

    /// All lists are what they were in `before`, but for those of `device`.
    pub open spec fn same_lists_but(&self, before: &Self, device: Option<DeviceId>) -> bool {
        forall|other: DeviceId|
            Some(other) != device ==> #[trigger] self.lists_of(other) == before.lists_of(other)
    }

    /// Two batches that hold the same lists hold the same for each device.
    pub proof fn lemma_held(&self, other: &Self)
        requires
            other.wf(),
            self.held() == other.held(),
        ensures
            self.same_lists_but(other, None),
            self.devices_spec() == other.devices_spec(),
    {
        assert(self.batches@.len() == self.held().len());
        assert(other.batches@.len() == other.held().len());
        assert(self.devices_spec() =~= other.devices_spec()) by {
            assert forall|i: int| 0 <= i < self.batches@.len() implies self.batches@[i].0
                == other.batches@[i].0 by {
                assert(self.held()[i] == other.held()[i]);
            }
        }
        assert forall|i: int| 0 <= i < self.batches@.len() implies self.batches@[i].0
            == other.batches@[i].0 && self.batches@[i].1@ == other.batches@[i].1@ by {
            assert(self.held()[i] == other.held()[i]);
        }
        assert forall|device: DeviceId| #[trigger]
            self.lists_of(device) == other.lists_of(device) by {
            let here = exists|i: int| 0 <= i < self.batches@.len() && self.batches@[i].0 == device;
            let there = exists|i: int|
                0 <= i < other.batches@.len() && other.batches@[i].0 == device;
            if here {
                let i = choose|i: int| 0 <= i < self.batches@.len() && self.batches@[i].0 == device;
                assert(other.batches@[i].0 == device);
                let j = choose|i: int|
                    0 <= i < other.batches@.len() && other.batches@[i].0 == device;
                if i != j {
                    assert(other.batches@[i].0 == other.batches@[j].0);
                }
            }
            if there {
                let j = choose|i: int|
                    0 <= i < other.batches@.len() && other.batches@[i].0 == device;
                assert(self.batches@[j].0 == device);
            }
        }
    }

    /// Whether `states` and `outcomes` are what submitting the batch makes,
    /// device by device in the order in which the devices came: the batch of
    /// each device is submitted to the resource manager as the one before
    /// left it.
    pub open spec fn submitted_in_turn(
        &self,
        states: Seq<ResourceManager>,
        outcomes: Seq<Option<Submission>>,
    ) -> bool {
        &&& states.len() == self.devices_spec().len() + 1
        &&& outcomes.len() == self.devices_spec().len()
        &&& states[0] == self.manager_spec()
        &&& forall|i: int|
            0 <= i < self.devices_spec().len() ==> device_submitted(
                self.lists_of(self.devices_spec()[i]),
                &states[i],
                self.devices_spec()[i],
                &states[i + 1],
                #[trigger] outcomes[i],
            )
    }

    /// What the invariant says of the resource manager.
    pub proof fn lemma_wf(&self)
        requires
            self.wf(),
        ensures
            self.manager_spec().wf(),
    {
    }

    pub fn new(resource_manager: ResourceManager) -> (batch: Self)
        requires
            resource_manager.wf(),
        ensures
            batch.wf(),
            batch.manager_spec() == resource_manager,
            forall|device: DeviceId| #[trigger] batch.lists_of(device) == no_lists(),
    {
        Self { resource_manager, batches: Vec::new() }
    }

    /// The batch with `resource_manager` for its resource manager and the
    /// lists of `batches`, in which no device comes twice.
    pub fn from_parts(resource_manager: ResourceManager, batches: Vec<(DeviceId, DeviceBatch)>) -> (batch:
        Option<Self>)
        requires
            resource_manager.wf(),
        ensures
            batch matches Some(b) ==> b.wf() && b.manager_spec() == resource_manager,
            batch is Some <==> forall|i: int, j: int|
                0 <= i < j < batches@.len() ==> (#[trigger] batches@[i]).0 != (
                #[trigger] batches@[j]).0,
    {
        let mut j: usize = 0;
        while j < batches.len()
            invariant
                j <= batches.len(),
                forall|a: int, b: int|
                    0 <= a < b < j ==> (#[trigger] batches@[a]).0 != (#[trigger] batches@[b]).0,
            decreases batches.len() - j,
        {
            let mut i: usize = 0;
            while i < j
                invariant
                    i <= j,
                    j < batches.len(),
                    forall|a: int| 0 <= a < i ==> (#[trigger] batches@[a]).0 != batches@[j as int].0,
                decreases j - i,
            {
                if batches[i].0 == batches[j].0 {
                    return None;
                }
                i += 1;
            }
            j += 1;
        }
        Some(Self { resource_manager, batches })
    }

    /// The resource manager and, device by device, what the batch holds.
    pub fn into_parts(self) -> (parts: (ResourceManager, Vec<(DeviceId, DeviceBatch)>))
        requires
            self.wf(),
        ensures
            parts.0 == self.manager_spec(),
            parts.1@.len() == self.devices_spec().len(),
            forall|i: int|
                0 <= i < parts.1@.len() ==> (#[trigger] parts.1@[i]).0 == self.devices_spec()[i]
                    && parts.1@[i].1@ == self.lists_of(parts.1@[i].0),
            forall|i: int, j: int|
                0 <= i < j < parts.1@.len() ==> (#[trigger] parts.1@[i]).0 != (
                #[trigger] parts.1@[j]).0,
    {
        proof {
            assert forall|i: int| 0 <= i < self.batches@.len() implies (
            #[trigger] self.batches@[i]).1@ == self.lists_of(self.batches@[i].0) by {
                let j = choose|j: int|
                    0 <= j < self.batches@.len() && self.batches@[j].0 == self.batches@[i].0;
                if i < j {
                    assert(self.batches@[i].0 != self.batches@[j].0);
                }
                if j < i {
                    assert(self.batches@[j].0 != self.batches@[i].0);
                }
            }
        }
        (self.resource_manager, self.batches)
    }

    /// Get the reference of the underlying resource manager.
    pub fn resource_manager_ref(&self) -> (manager: &ResourceManager)
        ensures
            *manager == self.manager_spec(),
    {
        &self.resource_manager
    }

    /// Get the mutable reference of the underlying resource manager. The
    /// batch is in order again once the resource manager is.
    pub fn resource_manager_mut(&mut self) -> (manager: &mut ResourceManager)
        requires
            old(self).wf(),
        ensures
            *manager == old(self).manager_spec(),
            final(self).manager_spec() == *final(manager),
            final(self).held() == old(self).held(),
            final(self).devices_spec() == old(self).devices_spec(),
            final(manager).wf() ==> final(self).wf(),
    {
        &mut self.resource_manager
    }

    /// The place of the batch of `device`, which comes anew where the batch
    /// holds nothing for `device` yet.
    #[verifier::loop_isolation(false)]
    fn entry(&mut self, device: DeviceId) -> (place: usize)
        requires
            old(self).wf(),
        ensures
            final(self).wf(),
            final(self).resource_manager == old(self).resource_manager,
            place < final(self).batches@.len(),
            final(self).batches@[place as int].0 == device,
            final(self).batches@[place as int].1@ == old(self).lists_of(device),
            forall|other: DeviceId| #[trigger] final(self).lists_of(other) == old(self).lists_of(other),
            final(self).devices_spec() == with_device(old(self).devices_spec(), device),
    {
        let mut i: usize = 0;
        while i < self.batches.len()
            invariant
                i <= self.batches.len(),
                *self == *old(self),
                forall|j: int| 0 <= j < i ==> (#[trigger] self.batches@[j]).0 != device,
            decreases self.batches.len() - i,
        {
            if self.batches[i].0 == device {
                proof {
                    self.lemma_lists_at(i as int);
                    assert(self.devices_spec()[i as int] == device);
                }
                return i;
            }
            i += 1;
        }
        let batch = DeviceBatch::default();
        proof {
            batch.lemma_view();
        }
        self.batches.push((device, batch));
        let place = self.batches.len() - 1;
        proof {
            assert(!old(self).devices_spec().contains(device)) by {
                if old(self).devices_spec().contains(device) {
                    let j = choose|j: int|
                        0 <= j < old(self).devices_spec().len() && old(self).devices_spec()[j]
                            == device;
                    assert(old(self).batches@[j].0 == device);
                }
            }
            assert(self.devices_spec() =~= old(self).devices_spec().push(device));
            assert(old(self).lists_of(device) == no_lists());
            assert(self.batches@[place as int].1@ =~= no_lists()) by {
                assert(batch@.writes =~= Seq::<ResourceWrite>::empty());
            }
            assert forall|other: DeviceId| #[trigger] self.lists_of(other) == old(self).lists_of(
                other,
            ) by {
                if exists|i: int| 0 <= i < old(self).batches@.len() && old(self).batches@[i].0 == other {
                    let i = choose|i: int|
                        0 <= i < old(self).batches@.len() && old(self).batches@[i].0 == other;
                    assert(self.batches@[i] == old(self).batches@[i]);
                    self.lemma_lists_at(i);
                    old(self).lemma_lists_at(i);
                } else {
                    if other == device {
                        self.lemma_lists_at(place as int);
                    } else {
                        assert forall|i: int| 0 <= i < self.batches@.len() implies self.batches@[i].0
                            != other by {
                            if i < old(self).batches@.len() {
                                assert(self.batches@[i] == old(self).batches@[i]);
                            }
                        }
                    }
                }
            }
        }
        place
    }

    /// The lists of a device are those of the one place at which it stands.
    proof fn lemma_lists_at(&self, place: int)
        requires
            0 <= place < self.batches@.len(),
            forall|i: int, j: int|
                0 <= i < j < self.batches@.len() ==> (#[trigger] self.batches@[i]).0 != (
                #[trigger] self.batches@[j]).0,
        ensures
            self.lists_of(self.batches@[place].0) == self.batches@[place].1@,
    {
        let device = self.batches@[place].0;
        let i = choose|i: int| 0 <= i < self.batches@.len() && self.batches@[i].0 == device;
        if i < place {
            assert(self.batches@[i].0 != self.batches@[place].0);
        }
        if place < i {
            assert(self.batches@[place].0 != self.batches@[i].0);
        }
    }

    /// The lists of the devices after the batch at `place` went from `before`
    /// to what it is.
    proof fn lemma_lists_changed(&self, before: &Self, place: int)
        requires
            0 <= place < before.batches@.len(),
            before.wf(),
            self.batches@.len() == before.batches@.len(),
            self.batches@[place].0 == before.batches@[place].0,
            forall|i: int|
                0 <= i < self.batches@.len() && i != place ==> #[trigger] self.batches@[i]
                    == before.batches@[i],
        ensures
            self.lists_of(self.batches@[place].0) == self.batches@[place].1@,
            self.same_lists_but(before, Some(self.batches@[place].0)),
            forall|i: int, j: int|
                0 <= i < j < self.batches@.len() ==> (#[trigger] self.batches@[i]).0 != (
                #[trigger] self.batches@[j]).0,
    {
        assert forall|i: int, j: int| 0 <= i < j < self.batches@.len() implies (
        #[trigger] self.batches@[i]).0 != (#[trigger] self.batches@[j]).0 by {
            assert(before.batches@[i].0 != before.batches@[j].0);
        }
        self.lemma_lists_at(place);
        assert forall|other: DeviceId|
            Some(other) != Some(self.batches@[place].0) implies #[trigger] self.lists_of(other)
            == before.lists_of(other) by {
            if exists|i: int| 0 <= i < before.batches@.len() && before.batches@[i].0 == other {
                let i = choose|i: int| 0 <= i < before.batches@.len() && before.batches@[i].0 == other;
                assert(self.batches@[i] == before.batches@[i]);
                self.lemma_lists_at(i);
                before.lemma_lists_at(i);
            } else {
                assert forall|i: int| 0 <= i < self.batches@.len() implies self.batches@[i].0
                    != other by {
                    if i != place {
                        assert(self.batches@[i] == before.batches@[i]);
                    }
                }
            }
        }
    }

    /// Add a pending resource write operation, to the batch of the device
    /// that the resource manager routes it to. Nothing happens where it
    /// routes it to none.
    pub fn add_resource_write(&mut self, resource_write: ResourceWrite) -> (added: bool)
        requires
            old(self).wf(),
        ensures
            final(self).wf(),
            final(self).manager_spec() == old(self).manager_spec(),
            added == old(self).write_device(resource_write) is Some,
            final(self).same_lists_but(old(self), old(self).write_device(resource_write)),
            old(self).write_device(resource_write) matches Some(device) ==> {
                &&& final(self).lists_of(device).writes == old(self).lists_of(device).writes.push(
                    resource_write,
                )
                &&& final(self).lists_of(device).swapchains == old(self).lists_of(device).swapchains
                &&& final(self).lists_of(device).command_buffers == old(self).lists_of(
                    device,
                ).command_buffers
            },
            final(self).devices_spec() == match old(self).write_device(resource_write) {
                Some(device) => with_device(old(self).devices_spec(), device),
                None => old(self).devices_spec(),
            },
    {
        let target = match &resource_write {
            ResourceWrite::Buffer(write) => write.buffer.0,
            ResourceWrite::Texture(write) => write.texture.0,
        };
        let device_id = match self.resource_manager.entity_device_id(&target) {
            Some(device_id) => device_id,
            None => {
                return false;
            },
        };
        let place = self.entry(device_id);
        let ghost halfway = *self;
        proof {
            self.batches@[place as int].1.lemma_view();
        }
        self.batches[place].1.add_resource_write(resource_write);
        proof {
            self.batches@[place as int].1.lemma_view();
            self.lemma_lists_changed(&halfway, place as int);
            assert(self.lists_of(device_id).writes =~= old(self).lists_of(device_id).writes.push(
                resource_write,
            ));
            assert(self.devices_spec() =~= halfway.devices_spec());
        }
        true
    }

    /// The devices that have a batch once the uploads `writes` have joined
    /// one after the other, where `devices` had one before: each device that
    /// an upload is routed to.
    pub open spec fn devices_with_writes(
        &self,
        devices: Seq<DeviceId>,
        writes: Seq<ResourceWrite>,
    ) -> Seq<DeviceId>
        decreases writes.len(),
    {
        if writes.len() == 0 {
            devices
        } else {
            let rest = self.devices_with_writes(devices, writes.drop_last());
            match self.write_device(writes.last()) {
                Some(device) => with_device(rest, device),
                None => rest,
            }
        }
    }

    /// The device whose batch the command buffer `id` joins, if any.
    pub open spec fn command_buffer_device(&self, id: CommandBufferId) -> Option<DeviceId> {
        if self.manager_spec().command_buffer_descriptor_spec(id) is Some {
            self.manager_spec().device_route(id.0, self.manager_spec().count())
        } else {
            None
        }
    }

    /// The devices that have a batch once the command buffers `ids` have
    /// joined one after the other, where `devices` had one before.
    pub open spec fn devices_with_command_buffers(
        &self,
        devices: Seq<DeviceId>,
        ids: Seq<CommandBufferId>,
    ) -> Seq<DeviceId>
        decreases ids.len(),
    {
        if ids.len() == 0 {
            devices
        } else {
            let rest = self.devices_with_command_buffers(devices, ids.drop_last());
            match self.command_buffer_device(ids.last()) {
                Some(device) => with_device(rest, device),
                None => rest,
            }
        }
    }

    /// The first of `writes` that the resource manager routes to no device;
    /// their number where it routes them all.
    pub open spec fn first_unrouted(&self, writes: Seq<ResourceWrite>) -> int
        decreases writes.len(),
    {
        if writes.len() == 0 {
            0
        } else if self.write_device(writes.first()) is None {
            0
        } else {
            1 + self.first_unrouted(writes.drop_first())
        }
    }

    /// Those of `writes` that the resource manager routes to `device`, in
    /// their order.
    pub open spec fn routed_to(&self, writes: Seq<ResourceWrite>, device: DeviceId) -> Seq<
        ResourceWrite,
    >
        decreases writes.len(),
    {
        if writes.len() == 0 {
            Seq::empty()
        } else if self.write_device(writes.last()) == Some(device) {
            self.routed_to(writes.drop_last(), device).push(writes.last())
        } else {
            self.routed_to(writes.drop_last(), device)
        }
    }

    /// Add multiple pending resource write operations, one after the other,
    /// up to the first that the resource manager routes to no device; tells
    /// whether there was none such.
    #[verifier::loop_isolation(false)]
    pub fn add_resource_writes(&mut self, resource_writes: Vec<ResourceWrite>) -> (added: bool)
        requires
            old(self).wf(),
        ensures
            final(self).wf(),
            final(self).manager_spec() == old(self).manager_spec(),
            added == (old(self).first_unrouted(resource_writes@) == resource_writes@.len()),
            forall|device: DeviceId|
                {
                    let lists = #[trigger] final(self).lists_of(device);
                    let before = old(self).lists_of(device);
                    &&& lists.writes == before.writes + old(self).routed_to(
                        resource_writes@.take(old(self).first_unrouted(resource_writes@)),
                        device,
                    )
                    &&& lists.swapchains == before.swapchains
                    &&& lists.command_buffers == before.command_buffers
                },
            final(self).devices_spec() == old(self).devices_with_writes(
                old(self).devices_spec(),
                resource_writes@.take(old(self).first_unrouted(resource_writes@)),
            ),
    {
        let ghost all = resource_writes@;
        let total = resource_writes.len();
        assert(all.len() == total);
        let mut resource_writes = resource_writes;
        let mut pending: Vec<ResourceWrite> = Vec::new();
        // The writes are taken from the end of a reversed list, so that each is
        // moved out in its turn.
        let mut n: usize = 0;
        while resource_writes.len() > 0
            invariant
                n + resource_writes@.len() == all.len(),
                pending@.len() == n,
                forall|i: int| 0 <= i < resource_writes@.len() ==> resource_writes@[i] == all[i],
                forall|i: int| 0 <= i < n ==> pending@[i] == all[all.len() - 1 - i],
            decreases resource_writes@.len(),
        {
            let write = resource_writes.pop().unwrap();
            pending.push(write);
            n += 1;
        }
        let mut done: usize = 0;
        proof {
            assert(all.take(0) =~= Seq::<ResourceWrite>::empty());
            assert(all.skip(0) =~= all);
        }
        while pending.len() > 0
            invariant
                self.wf(),
                self.manager_spec() == old(self).manager_spec(),
                done + pending@.len() == all.len(),
                forall|i: int| 0 <= i < pending@.len() ==> pending@[i] == all[all.len() - 1 - i],
                old(self).first_unrouted(all) == done + old(self).first_unrouted(
                    all.skip(done as int),
                ),
                self.devices_spec() == old(self).devices_with_writes(
                    old(self).devices_spec(),
                    all.take(done as int),
                ),
                forall|device: DeviceId|
                    {
                        let lists = #[trigger] self.lists_of(device);
                        let before = old(self).lists_of(device);
                        &&& lists.writes == before.writes + old(self).routed_to(
                            all.take(done as int),
                            device,
                        )
                        &&& lists.swapchains == before.swapchains
                        &&& lists.command_buffers == before.command_buffers
                    },
            decreases pending@.len(),
        {
            let write = pending.pop().unwrap();
            let ghost rest = all.skip(done as int);
            let ghost halfway = *self;
            proof {
                assert(write == all[done as int]);
                assert(rest.first() == all[done as int]);
                assert(rest.drop_first() =~= all.skip(done + 1));
                assert(all.take(done + 1).drop_last() =~= all.take(done as int));
                assert(all.take(done + 1).last() == all[done as int]);
            }
            if !self.add_resource_write(write) {
                proof {
                    assert(old(self).first_unrouted(all) == done);
                    assert forall|device: DeviceId| #[trigger]
                        self.lists_of(device) == halfway.lists_of(device) by {
                        assert(Some(device) != None::<DeviceId>);
                    }
                }
                return false;
            }
            proof {
                let device = old(self).write_device(write)->Some_0;
                assert forall|other: DeviceId|
                    {
                        let lists = #[trigger] self.lists_of(other);
                        let before = old(self).lists_of(other);
                        &&& lists.writes == before.writes + old(self).routed_to(
                            all.take(done + 1),
                            other,
                        )
                        &&& lists.swapchains == before.swapchains
                        &&& lists.command_buffers == before.command_buffers
                    } by {
                    let lists = self.lists_of(other);
                    let middle = halfway.lists_of(other);
                    if other == device {
                        assert(lists.writes =~= old(self).lists_of(other).writes + old(
                            self,
                        ).routed_to(all.take(done + 1), other));
                    } else {
                        assert(lists == middle);
                    }
                }
            }
            done += 1;
        }
        proof {
            assert(all.skip(all.len() as int) =~= Seq::<ResourceWrite>::empty());
            assert(all.take(all.len() as int) =~= all);
        }
        true
    }

    /// Add a pending command buffer to the batch of the device that the
    /// resource manager routes it to, with the swapchains that it draws to.
    /// Nothing happens where `command_buffer` names no command buffer, or is
    /// routed to no device.
    pub fn add_command_buffer(&mut self, command_buffer: CommandBufferId) -> (added: bool)
        requires
            old(self).wf(),
        ensures
            final(self).wf(),
            final(self).manager_spec() == old(self).manager_spec(),
            added == (old(self).manager_spec().command_buffer_descriptor_spec(command_buffer) is Some
                && old(self).manager_spec().device_route(
                command_buffer.0,
                old(self).manager_spec().count(),
            ) is Some),
            !added ==> final(self).same_lists_but(old(self), None),
            added ==> {
                let device = old(self).manager_spec().device_route(
                    command_buffer.0,
                    old(self).manager_spec().count(),
                )->Some_0;
                let descriptor = old(self).manager_spec().command_buffer_descriptor_spec(
                    command_buffer,
                )->Some_0;
                &&& final(self).same_lists_but(old(self), Some(device))
                &&& final(self).lists_of(device).writes == old(self).lists_of(device).writes
                &&& final(self).lists_of(device).swapchains == old(self).lists_of(device).swapchains
                    + descriptor.swapchains_spec()
                &&& final(self).lists_of(device).command_buffers == old(self).lists_of(
                    device,
                ).command_buffers.push(command_buffer)
            },
            final(self).devices_spec() == match old(self).command_buffer_device(command_buffer) {
                Some(device) => with_device(old(self).devices_spec(), device),
                None => old(self).devices_spec(),
            },
    {
        let swapchains = match self.resource_manager.command_buffer_descriptor_ref(&command_buffer) {
            Some(descriptor) => descriptor.swapchains(),
            None => {
                return false;
            },
        };
        let device_id = match self.resource_manager.entity_device_id(command_buffer.id_ref()) {
            Some(device_id) => device_id,
            None => {
                return false;
            },
        };
        let place = self.entry(device_id);
        let ghost halfway = *self;
        proof {
            self.batches@[place as int].1.lemma_view();
        }
        let mut i: usize = 0;
        while i < swapchains.len()
            invariant
                i <= swapchains.len(),
                place < self.batches@.len(),
                self.resource_manager == halfway.resource_manager,
                self.batches@.len() == halfway.batches@.len(),
                self.batches@[place as int].0 == device_id,
                forall|j: int|
                    0 <= j < self.batches@.len() && j != place ==> #[trigger] self.batches@[j]
                        == halfway.batches@[j],
                self.batches@[place as int].1.writes_spec()
                    == halfway.batches@[place as int].1.writes_spec(),
                self.batches@[place as int].1.command_buffers_spec()
                    == halfway.batches@[place as int].1.command_buffers_spec(),
                self.batches@[place as int].1.swapchains_spec()
                    == halfway.batches@[place as int].1.swapchains_spec() + swapchains@.take(
                    i as int,
                ),
            decreases swapchains.len() - i,
        {
            self.batches[place].1.add_swapchain(swapchains[i]);
            proof {
                assert(swapchains@.take(i + 1) =~= swapchains@.take(i as int).push(
                    swapchains@[i as int],
                ));
            }
            i += 1;
        }
        self.batches[place].1.add_command_buffer(command_buffer);
        proof {
            assert(swapchains@.take(swapchains@.len() as int) =~= swapchains@);
            self.batches@[place as int].1.lemma_view();
            self.lemma_lists_changed(&halfway, place as int);
            assert(self.devices_spec() =~= halfway.devices_spec()) by {
                assert forall|j: int| 0 <= j < self.batches@.len() implies self.batches@[j].0
                    == halfway.batches@[j].0 by {
                    if j != place {
                        assert(self.batches@[j] == halfway.batches@[j]);
                    }
                }
            }
        }
        true
    }

    /// Whether the command buffer `id` joins the batch of `device`: it names a
    /// command buffer, which the resource manager routes to `device`.
    pub open spec fn joins(&self, id: CommandBufferId, device: DeviceId) -> bool {
        &&& self.manager_spec().command_buffer_descriptor_spec(id) is Some
        &&& self.manager_spec().device_route(id.0, self.manager_spec().count()) == Some(device)
    }

    /// The command buffers among `ids` that join the batch of `device`, in
    /// their order.
    pub open spec fn command_buffers_for(&self, ids: Seq<CommandBufferId>, device: DeviceId) -> Seq<
        CommandBufferId,
    >
        decreases ids.len(),
    {
        if ids.len() == 0 {
            Seq::empty()
        } else if self.joins(ids.last(), device) {
            self.command_buffers_for(ids.drop_last(), device).push(ids.last())
        } else {
            self.command_buffers_for(ids.drop_last(), device)
        }
    }

    /// The swapchains that the command buffers among `ids` that join the
    /// batch of `device` draw to, command buffer by command buffer.
    pub open spec fn swapchains_for(&self, ids: Seq<CommandBufferId>, device: DeviceId) -> Seq<
        (SwapchainId, Option<TextureViewId>),
    >
        decreases ids.len(),
    {
        if ids.len() == 0 {
            Seq::empty()
        } else if self.joins(ids.last(), device) {
            self.swapchains_for(ids.drop_last(), device) + self.manager_spec().command_buffer_descriptor_spec(
                ids.last(),
            )->Some_0.swapchains_spec()
        } else {
            self.swapchains_for(ids.drop_last(), device)
        }
    }

    /// Add multiple pending command buffers, one after the other: see
    /// `add_command_buffer`.
    pub fn add_command_buffers(&mut self, command_buffers: &Vec<CommandBufferId>)
        requires
            old(self).wf(),
        ensures
            final(self).wf(),
            final(self).manager_spec() == old(self).manager_spec(),
            forall|device: DeviceId|
                {
                    let lists = #[trigger] final(self).lists_of(device);
                    let before = old(self).lists_of(device);
                    &&& lists.writes == before.writes
                    &&& lists.swapchains == before.swapchains + old(self).swapchains_for(
                        command_buffers@,
                        device,
                    )
                    &&& lists.command_buffers == before.command_buffers + old(
                        self,
                    ).command_buffers_for(command_buffers@, device)
                },
            final(self).devices_spec() == old(self).devices_with_command_buffers(
                old(self).devices_spec(),
                command_buffers@,
            ),
    {
        let mut i: usize = 0;
        proof {
            assert forall|device: DeviceId|
                {
                    let lists = #[trigger] self.lists_of(device);
                    let before = old(self).lists_of(device);
                    &&& lists.swapchains == before.swapchains + old(self).swapchains_for(
                        command_buffers@.take(0),
                        device,
                    )
                    &&& lists.command_buffers == before.command_buffers + old(
                        self,
                    ).command_buffers_for(command_buffers@.take(0), device)
                } by {
                let before = old(self).lists_of(device);
                assert(before.swapchains + Seq::<(SwapchainId, Option<TextureViewId>)>::empty()
                    =~= before.swapchains);
                assert(before.command_buffers + Seq::<CommandBufferId>::empty()
                    =~= before.command_buffers);
            }
        }
        while i < command_buffers.len()
            invariant
                self.wf(),
                i <= command_buffers.len(),
                self.manager_spec() == old(self).manager_spec(),
                self.devices_spec() == old(self).devices_with_command_buffers(
                    old(self).devices_spec(),
                    command_buffers@.take(i as int),
                ),
                forall|device: DeviceId|
                    {
                        let lists = #[trigger] self.lists_of(device);
                        let before = old(self).lists_of(device);
                        &&& lists.writes == before.writes
                        &&& lists.swapchains == before.swapchains + old(self).swapchains_for(
                            command_buffers@.take(i as int),
                            device,
                        )
                        &&& lists.command_buffers == before.command_buffers + old(
                            self,
                        ).command_buffers_for(command_buffers@.take(i as int), device)
                    },
            decreases command_buffers.len() - i,
        {
            let ghost halfway = *self;
            let ghost seen = command_buffers@.take(i as int);
            let ghost next = command_buffers@.take(i + 1);
            let id = command_buffers[i];
            self.add_command_buffer(id);
            proof {
                assert(next.drop_last() =~= seen);
                assert(next.last() == id);
                assert(old(self).command_buffer_device(id) == halfway.command_buffer_device(id));
                assert forall|device: DeviceId|
                    {
                        let lists = #[trigger] self.lists_of(device);
                        let before = old(self).lists_of(device);
                        &&& lists.writes == before.writes
                        &&& lists.swapchains == before.swapchains + old(self).swapchains_for(
                            next,
                            device,
                        )
                        &&& lists.command_buffers == before.command_buffers + old(
                            self,
                        ).command_buffers_for(next, device)
                    } by {
                    let before = old(self).lists_of(device);
                    let held = halfway.lists_of(device);
                    assert(held.writes == before.writes);
                    assert(old(self).joins(id, device) == halfway.joins(id, device));
                    if old(self).joins(id, device) {
                        let drawn = old(self).manager_spec().command_buffer_descriptor_spec(
                            id,
                        )->Some_0.swapchains_spec();
                        assert((before.swapchains + old(self).swapchains_for(seen, device)) + drawn
                            =~= before.swapchains + (old(self).swapchains_for(seen, device)
                            + drawn));
                        assert((before.command_buffers + old(self).command_buffers_for(
                            seen,
                            device,
                        )).push(id) =~= before.command_buffers + old(self).command_buffers_for(
                            seen,
                            device,
                        ).push(id));
                    } else {
                        assert(self.lists_of(device) == held);
                    }
                }
            }
            i += 1;
        }
        proof {
            assert(command_buffers@.take(command_buffers@.len() as int) =~= command_buffers@);
        }
    }

    /// Which command buffers join the batch of a device depends on the
    /// resource manager alone.
    pub proof fn lemma_joining_by_manager(
        &self,
        other: &Self,
        ids: Seq<CommandBufferId>,
        device: DeviceId,
    )
        requires
            self.manager_spec() == other.manager_spec(),
        ensures
            self.command_buffers_for(ids, device) == other.command_buffers_for(ids, device),
            self.swapchains_for(ids, device) == other.swapchains_for(ids, device),
        decreases ids.len(),
    {
        if ids.len() > 0 {
            self.lemma_joining_by_manager(other, ids.drop_last(), device);
        }
    }

    /// Which devices get a batch with command buffers depends on the
    /// resource manager alone.
    pub proof fn lemma_devices_by_manager(
        &self,
        other: &Self,
        devices: Seq<DeviceId>,
        ids: Seq<CommandBufferId>,
    )
        requires
            self.manager_spec() == other.manager_spec(),
        ensures
            self.devices_with_command_buffers(devices, ids) == other.devices_with_command_buffers(
                devices,
                ids,
            ),
        decreases ids.len(),
    {
        if ids.len() > 0 {
            self.lemma_devices_by_manager(other, devices, ids.drop_last());
        }
    }

    /// Whether the batch is `before` once the uploads `writes` and then the
    /// command buffers `command_buffers` have joined it: see
    /// `add_resource_writes` and `add_command_buffers`.
    pub open spec fn gathered(
        &self,
        before: &Self,
        writes: Seq<ResourceWrite>,
        command_buffers: Seq<CommandBufferId>,
    ) -> bool {
        &&& self.manager_spec() == before.manager_spec()
        &&& self.devices_spec() == before.devices_with_command_buffers(
            before.devices_with_writes(
                before.devices_spec(),
                writes.take(before.first_unrouted(writes)),
            ),
            command_buffers,
        )
        &&& forall|device: DeviceId|
            {
                let lists = #[trigger] self.lists_of(device);
                let held = before.lists_of(device);
                &&& lists.writes == held.writes + before.routed_to(
                    writes.take(before.first_unrouted(writes)),
                    device,
                )
                &&& lists.swapchains == held.swapchains + before.swapchains_for(
                    command_buffers,
                    device,
                )
                &&& lists.command_buffers == held.command_buffers + before.command_buffers_for(
                    command_buffers,
                    device,
                )
            }
    }

    /// Whether the batch holds, for each device, what `before` held, followed
    /// by what has joined it since.
    pub open spec fn extends(&self, before: &Self) -> bool {
        forall|device: DeviceId|
            {
                let lists = #[trigger] self.lists_of(device);
                let held = before.lists_of(device);
                &&& held.writes.is_prefix_of(lists.writes)
                &&& held.swapchains.is_prefix_of(lists.swapchains)
                &&& held.command_buffers.is_prefix_of(lists.command_buffers)
            }
    }

    /// A batch holds what it holds.
    pub proof fn lemma_extends_itself(&self)
        ensures
            self.extends(self),
    {
        assert forall|device: DeviceId|
            {
                let lists = #[trigger] self.lists_of(device);
                &&& lists.writes.is_prefix_of(lists.writes)
                &&& lists.swapchains.is_prefix_of(lists.swapchains)
                &&& lists.command_buffers.is_prefix_of(lists.command_buffers)
            } by {
            let lists = self.lists_of(device);
            assert(lists.writes =~= lists.writes.subrange(0, lists.writes.len() as int));
            assert(lists.swapchains =~= lists.swapchains.subrange(
                0,
                lists.swapchains.len() as int,
            ));
            assert(lists.command_buffers =~= lists.command_buffers.subrange(
                0,
                lists.command_buffers.len() as int,
            ));
        }
    }

    /// What has joined a batch that held what `before` held has joined
    /// `before`.
    pub proof fn lemma_extends_further(&self, middle: &Self, before: &Self)
        requires
            self.extends(middle),
            middle.extends(before),
        ensures
            self.extends(before),
    {
        assert forall|device: DeviceId|
            {
                let lists = #[trigger] self.lists_of(device);
                let held = before.lists_of(device);
                &&& held.writes.is_prefix_of(lists.writes)
                &&& held.swapchains.is_prefix_of(lists.swapchains)
                &&& held.command_buffers.is_prefix_of(lists.command_buffers)
            } by {
            let lists = self.lists_of(device);
            let between = middle.lists_of(device);
            let held = before.lists_of(device);
            assert(between.writes.is_prefix_of(lists.writes));
            assert(held.writes.is_prefix_of(between.writes));
            assert(held.writes =~= lists.writes.subrange(0, held.writes.len() as int));
            assert(held.swapchains =~= lists.swapchains.subrange(0, held.swapchains.len() as int));
            assert(held.command_buffers =~= lists.command_buffers.subrange(
                0,
                held.command_buffers.len() as int,
            ));
        }
    }

    /// The task `task`, which `id` names, brings its resources up to date
    /// through an update context of its own; the uploads that it leaves
    /// there, and the command buffers that it names, join the batch. The
    /// events come back with those that the task has pushed. What the task
    /// does is its own; whatever it does, the batch holds afterwards what it
    /// held, and what has joined it.
    pub fn update_task<T: TaskTrait>(self, id: TaskId, task: &mut T, events: Vec<ResourceEvent>) -> (after:
        (Batch, Vec<ResourceEvent>))
        requires
            self.wf(),
        ensures
            after.0.wf(),
            after.0.extends(&self),
            exists|left: Batch, writes: Seq<ResourceWrite>, command_buffers: Seq<CommandBufferId>|
                {
                    &&& left.wf()
                    &&& left.held() == self.held()
                    &&& #[trigger] after.0.gathered(&left, writes, command_buffers)
                },
    {
        let batches = self.batches;
        let mut update_context = UpdateContext::new(id, self.resource_manager, events);
        task.update_resources(&mut update_context);
        let (resource_manager, resource_writes, events) = update_context.into_parts();
        let mut batch = Batch { resource_manager, batches };
        let ghost left = batch;
        let ghost writes = resource_writes@;
        batch.add_resource_writes(resource_writes);
        let ghost halfway = batch;
        let command_buffers = task.command_buffers();
        batch.add_command_buffers(&command_buffers);
        proof {
            assert forall|device: DeviceId|
                {
                    let lists = #[trigger] batch.lists_of(device);
                    let held = left.lists_of(device);
                    &&& lists.writes == held.writes + left.routed_to(
                        writes.take(left.first_unrouted(writes)),
                        device,
                    )
                    &&& lists.swapchains == held.swapchains + left.swapchains_for(
                        command_buffers@,
                        device,
                    )
                    &&& lists.command_buffers == held.command_buffers + left.command_buffers_for(
                        command_buffers@,
                        device,
                    )
                } by {
                halfway.lemma_joining_by_manager(&left, command_buffers@, device);
                let between = halfway.lists_of(device);
                assert(between.swapchains == left.lists_of(device).swapchains);
                assert(between.command_buffers == left.lists_of(device).command_buffers);
            }
            halfway.lemma_devices_by_manager(&left, halfway.devices_spec(), command_buffers@);
            assert(batch.gathered(&left, writes, command_buffers@));
            assert(left.wf());
            assert(left.held() =~= self.held());
            left.lemma_held(&self);
            assert forall|device: DeviceId|
                {
                    let lists = #[trigger] batch.lists_of(device);
                    let held = self.lists_of(device);
                    &&& held.writes.is_prefix_of(lists.writes)
                    &&& held.swapchains.is_prefix_of(lists.swapchains)
                    &&& held.command_buffers.is_prefix_of(lists.command_buffers)
                } by {
                let lists = batch.lists_of(device);
                let held = self.lists_of(device);
                assert(left.lists_of(device) == held);
                assert(held.writes =~= lists.writes.subrange(0, held.writes.len() as int));
                assert(held.swapchains =~= lists.swapchains.subrange(
                    0,
                    held.swapchains.len() as int,
                ));
                assert(held.command_buffers =~= lists.command_buffers.subrange(
                    0,
                    held.command_buffers.len() as int,
                ));
            }
        }
        (batch, events)
    }

    /// Submit the batch: what is to be handed to the queue of each device
    /// that has a handle, device by device, with the resource manager as the
    /// submissions leave it.
    pub fn submit(self) -> (submitted: (ResourceManager, Vec<Submission>))
        requires
            self.wf(),
        ensures
            submitted.0.wf(),
            submitted.0@.entities.dom() == self.manager_spec()@.entities.dom(),
            submitted.0@.edges == self.manager_spec()@.edges,
            submitted.1@.len() <= self.devices_spec().len(),
            exists|states: Seq<ResourceManager>, outcomes: Seq<Option<Submission>>|
                {
                    &&& #[trigger] self.submitted_in_turn(states, outcomes)
                    &&& submitted.0 == states.last()
                    &&& submitted.1@ == submissions_of(outcomes)
                },
    {
        let mut resource_manager = self.resource_manager;
        let mut batches = self.batches;
        let ghost all = self.batches@;
        let ghost mut states: Seq<ResourceManager> = seq![self.resource_manager];
        let ghost mut outcomes: Seq<Option<Submission>> = Seq::empty();
        let mut submissions: Vec<Submission> = Vec::new();
        while batches.len() > 0
            invariant
                self.wf(),
                all == self.batches@,
                resource_manager.wf(),
                resource_manager@.entities.dom() == self.resource_manager@.entities.dom(),
                resource_manager@.edges == self.resource_manager@.edges,
                outcomes.len() <= all.len(),
                states.len() == outcomes.len() + 1,
                batches@ == all.subrange(outcomes.len() as int, all.len() as int),
                states[0] == self.resource_manager,
                states.last() == resource_manager,
                submissions@ == submissions_of(outcomes),
                submissions@.len() <= outcomes.len(),
                forall|i: int|
                    0 <= i < outcomes.len() ==> device_submitted(
                        all[i].1@,
                        &states[i],
                        all[i].0,
                        &states[i + 1],
                        #[trigger] outcomes[i],
                    ),
            decreases batches@.len(),
        {
            let ghost done = outcomes.len() as int;
            let ghost before = resource_manager;
            let (device_id, batch) = batches.remove(0);
            proof {
                assert(all.subrange(done, all.len() as int)[0] == all[done]);
                assert(batches@ =~= all.subrange(done + 1, all.len() as int));
            }
            let outcome = batch.submit(&mut resource_manager, &device_id);
            proof {
                let ghost earlier = outcomes;
                let ghost earlier_states = states;
                states = states.push(resource_manager);
                outcomes = outcomes.push(outcome);
                assert(outcomes.drop_last() =~= earlier);
                assert forall|i: int| 0 <= i < outcomes.len() implies device_submitted(
                    all[i].1@,
                    &states[i],
                    all[i].0,
                    &states[i + 1],
                    #[trigger] outcomes[i],
                ) by {
                    if i < done {
                        assert(outcomes[i] == earlier[i]);
                        assert(states[i] == earlier_states[i]);
                        assert(states[i + 1] == earlier_states[i + 1]);
                    } else {
                        assert(states[i] == before);
                        assert(states[i + 1] == resource_manager);
                    }
                }
            }
            if let Some(submission) = outcome {
                submissions.push(submission);
            }
        }
        proof {
            assert(self.devices_spec().len() == all.len());
            assert forall|i: int| 0 <= i < self.devices_spec().len() implies device_submitted(
                self.lists_of(self.devices_spec()[i]),
                &states[i],
                self.devices_spec()[i],
                &states[i + 1],
                #[trigger] outcomes[i],
            ) by {
                self.lemma_lists_at(i);
            }
            assert(self.submitted_in_turn(states, outcomes));
        }
        (resource_manager, submissions)
    }
}

} // verus!
