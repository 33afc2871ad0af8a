//! The task of the engine itself: it owns the instance, the devices and the
//! swapchains of the surfaces of the windowing layer. What the windowing
//! layer asks for is queued, and carried out at the next update.

use vstd::prelude::*;
use crate::entity_manager::EntityManagerError;
use crate::common::backend::BackendBit;
use crate::common::backend::Features;
use crate::common::backend::Limits;
use crate::common::backend::PresentMode;
use crate::common::backend::TextureFormat;
use crate::common::backend::TextureUsage;
use crate::common::events::ResourceEvent;
use crate::common::requirements::Requirements;
use crate::common::resources::descriptors::device::DeviceDescriptor;
use crate::common::resources::descriptors::instance::InstanceDescriptor;
use crate::common::resources::descriptors::swapchain::SwapchainDescriptor;
use crate::common::resources::descriptors::ResourceDescriptor;
use crate::common::resources::handles::DeviceHandle;
use crate::common::resources::handles::FrameHandle;
use crate::common::resources::handles::InstanceHandle;
use crate::common::resources::handles::ResourceHandle;
use crate::common::resources::handles::SurfaceHandle;
use crate::common::resources::handles::RENDER_ATTACHMENT;
use crate::common::resources::DeviceId;
use crate::common::resources::InstanceId;
use crate::common::resources::ResourceId;
use crate::common::resources::SwapchainId;
use crate::common::tasks::TaskId;
use crate::engine::resource_manager::ResourceManager;
use crate::entity_manager::update_context::pushed;
use crate::entity_manager::update_context::UpdateContext;

verus! {

/// What the windowing layer asks for.
#[derive(Debug, Clone)]
pub enum PendingCommand {
    CreateSwapchain { external_id: usize, label: String, surface: SurfaceHandle, width: u32, height: u32 },
    ResizeSwapchain { external_id: usize, width: u32, height: u32 },
    DestroySwapchain { external_id: usize },
}

/// What an adapter of the backend offers.
#[derive(Debug, Clone)]
pub struct Adapter {
    pub name: String,
    pub vendor: usize,
    pub features: Features,
    pub limits: Limits,
}

/// What carrying out a command has come to: the swapchain that was made,
/// resized or removed, and the frame that a resized swapchain has handed
/// back, which is to be let go of before the swapchain is made again.
#[derive(Debug, Clone, Copy)]
pub struct Outcome {
    pub swapchain: Option<SwapchainId>,
    pub frame: Option<FrameHandle>,
}

/// No key comes twice.
pub open spec fn unique_keys(entries: Seq<(usize, SwapchainId)>) -> bool {
    forall|i: int, j: int|
        0 <= i < j < entries.len() ==> (#[trigger] entries[i]).0 != (#[trigger] entries[j]).0
}

/// The place of the entry of `key`.
pub open spec fn place_of(entries: Seq<(usize, SwapchainId)>, key: usize) -> Option<int> {
    if exists|i: int| 0 <= i < entries.len() && (#[trigger] entries[i]).0 == key {
        Some(choose|i: int| 0 <= i < entries.len() && (#[trigger] entries[i]).0 == key)
    } else {
        None
    }
}

/// The swapchain of `key`.
pub open spec fn value_of(entries: Seq<(usize, SwapchainId)>, key: usize) -> Option<SwapchainId> {
    match place_of(entries, key) {
        Some(i) => Some(entries[i].1),
        None => None,
    }
}

/// The entries once `key` has `value`: in the place of the entry of `key`
/// where there is one, else at the end.
pub open spec fn put(entries: Seq<(usize, SwapchainId)>, key: usize, value: SwapchainId) -> Seq<
    (usize, SwapchainId),
> {
    match place_of(entries, key) {
        Some(i) => entries.update(i, (key, value)),
        None => entries.push((key, value)),
    }
}

/// The entries without that of `key`.
pub open spec fn without(entries: Seq<(usize, SwapchainId)>, key: usize) -> Seq<
    (usize, SwapchainId),
> {
    match place_of(entries, key) {
        Some(i) => entries.remove(i),
        None => entries,
    }
}

/// The swapchain that the engine asks for, for a surface of `width` by
/// `height` on `device`.
pub open spec fn swapchain_for(
    label: String,
    device: DeviceId,
    surface: SurfaceHandle,
    format: TextureFormat,
    width: u32,
    height: u32,
) -> SwapchainDescriptor {
    SwapchainDescriptor {
        label,
        device,
        surface,
        usage: TextureUsage(RENDER_ATTACHMENT),
        format,
        width,
        height,
        present_mode: PresentMode::Mailbox,
    }
}

/// `held` with another width and height.
pub open spec fn resized_to(held: SwapchainDescriptor, width: u32, height: u32) -> SwapchainDescriptor {
    SwapchainDescriptor {
        label: held.label,
        device: held.device,
        surface: held.surface,
        usage: held.usage,
        format: held.format,
        width,
        height,
        present_mode: held.present_mode,
    }
}

/// Neither the swapchains nor the resources nor the events have changed.
pub open spec fn untouched(
    entries_before: Seq<(usize, SwapchainId)>,
    context_before: &UpdateContext,
    entries: Seq<(usize, SwapchainId)>,
    context: &UpdateContext,
) -> bool {
    &&& entries == entries_before
    &&& context.manager_spec() == context_before.manager_spec()
    &&& context.events_spec() == context_before.events_spec()
}

/// What asking for a swapchain for the surface `external_id` comes to,
/// where the engine has the devices `devices` and the swapchains
/// `entries_before`: nothing, where there is no first device with a handle
/// or `preferred_format` has no format for the surface on it; else a
/// swapchain is added without a handle, on the first device and in that
/// format, and where that is done it is the swapchain of `external_id` and
/// an event tells of it.
pub open spec fn created<P: Fn(&DeviceHandle, &SurfaceHandle) -> Option<TextureFormat>>(
    devices: Seq<DeviceId>,
    entries_before: Seq<(usize, SwapchainId)>,
    context_before: &UpdateContext,
    external_id: usize,
    label: String,
    surface: SurfaceHandle,
    width: u32,
    height: u32,
    preferred_format: P,
    entries: Seq<(usize, SwapchainId)>,
    context: &UpdateContext,
    outcome: Outcome,
) -> bool {
    &&& outcome.frame is None
    &&& if devices.len() == 0 || context_before.manager_spec().device_handle_spec(devices[0])
        is None {
        outcome.swapchain is None && untouched(entries_before, context_before, entries, context)
    } else {
        let device_handle = context_before.manager_spec().device_handle_spec(devices[0])->Some_0;
        exists|found: Option<TextureFormat>|
            {
                &&& #[trigger] call_ensures(preferred_format, (&device_handle, &surface), found)
                &&& match found {
                    None => outcome.swapchain is None && untouched(
                        entries_before,
                        context_before,
                        entries,
                        context,
                    ),
                    Some(format) => {
                        &&& context.manager_spec().added(
                            &context_before.manager_spec(),
                            context_before.task_spec(),
                            ResourceDescriptor::Swapchain(
                                swapchain_for(label, devices[0], surface, format, width, height),
                            ),
                            None,
                            match outcome.swapchain {
                                Some(id) => Ok(ResourceId::Swapchain(id)),
                                None => Err(EntityManagerError::MissingDependencies),
                            },
                        )
                        &&& match outcome.swapchain {
                            Some(id) => {
                                &&& entries == put(entries_before, external_id, id)
                                &&& context.events_spec() == pushed(
                                    context_before.events_spec(),
                                    ResourceEvent::SwapchainCreated { external_id, swapchain: id },
                                )
                            },
                            None => {
                                &&& entries == entries_before
                                &&& context.events_spec() == context_before.events_spec()
                            },
                        }
                    },
                }
            }
    }
}

/// What asking for another size of the swapchain of the surface
/// `external_id` comes to: nothing, where the surface has no swapchain or the
/// swapchain has no descriptor; else the descriptor is updated to the new
/// size, and where that is done the swapchain hands back its frame and an
/// event tells of the new size.
pub open spec fn resized(
    entries_before: Seq<(usize, SwapchainId)>,
    context_before: &UpdateContext,
    external_id: usize,
    width: u32,
    height: u32,
    entries: Seq<(usize, SwapchainId)>,
    context: &UpdateContext,
    outcome: Outcome,
) -> bool {
    match value_of(entries_before, external_id) {
        None => outcome.swapchain is None && outcome.frame is None && untouched(
            entries_before,
            context_before,
            entries,
            context,
        ),
        Some(id) => match context_before.manager_spec().swapchain_descriptor_spec(id) {
            None => outcome.swapchain is None && outcome.frame is None && untouched(
                entries_before,
                context_before,
                entries,
                context,
            ),
            Some(held) => exists|halfway: ResourceManager, moved: SwapchainId, updated: bool|
                {
                    &&& #[trigger] halfway.redescribed(
                        &context_before.manager_spec(),
                        context_before.task_spec(),
                        ResourceId::Swapchain(id),
                        ResourceId::Swapchain(moved),
                        ResourceDescriptor::Swapchain(resized_to(held, width, height)),
                        updated,
                    )
                    &&& entries == put(entries_before, external_id, moved)
                    &&& if updated {
                        &&& context.manager_spec().frame_presented(&halfway, moved, outcome.frame)
                        &&& outcome.swapchain == Some(moved)
                        &&& context.events_spec() == pushed(
                            context_before.events_spec(),
                            ResourceEvent::SwapchainUpdated(moved),
                        )
                    } else {
                        &&& context.manager_spec() == halfway
                        &&& outcome.swapchain is None
                        &&& outcome.frame is None
                        &&& context.events_spec() == context_before.events_spec()
                    }
                },
        },
    }
}

/// What asking for the swapchain of the surface `external_id` to be removed
/// comes to: the surface has no swapchain afterwards; the swapchain that it
/// had is removed for the task, and an event tells of it.
pub open spec fn destroyed(
    entries_before: Seq<(usize, SwapchainId)>,
    context_before: &UpdateContext,
    external_id: usize,
    entries: Seq<(usize, SwapchainId)>,
    context: &UpdateContext,
    outcome: Outcome,
) -> bool {
    &&& outcome.frame is None
    &&& outcome.swapchain == value_of(entries_before, external_id)
    &&& entries == without(entries_before, external_id)
    &&& match value_of(entries_before, external_id) {
        None => {
            &&& context.manager_spec() == context_before.manager_spec()
            &&& context.events_spec() == context_before.events_spec()
        },
        Some(id) => {
            &&& exists|result: Result<(), ()>| #[trigger]
                context.manager_spec().released(
                    &context_before.manager_spec(),
                    context_before.task_spec(),
                    ResourceId::Swapchain(id),
                    result,
                )
            &&& context.events_spec() == pushed(
                context_before.events_spec(),
                ResourceEvent::SwapchainDestroyed(id),
            )
        },
    }
}

/// What carrying out `command` comes to: see `created`, `resized` and
/// `destroyed`. The task and the pending uploads of the context stay.
pub open spec fn applied<P: Fn(&DeviceHandle, &SurfaceHandle) -> Option<TextureFormat>>(
    devices: Seq<DeviceId>,
    entries_before: Seq<(usize, SwapchainId)>,
    context_before: &UpdateContext,
    command: PendingCommand,
    preferred_format: P,
    entries: Seq<(usize, SwapchainId)>,
    context: &UpdateContext,
    outcome: Outcome,
) -> bool {
    &&& context.task_spec() == context_before.task_spec()
    &&& context.writes_spec() == context_before.writes_spec()
    &&& match command {
        PendingCommand::CreateSwapchain { external_id, label, surface, width, height } => created(
            devices,
            entries_before,
            context_before,
            external_id,
            label,
            surface,
            width,
            height,
            preferred_format,
            entries,
            context,
            outcome,
        ),
        PendingCommand::ResizeSwapchain { external_id, width, height } => resized(
            entries_before,
            context_before,
            external_id,
            width,
            height,
            entries,
            context,
            outcome,
        ),
        PendingCommand::DestroySwapchain { external_id } => destroyed(
            entries_before,
            context_before,
            external_id,
            entries,
            context,
            outcome,
        ),
    }
}

/// Whether carrying out `commands`, one after the other, leads from the
/// swapchains `entries_before` and the context `context_before` to
/// `entries_after` and `context_after`, with `outcomes` for what each command
/// came to: see `applied`.
pub open spec fn pending_applied<P: Fn(&DeviceHandle, &SurfaceHandle) -> Option<TextureFormat>>(
    devices: Seq<DeviceId>,
    commands: Seq<PendingCommand>,
    preferred_format: P,
    entries_before: Seq<(usize, SwapchainId)>,
    context_before: &UpdateContext,
    entries_after: Seq<(usize, SwapchainId)>,
    context_after: &UpdateContext,
    outcomes: Seq<Outcome>,
) -> bool {
    exists|entries: Seq<Seq<(usize, SwapchainId)>>, contexts: Seq<UpdateContext>|
        {
            &&& entries.len() == commands.len() + 1
            &&& contexts.len() == commands.len() + 1
            &&& outcomes.len() == commands.len()
            &&& entries[0] == entries_before
            &&& contexts[0] == *context_before
            &&& entries.last() == entries_after
            &&& contexts.last() == *context_after
            &&& #[trigger] steps_applied(
                devices,
                commands,
                preferred_format,
                entries,
                contexts,
                outcomes,
            )
        }
}

/// Each command leads from one state to the next.
pub open spec fn steps_applied<P: Fn(&DeviceHandle, &SurfaceHandle) -> Option<TextureFormat>>(
    devices: Seq<DeviceId>,
    commands: Seq<PendingCommand>,
    preferred_format: P,
    entries: Seq<Seq<(usize, SwapchainId)>>,
    contexts: Seq<UpdateContext>,
    outcomes: Seq<Outcome>,
) -> bool {
    forall|i: int|
        0 <= i < commands.len() ==> applied(
            devices,
            entries[i],
            &contexts[i],
            commands[i],
            preferred_format,
            entries[i + 1],
            &contexts[i + 1],
            #[trigger] outcomes[i],
        )
}

/// Whether a command has made, resized or removed the swapchain `id`.
pub open spec fn settled_by(outcomes: Seq<Outcome>, id: SwapchainId) -> bool {
    exists|i: int| 0 <= i < outcomes.len() && (#[trigger] outcomes[i]).swapchain == Some(id)
}

/// The frames that the resized swapchains have handed back, in the order of
/// the commands.
pub open spec fn frames_of(outcomes: Seq<Outcome>) -> Seq<FrameHandle>
    decreases outcomes.len(),
{
    if outcomes.len() == 0 {
        Seq::empty()
    } else {
        match outcomes.last().frame {
            Some(frame) => frames_of(outcomes.drop_last()).push(frame),
            None => frames_of(outcomes.drop_last()),
        }
    }
}

/// What asking for the frame of the swapchain `id` comes to: nothing, where
/// the swapchain has no handle or has a frame; else `acquire` is called for
/// the frame of its swap chain, which the swapchain then has.
pub open spec fn frame_acquired<A: Fn(u64) -> FrameHandle>(
    before: &UpdateContext,
    id: SwapchainId,
    acquire: A,
    after: &UpdateContext,
) -> bool {
    &&& after.kept(before)
    &&& match before.manager_spec().swapchain_handle_spec(id) {
        None => after.manager_spec() == before.manager_spec(),
        Some(held) => {
            &&& after.manager_spec().damaged_spec() == before.manager_spec().damaged_spec()
            &&& after.manager_spec()@.entities.dom() == before.manager_spec()@.entities.dom()
            &&& after.manager_spec()@.edges == before.manager_spec()@.edges
            &&& after.manager_spec().same_but(&before.manager_spec(), id.0)
            &&& after.manager_spec().descriptor_of(id.0) == before.manager_spec().descriptor_of(
                id.0,
            )
            &&& after.manager_spec().owners_of(id.0) == before.manager_spec().owners_of(id.0)
            &&& after.manager_spec().swapchain_handle_spec(id) matches Some(now)
            &&& now.setup_spec() == held.setup_spec()
            &&& now.chain_spec() == held.chain_spec()
            &&& now.frame_spec() is Some
            &&& held.frame_spec() is Some ==> now == held
            &&& held.frame_spec() is None ==> call_ensures(
                acquire,
                (held.chain_spec(),),
                now.frame_spec()->Some_0,
            )
        },
    }
}

/// Whether asking for the frames of the swapchains of `entries` that no
/// command has settled, one after the other, leads from `context_before` to
/// `context_after`: see `frame_acquired`.
pub open spec fn frames_prepared<A: Fn(u64) -> FrameHandle>(
    entries: Seq<(usize, SwapchainId)>,
    outcomes: Seq<Outcome>,
    acquire: A,
    context_before: &UpdateContext,
    context_after: &UpdateContext,
) -> bool {
    exists|contexts: Seq<UpdateContext>|
        {
            &&& contexts.len() == entries.len() + 1
            &&& contexts[0] == *context_before
            &&& contexts.last() == *context_after
            &&& #[trigger] steps_prepared(entries, outcomes, acquire, contexts)
        }
}

/// Each swapchain leads from one context to the next.
pub open spec fn steps_prepared<A: Fn(u64) -> FrameHandle>(
    entries: Seq<(usize, SwapchainId)>,
    outcomes: Seq<Outcome>,
    acquire: A,
    contexts: Seq<UpdateContext>,
) -> bool {
    forall|i: int|
        0 <= i < entries.len() ==> if settled_by(outcomes, (#[trigger] entries[i]).1) {
            contexts[i + 1] == contexts[i]
        } else {
            frame_acquired(&contexts[i], entries[i].1, acquire, &contexts[i + 1])
        }
}

/// The keys stay unique where one of them gets a value.
pub proof fn lemma_put_unique(entries: Seq<(usize, SwapchainId)>, key: usize, value: SwapchainId)
    requires
        unique_keys(entries),
    ensures
        unique_keys(put(entries, key, value)),
        value_of(put(entries, key, value), key) == Some(value),
{
    let after = put(entries, key, value);
    match place_of(entries, key) {
        Some(place) => {
            assert forall|i: int, j: int| 0 <= i < j < after.len() implies (#[trigger] after[i]).0
                != (#[trigger] after[j]).0 by {
                assert(after[i].0 == entries[i].0);
                assert(after[j].0 == entries[j].0);
            }
            assert(after[place].0 == key);
            let chosen = choose|i: int| 0 <= i < after.len() && (#[trigger] after[i]).0 == key;
            if chosen < place {
                assert(after[chosen].0 != after[place].0);
            }
            if place < chosen {
                assert(after[place].0 != after[chosen].0);
            }
        },
        None => {
            assert forall|i: int, j: int| 0 <= i < j < after.len() implies (#[trigger] after[i]).0
                != (#[trigger] after[j]).0 by {
                if j == entries.len() {
                    assert(after[i] == entries[i]);
                    assert(entries[i].0 != key);
                } else {
                    assert(after[i] == entries[i]);
                    assert(after[j] == entries[j]);
                }
            }
            let last = entries.len() as int;
            assert(after[last].0 == key);
            let chosen = choose|i: int| 0 <= i < after.len() && (#[trigger] after[i]).0 == key;
            if chosen < last {
                assert(after[chosen].0 != after[last].0);
            }
        },
    }
}

/// The keys stay unique where one of them leaves.
pub proof fn lemma_without_unique(entries: Seq<(usize, SwapchainId)>, key: usize)
    requires
        unique_keys(entries),
    ensures
        unique_keys(without(entries, key)),
        value_of(without(entries, key), key) is None,
{
    let after = without(entries, key);
    match place_of(entries, key) {
        Some(place) => {
            assert forall|i: int, j: int| 0 <= i < j < after.len() implies (#[trigger] after[i]).0
                != (#[trigger] after[j]).0 by {
                let a = if i < place { i } else { i + 1 };
                let b = if j < place { j } else { j + 1 };
                assert(after[i] == entries[a]);
                assert(after[j] == entries[b]);
                assert(entries[a].0 != entries[b].0);
            }
            assert forall|i: int| 0 <= i < after.len() implies (#[trigger] after[i]).0 != key by {
                let a = if i < place { i } else { i + 1 };
                assert(after[i] == entries[a]);
                if a < place {
                    assert(entries[a].0 != entries[place].0);
                } else {
                    assert(entries[place].0 != entries[a].0);
                }
            }
        },
        None => {},
    }
}

/// The place of the entry of `key`.
fn find(entries: &Vec<(usize, SwapchainId)>, key: usize) -> (place: Option<usize>)
    requires
        unique_keys(entries@),
    ensures
        match place {
            Some(i) => i < entries@.len() && place_of(entries@, key) == Some(i as int),
            None => place_of(entries@, key) is None,
        },
{
    let mut i: usize = 0;
    while i < entries.len()
        invariant
            unique_keys(entries@),
            i <= entries.len(),
            forall|j: int| 0 <= j < i ==> (#[trigger] entries@[j]).0 != key,
        decreases entries.len() - i,
    {
        if entries[i].0 == key {
            proof {
                assert(entries@[i as int].0 == key);
                let chosen = choose|j: int|
                    0 <= j < entries@.len() && (#[trigger] entries@[j]).0 == key;
                if chosen < i {
                    assert(entries@[chosen].0 != entries@[i as int].0);
                }
                if i < chosen {
                    assert(entries@[i as int].0 != entries@[chosen].0);
                }
            }
            return Some(i);
        }
        i += 1;
    }
    None
}

/// Whether a command has made, resized or removed the swapchain `id`.
fn settled(outcomes: &Vec<Outcome>, id: &SwapchainId) -> (found: bool)
    ensures
        found == settled_by(outcomes@, *id),
{
    let mut i: usize = 0;
    while i < outcomes.len()
        invariant
            i <= outcomes.len(),
            forall|j: int| 0 <= j < i ==> (#[trigger] outcomes@[j]).swapchain != Some(*id),
        decreases outcomes.len() - i,
    {
        match outcomes[i].swapchain {
            Some(found) => {
                if found == *id {
                    return true;
                }
            },
            None => {},
        }
        i += 1;
    }
    false
}

/// The task of the engine itself.
pub struct EngineTask {
    id: TaskId,
    instance: InstanceId,
    devices: Vec<DeviceId>,
    swapchains: Vec<(usize, SwapchainId)>,
    pending_commands: Vec<PendingCommand>,
}

impl EngineTask {
    /// The task's own identifier.
    pub closed spec fn task_spec(&self) -> TaskId {
        self.id
    }

    /// The instance of the engine.
    pub closed spec fn instance_spec(&self) -> InstanceId {
        self.instance
    }

    /// The devices of the engine, in the order in which they were added.
    pub closed spec fn devices_spec(&self) -> Seq<DeviceId> {
        self.devices@
    }

    /// The swapchains, each with the identifier that the windowing layer has
    /// for its surface.
    pub closed spec fn swapchains_spec(&self) -> Seq<(usize, SwapchainId)> {
        self.swapchains@
    }

    /// What the windowing layer has asked for since the last update.
    pub closed spec fn pending_spec(&self) -> Seq<PendingCommand> {
        self.pending_commands@
    }

    /// The task's invariant: no surface has two swapchains.
    pub closed spec fn wf(&self) -> bool {
        unique_keys(self.swapchains@)
    }

    /// All but the swapchains and what is pending is what it was in `before`.
    pub open spec fn settled(&self, before: &Self) -> bool {
        &&& self.task_spec() == before.task_spec()
        &&& self.instance_spec() == before.instance_spec()
        &&& self.devices_spec() == before.devices_spec()
    }

    /// What the invariant says.
    pub proof fn lemma_wf(&self)
        requires
            self.wf(),
        ensures
            unique_keys(self.swapchains_spec()),
    {
    }

    /// The task `id` with the instance that `descriptor` describes, which is
    /// added for the task of `update_context` with the handle `instance`.
    /// `None` where the instance was not added.
    pub fn new(
        id: TaskId,
        descriptor: InstanceDescriptor,
        instance: InstanceHandle,
        update_context: &mut UpdateContext,
    ) -> (task: Option<Self>)
        requires
            old(update_context).wf(),
        ensures
            final(update_context).wf(),
            final(update_context).kept(old(update_context)),
            final(update_context).manager_spec().added(
                &old(update_context).manager_spec(),
                old(update_context).task_spec(),
                ResourceDescriptor::Instance(descriptor),
                Some(ResourceHandle::Instance(instance)),
                match task {
                    Some(made) => Ok(ResourceId::Instance(made.instance_spec())),
                    None => Err(EntityManagerError::MissingDependencies),
                },
            ),
            task matches Some(made) ==> {
                &&& made.wf()
                &&& made.task_spec() == id
                &&& made.devices_spec() == Seq::<DeviceId>::empty()
                &&& made.swapchains_spec() == Seq::<(usize, SwapchainId)>::empty()
                &&& made.pending_spec() == Seq::<PendingCommand>::empty()
            },
    {
        match update_context.add_instance(descriptor, Some(instance)) {
            Ok(instance) => Some(
                Self {
                    id,
                    instance,
                    devices: Vec::new(),
                    swapchains: Vec::new(),
                    pending_commands: Vec::new(),
                },
            ),
            Err(_) => None,
        }
    }

    /// The device that is asked of `adapter`: with those of the features of
    /// `requirements` that the adapter has, and the earlier of the adapter's
    /// limits and those of `requirements`.
    pub fn device_descriptor(
        &self,
        adapter: Adapter,
        backend: BackendBit,
        requirements: &Requirements,
    ) -> (descriptor: DeviceDescriptor)
        ensures
            descriptor.label == adapter.name,
            descriptor.instance == self.instance_spec(),
            descriptor.backend == backend,
            descriptor.pci_id == adapter.vendor,
            descriptor.features.0 == adapter.features.0 & requirements.0.0,
            descriptor.limits == adapter.limits.min_spec(requirements.1),
    {
        DeviceDescriptor {
            label: adapter.name,
            instance: self.instance,
            backend,
            pci_id: adapter.vendor,
            features: adapter.features.intersection(requirements.0),
            limits: adapter.limits.min(requirements.1),
        }
    }

    /// Add the device that `descriptor` describes, with its handle, for the
    /// task of `update_context`; it joins the devices of the engine where it
    /// was added.
    pub fn add_device(
        &mut self,
        update_context: &mut UpdateContext,
        descriptor: DeviceDescriptor,
        handle: DeviceHandle,
    ) -> (device: Option<DeviceId>)
        requires
            old(self).wf(),
            old(update_context).wf(),
        ensures
            final(self).wf(),
            final(update_context).wf(),
            final(update_context).kept(old(update_context)),
            final(update_context).manager_spec().added(
                &old(update_context).manager_spec(),
                old(update_context).task_spec(),
                ResourceDescriptor::Device(descriptor),
                Some(ResourceHandle::Device(handle)),
                match device {
                    Some(id) => Ok(ResourceId::Device(id)),
                    None => Err(EntityManagerError::MissingDependencies),
                },
            ),
            final(self).task_spec() == old(self).task_spec(),
            final(self).instance_spec() == old(self).instance_spec(),
            final(self).swapchains_spec() == old(self).swapchains_spec(),
            final(self).pending_spec() == old(self).pending_spec(),
            final(self).devices_spec() == match device {
                Some(id) => old(self).devices_spec().push(id),
                None => old(self).devices_spec(),
            },
    {
        match update_context.add_device(descriptor, Some(handle)) {
            Ok(device) => {
                self.devices.push(device);
                Some(device)
            },
            Err(_) => None,
        }
    }

    pub fn id(&self) -> (id: &TaskId)
        ensures
            *id == self.task_spec(),
    {
        &self.id
    }

    pub fn instance(&self) -> (instance: &InstanceId)
        ensures
            *instance == self.instance_spec(),
    {
        &self.instance
    }

    pub fn devices(&self) -> (devices: &Vec<DeviceId>)
        ensures
            devices@ == self.devices_spec(),
    {
        &self.devices
    }

    /// The swapchains, in the order in which their surfaces came.
    pub fn swapchains(&self) -> (swapchains: Vec<SwapchainId>)
        ensures
            swapchains@.len() == self.swapchains_spec().len(),
            forall|i: int|
                0 <= i < swapchains@.len() ==> #[trigger] swapchains@[i] == self.swapchains_spec()[i].1,
    {
        let mut swapchains: Vec<SwapchainId> = Vec::new();
        let mut i: usize = 0;
        while i < self.swapchains.len()
            invariant
                i <= self.swapchains.len(),
                swapchains@.len() == i,
                forall|j: int| 0 <= j < i ==> #[trigger] swapchains@[j] == self.swapchains@[j].1,
            decreases self.swapchains.len() - i,
        {
            swapchains.push(self.swapchains[i].1);
            i += 1;
        }
        swapchains
    }

    /// The swapchain of the surface `external_id`.
    pub fn swapchain_of(&self, external_id: usize) -> (swapchain: Option<SwapchainId>)
        requires
            self.wf(),
        ensures
            swapchain == value_of(self.swapchains_spec(), external_id),
    {
        match find(&self.swapchains, external_id) {
            Some(place) => Some(self.swapchains[place].1),
            None => None,
        }
    }

    /// Ask for a swapchain for the surface `external_id`, at the next update.
    pub fn create_swapchain(
        &mut self,
        external_id: usize,
        label: String,
        surface: SurfaceHandle,
        width: u32,
        height: u32,
    )
        ensures
            final(self).wf() == old(self).wf(),
            final(self).settled(old(self)),
            final(self).swapchains_spec() == old(self).swapchains_spec(),
            final(self).pending_spec() == old(self).pending_spec().push(
                PendingCommand::CreateSwapchain { external_id, label, surface, width, height },
            ),
    {
        self.pending_commands.push(
            PendingCommand::CreateSwapchain { external_id, label, surface, width, height },
        );
    }

    /// Ask for another size of the swapchain of the surface `external_id`,
    /// at the next update.
    pub fn resize_swapchain(&mut self, external_id: usize, width: u32, height: u32)
        ensures
            final(self).wf() == old(self).wf(),
            final(self).settled(old(self)),
            final(self).swapchains_spec() == old(self).swapchains_spec(),
            final(self).pending_spec() == old(self).pending_spec().push(
                PendingCommand::ResizeSwapchain { external_id, width, height },
            ),
    {
        self.pending_commands.push(PendingCommand::ResizeSwapchain { external_id, width, height });
    }

    /// Ask for the swapchain of the surface `external_id` to be removed, at
    /// the next update.
    pub fn remove_swapchain(&mut self, external_id: usize)
        ensures
            final(self).wf() == old(self).wf(),
            final(self).settled(old(self)),
            final(self).swapchains_spec() == old(self).swapchains_spec(),
            final(self).pending_spec() == old(self).pending_spec().push(
                PendingCommand::DestroySwapchain { external_id },
            ),
    {
        self.pending_commands.push(PendingCommand::DestroySwapchain { external_id });
    }

    /// The surface `external_id` gets the swapchain `id`.
    fn set(&mut self, external_id: usize, id: SwapchainId)
        requires
            old(self).wf(),
        ensures
            final(self).wf(),
            final(self).settled(old(self)),
            final(self).pending_spec() == old(self).pending_spec(),
            final(self).swapchains_spec() == put(old(self).swapchains_spec(), external_id, id),
    {
        proof {
            lemma_put_unique(self.swapchains@, external_id, id);
        }
        match find(&self.swapchains, external_id) {
            Some(place) => {
                self.swapchains.set(place, (external_id, id));
            },
            None => {
                self.swapchains.push((external_id, id));
            },
        }
    }

    /// The surface `external_id` has no swapchain any more.
    fn unset(&mut self, external_id: usize) -> (swapchain: Option<SwapchainId>)
        requires
            old(self).wf(),
        ensures
            final(self).wf(),
            final(self).settled(old(self)),
            final(self).pending_spec() == old(self).pending_spec(),
            swapchain == value_of(old(self).swapchains_spec(), external_id),
            final(self).swapchains_spec() == without(old(self).swapchains_spec(), external_id),
    {
        proof {
            lemma_without_unique(self.swapchains@, external_id);
        }
        match find(&self.swapchains, external_id) {
            Some(place) => {
                let entry = self.swapchains.remove(place);
                Some(entry.1)
            },
            None => None,
        }
    }

    fn create<P: Fn(&DeviceHandle, &SurfaceHandle) -> Option<TextureFormat>>(
        &mut self,
        update_context: &mut UpdateContext,
        external_id: usize,
        label: String,
        surface: SurfaceHandle,
        width: u32,
        height: u32,
        preferred_format: &P,
    ) -> (outcome: Outcome)
        requires
            old(self).wf(),
            old(update_context).wf(),
            forall|device: &DeviceHandle, surface: &SurfaceHandle|
                call_requires(*preferred_format, (device, surface)),
        ensures
            final(self).wf(),
            final(update_context).wf(),
            final(self).settled(old(self)),
            final(self).pending_spec() == old(self).pending_spec(),
            final(update_context).task_spec() == old(update_context).task_spec(),
            final(update_context).writes_spec() == old(update_context).writes_spec(),
            created(
                old(self).devices_spec(),
                old(self).swapchains_spec(),
                old(update_context),
                external_id,
                label,
                surface,
                width,
                height,
                *preferred_format,
                final(self).swapchains_spec(),
                final(update_context),
                outcome,
            ),
    {
        let nothing = Outcome { swapchain: None, frame: None };
        if self.devices.len() == 0 {
            return nothing;
        }
        let device = self.devices[0];
        let device_handle = match update_context.device_handle_ref(&device) {
            Some(handle) => *handle,
            None => {
                return nothing;
            },
        };
        let found = preferred_format(&device_handle, &surface);
        let format = match found {
            Some(format) => format,
            None => {
                return nothing;
            },
        };
        let descriptor = SwapchainDescriptor {
            label,
            device,
            surface,
            usage: TextureUsage(RENDER_ATTACHMENT),
            format,
            width,
            height,
            present_mode: PresentMode::Mailbox,
        };
        match update_context.add_swapchain_descriptor(descriptor) {
            Ok(id) => {
                self.set(external_id, id);
                update_context.push_event(
                    ResourceEvent::SwapchainCreated { external_id, swapchain: id },
                );
                Outcome { swapchain: Some(id), frame: None }
            },
            Err(_) => nothing,
        }
    }

    fn resize(
        &mut self,
        update_context: &mut UpdateContext,
        external_id: usize,
        width: u32,
        height: u32,
    ) -> (outcome: Outcome)
        requires
            old(self).wf(),
            old(update_context).wf(),
        ensures
            final(self).wf(),
            final(update_context).wf(),
            final(self).settled(old(self)),
            final(self).pending_spec() == old(self).pending_spec(),
            final(update_context).task_spec() == old(update_context).task_spec(),
            final(update_context).writes_spec() == old(update_context).writes_spec(),
            resized(
                old(self).swapchains_spec(),
                old(update_context),
                external_id,
                width,
                height,
                final(self).swapchains_spec(),
                final(update_context),
                outcome,
            ),
    {
        let nothing = Outcome { swapchain: None, frame: None };
        let id = match self.swapchain_of(external_id) {
            Some(id) => id,
            None => {
                return nothing;
            },
        };
        let descriptor = match update_context.swapchain_descriptor_ref(&id) {
            Some(held) => SwapchainDescriptor {
                label: held.label.clone(),
                device: held.device,
                surface: held.surface,
                usage: held.usage,
                format: held.format,
                width,
                height,
                present_mode: held.present_mode,
            },
            None => {
                return nothing;
            },
        };
        let mut moved = id;
        let updated = update_context.update_swapchain_descriptor(&mut moved, descriptor);
        let ghost halfway = update_context.manager_spec();
        self.set(external_id, moved);
        if updated {
            let frame = update_context.present_swapchain(&moved);
            update_context.push_event(ResourceEvent::SwapchainUpdated(moved));
            Outcome { swapchain: Some(moved), frame }
        } else {
            nothing
        }
    }

    fn destroy(&mut self, update_context: &mut UpdateContext, external_id: usize) -> (outcome:
        Outcome)
        requires
            old(self).wf(),
            old(update_context).wf(),
        ensures
            final(self).wf(),
            final(update_context).wf(),
            final(self).settled(old(self)),
            final(self).pending_spec() == old(self).pending_spec(),
            final(update_context).task_spec() == old(update_context).task_spec(),
            final(update_context).writes_spec() == old(update_context).writes_spec(),
            destroyed(
                old(self).swapchains_spec(),
                old(update_context),
                external_id,
                final(self).swapchains_spec(),
                final(update_context),
                outcome,
            ),
    {
        match self.unset(external_id) {
            Some(id) => {
                let result = update_context.remove_swapchain(&id);
                update_context.push_event(ResourceEvent::SwapchainDestroyed(id));
                Outcome { swapchain: Some(id), frame: None }
            },
            None => Outcome { swapchain: None, frame: None },
        }
    }

    /// Carry out `command`: see `applied`.
    pub fn apply<P: Fn(&DeviceHandle, &SurfaceHandle) -> Option<TextureFormat>>(
        &mut self,
        update_context: &mut UpdateContext,
        command: PendingCommand,
        preferred_format: &P,
    ) -> (outcome: Outcome)
        requires
            old(self).wf(),
            old(update_context).wf(),
            forall|device: &DeviceHandle, surface: &SurfaceHandle|
                call_requires(*preferred_format, (device, surface)),
        ensures
            final(self).wf(),
            final(update_context).wf(),
            final(self).settled(old(self)),
            final(self).pending_spec() == old(self).pending_spec(),
            applied(
                old(self).devices_spec(),
                old(self).swapchains_spec(),
                old(update_context),
                command,
                *preferred_format,
                final(self).swapchains_spec(),
                final(update_context),
                outcome,
            ),
    {
        match command {
            PendingCommand::CreateSwapchain { external_id, label, surface, width, height } => {
                self.create(
                    update_context,
                    external_id,
                    label,
                    surface,
                    width,
                    height,
                    preferred_format,
                )
            },
            PendingCommand::ResizeSwapchain { external_id, width, height } => {
                self.resize(update_context, external_id, width, height)
            },
            PendingCommand::DestroySwapchain { external_id } => {
                self.destroy(update_context, external_id)
            },
        }
    }

    /// Carry out what is pending, one command after the other: see
    /// `pending_applied`. Nothing is pending afterwards.
    pub fn apply_pending<P: Fn(&DeviceHandle, &SurfaceHandle) -> Option<TextureFormat>>(
        &mut self,
        update_context: &mut UpdateContext,
        preferred_format: &P,
    ) -> (outcomes: Vec<Outcome>)
        requires
            old(self).wf(),
            old(update_context).wf(),
            forall|device: &DeviceHandle, surface: &SurfaceHandle|
                call_requires(*preferred_format, (device, surface)),
        ensures
            final(self).wf(),
            final(update_context).wf(),
            final(self).settled(old(self)),
            final(self).pending_spec() == Seq::<PendingCommand>::empty(),
            final(update_context).task_spec() == old(update_context).task_spec(),
            final(update_context).writes_spec() == old(update_context).writes_spec(),
            pending_applied(
                old(self).devices_spec(),
                old(self).pending_spec(),
                *preferred_format,
                old(self).swapchains_spec(),
                old(update_context),
                final(self).swapchains_spec(),
                final(update_context),
                outcomes@,
            ),
    {
        let ghost all = self.pending_commands@;
        let mut pending: Vec<PendingCommand> = Vec::new();
        core::mem::swap(&mut self.pending_commands, &mut pending);
        let mut outcomes: Vec<Outcome> = Vec::new();
        let ghost mut entries: Seq<Seq<(usize, SwapchainId)>> = seq![self.swapchains@];
        let ghost mut contexts: Seq<UpdateContext> = seq![*update_context];
        while pending.len() > 0
            invariant
                self.wf(),
                update_context.wf(),
                forall|device: &DeviceHandle, surface: &SurfaceHandle|
                    call_requires(*preferred_format, (device, surface)),
                self.settled(old(self)),
                self.pending_spec() == Seq::<PendingCommand>::empty(),
                update_context.task_spec() == old(update_context).task_spec(),
                update_context.writes_spec() == old(update_context).writes_spec(),
                outcomes@.len() <= all.len(),
                pending@ == all.subrange(outcomes@.len() as int, all.len() as int),
                entries.len() == outcomes@.len() + 1,
                contexts.len() == outcomes@.len() + 1,
                entries[0] == old(self).swapchains_spec(),
                contexts[0] == *old(update_context),
                entries.last() == self.swapchains_spec(),
                contexts.last() == *update_context,
                forall|i: int|
                    0 <= i < outcomes@.len() ==> applied(
                        old(self).devices_spec(),
                        entries[i],
                        &contexts[i],
                        all[i],
                        *preferred_format,
                        entries[i + 1],
                        &contexts[i + 1],
                        #[trigger] outcomes@[i],
                    ),
            decreases pending@.len(),
        {
            let ghost done = outcomes@.len() as int;
            let ghost earlier_entries = entries;
            let ghost earlier_contexts = contexts;
            let ghost earlier_outcomes = outcomes@;
            let command = pending.remove(0);
            proof {
                assert(all.subrange(done, all.len() as int)[0] == all[done]);
                assert(pending@ =~= all.subrange(done + 1, all.len() as int));
            }
            let outcome = self.apply(update_context, command, preferred_format);
            outcomes.push(outcome);
            proof {
                entries = entries.push(self.swapchains@);
                contexts = contexts.push(*update_context);
                assert forall|i: int| 0 <= i < outcomes@.len() implies applied(
                    old(self).devices_spec(),
                    entries[i],
                    &contexts[i],
                    all[i],
                    *preferred_format,
                    entries[i + 1],
                    &contexts[i + 1],
                    #[trigger] outcomes@[i],
                ) by {
                    if i < done {
                        assert(outcomes@[i] == earlier_outcomes[i]);
                        assert(entries[i] == earlier_entries[i]);
                        assert(entries[i + 1] == earlier_entries[i + 1]);
                        assert(contexts[i] == earlier_contexts[i]);
                        assert(contexts[i + 1] == earlier_contexts[i + 1]);
                    }
                }
            }
        }
        proof {
            assert(steps_applied(
                old(self).devices_spec(),
                all,
                *preferred_format,
                entries,
                contexts,
                outcomes@,
            ));
        }
        outcomes
    }

    /// Ask for the frame of the swapchain `id`: see `frame_acquired`.
    pub fn prepare<A: Fn(u64) -> FrameHandle>(
        update_context: &mut UpdateContext,
        id: SwapchainId,
        acquire: &A,
    )
        requires
            old(update_context).wf(),
            forall|chain: u64| call_requires(*acquire, (chain,)),
        ensures
            final(update_context).wf(),
            frame_acquired(old(update_context), id, *acquire, final(update_context)),
    {
        let chain = match update_context.swapchain_handle_ref(&id) {
            Some(swapchain) => swapchain.chain(),
            None => {
                return ;
            },
        };
        let get = || -> (frame: FrameHandle)
            requires
                call_requires(*acquire, (chain,)),
            ensures
                call_ensures(*acquire, (chain,), frame),
            { acquire(chain) };
        update_context.prepare_swapchain_frame(&id, get);
    }

    /// Ask for the frames of the swapchains that no command of `outcomes`
    /// has settled, one after the other: see `frames_prepared`.
    pub fn prepare_frames<A: Fn(u64) -> FrameHandle>(
        &self,
        update_context: &mut UpdateContext,
        outcomes: &Vec<Outcome>,
        acquire: &A,
    )
        requires
            old(update_context).wf(),
            forall|chain: u64| call_requires(*acquire, (chain,)),
        ensures
            final(update_context).wf(),
            final(update_context).kept(old(update_context)),
            frames_prepared(
                self.swapchains_spec(),
                outcomes@,
                *acquire,
                old(update_context),
                final(update_context),
            ),
    {
        let ghost mut contexts: Seq<UpdateContext> = seq![*update_context];
        let mut i: usize = 0;
        while i < self.swapchains.len()
            invariant
                update_context.wf(),
                forall|chain: u64| call_requires(*acquire, (chain,)),
                update_context.kept(old(update_context)),
                i <= self.swapchains.len(),
                contexts.len() == i + 1,
                contexts[0] == *old(update_context),
                contexts.last() == *update_context,
                forall|j: int|
                    0 <= j < i ==> if settled_by(outcomes@, (#[trigger] self.swapchains@[j]).1) {
                        contexts[j + 1] == contexts[j]
                    } else {
                        frame_acquired(&contexts[j], self.swapchains@[j].1, *acquire, &contexts[j + 1])
                    },
            decreases self.swapchains.len() - i,
        {
            let ghost earlier = contexts;
            let id = self.swapchains[i].1;
            if !settled(outcomes, &id) {
                Self::prepare(update_context, id, acquire);
            }
            proof {
                contexts = contexts.push(*update_context);
                assert forall|j: int| 0 <= j < i + 1 implies if settled_by(
                    outcomes@,
                    (#[trigger] self.swapchains@[j]).1,
                ) {
                    contexts[j + 1] == contexts[j]
                } else {
                    frame_acquired(&contexts[j], self.swapchains@[j].1, *acquire, &contexts[j + 1])
                } by {
                    if j < i {
                        assert(contexts[j] == earlier[j]);
                        assert(contexts[j + 1] == earlier[j + 1]);
                    } else {
                        assert(contexts[j] == earlier[j]);
                    }
                }
            }
            i += 1;
        }
        proof {
            assert(steps_prepared(self.swapchains@, outcomes@, *acquire, contexts));
        }
    }

    /// Bring the swapchains up to date: what is pending is carried out, and
    /// every swapchain that this has not settled is asked for its frame. The
    /// frames that resized swapchains have handed back come back, to be let
    /// go of.
    pub fn update_resources<
        P: Fn(&DeviceHandle, &SurfaceHandle) -> Option<TextureFormat>,
        A: Fn(u64) -> FrameHandle,
    >(
        &mut self,
        update_context: &mut UpdateContext,
        preferred_format: &P,
        acquire: &A,
    ) -> (released: Vec<FrameHandle>)
        requires
            old(self).wf(),
            old(update_context).wf(),
            forall|device: &DeviceHandle, surface: &SurfaceHandle|
                call_requires(*preferred_format, (device, surface)),
            forall|chain: u64| call_requires(*acquire, (chain,)),
        ensures
            final(self).wf(),
            final(update_context).wf(),
            final(self).settled(old(self)),
            final(self).pending_spec() == Seq::<PendingCommand>::empty(),
            final(update_context).task_spec() == old(update_context).task_spec(),
            final(update_context).writes_spec() == old(update_context).writes_spec(),
            exists|outcomes: Seq<Outcome>, halfway: UpdateContext|
                {
                    &&& #[trigger] pending_applied(
                        old(self).devices_spec(),
                        old(self).pending_spec(),
                        *preferred_format,
                        old(self).swapchains_spec(),
                        old(update_context),
                        final(self).swapchains_spec(),
                        &halfway,
                        outcomes,
                    )
                    &&& frames_prepared(
                        final(self).swapchains_spec(),
                        outcomes,
                        *acquire,
                        &halfway,
                        final(update_context),
                    )
                    &&& released@ == frames_of(outcomes)
                },
    {
        let outcomes = self.apply_pending(update_context, preferred_format);
        let ghost halfway = *update_context;
        self.prepare_frames(update_context, &outcomes, acquire);
        let mut released: Vec<FrameHandle> = Vec::new();
        let mut i: usize = 0;
        proof {
            assert(outcomes@.take(0) =~= Seq::<Outcome>::empty());
        }
        while i < outcomes.len()
            invariant
                i <= outcomes.len(),
                released@ == frames_of(outcomes@.take(i as int)),
            decreases outcomes.len() - i,
        {
            proof {
                assert(outcomes@.take(i + 1).drop_last() =~= outcomes@.take(i as int));
                assert(outcomes@.take(i + 1).last() == outcomes@[i as int]);
            }
            if let Some(frame) = outcomes[i].frame {
                released.push(frame);
            }
            i += 1;
        }
        proof {
            assert(outcomes@.take(outcomes@.len() as int) =~= outcomes@);
        }
        released
    }
}

} // verus!
