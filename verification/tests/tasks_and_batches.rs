use wgpu_engine::common::backend::BackendBit;
use wgpu_engine::common::backend::BufferUsage;
use wgpu_engine::common::backend::Color;
use wgpu_engine::common::backend::Features;
use wgpu_engine::common::backend::Limits;
use wgpu_engine::common::backend::LoadOp;
use wgpu_engine::common::backend::Operations;
use wgpu_engine::common::backend::PresentMode;
use wgpu_engine::common::backend::TextureFormat;
use wgpu_engine::common::backend::TextureUsage;
use wgpu_engine::common::events::ResourceEvent;
use wgpu_engine::common::resources::builders::ResourceBuilder;
use wgpu_engine::common::resources::descriptors::buffer::BufferDescriptor;
use wgpu_engine::common::resources::descriptors::command_buffer::BufferWrite;
use wgpu_engine::common::resources::descriptors::command_buffer::ColorView;
use wgpu_engine::common::resources::descriptors::command_buffer::Command;
use wgpu_engine::common::resources::descriptors::command_buffer::CommandBufferDescriptor;
use wgpu_engine::common::resources::descriptors::command_buffer::RenderPassColorAttachment;
use wgpu_engine::common::resources::descriptors::device::DeviceDescriptor;
use wgpu_engine::common::resources::descriptors::instance::InstanceDescriptor;
use wgpu_engine::common::resources::descriptors::swapchain::SwapchainDescriptor;
use wgpu_engine::common::resources::descriptors::ResourceWrite;
use wgpu_engine::common::resources::handles::BufferHandle;
use wgpu_engine::common::resources::handles::CommandBufferHandle;
use wgpu_engine::common::resources::handles::DeviceHandle;
use wgpu_engine::common::resources::handles::FrameHandle;
use wgpu_engine::common::resources::handles::InstanceHandle;
use wgpu_engine::common::resources::handles::ResourceHandle;
use wgpu_engine::common::resources::handles::SurfaceHandle;
use wgpu_engine::common::resources::handles::Swapchain;
use wgpu_engine::common::resources::BufferId;
use wgpu_engine::common::resources::CommandBufferId;
use wgpu_engine::common::resources::DeviceId;
use wgpu_engine::common::resources::SwapchainId;
use wgpu_engine::common::resources::TextureViewId;
use wgpu_engine::common::tasks::descriptor::TaskDescriptor;
use wgpu_engine::common::tasks::Task;
use wgpu_engine::common::tasks::TaskId;
use wgpu_engine::common::tasks::TaskTrait;
use wgpu_engine::engine::batch::Batch;
use wgpu_engine::engine::batch::ClearPass;
use wgpu_engine::engine::batch::DeviceBatch;
use wgpu_engine::engine::batch::WriteTarget;
use wgpu_engine::engine::resource_manager::ResourceManager;
use wgpu_engine::engine::task_manager::TaskManager;
use wgpu_engine::entity_manager::update_context::UpdateContext;
use wgpu_engine::entity_manager::EntityId;
use wgpu_engine::entity_manager::EntityManagerError;

fn task(n: usize) -> TaskId {
    TaskId::new(EntityId::new(n))
}

fn write_to(buffer: BufferId, byte: u8) -> ResourceWrite {
    ResourceWrite::Buffer(BufferWrite { buffer, offset: 0, data: vec![byte] })
}

fn clear_ops() -> Operations {
    Operations { load: LoadOp::Clear(Color { r_bits: 0, g_bits: 0, b_bits: 0, a_bits: 0 }), store: true }
}

fn pass_to(swapchain: SwapchainId, depth_stencil: Option<TextureViewId>) -> Command {
    Command::RenderPass {
        label: String::from("pass"),
        depth_stencil,
        color_attachments: vec![RenderPassColorAttachment {
            view: ColorView::Swapchain(swapchain),
            resolve_target: None,
            ops: clear_ops(),
        }],
        commands: vec![],
    }
}

struct World {
    manager: ResourceManager,
    device: DeviceId,
    buffer: BufferId,
    swapchain: SwapchainId,
    commands: CommandBufferId,
}

/// An instance, a device, a buffer, a swapchain with a frame and a command
/// buffer that draws to the swapchain, all with handles.
fn world() -> World {
    let mut manager = ResourceManager::new();
    let owner = task(0);
    let instance = manager
        .add_instance(
            owner,
            InstanceDescriptor { label: String::from("I"), backend: BackendBit(1) },
            Some(InstanceHandle(1)),
        )
        .unwrap();
    let device = manager
        .add_device(
            owner,
            DeviceDescriptor {
                label: String::from("D"),
                instance,
                backend: BackendBit(1),
                pci_id: 0,
                features: Features(0),
                limits: Limits::standard(),
            },
            Some(DeviceHandle(2)),
        )
        .unwrap();
    let buffer = manager
        .add_buffer(
            owner,
            BufferDescriptor { label: String::from("B"), device, size: 8, usage: BufferUsage(8) },
            Some(BufferHandle(3)),
        )
        .unwrap();
    let chain = Swapchain::new(11, TextureFormat(5), 640, 480, Some(FrameHandle(12))).unwrap();
    let swapchain = manager
        .add_swapchain(
            owner,
            SwapchainDescriptor {
                label: String::from("S"),
                device,
                surface: SurfaceHandle(9),
                usage: TextureUsage(16),
                format: TextureFormat(5),
                width: 640,
                height: 480,
                present_mode: PresentMode::Mailbox,
            },
            Some(chain),
        )
        .unwrap();
    let commands = manager
        .add_command_buffer(
            owner,
            CommandBufferDescriptor {
                label: String::from("C"),
                device,
                commands: vec![pass_to(swapchain, None)],
            },
            Some(CommandBufferHandle(4)),
        )
        .unwrap();
    World { manager, device, buffer, swapchain, commands }
}

/// A task that adds one buffer on its first update, uploads a byte to it on
/// every update and names the command buffers that it was given.
struct Uploader {
    device: DeviceId,
    buffer: Option<BufferId>,
    seen: Vec<TaskId>,
    command_buffers: Vec<CommandBufferId>,
}

impl TaskTrait for Uploader {
    fn name(&self) -> String {
        String::from("Uploader")
    }

    fn update_resources(&mut self, update_context: &mut UpdateContext) {
        if self.buffer.is_none() {
            let descriptor = BufferDescriptor {
                label: String::from("U"),
                device: self.device,
                size: 4,
                usage: BufferUsage(8),
            };
            self.buffer = update_context.add_buffer(descriptor, Some(BufferHandle(50))).ok();
        }
        if let Some(buffer) = self.buffer {
            let mut writes = vec![write_to(buffer, 7)];
            update_context.write_resource(&mut writes);
            assert!(writes.is_empty());
        }
        self.seen.push(TaskId::new(EntityId::new(self.seen.len())));
    }

    fn command_buffers(&self) -> Vec<CommandBufferId> {
        self.command_buffers.clone()
    }
}

fn uploader(device: DeviceId, command_buffers: Vec<CommandBufferId>) -> Uploader {
    Uploader { device, buffer: None, seen: vec![], command_buffers }
}

#[test]
fn task_descriptor_starts_unbroken() {
    let mut descriptor = TaskDescriptor::new(String::from("T"), vec![task(3)]);
    assert_eq!(descriptor.name(), "T");
    assert!(!descriptor.broken());
    descriptor.set_broken(true);
    assert!(descriptor.broken());
    assert_eq!(descriptor.dependencies, vec![task(3)]);
    assert_eq!(descriptor.name(), "T");
}

#[test]
fn task_with_unknown_dependency_is_refused() {
    let mut tasks: TaskManager<Uploader> = TaskManager::new();
    let orphan = Task::from_parts((TaskDescriptor::new(String::from("T"), vec![task(4)]), None));
    assert_eq!(tasks.add_task(orphan), Err(EntityManagerError::MissingDependencies));
    assert!(tasks.task_descriptor_ref(&task(0)).is_none());
}

#[test]
fn task_handles_are_set_and_worked_on() {
    let World { manager: _, device, .. } = world();
    let mut tasks: TaskManager<Uploader> = TaskManager::new();
    let first = tasks
        .add_task(Task::from_parts((TaskDescriptor::new(String::from("A"), vec![]), None)))
        .unwrap();
    assert!(tasks.task_handle_ref(&first).is_none());
    assert!(!tasks.task_handle_mut(&first, |_task: &mut Uploader| panic!("no task is made yet")));
    assert!(tasks.update_task_handle(&first, uploader(device, vec![])));
    assert!(!tasks.update_task_handle(&task(9), uploader(device, vec![])));
    assert_eq!(tasks.task_handle_ref(&first).unwrap().name(), "Uploader");
    assert!(tasks.task_handle_mut(&first, |task: &mut Uploader| task.seen.push(TaskId::new(EntityId::new(42)))));
    assert_eq!(tasks.task_handle_ref(&first).unwrap().seen.len(), 1);
    assert_eq!(tasks.task_descriptor_ref(&first).unwrap().name(), "A");
}

#[test]
fn commit_runs_the_tasks_and_fills_the_batch() {
    let World { manager, device, commands, swapchain, .. } = world();
    let mut tasks: TaskManager<Uploader> = TaskManager::new();
    let first = tasks
        .add_task(Task::from_parts((
            TaskDescriptor::new(String::from("A"), vec![]),
            Some(uploader(device, vec![commands])),
        )))
        .unwrap();
    let second = tasks
        .add_task(Task::from_parts((
            TaskDescriptor::new(String::from("B"), vec![first]),
            Some(uploader(device, vec![])),
        )))
        .unwrap();
    let idle = tasks
        .add_task(Task::from_parts((TaskDescriptor::new(String::from("C"), vec![second]), None)))
        .unwrap();
    assert!(tasks.task_handle_ref(&idle).is_none());

    let batch = tasks.commit_tasks(Batch::new(manager));
    assert_eq!(tasks.task_handle_ref(&first).unwrap().seen.len(), 1);
    assert_eq!(tasks.task_handle_ref(&second).unwrap().seen.len(), 1);
    let first_buffer = tasks.task_handle_ref(&first).unwrap().buffer.unwrap();
    let second_buffer = tasks.task_handle_ref(&second).unwrap().buffer.unwrap();
    assert_ne!(first_buffer, second_buffer);

    let (manager, batches) = batch.into_parts();
    assert_eq!(manager.inner().entity_owners(first_buffer.id_ref()), Some(vec![first]));
    assert_eq!(manager.inner().entity_owners(second_buffer.id_ref()), Some(vec![second]));
    assert_eq!(batches.len(), 1);
    assert_eq!(batches[0].0, device);
    let lists: &DeviceBatch = &batches[0].1;
    assert_eq!(lists.resource_writes().len(), 2);
    assert!(matches!(&lists.resource_writes()[0], ResourceWrite::Buffer(write) if write.buffer == first_buffer));
    assert!(matches!(&lists.resource_writes()[1], ResourceWrite::Buffer(write) if write.buffer == second_buffer));
    assert_eq!(lists.command_buffers_to_dispatch(), &vec![commands]);
    assert_eq!(lists.swapchains_to_clear(), &vec![(swapchain, None)]);
}

#[test]
fn batch_routes_by_device() {
    let World { manager, device, buffer, commands, swapchain } = world();
    let mut batch = Batch::new(manager);
    assert!(batch.add_resource_write(write_to(buffer, 1)));
    let nowhere = BufferId::new(EntityId::new(90));
    assert!(!batch.add_resource_write(write_to(nowhere, 2)));
    assert!(!batch.add_resource_writes(vec![write_to(buffer, 3), write_to(nowhere, 4), write_to(buffer, 5)]));
    assert!(batch.add_resource_writes(vec![write_to(buffer, 6)]));
    assert!(batch.add_command_buffer(commands));
    assert!(!batch.add_command_buffer(CommandBufferId::new(EntityId::new(91))));
    assert!(!batch.add_command_buffer(CommandBufferId::new(buffer.id())));
    assert_eq!(batch.resource_manager_ref().entity_device_id(buffer.id_ref()), Some(device));

    let (_, batches) = batch.into_parts();
    assert_eq!(batches.len(), 1);
    assert_eq!(batches[0].0, device);
    let bytes: Vec<u8> = batches[0]
        .1
        .resource_writes()
        .iter()
        .map(|write| match write {
            ResourceWrite::Buffer(write) => write.data[0],
            ResourceWrite::Texture(write) => write.data[0],
        })
        .collect();
    assert_eq!(bytes, vec![1, 3, 6]);
    assert_eq!(batches[0].1.swapchains_to_clear(), &vec![(swapchain, None)]);
    assert_eq!(batches[0].1.command_buffers_to_dispatch(), &vec![commands]);
}

#[test]
fn batch_parts_are_checked_for_repeated_devices() {
    let World { manager, device, .. } = world();
    let twice = vec![(device, DeviceBatch::default()), (device, DeviceBatch::default())];
    assert!(Batch::from_parts(manager, twice).is_none());
    let World { manager, device, .. } = world();
    let once = vec![(device, DeviceBatch::default())];
    assert!(Batch::from_parts(manager, once).is_some());
}

#[test]
fn device_batch_keeps_the_order_of_what_is_added() {
    let first = BufferId::new(EntityId::new(1));
    let mut batch = DeviceBatch::default();
    batch.add_resource_write(write_to(first, 1));
    batch.add_resource_writes(vec![write_to(first, 2), write_to(first, 3)]);
    let swapchain = SwapchainId::new(EntityId::new(2));
    batch.add_swapchain((swapchain, None));
    batch.add_swapchain((swapchain, Some(TextureViewId::new(EntityId::new(3)))));
    batch.add_command_buffer(CommandBufferId::new(EntityId::new(4)));
    batch.add_command_buffers(vec![
        CommandBufferId::new(EntityId::new(5)),
        CommandBufferId::new(EntityId::new(6)),
    ]);
    let bytes: Vec<u8> = batch
        .resource_writes()
        .iter()
        .map(|write| match write {
            ResourceWrite::Buffer(write) => write.data[0],
            ResourceWrite::Texture(write) => write.data[0],
        })
        .collect();
    assert_eq!(bytes, vec![1, 2, 3]);
    assert_eq!(
        batch.swapchains_to_clear(),
        &vec![(swapchain, None), (swapchain, Some(TextureViewId::new(EntityId::new(3))))]
    );
    let ids: Vec<usize> = batch.command_buffers_to_dispatch().iter().map(|id| id.id().id()).collect();
    assert_eq!(ids, vec![4, 5, 6]);
}

#[test]
fn submission_takes_command_buffers_and_frames() {
    let World { mut manager, device, buffer, commands, swapchain } = world();
    let mut batch = DeviceBatch::default();
    batch.add_resource_write(write_to(buffer, 1));
    batch.add_resource_write(write_to(BufferId::new(EntityId::new(70)), 2));
    batch.add_swapchain((swapchain, None));
    batch.add_command_buffers(vec![commands, commands]);
    let submission = batch.submit(&mut manager, &device).unwrap();
    assert_eq!(submission.device, DeviceHandle(2));
    assert_eq!(submission.writes.len(), 1);
    assert_eq!(submission.writes[0].0, WriteTarget::Buffer(BufferHandle(3)));
    assert_eq!(submission.clears, vec![ClearPass { frame: FrameHandle(12), depth_stencil: None }]);
    assert_eq!(submission.command_buffers, vec![CommandBufferHandle(4)]);
    assert_eq!(submission.frames, vec![FrameHandle(12)]);
    assert!(manager.command_buffer_handle_ref(&commands).is_none());
    assert!(manager.is_damaged(commands.id_ref()));
    assert!(manager.swapchain_handle_ref(&swapchain).unwrap().current_frame().is_none());
    assert!(!manager.is_damaged(swapchain.id_ref()));
}

#[test]
fn submission_needs_the_device() {
    let World { mut manager, buffer, .. } = world();
    let mut batch = DeviceBatch::default();
    batch.add_resource_write(write_to(buffer, 1));
    assert!(batch.submit(&mut manager, &DeviceId::new(buffer.id())).is_none());
    assert!(manager.buffer_handle_ref(&buffer).is_some());
}

#[test]
fn batch_submits_device_by_device() {
    let World { manager, buffer, commands, .. } = world();
    let mut batch = Batch::new(manager);
    batch.add_resource_write(write_to(buffer, 1));
    batch.add_command_buffer(commands);
    let (manager, submissions) = batch.submit();
    assert_eq!(submissions.len(), 1);
    assert_eq!(submissions[0].command_buffers, vec![CommandBufferHandle(4)]);
    assert_eq!(submissions[0].writes.len(), 1);
    assert!(manager.is_damaged(commands.id_ref()));
}

#[test]
fn upload_names_its_device() {
    let World { manager, device, buffer, .. } = world();
    assert_eq!(write_to(buffer, 1).device(&manager), Some(device));
    assert_eq!(write_to(BufferId::new(EntityId::new(70)), 1).device(&manager), None);
}

#[test]
fn repeated_event_is_pushed_once() {
    let World { manager, swapchain, .. } = world();
    let other = SwapchainId::new(EntityId::new(33));
    let mut context = UpdateContext::new(task(0), manager, vec![]);
    context.push_event(ResourceEvent::SwapchainUpdated(swapchain));
    context.push_event(ResourceEvent::SwapchainUpdated(swapchain));
    context.push_event(ResourceEvent::SwapchainUpdated(other));
    context.push_event(ResourceEvent::SwapchainUpdated(swapchain));
    context.push_event(ResourceEvent::SwapchainCreated { external_id: 1, swapchain });
    context.push_event(ResourceEvent::SwapchainCreated { external_id: 1, swapchain });
    context.push_event(ResourceEvent::SwapchainDestroyed(swapchain));
    assert_eq!(
        context.events(),
        &vec![
            ResourceEvent::SwapchainUpdated(swapchain),
            ResourceEvent::SwapchainUpdated(other),
            ResourceEvent::SwapchainUpdated(swapchain),
            ResourceEvent::SwapchainCreated { external_id: 1, swapchain },
            ResourceEvent::SwapchainDestroyed(swapchain),
        ]
    );
}

#[test]
fn context_stamps_its_task_on_what_it_adds() {
    let World { manager, device, .. } = world();
    let mut context = UpdateContext::new(task(5), manager, vec![]);
    let descriptor = BufferDescriptor { label: String::from("X"), device, size: 2, usage: BufferUsage(8) };
    let buffer = context.add_buffer_descriptor(descriptor).unwrap();
    assert!(context.is_damaged(buffer.id_ref()));
    assert_eq!(context.buffer_descriptor_ref(&buffer).unwrap().size, 2);
    assert!(context.buffer_handle_ref(&buffer).is_none());
    assert!(context.buffers().contains(&buffer));
    assert_eq!(context.entity_device_id(buffer.id_ref()), Some(device));
    let mut writes = vec![write_to(buffer, 1), write_to(buffer, 2)];
    context.write_resource(&mut writes);
    let mut moved = buffer;
    let bigger = BufferDescriptor { label: String::from("X"), device, size: 3, usage: BufferUsage(8) };
    assert!(context.update_buffer_descriptor(&mut moved, bigger));
    assert_eq!(moved, buffer);
    let (manager, writes, events) = context.into_parts();
    assert_eq!(manager.inner().entity_owners(buffer.id_ref()), Some(vec![task(5)]));
    assert_eq!(writes.len(), 2);
    assert!(events.is_empty());
    let mut context = UpdateContext::new(task(5), manager, events);
    assert_eq!(context.remove_buffer(&buffer), Ok(()));
    assert!(context.buffer_descriptor_ref(&buffer).is_none());
    assert!(context.into_resource_writes().is_empty());
}

#[test]
fn swapchain_frame_is_asked_for_only_when_missing() {
    let mut swapchain = Swapchain::new(1, TextureFormat(2), 3, 4, Some(FrameHandle(5))).unwrap();
    assert_eq!(swapchain.chain(), 1);
    assert_eq!(swapchain.setup().width, 3);
    assert_eq!(swapchain.setup().height, 4);
    assert_eq!(swapchain.setup().format, TextureFormat(2));
    assert_eq!(swapchain.setup().usage, TextureUsage(16));
    assert_eq!(swapchain.setup().present_mode, PresentMode::Mailbox);
    swapchain.prepare_frame(|| panic!("a frame is there"));
    assert_eq!(swapchain.current_frame(), Some(FrameHandle(5)));
    assert_eq!(swapchain.present(), Some(FrameHandle(5)));
    assert_eq!(swapchain.current_frame(), None);
    assert_eq!(swapchain.present(), None);
    swapchain.prepare_frame(|| FrameHandle(6));
    assert_eq!(swapchain.current_frame(), Some(FrameHandle(6)));
    assert!(Swapchain::new(1, TextureFormat(2), 3, 4, None).is_none());
}

#[test]
fn swapchain_frames_are_managed_in_place() {
    let World { mut manager, swapchain, buffer, .. } = world();
    assert_eq!(manager.present_swapchain(&swapchain), Some(FrameHandle(12)));
    assert_eq!(manager.present_swapchain(&swapchain), None);
    assert!(manager.prepare_swapchain_frame(&swapchain, || FrameHandle(13)));
    assert_eq!(manager.swapchain_handle_ref(&swapchain).unwrap().current_frame(), Some(FrameHandle(13)));
    assert!(!manager.prepare_swapchain_frame(&SwapchainId::new(buffer.id()), || FrameHandle(14)));
    assert!(!manager.is_damaged(swapchain.id_ref()));
}

#[test]
fn render_pass_needs_the_frame_of_its_swapchain() {
    let World { mut manager, swapchain, commands, .. } = world();
    manager.take_command_buffer(&commands);
    assert!(manager.is_damaged(commands.id_ref()));
    manager.present_swapchain(&swapchain);
    let make = |builder: &ResourceBuilder| match builder {
        ResourceBuilder::CommandBuffer(_) => Some(ResourceHandle::CommandBuffer(CommandBufferHandle(77))),
        _ => None,
    };
    manager.commit_resources(&make);
    assert!(manager.is_damaged(commands.id_ref()));
    manager.prepare_swapchain_frame(&swapchain, || FrameHandle(20));
    manager.commit_resources(&make);
    assert!(!manager.is_damaged(commands.id_ref()));
    assert_eq!(manager.command_buffer_handle_ref(&commands), Some(&CommandBufferHandle(77)));
}

#[test]
fn command_buffers_join_the_batch_in_one_call() {
    let World { mut manager, device, buffer, commands, swapchain } = world();
    let second = manager
        .add_command_buffer(
            task(0),
            CommandBufferDescriptor { label: String::from("C2"), device, commands: vec![] },
            Some(CommandBufferHandle(5)),
        )
        .unwrap();
    let mut batch = Batch::new(manager);
    let unknown = CommandBufferId::new(EntityId::new(91));
    let no_command_buffer = CommandBufferId::new(buffer.id());
    batch.add_command_buffers(&vec![commands, unknown, second, no_command_buffer, commands]);
    let (_, batches) = batch.into_parts();
    assert_eq!(batches.len(), 1);
    assert_eq!(batches[0].0, device);
    assert_eq!(batches[0].1.command_buffers_to_dispatch(), &vec![commands, second, commands]);
    assert_eq!(batches[0].1.swapchains_to_clear(), &vec![(swapchain, None), (swapchain, None)]);
    assert!(batches[0].1.resource_writes().is_empty());
}

#[test]
fn frame_of_a_swapchain_is_handed_back_once() {
    let World { mut manager, device, commands, swapchain, .. } = world();
    let mut batch = DeviceBatch::default();
    batch.add_swapchain((swapchain, None));
    batch.add_swapchain((swapchain, None));
    batch.add_command_buffer(commands);
    let submission = batch.submit(&mut manager, &device).unwrap();
    assert_eq!(submission.clears.len(), 2);
    assert_eq!(submission.frames, vec![FrameHandle(12)]);
    assert_eq!(submission.command_buffers, vec![CommandBufferHandle(4)]);
    let after = *manager.swapchain_handle_ref(&swapchain).unwrap();
    assert_eq!(after.chain(), 11);
    assert_eq!(after.setup().width, 640);
    assert_eq!(after.current_frame(), None);
}

#[test]
fn taken_swapchain_hands_no_frame_back() {
    let World { mut manager, device, swapchain, .. } = world();
    let mut batch = DeviceBatch::default();
    batch.add_swapchain((swapchain, None));
    batch.add_command_buffer(CommandBufferId::new(swapchain.id()));
    let submission = batch.submit(&mut manager, &device).unwrap();
    assert_eq!(submission.clears, vec![ClearPass { frame: FrameHandle(12), depth_stencil: None }]);
    assert!(submission.command_buffers.is_empty());
    assert!(submission.frames.is_empty());
    assert!(manager.swapchain_handle_ref(&swapchain).is_none());
    assert!(manager.is_damaged(swapchain.id_ref()));
}

#[test]
fn batch_of_a_device_without_handle_submits_nothing() {
    let World { manager, device, buffer, .. } = world();
    let mut batch = Batch::new(manager);
    assert!(batch.add_resource_write(write_to(buffer, 1)));
    assert_eq!(
        batch.resource_manager_mut().take_resource(device.id_ref()),
        Some(ResourceHandle::Device(DeviceHandle(2)))
    );
    let (manager, submissions) = batch.submit();
    assert!(submissions.is_empty());
    assert_eq!(manager.buffer_handle_ref(&buffer), Some(&BufferHandle(3)));
    assert!(manager.is_damaged(buffer.id_ref()));
}

#[test]
fn resources_are_committed_through_the_batch() {
    let World { manager, buffer, commands, .. } = world();
    let mut batch = Batch::new(manager);
    assert!(batch.add_resource_write(write_to(buffer, 1)));
    batch.resource_manager_mut().take_command_buffer(&commands);
    let make = |builder: &ResourceBuilder| match builder {
        ResourceBuilder::CommandBuffer(_) => Some(ResourceHandle::CommandBuffer(CommandBufferHandle(78))),
        _ => None,
    };
    assert!(batch.resource_manager_mut().commit_resources(&make));
    assert_eq!(
        batch.resource_manager_ref().command_buffer_handle_ref(&commands),
        Some(&CommandBufferHandle(78))
    );
    let (_, batches) = batch.into_parts();
    assert_eq!(batches.len(), 1);
    assert_eq!(batches[0].1.resource_writes().len(), 1);
}

#[test]
fn context_manages_the_frames_of_its_swapchains() {
    let World { manager, swapchain, buffer, .. } = world();
    let mut context = UpdateContext::new(task(0), manager, vec![]);
    assert!(context.prepare_swapchain_frame(&swapchain, || panic!("a frame is there")));
    assert_eq!(context.present_swapchain(&swapchain), Some(FrameHandle(12)));
    assert_eq!(context.present_swapchain(&swapchain), None);
    assert!(context.prepare_swapchain_frame(&swapchain, || FrameHandle(13)));
    assert_eq!(context.swapchain_handle_ref(&swapchain).unwrap().current_frame(), Some(FrameHandle(13)));
    assert!(!context.prepare_swapchain_frame(&SwapchainId::new(buffer.id()), || FrameHandle(14)));
    assert_eq!(context.present_swapchain(&SwapchainId::new(buffer.id())), None);
    assert!(!context.is_damaged(swapchain.id_ref()));
    assert!(context.events().is_empty());
}

#[test]
fn task_is_created_with_a_context_of_its_own() {
    let World { manager, device, .. } = world();
    let mut tasks: TaskManager<Uploader> = TaskManager::new();
    let (manager, first) = tasks.create_task(manager, String::from("A"), vec![], |id, context| {
        assert_eq!(id, task(0));
        assert!(context.events().is_empty());
        let descriptor = BufferDescriptor { label: String::from("N"), device, size: 4, usage: BufferUsage(8) };
        let buffer = context.add_buffer(descriptor, Some(BufferHandle(60))).unwrap();
        Uploader { device, buffer: Some(buffer), seen: vec![], command_buffers: vec![] }
    });
    let first = first.unwrap();
    assert_eq!(tasks.task_descriptor_ref(&first).unwrap().name(), "A");
    assert!(!tasks.task_descriptor_ref(&first).unwrap().broken());
    let buffer = tasks.task_handle_ref(&first).unwrap().buffer.unwrap();
    assert_eq!(manager.buffer_handle_ref(&buffer), Some(&BufferHandle(60)));
    assert_eq!(manager.inner().entity_owners(buffer.id_ref()), Some(vec![first]));

    let (manager, orphan) = tasks.create_task(manager, String::from("B"), vec![task(9)], |_, _| {
        panic!("no task is to be made")
    });
    assert_eq!(orphan, None);
    assert!(manager.buffer_handle_ref(&buffer).is_some());
    let (_, second) =
        tasks.create_task(manager, String::from("C"), vec![first], |_, _| uploader(device, vec![]));
    let second = second.unwrap();
    assert_eq!(tasks.task_descriptor_ref(&second).unwrap().dependencies, vec![first]);
}

#[test]
fn commit_without_made_tasks_leaves_the_batch_as_it_is() {
    let World { manager, buffer, device, .. } = world();
    let mut tasks: TaskManager<Uploader> = TaskManager::new();
    let first = tasks
        .add_task(Task::from_parts((TaskDescriptor::new(String::from("A"), vec![]), None)))
        .unwrap();
    let mut batch = Batch::new(manager);
    assert!(batch.add_resource_write(write_to(buffer, 9)));
    let batch = tasks.commit_tasks(batch);
    assert!(tasks.task_handle_ref(&first).is_none());
    let (manager, batches) = batch.into_parts();
    assert_eq!(manager.buffers(), vec![buffer]);
    assert_eq!(batches.len(), 1);
    assert_eq!(batches[0].0, device);
    assert_eq!(batches[0].1.resource_writes().len(), 1);
    assert!(batches[0].1.command_buffers_to_dispatch().is_empty());
}

#[test]
fn unrouted_items_bring_no_batch_for_a_device() {
    let World { manager, device, buffer, commands, .. } = world();
    let mut batch = Batch::new(manager);
    let nowhere = BufferId::new(EntityId::new(90));
    assert!(!batch.add_resource_write(write_to(nowhere, 1)));
    assert!(!batch.add_resource_writes(vec![write_to(nowhere, 2), write_to(buffer, 3)]));
    assert!(!batch.add_command_buffer(CommandBufferId::new(EntityId::new(91))));
    batch.add_command_buffers(&vec![CommandBufferId::new(buffer.id())]);
    let (manager, batches) = batch.into_parts();
    assert!(batches.is_empty());
    let mut batch = Batch::new(manager);
    assert!(batch.add_resource_write(write_to(buffer, 4)));
    assert!(batch.add_command_buffer(commands));
    let (_, batches) = batch.into_parts();
    assert_eq!(batches.len(), 1);
    assert_eq!(batches[0].0, device);
}
