use std::cell::RefCell;

use wgpu_engine::common::backend::BackendBit;
use wgpu_engine::common::backend::Features;
use wgpu_engine::common::backend::Limits;
use wgpu_engine::common::backend::PresentMode;
use wgpu_engine::common::backend::TextureFormat;
use wgpu_engine::common::backend::TextureUsage;
use wgpu_engine::common::events::ResourceEvent;
use wgpu_engine::common::requirements::Requirements;
use wgpu_engine::common::resources::descriptors::instance::InstanceDescriptor;
use wgpu_engine::common::resources::handles::DeviceHandle;
use wgpu_engine::common::resources::handles::FrameHandle;
use wgpu_engine::common::resources::handles::InstanceHandle;
use wgpu_engine::common::resources::handles::ResourceHandle;
use wgpu_engine::common::resources::handles::SurfaceHandle;
use wgpu_engine::common::resources::handles::Swapchain;
use wgpu_engine::common::resources::SwapchainId;
use wgpu_engine::common::tasks::TaskId;
use wgpu_engine::engine::engine_task::Adapter;
use wgpu_engine::engine::engine_task::EngineTask;
use wgpu_engine::engine::engine_task::PendingCommand;
use wgpu_engine::engine::resource_manager::ResourceManager;
use wgpu_engine::entity_manager::update_context::UpdateContext;
use wgpu_engine::entity_manager::EntityId;

fn engine_id() -> TaskId {
    TaskId::new(EntityId::new(0))
}

fn offered(features: u64, limits: Limits) -> Adapter {
    Adapter { name: String::from("GPU"), vendor: 4318, features: Features(features), limits }
}

/// The engine's task with its instance, and with one device where `with_device`.
fn engine(with_device: bool) -> (EngineTask, UpdateContext) {
    let mut context = UpdateContext::new(engine_id(), ResourceManager::new(), vec![]);
    let descriptor = InstanceDescriptor { label: String::from("Engine"), backend: BackendBit(1) };
    let mut task = EngineTask::new(engine_id(), descriptor, InstanceHandle(1), &mut context).unwrap();
    if with_device {
        let requirements = Requirements::from_parts((Features(0b0110), Limits::standard()));
        let descriptor =
            task.device_descriptor(offered(0b0011, Limits::standard()), BackendBit(1), &requirements);
        assert!(task.add_device(&mut context, descriptor, DeviceHandle(2)).is_some());
    }
    (task, context)
}

fn format_five(_device: &DeviceHandle, _surface: &SurfaceHandle) -> Option<TextureFormat> {
    Some(TextureFormat(5))
}

fn no_frame(_chain: u64) -> FrameHandle {
    panic!("no frame is to be asked for")
}

/// Give the swapchain `id` the handle that a commit would give it.
fn build(context: UpdateContext, id: SwapchainId, chain: u64, frame: u64) -> UpdateContext {
    let (mut manager, _, events) = context.into_parts();
    let descriptor = manager.swapchain_descriptor_ref(&id).unwrap().clone();
    let handle =
        Swapchain::new(chain, descriptor.format, descriptor.width, descriptor.height, Some(FrameHandle(frame)))
            .unwrap();
    assert!(manager.update_resource_handle(id.id_ref(), ResourceHandle::Swapchain(handle)));
    UpdateContext::new(engine_id(), manager, events)
}

#[test]
fn engine_task_starts_with_its_instance() {
    let (task, context) = engine(false);
    assert_eq!(*task.id(), engine_id());
    assert_eq!(context.instances(), vec![*task.instance()]);
    assert_eq!(context.instance_handle_ref(task.instance()), Some(&InstanceHandle(1)));
    assert!(!context.is_damaged(task.instance().id_ref()));
    assert!(task.devices().is_empty());
    assert!(task.swapchains().is_empty());
}

#[test]
fn device_is_asked_for_what_both_sides_have() {
    let (task, _) = engine(false);
    let mut small = Limits::standard();
    small.max_bind_groups = 2;
    let requirements = Requirements::from_parts((Features(0b0110), Limits::standard()));
    let descriptor = task.device_descriptor(offered(0b0011, small), BackendBit(1), &requirements);
    assert_eq!(descriptor.label, "GPU");
    assert_eq!(descriptor.instance, *task.instance());
    assert_eq!(descriptor.pci_id, 4318);
    assert_eq!(descriptor.features, Features(0b0010));
    assert_eq!(descriptor.limits, small);
    let mut large = Limits::standard();
    large.max_texture_dimension_1d = 16384;
    large.max_bind_groups = 1;
    let descriptor = task.device_descriptor(offered(0, large), BackendBit(1), &requirements);
    assert_eq!(descriptor.limits, Limits::standard());
    assert_eq!(large.min(small), small);
    assert_eq!(small.min(large), small);
}

#[test]
fn device_joins_the_engine() {
    let (task, context) = engine(true);
    assert_eq!(task.devices().len(), 1);
    let device = task.devices()[0];
    assert_eq!(context.device_handle_ref(&device), Some(&DeviceHandle(2)));
    assert_eq!(context.device_descriptor_ref(&device).unwrap().features, Features(0b0010));
    assert_eq!(context.resource_manager().inner().entity_owners(device.id_ref()), Some(vec![engine_id()]));
}

#[test]
fn surface_gets_a_swapchain_at_the_next_update() {
    let (mut task, mut context) = engine(true);
    task.create_swapchain(7, String::from("Main"), SurfaceHandle(9), 640, 480);
    assert!(task.swapchains().is_empty());
    let released = task.update_resources(&mut context, &format_five, &no_frame);
    assert!(released.is_empty());
    let swapchain = task.swapchain_of(7).unwrap();
    assert_eq!(task.swapchains(), vec![swapchain]);
    let descriptor = context.swapchain_descriptor_ref(&swapchain).unwrap();
    assert_eq!(descriptor.label, "Main");
    assert_eq!(descriptor.device, task.devices()[0]);
    assert_eq!(descriptor.surface, SurfaceHandle(9));
    assert_eq!(descriptor.format, TextureFormat(5));
    assert_eq!((descriptor.width, descriptor.height), (640, 480));
    assert_eq!(descriptor.usage, TextureUsage(16));
    assert_eq!(descriptor.present_mode, PresentMode::Mailbox);
    assert!(context.swapchain_handle_ref(&swapchain).is_none());
    assert!(context.is_damaged(swapchain.id_ref()));
    assert_eq!(context.events(), &vec![ResourceEvent::SwapchainCreated { external_id: 7, swapchain }]);
    // Nothing is pending any more.
    task.update_resources(&mut context, &format_five, &no_frame);
    assert_eq!(context.swapchains(), vec![swapchain]);
    assert_eq!(context.events().len(), 1);
}

#[test]
fn no_swapchain_comes_without_a_device_or_a_format() {
    let (mut task, mut context) = engine(false);
    task.create_swapchain(7, String::from("Main"), SurfaceHandle(9), 640, 480);
    task.update_resources(&mut context, &format_five, &no_frame);
    assert!(task.swapchain_of(7).is_none());
    assert!(context.swapchains().is_empty());
    assert!(context.events().is_empty());

    let (mut task, mut context) = engine(true);
    task.create_swapchain(7, String::from("Main"), SurfaceHandle(9), 640, 480);
    let asked: RefCell<Vec<(DeviceHandle, SurfaceHandle)>> = RefCell::new(vec![]);
    let none = |device: &DeviceHandle, surface: &SurfaceHandle| {
        asked.borrow_mut().push((*device, *surface));
        None
    };
    task.update_resources(&mut context, &none, &no_frame);
    assert_eq!(asked.into_inner(), vec![(DeviceHandle(2), SurfaceHandle(9))]);
    assert!(task.swapchain_of(7).is_none());
    assert!(context.swapchains().is_empty());
    assert!(context.events().is_empty());
}

#[test]
fn resized_swapchain_hands_its_frame_back() {
    let (mut task, mut context) = engine(true);
    task.create_swapchain(7, String::from("Main"), SurfaceHandle(9), 640, 480);
    task.update_resources(&mut context, &format_five, &no_frame);
    let swapchain = task.swapchain_of(7).unwrap();
    let mut context = build(context, swapchain, 30, 31);
    assert!(context.resource_manager().inner().entity_owners(swapchain.id_ref()).is_some());

    task.resize_swapchain(7, 800, 600);
    task.resize_swapchain(8, 1, 1);
    let released = task.update_resources(&mut context, &format_five, &no_frame);
    assert_eq!(released, vec![FrameHandle(31)]);
    assert_eq!(task.swapchain_of(7), Some(swapchain));
    let descriptor = context.swapchain_descriptor_ref(&swapchain).unwrap();
    assert_eq!((descriptor.width, descriptor.height), (800, 600));
    assert_eq!(descriptor.label, "Main");
    assert!(context.is_damaged(swapchain.id_ref()));
    let handle = context.swapchain_handle_ref(&swapchain).unwrap();
    assert_eq!(handle.chain(), 30);
    assert_eq!(handle.current_frame(), None);
    assert_eq!(
        context.events(),
        &vec![
            ResourceEvent::SwapchainCreated { external_id: 7, swapchain },
            ResourceEvent::SwapchainUpdated(swapchain),
        ]
    );
}

#[test]
fn frames_are_asked_for_where_no_command_has_settled_the_swapchain() {
    let (mut task, mut context) = engine(true);
    task.create_swapchain(7, String::from("A"), SurfaceHandle(9), 640, 480);
    task.create_swapchain(8, String::from("B"), SurfaceHandle(10), 320, 240);
    task.update_resources(&mut context, &format_five, &no_frame);
    let first = task.swapchain_of(7).unwrap();
    let second = task.swapchain_of(8).unwrap();
    assert_ne!(first, second);
    let context = build(context, first, 30, 31);
    let mut context = build(context, second, 40, 41);
    // Both have a frame: none is asked for.
    task.update_resources(&mut context, &format_five, &no_frame);
    assert_eq!(context.present_swapchain(&first), Some(FrameHandle(31)));
    assert_eq!(context.present_swapchain(&second), Some(FrameHandle(41)));
    // The second is resized in this update, so only the first is asked.
    task.resize_swapchain(8, 321, 241);
    let asked: RefCell<Vec<u64>> = RefCell::new(vec![]);
    let acquire = |chain: u64| {
        asked.borrow_mut().push(chain);
        FrameHandle(chain + 2)
    };
    let released = task.update_resources(&mut context, &format_five, &acquire);
    assert!(released.is_empty());
    assert_eq!(asked.into_inner(), vec![30]);
    assert_eq!(context.swapchain_handle_ref(&first).unwrap().current_frame(), Some(FrameHandle(32)));
    assert_eq!(context.swapchain_handle_ref(&second).unwrap().current_frame(), None);
}

#[test]
fn removed_surface_loses_its_swapchain() {
    let (mut task, mut context) = engine(true);
    task.create_swapchain(7, String::from("A"), SurfaceHandle(9), 640, 480);
    task.create_swapchain(8, String::from("B"), SurfaceHandle(10), 320, 240);
    task.update_resources(&mut context, &format_five, &no_frame);
    let first = task.swapchain_of(7).unwrap();
    let second = task.swapchain_of(8).unwrap();
    task.remove_swapchain(7);
    task.remove_swapchain(99);
    task.update_resources(&mut context, &format_five, &no_frame);
    assert_eq!(task.swapchain_of(7), None);
    assert_eq!(task.swapchains(), vec![second]);
    assert!(context.swapchain_descriptor_ref(&first).is_none());
    assert_eq!(context.swapchains(), vec![second]);
    assert_eq!(context.events().last(), Some(&ResourceEvent::SwapchainDestroyed(first)));
    assert_eq!(context.events().len(), 3);
}

#[test]
fn commands_are_carried_out_one_by_one() {
    let (mut task, mut context) = engine(true);
    let create = PendingCommand::CreateSwapchain {
        external_id: 3,
        label: String::from("S"),
        surface: SurfaceHandle(9),
        width: 10,
        height: 20,
    };
    let made = task.apply(&mut context, create.clone(), &format_five);
    let swapchain = made.swapchain.unwrap();
    assert_eq!(made.frame, None);
    // The surface gets another swapchain where one is asked for again.
    let again = task.apply(&mut context, create, &format_five);
    assert_ne!(again.swapchain, Some(swapchain));
    assert_eq!(task.swapchain_of(3), again.swapchain);
    assert_eq!(task.swapchains().len(), 1);
    assert_eq!(context.swapchains().len(), 2);
    let resize = PendingCommand::ResizeSwapchain { external_id: 4, width: 1, height: 1 };
    let nothing = task.apply(&mut context, resize, &format_five);
    assert_eq!((nothing.swapchain, nothing.frame), (None, None));
    let destroy = PendingCommand::DestroySwapchain { external_id: 3 };
    let gone = task.apply(&mut context, destroy, &format_five);
    assert_eq!(gone.swapchain, again.swapchain);
    assert!(task.swapchains().is_empty());
    assert_eq!(context.swapchains(), vec![swapchain]);
}
