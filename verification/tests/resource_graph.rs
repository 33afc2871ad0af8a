use wgpu_engine::common::backend::BackendBit;
use wgpu_engine::common::backend::BindGroupLayoutEntry;
use wgpu_engine::common::backend::BindingType;
use wgpu_engine::common::backend::BufferUsage;
use wgpu_engine::common::backend::Features;
use wgpu_engine::common::backend::Limits;
use wgpu_engine::common::backend::ShaderStage;
use wgpu_engine::common::resources::builders::ResourceBuilder;
use wgpu_engine::common::resources::descriptors::bind_group::BindGroupDescriptor;
use wgpu_engine::common::resources::descriptors::bind_group::BindGroupEntry;
use wgpu_engine::common::resources::descriptors::bind_group::BindingResource;
use wgpu_engine::common::resources::descriptors::bind_group::BufferBinding;
use wgpu_engine::common::resources::descriptors::bind_group_layout::BindGroupLayoutDescriptor;
use wgpu_engine::common::resources::descriptors::buffer::BufferDescriptor;
use wgpu_engine::common::resources::descriptors::device::DeviceDescriptor;
use wgpu_engine::common::resources::descriptors::instance::InstanceDescriptor;
use wgpu_engine::common::resources::descriptors::ResourceDescriptor;
use wgpu_engine::common::resources::handles::BindGroupHandle;
use wgpu_engine::common::resources::handles::BindGroupLayoutHandle;
use wgpu_engine::common::resources::handles::BufferHandle;
use wgpu_engine::common::resources::handles::DeviceHandle;
use wgpu_engine::common::resources::handles::InstanceHandle;
use wgpu_engine::common::resources::handles::ResourceHandle;
use wgpu_engine::common::resources::BindGroupId;
use wgpu_engine::common::resources::BindGroupLayoutId;
use wgpu_engine::common::resources::BufferId;
use wgpu_engine::common::resources::DeviceId;
use wgpu_engine::common::resources::InstanceId;
use wgpu_engine::common::resources::ResourceId;
use wgpu_engine::common::tasks::TaskId;
use wgpu_engine::engine::resource_manager::ResourceManager;
use wgpu_engine::entity_manager::EntityId;
use std::cell::RefCell;

const VERTEX: u32 = 32;

fn task(n: usize) -> TaskId {
    TaskId::new(EntityId::new(n))
}

fn instance_descriptor() -> InstanceDescriptor {
    InstanceDescriptor { label: String::from("I"), backend: BackendBit(1) }
}

fn device_descriptor(instance: InstanceId) -> DeviceDescriptor {
    DeviceDescriptor {
        label: String::from("D"),
        instance,
        backend: BackendBit(1),
        pci_id: 7,
        features: Features(0),
        limits: Limits::standard(),
    }
}

fn buffer_descriptor(device: DeviceId, size: u64) -> BufferDescriptor {
    BufferDescriptor { label: String::from("B"), device, size, usage: BufferUsage(VERTEX) }
}

fn layout_descriptor(device: DeviceId, binding: u32) -> BindGroupLayoutDescriptor {
    BindGroupLayoutDescriptor {
        label: String::from("L"),
        device,
        entries: vec![BindGroupLayoutEntry {
            binding,
            visibility: ShaderStage(1),
            ty: BindingType::Sampler { filtering: true, comparison: false },
            count: None,
        }],
    }
}

fn group_descriptor(device: DeviceId, layout: BindGroupLayoutId, buffer: BufferId) -> BindGroupDescriptor {
    BindGroupDescriptor {
        label: String::from("G"),
        device,
        layout,
        entries: vec![BindGroupEntry {
            binding: 0,
            resource: BindingResource::Buffer(BufferBinding { buffer, offset: 0, size: None }),
        }],
    }
}

/// A backend for the tests: it hands out one key after the other and keeps
/// the builders that it was asked to make.
fn realize(log: &RefCell<Vec<ResourceBuilder>>, builder: &ResourceBuilder) -> Option<ResourceHandle> {
    let key = log.borrow().len() as u64 + 100;
    log.borrow_mut().push(builder.clone());
    Some(match builder {
        ResourceBuilder::Instance(_) => ResourceHandle::Instance(InstanceHandle(key)),
        ResourceBuilder::Device(_) => ResourceHandle::Device(DeviceHandle(key)),
        ResourceBuilder::Buffer(_) => ResourceHandle::Buffer(BufferHandle(key)),
        ResourceBuilder::BindGroupLayout(_) => {
            ResourceHandle::BindGroupLayout(BindGroupLayoutHandle(key))
        }
        ResourceBuilder::BindGroup(_) => ResourceHandle::BindGroup(BindGroupHandle(key)),
        _ => return None,
    })
}

struct Scene {
    manager: ResourceManager,
    instance: InstanceId,
    device: DeviceId,
}

fn scene() -> Scene {
    let mut manager = ResourceManager::new();
    let instance = manager.add_instance(task(0), instance_descriptor(), None).unwrap();
    let device = manager.add_device(task(0), device_descriptor(instance), None).unwrap();
    Scene { manager, instance, device }
}

#[test]
fn new_manager_is_empty() {
    let manager = ResourceManager::new();
    assert!(manager.instances().is_empty());
    assert!(manager.buffers().is_empty());
    assert_eq!(manager.inner().inner().len(), 0);
    assert!(manager.build_order().is_empty());
}

#[test]
fn adding_with_unknown_dependency_fails_and_changes_nothing() {
    let mut manager = ResourceManager::new();
    let ghost_instance = InstanceId::new(EntityId::new(5));
    let result = manager.add_device(task(0), device_descriptor(ghost_instance), None);
    assert!(result.is_err());
    assert_eq!(manager.inner().inner().len(), 0);
    assert!(manager.devices().is_empty());
    assert!(manager.inner().inner().entities().is_empty());
    assert!(!manager.is_damaged(&EntityId::new(0)));
}

#[test]
fn adding_with_known_dependency_links_it() {
    let Scene { manager, instance, device } = scene();
    assert_ne!(instance.id(), device.id());
    assert_eq!(manager.inner().inner().entity_parents(device.id_ref()), vec![instance.id()]);
    assert!(manager.inner().inner().entity_parents(instance.id_ref()).is_empty());
    assert_eq!(manager.inner().inner().entities(), vec![instance.id(), device.id()]);
    assert_eq!(manager.inner().inner().len(), 2);
    assert!(manager.inner().inner().contains_entity(device.id_ref()));
    assert!(!manager.inner().inner().contains_entity(&EntityId::new(9)));
}

#[test]
fn resources_without_handle_start_damaged() {
    let Scene { mut manager, instance, device } = scene();
    assert!(manager.is_damaged(instance.id_ref()));
    assert!(manager.is_damaged(device.id_ref()));
    let ready = manager
        .add_buffer(task(0), buffer_descriptor(device, 16), Some(BufferHandle(3)))
        .unwrap();
    assert!(!manager.is_damaged(ready.id_ref()));
    assert_eq!(manager.buffer_handle_ref(&ready), Some(&BufferHandle(3)));
}

#[test]
fn buffer_scenario_resize_rebuilds_and_identical_update_does_not() {
    let Scene { mut manager, instance: _, device } = scene();
    let mut buffer = manager.add_buffer(task(0), buffer_descriptor(device, 1024), None).unwrap();
    let log = RefCell::new(Vec::new());
    assert!(manager.commit_resources(&|builder: &ResourceBuilder| realize(&log, builder)));
    assert!(!manager.is_damaged(buffer.id_ref()));
    let first_handle = *manager.buffer_handle_ref(&buffer).unwrap();

    assert!(manager.update_buffer_descriptor(&task(0), &mut buffer, buffer_descriptor(device, 2048)));
    assert!(manager.is_damaged(buffer.id_ref()));
    assert!(!manager.is_damaged(device.id_ref()));

    log.borrow_mut().clear();
    assert!(manager.commit_resources(&|builder: &ResourceBuilder| realize(&log, builder)));
    assert!(!manager.is_damaged(buffer.id_ref()));
    let made = log.borrow();
    assert_eq!(made.len(), 1);
    match &made[0] {
        ResourceBuilder::Buffer(builder) => {
            assert_eq!(builder.size, 2048);
            assert_eq!(builder.usage, BufferUsage(VERTEX));
            assert_eq!(builder.id, buffer);
            assert_eq!(Some(&builder.device), manager.device_handle_ref(&device));
        }
        _ => panic!("a buffer was to be built"),
    }
    drop(made);
    let second_handle = *manager.buffer_handle_ref(&buffer).unwrap();
    assert_ne!(first_handle, second_handle);
    assert_eq!(manager.buffer_descriptor_ref(&buffer).unwrap().size, 2048);

    assert!(manager.update_buffer_descriptor(&task(0), &mut buffer, buffer_descriptor(device, 2048)));
    assert!(!manager.is_damaged(buffer.id_ref()));
    assert_eq!(manager.buffer_handle_ref(&buffer), Some(&second_handle));
}

#[test]
fn equal_stateless_descriptors_share_one_resource() {
    let Scene { mut manager, instance: _, device } = scene();
    let first = manager.add_bind_group_layout(task(1), layout_descriptor(device, 0), None).unwrap();
    let count = manager.inner().inner().len();
    let second = manager.add_bind_group_layout(task(2), layout_descriptor(device, 0), None).unwrap();
    assert_eq!(first, second);
    assert_eq!(manager.inner().inner().len(), count);
    assert_eq!(manager.inner().entity_owners(first.id_ref()), Some(vec![task(1), task(2)]));
    assert_eq!(manager.bind_group_layouts(), vec![first]);

    let again = manager.add_bind_group_layout(task(2), layout_descriptor(device, 0), None).unwrap();
    assert_eq!(again, first);
    assert_eq!(manager.inner().entity_owners(first.id_ref()), Some(vec![task(1), task(2)]));

    let other = manager.add_bind_group_layout(task(1), layout_descriptor(device, 1), None).unwrap();
    assert_ne!(other, first);
    assert_eq!(manager.bind_group_layouts(), vec![first, other]);
}

#[test]
fn shared_resource_lives_until_its_last_owner_leaves() {
    let Scene { mut manager, instance: _, device } = scene();
    let layout = manager.add_bind_group_layout(task(1), layout_descriptor(device, 0), None).unwrap();
    manager.add_bind_group_layout(task(2), layout_descriptor(device, 0), None).unwrap();

    assert_eq!(manager.remove_bind_group_layout(&task(1), &layout), Ok(()));
    assert!(manager.bind_group_layout_descriptor_ref(&layout).is_some());
    assert_eq!(manager.inner().entity_owners(layout.id_ref()), Some(vec![task(2)]));

    assert_eq!(manager.remove_bind_group_layout(&task(2), &layout), Ok(()));
    assert!(manager.bind_group_layout_descriptor_ref(&layout).is_none());
    assert!(manager.inner().entity_owners(layout.id_ref()).is_none());
    assert!(manager.bind_group_layouts().is_empty());
    assert!(!manager.is_damaged(layout.id_ref()));
    assert_eq!(manager.remove_bind_group_layout(&task(2), &layout), Err(()));
}

#[test]
fn removing_for_a_stranger_keeps_the_owners() {
    let Scene { mut manager, instance: _, device } = scene();
    let buffer = manager.add_buffer(task(1), buffer_descriptor(device, 8), None).unwrap();
    assert_eq!(manager.remove_buffer(&task(9), &buffer), Ok(()));
    assert_eq!(manager.inner().entity_owners(buffer.id_ref()), Some(vec![task(1)]));
    assert!(manager.buffer_descriptor_ref(&buffer).is_some());
}

#[test]
fn removing_an_unknown_resource_is_an_error() {
    let Scene { mut manager, instance, device: _ } = scene();
    let nowhere = BufferId::new(EntityId::new(40));
    assert_eq!(manager.remove_buffer(&task(0), &nowhere), Err(()));
    let wrong_kind = BufferId::new(instance.id());
    assert_eq!(manager.remove_buffer(&task(0), &wrong_kind), Err(()));
    assert!(manager.instance_descriptor_ref(&instance).is_some());
    assert_eq!(manager.remove_resource(&task(0), &ResourceId::Buffer(nowhere)), Err(()));
}

#[test]
fn statefull_descriptors_are_never_shared() {
    let Scene { mut manager, instance: _, device } = scene();
    let first = manager.add_buffer(task(1), buffer_descriptor(device, 64), None).unwrap();
    let second = manager.add_buffer(task(1), buffer_descriptor(device, 64), None).unwrap();
    assert_ne!(first, second);
    assert_eq!(manager.buffers(), vec![first, second]);
    assert_eq!(manager.inner().entity_owners(first.id_ref()), Some(vec![task(1)]));
    assert_eq!(manager.inner().entity_owners(second.id_ref()), Some(vec![task(1)]));
}

#[test]
fn damage_reaches_everything_downstream() {
    let Scene { mut manager, instance, device } = scene();
    let b1 = manager.add_buffer(task(0), buffer_descriptor(device, 1), None).unwrap();
    let b2 = manager.add_buffer(task(0), buffer_descriptor(device, 2), None).unwrap();
    let layout = manager.add_bind_group_layout(task(0), layout_descriptor(device, 0), None).unwrap();
    let group = manager.add_bind_group(task(0), group_descriptor(device, layout, b1), None).unwrap();
    let log = RefCell::new(Vec::new());
    manager.commit_resources(&|builder: &ResourceBuilder| realize(&log, builder));
    for id in [instance.id(), device.id(), b1.id(), b2.id(), layout.id(), group.id()] {
        assert!(!manager.is_damaged(&id));
    }
    // Taking the device's handle damages the device, and with it whatever
    // depends on it, however far.
    assert!(manager.take_resource(device.id_ref()).is_some());
    for id in [device.id(), b1.id(), b2.id(), layout.id(), group.id()] {
        assert!(manager.is_damaged(&id));
    }
    assert!(!manager.is_damaged(instance.id_ref()));
    assert!(manager.device_handle_ref(&device).is_none());
}

#[test]
fn damage_follows_edges_beyond_the_first_hop() {
    let Scene { mut manager, instance: _, device } = scene();
    let b1 = manager.add_buffer(task(0), buffer_descriptor(device, 1), None).unwrap();
    let layout = manager.add_bind_group_layout(task(0), layout_descriptor(device, 0), None).unwrap();
    let group = manager.add_bind_group(task(0), group_descriptor(device, layout, b1), None).unwrap();
    let log = RefCell::new(Vec::new());
    manager.commit_resources(&|builder: &ResourceBuilder| realize(&log, builder));
    let mut resized = b1;
    assert!(manager.update_buffer_descriptor(&task(0), &mut resized, buffer_descriptor(device, 9)));
    assert!(manager.is_damaged(b1.id_ref()));
    assert!(manager.is_damaged(group.id_ref()));
    assert!(!manager.is_damaged(layout.id_ref()));
    assert!(!manager.is_damaged(device.id_ref()));
}

#[test]
fn commit_builds_in_dependency_order() {
    let Scene { mut manager, instance, device } = scene();
    let b1 = manager.add_buffer(task(0), buffer_descriptor(device, 1), None).unwrap();
    let layout = manager.add_bind_group_layout(task(0), layout_descriptor(device, 0), None).unwrap();
    let group = manager.add_bind_group(task(0), group_descriptor(device, layout, b1), None).unwrap();
    let plan: Vec<EntityId> = manager.build_order().into_iter().map(|entry| entry.0).collect();
    assert_eq!(plan.len(), 5);
    let place = |id: EntityId| plan.iter().position(|x| *x == id).unwrap();
    assert!(place(instance.id()) < place(device.id()));
    assert!(place(device.id()) < place(b1.id()));
    assert!(place(device.id()) < place(layout.id()));
    assert!(place(b1.id()) < place(group.id()));
    assert!(place(layout.id()) < place(group.id()));

    let log = RefCell::new(Vec::new());
    assert!(manager.commit_resources(&|builder: &ResourceBuilder| realize(&log, builder)));
    assert_eq!(log.borrow().len(), 5);
    assert!(manager.build_order().is_empty());
    assert!(manager.bind_group_handle_ref(&group).is_some());
    match &log.borrow()[4] {
        ResourceBuilder::BindGroup(builder) => {
            assert_eq!(Some(&builder.layout), manager.bind_group_layout_handle_ref(&layout));
            assert_eq!(Some(&builder.device), manager.device_handle_ref(&device));
        }
        _ => panic!("the bind group was to be built last"),
    };
}

#[test]
fn build_order_lists_the_parents() {
    let Scene { manager, instance, device } = scene();
    let plan = manager.build_order();
    assert_eq!(plan, vec![(instance.id(), vec![]), (device.id(), vec![instance.id()])]);
}

#[test]
fn failed_build_leaves_the_resource_damaged_for_the_next_commit() {
    let Scene { mut manager, instance, device } = scene();
    let buffer = manager.add_buffer(task(0), buffer_descriptor(device, 1), None).unwrap();
    // A backend that cannot make devices.
    let stubborn = |builder: &ResourceBuilder| match builder {
        ResourceBuilder::Instance(_) => Some(ResourceHandle::Instance(InstanceHandle(1))),
        ResourceBuilder::Buffer(_) => Some(ResourceHandle::Buffer(BufferHandle(2))),
        _ => None,
    };
    assert!(manager.commit_resources(&stubborn));
    assert!(!manager.is_damaged(instance.id_ref()));
    assert!(manager.is_damaged(device.id_ref()));
    assert!(manager.is_damaged(buffer.id_ref()));
    assert!(manager.buffer_handle_ref(&buffer).is_none());

    let log = RefCell::new(Vec::new());
    assert!(manager.commit_resources(&|builder: &ResourceBuilder| realize(&log, builder)));
    assert!(!manager.is_damaged(device.id_ref()));
    assert!(!manager.is_damaged(buffer.id_ref()));
    assert_eq!(log.borrow().len(), 2);
}

#[test]
fn handle_of_the_wrong_kind_is_not_kept() {
    let Scene { mut manager, instance, device: _ } = scene();
    let confused = |_builder: &ResourceBuilder| Some(ResourceHandle::Buffer(BufferHandle(1)));
    assert!(manager.commit_resources(&confused));
    assert!(manager.is_damaged(instance.id_ref()));
    assert!(manager.instance_handle_ref(&instance).is_none());
    assert!(manager.entity_handle_ref(instance.id_ref()).is_none());
}

#[test]
fn update_to_an_existing_descriptor_moves_the_owner() {
    let Scene { mut manager, instance: _, device } = scene();
    let kept = manager.add_bind_group_layout(task(1), layout_descriptor(device, 0), None).unwrap();
    let mut moved = manager.add_bind_group_layout(task(2), layout_descriptor(device, 1), None).unwrap();
    let left = moved;
    assert_ne!(kept, moved);
    assert!(manager.update_bind_group_layout_descriptor(&task(2), &mut moved, layout_descriptor(device, 0)));
    assert_eq!(moved, kept);
    assert_eq!(manager.inner().entity_owners(kept.id_ref()), Some(vec![task(1), task(2)]));
    assert_eq!(manager.inner().entity_owners(left.id_ref()), Some(vec![]));
    assert_eq!(manager.bind_group_layout_descriptor_ref(&left).unwrap().entries[0].binding, 1);
}

#[test]
fn update_rewires_the_dependencies() {
    let mut manager = ResourceManager::new();
    let instance = manager.add_instance(task(0), instance_descriptor(), None).unwrap();
    let d1 = manager.add_device(task(0), device_descriptor(instance), None).unwrap();
    let mut second = device_descriptor(instance);
    second.pci_id = 8;
    let d2 = manager.add_device(task(0), second, None).unwrap();
    assert_ne!(d1, d2);
    let mut buffer = manager.add_buffer(task(0), buffer_descriptor(d1, 4), None).unwrap();
    assert_eq!(manager.inner().inner().entity_parents(buffer.id_ref()), vec![d1.id()]);
    assert!(manager.update_buffer_descriptor(&task(0), &mut buffer, buffer_descriptor(d2, 4)));
    assert_eq!(manager.inner().inner().entity_parents(buffer.id_ref()), vec![d2.id()]);
}

#[test]
fn update_of_an_unknown_or_mismatched_resource_does_nothing() {
    let Scene { mut manager, instance, device } = scene();
    let mut nowhere = BufferId::new(EntityId::new(77));
    assert!(!manager.update_buffer_descriptor(&task(0), &mut nowhere, buffer_descriptor(device, 1)));
    assert_eq!(nowhere, BufferId::new(EntityId::new(77)));
    let mut id = ResourceId::Instance(instance);
    let descriptor = ResourceDescriptor::Buffer(buffer_descriptor(device, 1));
    assert!(!manager.update_resource_descriptor(&task(0), &mut id, descriptor));
    assert!(manager.instance_descriptor_ref(&instance).is_some());
}

#[test]
fn typed_lookups_tell_the_kinds_apart() {
    let Scene { manager, instance, device } = scene();
    assert!(manager.device_descriptor_ref(&DeviceId::new(instance.id())).is_none());
    assert!(manager.instance_descriptor_ref(&InstanceId::new(device.id())).is_none());
    assert_eq!(manager.instances(), vec![instance]);
    assert_eq!(manager.devices(), vec![device]);
    assert_eq!(manager.resource_descriptor(&ResourceId::Device(device)).map(|d| d.kind()),
        Some(wgpu_engine::common::resources::ResourceType::Device));
    assert!(manager.resource_descriptor(&ResourceId::Buffer(BufferId::new(device.id()))).is_none());
}

#[test]
fn search_finds_the_first_resource_with_the_same_descriptor() {
    let Scene { mut manager, instance: _, device } = scene();
    let layout = manager.add_bind_group_layout(task(1), layout_descriptor(device, 0), None).unwrap();
    let wanted = ResourceDescriptor::BindGroupLayout(layout_descriptor(device, 0));
    assert_eq!(manager.search_compatible(None, &wanted), Some(ResourceId::BindGroupLayout(layout)));
    let own = ResourceId::BindGroupLayout(layout);
    assert_eq!(manager.search_compatible(Some(&own), &wanted), None);
    let other = ResourceDescriptor::BindGroupLayout(layout_descriptor(device, 3));
    assert_eq!(manager.search_compatible(None, &other), None);
    let statefull = ResourceDescriptor::Buffer(buffer_descriptor(device, 1));
    manager.add_resource(task(1), statefull.clone(), None).unwrap();
    assert_eq!(manager.search_compatible(None, &statefull), None);
}

#[test]
fn device_of_a_resource_is_found_up_the_parents() {
    let Scene { mut manager, instance, device } = scene();
    let buffer = manager.add_buffer(task(0), buffer_descriptor(device, 1), None).unwrap();
    // Nothing is built yet: no device has a handle.
    assert_eq!(manager.entity_device_id(buffer.id_ref()), None);
    let log = RefCell::new(Vec::new());
    manager.commit_resources(&|builder: &ResourceBuilder| realize(&log, builder));
    assert_eq!(manager.entity_device_id(buffer.id_ref()), Some(device));
    assert_eq!(manager.entity_device(buffer.id_ref()), manager.device_handle_ref(&device));
    assert_eq!(manager.entity_device_id(device.id_ref()), None);
    assert_eq!(manager.entity_device_id(instance.id_ref()), None);
    let layout = manager.add_bind_group_layout(task(0), layout_descriptor(device, 0), None).unwrap();
    let group = manager.add_bind_group(task(0), group_descriptor(device, layout, buffer), None).unwrap();
    assert_eq!(manager.entity_device_id(group.id_ref()), Some(device));
}

#[test]
fn removed_slot_is_reused_without_old_damage() {
    let Scene { mut manager, instance: _, device } = scene();
    let buffer = manager.add_buffer(task(0), buffer_descriptor(device, 1), None).unwrap();
    assert!(manager.is_damaged(buffer.id_ref()));
    manager.remove_buffer(&task(0), &buffer).unwrap();
    assert!(!manager.is_damaged(buffer.id_ref()));
    let again = manager
        .add_buffer(task(0), buffer_descriptor(device, 2), Some(BufferHandle(5)))
        .unwrap();
    assert!(manager.buffer_descriptor_ref(&again).is_some());
    assert!(!manager.is_damaged(again.id_ref()));
    assert_eq!(manager.inner().inner().entity_parents(again.id_ref()), vec![device.id()]);
}

#[test]
fn removing_a_dependency_unlinks_its_dependents() {
    let Scene { mut manager, instance, device } = scene();
    manager.remove_instance(&task(0), &instance).unwrap();
    assert!(manager.inner().inner().entity_parents(device.id_ref()).is_empty());
    assert_eq!(manager.inner().inner().entities(), vec![device.id()]);
    assert_eq!(manager.inner().inner().len(), 1);
}
