use wgpu_engine::common::backend::BackendBit;
use wgpu_engine::common::backend::BufferUsage;
use wgpu_engine::common::backend::CompareFunction;
use wgpu_engine::common::backend::DepthBiasState;
use wgpu_engine::common::backend::Features;
use wgpu_engine::common::backend::FrontFace;
use wgpu_engine::common::backend::Limits;
use wgpu_engine::common::backend::MultisampleState;
use wgpu_engine::common::backend::PolygonMode;
use wgpu_engine::common::backend::PrimitiveState;
use wgpu_engine::common::backend::PrimitiveTopology;
use wgpu_engine::common::backend::ShaderFlags;
use wgpu_engine::common::backend::StencilFaceState;
use wgpu_engine::common::backend::StencilOperation;
use wgpu_engine::common::backend::StencilState;
use wgpu_engine::common::backend::TextureAspect;
use wgpu_engine::common::backend::TextureDimension;
use wgpu_engine::common::backend::TextureFormat;
use wgpu_engine::common::backend::TextureUsage;
use wgpu_engine::common::backend::TextureViewDimension;
use wgpu_engine::common::backend::Extent3d;
use wgpu_engine::common::resources::builders::BufferBuilder;
use wgpu_engine::common::resources::builders::DeviceBuilder;
use wgpu_engine::common::resources::builders::InstanceBuilder;
use wgpu_engine::common::resources::builders::RenderPipelineBuilder;
use wgpu_engine::common::resources::builders::ResourceBuilder;
use wgpu_engine::common::resources::builders::ResourceBuilderError;
use wgpu_engine::common::resources::descriptors::buffer::BufferDescriptor;
use wgpu_engine::common::resources::descriptors::device::DeviceDescriptor;
use wgpu_engine::common::resources::descriptors::instance::InstanceDescriptor;
use wgpu_engine::common::resources::descriptors::render_pipeline::DepthStencilState;
use wgpu_engine::common::resources::descriptors::render_pipeline::RenderPipelineDescriptor;
use wgpu_engine::common::resources::descriptors::render_pipeline::VertexState;
use wgpu_engine::common::resources::descriptors::shader_module::ShaderModuleDescriptor;
use wgpu_engine::common::resources::descriptors::shader_module::ShaderSource;
use wgpu_engine::common::resources::descriptors::texture::TextureDescriptor;
use wgpu_engine::common::resources::descriptors::texture::TextureSource;
use wgpu_engine::common::resources::descriptors::texture_view::TextureViewDescriptor;
use wgpu_engine::common::resources::descriptors::ResourceDescriptor;
use wgpu_engine::common::resources::handles::BufferHandle;
use wgpu_engine::common::resources::handles::DeviceHandle;
use wgpu_engine::common::resources::handles::InstanceHandle;
use wgpu_engine::common::resources::handles::ResourceHandle;
use wgpu_engine::common::resources::handles::ShaderModuleHandle;
use wgpu_engine::common::resources::handles::TextureHandle;
use wgpu_engine::common::resources::handles::TextureViewHandle;
use wgpu_engine::common::resources::BufferId;
use wgpu_engine::common::resources::DeviceId;
use wgpu_engine::common::resources::InstanceId;
use wgpu_engine::common::resources::RenderPipelineId;
use wgpu_engine::common::resources::Resource;
use wgpu_engine::common::resources::ResourceType;
use wgpu_engine::common::tasks::TaskId;
use wgpu_engine::engine::resource_manager::all_built;
use wgpu_engine::engine::resource_manager::awaited;
use wgpu_engine::engine::resource_manager::ResourceManager;
use wgpu_engine::entity_manager::dmg_entity_manager::DMGEntityManager;
use wgpu_engine::entity_manager::EntityId;
use wgpu_engine::entity_manager::EntityManagerError;

fn task(n: usize) -> TaskId {
    TaskId::new(EntityId::new(n))
}

fn instance_resource(label: &str) -> Resource {
    Resource::new(
        vec![task(0)],
        ResourceDescriptor::Instance(InstanceDescriptor { label: String::from(label), backend: BackendBit(1) }),
        None,
    )
}

fn device_resource(instance: EntityId) -> Resource {
    Resource::new(
        vec![task(0)],
        ResourceDescriptor::Device(DeviceDescriptor {
            label: String::from("D"),
            instance: InstanceId::new(instance),
            backend: BackendBit(1),
            pci_id: 0,
            features: Features(0),
            limits: Limits::standard(),
        }),
        None,
    )
}

fn buffer_resource(device: EntityId) -> Resource {
    Resource::new(
        vec![task(0)],
        ResourceDescriptor::Buffer(BufferDescriptor {
            label: String::from("B"),
            device: DeviceId::new(device),
            size: 1,
            usage: BufferUsage(1),
        }),
        None,
    )
}

/// `resource` with a handle, as it is once it was built.
fn built(mut resource: Resource, key: u64) -> Resource {
    resource.current_handle = Some(match resource.current_descriptor {
        ResourceDescriptor::Instance(_) => ResourceHandle::Instance(InstanceHandle(key)),
        ResourceDescriptor::Device(_) => ResourceHandle::Device(DeviceHandle(key)),
        _ => ResourceHandle::Buffer(BufferHandle(key)),
    });
    resource
}

fn stencil_face() -> StencilFaceState {
    StencilFaceState {
        compare: CompareFunction::Always,
        fail_op: StencilOperation::Keep,
        depth_fail_op: StencilOperation::Keep,
        pass_op: StencilOperation::Keep,
    }
}

#[test]
fn damage_is_set_and_cleared_by_hand() {
    let mut manager: DMGEntityManager<Resource> = DMGEntityManager::new();
    let instance = manager.add_entity(built(instance_resource("I"), 1)).unwrap();
    let device = manager.add_entity(built(device_resource(instance), 5)).unwrap();
    let buffer = manager.add_entity(built(buffer_resource(device), 6)).unwrap();
    let lonely = manager.add_entity(built(instance_resource("J"), 2)).unwrap();
    assert!(!manager.is_damaged(&instance));
    manager.damage_entity(device);
    assert!(!manager.is_damaged(&instance));
    assert!(manager.is_damaged(&device));
    assert!(manager.is_damaged(&buffer));
    assert!(!manager.is_damaged(&lonely));
    manager.fix_entity(&device);
    assert!(!manager.is_damaged(&device));
    assert!(manager.is_damaged(&buffer));
    // Damaging what names no entity does nothing.
    manager.damage_entity(EntityId::new(99));
    assert!(!manager.is_damaged(&EntityId::new(99)));
    // Damaging what is damaged already does not spread again.
    manager.fix_entity(&buffer);
    manager.damage_entity(instance);
    manager.fix_entity(&buffer);
    manager.damage_entity(instance);
    assert!(!manager.is_damaged(&buffer));
    assert_eq!(manager.entities(), vec![instance, device, buffer, lonely]);
}

#[test]
fn dependencies_are_added_and_removed_by_hand() {
    let mut manager: DMGEntityManager<Resource> = DMGEntityManager::new();
    let first = manager.add_entity(built(instance_resource("I"), 1)).unwrap();
    let second = manager.add_entity(built(instance_resource("J"), 2)).unwrap();
    let third = manager.add_entity(built(instance_resource("K"), 3)).unwrap();
    manager.add_dependency(&first, &third);
    manager.add_dependency(&second, &third);
    manager.add_dependency(&second, &third);
    manager.add_dependency(&second, &EntityId::new(9));
    let mut parents = manager.inner().entity_parents(&third);
    parents.sort_by_key(|id| id.id());
    assert_eq!(parents, vec![first, second]);
    assert_eq!(manager.inner().dependencies(&third).len(), 2);
    manager.damage_entity(second);
    assert!(manager.is_damaged(&third));
    assert!(!manager.is_damaged(&first));
    let order = manager.inner().topological_order();
    let place = |id: EntityId| order.iter().position(|x| *x == id).unwrap();
    assert_eq!(order.len(), 3);
    assert!(place(first) < place(third));
    assert!(place(second) < place(third));
}

#[test]
fn entities_on_a_cycle_are_left_out_of_the_order() {
    let mut manager: DMGEntityManager<Resource> = DMGEntityManager::new();
    let first = manager.add_entity(built(instance_resource("I"), 1)).unwrap();
    let second = manager.add_entity(built(instance_resource("J"), 2)).unwrap();
    let third = manager.add_entity(built(instance_resource("K"), 3)).unwrap();
    let free = manager.add_entity(built(instance_resource("L"), 4)).unwrap();
    manager.add_dependency(&first, &second);
    manager.add_dependency(&second, &first);
    manager.add_dependency(&second, &third);
    assert_eq!(manager.inner().topological_order(), vec![free]);
    // Damage still spreads, and comes to an end, on a cycle.
    manager.damage_entity(first);
    assert!(manager.is_damaged(&second));
    assert!(manager.is_damaged(&third));
    assert!(!manager.is_damaged(&free));
}

#[test]
fn handles_and_descriptors_are_replaced_in_place() {
    let mut manager: DMGEntityManager<Resource> = DMGEntityManager::new();
    let instance = manager.add_entity(instance_resource("I")).unwrap();
    assert_eq!(manager.entity_handle_ref(&instance), Some(&None));
    assert!(manager.is_damaged(&instance));
    assert!(manager.update_entity_handle(&instance, Some(ResourceHandle::Instance(InstanceHandle(4)))));
    assert!(!manager.is_damaged(&instance));
    assert!(!manager.update_entity_handle(&EntityId::new(8), None));
    assert_eq!(manager.take_entity_handle(&instance), Some(ResourceHandle::Instance(InstanceHandle(4))));
    assert!(manager.is_damaged(&instance));
    assert_eq!(manager.take_entity_handle(&instance), None);
    manager.fix_entity(&instance);
    assert!(manager.replace_entity_handle(&instance, Some(ResourceHandle::Instance(InstanceHandle(5)))));
    assert!(!manager.is_damaged(&instance));

    let same = ResourceDescriptor::Instance(InstanceDescriptor { label: String::from("I"), backend: BackendBit(1) });
    let previous = manager.update_entity_descriptor(&instance, same).unwrap();
    assert_eq!(previous.kind(), ResourceType::Instance);
    assert!(!manager.is_damaged(&instance));
    let other = ResourceDescriptor::Instance(InstanceDescriptor { label: String::from("I"), backend: BackendBit(2) });
    assert!(manager.update_entity_descriptor(&instance, other).is_some());
    assert!(manager.is_damaged(&instance));
    let stray = ResourceDescriptor::Instance(InstanceDescriptor { label: String::from("I"), backend: BackendBit(2) });
    assert!(manager.update_entity_descriptor(&EntityId::new(8), stray).is_none());
}

#[test]
fn owners_join_once_and_leave_by_position() {
    let mut manager: DMGEntityManager<Resource> = DMGEntityManager::new();
    let instance = manager.add_entity(instance_resource("I")).unwrap();
    manager.add_entity_owner(&instance, task(1));
    manager.add_entity_owner(&instance, task(1));
    manager.add_entity_owner(&instance, task(2));
    assert_eq!(manager.entity_owners(&instance), Some(vec![task(0), task(1), task(2)]));
    assert_eq!(manager.remove_entity_owner(&instance, &task(1)), Some(2));
    assert_eq!(manager.remove_entity_owner(&instance, &task(1)), Some(2));
    assert_eq!(manager.entity_owners(&instance), Some(vec![task(0), task(2)]));
    assert_eq!(manager.remove_entity_owner(&EntityId::new(7), &task(1)), None);
    assert_eq!(manager.entity_owners(&EntityId::new(7)), None);
    manager.add_entity_owner(&EntityId::new(7), task(1));
}

#[test]
fn builder_gathers_the_handles_it_needs() {
    let mut manager = ResourceManager::new();
    let instance = manager
        .add_instance(task(0), InstanceDescriptor { label: String::from("I"), backend: BackendBit(3) }, None)
        .unwrap();
    let descriptor = DeviceDescriptor {
        label: String::from("D"),
        instance,
        backend: BackendBit(3),
        pci_id: 4,
        features: Features(5),
        limits: Limits::standard(),
    };
    let device = manager.add_device(task(0), descriptor.clone(), None).unwrap();
    assert!(matches!(
        DeviceBuilder::new(&manager, device, &descriptor),
        Err(ResourceBuilderError::MissingDependencies)
    ));
    let built = InstanceBuilder::new(&manager, instance, manager.instance_descriptor_ref(&instance).unwrap())
        .unwrap();
    assert_eq!(built.id, instance);
    assert_eq!(built.label, "I");
    assert_eq!(built.backend, BackendBit(3));
    let handle = built.build(|builder: &InstanceBuilder| Some(InstanceHandle(builder.backend.0 as u64)));
    assert_eq!(handle, Some(InstanceHandle(3)));
    manager.update_resource_handle(instance.id_ref(), ResourceHandle::Instance(handle.unwrap()));
    let builder = DeviceBuilder::new(&manager, device, &descriptor).unwrap();
    assert_eq!(builder.instance, InstanceHandle(3));
    assert_eq!(builder.pci_id, 4);
    assert_eq!(builder.features, Features(5));
    assert_eq!(builder.limits, Limits::standard());
    assert_eq!(builder.build(|_builder: &DeviceBuilder| None), None);

    // A handle of another kind does not count.
    let buffer_descriptor = BufferDescriptor {
        label: String::from("B"),
        device: DeviceId::new(instance.id()),
        size: 4,
        usage: BufferUsage(1),
    };
    assert!(BufferBuilder::new(&manager, BufferId::new(EntityId::new(5)), &buffer_descriptor).is_err());
}

#[test]
fn resource_builder_keeps_handles_of_its_kind_only() {
    let mut manager = ResourceManager::new();
    let instance = manager
        .add_instance(task(0), InstanceDescriptor { label: String::from("I"), backend: BackendBit(3) }, None)
        .unwrap();
    let descriptor = manager.resource_descriptor(&wgpu_engine::common::resources::ResourceId::Instance(instance)).unwrap();
    let builder = ResourceBuilder::new(&manager, instance.id(), descriptor).unwrap();
    assert_eq!(builder.kind(), ResourceType::Instance);
    let right = |_: &ResourceBuilder| Some(ResourceHandle::Instance(InstanceHandle(1)));
    let wrong = |_: &ResourceBuilder| Some(ResourceHandle::Buffer(BufferHandle(1)));
    let none = |_: &ResourceBuilder| None;
    assert_eq!(builder.build(&right), Some(ResourceHandle::Instance(InstanceHandle(1))));
    assert_eq!(builder.build(&wrong), None);
    assert_eq!(builder.build(&none), None);
    assert_eq!(ResourceHandle::Buffer(BufferHandle(1)).kind(), ResourceType::Buffer);
}

#[test]
fn render_pipeline_builder_takes_the_depth_format_from_the_view() {
    let mut manager = ResourceManager::new();
    let owner = task(0);
    let instance = manager
        .add_instance(owner, InstanceDescriptor { label: String::from("I"), backend: BackendBit(1) }, Some(InstanceHandle(1)))
        .unwrap();
    let device = manager
        .add_device(
            owner,
            DeviceDescriptor {
                label: String::from("D"),
                instance,
                backend: BackendBit(1),
                pci_id: 0,
                features: Features(0),
                limits: Limits::standard(),
            },
            Some(DeviceHandle(2)),
        )
        .unwrap();
    let texture = manager
        .add_texture(
            owner,
            TextureDescriptor {
                label: String::from("T"),
                device,
                source: TextureSource::Local,
                usage: TextureUsage(16),
                size: Extent3d { width: 4, height: 4, depth_or_array_layers: 1 },
                format: TextureFormat(37),
                dimension: TextureDimension::D2,
                mip_level_count: 1,
                sample_count: 1,
            },
            Some(TextureHandle(3)),
        )
        .unwrap();
    let view = manager
        .add_texture_view(
            owner,
            TextureViewDescriptor {
                label: String::from("V"),
                device,
                texture,
                format: TextureFormat(37),
                dimension: TextureViewDimension::D2,
                aspect: TextureAspect::DepthOnly,
                base_mip_level: 0,
                mip_level_count: None,
                base_array_layer: 0,
                array_layer_count: None,
            },
            Some(TextureViewHandle(4)),
        )
        .unwrap();
    let module = manager
        .add_shader_module(
            owner,
            ShaderModuleDescriptor {
                label: String::from("S"),
                device,
                source: ShaderSource::Wgsl(String::from("fn main() {}")),
                flags: ShaderFlags(1),
            },
            Some(ShaderModuleHandle(5)),
        )
        .unwrap();
    let descriptor = RenderPipelineDescriptor {
        label: String::from("P"),
        device,
        layout: None,
        vertex: VertexState { module, entry_point: String::from("main"), buffers: vec![] },
        primitive: PrimitiveState {
            topology: PrimitiveTopology::TriangleList,
            strip_index_format: None,
            front_face: FrontFace::Ccw,
            cull_mode: None,
            clamp_depth: false,
            polygon_mode: PolygonMode::Fill,
            conservative: false,
        },
        depth_stencil: Some(DepthStencilState {
            id: view,
            depth_write_enabled: true,
            depth_compare: CompareFunction::Less,
            stencil: StencilState { front: stencil_face(), back: stencil_face(), read_mask: 0, write_mask: 0 },
            bias: DepthBiasState { constant: 0, slope_scale_bits: 0, clamp_bits: 0 },
        }),
        multisample: MultisampleState { count: 1, mask: u64::MAX, alpha_to_coverage_enabled: false },
        fragment: None,
    };
    let id = RenderPipelineId::new(EntityId::new(40));
    let builder = RenderPipelineBuilder::new(&manager, id, &descriptor).unwrap();
    let depth = builder.depth_stencil.unwrap();
    assert_eq!(depth.format, TextureFormat(37));
    assert!(depth.depth_write_enabled);
    assert_eq!(depth.depth_compare, CompareFunction::Less);
    assert_eq!(builder.vertex.module, ShaderModuleHandle(5));
    assert_eq!(builder.vertex.entry_point, "main");
    assert_eq!(builder.device, DeviceHandle(2));
    assert!(builder.layout.is_none());
    assert!(builder.fragment.is_none());

    let mut missing = descriptor.clone();
    missing.vertex.module = wgpu_engine::common::resources::ShaderModuleId::new(EntityId::new(60));
    assert!(RenderPipelineBuilder::new(&manager, id, &missing).is_err());
}

#[test]
fn resource_waits_for_its_dependencies_before_it() {
    let id = |n: usize| EntityId::new(n);
    let path = vec![
        (id(4), vec![]),
        (id(2), vec![id(4), id(9)]),
        (id(7), vec![id(1)]),
        (id(5), vec![id(7), id(4), id(5)]),
    ];
    assert_eq!(awaited(&path, 0), Vec::<usize>::new());
    assert_eq!(awaited(&path, 1), vec![0]);
    assert_eq!(awaited(&path, 2), Vec::<usize>::new());
    assert_eq!(awaited(&path, 3), vec![0, 2]);
}

#[test]
fn resource_is_built_only_after_all_it_waited_for() {
    let outcomes = vec![true, false, true];
    assert!(all_built(&outcomes, &vec![]));
    assert!(all_built(&outcomes, &vec![0, 2]));
    assert!(!all_built(&outcomes, &vec![0, 1]));
    assert!(!all_built(&outcomes, &vec![3]));
}

#[test]
fn entity_without_a_handle_is_damaged_when_it_comes() {
    let mut manager: DMGEntityManager<Resource> = DMGEntityManager::new();
    let instance = manager.add_entity(built(instance_resource("I"), 1)).unwrap();
    assert!(!manager.is_damaged(&instance));
    let device = manager.add_entity(device_resource(instance)).unwrap();
    assert!(manager.is_damaged(&device));
    assert!(!manager.is_damaged(&instance));
    assert_eq!(
        manager.add_entity(device_resource(EntityId::new(9))),
        Err(EntityManagerError::MissingDependencies)
    );
    assert_eq!(manager.entities(), vec![instance, device]);
    assert!(!manager.is_damaged(&EntityId::new(9)));
}

#[test]
fn taking_a_handle_damages_whether_one_was_there_or_not() {
    let mut manager: DMGEntityManager<Resource> = DMGEntityManager::new();
    let instance = manager.add_entity(instance_resource("I")).unwrap();
    let device = manager.add_entity(built(device_resource(instance), 5)).unwrap();
    let buffer = manager.add_entity(built(buffer_resource(device), 6)).unwrap();
    manager.fix_entity(&instance);
    assert!(!manager.is_damaged(&instance));
    // The instance has no handle: taking it still damages what depends on it.
    assert_eq!(manager.take_entity_handle(&instance), None);
    assert_eq!(manager.entity_handle_ref(&instance), Some(&None));
    assert!(manager.is_damaged(&instance));
    assert!(manager.is_damaged(&device));
    assert!(manager.is_damaged(&buffer));
    assert_eq!(manager.take_entity_handle(&device), Some(ResourceHandle::Device(DeviceHandle(5))));
    assert_eq!(manager.take_entity_handle(&device), None);
    // An identifier that names nothing: nothing happens.
    assert_eq!(manager.take_entity_handle(&EntityId::new(9)), None);
    assert!(!manager.is_damaged(&EntityId::new(9)));
    assert_eq!(manager.entities(), vec![instance, device, buffer]);
}

#[test]
fn build_order_follows_dependencies_through_what_is_not_damaged() {
    let mut manager = ResourceManager::new();
    // The buffer comes first, so that the order cannot be that of arrival.
    let instance = manager
        .add_instance(
            task(0),
            InstanceDescriptor { label: String::from("I"), backend: BackendBit(1) },
            Some(InstanceHandle(1)),
        )
        .unwrap();
    let device = manager
        .add_device(
            task(0),
            DeviceDescriptor {
                label: String::from("D"),
                instance,
                backend: BackendBit(1),
                pci_id: 0,
                features: Features(0),
                limits: Limits::standard(),
            },
            Some(DeviceHandle(2)),
        )
        .unwrap();
    let buffer = manager
        .add_buffer(
            task(0),
            BufferDescriptor { label: String::from("B"), device, size: 1, usage: BufferUsage(1) },
            None,
        )
        .unwrap();
    // The instance is damaged, the device between the two is not.
    assert_eq!(manager.take_resource(instance.id_ref()), Some(ResourceHandle::Instance(InstanceHandle(1))));
    assert!(manager.update_resource_handle(device.id_ref(), ResourceHandle::Device(DeviceHandle(2))));
    assert!(manager.is_damaged(instance.id_ref()));
    assert!(!manager.is_damaged(device.id_ref()));
    assert!(manager.is_damaged(buffer.id_ref()));
    let plan = manager.build_order();
    let ids: Vec<EntityId> = plan.iter().map(|entry| entry.0).collect();
    assert_eq!(ids, vec![instance.id(), buffer.id()]);
    assert_eq!(plan[1].1, vec![device.id()]);
}
