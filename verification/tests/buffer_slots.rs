use wgpu_engine::common::backend::BackendBit;
use wgpu_engine::common::backend::BufferUsage;
use wgpu_engine::common::backend::Features;
use wgpu_engine::common::backend::Limits;
use wgpu_engine::common::resources::descriptors::command_buffer::BufferToBufferCopy;
use wgpu_engine::common::resources::descriptors::command_buffer::Command;
use wgpu_engine::common::resources::descriptors::device::DeviceDescriptor;
use wgpu_engine::common::resources::descriptors::instance::InstanceDescriptor;
use wgpu_engine::common::resources::descriptors::ResourceWrite;
use wgpu_engine::common::resources::handles::DeviceHandle;
use wgpu_engine::common::resources::handles::InstanceHandle;
use wgpu_engine::common::resources::DeviceId;
use wgpu_engine::common::tasks::TaskId;
use wgpu_engine::engine::resource_manager::ResourceManager;
use wgpu_engine::entity_manager::update_context::UpdateContext;
use wgpu_engine::entity_manager::EntityId;
use wgpu_engine::utils::buffer_manager::BufferManager;

fn context() -> (UpdateContext, DeviceId) {
    let mut manager = ResourceManager::new();
    let owner = TaskId::new(EntityId::new(0));
    let instance = manager
        .add_instance(
            owner,
            InstanceDescriptor { label: String::from("I"), backend: BackendBit(1) },
            Some(InstanceHandle(1)),
        )
        .unwrap();
    let device = manager
        .add_device(
            owner,
            DeviceDescriptor {
                label: String::from("D"),
                instance,
                backend: BackendBit(1),
                pci_id: 0,
                features: Features(0),
                limits: Limits::standard(),
            },
            Some(DeviceHandle(2)),
        )
        .unwrap();
    (UpdateContext::new(owner, manager, vec![]), device)
}

fn slots(context: &mut UpdateContext, device: DeviceId, capacity: usize) -> BufferManager<&'static str> {
    BufferManager::new(context, String::from("items"), device, capacity, BufferUsage(32), 4).unwrap()
}

#[test]
fn new_buffer_manager_asks_for_its_three_resources() {
    let (mut context, device) = context();
    let manager = slots(&mut context, device, 3);
    assert_eq!(manager.len(), 0);
    assert!(manager.is_empty());
    assert_eq!(manager.size(), 0);
    assert_eq!(manager.capacity(), 3);
    assert_eq!(manager.next_slot(), 0);
    let buffers = context.buffers();
    assert_eq!(buffers.len(), 2);
    assert_eq!(buffers[0], *manager.id());
    let main = context.buffer_descriptor_ref(&buffers[0]).unwrap();
    assert_eq!(main.label, "items buffer");
    assert_eq!(main.size, 12);
    assert_eq!(main.usage, BufferUsage(4 | 8 | 32));
    let support = context.buffer_descriptor_ref(&buffers[1]).unwrap();
    assert_eq!(support.label, "items support buffer");
    assert_eq!(support.size, 4);
    assert_eq!(support.usage, BufferUsage(4 | 8));
    let command_buffers = context.command_buffers();
    assert_eq!(command_buffers.len(), 1);
    assert_eq!(context.command_buffer_descriptor_ref(&command_buffers[0]).unwrap().label, "items command buffer");
}

#[test]
fn buffer_manager_is_refused_for_sizeless_slots_and_unknown_devices() {
    let (mut context, device) = context();
    let sizeless: Option<BufferManager<u8>> =
        BufferManager::new(&mut context, String::from("x"), device, 3, BufferUsage(0), 0);
    assert!(sizeless.is_none());
    let endless: Option<BufferManager<u8>> =
        BufferManager::new(&mut context, String::from("x"), device, usize::MAX, BufferUsage(0), 2);
    assert!(endless.is_none());
    let stray: Option<BufferManager<u8>> = BufferManager::new(
        &mut context,
        String::from("x"),
        DeviceId::new(EntityId::new(50)),
        3,
        BufferUsage(0),
        4,
    );
    assert!(stray.is_none());
    assert!(context.buffers().is_empty());
}

#[test]
fn keys_get_the_first_free_slots() {
    let (mut context, device) = context();
    let mut manager = slots(&mut context, device, 3);
    assert!(manager.request(10, "a", vec![1, 1, 1, 1]));
    assert!(manager.request(20, "b", vec![2, 2]));
    assert_eq!(manager.len(), 2);
    assert_eq!(manager.size(), 8);
    assert_eq!(manager.data_slot(&10), Some(0));
    assert_eq!(manager.data_slot(&20), Some(1));
    assert_eq!(manager.data_slot(&30), None);
    assert_eq!(manager.associated_data(&20), Some(&"b"));
    assert_eq!(manager.associated_data(&30), None);
    assert_eq!(manager.next_slot(), 2);
    assert!(manager.associated_data_mut(&20, |kept| *kept = "c"));
    assert_eq!(manager.associated_data(&20), Some(&"c"));
    assert!(!manager.associated_data_mut(&30, |_kept| panic!("no such key")));
    // A key that is there keeps its slot.
    assert!(manager.request(10, "again", vec![9]));
    assert_eq!(manager.data_slot(&10), Some(0));
    assert_eq!(manager.len(), 2);
    // Data beyond the size of a slot are refused.
    assert!(!manager.request(40, "big", vec![0; 5]));
    assert_eq!(manager.len(), 2);
}

#[test]
fn uploads_carry_the_offset_of_their_slot() {
    let (mut context, device) = context();
    let mut manager = slots(&mut context, device, 3);
    manager.request(10, "a", vec![1, 1, 1, 1]);
    manager.request(20, "b", vec![2, 2, 2, 2]);
    assert!(manager.pending_write_field(&20, 2, vec![7, 7]));
    assert!(!manager.pending_write_field(&20, 3, vec![7, 7]));
    assert!(!manager.pending_write_field(&30, 0, vec![7]));
    assert!(!manager.pending_write_struct(&20, vec![0; 5]));
    let buffer = *manager.id();
    let copies = manager.update(&mut context);
    assert!(copies.is_empty());
    let (_, writes, _) = context.into_parts();
    let seen: Vec<(u64, Vec<u8>)> = writes
        .iter()
        .map(|write| match write {
            ResourceWrite::Buffer(write) => {
                assert_eq!(write.buffer, buffer);
                (write.offset, write.data.clone())
            }
            ResourceWrite::Texture(_) => panic!("only buffers are written"),
        })
        .collect();
    assert_eq!(seen, vec![(0, vec![1, 1, 1, 1]), (4, vec![2, 2, 2, 2]), (6, vec![7, 7])]);
}

#[test]
fn full_buffer_grows_and_is_redescribed() {
    let (mut context, device) = context();
    let mut manager = slots(&mut context, device, 1);
    manager.request(1, "a", vec![1]);
    assert_eq!(manager.capacity(), 1);
    assert!(manager.request(2, "b", vec![2]));
    assert_eq!(manager.capacity(), 33);
    assert_eq!(manager.data_slot(&2), Some(1));
    let buffer = *manager.id();
    assert_eq!(context.buffer_descriptor_ref(&buffer).unwrap().size, 4);
    manager.update(&mut context);
    assert_eq!(context.buffer_descriptor_ref(&buffer).unwrap().size, 132);
    assert!(context.is_damaged(buffer.id_ref()));
    assert_eq!(*manager.id(), buffer);
}

#[test]
fn released_slot_is_filled_from_the_end() {
    let (mut context, device) = context();
    let mut manager = slots(&mut context, device, 4);
    manager.request(10, "a", vec![1]);
    manager.request(20, "b", vec![2]);
    manager.request(30, "c", vec![3]);
    assert_eq!(manager.release_pending(&99), None);
    assert_eq!(manager.release_pending(&10), Some("a"));
    assert_eq!(manager.len(), 2);
    assert_eq!(manager.data_slot(&10), None);
    assert_eq!(manager.data_slot(&30), Some(0));
    assert_eq!(manager.data_slot(&20), Some(1));
    // The last slot leaves without a copy.
    assert_eq!(manager.release_pending(&20), Some("b"));
    assert_eq!(manager.data_slot(&30), Some(0));
    assert_eq!(manager.len(), 1);
    let buffer = *manager.id();
    let buffers = context.buffers();
    let support = buffers[1];
    let copies = manager.update(&mut context);
    assert_eq!(copies.len(), 2);
    let expect = |command: &Command, copy: BufferToBufferCopy| match command {
        Command::BufferToBuffer(found) => {
            assert_eq!(found.src_buffer, copy.src_buffer);
            assert_eq!(found.src_offset, copy.src_offset);
            assert_eq!(found.dst_buffer, copy.dst_buffer);
            assert_eq!(found.dst_offset, copy.dst_offset);
            assert_eq!(found.size, copy.size);
        }
        _ => panic!("a copy was to be recorded"),
    };
    expect(
        &copies[0],
        BufferToBufferCopy { src_buffer: buffer, src_offset: 8, dst_buffer: support, dst_offset: 0, size: 4 },
    );
    expect(
        &copies[1],
        BufferToBufferCopy { src_buffer: support, src_offset: 0, dst_buffer: buffer, dst_offset: 0, size: 4 },
    );
    assert!(manager.update(&mut context).is_empty());
    assert_eq!(manager.release_pending(&30), Some("c"));
    assert!(manager.is_empty());
}

#[test]
fn keys_are_listed_by_slot() {
    let (mut context, device) = context();
    let mut manager = slots(&mut context, device, 4);
    assert!(manager.keys().is_empty());
    assert!(manager.request(10, "a", vec![1, 2, 3, 4]));
    assert!(manager.request(20, "b", vec![5, 6, 7, 8]));
    assert!(manager.request(30, "c", vec![9, 9, 9, 9]));
    assert_eq!(manager.keys(), vec![10, 20, 30]);
    assert_eq!(manager.release_pending(&10), Some("a"));
    assert_eq!(manager.keys(), vec![30, 20]);
    assert_eq!(manager.data_slot(&30), Some(0));
}

#[test]
fn request_is_refused_only_for_data_beyond_a_slot() {
    let (mut context, device) = context();
    let mut manager = slots(&mut context, device, 1);
    assert!(!manager.request(1, "a", vec![0; 5]));
    assert_eq!(manager.len(), 0);
    assert!(manager.request(1, "a", vec![0; 4]));
    // The buffer is full: it grows for the next key.
    assert_eq!(manager.capacity(), 1);
    assert!(manager.request(2, "b", vec![]));
    assert_eq!(manager.capacity(), 33);
    assert_eq!(manager.data_slot(&2), Some(1));
    // A key that is there keeps its slot.
    assert!(manager.request(1, "c", vec![7]));
    assert_eq!(manager.data_slot(&1), Some(0));
    assert_eq!(manager.associated_data(&1), Some(&"c"));
    assert_eq!(manager.capacity(), 33);
}
