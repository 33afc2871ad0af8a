//! A manager of the slots of one buffer: items of one size, each under a
//! key of its owner's choice, packed into the first slots of the buffer.

use vstd::prelude::*;
use crate::common::resources::builders::copy_items;
use std::collections::HashMap;
use crate::common::backend::BufferUsage;
use crate::common::resources::descriptors::buffer::BufferDescriptor;
use crate::common::resources::descriptors::command_buffer::BufferToBufferCopy;
use crate::common::resources::descriptors::command_buffer::BufferWrite;
use crate::common::resources::descriptors::command_buffer::Command;
use crate::common::resources::descriptors::command_buffer::CommandBufferDescriptor;
use crate::common::resources::descriptors::ResourceWrite;
use crate::common::resources::BufferId;
use crate::common::resources::CommandBufferId;
use crate::common::resources::DeviceId;
use crate::common::resources::descriptors::ResourceDescriptor;
use crate::common::resources::descriptors::all_dependencies;
use crate::common::resources::descriptors::HaveDependencies;
use crate::common::resources::ResourceId;
use crate::engine::resource_manager::ResourceManager;
use crate::entity_manager::EntityId;
use crate::entity_manager::update_context::UpdateContext;

verus! {

/// A buffer may be copied from.
pub const COPY_SRC: u32 = 4;

/// A buffer may be copied to.
pub const COPY_DST: u32 = 8;

/// By how many slots a full buffer grows.
pub const GROWTH: usize = 32;

/// `format!`: the two texts, one after the other.
#[verifier::external_body]
fn joined(prefix: &str, suffix: &str) -> (text: String)
    ensures
        text@ == prefix@ + suffix@,
{
    format!("{}{}", prefix, suffix)
}

/// The copy of `length` bytes from `from` in `source` to `to` in `target`.
pub open spec fn copy_command(
    source: BufferId,
    from: int,
    target: BufferId,
    to: int,
    length: int,
) -> BufferToBufferCopy {
    BufferToBufferCopy {
        src_buffer: source,
        src_offset: from as u64,
        dst_buffer: target,
        dst_offset: to as u64,
        size: length as u64,
    }
}

/// The uploads as resource writes, in their order.
pub open spec fn as_resource_writes(writes: Seq<BufferWrite>) -> Seq<ResourceWrite> {
    Seq::new(writes.len(), |i: int| ResourceWrite::Buffer(writes[i]))
}

pub struct BufferManager<A> {
    label: String,
    slot_size: usize,
    device: DeviceId,
    buffer: BufferId,
    descriptor: BufferDescriptor,
    need_rebuild: bool,
    id_map: HashMap<usize, (usize, A)>,
    slots: Vec<usize>,
    command_buffer: CommandBufferId,
    pending_copies: Vec<Command>,
    pending_writes: Vec<BufferWrite>,
    support_buffer: BufferId,
}

impl<A> BufferManager<A> {
    /// For each key, its slot and what is kept with it.
    pub closed spec fn map_spec(&self) -> Map<usize, (usize, A)> {
        self.id_map@
    }

    /// For each slot in use, its key.
    pub closed spec fn slots_spec(&self) -> Seq<usize> {
        self.slots@
    }

    /// The size of a slot, in bytes.
    pub closed spec fn slot_size_spec(&self) -> usize {
        self.slot_size
    }

    /// The size of the buffer that is asked for, in bytes.
    pub closed spec fn buffer_size_spec(&self) -> u64 {
        self.descriptor.size
    }

    /// The buffer of the slots.
    pub closed spec fn buffer_spec(&self) -> BufferId {
        self.buffer
    }

    /// The buffer that a slot passes through when it moves.
    pub closed spec fn support_spec(&self) -> BufferId {
        self.support_buffer
    }

    /// The copies that wait to be recorded.
    pub closed spec fn copies_spec(&self) -> Seq<Command> {
        self.pending_copies@
    }

    /// The uploads that wait to be handed on.
    pub closed spec fn writes_spec(&self) -> Seq<BufferWrite> {
        self.pending_writes@
    }

    /// Whether the buffer has grown since the last update.
    pub closed spec fn grown_spec(&self) -> bool {
        self.need_rebuild
    }

    /// How many slots the buffer holds.
    pub open spec fn capacity_spec(&self) -> int {
        self.buffer_size_spec() as int / self.slot_size_spec() as int
    }

    /// The command buffer that is asked for with the buffers.
    pub closed spec fn command_buffer_spec(&self) -> CommandBufferId {
        self.command_buffer
    }

    /// The size of the buffer once it has grown by `GROWTH` slots, in bytes.
    pub open spec fn grown_size(&self) -> int {
        (self.capacity_spec() + GROWTH) * self.slot_size_spec()
    }

    /// Whether the buffer can grow: the size that it then has can be
    /// counted.
    pub open spec fn can_grow(&self) -> bool {
        self.grown_size() <= u64::MAX && self.grown_size() <= usize::MAX
    }

    /// Whether the key `id` is new and finds no slot free.
    pub open spec fn is_full_for(&self, id: usize) -> bool {
        !self.map_spec().contains_key(id) && self.slots_spec().len() >= self.capacity_spec()
    }

    /// Whether a manager can be made for `capacity` slots of `slot_size`
    /// bytes on `device`: a slot has a size, the size of the buffer can be
    /// counted, and `device` names a resource.
    pub open spec fn can_be_made(
        context: &UpdateContext,
        device: DeviceId,
        capacity: usize,
        slot_size: usize,
    ) -> bool {
        &&& slot_size > 0
        &&& capacity * slot_size <= u64::MAX
        &&& capacity * slot_size <= usize::MAX
        &&& context.manager_spec().contains(device.0)
    }

    /// Whether the context `after` is `before` once the three resources of
    /// the manager were added for the task of the context, one after the
    /// other and each without a handle: the buffer of the slots, which may
    /// be copied from and to and used as `usages` say; the support buffer
    /// of one slot; and a command buffer without commands.
    pub open spec fn asked_of(
        &self,
        before: &UpdateContext,
        after: &UpdateContext,
        label: String,
        device: DeviceId,
        usages: BufferUsage,
    ) -> bool {
        exists|first: ResourceManager, main: BufferDescriptor|
            {
                &&& main.label@ == label@ + " buffer"@
                &&& main.device == device
                &&& main.size == self.buffer_size_spec()
                &&& main.usage.0 == (COPY_SRC | COPY_DST) | usages.0
                &&& #[trigger] first.added(
                    &before.manager_spec(),
                    before.task_spec(),
                    ResourceDescriptor::Buffer(main),
                    None,
                    Ok(ResourceId::Buffer(self.buffer_spec())),
                )
                &&& exists|second: ResourceManager, support: BufferDescriptor|
                    {
                        &&& support.label@ == label@ + " support buffer"@
                        &&& support.device == device
                        &&& support.size == self.slot_size_spec()
                        &&& support.usage.0 == COPY_SRC | COPY_DST
                        &&& #[trigger] second.added(
                            &first,
                            before.task_spec(),
                            ResourceDescriptor::Buffer(support),
                            None,
                            Ok(ResourceId::Buffer(self.support_spec())),
                        )
                        &&& exists|commands: CommandBufferDescriptor|
                            {
                                &&& commands.label@ == label@ + " command buffer"@
                                &&& commands.device == device
                                &&& commands.commands@ == Seq::<Command>::empty()
                                &&& #[trigger] after.manager_spec().added(
                                    &second,
                                    before.task_spec(),
                                    ResourceDescriptor::CommandBuffer(commands),
                                    None,
                                    Ok(ResourceId::CommandBuffer(self.command_buffer_spec())),
                                )
                            }
                    }
            }
    }

    /// The manager's invariant: the slots in use are the first ones, each
    /// under one key and each key in one slot, and the buffer holds them.
    pub closed spec fn wf(&self) -> bool {
        &&& self.slot_size > 0
        &&& self.descriptor.size <= usize::MAX
        &&& self.slots@.len() <= self.descriptor.size as int / self.slot_size as int
        &&& forall|s: int|
            0 <= s < self.slots@.len() ==> self.id_map@.contains_key(#[trigger] self.slots@[s])
                && self.id_map@[self.slots@[s]].0 == s
        &&& forall|k: usize| #[trigger]
            self.id_map@.contains_key(k) ==> self.id_map@[k].0 < self.slots@.len()
                && self.slots@[self.id_map@[k].0 as int] == k
    }

    /// What the invariant says of keys and slots.
    pub proof fn lemma_wf(&self)
        requires
            self.wf(),
        ensures
            self.slot_size_spec() > 0,
            self.slots_spec().len() <= self.capacity_spec(),
            self.slots_spec().no_duplicates(),
            forall|s: int|
                0 <= s < self.slots_spec().len() ==> self.map_spec().contains_key(
                    #[trigger] self.slots_spec()[s],
                ) && self.map_spec()[self.slots_spec()[s]].0 == s,
            forall|k: usize| #[trigger]
                self.map_spec().contains_key(k) ==> self.map_spec()[k].0 < self.slots_spec().len()
                    && self.slots_spec()[self.map_spec()[k].0 as int] == k,
    {
        assert forall|a: int, b: int|
            0 <= a < self.slots@.len() && 0 <= b < self.slots@.len() && a != b implies self.slots@[a]
            != self.slots@[b] by {
            assert(self.id_map@[self.slots@[a]].0 == a);
            assert(self.id_map@[self.slots@[b]].0 == b);
        }
    }

    /// A manager of the slots of a new buffer of `capacity` slots of
    /// `slot_size` bytes each on `device`, which `update_context` adds with
    /// a support buffer of one slot and a command buffer. `None`, and
    /// nothing is added, where a slot has no size, the buffer's size is
    /// beyond what can be counted, or `device` names no resource.
    pub fn new(
        update_context: &mut UpdateContext,
        label: String,
        device: DeviceId,
        capacity: usize,
        usages: BufferUsage,
        slot_size: usize,
    ) -> (manager: Option<Self>)
        requires
            old(update_context).wf(),
        ensures
            final(update_context).wf(),
            final(update_context).kept(old(update_context)),
            manager is Some <==> Self::can_be_made(old(update_context), device, capacity, slot_size),
            manager is None ==> final(update_context).manager_spec()@ == old(
                update_context,
            ).manager_spec()@ && final(update_context).manager_spec().damaged_spec() == old(
                update_context,
            ).manager_spec().damaged_spec(),
            manager matches Some(m) ==> {
                &&& m.wf()
                &&& m.slot_size_spec() == slot_size
                &&& m.buffer_size_spec() == capacity * slot_size
                &&& m.capacity_spec() == capacity
                &&& m.slots_spec() == Seq::<usize>::empty()
                &&& m.map_spec() == Map::<usize, (usize, A)>::empty()
                &&& m.copies_spec() == Seq::<Command>::empty()
                &&& m.writes_spec() == Seq::<BufferWrite>::empty()
                &&& !m.grown_spec()
                &&& m.asked_of(old(update_context), final(update_context), label, device, usages)
            },
    {
        if slot_size == 0 {
            return None;
        }
        let bytes = match capacity.checked_mul(slot_size) {
            Some(bytes) => bytes,
            None => {
                return None;
            },
        };
        if bytes as u128 > u64::MAX as u128 {
            return None;
        }
        let usage = BufferUsage(COPY_SRC).union(BufferUsage(COPY_DST)).union(usages);
        let descriptor = BufferDescriptor {
            label: joined(label.as_str(), " buffer"),
            device,
            size: bytes as u64,
            usage,
        };
        let requested = BufferDescriptor {
            label: descriptor.label.clone(),
            device,
            size: bytes as u64,
            usage,
        };
        let ghost main = requested;
        proof {
            assert(ResourceDescriptor::Buffer(requested).dependencies_spec() =~= seq![device.0]);
            assert(ResourceDescriptor::Buffer(requested).dependencies_spec()[0] == device.0);
        }
        let buffer = match update_context.add_buffer_descriptor(requested) {
            Ok(buffer) => buffer,
            Err(_) => {
                return None;
            },
        };
        let ghost first = update_context.manager_spec();
        assert(first.contains(device.0));
        let support_buffer_descriptor = BufferDescriptor {
            label: joined(label.as_str(), " support buffer"),
            device,
            size: slot_size as u64,
            usage: BufferUsage(COPY_SRC).union(BufferUsage(COPY_DST)),
        };
        let ghost support = support_buffer_descriptor;
        proof {
            assert(ResourceDescriptor::Buffer(support).dependencies_spec() =~= seq![device.0]);
            assert(first.dependencies_known(ResourceDescriptor::Buffer(support)));
        }
        let support_buffer = match update_context.add_buffer_descriptor(support_buffer_descriptor) {
            Ok(buffer) => buffer,
            Err(_) => {
                assert(false);
                return None;
            },
        };
        let ghost second = update_context.manager_spec();
        assert(second.contains(device.0));
        let command_buffer_descriptor = CommandBufferDescriptor {
            label: joined(label.as_str(), " command buffer"),
            device,
            commands: Vec::new(),
        };
        let ghost commands = command_buffer_descriptor;
        proof {
            assert(all_dependencies(commands.commands@) =~= Seq::<EntityId>::empty());
            assert(ResourceDescriptor::CommandBuffer(commands).dependencies_spec() =~= seq![
                device.0,
            ]);
            assert(second.dependencies_known(ResourceDescriptor::CommandBuffer(commands)));
        }
        let command_buffer = match update_context.add_command_buffer_descriptor(
            command_buffer_descriptor,
        ) {
            Ok(command_buffer) => command_buffer,
            Err(_) => {
                assert(false);
                return None;
            },
        };
        proof {
            assert(capacity * slot_size / slot_size as int == capacity) by (nonlinear_arith)
                requires
                    slot_size > 0,
            ;
        }
        let ghost name = label;
        let made = Self {
            label,
            slot_size,
            device,
            buffer,
            descriptor,
            need_rebuild: false,
            id_map: HashMap::new(),
            slots: Vec::new(),
            command_buffer,
            pending_copies: Vec::new(),
            pending_writes: Vec::new(),
            support_buffer,
        };
        proof {
            let task = old(update_context).task_spec();
            assert(exists|listed: CommandBufferDescriptor|
                {
                    &&& listed.label@ == name@ + " command buffer"@
                    &&& listed.device == device
                    &&& listed.commands@ == Seq::<Command>::empty()
                    &&& #[trigger] update_context.manager_spec().added(
                        &second,
                        task,
                        ResourceDescriptor::CommandBuffer(listed),
                        None,
                        Ok(ResourceId::CommandBuffer(made.command_buffer_spec())),
                    )
                }) by {
                assert(update_context.manager_spec().added(
                    &second,
                    task,
                    ResourceDescriptor::CommandBuffer(commands),
                    None,
                    Ok(ResourceId::CommandBuffer(made.command_buffer_spec())),
                ));
            }
            assert(second.added(
                &first,
                task,
                ResourceDescriptor::Buffer(support),
                None,
                Ok(ResourceId::Buffer(made.support_spec())),
            ));
            assert(first.added(
                &old(update_context).manager_spec(),
                task,
                ResourceDescriptor::Buffer(main),
                None,
                Ok(ResourceId::Buffer(made.buffer_spec())),
            ));
            assert(main.size == made.buffer_size_spec());
            assert(support.size == made.slot_size_spec());
            assert(made.asked_of(old(update_context), &*update_context, name, device, usages));
        }
        Some(made)
    }

    pub fn id(&self) -> (buffer: &BufferId)
        ensures
            *buffer == self.buffer_spec(),
    {
        &self.buffer
    }

    /// How many slots are in use.
    pub fn len(&self) -> (length: usize)
        ensures
            length == self.slots_spec().len(),
    {
        self.slots.len()
    }

    pub fn is_empty(&self) -> (empty: bool)
        ensures
            empty == (self.slots_spec().len() == 0),
    {
        self.slots.len() == 0
    }

    /// How many bytes the slots in use take.
    pub fn size(&self) -> (bytes: usize)
        requires
            self.wf(),
        ensures
            bytes == self.slots_spec().len() * self.slot_size_spec(),
    {
        proof {
            self.lemma_slots_fit(self.slots@.len() as int);
        }
        self.slots.len() * self.slot_size
    }

    /// How many slots the buffer holds.
    pub fn capacity(&self) -> (slots: usize)
        requires
            self.wf(),
        ensures
            slots == self.capacity_spec(),
    {
        self.descriptor.size as usize / self.slot_size
    }

    /// The slot that the next new key gets.
    pub fn next_slot(&self) -> (slot: usize)
        ensures
            slot == self.slots_spec().len(),
    {
        self.len()
    }

    /// The first `count` slots lie within the buffer.
    proof fn lemma_slots_fit(&self, count: int)
        requires
            self.wf(),
            0 <= count <= self.slots@.len(),
        ensures
            count * self.slot_size <= self.descriptor.size,
            count * self.slot_size <= usize::MAX,
    {
        let capacity = self.descriptor.size as int / self.slot_size as int;
        assert(capacity * self.slot_size <= self.descriptor.size) by (nonlinear_arith)
            requires
                capacity == self.descriptor.size as int / self.slot_size as int,
                self.slot_size > 0,
        ;
        assert(count * self.slot_size <= capacity * self.slot_size) by (nonlinear_arith)
            requires
                0 <= count <= capacity,
                self.slot_size > 0,
        ;
    }

    /// The keys in use, each at the place of its slot.
    pub fn keys(&self) -> (keys: Vec<usize>)
        ensures
            keys@ == self.slots_spec(),
    {
        copy_items(&self.slots)
    }

    /// The slot of the key `buffer_index`.
    pub fn data_slot(&self, buffer_index: &usize) -> (slot: Option<usize>)
        ensures
            slot == if self.map_spec().contains_key(*buffer_index) {
                Some(self.map_spec()[*buffer_index].0)
            } else {
                None
            },
    {
        match self.id_map.get(buffer_index) {
            Some(entry) => Some(entry.0),
            None => None,
        }
    }

    /// What is kept with the key `buffer_index`.
    pub fn associated_data(&self, buffer_index: &usize) -> (data: Option<&A>)
        ensures
            match data {
                Some(kept) => self.map_spec().contains_key(*buffer_index)
                    && self.map_spec()[*buffer_index].1 == *kept,
                None => !self.map_spec().contains_key(*buffer_index),
            },
    {
        match self.id_map.get(buffer_index) {
            Some(entry) => Some(&entry.1),
            None => None,
        }
    }

    /// Have `change` work on what is kept with the key `buffer_index`. Tells
    /// whether the key is there; `change` is not called otherwise.
    pub fn associated_data_mut<F: FnOnce(&mut A)>(&mut self, buffer_index: &usize, change: F) -> (found:
        bool)
        requires
            old(self).wf(),
            forall|kept: &mut A| call_requires(change, (kept,)),
        ensures
            final(self).wf(),
            found == old(self).map_spec().contains_key(*buffer_index),
            !found ==> final(self).map_spec() == old(self).map_spec(),
            found ==> exists|kept: &mut A|
                {
                    &&& *kept == old(self).map_spec()[*buffer_index].1
                    &&& #[trigger] call_ensures(change, (kept,), ())
                    &&& final(self).map_spec() == old(self).map_spec().insert(
                        *buffer_index,
                        (old(self).map_spec()[*buffer_index].0, *final(kept)),
                    )
                },
            final(self).slots_spec() == old(self).slots_spec(),
            final(self).copies_spec() == old(self).copies_spec(),
            final(self).writes_spec() == old(self).writes_spec(),
            final(self).buffer_size_spec() == old(self).buffer_size_spec(),
            final(self).slot_size_spec() == old(self).slot_size_spec(),
    {
        match self.id_map.remove(buffer_index) {
            Some(entry) => {
                let (slot, mut kept) = entry;
                let ghost first = kept;
                change(&mut kept);
                let ghost last = kept;
                self.id_map.insert(*buffer_index, (slot, kept));
                proof {
                    assert(exists|inner: &mut A|
                        {
                            &&& *inner == first
                            &&& #[trigger] call_ensures(change, (inner,), ())
                            &&& *final(inner) == last
                        });
                    assert(self.id_map@ =~= old(self).id_map@.insert(*buffer_index, (slot, last)));
                }
                true
            },
            None => {
                assert(self.id_map@ =~= old(self).id_map@);
                false
            },
        }
    }

    /// The upload of `data` to the slot of the key `buffer_index`, `offset`
    /// bytes into the slot, waits to be handed on. Nothing happens, and
    /// `false` comes back, where the key is not there or the data do not fit
    /// into the slot.
    pub fn pending_write_field(&mut self, buffer_index: &usize, offset: usize, data: Vec<u8>) -> (
    written: bool)
        requires
            old(self).wf(),
        ensures
            final(self).wf(),
            written == (old(self).map_spec().contains_key(*buffer_index) && offset + data@.len()
                <= old(self).slot_size_spec()),
            final(self).map_spec() == old(self).map_spec(),
            final(self).slots_spec() == old(self).slots_spec(),
            final(self).copies_spec() == old(self).copies_spec(),
            final(self).buffer_size_spec() == old(self).buffer_size_spec(),
            final(self).slot_size_spec() == old(self).slot_size_spec(),
            final(self).grown_spec() == old(self).grown_spec(),
            final(self).buffer_spec() == old(self).buffer_spec(),
            final(self).writes_spec() == if written {
                old(self).writes_spec().push(
                    BufferWrite {
                        buffer: old(self).buffer_spec(),
                        offset: (old(self).map_spec()[*buffer_index].0 * old(self).slot_size_spec()
                            + offset) as u64,
                        data,
                    },
                )
            } else {
                old(self).writes_spec()
            },
    {
        let slot = match self.id_map.get(buffer_index) {
            Some(entry) => entry.0,
            None => {
                return false;
            },
        };
        let length = data.len();
        let fits = match offset.checked_add(length) {
            Some(end) => end <= self.slot_size,
            None => false,
        };
        if fits {
            proof {
                self.lemma_slots_fit(slot + 1);
                assert((slot + 1) * self.slot_size == slot * self.slot_size + self.slot_size)
                    by (nonlinear_arith);
            }
            let write = BufferWrite {
                buffer: self.buffer,
                offset: (slot * self.slot_size + offset) as u64,
                data,
            };
            self.pending_writes.push(write);
            true
        } else {
            false
        }
    }

    /// The upload of `data` to the start of the slot of the key
    /// `buffer_index` waits to be handed on: see `pending_write_field`.
    pub fn pending_write_struct(&mut self, buffer_index: &usize, data: Vec<u8>) -> (written: bool)
        requires
            old(self).wf(),
        ensures
            final(self).wf(),
            written == (old(self).map_spec().contains_key(*buffer_index) && data@.len() <= old(
                self,
            ).slot_size_spec()),
            final(self).map_spec() == old(self).map_spec(),
            final(self).slots_spec() == old(self).slots_spec(),
            final(self).copies_spec() == old(self).copies_spec(),
            final(self).buffer_size_spec() == old(self).buffer_size_spec(),
            final(self).slot_size_spec() == old(self).slot_size_spec(),
            final(self).grown_spec() == old(self).grown_spec(),
            final(self).buffer_spec() == old(self).buffer_spec(),
            final(self).writes_spec() == if written {
                old(self).writes_spec().push(
                    BufferWrite {
                        buffer: old(self).buffer_spec(),
                        offset: (old(self).map_spec()[*buffer_index].0 * old(
                            self,
                        ).slot_size_spec()) as u64,
                        data,
                    },
                )
            } else {
                old(self).writes_spec()
            },
    {
        self.pending_write_field(buffer_index, 0, data)
    }

    /// The buffer grows by `GROWTH` slots, where the size that it then has
    /// can still be counted; tells whether it has grown.
    fn extend(&mut self) -> (grown: bool)
        requires
            old(self).wf(),
        ensures
            final(self).wf(),
            final(self).map_spec() == old(self).map_spec(),
            final(self).slots_spec() == old(self).slots_spec(),
            final(self).copies_spec() == old(self).copies_spec(),
            final(self).writes_spec() == old(self).writes_spec(),
            final(self).slot_size_spec() == old(self).slot_size_spec(),
            final(self).buffer_spec() == old(self).buffer_spec(),
            grown == old(self).can_grow(),
            grown ==> final(self).buffer_size_spec() == old(self).grown_size(),
            grown ==> final(self).capacity_spec() == old(self).capacity_spec() + GROWTH
                && final(self).grown_spec(),
            !grown ==> final(self).buffer_size_spec() == old(self).buffer_size_spec()
                && final(self).grown_spec() == old(self).grown_spec(),
    {
        let capacity = self.descriptor.size as usize / self.slot_size;
        let new_capacity = match capacity.checked_add(GROWTH) {
            Some(slots) => slots,
            None => {
                proof {
                    assert((capacity + GROWTH) * self.slot_size >= capacity + GROWTH)
                        by (nonlinear_arith)
                        requires
                            self.slot_size >= 1,
                            capacity + GROWTH >= 0,
                    ;
                }
                return false;
            },
        };
        let bytes = match new_capacity.checked_mul(self.slot_size) {
            Some(bytes) => bytes,
            None => {
                return false;
            },
        };
        if bytes as u128 > u64::MAX as u128 {
            return false;
        }
        proof {
            assert(new_capacity * self.slot_size / self.slot_size as int == new_capacity)
                by (nonlinear_arith)
                requires
                    self.slot_size > 0,
            ;
        }
        self.descriptor.size = bytes as u64;
        self.need_rebuild = true;
        true
    }

    /// The key `id` gets the next slot, with `auxiliary_data` kept with it,
    /// and the upload of `data` to its slot waits to be handed on; a full
    /// buffer grows first. A key that is there keeps its slot. `false`, and
    /// no change to keys and slots, where the buffer cannot grow or the data
    /// do not fit into a slot.
    pub fn request(&mut self, id: usize, auxiliary_data: A, data: Vec<u8>) -> (done: bool)
        requires
            old(self).wf(),
        ensures
            final(self).wf(),
            final(self).slot_size_spec() == old(self).slot_size_spec(),
            final(self).copies_spec() == old(self).copies_spec(),
            final(self).buffer_spec() == old(self).buffer_spec(),
            done == (data@.len() <= old(self).slot_size_spec() && (!old(self).is_full_for(id)
                || old(self).can_grow())),
            final(self).buffer_size_spec() == if done && old(self).is_full_for(id) {
                old(self).grown_size()
            } else {
                old(self).buffer_size_spec() as int
            },
            final(self).grown_spec() == (old(self).grown_spec() || (done && old(self).is_full_for(
                id,
            ))),
            done ==> data@.len() <= old(self).slot_size_spec(),
            done ==> final(self).map_spec() == old(self).map_spec().insert(
                id,
                (
                    if old(self).map_spec().contains_key(id) {
                        old(self).map_spec()[id].0
                    } else {
                        old(self).slots_spec().len() as usize
                    },
                    auxiliary_data,
                ),
            ),
            done ==> final(self).slots_spec() == if old(self).map_spec().contains_key(id) {
                old(self).slots_spec()
            } else {
                old(self).slots_spec().push(id)
            },
            done ==> final(self).writes_spec() == old(self).writes_spec().push(
                BufferWrite {
                    buffer: old(self).buffer_spec(),
                    offset: (final(self).map_spec()[id].0 * old(self).slot_size_spec()) as u64,
                    data,
                },
            ),
            !done ==> final(self).map_spec() == old(self).map_spec() && final(self).slots_spec()
                == old(self).slots_spec() && final(self).writes_spec() == old(self).writes_spec(),
    {
        if data.len() > self.slot_size {
            return false;
        }
        let known = match self.id_map.get(&id) {
            Some(entry) => Some(entry.0),
            None => None,
        };
        let slot_id = match known {
            Some(slot) => slot,
            None => {
                let slot_id = self.slots.len();
                if slot_id >= self.descriptor.size as usize / self.slot_size {
                    if !self.extend() {
                        return false;
                    }
                }
                self.slots.push(id);
                slot_id
            },
        };
        self.id_map.insert(id, (slot_id, auxiliary_data));
        proof {
            assert forall|s: int| 0 <= s < self.slots@.len() implies self.id_map@.contains_key(
                #[trigger] self.slots@[s],
            ) && self.id_map@[self.slots@[s]].0 == s by {
                if s < old(self).slots@.len() {
                    assert(self.slots@[s] == old(self).slots@[s]);
                }
            }
            assert forall|k: usize| #[trigger] self.id_map@.contains_key(k) implies self.id_map@[k].0
                < self.slots@.len() && self.slots@[self.id_map@[k].0 as int] == k by {
                if k != id {
                    assert(old(self).id_map@.contains_key(k));
                }
            }
        }
        let written = self.pending_write_struct(&id, data);
        assert(written);
        true
    }

    /// The key `buffer_index` leaves, and what was kept with it is handed
    /// back. The last slot moves into its slot, unless it was the last: the
    /// two copies that move it, through the support buffer, wait to be
    /// recorded. `None`, and no change, where the key is not there.
    pub fn release_pending(&mut self, buffer_index: &usize) -> (released: Option<A>)
        requires
            old(self).wf(),
        ensures
            final(self).wf(),
            final(self).slot_size_spec() == old(self).slot_size_spec(),
            final(self).buffer_size_spec() == old(self).buffer_size_spec(),
            final(self).writes_spec() == old(self).writes_spec(),
            match released {
                None => {
                    &&& !old(self).map_spec().contains_key(*buffer_index)
                    &&& final(self).map_spec() == old(self).map_spec()
                    &&& final(self).slots_spec() == old(self).slots_spec()
                    &&& final(self).copies_spec() == old(self).copies_spec()
                },
                Some(kept) => {
                    let slot = old(self).map_spec()[*buffer_index].0;
                    let last = old(self).slots_spec().len() - 1;
                    let moved = old(self).slots_spec()[last];
                    &&& old(self).map_spec().contains_key(*buffer_index)
                    &&& kept == old(self).map_spec()[*buffer_index].1
                    &&& final(self).slots_spec().len() == last
                    &&& slot == last ==> {
                        &&& final(self).map_spec() == old(self).map_spec().remove(*buffer_index)
                        &&& final(self).slots_spec() == old(self).slots_spec().drop_last()
                        &&& final(self).copies_spec() == old(self).copies_spec()
                    }
                    &&& slot != last ==> {
                        &&& final(self).map_spec() == old(self).map_spec().remove(
                            *buffer_index,
                        ).insert(moved, (slot, old(self).map_spec()[moved].1))
                        &&& final(self).slots_spec() == old(self).slots_spec().update(
                            slot as int,
                            moved,
                        ).drop_last()
                        &&& final(self).copies_spec() == old(self).copies_spec().push(
                            Command::BufferToBuffer(
                                copy_command(
                                    old(self).buffer_spec(),
                                    last * old(self).slot_size_spec(),
                                    old(self).support_spec(),
                                    0,
                                    old(self).slot_size_spec() as int,
                                ),
                            ),
                        ).push(
                            Command::BufferToBuffer(
                                copy_command(
                                    old(self).support_spec(),
                                    0,
                                    old(self).buffer_spec(),
                                    slot * old(self).slot_size_spec(),
                                    old(self).slot_size_spec() as int,
                                ),
                            ),
                        )
                    }
                },
            },
    {
        let removed_element = match self.id_map.remove(buffer_index) {
            Some(removed_element) => removed_element,
            None => {
                assert(self.id_map@ =~= old(self).id_map@);
                return None;
            },
        };
        let removed_slot = removed_element.0;
        let last_slot = self.slots.len() - 1;
        proof {
            old(self).lemma_slots_fit(old(self).slots@.len() as int);
            old(self).lemma_slots_fit(removed_slot as int);
            old(self).lemma_slots_fit(last_slot as int);
        }
        if removed_slot == last_slot {
            self.slots.pop();
            proof {
                assert(self.slots@ =~= old(self).slots@.drop_last());
                assert forall|k: usize| #[trigger] self.id_map@.contains_key(k) implies self.id_map@[k].0
                    < self.slots@.len() && self.slots@[self.id_map@[k].0 as int] == k by {
                    assert(old(self).id_map@.contains_key(k));
                    assert(old(self).id_map@[k].0 != last_slot);
                }
            }
            Some(removed_element.1)
        } else {
            let moved = self.slots[last_slot];
            assert(old(self).id_map@.contains_key(moved) && old(self).id_map@[moved].0 == last_slot);
            let entry = self.id_map.remove(&moved);
            match entry {
                Some(entry) => {
                    self.id_map.insert(moved, (removed_slot, entry.1));
                },
                None => {
                    assert(false);
                },
            }
            self.slots.set(removed_slot, moved);
            self.slots.pop();
            let size = self.slot_size as u64;
            self.pending_copies.push(
                Command::BufferToBuffer(
                    BufferToBufferCopy {
                        src_buffer: self.buffer,
                        src_offset: (last_slot * self.slot_size) as u64,
                        dst_buffer: self.support_buffer,
                        dst_offset: 0,
                        size,
                    },
                ),
            );
            self.pending_copies.push(
                Command::BufferToBuffer(
                    BufferToBufferCopy {
                        src_buffer: self.support_buffer,
                        src_offset: 0,
                        dst_buffer: self.buffer,
                        dst_offset: (removed_slot * self.slot_size) as u64,
                        size,
                    },
                ),
            );
            proof {
                assert(self.id_map@ =~= old(self).id_map@.remove(*buffer_index).insert(
                    moved,
                    (removed_slot, old(self).id_map@[moved].1),
                ));
                assert(self.slots@ =~= old(self).slots@.update(removed_slot as int, moved).drop_last());
                assert forall|s: int| 0 <= s < self.slots@.len() implies self.id_map@.contains_key(
                    #[trigger] self.slots@[s],
                ) && self.id_map@[self.slots@[s]].0 == s by {
                    if s != removed_slot {
                        assert(self.slots@[s] == old(self).slots@[s]);
                        assert(old(self).id_map@[old(self).slots@[s]].0 == s);
                    }
                }
                assert forall|k: usize| #[trigger] self.id_map@.contains_key(k) implies self.id_map@[k].0
                    < self.slots@.len() && self.slots@[self.id_map@[k].0 as int] == k by {
                    if k != moved {
                        assert(old(self).id_map@.contains_key(k));
                        assert(old(self).id_map@[k].0 != last_slot);
                        assert(old(self).id_map@[k].0 != removed_slot);
                    }
                }
            }
            Some(removed_element.1)
        }
    }

    /// Bring the resources up to date: where the buffer has grown, its
    /// descriptor is updated; the uploads that wait are handed on to
    /// `update_context`; and the copies that wait are handed back, to be
    /// recorded.
    pub fn update(&mut self, update_context: &mut UpdateContext) -> (copies: Vec<Command>)
        requires
            old(self).wf(),
            old(update_context).wf(),
        ensures
            final(self).wf(),
            final(update_context).wf(),
            copies@ == old(self).copies_spec(),
            final(self).copies_spec() == Seq::<Command>::empty(),
            final(self).writes_spec() == Seq::<BufferWrite>::empty(),
            !final(self).grown_spec(),
            final(self).map_spec() == old(self).map_spec(),
            final(self).slots_spec() == old(self).slots_spec(),
            final(self).slot_size_spec() == old(self).slot_size_spec(),
            final(self).buffer_size_spec() == old(self).buffer_size_spec(),
            final(update_context).task_spec() == old(update_context).task_spec(),
            final(update_context).events_spec() == old(update_context).events_spec(),
            final(update_context).writes_spec() == old(update_context).writes_spec()
                + as_resource_writes(old(self).writes_spec()),
    {
        if self.need_rebuild {
            let descriptor = BufferDescriptor {
                label: self.descriptor.label.clone(),
                device: self.descriptor.device,
                size: self.descriptor.size,
                usage: self.descriptor.usage,
            };
            update_context.update_buffer_descriptor(&mut self.buffer, descriptor);
            self.need_rebuild = false;
        }
        let ghost waiting = self.pending_writes@;
        let mut taken: Vec<BufferWrite> = Vec::new();
        std::mem::swap(&mut self.pending_writes, &mut taken);
        let mut reversed: Vec<BufferWrite> = Vec::new();
        while taken.len() > 0
            invariant
                reversed@.len() + taken@.len() == waiting.len(),
                forall|i: int| 0 <= i < taken@.len() ==> taken@[i] == waiting[i],
                forall|i: int|
                    0 <= i < reversed@.len() ==> reversed@[i] == waiting[waiting.len() - 1 - i],
            decreases taken@.len(),
        {
            let write = taken.pop().unwrap();
            reversed.push(write);
        }
        let mut writes: Vec<ResourceWrite> = Vec::new();
        while reversed.len() > 0
            invariant
                writes@.len() + reversed@.len() == waiting.len(),
                forall|i: int|
                    0 <= i < reversed@.len() ==> reversed@[i] == waiting[waiting.len() - 1 - i],
                forall|i: int| 0 <= i < writes@.len() ==> writes@[i] == ResourceWrite::Buffer(waiting[i]),
            decreases reversed@.len(),
        {
            let write = reversed.pop().unwrap();
            writes.push(ResourceWrite::Buffer(write));
        }
        assert(writes@ =~= as_resource_writes(waiting));
        update_context.write_resource(&mut writes);
        let mut copies: Vec<Command> = Vec::new();
        std::mem::swap(&mut self.pending_copies, &mut copies);
        copies
    }
}

} // verus!
