use wgpu_engine::common::backend::BufferUsage;
use wgpu_engine::common::backend::Features;
use wgpu_engine::common::backend::Limits;
use wgpu_engine::common::requirements::Requirements;
use wgpu_engine::common::resources::descriptors::command_buffer::ColorView;
use wgpu_engine::common::resources::descriptors::command_buffer::Command;
use wgpu_engine::common::resources::descriptors::command_buffer::CommandBufferDescriptor;
use wgpu_engine::common::resources::descriptors::command_buffer::RenderPassColorAttachment;
use wgpu_engine::common::resources::descriptors::command_buffer::BufferToBufferCopy;
use wgpu_engine::common::resources::descriptors::buffer::BufferDescriptor;
use wgpu_engine::common::resources::descriptors::Equivalent;
use wgpu_engine::common::resources::descriptors::HaveDependencies;
use wgpu_engine::common::resources::descriptors::HaveDescriptor;
use wgpu_engine::common::resources::descriptors::StateType;
use wgpu_engine::common::resources::descriptors::render_pipeline::VertexBufferLayout;
use wgpu_engine::common::resources::builders::VertexBufferLayoutBuilder;
use wgpu_engine::common::backend::Color;
use wgpu_engine::common::backend::InputStepMode;
use wgpu_engine::common::backend::LoadOp;
use wgpu_engine::common::backend::Operations;
use wgpu_engine::common::backend::VertexAttribute;
use wgpu_engine::common::backend::VertexFormat;
use wgpu_engine::common::resources::BufferId;
use wgpu_engine::common::resources::DeviceId;
use wgpu_engine::common::resources::ResourceId;
use wgpu_engine::common::resources::ResourceType;
use wgpu_engine::common::resources::SwapchainId;
use wgpu_engine::common::resources::TextureViewId;
use wgpu_engine::common::Area2D;
use wgpu_engine::common::Extent2D;
use wgpu_engine::common::Offset2D;
use wgpu_engine::entity_manager::EntityId;

fn ops() -> Operations {
    Operations { load: LoadOp::Load, store: false }
}

fn attachment(view: ColorView) -> RenderPassColorAttachment {
    RenderPassColorAttachment { view, resolve_target: None, ops: ops() }
}

fn pass(depth_stencil: Option<TextureViewId>, views: Vec<ColorView>) -> Command {
    Command::RenderPass {
        label: String::from("p"),
        depth_stencil,
        color_attachments: views.into_iter().map(attachment).collect(),
        commands: vec![],
    }
}

fn copy() -> Command {
    Command::BufferToBuffer(BufferToBufferCopy {
        src_buffer: BufferId::new(EntityId::new(1)),
        src_offset: 0,
        dst_buffer: BufferId::new(EntityId::new(2)),
        dst_offset: 4,
        size: 4,
    })
}

#[test]
fn entity_id_keeps_its_index() {
    assert_eq!(EntityId::new(17).id(), 17);
    let mut id = BufferId::new(EntityId::new(3));
    assert_eq!(id.id(), EntityId::new(3));
    assert_eq!(id.id_ref(), &EntityId::new(3));
    *id.id_mut() = EntityId::new(4);
    assert_eq!(id, BufferId::new(EntityId::new(4)));
}

#[test]
fn resource_id_knows_kind_and_entity() {
    let id = ResourceId::typed(ResourceType::Sampler, EntityId::new(6));
    assert_eq!(id.kind(), ResourceType::Sampler);
    assert_eq!(id.entity_id(), EntityId::new(6));
    assert_eq!(ResourceType::Instance.index(), 0);
    assert_eq!(ResourceType::CommandBuffer.index(), 13);
}

#[test]
fn requirements_take_the_later_limits() {
    let mut low = Limits::standard();
    low.max_bind_groups = 2;
    let mut high = Limits::standard();
    high.max_bind_groups = 8;
    high.max_texture_array_layers = 1;
    // The earlier limit decides: `high` asks for fewer array layers.
    let mut requirements = Requirements::from_parts((Features(0b0101), low));
    requirements.add((Features(0b0011), high));
    assert_eq!(requirements.0, Features(0b0111));
    assert_eq!(requirements.1, low);

    let mut more = Limits::standard();
    more.max_push_constant_size = 128;
    requirements.add((Features(0), more));
    assert_eq!(requirements.1, more);
    assert_eq!(requirements.into_parts(), (Features(0b0111), more));

    assert!(more.comes_after(&Limits::standard()));
    assert!(!Limits::standard().comes_after(&Limits::standard()));
    assert_eq!(low.max(low), low);
}

#[test]
fn default_requirements_ask_for_the_standard_limits() {
    let requirements = Requirements::default();
    assert_eq!(requirements.0, Features::empty());
    assert_eq!(requirements.1.max_texture_dimension_2d, 8192);
    assert_eq!(requirements.1.max_storage_buffer_binding_size, 134217728);
    assert_eq!(requirements.1.max_push_constant_size, 0);
    assert_eq!(requirements.1.max_uniform_buffers_per_shader_stage, 12);
}

#[test]
fn flags_are_joined_bit_by_bit() {
    assert_eq!(BufferUsage(4).union(BufferUsage(12)), BufferUsage(12));
    assert_eq!(Features(1).union(Features(6)), Features(7));
    assert_eq!(Features::empty().union(Features(6)), Features(6));
}

#[test]
fn areas_are_made_from_tuples() {
    assert_eq!(Offset2D::from((1, 2)), Offset2D { x: 1, y: 2 });
    assert_eq!(Extent2D::from((3, 4)), Extent2D { width: 3, height: 4 });
    let area = Area2D::from((1, 2, 3, 4));
    assert_eq!(area.offset, Offset2D { x: 1, y: 2 });
    assert_eq!(area.extent, Extent2D { width: 3, height: 4 });
    assert_eq!(Area2D::from(((1, 2), Extent2D { width: 3, height: 4 })), area);
    assert_eq!(Area2D::from((Offset2D { x: 1, y: 2 }, (3, 4))), area);
    assert_eq!(Area2D::from((Offset2D { x: 1, y: 2 }, Extent2D { width: 3, height: 4 })), area);
}

#[test]
fn command_swapchain_is_the_first_among_the_attachments() {
    let s1 = SwapchainId::new(EntityId::new(1));
    let s2 = SwapchainId::new(EntityId::new(2));
    let view = TextureViewId::new(EntityId::new(3));
    let depth = TextureViewId::new(EntityId::new(4));
    let command = pass(Some(depth), vec![ColorView::TextureView(view), ColorView::Swapchain(s2), ColorView::Swapchain(s1)]);
    assert_eq!(command.swapchain(), Some((s2, Some(depth))));
    assert_eq!(command.swapchains(), vec![s2, s1]);
    assert_eq!(pass(None, vec![ColorView::TextureView(view)]).swapchain(), None);
    assert!(pass(None, vec![]).swapchains().is_empty());
    assert_eq!(copy().swapchain(), None);
    assert!(copy().swapchains().is_empty());
    assert_eq!(ColorView::Swapchain(s1).swapchain(), Some(s1));
    assert_eq!(ColorView::Swapchain(s1).swapchains(), vec![s1]);
    assert_eq!(ColorView::TextureView(view).swapchain(), None);
    assert!(ColorView::TextureView(view).swapchains().is_empty());
    assert_eq!(attachment(ColorView::Swapchain(s2)).swapchain(), Some(s2));
    assert_eq!(attachment(ColorView::Swapchain(s2)).swapchains(), vec![s2]);
}

#[test]
fn command_buffer_lists_one_swapchain_per_drawing_command() {
    let s1 = SwapchainId::new(EntityId::new(1));
    let s2 = SwapchainId::new(EntityId::new(2));
    let depth = TextureViewId::new(EntityId::new(4));
    let descriptor = CommandBufferDescriptor {
        label: String::from("c"),
        device: DeviceId::new(EntityId::new(0)),
        commands: vec![
            pass(None, vec![ColorView::Swapchain(s1), ColorView::Swapchain(s2)]),
            copy(),
            pass(Some(depth), vec![ColorView::Swapchain(s2)]),
            pass(None, vec![]),
        ],
    };
    assert_eq!(descriptor.swapchains(), vec![(s1, None), (s2, Some(depth))]);
}

#[test]
fn dependencies_are_read_off_the_descriptor() {
    let s1 = SwapchainId::new(EntityId::new(1));
    let view = TextureViewId::new(EntityId::new(3));
    let depth = TextureViewId::new(EntityId::new(4));
    let descriptor = CommandBufferDescriptor {
        label: String::from("c"),
        device: DeviceId::new(EntityId::new(9)),
        commands: vec![
            copy(),
            Command::RenderPass {
                label: String::from("p"),
                depth_stencil: Some(depth),
                color_attachments: vec![RenderPassColorAttachment {
                    view: ColorView::Swapchain(s1),
                    resolve_target: Some(view),
                    ops: ops(),
                }],
                commands: vec![],
            },
        ],
    };
    let ids: Vec<usize> = descriptor.dependencies().iter().map(|id| id.id()).collect();
    assert_eq!(ids, vec![9, 1, 2, 4, 1, 3]);
    assert_eq!(descriptor.state_type(), StateType::Stateless);
}

#[test]
fn descriptors_compare_by_what_they_hold() {
    let device = DeviceId::new(EntityId::new(0));
    let one = BufferDescriptor { label: String::from("b"), device, size: 1024, usage: BufferUsage(32) };
    let same = BufferDescriptor { label: String::from("b"), device, size: 1024, usage: BufferUsage(32) };
    let bigger = BufferDescriptor { label: String::from("b"), device, size: 2048, usage: BufferUsage(32) };
    let renamed = BufferDescriptor { label: String::from("c"), device, size: 1024, usage: BufferUsage(32) };
    assert!(one.equals(&same));
    assert!(!one.needs_update(&same));
    assert!(!one.equals(&bigger));
    assert!(one.needs_update(&bigger));
    assert!(!one.equals(&renamed));
    assert_eq!(one.state_type(), StateType::Statefull);
    assert!(pass(None, vec![]).equals(&pass(None, vec![])));
    assert!(!pass(None, vec![]).equals(&copy()));
    let clear = Operations { load: LoadOp::Clear(Color { r_bits: 1, g_bits: 0, b_bits: 0, a_bits: 0 }), store: true };
    assert_ne!(clear, ops());
}

#[test]
fn vertex_layout_builder_copies_the_layout() {
    let layout = VertexBufferLayout {
        array_stride: 16,
        step_mode: InputStepMode::Instance,
        attributes: vec![VertexAttribute { format: VertexFormat(3), offset: 8, shader_location: 1 }],
    };
    let builder = VertexBufferLayoutBuilder::new(&layout);
    assert_eq!(builder.array_stride, 16);
    assert_eq!(builder.step_mode, InputStepMode::Instance);
    assert_eq!(builder.attributes, layout.attributes);
}
