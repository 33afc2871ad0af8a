//! Plain values that describe how the backend is to make an object. The
//! engine compares and passes them on; only the backend reads them.

use vstd::prelude::*;
use crate::common::resources::descriptors::Equivalent;

verus! {

/// Address in, or size of, a buffer, in bytes.
pub type BufferAddress = u64;

/// Integer type of a dynamic offset.
pub type DynamicOffset = u32;

/// The backends that an instance may use, one bit each.
#[derive(Debug, Clone, Copy, PartialEq, Eq, Structural)]
pub struct BackendBit(pub u32);

/// Features of a device that are not part of the base set, one bit each.
#[derive(Debug, Clone, Copy, PartialEq, Eq, Structural)]
pub struct Features(pub u64);

impl Features {
    /// The set without any flag.
    pub fn empty() -> (flags: Self)
        ensures
            flags.0 == 0,
    {
        Self(0)
    }

    /// The flags of both sets.
    pub fn union(self, other: Self) -> (both: Self)
        ensures
            both.0 == self.0 | other.0,
    {
        Self(self.0 | other.0)
    }

    /// The flags that are in both sets.
    pub fn intersection(self, other: Self) -> (common: Self)
        ensures
            common.0 == self.0 & other.0,
    {
        Self(self.0 & other.0)
    }
}

/// The ways in which a buffer may be used, one bit each.
#[derive(Debug, Clone, Copy, PartialEq, Eq, Structural)]
pub struct BufferUsage(pub u32);

impl BufferUsage {
    /// The flags of both sets.
    pub fn union(self, other: Self) -> (both: Self)
        ensures
            both.0 == self.0 | other.0,
    {
        Self(self.0 | other.0)
    }
}

/// The ways in which a texture may be used, one bit each.
#[derive(Debug, Clone, Copy, PartialEq, Eq, Structural)]
pub struct TextureUsage(pub u32);

/// Flags that control how a shader module is made, one bit each.
#[derive(Debug, Clone, Copy, PartialEq, Eq, Structural)]
pub struct ShaderFlags(pub u32);

/// The stages of a pipeline that a binding is visible from, one bit each.
#[derive(Debug, Clone, Copy, PartialEq, Eq, Structural)]
pub struct ShaderStage(pub u32);

/// The color channels that a render target takes writes to, one bit each.
#[derive(Debug, Clone, Copy, PartialEq, Eq, Structural)]
pub struct ColorWrite(pub u32);

/// The format of a texture's texels, by the backend's code for it.
#[derive(Debug, Clone, Copy, PartialEq, Eq, Structural)]
pub struct TextureFormat(pub u32);

/// The format of a vertex attribute, by the backend's code for it.
#[derive(Debug, Clone, Copy, PartialEq, Eq, Structural)]
pub struct VertexFormat(pub u32);

/// Dimensionality of a texture.
#[derive(Debug, Clone, Copy, PartialEq, Eq, Structural)]
pub enum TextureDimension {
    D1,
    D2,
    D3,
}

/// Dimensions of a particular texture view.
#[derive(Debug, Clone, Copy, PartialEq, Eq, Structural)]
pub enum TextureViewDimension {
    D1,
    D2,
    D2Array,
    Cube,
    CubeArray,
    D3,
}

/// Kind of data the texture holds.
#[derive(Debug, Clone, Copy, PartialEq, Eq, Structural)]
pub enum TextureAspect {
    All,
    StencilOnly,
    DepthOnly,
}

/// Behavior of the presentation engine based on frame rate.
#[derive(Debug, Clone, Copy, PartialEq, Eq, Structural)]
pub enum PresentMode {
    Immediate,
    Mailbox,
    Fifo,
}

/// How edges should be handled in texture addressing.
#[derive(Debug, Clone, Copy, PartialEq, Eq, Structural)]
pub enum AddressMode {
    ClampToEdge,
    Repeat,
    MirrorRepeat,
    ClampToBorder,
}

/// Texel mixing mode when sampling between texels.
#[derive(Debug, Clone, Copy, PartialEq, Eq, Structural)]
pub enum FilterMode {
    Nearest,
    Linear,
}

/// Comparison function used for depth and stencil operations.
#[derive(Debug, Clone, Copy, PartialEq, Eq, Structural)]
pub enum CompareFunction {
    Never,
    Less,
    Equal,
    LessEqual,
    Greater,
    NotEqual,
    GreaterEqual,
    Always,
}

/// Color variation to use when sampler addressing mode is `ClampToBorder`.
#[derive(Debug, Clone, Copy, PartialEq, Eq, Structural)]
pub enum SamplerBorderColor {
    TransparentBlack,
    OpaqueBlack,
    OpaqueWhite,
}

/// Format of indices used with pipeline.
#[derive(Debug, Clone, Copy, PartialEq, Eq, Structural)]
pub enum IndexFormat {
    Uint16,
    Uint32,
}

/// Rate that determines when vertex data is advanced.
#[derive(Debug, Clone, Copy, PartialEq, Eq, Structural)]
pub enum InputStepMode {
    Vertex,
    Instance,
}

/// Primitive type the input mesh is composed of.
#[derive(Debug, Clone, Copy, PartialEq, Eq, Structural)]
pub enum PrimitiveTopology {
    PointList,
    LineList,
    LineStrip,
    TriangleList,
    TriangleStrip,
}

/// Winding order which classifies the front face.
#[derive(Debug, Clone, Copy, PartialEq, Eq, Structural)]
pub enum FrontFace {
    Ccw,
    Cw,
}

/// Face of a vertex.
#[derive(Debug, Clone, Copy, PartialEq, Eq, Structural)]
pub enum Face {
    Front,
    Back,
}

/// Type of drawing mode for polygons.
#[derive(Debug, Clone, Copy, PartialEq, Eq, Structural)]
pub enum PolygonMode {
    Fill,
    Line,
    Point,
}

/// Alpha blend factor.
#[derive(Debug, Clone, Copy, PartialEq, Eq, Structural)]
pub enum BlendFactor {
    Zero,
    One,
    Src,
    OneMinusSrc,
    SrcAlpha,
    OneMinusSrcAlpha,
    Dst,
    OneMinusDst,
    DstAlpha,
    OneMinusDstAlpha,
    SrcAlphaSaturated,
    Constant,
    OneMinusConstant,
}

/// Alpha blend operation.
#[derive(Debug, Clone, Copy, PartialEq, Eq, Structural)]
pub enum BlendOperation {
    Add,
    Subtract,
    ReverseSubtract,
    Min,
    Max,
}

/// Operation to perform on the stencil value.
#[derive(Debug, Clone, Copy, PartialEq, Eq, Structural)]
pub enum StencilOperation {
    Keep,
    Zero,
    Replace,
    Invert,
    IncrementClamp,
    DecrementClamp,
    IncrementWrap,
    DecrementWrap,
}

/// Specific type of a sample in a texture binding.
#[derive(Debug, Clone, Copy, PartialEq, Eq, Structural)]
pub enum StorageTextureAccess {
    ReadOnly,
    WriteOnly,
    ReadWrite,
}

/// Specific type of a buffer binding.
#[derive(Debug, Clone, Copy, PartialEq, Eq, Structural)]
pub enum BufferBindingType {
    Uniform,
    Storage { read_only: bool },
}

/// Specific type of a sample in a texture binding.
#[derive(Debug, Clone, Copy, PartialEq, Eq, Structural)]
pub enum TextureSampleType {
    Float { filterable: bool },
    Depth,
    Sint,
    Uint,
}

/// Specific type of a binding.
#[derive(Debug, Clone, Copy, PartialEq, Eq, Structural)]
pub enum BindingType {
    Buffer {
        ty: BufferBindingType,
        has_dynamic_offset: bool,
        /// Not zero where it is given.
        min_binding_size: Option<u64>,
    },
    Sampler { filtering: bool, comparison: bool },
    Texture {
        sample_type: TextureSampleType,
        view_dimension: TextureViewDimension,
        multisampled: bool,
    },
    StorageTexture {
        access: StorageTextureAccess,
        format: TextureFormat,
        view_dimension: TextureViewDimension,
    },
}

/// Describes a single binding inside a bind group.
#[derive(Debug, Clone, Copy, PartialEq, Eq, Structural)]
pub struct BindGroupLayoutEntry {
    pub binding: u32,
    pub visibility: ShaderStage,
    pub ty: BindingType,
    /// Not zero where it is given.
    pub count: Option<u32>,
}

/// Extent of a texture related operation.
#[derive(Debug, Clone, Copy, PartialEq, Eq, Structural)]
pub struct Extent3d {
    pub width: u32,
    pub height: u32,
    pub depth_or_array_layers: u32,
}

/// Origin of a copy to/from a texture.
#[derive(Debug, Clone, Copy, PartialEq, Eq, Structural)]
pub struct Origin3d {
    pub x: u32,
    pub y: u32,
    pub z: u32,
}

/// Layout of a texture in a buffer's memory.
#[derive(Debug, Clone, Copy, PartialEq, Eq, Structural)]
pub struct ImageDataLayout {
    pub offset: BufferAddress,
    /// Not zero where it is given.
    pub bytes_per_row: Option<u32>,
    /// Not zero where it is given.
    pub rows_per_image: Option<u32>,
}

/// Vertex inputs (attributes) to shaders.
#[derive(Debug, Clone, Copy, PartialEq, Eq, Structural)]
pub struct VertexAttribute {
    pub format: VertexFormat,
    pub offset: BufferAddress,
    pub shader_location: u32,
}

/// Describes the blend component of a pipeline.
#[derive(Debug, Clone, Copy, PartialEq, Eq, Structural)]
pub struct BlendComponent {
    pub src_factor: BlendFactor,
    pub dst_factor: BlendFactor,
    pub operation: BlendOperation,
}

/// Describe the blend state of a render pipeline.
#[derive(Debug, Clone, Copy, PartialEq, Eq, Structural)]
pub struct BlendState {
    pub color: BlendComponent,
    pub alpha: BlendComponent,
}

/// Describes the color state of a render pipeline, as the backend takes it.
#[derive(Debug, Clone, Copy, PartialEq, Eq, Structural)]
pub struct TargetState {
    pub format: TextureFormat,
    pub blend: Option<BlendState>,
    pub write_mask: ColorWrite,
}

/// Describes the state of primitive assembly and rasterization in a render
/// pipeline.
#[derive(Debug, Clone, Copy, PartialEq, Eq, Structural)]
pub struct PrimitiveState {
    pub topology: PrimitiveTopology,
    pub strip_index_format: Option<IndexFormat>,
    pub front_face: FrontFace,
    pub cull_mode: Option<Face>,
    pub clamp_depth: bool,
    pub polygon_mode: PolygonMode,
    pub conservative: bool,
}

/// Describes the multi-sampling state of a render pipeline.
#[derive(Debug, Clone, Copy, PartialEq, Eq, Structural)]
pub struct MultisampleState {
    pub count: u32,
    pub mask: u64,
    pub alpha_to_coverage_enabled: bool,
}

/// Describes stencil state in a render pipeline, for one face.
#[derive(Debug, Clone, Copy, PartialEq, Eq, Structural)]
pub struct StencilFaceState {
    pub compare: CompareFunction,
    pub fail_op: StencilOperation,
    pub depth_fail_op: StencilOperation,
    pub pass_op: StencilOperation,
}

/// State of the stencil operation (fixed-pipeline stage).
#[derive(Debug, Clone, Copy, PartialEq, Eq, Structural)]
pub struct StencilState {
    pub front: StencilFaceState,
    pub back: StencilFaceState,
    pub read_mask: u32,
    pub write_mask: u32,
}

/// Describes the biasing setting for the depth target. The two scales are
/// held by the bits of their 32-bit floating-point values.
#[derive(Debug, Clone, Copy, PartialEq, Eq, Structural)]
pub struct DepthBiasState {
    pub constant: i32,
    pub slope_scale_bits: u32,
    pub clamp_bits: u32,
}

/// A range of push constant memory to pass to a shader stage: the bytes from
/// `start` up to `end`.
#[derive(Debug, Clone, Copy, PartialEq, Eq, Structural)]
pub struct PushConstantRange {
    pub stages: ShaderStage,
    pub start: u32,
    pub end: u32,
}

/// The bits of the four 64-bit floating-point channels of a color.
#[derive(Debug, Clone, Copy, PartialEq, Eq, Structural)]
pub struct Color {
    pub r_bits: u64,
    pub g_bits: u64,
    pub b_bits: u64,
    pub a_bits: u64,
}

/// Operation to perform to the output attachment at the start of a render
/// pass.
#[derive(Debug, Clone, Copy, PartialEq, Eq, Structural)]
pub enum LoadOp {
    Clear(Color),
    Load,
}

/// Pair of load and store operations for an attachment aspect.
#[derive(Debug, Clone, Copy, PartialEq, Eq, Structural)]
pub struct Operations {
    pub load: LoadOp,
    pub store: bool,
}

/// Limits of a device: the most of each thing that it is asked to support.
/// Higher is "better".
#[derive(Debug, Clone, Copy, PartialEq, Eq, Structural)]
pub struct Limits {
    pub max_texture_dimension_1d: u32,
    pub max_texture_dimension_2d: u32,
    pub max_texture_dimension_3d: u32,
    pub max_texture_array_layers: u32,
    pub max_bind_groups: u32,
    pub max_dynamic_uniform_buffers_per_pipeline_layout: u32,
    pub max_dynamic_storage_buffers_per_pipeline_layout: u32,
    pub max_sampled_textures_per_shader_stage: u32,
    pub max_samplers_per_shader_stage: u32,
    pub max_storage_buffers_per_shader_stage: u32,
    pub max_storage_textures_per_shader_stage: u32,
    pub max_uniform_buffers_per_shader_stage: u32,
    pub max_uniform_buffer_binding_size: u32,
    pub max_storage_buffer_binding_size: u32,
    pub max_vertex_buffers: u32,
    pub max_vertex_attributes: u32,
    pub max_vertex_buffer_array_stride: u32,
    pub max_push_constant_size: u32,
}

impl Equivalent for BindGroupLayoutEntry {
    open spec fn same(&self, other: &Self) -> bool {
        *self == *other
    }

    fn equals(&self, other: &Self) -> (equal: bool) {
        *self == *other
    }

    proof fn lemma_same_reflexive(&self) {
    }

    proof fn lemma_same_symmetric(&self, other: &Self) {
    }

    proof fn lemma_same_transitive(&self, middle: &Self, other: &Self) {
    }
}

impl Equivalent for PushConstantRange {
    open spec fn same(&self, other: &Self) -> bool {
        *self == *other
    }

    fn equals(&self, other: &Self) -> (equal: bool) {
        *self == *other
    }

    proof fn lemma_same_reflexive(&self) {
    }

    proof fn lemma_same_symmetric(&self, other: &Self) {
    }

    proof fn lemma_same_transitive(&self, middle: &Self, other: &Self) {
    }
}

impl Equivalent for VertexAttribute {
    open spec fn same(&self, other: &Self) -> bool {
        *self == *other
    }

    fn equals(&self, other: &Self) -> (equal: bool) {
        *self == *other
    }

    proof fn lemma_same_reflexive(&self) {
    }

    proof fn lemma_same_symmetric(&self, other: &Self) {
    }

    proof fn lemma_same_transitive(&self, middle: &Self, other: &Self) {
    }
}

impl Equivalent for TargetState {
    open spec fn same(&self, other: &Self) -> bool {
        *self == *other
    }

    fn equals(&self, other: &Self) -> (equal: bool) {
        *self == *other
    }

    proof fn lemma_same_reflexive(&self) {
    }

    proof fn lemma_same_symmetric(&self, other: &Self) {
    }

    proof fn lemma_same_transitive(&self, middle: &Self, other: &Self) {
    }
}

} // verus!
