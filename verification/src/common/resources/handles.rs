//! Handles: what stands for the live objects of the backend. The engine
//! stores a handle, finds it again by the identifier of its resource and
//! hands it on to the builders that need it; it never looks behind the key.

use vstd::prelude::*;
use crate::common::backend::PresentMode;
use crate::common::backend::TextureFormat;
use crate::common::backend::TextureUsage;
use crate::common::resources::ResourceType;

verus! {

/// The usage of the textures of a swap chain: a render attachment.
pub const RENDER_ATTACHMENT: u32 = 16;

/// Handle of an instance of the backend.
#[derive(Debug, Clone, Copy, PartialEq, Eq, Structural)]
pub struct InstanceHandle(pub u64);

/// Handle of a device, with its adapter and its queue.
#[derive(Debug, Clone, Copy, PartialEq, Eq, Structural)]
pub struct DeviceHandle(pub u64);

/// Handle of a buffer.
#[derive(Debug, Clone, Copy, PartialEq, Eq, Structural)]
pub struct BufferHandle(pub u64);

/// Handle of a texture.
#[derive(Debug, Clone, Copy, PartialEq, Eq, Structural)]
pub struct TextureHandle(pub u64);

/// Handle of a texture view.
#[derive(Debug, Clone, Copy, PartialEq, Eq, Structural)]
pub struct TextureViewHandle(pub u64);

/// Handle of a sampler.
#[derive(Debug, Clone, Copy, PartialEq, Eq, Structural)]
pub struct SamplerHandle(pub u64);

/// Handle of a shader module.
#[derive(Debug, Clone, Copy, PartialEq, Eq, Structural)]
pub struct ShaderModuleHandle(pub u64);

/// Handle of a bind group layout.
#[derive(Debug, Clone, Copy, PartialEq, Eq, Structural)]
pub struct BindGroupLayoutHandle(pub u64);

/// Handle of a bind group.
#[derive(Debug, Clone, Copy, PartialEq, Eq, Structural)]
pub struct BindGroupHandle(pub u64);

/// Handle of a pipeline layout.
#[derive(Debug, Clone, Copy, PartialEq, Eq, Structural)]
pub struct PipelineLayoutHandle(pub u64);

/// Handle of a render pipeline.
#[derive(Debug, Clone, Copy, PartialEq, Eq, Structural)]
pub struct RenderPipelineHandle(pub u64);

/// Handle of a compute pipeline.
#[derive(Debug, Clone, Copy, PartialEq, Eq, Structural)]
pub struct ComputePipelineHandle(pub u64);

/// Handle of a finished command buffer.
#[derive(Debug, Clone, Copy, PartialEq, Eq, Structural)]
pub struct CommandBufferHandle(pub u64);

/// Handle of a surface of the windowing layer.
#[derive(Debug, Clone, Copy, PartialEq, Eq, Structural)]
pub struct SurfaceHandle(pub u64);

/// Handle of a frame that a swap chain has handed out.
#[derive(Debug, Clone, Copy, PartialEq, Eq, Structural)]
pub struct FrameHandle(pub u64);

/// Handle of a swapchain: the swapchain itself.
pub type SwapchainHandle = Swapchain;

/// A enum combining all the possible resource handles.
#[derive(Debug, Clone, Copy, PartialEq, Eq, Structural)]
pub enum ResourceHandle {
    Instance(InstanceHandle),
    Device(DeviceHandle),
    Swapchain(SwapchainHandle),
    Buffer(BufferHandle),
    Texture(TextureHandle),
    TextureView(TextureViewHandle),
    Sampler(SamplerHandle),
    ShaderModule(ShaderModuleHandle),
    BindGroupLayout(BindGroupLayoutHandle),
    BindGroup(BindGroupHandle),
    PipelineLayout(PipelineLayoutHandle),
    RenderPipeline(RenderPipelineHandle),
    ComputePipeline(ComputePipelineHandle),
    CommandBuffer(CommandBufferHandle),
}

impl ResourceHandle {
    /// The kind of resource that the handle is for.
    pub open spec fn kind_spec(&self) -> ResourceType {
        match *self {
            Self::Instance(_) => ResourceType::Instance,
            Self::Device(_) => ResourceType::Device,
            Self::Swapchain(_) => ResourceType::Swapchain,
            Self::Buffer(_) => ResourceType::Buffer,
            Self::Texture(_) => ResourceType::Texture,
            Self::TextureView(_) => ResourceType::TextureView,
            Self::Sampler(_) => ResourceType::Sampler,
            Self::ShaderModule(_) => ResourceType::ShaderModule,
            Self::BindGroupLayout(_) => ResourceType::BindGroupLayout,
            Self::BindGroup(_) => ResourceType::BindGroup,
            Self::PipelineLayout(_) => ResourceType::PipelineLayout,
            Self::RenderPipeline(_) => ResourceType::RenderPipeline,
            Self::ComputePipeline(_) => ResourceType::ComputePipeline,
            Self::CommandBuffer(_) => ResourceType::CommandBuffer,
        }
    }

    /// The kind of resource that the handle is for.
    pub fn kind(&self) -> (kind: ResourceType)
        ensures
            kind == self.kind_spec(),
    {
        match self {
            Self::Instance(_) => ResourceType::Instance,
            Self::Device(_) => ResourceType::Device,
            Self::Swapchain(_) => ResourceType::Swapchain,
            Self::Buffer(_) => ResourceType::Buffer,
            Self::Texture(_) => ResourceType::Texture,
            Self::TextureView(_) => ResourceType::TextureView,
            Self::Sampler(_) => ResourceType::Sampler,
            Self::ShaderModule(_) => ResourceType::ShaderModule,
            Self::BindGroupLayout(_) => ResourceType::BindGroupLayout,
            Self::BindGroup(_) => ResourceType::BindGroup,
            Self::PipelineLayout(_) => ResourceType::PipelineLayout,
            Self::RenderPipeline(_) => ResourceType::RenderPipeline,
            Self::ComputePipeline(_) => ResourceType::ComputePipeline,
            Self::CommandBuffer(_) => ResourceType::CommandBuffer,
        }
    }
}

/// How a swap chain was set up.
#[derive(Debug, Clone, Copy, PartialEq, Eq, Structural)]
pub struct SwapChainSetup {
    pub usage: TextureUsage,
    pub format: TextureFormat,
    pub width: u32,
    pub height: u32,
    pub present_mode: PresentMode,
}

/// A swap chain of the backend with the frame that is being drawn, if any.
#[derive(Debug, Clone, Copy, PartialEq, Eq, Structural)]
pub struct Swapchain {
    swapchain_descriptor: SwapChainSetup,
    swapchain: u64,
    current_frame: Option<FrameHandle>,
}

impl Swapchain {
    /// How the swap chain was set up.
    pub closed spec fn setup_spec(&self) -> SwapChainSetup {
        self.swapchain_descriptor
    }

    /// The key of the swap chain in the backend.
    pub closed spec fn chain_spec(&self) -> u64 {
        self.swapchain
    }

    /// The frame that is being drawn, if any.
    pub closed spec fn frame_spec(&self) -> Option<FrameHandle> {
        self.current_frame
    }

    /// The swapchain once its frame was handed back: the same swap chain,
    /// with no frame being drawn.
    pub closed spec fn presented(&self) -> Swapchain {
        Swapchain {
            swapchain_descriptor: self.swapchain_descriptor,
            swapchain: self.swapchain,
            current_frame: None,
        }
    }

    /// What a swapchain is once its frame was handed back.
    pub proof fn lemma_presented(&self)
        ensures
            self.presented().frame_spec() is None,
            self.presented().setup_spec() == self.setup_spec(),
            self.presented().chain_spec() == self.chain_spec(),
            self.presented().presented() == self.presented(),
            self.frame_spec() is None ==> self.presented() == *self,
    {
    }

    /// The swapchain for the swap chain `chain`, which the backend made with
    /// the format `format` for a surface of `width` by `height`, once its
    /// first frame was asked for. `None` where no frame was to be had.
    pub fn new(
        chain: u64,
        format: TextureFormat,
        width: u32,
        height: u32,
        first_frame: Option<FrameHandle>,
    ) -> (swapchain: Option<Self>)
        ensures
            swapchain is Some <==> first_frame is Some,
            swapchain matches Some(s) ==> {
                &&& s.chain_spec() == chain
                &&& s.frame_spec() == first_frame
                &&& s.setup_spec() == (SwapChainSetup {
                    usage: TextureUsage(RENDER_ATTACHMENT),
                    format,
                    width,
                    height,
                    present_mode: PresentMode::Mailbox,
                })
            },
    {
        let swapchain_descriptor = SwapChainSetup {
            usage: TextureUsage(RENDER_ATTACHMENT),
            format,
            present_mode: PresentMode::Mailbox,
            width,
            height,
        };
        match first_frame {
            Some(frame) => Some(
                Self { swapchain_descriptor, swapchain: chain, current_frame: Some(frame) },
            ),
            None => None,
        }
    }

    /// How the swap chain was set up.
    pub fn setup(&self) -> (setup: SwapChainSetup)
        ensures
            setup == self.setup_spec(),
    {
        self.swapchain_descriptor
    }

    /// The key of the swap chain in the backend.
    pub fn chain(&self) -> (chain: u64)
        ensures
            chain == self.chain_spec(),
    {
        self.swapchain
    }

    /// Where no frame is being drawn, `acquire` is called for one, and its
    /// frame is then the one being drawn. Nothing happens, and `acquire` is
    /// not called, where a frame is there.
    pub fn prepare_frame<F: FnOnce() -> FrameHandle>(&mut self, acquire: F)
        requires
            old(self).frame_spec() is None ==> call_requires(acquire, ()),
        ensures
            final(self).setup_spec() == old(self).setup_spec(),
            final(self).chain_spec() == old(self).chain_spec(),
            old(self).frame_spec() is Some ==> *final(self) == *old(self),
            old(self).frame_spec() is None ==> final(self).frame_spec() is Some && call_ensures(
                acquire,
                (),
                final(self).frame_spec()->Some_0,
            ),
    {
        if self.current_frame.is_none() {
            self.current_frame = Some(acquire());
        }
    }

    /// The frame that was being drawn is handed back, to be presented; none
    /// is being drawn afterwards.
    pub fn present(&mut self) -> (frame: Option<FrameHandle>)
        ensures
            frame == old(self).frame_spec(),
            *final(self) == old(self).presented(),
            final(self).frame_spec() is None,
            final(self).setup_spec() == old(self).setup_spec(),
            final(self).chain_spec() == old(self).chain_spec(),
    {
        self.current_frame.take()
    }

    /// The frame that is being drawn, if any.
    pub fn current_frame(&self) -> (frame: Option<FrameHandle>)
        ensures
            frame == self.frame_spec(),
    {
        self.current_frame
    }
}

} // verus!
