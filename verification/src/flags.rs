//! Bit masks and enumerations shared by the frame graph and the render passes.
//!
//! The masks are plain 32-bit words whose bit values are those of the Vulkan
//! API, so that a backend can hand them on unchanged.

use vstd::prelude::*;

verus! {

/// A set of pipeline stages, one bit per stage.
pub type PipelineStageFlags = u32;

/// A set of memory access kinds, one bit per kind.
pub type AccessFlags = u32;

/// A set of image usages, one bit per usage.
pub type ImageUsageFlags = u32;

/// A sample count, as a single bit (1, 2, 4, ... samples).
pub type SampleCountFlags = u32;

pub const PIPELINE_STAGE_TOP_OF_PIPE_BIT: u32 = 0x0001;

pub const PIPELINE_STAGE_VERTEX_SHADER_BIT: u32 = 0x0008;

pub const PIPELINE_STAGE_FRAGMENT_SHADER_BIT: u32 = 0x0080;

pub const PIPELINE_STAGE_EARLY_FRAGMENT_TESTS_BIT: u32 = 0x0100;

pub const PIPELINE_STAGE_LATE_FRAGMENT_TESTS_BIT: u32 = 0x0200;

pub const PIPELINE_STAGE_COLOR_ATTACHMENT_OUTPUT_BIT: u32 = 0x0400;

pub const PIPELINE_STAGE_BOTTOM_OF_PIPE_BIT: u32 = 0x2000;

pub const ACCESS_INPUT_ATTACHMENT_READ_BIT: u32 = 0x0010;

pub const ACCESS_SHADER_READ_BIT: u32 = 0x0020;

pub const ACCESS_COLOR_ATTACHMENT_READ_BIT: u32 = 0x0080;

pub const ACCESS_COLOR_ATTACHMENT_WRITE_BIT: u32 = 0x0100;

pub const ACCESS_DEPTH_STENCIL_ATTACHMENT_READ_BIT: u32 = 0x0200;

pub const ACCESS_DEPTH_STENCIL_ATTACHMENT_WRITE_BIT: u32 = 0x0400;

pub const IMAGE_USAGE_TRANSFER_SRC_BIT: u32 = 0x0001;

pub const IMAGE_USAGE_TRANSFER_DST_BIT: u32 = 0x0002;

pub const IMAGE_USAGE_SAMPLED_BIT: u32 = 0x0004;

pub const IMAGE_USAGE_STORAGE_BIT: u32 = 0x0008;

pub const IMAGE_USAGE_COLOR_ATTACHMENT_BIT: u32 = 0x0010;

pub const IMAGE_USAGE_DEPTH_STENCIL_ATTACHMENT_BIT: u32 = 0x0020;

pub const IMAGE_USAGE_TRANSIENT_ATTACHMENT_BIT: u32 = 0x0040;

pub const IMAGE_USAGE_INPUT_ATTACHMENT_BIT: u32 = 0x0080;

pub const SAMPLE_COUNT_1_BIT: u32 = 0x0001;

pub const SAMPLE_COUNT_4_BIT: u32 = 0x0004;

/// Whether every bit of `part` is set in `whole`.
pub open spec fn includes(whole: u32, part: u32) -> bool {
    whole | part == whole
}

/// The layout in which an image's memory is arranged for a kind of use.
#[derive(Clone, Copy, Debug, PartialEq, Eq, Structural)]
pub enum ImageLayout {
    Undefined,
    General,
    ColorAttachmentOptimal,
    DepthStencilAttachmentOptimal,
    DepthStencilReadOnlyOptimal,
    ShaderReadOnlyOptimal,
    TransferSrcOptimal,
    TransferDstOptimal,
    Preinitialized,
    PresentSrc,
}

/// What happens to an attachment's contents when a render pass begins.
#[derive(Clone, Copy, Debug, PartialEq, Eq, Structural)]
pub enum AttachmentLoadOp {
    Load,
    Clear,
    DontCare,
}

/// What happens to an attachment's contents when a render pass ends.
#[derive(Clone, Copy, Debug, PartialEq, Eq, Structural)]
pub enum AttachmentStoreOp {
    Store,
    DontCare,
}

/// The texel format of an image.
#[derive(Clone, Copy, Debug, PartialEq, Eq, Hash, Structural)]
pub enum Format {
    Undefined,
    R8Unorm,
    R8G8Unorm,
    R8G8B8A8Unorm,
    R8G8B8A8Srgb,
    B8G8R8A8Unorm,
    R16G16B16A16Sfloat,
    R32Sfloat,
    R32G32B32A32Sfloat,
    D16Unorm,
    D32Sfloat,
    D24UnormS8Uint,
    D32SfloatS8Uint,
}

/// The number of bytes that one texel of a format takes.
pub open spec fn texel_size(format: Format) -> nat {
    match format {
        Format::Undefined => 0,
        Format::R8Unorm => 1,
        Format::R8G8Unorm => 2,
        Format::R8G8B8A8Unorm => 4,
        Format::R8G8B8A8Srgb => 4,
        Format::B8G8R8A8Unorm => 4,
        Format::R16G16B16A16Sfloat => 8,
        Format::R32Sfloat => 4,
        Format::R32G32B32A32Sfloat => 16,
        Format::D16Unorm => 2,
        Format::D32Sfloat => 4,
        Format::D24UnormS8Uint => 4,
        Format::D32SfloatS8Uint => 8,
    }
}

impl Format {
    /// The number of bytes that one texel takes.
    pub fn byte_size(&self) -> (size: usize)
        ensures
            size == texel_size(*self),
            size <= 16,
    {
        match *self {
            Format::Undefined => 0,
            Format::R8Unorm => 1,
            Format::R8G8Unorm => 2,
            Format::R8G8B8A8Unorm => 4,
            Format::R8G8B8A8Srgb => 4,
            Format::B8G8R8A8Unorm => 4,
            Format::R16G16B16A16Sfloat => 8,
            Format::R32Sfloat => 4,
            Format::R32G32B32A32Sfloat => 16,
            Format::D16Unorm => 2,
            Format::D32Sfloat => 4,
            Format::D24UnormS8Uint => 4,
            Format::D32SfloatS8Uint => 8,
        }
    }
}

} // verus!
