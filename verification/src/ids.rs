//! Identifiers of the objects that a frame is built from.

use vstd::prelude::*;

verus! {

/// Names a task of the frame graph: its position in declaration order.
#[derive(Clone, Copy, Debug, PartialEq, Eq, Structural)]
pub struct TaskId(pub usize);

/// Names an image known to the resource tracker.
#[derive(Clone, Copy, Debug, PartialEq, Eq, Structural)]
pub struct ImageId(pub usize);

/// Names a render pass of the frame.
#[derive(Clone, Copy, Debug, PartialEq, Eq, Structural)]
pub struct RenderPassId(pub usize);

/// The position of an attachment in its render pass.
#[derive(Clone, Copy, Debug, PartialEq, Eq, Structural)]
pub struct AttachmentIndex(pub u32);

/// Names an attachment: the render pass that owns it, its position there and
/// the image behind it.
#[derive(Clone, Copy, Debug, PartialEq, Eq, Structural)]
pub struct AttachmentId {
    pub renderpass: RenderPassId,
    pub index: AttachmentIndex,
    pub img: ImageId,
}

} // verus!
