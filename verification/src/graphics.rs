//! Graphics tasks: the subpasses of render passes, and the builder that
//! declares what one subpass reads and writes.
//!
//! Every operation of the builder either takes effect as a whole or is refused
//! and changes nothing.

use crate::dag::lemma_link_into_keeps_reach;
use crate::frame::{
    follows_rules, in_pass, lemma_rules_after_dependency, lemma_rules_after_new_subpass,
    lemma_same_subpasses, subpasses_of,
};
use crate::flags::{
    AccessFlags, AttachmentLoadOp, AttachmentStoreOp, Format, ImageLayout, ImageUsageFlags,
    PipelineStageFlags, SampleCountFlags, ACCESS_COLOR_ATTACHMENT_READ_BIT,
    ACCESS_COLOR_ATTACHMENT_WRITE_BIT, ACCESS_DEPTH_STENCIL_ATTACHMENT_READ_BIT,
    ACCESS_DEPTH_STENCIL_ATTACHMENT_WRITE_BIT, ACCESS_INPUT_ATTACHMENT_READ_BIT,
    ACCESS_SHADER_READ_BIT, IMAGE_USAGE_COLOR_ATTACHMENT_BIT,
    IMAGE_USAGE_DEPTH_STENCIL_ATTACHMENT_BIT, IMAGE_USAGE_INPUT_ATTACHMENT_BIT,
    IMAGE_USAGE_SAMPLED_BIT, PIPELINE_STAGE_COLOR_ATTACHMENT_OUTPUT_BIT,
    PIPELINE_STAGE_EARLY_FRAGMENT_TESTS_BIT, PIPELINE_STAGE_TOP_OF_PIPE_BIT,
    PIPELINE_STAGE_VERTEX_SHADER_BIT,
};
use crate::graph::{
    BarrierDetail, Dependency, Edge, FrameGraph, GraphError, ImageBarrier, SubpassBarrier, Task,
    TaskDetails, links_of,
};
use crate::ids::{AttachmentId, AttachmentIndex, ImageId, RenderPassId, TaskId};
use crate::renderpass::{AttachmentDescription, RenderPassError, RenderPasses};
use crate::resources::{
    Extent3D, ImageCreateInfo, ImageResource, ImageTiling, ImageType, ResourceError, Resources,
    SharingMode, images_after_usages,
};
use vstd::prelude::*;

verus! {

/// How a subpass refers to an attachment of its render pass.
#[derive(Clone, Copy, Debug, PartialEq, Eq, Structural)]
pub struct AttachmentReference {
    pub attachment: u32,
    pub layout: ImageLayout,
}

/// What one subpass uses: its attachments by class, and the images it samples.
#[derive(Debug)]
pub struct GraphicsTask {
    pub renderpass: RenderPassId,
    pub color_attachments: Vec<AttachmentReference>,
    pub input_attachments: Vec<AttachmentReference>,
    pub resolve_attachments: Vec<AttachmentReference>,
    pub depth_attachment: Option<AttachmentReference>,
    pub shader_images: Vec<ImageId>,
}

/// A graphics task as a value: its lists as sequences.
pub struct GraphicsTaskView {
    pub renderpass: RenderPassId,
    pub color_attachments: Seq<AttachmentReference>,
    pub input_attachments: Seq<AttachmentReference>,
    pub resolve_attachments: Seq<AttachmentReference>,
    pub depth_attachment: Option<AttachmentReference>,
    pub shader_images: Seq<ImageId>,
}

impl View for GraphicsTask {
    type V = GraphicsTaskView;

    open spec fn view(&self) -> GraphicsTaskView {
        GraphicsTaskView {
            renderpass: self.renderpass,
            color_attachments: self.color_attachments@,
            input_attachments: self.input_attachments@,
            resolve_attachments: self.resolve_attachments@,
            depth_attachment: self.depth_attachment,
            shader_images: self.shader_images@,
        }
    }
}

/// A conflicting use of one image or attachment reference.
#[derive(Clone, Copy, Debug, PartialEq, Eq, Structural)]
pub enum HazardError {
    /// The reference is read and written.
    ReadWriteConflict,
    /// The reference is written twice.
    WriteWriteConflict,
}

/// Why the builder refused a declaration.
#[derive(Clone, Copy, Debug, PartialEq, Eq, Structural)]
pub enum FrameError {
    Hazard(HazardError),
    Resource(ResourceError),
    Graph(GraphError),
    RenderPass(RenderPassError),
}

/// What marking a reference as read answers, given whether it is written.
pub open spec fn check_read(written: bool) -> Result<(), HazardError> {
    if written {
        Err(HazardError::ReadWriteConflict)
    } else {
        Ok(())
    }
}

/// What marking a reference as written answers, given whether it is read or
/// written already.
pub open spec fn check_written(read: bool, written: bool) -> Result<(), HazardError> {
    if read {
        Err(HazardError::ReadWriteConflict)
    } else if written {
        Err(HazardError::WriteWriteConflict)
    } else {
        Ok(())
    }
}

/// The right to use an image that an earlier task has produced: the image,
/// the task that wrote it last and the stage at which it did.
///
/// A reference is not copied. It is lent to the tasks that read the image and
/// handed over to the task that takes the image on.
#[derive(Debug, PartialEq, Eq, Structural)]
pub struct ImageRef {
    pub id: ImageId,
    pub task: TaskId,
    pub src_stage_mask: PipelineStageFlags,
    pub read: bool,
    pub written: bool,
    pub latency: u32,
}

impl ImageRef {
    /// Marks the reference as read. A reference that is written refuses, and
    /// stays as it was.
    pub fn set_read(&mut self) -> (result: Result<(), HazardError>)
        ensures
            result == check_read(old(self).written),
            result is Ok ==> *final(self) == (ImageRef { read: true, ..*old(self) }),
            result is Err ==> *final(self) == *old(self),
    {
        if self.written {
            return Err(HazardError::ReadWriteConflict);
        }
        self.read = true;
        Ok(())
    }

    /// Marks the reference as written. A reference that is read or written
    /// already refuses, and stays as it was.
    pub fn set_written(&mut self) -> (result: Result<(), HazardError>)
        ensures
            result == check_written(old(self).read, old(self).written),
            result is Ok ==> *final(self) == (ImageRef { written: true, ..*old(self) }),
            result is Err ==> *final(self) == *old(self),
    {
        if self.read {
            return Err(HazardError::ReadWriteConflict);
        }
        if self.written {
            return Err(HazardError::WriteWriteConflict);
        }
        self.written = true;
        Ok(())
    }
}

/// The right to use an attachment of a render pass: the attachment, the task
/// that owns it and the stage at which it was last used.
///
/// A reference is not copied. It is lent to the subpasses that bind the
/// attachment, and given up when the attachment is stored.
#[derive(Debug, PartialEq, Eq, Structural)]
pub struct AttachmentRef {
    pub id: AttachmentId,
    pub task: TaskId,
    pub src_stage_mask: PipelineStageFlags,
    pub read: bool,
    pub written: bool,
    pub latency: u32,
}

impl AttachmentRef {
    /// Marks the reference as read. A reference that is written refuses, and
    /// stays as it was.
    pub fn set_read(&mut self) -> (result: Result<(), HazardError>)
        ensures
            result == check_read(old(self).written),
            result is Ok ==> *final(self) == (AttachmentRef { read: true, ..*old(self) }),
            result is Err ==> *final(self) == *old(self),
    {
        if self.written {
            return Err(HazardError::ReadWriteConflict);
        }
        self.read = true;
        Ok(())
    }

    /// Marks the reference as written. A reference that is read or written
    /// already refuses, and stays as it was.
    pub fn set_written(&mut self) -> (result: Result<(), HazardError>)
        ensures
            result == check_written(old(self).read, old(self).written),
            result is Ok ==> *final(self) == (AttachmentRef { written: true, ..*old(self) }),
            result is Err ==> *final(self) == *old(self),
    {
        if self.read {
            return Err(HazardError::ReadWriteConflict);
        }
        if self.written {
            return Err(HazardError::WriteWriteConflict);
        }
        self.written = true;
        Ok(())
    }
}

/// The ways in which a subpass binds an attachment.
#[derive(Clone, Copy, Debug, PartialEq, Eq, Structural)]
pub enum AttachmentClass {
    Color,
    Input,
    Depth,
}

/// The usage that binding an attachment of class `class` declares for its image.
pub open spec fn attachment_usage(class: AttachmentClass) -> ImageUsageFlags {
    match class {
        AttachmentClass::Color => IMAGE_USAGE_COLOR_ATTACHMENT_BIT,
        AttachmentClass::Input => IMAGE_USAGE_INPUT_ATTACHMENT_BIT,
        AttachmentClass::Depth => IMAGE_USAGE_DEPTH_STENCIL_ATTACHMENT_BIT,
    }
}

/// The layout in which a subpass uses an attachment of class `class`.
pub open spec fn attachment_layout(class: AttachmentClass) -> ImageLayout {
    match class {
        AttachmentClass::Color => ImageLayout::ColorAttachmentOptimal,
        AttachmentClass::Input => ImageLayout::ColorAttachmentOptimal,
        AttachmentClass::Depth => ImageLayout::DepthStencilAttachmentOptimal,
    }
}

/// The layout that a subpass barrier names for an attachment of class `class`.
pub open spec fn subpass_layout(class: AttachmentClass) -> ImageLayout {
    match class {
        AttachmentClass::Color => ImageLayout::ColorAttachmentOptimal,
        AttachmentClass::Input => ImageLayout::ColorAttachmentOptimal,
        AttachmentClass::Depth => ImageLayout::Undefined,
    }
}

/// The stage at which a subpass first touches an attachment of class `class`.
pub open spec fn attachment_stage(class: AttachmentClass) -> PipelineStageFlags {
    match class {
        AttachmentClass::Color => PIPELINE_STAGE_COLOR_ATTACHMENT_OUTPUT_BIT,
        AttachmentClass::Input => PIPELINE_STAGE_TOP_OF_PIPE_BIT,
        AttachmentClass::Depth => PIPELINE_STAGE_EARLY_FRAGMENT_TESTS_BIT,
    }
}

/// The accesses that a subpass makes to an attachment of class `class`.
pub open spec fn attachment_access(class: AttachmentClass) -> AccessFlags {
    match class {
        AttachmentClass::Color => ACCESS_COLOR_ATTACHMENT_READ_BIT
            | ACCESS_COLOR_ATTACHMENT_WRITE_BIT,
        AttachmentClass::Input => ACCESS_INPUT_ATTACHMENT_READ_BIT,
        AttachmentClass::Depth => ACCESS_DEPTH_STENCIL_ATTACHMENT_WRITE_BIT
            | ACCESS_DEPTH_STENCIL_ATTACHMENT_READ_BIT,
    }
}

/// The barrier between the task that wrote an image and a task that uses it.
///
/// Between subpasses of one render pass it is a subpass barrier, since the
/// render pass synchronises its own subpasses. Across render passes it is a
/// full image barrier, which takes the image from the layout that the tracker
/// records for it to the layout of the new use.
pub open spec fn barrier_between(
    same_pass: bool,
    id: ImageId,
    recorded: ImageLayout,
    within: ImageLayout,
    across: ImageLayout,
    dst_access_mask: AccessFlags,
) -> BarrierDetail {
    if same_pass {
        BarrierDetail::Subpass(
            SubpassBarrier {
                id,
                old_layout: ImageLayout::Undefined,
                new_layout: within,
                src_access_mask: 0,
                dst_access_mask,
            },
        )
    } else {
        BarrierDetail::Image(
            ImageBarrier {
                id,
                old_layout: recorded,
                new_layout: across,
                src_access_mask: 0,
                dst_access_mask,
            },
        )
    }
}

/// The dependency of a task that samples `img` on the task that wrote it.
pub open spec fn sample_dependency(img: ImageRef, same_pass: bool, recorded: ImageLayout) -> Dependency {
    Dependency {
        src_stage_mask: img.src_stage_mask,
        dst_stage_mask: PIPELINE_STAGE_VERTEX_SHADER_BIT,
        barrier: barrier_between(
            same_pass,
            img.id,
            recorded,
            ImageLayout::ShaderReadOnlyOptimal,
            ImageLayout::ShaderReadOnlyOptimal,
            ACCESS_SHADER_READ_BIT,
        ),
        latency: img.latency,
    }
}

/// A dependency for sampling names the vertex shader stage as its
/// destination stage and shader reads as its destination access, whichever
/// kind of barrier enforces it. An image barrier takes the image from the
/// layout on record to the layout for shader reads.
pub proof fn lemma_sampling_reads_in_shader(img: ImageRef, same_pass: bool, recorded: ImageLayout)
    ensures
        crate::flags::includes(
            sample_dependency(img, same_pass, recorded).dst_stage_mask,
            PIPELINE_STAGE_VERTEX_SHADER_BIT,
        ),
        match sample_dependency(img, same_pass, recorded).barrier {
            BarrierDetail::Image(barrier) => {
                &&& !same_pass
                &&& barrier.id == img.id
                &&& barrier.old_layout == recorded
                &&& barrier.new_layout == ImageLayout::ShaderReadOnlyOptimal
                &&& crate::flags::includes(barrier.dst_access_mask, ACCESS_SHADER_READ_BIT)
            },
            BarrierDetail::Subpass(barrier) => {
                &&& same_pass
                &&& barrier.id == img.id
                &&& crate::flags::includes(barrier.dst_access_mask, ACCESS_SHADER_READ_BIT)
            },
        },
{
    assert(0x0008u32 | 0x0008u32 == 0x0008u32) by (bit_vector);
    assert(0x0020u32 | 0x0020u32 == 0x0020u32) by (bit_vector);
}

/// The kind of a barrier follows the render passes: a subpass barrier between
/// subpasses of one render pass, an image barrier across render passes.
pub proof fn lemma_barrier_kind_follows_passes(
    same_pass: bool,
    id: ImageId,
    recorded: ImageLayout,
    within: ImageLayout,
    across: ImageLayout,
    dst_access_mask: AccessFlags,
)
    ensures
        barrier_between(same_pass, id, recorded, within, across, dst_access_mask) is Subpass
            <==> same_pass,
        barrier_between(same_pass, id, recorded, within, across, dst_access_mask) is Image
            <==> !same_pass,
{
}

/// The dependency of a task that binds `attachment` on the task that owns it.
pub open spec fn attachment_dependency(
    class: AttachmentClass,
    attachment: AttachmentRef,
    same_pass: bool,
    recorded: ImageLayout,
) -> Dependency {
    Dependency {
        src_stage_mask: attachment.src_stage_mask,
        dst_stage_mask: attachment_stage(class),
        barrier: barrier_between(
            same_pass,
            attachment.id.img,
            recorded,
            subpass_layout(class),
            attachment_layout(class),
            attachment_access(class),
        ),
        latency: attachment.latency,
    }
}

/// How a subpass refers to `attachment` when it binds it as `class`.
pub open spec fn attachment_reference(class: AttachmentClass, attachment: AttachmentRef) -> AttachmentReference {
    AttachmentReference { attachment: attachment.id.index.0, layout: attachment_layout(class) }
}

/// The description of an attachment that a subpass loads or creates: stencil
/// follows colour, nothing is stored yet, and the layouts are left open.
pub open spec fn fresh_description(
    format: Format,
    samples: SampleCountFlags,
    load_op: AttachmentLoadOp,
) -> AttachmentDescription {
    AttachmentDescription {
        flags: 0,
        format,
        samples,
        load_op,
        store_op: AttachmentStoreOp::DontCare,
        stencil_load_op: load_op,
        stencil_store_op: AttachmentStoreOp::DontCare,
        initial_layout: ImageLayout::Undefined,
        final_layout: ImageLayout::Undefined,
    }
}

/// The creation parameters of an image that a subpass creates as an attachment.
pub open spec fn attachment_image_info(
    width: u32,
    height: u32,
    format: Format,
    samples: SampleCountFlags,
) -> ImageCreateInfo {
    ImageCreateInfo {
        image_type: ImageType::Type2d,
        format,
        extent: Extent3D { width, height, depth: 1 },
        mip_levels: 1,
        array_layers: 1,
        samples,
        tiling: ImageTiling::Optimal,
        usage: 0,
        sharing_mode: SharingMode::Concurrent,
        initial_layout: ImageLayout::ColorAttachmentOptimal,
    }
}

fn make_barrier(
    same_pass: bool,
    id: ImageId,
    recorded: ImageLayout,
    within: ImageLayout,
    across: ImageLayout,
    dst_access_mask: AccessFlags,
) -> (barrier: BarrierDetail)
    ensures
        barrier == barrier_between(same_pass, id, recorded, within, across, dst_access_mask),
{
    if same_pass {
        BarrierDetail::Subpass(
            SubpassBarrier {
                id,
                old_layout: ImageLayout::Undefined,
                new_layout: within,
                src_access_mask: 0,
                dst_access_mask,
            },
        )
    } else {
        BarrierDetail::Image(
            ImageBarrier {
                id,
                old_layout: recorded,
                new_layout: across,
                src_access_mask: 0,
                dst_access_mask,
            },
        )
    }
}

fn make_attachment_dependency(
    class: AttachmentClass,
    attachment: &AttachmentRef,
    same_pass: bool,
    recorded: ImageLayout,
) -> (dependency: Dependency)
    ensures
        dependency == attachment_dependency(class, *attachment, same_pass, recorded),
{
    let (stage, within, across, access) = match class {
        AttachmentClass::Color => (
            PIPELINE_STAGE_COLOR_ATTACHMENT_OUTPUT_BIT,
            ImageLayout::ColorAttachmentOptimal,
            ImageLayout::ColorAttachmentOptimal,
            ACCESS_COLOR_ATTACHMENT_READ_BIT | ACCESS_COLOR_ATTACHMENT_WRITE_BIT,
        ),
        AttachmentClass::Input => (
            PIPELINE_STAGE_TOP_OF_PIPE_BIT,
            ImageLayout::ColorAttachmentOptimal,
            ImageLayout::ColorAttachmentOptimal,
            ACCESS_INPUT_ATTACHMENT_READ_BIT,
        ),
        AttachmentClass::Depth => (
            PIPELINE_STAGE_EARLY_FRAGMENT_TESTS_BIT,
            ImageLayout::Undefined,
            ImageLayout::DepthStencilAttachmentOptimal,
            ACCESS_DEPTH_STENCIL_ATTACHMENT_WRITE_BIT | ACCESS_DEPTH_STENCIL_ATTACHMENT_READ_BIT,
        ),
    };
    Dependency {
        src_stage_mask: attachment.src_stage_mask,
        dst_stage_mask: stage,
        barrier: make_barrier(same_pass, attachment.id.img, recorded, within, across, access),
        latency: attachment.latency,
    }
}

fn usage_of_class(class: AttachmentClass) -> (usage: ImageUsageFlags)
    ensures
        usage == attachment_usage(class),
{
    match class {
        AttachmentClass::Color => IMAGE_USAGE_COLOR_ATTACHMENT_BIT,
        AttachmentClass::Input => IMAGE_USAGE_INPUT_ATTACHMENT_BIT,
        AttachmentClass::Depth => IMAGE_USAGE_DEPTH_STENCIL_ATTACHMENT_BIT,
    }
}

fn reference_to(class: AttachmentClass, attachment: &AttachmentRef) -> (reference:
    AttachmentReference)
    ensures
        reference == attachment_reference(class, *attachment),
{
    let layout = match class {
        AttachmentClass::Color => ImageLayout::ColorAttachmentOptimal,
        AttachmentClass::Input => ImageLayout::ColorAttachmentOptimal,
        AttachmentClass::Depth => ImageLayout::DepthStencilAttachmentOptimal,
    };
    AttachmentReference { attachment: attachment.id.index.0, layout }
}

fn make_description(format: Format, samples: SampleCountFlags, load_op: AttachmentLoadOp) -> (description:
    AttachmentDescription)
    ensures
        description == fresh_description(format, samples, load_op),
{
    AttachmentDescription {
        flags: 0,
        format,
        samples,
        load_op,
        store_op: AttachmentStoreOp::DontCare,
        stencil_load_op: load_op,
        stencil_store_op: AttachmentStoreOp::DontCare,
        initial_layout: ImageLayout::Undefined,
        final_layout: ImageLayout::Undefined,
    }
}

/// The attachment references behind a list of borrowed ones.
pub open spec fn referents(attachments: Seq<&AttachmentRef>) -> Seq<AttachmentRef> {
    attachments.map_values(|a: &AttachmentRef| *a)
}

/// The images behind a list of attachment references.
pub open spec fn images_of(attachments: Seq<AttachmentRef>) -> Seq<ImageId> {
    attachments.map_values(|a: AttachmentRef| a.id.img)
}

/// How a subpass refers to each attachment of a list that it binds as `class`.
pub open spec fn attachment_references(class: AttachmentClass, attachments: Seq<AttachmentRef>) -> Seq<
    AttachmentReference,
> {
    attachments.map_values(|a: AttachmentRef| attachment_reference(class, a))
}

/// Declares one subpass: the attachments it binds and the images it samples.
///
/// The builder borrows the task graph, the resource tracker and the render
/// passes of the frame for as long as it lives, and adds to them what each
/// declaration implies.
pub struct GraphicsTaskBuilder<'a> {
    pub graph: &'a mut FrameGraph,
    pub resources: &'a mut Resources,
    pub renderpasses: &'a mut RenderPasses,
    pub task: TaskId,
    pub graphics_task: GraphicsTask,
}

impl<'a> GraphicsTaskBuilder<'a> {
    /// The task that the builder declares.
    pub open spec fn task(&self) -> TaskId {
        self.task
    }

    /// What has been declared so far.
    pub open spec fn details(&self) -> GraphicsTaskView {
        self.graphics_task@
    }

    /// The render pass of which the task is a subpass.
    pub open spec fn renderpass(&self) -> RenderPassId {
        self.details().renderpass
    }

    /// The invariant of a builder: the graph and the render passes are well
    /// formed and hold the builder's task and render pass.
    pub open spec fn wf(&self) -> bool {
        &&& self.graph.wf()
        &&& self.renderpasses.wf()
        &&& self.graph.has_task(self.task())
        &&& self.renderpasses.has_pass(self.renderpass())
    }

    /// Whether the rules of a frame hold of the graph and the render passes
    /// that the builder works on, and the builder's task is a subpass of its
    /// render pass.
    pub open spec fn follows_rules(&self) -> bool {
        &&& follows_rules(*self.graph, *self.renderpasses)
        &&& in_pass(subpasses_of(*self.renderpasses), self.renderpass().0 as int, self.task())
    }

    /// Whether `src` is a subpass of the builder's render pass.
    pub open spec fn same_pass(&self, src: TaskId) -> bool {
        self.renderpasses.pass(self.renderpass()).tasks().contains(src)
    }

    /// The layout that the tracker records for image `img`.
    pub open spec fn recorded_layout(&self, img: ImageId) -> ImageLayout {
        self.resources.images()[img.0 as int].create_info.initial_layout
    }

    /// The edges that a dependency on `src` adds: one, or none where `src` is
    /// the builder's own task.
    pub open spec fn edges_from(&self, src: TaskId, dependency: Dependency) -> Seq<Edge> {
        if src == self.task() {
            Seq::empty()
        } else {
            seq![Edge { src, dst: self.task(), dependency }]
        }
    }

    /// Whether the builder's task may come to depend on `src`.
    pub open spec fn check_source(&self, src: TaskId) -> Result<(), GraphError> {
        if src == self.task() {
            Ok(())
        } else {
            self.graph.check_dependency(src, self.task())
        }
    }

    /// What `sample_image` answers for `img`.
    pub open spec fn check_sample(&self, img: ImageRef) -> Result<(), FrameError> {
        if img.written {
            Err(FrameError::Hazard(HazardError::ReadWriteConflict))
        } else if self.resources.check_usage(img.id, IMAGE_USAGE_SAMPLED_BIT) is Err {
            Err(FrameError::Resource(self.resources.check_usage(img.id, IMAGE_USAGE_SAMPLED_BIT)->Err_0))
        } else if self.check_source(img.task) is Err {
            Err(FrameError::Graph(self.check_source(img.task)->Err_0))
        } else {
            Ok(())
        }
    }

    /// The dependency that sampling `img` puts on the task that wrote it.
    pub open spec fn sample_dependency_of(&self, img: ImageRef) -> Dependency {
        sample_dependency(img, self.same_pass(img.task), self.recorded_layout(img.id))
    }

    /// Whether the builder is as `new` makes it for a task named `name` in
    /// `renderpass`, on a frame with the given parts: the task is the next
    /// task of the graph and the next subpass of the render pass, it does
    /// nothing as yet, and nothing else has changed.
    pub open spec fn starts(
        &self,
        name: String,
        renderpass: RenderPassId,
        graph: FrameGraph,
        resources: Resources,
        renderpasses: RenderPasses,
    ) -> bool {
        &&& self.task().0 == graph.tasks().len()
        &&& self.details() == (GraphicsTaskView {
            renderpass,
            color_attachments: Seq::empty(),
            input_attachments: Seq::empty(),
            resolve_attachments: Seq::empty(),
            depth_attachment: None,
            shader_images: Seq::empty(),
        })
        &&& self.graph.tasks() == graph.tasks().push(
            Task { name, queue: 0, details: TaskDetails::Other },
        )
        &&& self.graph.edges() == graph.edges()
        &&& *self.resources == resources
        &&& self.renderpasses.passes().len() == renderpasses.passes().len()
        &&& forall|i: int|
            0 <= i < renderpasses.passes().len() && i != renderpass.0
                ==> self.renderpasses.passes()[i] == renderpasses.passes()[i]
        &&& self.renderpasses.pass(renderpass).descriptions() == renderpasses.pass(
            renderpass,
        ).descriptions()
        &&& self.renderpasses.pass(renderpass).images() == renderpasses.pass(renderpass).images()
        &&& self.renderpasses.pass(renderpass).tasks() == renderpasses.pass(renderpass).tasks().push(
            self.task(),
        )
    }

    /// Starts the declaration of a task named `name` as the next subpass of
    /// `renderpass`. The task enters the graph at once, so that dependencies
    /// can be attached to it; what it does is filled in by `finish`.
    pub fn new(
        name: String,
        renderpass: RenderPassId,
        graph: &'a mut FrameGraph,
        resources: &'a mut Resources,
        renderpasses: &'a mut RenderPasses,
    ) -> (builder: GraphicsTaskBuilder<'a>)
        requires
            old(graph).wf(),
            old(renderpasses).wf(),
            old(renderpasses).has_pass(renderpass),
        ensures
            builder.wf(),
            builder.starts(name, renderpass, *old(graph), *old(resources), *old(renderpasses)),
            *final(graph) == *final(builder.graph),
            *final(resources) == *final(builder.resources),
            *final(renderpasses) == *final(builder.renderpasses),
            follows_rules(*old(graph), *old(renderpasses)) ==> builder.follows_rules(),
    {
        let task = graph.create_task(name, 0, TaskDetails::Other);
        let known = renderpasses.add_task(renderpass, task);
        proof {
            let before = subpasses_of(*old(renderpasses));
            let after = subpasses_of(*renderpasses);
            assert(after =~= before.update(renderpass.0 as int, before[renderpass.0 as int].push(task)));
            if follows_rules(*old(graph), *old(renderpasses)) {
                lemma_rules_after_new_subpass(
                    old(graph).tasks().len(),
                    graph.edges(),
                    before,
                    after,
                    renderpass.0 as int,
                    task,
                );
            }
        }
        GraphicsTaskBuilder {
            graph,
            resources,
            renderpasses,
            task,
            graphics_task: GraphicsTask {
                renderpass,
                shader_images: Vec::new(),
                color_attachments: Vec::new(),
                input_attachments: Vec::new(),
                resolve_attachments: Vec::new(),
                depth_attachment: None,
            },
        }
    }

    /// The identifier of the task that the builder declares.
    pub fn task_id(&self) -> (task: TaskId)
        ensures
            task == self.task(),
    {
        self.task
    }

    /// Declares that the task samples `img`.
    ///
    /// Marks `img` as read, declares the sampled usage for its image, makes
    /// the task depend on the task that wrote the image, unless that is the
    /// task itself, and records the image among those that the task samples.
    /// A reference that is written, a usage that the image's storage was not
    /// allocated for, and a dependency that the graph refuses are each
    /// refused, and then nothing changes.
    pub fn sample_image(&mut self, img: &mut ImageRef) -> (result: Result<(), FrameError>)
        requires
            old(self).wf(),
        ensures
            final(self).wf(),
            final(self).task() == old(self).task(),
            *final(final(self).graph) == *final(old(self).graph),
            *final(final(self).resources) == *final(old(self).resources),
            *final(final(self).renderpasses) == *final(old(self).renderpasses),
            old(self).follows_rules() ==> final(self).follows_rules(),
            result == old(self).check_sample(*old(img)),
            *final(self).renderpasses == *old(self).renderpasses,
            final(self).graph.tasks() == old(self).graph.tasks(),
            result is Err ==> {
                &&& *final(img) == *old(img)
                &&& final(self).graph.edges() == old(self).graph.edges()
                &&& final(self).resources.images() == old(self).resources.images()
                &&& final(self).details() == old(self).details()
            },
            result is Ok ==> {
                &&& *final(img) == (ImageRef { read: true, ..*old(img) })
                &&& final(self).graph.edges() == old(self).graph.edges() + old(self).edges_from(
                    old(img).task,
                    old(self).sample_dependency_of(*old(img)),
                )
                &&& final(self).resources.images() == old(self).resources.images_with_usage(
                    old(img).id,
                    IMAGE_USAGE_SAMPLED_BIT,
                )
                &&& final(self).details() == (GraphicsTaskView {
                    shader_images: old(self).details().shader_images.push(old(img).id),
                    ..old(self).details()
                })
            },
    {
        if img.written {
            return Err(FrameError::Hazard(HazardError::ReadWriteConflict));
        }
        match self.resources.check_image_usage(img.id, IMAGE_USAGE_SAMPLED_BIT) {
            Ok(()) => {},
            Err(e) => {
                return Err(FrameError::Resource(e));
            },
        }
        let info = match self.resources.get_image_create_info(img.id) {
            Some(info) => info,
            None => {
                return Err(FrameError::Resource(ResourceError::UnknownImage));
            },
        };
        if img.task.0 != self.task.0 {
            let same_pass = self.renderpasses.contains_task(self.graphics_task.renderpass, img.task);
            let dependency = Dependency {
                src_stage_mask: img.src_stage_mask,
                dst_stage_mask: PIPELINE_STAGE_VERTEX_SHADER_BIT,
                barrier: make_barrier(
                    same_pass,
                    img.id,
                    info.initial_layout,
                    ImageLayout::ShaderReadOnlyOptimal,
                    ImageLayout::ShaderReadOnlyOptimal,
                    ACCESS_SHADER_READ_BIT,
                ),
                latency: img.latency,
            };
            match self.graph.add_dependency(img.task, self.task, dependency) {
                Ok(()) => {},
                Err(e) => {
                    return Err(FrameError::Graph(e));
                },
            }
            proof {
                if old(self).follows_rules() {
                    lemma_rules_after_dependency(
                        self.graph.tasks().len(),
                        old(self).graph.edges(),
                        subpasses_of(*self.renderpasses),
                        self.renderpass().0 as int,
                        Edge { src: img.task, dst: self.task, dependency },
                    );
                }
            }
        }
        let declared = self.resources.add_or_check_image_usage(img.id, IMAGE_USAGE_SAMPLED_BIT);
        assert(declared is Ok);
        img.read = true;
        self.graphics_task.shader_images.push(img.id);
        Ok(())
    }

    /// What binding `attachment` as `class` answers.
    pub open spec fn check_attachment(&self, class: AttachmentClass, attachment: AttachmentRef) -> Result<
        (),
        FrameError,
    > {
        let usage = self.resources.check_usage(attachment.id.img, attachment_usage(class));
        if attachment.id.renderpass != self.renderpass() || !self.renderpasses.has_attachment(
            attachment.id,
        ) {
            Err(FrameError::RenderPass(RenderPassError::UnknownAttachment))
        } else if usage is Err {
            Err(FrameError::Resource(usage->Err_0))
        } else if self.check_source(attachment.task) is Err {
            Err(FrameError::Graph(self.check_source(attachment.task)->Err_0))
        } else {
            Ok(())
        }
    }

    /// The dependency that binding `attachment` as `class` puts on the task
    /// that owns it.
    pub open spec fn attachment_dependency_of(
        &self,
        class: AttachmentClass,
        attachment: AttachmentRef,
    ) -> Dependency {
        attachment_dependency(
            class,
            attachment,
            self.same_pass(attachment.task),
            self.recorded_layout(attachment.id.img),
        )
    }

    /// The edges that binding `attachment` as `class` adds to the graph.
    pub open spec fn binding_edges(&self, class: AttachmentClass, attachment: AttachmentRef) -> Seq<
        Edge,
    > {
        self.edges_from(attachment.task, self.attachment_dependency_of(class, attachment))
    }

    /// Every edge that the builder adds is enforced as the render passes
    /// demand: by a subpass barrier where the task at the source is a subpass
    /// of the builder's render pass, and by an image barrier where it is not.
    /// No edge leads from the builder's task to itself.
    pub proof fn lemma_added_edges_follow_passes(
        &self,
        class: AttachmentClass,
        attachment: AttachmentRef,
        img: ImageRef,
    )
        ensures
            forall|i: int|
                0 <= i < self.binding_edges(class, attachment).len() ==> {
                    let edge = #[trigger] self.binding_edges(class, attachment)[i];
                    &&& edge.src != self.task()
                    &&& edge.dst == self.task()
                    &&& edge.dependency.barrier is Subpass <==> self.same_pass(edge.src)
                    &&& edge.dependency.barrier is Image <==> !self.same_pass(edge.src)
                },
            forall|i: int|
                0 <= i < self.edges_from(img.task, self.sample_dependency_of(img)).len() ==> {
                    let edge = #[trigger] self.edges_from(
                        img.task,
                        self.sample_dependency_of(img),
                    )[i];
                    &&& edge.src != self.task()
                    &&& edge.dst == self.task()
                    &&& edge.dependency.barrier is Subpass <==> self.same_pass(edge.src)
                    &&& edge.dependency.barrier is Image <==> !self.same_pass(edge.src)
                },
    {
    }

    /// Whether binding `attachment` as `class` would be accepted.
    fn check_binding(&self, class: AttachmentClass, attachment: &AttachmentRef) -> (result: Result<
        (),
        FrameError,
    >)
        requires
            self.wf(),
        ensures
            result == self.check_attachment(class, *attachment),
    {
        if attachment.id.renderpass.0 != self.graphics_task.renderpass.0
            || !self.renderpasses.contains_attachment(attachment.id) {
            return Err(FrameError::RenderPass(RenderPassError::UnknownAttachment));
        }
        match self.resources.check_image_usage(attachment.id.img, usage_of_class(class)) {
            Ok(()) => {},
            Err(e) => {
                return Err(FrameError::Resource(e));
            },
        }
        if attachment.task.0 != self.task.0 {
            match self.graph.check(attachment.task, self.task) {
                Ok(()) => {},
                Err(e) => {
                    return Err(FrameError::Graph(e));
                },
            }
        }
        Ok(())
    }

    /// Declares the usage of class `class` for the image of `attachment`, and
    /// makes the task depend on the task that owns the attachment, unless that
    /// is the task itself.
    fn bind(&mut self, class: AttachmentClass, attachment: &AttachmentRef)
        requires
            old(self).wf(),
            old(self).check_attachment(class, *attachment) is Ok,
        ensures
            final(self).wf(),
            final(self).task == old(self).task,
            final(self).graphics_task == old(self).graphics_task,
            *final(final(self).graph) == *final(old(self).graph),
            *final(final(self).resources) == *final(old(self).resources),
            *final(final(self).renderpasses) == *final(old(self).renderpasses),
            old(self).follows_rules() ==> final(self).follows_rules(),
            *final(self).renderpasses == *old(self).renderpasses,
            final(self).graph.tasks() == old(self).graph.tasks(),
            final(self).graph.edges() == old(self).graph.edges() + old(self).binding_edges(
                class,
                *attachment,
            ),
            final(self).resources.images() == old(self).resources.images_with_usage(
                attachment.id.img,
                attachment_usage(class),
            ),
    {
        if attachment.task.0 != self.task.0 {
            let same_pass = self.renderpasses.contains_task(
                self.graphics_task.renderpass,
                attachment.task,
            );
            let recorded = match self.resources.get_image_create_info(attachment.id.img) {
                Some(info) => info.initial_layout,
                None => ImageLayout::Undefined,
            };
            let dependency = make_attachment_dependency(class, attachment, same_pass, recorded);
            let added = self.graph.add_dependency(attachment.task, self.task, dependency);
            assert(added is Ok);
            proof {
                if old(self).follows_rules() {
                    lemma_rules_after_dependency(
                        self.graph.tasks().len(),
                        old(self).graph.edges(),
                        subpasses_of(*self.renderpasses),
                        self.renderpass().0 as int,
                        Edge { src: attachment.task, dst: self.task, dependency },
                    );
                }
            }
        }
        let declared = self.resources.add_or_check_image_usage(
            attachment.id.img,
            usage_of_class(class),
        );
        assert(declared is Ok);
    }

    /// Binds `depth_attachment` as the depth attachment of the subpass.
    ///
    /// Declares the depth-stencil usage for its image and makes the task
    /// depend on the task that owns the attachment, unless that is the task
    /// itself. An attachment of another render pass, a usage that the image's
    /// storage was not allocated for, and a dependency that the graph refuses
    /// are each refused, and then nothing changes.
    pub fn set_depth_attachment(&mut self, depth_attachment: &AttachmentRef) -> (result: Result<
        (),
        FrameError,
    >)
        requires
            old(self).wf(),
        ensures
            final(self).wf(),
            final(self).task() == old(self).task(),
            *final(final(self).graph) == *final(old(self).graph),
            *final(final(self).resources) == *final(old(self).resources),
            *final(final(self).renderpasses) == *final(old(self).renderpasses),
            old(self).follows_rules() ==> final(self).follows_rules(),
            result == old(self).check_attachment(AttachmentClass::Depth, *depth_attachment),
            *final(self).renderpasses == *old(self).renderpasses,
            final(self).graph.tasks() == old(self).graph.tasks(),
            result is Err ==> {
                &&& final(self).graph.edges() == old(self).graph.edges()
                &&& final(self).resources.images() == old(self).resources.images()
                &&& final(self).details() == old(self).details()
            },
            result is Ok ==> {
                &&& final(self).graph.edges() == old(self).graph.edges() + old(self).binding_edges(
                    AttachmentClass::Depth,
                    *depth_attachment,
                )
                &&& final(self).resources.images() == old(self).resources.images_with_usage(
                    depth_attachment.id.img,
                    IMAGE_USAGE_DEPTH_STENCIL_ATTACHMENT_BIT,
                )
                &&& final(self).details() == (GraphicsTaskView {
                    depth_attachment: Some(
                        attachment_reference(AttachmentClass::Depth, *depth_attachment),
                    ),
                    ..old(self).details()
                })
            },
    {
        match self.check_binding(AttachmentClass::Depth, depth_attachment) {
            Ok(()) => {},
            Err(e) => {
                return Err(e);
            },
        }
        self.bind(AttachmentClass::Depth, depth_attachment);
        self.graphics_task.depth_attachment = Some(
            reference_to(AttachmentClass::Depth, depth_attachment),
        );
        Ok(())
    }

    /// What binding each attachment of a list as `class` answers: the answer
    /// for the first attachment that is refused, if one is.
    pub open spec fn check_attachments(
        &self,
        class: AttachmentClass,
        attachments: Seq<AttachmentRef>,
    ) -> Result<(), FrameError>
        decreases attachments.len(),
    {
        if attachments.len() == 0 {
            Ok(())
        } else if self.check_attachments(class, attachments.drop_last()) is Err {
            self.check_attachments(class, attachments.drop_last())
        } else {
            self.check_attachment(class, attachments.last())
        }
    }

    /// The edges that binding each attachment of a list as `class` adds to the
    /// graph, in the order of the list.
    pub open spec fn bindings_edges(&self, class: AttachmentClass, attachments: Seq<AttachmentRef>) -> Seq<
        Edge,
    >
        decreases attachments.len(),
    {
        if attachments.len() == 0 {
            Seq::empty()
        } else {
            self.bindings_edges(class, attachments.drop_last()) + self.binding_edges(
                class,
                attachments.last(),
            )
        }
    }

    /// A list is accepted exactly when each of its attachments is.
    pub proof fn lemma_check_attachments(&self, class: AttachmentClass, attachments: Seq<AttachmentRef>)
        ensures
            self.check_attachments(class, attachments) is Ok <==> forall|j: int|
                0 <= j < attachments.len() ==> self.check_attachment(
                    class,
                    #[trigger] attachments[j],
                ) is Ok,
        decreases attachments.len(),
    {
        if attachments.len() > 0 {
            let rest = attachments.drop_last();
            self.lemma_check_attachments(class, rest);
            if self.check_attachments(class, attachments) is Ok {
                assert forall|j: int| 0 <= j < attachments.len() implies self.check_attachment(
                    class,
                    #[trigger] attachments[j],
                ) is Ok by {
                    if j < rest.len() {
                        assert(rest[j] == attachments[j]);
                    }
                }
            }
            if forall|j: int|
                0 <= j < attachments.len() ==> self.check_attachment(
                    class,
                    #[trigger] attachments[j],
                ) is Ok {
                assert forall|j: int| 0 <= j < rest.len() implies self.check_attachment(
                    class,
                    #[trigger] rest[j],
                ) is Ok by {
                    assert(rest[j] == attachments[j]);
                }
                assert(self.check_attachment(class, attachments[attachments.len() - 1]) is Ok);
            }
        }
    }

    /// The answer for a list is that for its first refused attachment.
    proof fn lemma_first_refusal(
        &self,
        class: AttachmentClass,
        attachments: Seq<AttachmentRef>,
        i: int,
        k: int,
    )
        requires
            0 <= i < k <= attachments.len(),
            self.check_attachments(class, attachments.take(i)) is Ok,
            self.check_attachment(class, attachments[i]) is Err,
        ensures
            self.check_attachments(class, attachments.take(k)) == self.check_attachment(
                class,
                attachments[i],
            ),
        decreases k - i,
    {
        let upto = attachments.take(k);
        assert(upto.drop_last() =~= attachments.take(k - 1));
        if k - 1 > i {
            self.lemma_first_refusal(class, attachments, i, k - 1);
        } else {
            assert(upto.last() == attachments[i]);
        }
    }

    /// Whether binding each attachment of a list as `class` would be accepted.
    fn check_bindings(&self, class: AttachmentClass, attachments: &[&AttachmentRef]) -> (result:
        Result<(), FrameError>)
        requires
            self.wf(),
        ensures
            result == self.check_attachments(class, referents(attachments@)),
    {
        let ghost all = referents(attachments@);
        let mut i: usize = 0;
        assert(all.take(0) =~= Seq::<AttachmentRef>::empty());
        while i < attachments.len()
            invariant
                self.wf(),
                all == referents(attachments@),
                i <= attachments.len(),
                self.check_attachments(class, all.take(i as int)) is Ok,
            decreases attachments.len() - i,
        {
            match self.check_binding(class, attachments[i]) {
                Ok(()) => {},
                Err(e) => {
                    proof {
                        self.lemma_first_refusal(class, all, i as int, all.len() as int);
                        assert(all.take(all.len() as int) =~= all);
                    }
                    return Err(e);
                },
            }
            proof {
                assert(all.take(i + 1).drop_last() =~= all.take(i as int));
            }
            i = i + 1;
        }
        assert(all.take(i as int) =~= all);
        Ok(())
    }

    /// Binds each attachment of a list as `class`, in the order of the list,
    /// and returns how the subpass refers to each.
    fn bind_all(&mut self, class: AttachmentClass, attachments: &[&AttachmentRef]) -> (references:
        Vec<AttachmentReference>)
        requires
            old(self).wf(),
            old(self).check_attachments(class, referents(attachments@)) is Ok,
        ensures
            final(self).wf(),
            final(self).task == old(self).task,
            final(self).graphics_task == old(self).graphics_task,
            *final(final(self).graph) == *final(old(self).graph),
            *final(final(self).resources) == *final(old(self).resources),
            *final(final(self).renderpasses) == *final(old(self).renderpasses),
            old(self).follows_rules() ==> final(self).follows_rules(),
            *final(self).renderpasses == *old(self).renderpasses,
            final(self).graph.tasks() == old(self).graph.tasks(),
            final(self).graph.edges() == old(self).graph.edges() + old(self).bindings_edges(
                class,
                referents(attachments@),
            ),
            final(self).resources.images() == images_after_usages(
                old(self).resources.images(),
                images_of(referents(attachments@)),
                attachment_usage(class),
            ),
            references@ == attachment_references(class, referents(attachments@)),
    {
        let ghost all = referents(attachments@);
        let ghost ids = images_of(all);
        let ghost usage = attachment_usage(class);
        let mut references: Vec<AttachmentReference> = Vec::new();
        let mut i: usize = 0;
        proof {
            self.lemma_check_attachments(class, all);
            assert(all.take(0) =~= Seq::<AttachmentRef>::empty());
            assert(ids.take(0) =~= Seq::<ImageId>::empty());
        }
        while i < attachments.len()
            invariant
                self.wf(),
                all == referents(attachments@),
                ids == images_of(all),
                usage == attachment_usage(class),
                i <= attachments.len(),
                self.task == old(self).task,
                self.graphics_task == old(self).graphics_task,
                *final(self.graph) == *final(old(self).graph),
                *final(self.resources) == *final(old(self).resources),
                *final(self.renderpasses) == *final(old(self).renderpasses),
                *self.renderpasses == *old(self).renderpasses,
                old(self).follows_rules() ==> self.follows_rules(),
                self.graph.tasks() == old(self).graph.tasks(),
                self.resources.images().len() == old(self).resources.images().len(),
                forall|k: int|
                    0 <= k < self.resources.images().len() ==> (
                    #[trigger] self.resources.images()[k]).create_info.initial_layout == old(self).resources.images()[k].create_info.initial_layout,
                forall|j: int|
                    0 <= j < all.len() ==> self.check_attachment(class, #[trigger] all[j]) is Ok,
                self.graph.edges() == old(self).graph.edges() + old(self).bindings_edges(
                    class,
                    all.take(i as int),
                ),
                self.resources.images() == images_after_usages(
                    old(self).resources.images(),
                    ids.take(i as int),
                    usage,
                ),
                references@ == attachment_references(class, all.take(i as int)),
            decreases attachments.len() - i,
        {
            let attachment = attachments[i];
            let ghost links = self.graph.links();
            let ghost edges = self.graph.edges();
            let ghost images = self.resources.images();
            assert(*attachment == all[i as int]);
            assert(self.binding_edges(class, *attachment) == old(self).binding_edges(
                class,
                *attachment,
            ));
            self.bind(class, attachment);
            references.push(reference_to(class, attachment));
            proof {
                assert(all.take(i + 1).drop_last() =~= all.take(i as int));
                assert(ids.take(i + 1).drop_last() =~= ids.take(i as int));
                assert(ids.take(i + 1).last() == attachment.id.img);
                assert(all.take(i + 1).last() == *attachment);
                assert(references@ =~= attachment_references(class, all.take(i + 1)));
                assert forall|j: int| 0 <= j < all.len() implies self.check_attachment(
                    class,
                    #[trigger] all[j],
                ) is Ok by {
                    let other = all[j];
                    if attachment.task != self.task {
                        assert(self.graph.links() =~= links.push(
                            (attachment.task.0 as int, self.task.0 as int),
                        ));
                        lemma_link_into_keeps_reach(
                            links,
                            attachment.task.0 as int,
                            self.task.0 as int,
                            other.task.0 as int,
                        );
                    } else {
                        assert(self.graph.edges() =~= edges);
                    }
                }
            }
            i = i + 1;
        }
        proof {
            assert(all.take(i as int) =~= all);
            assert(ids.take(i as int) =~= ids);
        }
        references
    }

    /// Binds `input_attachments` as the input attachments of the subpass, in
    /// place of those bound before.
    ///
    /// For each attachment, in the order of the list, declares the
    /// input-attachment usage for its image and makes the task depend on the
    /// task that owns the attachment, unless that is the task itself. If any
    /// attachment of the list is refused, the whole list is, with the answer
    /// for the first such attachment, and nothing changes.
    pub fn set_input_attachments(&mut self, input_attachments: &[&AttachmentRef]) -> (result:
        Result<(), FrameError>)
        requires
            old(self).wf(),
        ensures
            final(self).wf(),
            final(self).task() == old(self).task(),
            *final(final(self).graph) == *final(old(self).graph),
            *final(final(self).resources) == *final(old(self).resources),
            *final(final(self).renderpasses) == *final(old(self).renderpasses),
            old(self).follows_rules() ==> final(self).follows_rules(),
            result == old(self).check_attachments(
                AttachmentClass::Input,
                referents(input_attachments@),
            ),
            *final(self).renderpasses == *old(self).renderpasses,
            final(self).graph.tasks() == old(self).graph.tasks(),
            result is Err ==> {
                &&& final(self).graph.edges() == old(self).graph.edges()
                &&& final(self).resources.images() == old(self).resources.images()
                &&& final(self).details() == old(self).details()
            },
            result is Ok ==> {
                &&& final(self).graph.edges() == old(self).graph.edges() + old(self).bindings_edges(
                    AttachmentClass::Input,
                    referents(input_attachments@),
                )
                &&& final(self).resources.images() == images_after_usages(
                    old(self).resources.images(),
                    images_of(referents(input_attachments@)),
                    IMAGE_USAGE_INPUT_ATTACHMENT_BIT,
                )
                &&& final(self).details() == (GraphicsTaskView {
                    input_attachments: attachment_references(
                        AttachmentClass::Input,
                        referents(input_attachments@),
                    ),
                    ..old(self).details()
                })
            },
    {
        match self.check_bindings(AttachmentClass::Input, input_attachments) {
            Ok(()) => {},
            Err(e) => {
                return Err(e);
            },
        }
        let references = self.bind_all(AttachmentClass::Input, input_attachments);
        self.graphics_task.input_attachments = references;
        Ok(())
    }

    /// Binds `color_attachments` as the colour attachments of the subpass, in
    /// place of those bound before.
    ///
    /// For each attachment, in the order of the list, declares the
    /// colour-attachment usage for its image and makes the task depend on the
    /// task that owns the attachment, unless that is the task itself. If any
    /// attachment of the list is refused, the whole list is, with the answer
    /// for the first such attachment, and nothing changes.
    pub fn set_color_attachments(&mut self, color_attachments: &[&AttachmentRef]) -> (result:
        Result<(), FrameError>)
        requires
            old(self).wf(),
        ensures
            final(self).wf(),
            final(self).task() == old(self).task(),
            *final(final(self).graph) == *final(old(self).graph),
            *final(final(self).resources) == *final(old(self).resources),
            *final(final(self).renderpasses) == *final(old(self).renderpasses),
            old(self).follows_rules() ==> final(self).follows_rules(),
            result == old(self).check_attachments(
                AttachmentClass::Color,
                referents(color_attachments@),
            ),
            *final(self).renderpasses == *old(self).renderpasses,
            final(self).graph.tasks() == old(self).graph.tasks(),
            result is Err ==> {
                &&& final(self).graph.edges() == old(self).graph.edges()
                &&& final(self).resources.images() == old(self).resources.images()
                &&& final(self).details() == old(self).details()
            },
            result is Ok ==> {
                &&& final(self).graph.edges() == old(self).graph.edges() + old(self).bindings_edges(
                    AttachmentClass::Color,
                    referents(color_attachments@),
                )
                &&& final(self).resources.images() == images_after_usages(
                    old(self).resources.images(),
                    images_of(referents(color_attachments@)),
                    IMAGE_USAGE_COLOR_ATTACHMENT_BIT,
                )
                &&& final(self).details() == (GraphicsTaskView {
                    color_attachments: attachment_references(
                        AttachmentClass::Color,
                        referents(color_attachments@),
                    ),
                    ..old(self).details()
                })
            },
    {
        match self.check_bindings(AttachmentClass::Color, color_attachments) {
            Ok(()) => {},
            Err(e) => {
                return Err(e);
            },
        }
        let references = self.bind_all(AttachmentClass::Color, color_attachments);
        self.graphics_task.color_attachments = references;
        Ok(())
    }

    /// What `load_attachment` answers for `img`.
    pub open spec fn check_load(&self, img: ImageRef) -> Result<AttachmentRef, FrameError> {
        let added = self.renderpasses.check_add_attachment(self.renderpass());
        if !self.resources.has_image(img.id) {
            Err(FrameError::Resource(ResourceError::UnknownImage))
        } else if added is Err {
            Err(FrameError::RenderPass(added->Err_0))
        } else {
            Ok(
                AttachmentRef {
                    id: AttachmentId {
                        renderpass: self.renderpass(),
                        index: added->Ok_0,
                        img: img.id,
                    },
                    task: img.task,
                    src_stage_mask: PIPELINE_STAGE_TOP_OF_PIPE_BIT,
                    read: false,
                    written: false,
                    latency: 0,
                },
            )
        }
    }

    /// Brings the image of `img` into the builder's render pass as a new
    /// attachment, loaded as `load_op` says, and returns a reference to it.
    ///
    /// The attachment takes the format and the sample count of the image, and
    /// the next free index of the pass. It is owned by the task that wrote the
    /// image. No dependency is added: loading asks no work of the GPU. An
    /// image that the tracker does not know and a pass that is full are
    /// refused, and then nothing changes.
    pub fn load_attachment(&mut self, img: &ImageRef, load_op: AttachmentLoadOp) -> (result: Result<
        AttachmentRef,
        FrameError,
    >)
        requires
            old(self).wf(),
        ensures
            final(self).wf(),
            final(self).task() == old(self).task(),
            final(self).details() == old(self).details(),
            *final(final(self).graph) == *final(old(self).graph),
            *final(final(self).resources) == *final(old(self).resources),
            *final(final(self).renderpasses) == *final(old(self).renderpasses),
            old(self).follows_rules() ==> final(self).follows_rules(),
            result == old(self).check_load(*img),
            *final(self).graph == *old(self).graph,
            *final(self).resources == *old(self).resources,
            final(self).renderpasses.passes().len() == old(self).renderpasses.passes().len(),
            forall|i: int|
                0 <= i < old(self).renderpasses.passes().len() && (i != old(self).renderpass().0
                    || result is Err) ==> final(self).renderpasses.passes()[i] == old(self).renderpasses.passes()[i],
            result is Ok ==> {
                let before = old(self).renderpasses.pass(old(self).renderpass());
                let after = final(self).renderpasses.pass(old(self).renderpass());
                let info = old(self).resources.images()[img.id.0 as int].create_info;
                &&& after.descriptions() == before.descriptions().push(
                    fresh_description(info.format, info.samples, load_op),
                )
                &&& after.images() == before.images().push(img.id)
                &&& after.tasks() == before.tasks()
            },
    {
        let info = match self.resources.get_image_create_info(img.id) {
            Some(info) => info,
            None => {
                return Err(FrameError::Resource(ResourceError::UnknownImage));
            },
        };
        let description = make_description(info.format, info.samples, load_op);
        let added = self.renderpasses.add_attachment(
            self.graphics_task.renderpass,
            img.id,
            description,
        );
        proof {
            lemma_same_subpasses(*old(self).renderpasses, *self.renderpasses);
        }
        let index = match added {
            Ok(index) => index,
            Err(e) => {
                return Err(FrameError::RenderPass(e));
            },
        };
        Ok(
            AttachmentRef {
                id: AttachmentId { renderpass: self.graphics_task.renderpass, index, img: img.id },
                task: img.task,
                src_stage_mask: PIPELINE_STAGE_TOP_OF_PIPE_BIT,
                read: false,
                written: false,
                latency: 0,
            },
        )
    }

    /// What `store_attachment` answers for `attachment`.
    pub open spec fn check_store(&self, attachment: AttachmentRef) -> Result<ImageRef, FrameError> {
        if attachment.id.renderpass != self.renderpass() || !self.renderpasses.has_attachment(
            attachment.id,
        ) {
            Err(FrameError::RenderPass(RenderPassError::UnknownAttachment))
        } else {
            Ok(
                ImageRef {
                    id: attachment.id.img,
                    task: self.task(),
                    src_stage_mask: PIPELINE_STAGE_COLOR_ATTACHMENT_OUTPUT_BIT,
                    read: false,
                    written: false,
                    latency: 0,
                },
            )
        }
    }

    /// Settles how the render pass stores `attachment_ref`, and returns a
    /// reference to its image for later tasks: written by the builder's task, at the
    /// attachment-output stage.
    ///
    /// The store operation is set for colour or depth and for stencil alike.
    /// An attachment that is not of the builder's render pass is refused, and
    /// then nothing changes.
    pub fn store_attachment(&mut self, attachment_ref: AttachmentRef, store_op: AttachmentStoreOp) -> (result:
        Result<ImageRef, FrameError>)
        requires
            old(self).wf(),
        ensures
            final(self).wf(),
            final(self).task() == old(self).task(),
            final(self).details() == old(self).details(),
            *final(final(self).graph) == *final(old(self).graph),
            *final(final(self).resources) == *final(old(self).resources),
            *final(final(self).renderpasses) == *final(old(self).renderpasses),
            old(self).follows_rules() ==> final(self).follows_rules(),
            result == old(self).check_store(attachment_ref),
            *final(self).graph == *old(self).graph,
            *final(self).resources == *old(self).resources,
            final(self).renderpasses.passes().len() == old(self).renderpasses.passes().len(),
            forall|i: int|
                0 <= i < old(self).renderpasses.passes().len() && (i != old(self).renderpass().0
                    || result is Err) ==> final(self).renderpasses.passes()[i] == old(self).renderpasses.passes()[i],
            result is Ok ==> {
                let before = old(self).renderpasses.pass(old(self).renderpass());
                let after = final(self).renderpasses.pass(old(self).renderpass());
                &&& after.descriptions() == before.descriptions().update(
                    attachment_ref.id.index.0 as int,
                    crate::renderpass::stored(
                        before.descriptions()[attachment_ref.id.index.0 as int],
                        store_op,
                    ),
                )
                &&& after.images() == before.images()
                &&& after.tasks() == before.tasks()
            },
    {
        if attachment_ref.id.renderpass.0 != self.graphics_task.renderpass.0 {
            return Err(FrameError::RenderPass(RenderPassError::UnknownAttachment));
        }
        let known = self.renderpasses.set_store_op(attachment_ref.id, store_op);
        proof {
            lemma_same_subpasses(*old(self).renderpasses, *self.renderpasses);
        }
        if !known {
            return Err(FrameError::RenderPass(RenderPassError::UnknownAttachment));
        }
        Ok(
            ImageRef {
                id: attachment_ref.id.img,
                task: self.task,
                src_stage_mask: PIPELINE_STAGE_COLOR_ATTACHMENT_OUTPUT_BIT,
                read: false,
                written: false,
                latency: 0,
            },
        )
    }

    /// Whether the builder's render pass has room for one more attachment,
    /// and if it has, the index that the attachment takes.
    pub open spec fn check_room(&self) -> Result<AttachmentIndex, FrameError> {
        match self.renderpasses.check_add_attachment(self.renderpass()) {
            Ok(index) => Ok(index),
            Err(e) => Err(FrameError::RenderPass(e)),
        }
    }

    /// The reference to an attachment that the builder's task has created at
    /// `index` of its render pass, for the image `img`.
    pub open spec fn own_attachment(&self, index: AttachmentIndex, img: ImageId) -> AttachmentRef {
        AttachmentRef {
            id: AttachmentId { renderpass: self.renderpass(), index, img },
            task: self.task(),
            src_stage_mask: PIPELINE_STAGE_TOP_OF_PIPE_BIT,
            read: false,
            written: false,
            latency: 0,
        }
    }

    /// Creates an image of `extent` (width, height) and brings it into the
    /// builder's render pass as a new attachment, loaded as `load_op` says.
    ///
    /// The image is two-dimensional with one mip level and one layer, starts
    /// in the colour-attachment layout and has no usage yet: uses are declared
    /// as the attachment is bound. The attachment takes the next free index of
    /// the pass and is owned by the builder's task. No dependency is added, since
    /// nothing has written to the image. The image is the next image of the
    /// tracker: its identifier is the number of images before. A pass that is
    /// full refuses, and then nothing changes.
    pub fn create_attachment(
        &mut self,
        name: String,
        extent: (u32, u32),
        format: Format,
        samples: SampleCountFlags,
        load_op: AttachmentLoadOp,
    ) -> (result: Result<AttachmentRef, FrameError>)
        requires
            old(self).wf(),
        ensures
            final(self).wf(),
            final(self).task() == old(self).task(),
            final(self).details() == old(self).details(),
            *final(final(self).graph) == *final(old(self).graph),
            *final(final(self).resources) == *final(old(self).resources),
            *final(final(self).renderpasses) == *final(old(self).renderpasses),
            old(self).follows_rules() ==> final(self).follows_rules(),
            match result {
                Ok(attachment) => {
                    &&& old(self).check_room() is Ok
                    &&& attachment.id.img.0 == old(self).resources.images().len()
                    &&& attachment == old(self).own_attachment(
                        old(self).check_room()->Ok_0,
                        attachment.id.img,
                    )
                },
                Err(e) => old(self).check_room() == Err::<AttachmentIndex, FrameError>(e),
            },
            *final(self).graph == *old(self).graph,
            final(self).renderpasses.passes().len() == old(self).renderpasses.passes().len(),
            forall|i: int|
                0 <= i < old(self).renderpasses.passes().len() && (i != old(self).renderpass().0
                    || result is Err) ==> final(self).renderpasses.passes()[i] == old(self).renderpasses.passes()[i],
            result is Err ==> final(self).resources.images() == old(self).resources.images(),
            result is Ok ==> {
                let before = old(self).renderpasses.pass(old(self).renderpass());
                let after = final(self).renderpasses.pass(old(self).renderpass());
                &&& final(self).resources.images() == old(self).resources.images().push(
                    ImageResource {
                        name,
                        create_info: attachment_image_info(extent.0, extent.1, format, samples),
                        allocated: false,
                    },
                )
                &&& after.descriptions() == before.descriptions().push(
                    fresh_description(format, samples, load_op),
                )
                &&& after.images() == before.images().push(result->Ok_0.id.img)
                &&& after.tasks() == before.tasks()
            },
    {
        let renderpass = self.graphics_task.renderpass;
        let room = match self.renderpasses.get(renderpass) {
            Some(pass) => {
                assert(pass.wf());
                pass.attachment_count() + 1 < u32::MAX as usize
            },
            None => false,
        };
        if !room {
            return Err(FrameError::RenderPass(RenderPassError::TooManyAttachments));
        }
        let info = ImageCreateInfo {
            image_type: ImageType::Type2d,
            format,
            extent: Extent3D { width: extent.0, height: extent.1, depth: 1 },
            mip_levels: 1,
            array_layers: 1,
            samples,
            tiling: ImageTiling::Optimal,
            usage: 0,
            sharing_mode: SharingMode::Concurrent,
            initial_layout: ImageLayout::ColorAttachmentOptimal,
        };
        let img = self.resources.create_image(name, info);
        let description = make_description(format, samples, load_op);
        let added = self.renderpasses.add_attachment(renderpass, img, description);
        proof {
            lemma_same_subpasses(*old(self).renderpasses, *self.renderpasses);
        }
        let index = match added {
            Ok(index) => index,
            Err(e) => {
                return Err(FrameError::RenderPass(e));
            },
        };
        Ok(
            AttachmentRef {
                id: AttachmentId { renderpass, index, img },
                task: self.task,
                src_stage_mask: PIPELINE_STAGE_TOP_OF_PIPE_BIT,
                read: false,
                written: false,
                latency: 0,
            },
        )
    }

    /// Ends the declaration: what was declared becomes what the task does,
    /// and the borrowed parts of the frame are released. Returns the task.
    pub fn finish(self) -> (task: TaskId)
        requires
            self.wf(),
        ensures
            task == self.task(),
            final(self.graph).wf(),
            final(self.graph).edges() == old(self.graph).edges(),
            final(self.graph).tasks() == old(self.graph).tasks().update(
                task.0 as int,
                Task {
                    name: old(self.graph).tasks()[task.0 as int].name,
                    queue: old(self.graph).tasks()[task.0 as int].queue,
                    details: TaskDetails::Graphics(self.graphics_task),
                },
            ),
            *final(self.resources) == *old(self.resources),
            *final(self.renderpasses) == *old(self.renderpasses),
            self.follows_rules() ==> follows_rules(*final(self.graph), *final(self.renderpasses)),
    {
        let task = self.task;
        let known = self.graph.set_details(task, TaskDetails::Graphics(self.graphics_task));
        task
    }
}

} // verus!
