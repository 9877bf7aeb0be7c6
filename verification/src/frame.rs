//! A frame: its task graph, its images and its render passes, and the rules
//! that hold between them while the frame is built.

use crate::dag::is_execution_order;
use crate::graph::{Edge, FrameGraph, barriers_of, positions_of};
use crate::graphics::{FrameError, GraphicsTaskBuilder};
use crate::ids::{ImageId, RenderPassId, TaskId};
use crate::image::{Dimensions, MipmapsCount};
use crate::renderer::{Renderer, RendererBackend};
use crate::renderpass::{RenderPassError, RenderPasses};
use crate::resources::{ImageCreateInfo, ImageType, Resources, allocated, allocates};
use vstd::prelude::*;

verus! {

/// The subpasses of each render pass, pass by pass.
pub open spec fn subpasses_of(passes: RenderPasses) -> Seq<Seq<TaskId>> {
    Seq::new(passes.passes().len(), |p: int| passes.passes()[p].tasks())
}

/// Whether `task` is a subpass of the render pass at position `pass`.
pub open spec fn in_pass(subpasses: Seq<Seq<TaskId>>, pass: int, task: TaskId) -> bool {
    0 <= pass < subpasses.len() && subpasses[pass].contains(task)
}

/// Whether `a` and `b` are subpasses of one render pass.
pub open spec fn share_pass(subpasses: Seq<Seq<TaskId>>, a: TaskId, b: TaskId) -> bool {
    exists|pass: int| #[trigger] in_pass(subpasses, pass, a) && in_pass(subpasses, pass, b)
}

/// Whether every subpass is one of the first `tasks` tasks.
pub open spec fn subpasses_are_tasks(tasks: nat, subpasses: Seq<Seq<TaskId>>) -> bool {
    forall|pass: int, task: TaskId| #[trigger] in_pass(subpasses, pass, task) ==> task.0 < tasks
}

/// Whether no task is a subpass of two render passes.
pub open spec fn one_pass_each(subpasses: Seq<Seq<TaskId>>) -> bool {
    forall|p: int, q: int, task: TaskId|
        #[trigger] in_pass(subpasses, p, task) && #[trigger] in_pass(subpasses, q, task) ==> p == q
}

/// Whether every edge is enforced as the render passes demand: by a subpass
/// barrier between subpasses of one render pass, which synchronises its own
/// subpasses, and by an image barrier across render passes.
pub open spec fn barriers_follow_passes(edges: Seq<Edge>, subpasses: Seq<Seq<TaskId>>) -> bool {
    forall|i: int|
        0 <= i < edges.len() ==> ((#[trigger] edges[i]).dependency.barrier is Subpass <==> share_pass(
            subpasses,
            edges[i].src,
            edges[i].dst,
        ))
}

/// Whether both ends of every edge are among the first `tasks` tasks.
pub open spec fn edges_join_tasks(tasks: nat, edges: Seq<Edge>) -> bool {
    forall|i: int| 0 <= i < edges.len() ==> (#[trigger] edges[i]).src.0 < tasks && edges[i].dst.0 < tasks
}

/// The rules of a frame of `tasks` tasks: edges join tasks, subpasses are
/// tasks, no task is a subpass of two render passes, and the kind of every
/// barrier follows the render passes.
pub open spec fn frame_rules(tasks: nat, edges: Seq<Edge>, subpasses: Seq<Seq<TaskId>>) -> bool {
    &&& edges_join_tasks(tasks, edges)
    &&& subpasses_are_tasks(tasks, subpasses)
    &&& one_pass_each(subpasses)
    &&& barriers_follow_passes(edges, subpasses)
}

/// The rules of a frame, for its graph and its render passes.
pub open spec fn follows_rules(graph: FrameGraph, passes: RenderPasses) -> bool {
    frame_rules(graph.tasks().len(), graph.edges(), subpasses_of(passes))
}

/// Render passes with the same subpasses are the same to the rules.
pub proof fn lemma_same_subpasses(before: RenderPasses, after: RenderPasses)
    requires
        after.passes().len() == before.passes().len(),
        forall|p: int|
            0 <= p < before.passes().len() ==> (#[trigger] after.passes()[p]).tasks()
                == before.passes()[p].tasks(),
    ensures
        subpasses_of(after) == subpasses_of(before),
{
    assert(subpasses_of(after) =~= subpasses_of(before));
}

/// Barriers that follow the render passes go on doing so when the passes
/// change, as long as every task keeps the passes it was a subpass of and
/// no task among the first `tasks` gets a new one.
pub proof fn lemma_barriers_follow_on(
    tasks: nat,
    edges: Seq<Edge>,
    before: Seq<Seq<TaskId>>,
    after: Seq<Seq<TaskId>>,
)
    requires
        edges_join_tasks(tasks, edges),
        barriers_follow_passes(edges, before),
        forall|p: int, task: TaskId| #[trigger] in_pass(before, p, task) ==> in_pass(after, p, task),
        forall|p: int, task: TaskId|
            #[trigger] in_pass(after, p, task) && task.0 < tasks ==> in_pass(before, p, task),
    ensures
        barriers_follow_passes(edges, after),
{
    assert forall|i: int| 0 <= i < edges.len() implies ((#[trigger] edges[i]).dependency.barrier is Subpass
        <==> share_pass(after, edges[i].src, edges[i].dst)) by {
        let a = edges[i].src;
        let b = edges[i].dst;
        if share_pass(before, a, b) {
            let p = choose|p: int| #[trigger] in_pass(before, p, a) && in_pass(before, p, b);
            assert(in_pass(after, p, a) && in_pass(after, p, b));
        }
        if share_pass(after, a, b) {
            let p = choose|p: int| #[trigger] in_pass(after, p, a) && in_pass(after, p, b);
            assert(in_pass(before, p, a) && in_pass(before, p, b));
        }
    }
}

/// The rules hold on when a new task becomes the next subpass of a render
/// pass, and the new task is then a subpass of that pass.
pub proof fn lemma_rules_after_new_subpass(
    tasks: nat,
    edges: Seq<Edge>,
    before: Seq<Seq<TaskId>>,
    after: Seq<Seq<TaskId>>,
    pass: int,
    fresh: TaskId,
)
    requires
        frame_rules(tasks, edges, before),
        0 <= pass < before.len(),
        fresh.0 == tasks,
        after == before.update(pass, before[pass].push(fresh)),
    ensures
        frame_rules(tasks + 1, edges, after),
        in_pass(after, pass, fresh),
{
    assert(after[pass][before[pass].len() as int] == fresh);
    assert forall|p: int, task: TaskId| #[trigger] in_pass(after, p, task) implies (in_pass(
        before,
        p,
        task,
    ) || (p == pass && task == fresh)) by {
        if p == pass {
            let k = choose|k: int| 0 <= k < after[p].len() && after[p][k] == task;
            if k < before[p].len() {
                assert(before[p][k] == task);
            }
        }
    }
    assert forall|p: int, task: TaskId| #[trigger] in_pass(before, p, task) implies in_pass(
        after,
        p,
        task,
    ) by {
        if p == pass {
            let k = choose|k: int| 0 <= k < before[p].len() && before[p][k] == task;
            assert(after[p][k] == task);
        }
    }
    lemma_barriers_follow_on(tasks, edges, before, after);
    assert forall|p: int, q: int, task: TaskId| #[trigger]
        in_pass(after, p, task) && #[trigger] in_pass(after, q, task) implies p == q by {
        if task == fresh {
            if in_pass(before, p, task) || in_pass(before, q, task) {
                assert(false);
            }
        }
    }
}

/// The rules hold on when an edge is added whose kind follows the render
/// passes.
pub proof fn lemma_rules_after_edge(tasks: nat, edges: Seq<Edge>, subpasses: Seq<Seq<TaskId>>, edge: Edge)
    requires
        frame_rules(tasks, edges, subpasses),
        edge.src.0 < tasks,
        edge.dst.0 < tasks,
        edge.dependency.barrier is Subpass <==> share_pass(subpasses, edge.src, edge.dst),
    ensures
        frame_rules(tasks, edges.push(edge), subpasses),
{
    let more = edges.push(edge);
    assert forall|i: int| 0 <= i < more.len() implies ((#[trigger] more[i]).dependency.barrier is Subpass
        <==> share_pass(subpasses, more[i].src, more[i].dst)) by {
        if i < edges.len() {
            assert(more[i] == edges[i]);
        }
    }
    assert forall|i: int| 0 <= i < more.len() implies (#[trigger] more[i]).src.0 < tasks && more[i].dst.0
        < tasks by {
        if i < edges.len() {
            assert(more[i] == edges[i]);
        }
    }
}

/// The rules hold on when a subpass of the pass at `pass` comes to depend on
/// another task, by a subpass barrier where that task is a subpass of the
/// same pass and by an image barrier where it is not.
pub proof fn lemma_rules_after_dependency(
    tasks: nat,
    edges: Seq<Edge>,
    subpasses: Seq<Seq<TaskId>>,
    pass: int,
    edge: Edge,
)
    requires
        frame_rules(tasks, edges, subpasses),
        in_pass(subpasses, pass, edge.dst),
        edge.src.0 < tasks,
        edge.dst.0 < tasks,
        edge.dependency.barrier is Subpass <==> in_pass(subpasses, pass, edge.src),
    ensures
        frame_rules(tasks, edges.push(edge), subpasses),
{
    lemma_share_pass(subpasses, pass, edge.dst, edge.src);
    lemma_rules_after_edge(tasks, edges, subpasses, edge);
}

/// Where no task is a subpass of two render passes, two tasks share a pass
/// exactly when one is a subpass of the pass of the other.
pub proof fn lemma_share_pass(subpasses: Seq<Seq<TaskId>>, pass: int, task: TaskId, other: TaskId)
    requires
        one_pass_each(subpasses),
        in_pass(subpasses, pass, task),
    ensures
        share_pass(subpasses, other, task) <==> in_pass(subpasses, pass, other),
{
    if share_pass(subpasses, other, task) {
        let p = choose|p: int| #[trigger] in_pass(subpasses, p, other) && in_pass(subpasses, p, task);
        assert(p == pass);
    }
}

/// The shape and size of an image of a frame, as a backend takes them.
pub open spec fn dimensions_of(info: ImageCreateInfo) -> Dimensions {
    match info.image_type {
        ImageType::Type1d => if info.array_layers > 1 {
            Dimensions::Dim1dArray { width: info.extent.width, array_layers: info.array_layers }
        } else {
            Dimensions::Dim1d { width: info.extent.width }
        },
        ImageType::Type2d => if info.array_layers > 1 {
            Dimensions::Dim2dArray {
                width: info.extent.width,
                height: info.extent.height,
                array_layers: info.array_layers,
            }
        } else {
            Dimensions::Dim2d { width: info.extent.width, height: info.extent.height }
        },
        ImageType::Type3d => Dimensions::Dim3d {
            width: info.extent.width,
            height: info.extent.height,
            depth: info.extent.depth,
        },
    }
}

/// Whether `image` is what the backend of `renderer` answers when it is asked
/// to create the image that `info` describes: with the format, shape, mip
/// levels and samples of `info`, with exactly the usage flags of `info`, none
/// added and none dropped, and without initial data.
pub open spec fn allocated_as<R: RendererBackend>(
    renderer: Renderer<R>,
    info: ImageCreateInfo,
    image: R::ImageHandle,
) -> bool {
    call_ensures(
        R::create_image,
        (
            &renderer.backend(),
            info.format,
            &dimensions_of(info),
            MipmapsCount::Specific(info.mip_levels),
            info.samples,
            info.usage,
            None::<&[u8]>,
        ),
        image,
    )
}

/// Has the backend allocate an image of a frame. The backend is asked once,
/// and sees the usage flags of `info` as they are.
pub fn allocate_image<R: RendererBackend>(renderer: &Renderer<R>, info: &ImageCreateInfo) -> (image:
    R::ImageHandle)
    ensures
        allocated_as(*renderer, *info, image),
{
    let dimensions = match info.image_type {
        ImageType::Type1d => if info.array_layers > 1 {
            Dimensions::Dim1dArray { width: info.extent.width, array_layers: info.array_layers }
        } else {
            Dimensions::Dim1d { width: info.extent.width }
        },
        ImageType::Type2d => if info.array_layers > 1 {
            Dimensions::Dim2dArray {
                width: info.extent.width,
                height: info.extent.height,
                array_layers: info.array_layers,
            }
        } else {
            Dimensions::Dim2d { width: info.extent.width, height: info.extent.height }
        },
        ImageType::Type3d => Dimensions::Dim3d {
            width: info.extent.width,
            height: info.extent.height,
            depth: info.extent.depth,
        },
    };
    renderer.create_image(
        info.format,
        dimensions,
        MipmapsCount::Specific(info.mip_levels),
        info.samples,
        info.usage,
        None,
    )
}

/// Has the backend allocate the images that a finished frame names, in their
/// order, and returns each image's identifier with what the backend made of
/// it. The backend is asked once for each image, and sees for each the usage
/// flags that the frame has accumulated for it.
pub fn allocate_images<R: RendererBackend>(
    renderer: &Renderer<R>,
    allocations: &Vec<(ImageId, ImageCreateInfo)>,
) -> (images: Vec<(ImageId, R::ImageHandle)>)
    ensures
        images@.len() == allocations@.len(),
        forall|k: int|
            0 <= k < allocations@.len() ==> (#[trigger] images@[k]).0 == allocations@[k].0
                && allocated_as(*renderer, allocations@[k].1, images@[k].1),
{
    let mut images: Vec<(ImageId, R::ImageHandle)> = Vec::new();
    let mut k: usize = 0;
    while k < allocations.len()
        invariant
            k <= allocations@.len(),
            images@.len() == k,
            forall|j: int|
                0 <= j < k ==> (#[trigger] images@[j]).0 == allocations@[j].0 && allocated_as(
                    *renderer,
                    allocations@[j].1,
                    images@[j].1,
                ),
        decreases allocations@.len() - k,
    {
        let id = allocations[k].0;
        let image = allocate_image(renderer, &allocations[k].1);
        images.push((id, image));
        k = k + 1;
    }
    images
}

/// What a finished frame asks of the backend.
#[derive(Debug)]
pub struct FramePlan {
    /// The tasks in the order in which they are executed.
    pub order: Vec<TaskId>,
    /// The barriers in the order in which they are emitted: task by task in
    /// execution order.
    pub barriers: Vec<Edge>,
    /// The images to allocate, each with every use that was declared for it.
    pub allocations: Vec<(ImageId, ImageCreateInfo)>,
}

/// A frame under construction.
pub struct Frame {
    pub graph: FrameGraph,
    pub resources: Resources,
    pub renderpasses: RenderPasses,
}

impl Frame {
    /// The invariant of a frame: that of its parts, and the rules between
    /// them.
    pub open spec fn wf(&self) -> bool {
        &&& self.graph.wf()
        &&& self.renderpasses.wf()
        &&& follows_rules(self.graph, self.renderpasses)
    }

    /// A frame without tasks, images or render passes.
    pub fn new() -> (frame: Frame)
        ensures
            frame.wf(),
            frame.graph.tasks().len() == 0,
            frame.graph.edges().len() == 0,
            frame.resources.images().len() == 0,
            frame.renderpasses.passes().len() == 0,
    {
        Frame { graph: FrameGraph::new(), resources: Resources::new(), renderpasses: RenderPasses::new() }
    }

    /// Adds a render pass without attachments or subpasses.
    pub fn create_renderpass(&mut self) -> (id: RenderPassId)
        requires
            old(self).wf(),
        ensures
            final(self).wf(),
            final(self).graph == old(self).graph,
            final(self).resources == old(self).resources,
            id.0 == old(self).renderpasses.passes().len(),
            final(self).renderpasses.passes().len() == old(self).renderpasses.passes().len() + 1,
            forall|i: int|
                0 <= i < old(self).renderpasses.passes().len() ==> final(self).renderpasses.passes()[i] == old(self).renderpasses.passes()[i],
            final(self).renderpasses.pass(id).descriptions().len() == 0,
            final(self).renderpasses.pass(id).images().len() == 0,
            final(self).renderpasses.pass(id).tasks().len() == 0,
    {
        let id = self.renderpasses.create_renderpass();
        proof {
            let before = subpasses_of(old(self).renderpasses);
            let after = subpasses_of(self.renderpasses);
            assert(after[id.0 as int] =~= Seq::<TaskId>::empty());
            assert(after =~= before.push(Seq::empty()));
            assert forall|p: int, task: TaskId| #[trigger] in_pass(after, p, task) implies in_pass(
                before,
                p,
                task,
            ) by {
                if p < before.len() {
                    assert(after[p] == before[p]);
                }
            }
            assert forall|p: int, task: TaskId| #[trigger] in_pass(before, p, task) implies in_pass(
                after,
                p,
                task,
            ) by {
                assert(after[p] == before[p]);
            }
            lemma_barriers_follow_on(
                self.graph.tasks().len(),
                self.graph.edges(),
                before,
                after,
            );
        }
        id
    }

    /// Starts the declaration of a graphics task named `name` as the next
    /// subpass of `renderpass`. A render pass that does not exist is refused,
    /// and then nothing changes.
    pub fn create_graphics_task<'a>(&'a mut self, name: String, renderpass: RenderPassId) -> (result:
        Result<GraphicsTaskBuilder<'a>, FrameError>)
        requires
            old(self).wf(),
        ensures
            match result {
                Ok(builder) => {
                    &&& old(self).renderpasses.has_pass(renderpass)
                    &&& builder.wf()
                    &&& builder.follows_rules()
                    &&& builder.starts(
                        name,
                        renderpass,
                        old(self).graph,
                        old(self).resources,
                        old(self).renderpasses,
                    )
                    &&& final(self).graph == *final(builder.graph)
                    &&& final(self).resources == *final(builder.resources)
                    &&& final(self).renderpasses == *final(builder.renderpasses)
                },
                Err(e) => {
                    &&& !old(self).renderpasses.has_pass(renderpass)
                    &&& e == FrameError::RenderPass(RenderPassError::UnknownRenderPass)
                    &&& *final(self) == *old(self)
                },
            },
    {
        if renderpass.0 >= self.renderpasses.count() {
            return Err(FrameError::RenderPass(RenderPassError::UnknownRenderPass));
        }
        Ok(
            GraphicsTaskBuilder::new(
                name,
                renderpass,
                &mut self.graph,
                &mut self.resources,
                &mut self.renderpasses,
            ),
        )
    }

    /// Finishes the frame: works out the order of its tasks and barriers,
    /// and freezes the usage flags of its images.
    ///
    /// The plan names the tasks in execution order, the barriers task by task
    /// in that order, and every image that has no storage yet, with the union
    /// of the uses declared for it.
    pub fn finish(&mut self) -> (plan: FramePlan)
        requires
            old(self).wf(),
        ensures
            final(self).wf(),
            final(self).graph == old(self).graph,
            final(self).renderpasses == old(self).renderpasses,
            is_execution_order(
                old(self).graph.tasks().len() as int,
                old(self).graph.links(),
                positions_of(plan.order@),
            ),
            plan.barriers@ == barriers_of(
                old(self).graph.edges(),
                plan.order@,
                plan.order@.len() as int,
            ),
            allocates(
                plan.allocations@,
                old(self).resources.images(),
                old(self).resources.images().len() as int,
            ),
            final(self).resources.images().len() == old(self).resources.images().len(),
            forall|i: int|
                0 <= i < old(self).resources.images().len() ==> #[trigger] final(self).resources.images()[i] == allocated(old(self).resources.images()[i]),
    {
        let order = self.graph.execution_order();
        let barriers = self.graph.barriers_in(&order);
        let allocations = self.resources.allocate_all();
        FramePlan { order, barriers, allocations }
    }
}

} // verus!
