//! The task graph of a frame: one node per task, one edge per dependency.
//!
//! The graph is acyclic at all times. A dependency that would close a cycle is
//! refused and leaves the graph as it was.

use crate::dag::{
    acyclic, closed_under, first_ready, has_link, is_execution_order, is_path, is_ranking,
    links_within, reaches, ready, unmarked,
};
use crate::dag::{
    lemma_acyclic_has_no_cycle, lemma_closed_set_holds_reachable, lemma_link_is_safe_iff_no_way_back,
    lemma_link_keeps_acyclic, lemma_outsider_reaches_itself_only, lemma_reaches_self,
    lemma_reaches_step, lemma_some_task_is_ready, lemma_unmarked_after_mark,
    lemma_unmarked_of_fresh,
};
use crate::flags::{AccessFlags, ImageLayout, PipelineStageFlags};
use crate::graphics::GraphicsTask;
use crate::ids::{ImageId, TaskId};
use vstd::prelude::*;

verus! {

/// A full pipeline barrier on an image, with a layout transition.
#[derive(Clone, Copy, Debug, PartialEq, Eq, Structural)]
pub struct ImageBarrier {
    pub id: ImageId,
    pub old_layout: ImageLayout,
    pub new_layout: ImageLayout,
    pub src_access_mask: AccessFlags,
    pub dst_access_mask: AccessFlags,
}

/// The lighter barrier between two subpasses of one render pass.
#[derive(Clone, Copy, Debug, PartialEq, Eq, Structural)]
pub struct SubpassBarrier {
    pub id: ImageId,
    pub old_layout: ImageLayout,
    pub new_layout: ImageLayout,
    pub src_access_mask: AccessFlags,
    pub dst_access_mask: AccessFlags,
}

/// How a dependency is enforced on the GPU.
#[derive(Clone, Copy, Debug, PartialEq, Eq, Structural)]
pub enum BarrierDetail {
    Image(ImageBarrier),
    Subpass(SubpassBarrier),
}

/// What an edge of the task graph carries.
#[derive(Clone, Copy, Debug, PartialEq, Eq, Structural)]
pub struct Dependency {
    pub src_stage_mask: PipelineStageFlags,
    pub dst_stage_mask: PipelineStageFlags,
    pub barrier: BarrierDetail,
    pub latency: u32,
}

/// An edge of the task graph: `dst` must not start before `src` has passed
/// the stages named in the dependency.
#[derive(Clone, Copy, Debug, PartialEq, Eq, Structural)]
pub struct Edge {
    pub src: TaskId,
    pub dst: TaskId,
    pub dependency: Dependency,
}

/// What a task does, once its builder has finished.
#[derive(Debug)]
pub enum TaskDetails {
    Other,
    Graphics(GraphicsTask),
}

/// A node of the task graph.
#[derive(Debug)]
pub struct Task {
    pub name: String,
    pub queue: u32,
    pub details: TaskDetails,
}

/// Why a dependency was refused.
#[derive(Clone, Copy, Debug, PartialEq, Eq, Structural)]
pub enum GraphError {
    /// One end of the dependency names no task of the graph.
    UnknownTask,
    /// Both ends are the same task.
    SelfDependency,
    /// The target already comes before the source.
    Cycle,
}

/// The links of a sequence of edges, as pairs of task positions.
pub open spec fn links_of(edges: Seq<Edge>) -> Seq<(int, int)> {
    edges.map_values(|e: Edge| (e.src.0 as int, e.dst.0 as int))
}

/// The task positions of a sequence of task identifiers.
pub open spec fn positions_of(order: Seq<TaskId>) -> Seq<int> {
    order.map_values(|t: TaskId| t.0 as int)
}

/// The edges among the first `upto` of `edges` that lead into `task`, in
/// their order.
pub open spec fn edges_into(edges: Seq<Edge>, task: TaskId, upto: int) -> Seq<Edge>
    decreases upto,
{
    if upto <= 0 {
        Seq::empty()
    } else if edges[upto - 1].dst == task {
        edges_into(edges, task, upto - 1).push(edges[upto - 1])
    } else {
        edges_into(edges, task, upto - 1)
    }
}

/// The barriers of the first `upto` tasks of `order`: for each task in turn,
/// the edges that lead into it, in the order in which they were added.
pub open spec fn barriers_of(edges: Seq<Edge>, order: Seq<TaskId>, upto: int) -> Seq<Edge>
    decreases upto,
{
    if upto <= 0 {
        Seq::empty()
    } else {
        barriers_of(edges, order, upto - 1) + edges_into(
            edges,
            order[upto - 1],
            edges.len() as int,
        )
    }
}

/// The task graph.
pub struct FrameGraph {
    tasks: Vec<Task>,
    edges: Vec<Edge>,
}

impl FrameGraph {
    /// The tasks, in declaration order.
    pub closed spec fn tasks(&self) -> Seq<Task> {
        self.tasks@
    }

    /// The dependencies, in the order in which they were added.
    pub closed spec fn edges(&self) -> Seq<Edge> {
        self.edges@
    }

    /// The dependencies as links between task positions.
    pub open spec fn links(&self) -> Seq<(int, int)> {
        links_of(self.edges())
    }

    /// Whether `task` names a task of this graph.
    pub open spec fn has_task(&self, task: TaskId) -> bool {
        task.0 < self.tasks().len()
    }

    /// Whether `to` depends on `from`, directly or through other tasks.
    pub open spec fn depends(&self, from: TaskId, to: TaskId) -> bool {
        reaches(self.links(), from.0 as int, to.0 as int)
    }

    /// The invariant of the graph: every edge joins two of its tasks, and no
    /// chain of edges returns to where it began.
    pub open spec fn wf(&self) -> bool {
        &&& links_within(self.links(), self.tasks().len() as int)
        &&& acyclic(self.links())
    }

    /// An empty graph.
    pub fn new() -> (graph: FrameGraph)
        ensures
            graph.wf(),
            graph.tasks().len() == 0,
            graph.edges().len() == 0,
    {
        let graph = FrameGraph { tasks: Vec::new(), edges: Vec::new() };
        proof {
            let rank = |v: int| 0int;
            assert(is_ranking(graph.links(), rank));
        }
        graph
    }

    /// The number of tasks.
    pub fn task_count(&self) -> (n: usize)
        ensures
            n == self.tasks().len(),
    {
        self.tasks.len()
    }

    /// The number of dependencies.
    pub fn dependency_count(&self) -> (n: usize)
        ensures
            n == self.edges().len(),
    {
        self.edges.len()
    }

    /// The task that `task` names, if it names one.
    pub fn task(&self, task: TaskId) -> (found: Option<&Task>)
        ensures
            found == if self.has_task(task) {
                Some(&self.tasks()[task.0 as int])
            } else {
                None
            },
    {
        if task.0 < self.tasks.len() {
            Some(&self.tasks[task.0])
        } else {
            None
        }
    }

    /// The dependency that was added as the `index`-th, if there are that many.
    pub fn dependency(&self, index: usize) -> (found: Option<Edge>)
        ensures
            found == if index < self.edges().len() {
                Some(self.edges()[index as int])
            } else {
                None
            },
    {
        if index < self.edges.len() {
            Some(self.edges[index])
        } else {
            None
        }
    }

    /// Adds a task that nothing depends on and that depends on nothing, and
    /// returns its identifier: its position in declaration order.
    pub fn create_task(&mut self, name: String, queue: u32, details: TaskDetails) -> (task: TaskId)
        requires
            old(self).wf(),
        ensures
            final(self).wf(),
            task.0 == old(self).tasks().len(),
            final(self).tasks() == old(self).tasks().push(Task { name, queue, details }),
            final(self).edges() == old(self).edges(),
    {
        let task = TaskId(self.tasks.len());
        self.tasks.push(Task { name, queue, details });
        task
    }

    /// Replaces what a task does. Returns whether `task` names a task; if it
    /// names none, nothing changes.
    pub fn set_details(&mut self, task: TaskId, details: TaskDetails) -> (known: bool)
        requires
            old(self).wf(),
        ensures
            final(self).wf(),
            known == old(self).has_task(task),
            final(self).edges() == old(self).edges(),
            known ==> final(self).tasks() == old(self).tasks().update(
                task.0 as int,
                Task {
                    name: old(self).tasks()[task.0 as int].name,
                    queue: old(self).tasks()[task.0 as int].queue,
                    details,
                },
            ),
            !known ==> final(self).tasks() == old(self).tasks(),
    {
        if task.0 < self.tasks.len() {
            self.tasks[task.0].details = details;
            true
        } else {
            false
        }
    }

    /// Whether `to` depends on `from`, directly or through other tasks. Every
    /// task is taken to depend on itself, and nothing else depends on what is
    /// no task of the graph.
    pub fn depends_on(&self, from: TaskId, to: TaskId) -> (found: bool)
        requires
            self.wf(),
        ensures
            found == self.depends(from, to),
    {
        let n = self.tasks.len();
        let ghost links = self.links();
        if from.0 >= n || to.0 >= n {
            proof {
                lemma_outsider_reaches_itself_only(links, n as int, from.0 as int, to.0 as int);
            }
            return from.0 == to.0;
        }
        let mut marked: Vec<bool> = Vec::new();
        let mut k: usize = 0;
        while k < n
            invariant
                k <= n,
                marked.len() == k,
                forall|v: int| 0 <= v < k ==> (marked[v] <==> v == from.0),
            decreases n - k,
        {
            marked.push(k == from.0);
            k = k + 1;
        }
        proof {
            lemma_reaches_self(links, from.0 as int);
        }
        loop
            invariant
                self.wf(),
                links == self.links(),
                n == self.tasks().len(),
                marked.len() == n,
                from.0 < n,
                to.0 < n,
                marked[from.0 as int],
                forall|v: int| 0 <= v < n && marked[v] ==> reaches(links, from.0 as int, v),
            ensures
                closed_under(links, marked@),
            decreases unmarked(marked@),
        {
            let ghost before = marked@;
            let mut grew = false;
            let mut i: usize = 0;
            while i < self.edges.len()
                invariant
                    self.wf(),
                    links == self.links(),
                    n == self.tasks().len(),
                    marked.len() == n,
                    from.0 < n,
                    i <= self.edges().len(),
                    marked[from.0 as int],
                    forall|v: int| 0 <= v < n && marked[v] ==> reaches(links, from.0 as int, v),
                    !grew ==> marked@ == before,
                    !grew ==> forall|j: int|
                        0 <= j < i && marked[(#[trigger] links[j]).0] ==> marked[links[j].1],
                    grew ==> unmarked(marked@) < unmarked(before),
                    unmarked(marked@) <= unmarked(before),
                decreases self.edges().len() - i,
            {
                let edge = self.edges[i];
                assert(links[i as int] == (edge.src.0 as int, edge.dst.0 as int));
                if marked[edge.src.0] && !marked[edge.dst.0] {
                    proof {
                        assert(has_link(links, edge.src.0 as int, edge.dst.0 as int));
                        lemma_reaches_step(links, from.0 as int, edge.src.0 as int, edge.dst.0 as int);
                        lemma_unmarked_after_mark(marked@, edge.dst.0 as int);
                    }
                    marked.set(edge.dst.0, true);
                    grew = true;
                }
                i = i + 1;
            }
            if !grew {
                break ;
            }
        }
        let found = marked[to.0];
        proof {
            if reaches(links, from.0 as int, to.0 as int) {
                let p = choose|p: Seq<int>| #[trigger]
                    is_path(links, p) && p[0] == from.0 as int && p[p.len() - 1] == to.0 as int;
                lemma_closed_set_holds_reachable(links, marked@, from.0 as int, p);
            }
        }
        found
    }

    /// Whether a dependency of `dst` on `src` would be accepted, and if not,
    /// why not. Nothing changes.
    pub fn check(&self, src: TaskId, dst: TaskId) -> (result: Result<(), GraphError>)
        requires
            self.wf(),
        ensures
            result == self.check_dependency(src, dst),
    {
        if src.0 >= self.tasks.len() || dst.0 >= self.tasks.len() {
            return Err(GraphError::UnknownTask);
        }
        if src.0 == dst.0 {
            return Err(GraphError::SelfDependency);
        }
        if self.depends_on(dst, src) {
            return Err(GraphError::Cycle);
        }
        Ok(())
    }

    /// Makes `dst` depend on `src`.
    ///
    /// The dependency is refused, and the graph left as it was, when an end
    /// names no task, when both ends are one task, or when `src` already
    /// depends on `dst`, so that the new edge would close a cycle.
    pub fn add_dependency(&mut self, src: TaskId, dst: TaskId, dependency: Dependency) -> (result:
        Result<(), GraphError>)
        requires
            old(self).wf(),
        ensures
            final(self).wf(),
            final(self).tasks() == old(self).tasks(),
            result == old(self).check_dependency(src, dst),
            result is Ok ==> final(self).edges() == old(self).edges().push(
                Edge { src, dst, dependency },
            ),
            result is Err ==> final(self).edges() == old(self).edges(),
    {
        match self.check(src, dst) {
            Ok(()) => {},
            Err(e) => {
                return Err(e);
            },
        }
        proof {
            lemma_link_keeps_acyclic(self.links(), src.0 as int, dst.0 as int);
            assert(links_of(self.edges().push(Edge { src, dst, dependency })) =~= self.links().push(
                (src.0 as int, dst.0 as int),
            ));
        }
        self.edges.push(Edge { src, dst, dependency });
        Ok(())
    }

    /// Whether `task` could run next, given the tasks that have been placed.
    fn task_is_ready(&self, placed: &Vec<bool>, task: usize, Ghost(done): Ghost<Seq<int>>) -> (r:
        bool)
        requires
            self.wf(),
            placed.len() == self.tasks().len(),
            task < placed.len(),
            forall|u: int| 0 <= u < placed.len() ==> (placed[u] <==> done.contains(u)),
        ensures
            r == ready(self.links(), done, task as int),
    {
        if placed[task] {
            return false;
        }
        let ghost links = self.links();
        let mut i: usize = 0;
        while i < self.edges.len()
            invariant
                self.wf(),
                links == self.links(),
                placed.len() == self.tasks().len(),
                i <= self.edges().len(),
                forall|u: int| 0 <= u < placed.len() ==> (placed[u] <==> done.contains(u)),
                forall|j: int|
                    0 <= j < i && (#[trigger] links[j]).1 == task ==> done.contains(links[j].0),
            decreases self.edges().len() - i,
        {
            let edge = self.edges[i];
            assert(links[i as int] == (edge.src.0 as int, edge.dst.0 as int));
            if edge.dst.0 == task && !placed[edge.src.0] {
                return false;
            }
            i = i + 1;
        }
        true
    }

    /// The order in which the tasks are executed and their barriers emitted.
    ///
    /// Every task comes after the tasks it depends on; where several tasks
    /// could come next, the one declared first does.
    pub fn execution_order(&self) -> (order: Vec<TaskId>)
        requires
            self.wf(),
        ensures
            is_execution_order(self.tasks().len() as int, self.links(), positions_of(order@)),
    {
        let n = self.tasks.len();
        let ghost links = self.links();
        let mut placed: Vec<bool> = Vec::new();
        while placed.len() < n
            invariant
                placed.len() <= n,
                forall|u: int| 0 <= u < placed.len() ==> !placed[u],
            decreases n - placed.len(),
        {
            placed.push(false);
        }
        let mut order: Vec<TaskId> = Vec::new();
        proof {
            lemma_unmarked_of_fresh(placed@);
        }
        while order.len() < n
            invariant
                self.wf(),
                links == self.links(),
                n == self.tasks().len(),
                placed.len() == n,
                order.len() <= n,
                unmarked(placed@) + order.len() == n,
                forall|u: int| 0 <= u < n ==> (placed[u] <==> positions_of(order@).contains(u)),
                forall|k: int|
                    0 <= k < order.len() ==> first_ready(
                        n as int,
                        links,
                        positions_of(order@).take(k),
                        #[trigger] positions_of(order@)[k],
                    ),
            decreases n - order.len(),
        {
            let ghost done = positions_of(order@);
            let ghost before = placed@;
            let mut v: usize = 0;
            let mut ready_now = self.task_is_ready(&placed, v, Ghost(done));
            while !ready_now
                invariant
                    self.wf(),
                    links == self.links(),
                    n == self.tasks().len(),
                    placed.len() == n,
                    placed@ == before,
                    v < n,
                    unmarked(placed@) > 0,
                    forall|u: int| 0 <= u < n ==> (placed[u] <==> done.contains(u)),
                    ready_now == ready(links, done, v as int),
                    forall|u: int| 0 <= u < v ==> !ready(links, done, u),
                decreases n - v,
            {
                proof {
                    let w = lemma_some_task_is_ready(links, placed@, done);
                    assert(w > v);
                }
                v = v + 1;
                ready_now = self.task_is_ready(&placed, v, Ghost(done));
            }
            proof {
                lemma_unmarked_after_mark(placed@, v as int);
            }
            placed.set(v, true);
            order.push(TaskId(v));
            proof {
                let now = positions_of(order@);
                assert(now =~= done.push(v as int));
                assert forall|u: int| 0 <= u < n implies (placed[u] <==> now.contains(u)) by {
                    if u == v {
                        assert(now[done.len() as int] == u);
                    } else if done.contains(u) {
                        let j = choose|j: int| 0 <= j < done.len() && done[j] == u;
                        assert(now[j] == u);
                    } else if now.contains(u) {
                        let j = choose|j: int| 0 <= j < now.len() && now[j] == u;
                        assert(done[j] == u);
                    }
                }
                assert forall|k: int| 0 <= k < order.len() implies first_ready(
                    n as int,
                    links,
                    now.take(k),
                    #[trigger] now[k],
                ) by {
                    if k < done.len() {
                        assert(now.take(k) =~= done.take(k));
                        assert(now[k] == done[k]);
                    } else {
                        assert(now.take(k) =~= done);
                    }
                }
            }
        }
        order
    }

    /// The barriers of the tasks of `order`, task by task: for each task the
    /// dependencies that lead into it, in the order in which they were added.
    pub fn barriers_in(&self, order: &Vec<TaskId>) -> (barriers: Vec<Edge>)
        ensures
            barriers@ == barriers_of(self.edges(), order@, order@.len() as int),
    {
        let mut barriers: Vec<Edge> = Vec::new();
        let mut k: usize = 0;
        while k < order.len()
            invariant
                k <= order.len(),
                barriers@ == barriers_of(self.edges(), order@, k as int),
            decreases order.len() - k,
        {
            let task = order[k];
            let ghost before = barriers@;
            let mut i: usize = 0;
            while i < self.edges.len()
                invariant
                    i <= self.edges().len(),
                    barriers@ == before + edges_into(self.edges(), task, i as int),
                decreases self.edges().len() - i,
            {
                let edge = self.edges[i];
                if edge.dst.0 == task.0 {
                    barriers.push(edge);
                }
                assert(barriers@ =~= before + edges_into(self.edges(), task, i + 1));
                i = i + 1;
            }
            k = k + 1;
        }
        barriers
    }

    /// The barriers of the frame in the order in which they are emitted: task
    /// by task in execution order, and for each task the dependencies that
    /// lead into it, in the order in which they were added.
    pub fn barrier_order(&self) -> (barriers: Vec<Edge>)
        requires
            self.wf(),
        ensures
            exists|order: Seq<TaskId>|
                #![trigger positions_of(order)]
                is_execution_order(self.tasks().len() as int, self.links(), positions_of(order))
                    && barriers@ == barriers_of(self.edges(), order, order.len() as int),
    {
        let order = self.execution_order();
        self.barriers_in(&order)
    }

    /// Empties the graph for the next frame.
    pub fn clear(&mut self)
        ensures
            final(self).wf(),
            final(self).tasks().len() == 0,
            final(self).edges().len() == 0,
    {
        self.tasks.clear();
        self.edges.clear();
        proof {
            let rank = |v: int| 0int;
            assert(is_ranking(self.links(), rank));
        }
    }

    /// A dependency between two tasks is refused as a cycle exactly when the
    /// graph with it would no longer be acyclic.
    pub proof fn lemma_cycle_is_refused_when_there_is_one(&self, src: TaskId, dst: TaskId)
        requires
            self.wf(),
            self.has_task(src),
            self.has_task(dst),
            src != dst,
        ensures
            self.check_dependency(src, dst) == Err::<(), GraphError>(GraphError::Cycle) <==> !acyclic(
                self.links().push((src.0 as int, dst.0 as int)),
            ),
            self.check_dependency(src, dst) is Ok <==> acyclic(
                self.links().push((src.0 as int, dst.0 as int)),
            ),
    {
        lemma_link_is_safe_iff_no_way_back(self.links(), src.0 as int, dst.0 as int);
    }

    /// No chain of one or more dependencies leads from a task back to itself.
    pub proof fn lemma_no_task_waits_for_itself(&self, chain: Seq<int>)
        requires
            self.wf(),
            is_path(self.links(), chain),
            chain.len() >= 2,
        ensures
            chain[0] != chain[chain.len() - 1],
    {
        lemma_acyclic_has_no_cycle(self.links(), chain);
    }

    /// What `add_dependency` answers for a dependency from `src` to `dst`.
    pub open spec fn check_dependency(&self, src: TaskId, dst: TaskId) -> Result<(), GraphError> {
        if !self.has_task(src) || !self.has_task(dst) {
            Err(GraphError::UnknownTask)
        } else if src == dst {
            Err(GraphError::SelfDependency)
        } else if self.depends(dst, src) {
            Err(GraphError::Cycle)
        } else {
            Ok(())
        }
    }
}

} // verus!
