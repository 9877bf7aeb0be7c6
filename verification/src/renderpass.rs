//! Render passes: for each pass, the table of its attachments and the tasks
//! that are its subpasses.
//!
//! An attachment's index is its position in the table. Indices are given out
//! in declaration order, starting at zero, and an entry never moves.

use crate::flags::{AttachmentLoadOp, AttachmentStoreOp, Format, ImageLayout, SampleCountFlags};
use crate::ids::{AttachmentIndex, ImageId, RenderPassId, TaskId};
use vstd::prelude::*;

verus! {

/// How a render pass treats one attachment.
#[derive(Clone, Copy, Debug, PartialEq, Eq, Structural)]
pub struct AttachmentDescription {
    pub flags: u32,
    pub format: Format,
    pub samples: SampleCountFlags,
    pub load_op: AttachmentLoadOp,
    pub store_op: AttachmentStoreOp,
    pub stencil_load_op: AttachmentLoadOp,
    pub stencil_store_op: AttachmentStoreOp,
    pub initial_layout: ImageLayout,
    pub final_layout: ImageLayout,
}

/// The attachment descriptions of one render pass, held in an
/// `sid_vec::IdVec` that is indexed by attachment index.
#[verifier::external_body]
pub struct AttachmentTable {
    inner: sid_vec::IdVec<u32, AttachmentDescription>,
}

/// The descriptions that an attachment table holds, by index.
pub uninterp spec fn table_entries(table: AttachmentTable) -> Seq<AttachmentDescription>;

/// `sid_vec::IdVec::new`: a table without entries.
#[verifier::external_body]
fn table_new() -> (table: AttachmentTable)
    ensures
        table_entries(table).len() == 0,
{
    AttachmentTable { inner: sid_vec::IdVec::new() }
}

/// `sid_vec::IdVec::len`: the number of entries.
#[verifier::external_body]
fn table_len(table: &AttachmentTable) -> (n: usize)
    ensures
        n == table_entries(*table).len(),
{
    table.inner.len()
}

/// `sid_vec::IdVec::push`: appends an entry and returns its index, which is
/// the number of entries before. The index is a `u32`, so the table must have
/// room below `u32::MAX`.
#[verifier::external_body]
fn table_push(table: &mut AttachmentTable, description: AttachmentDescription) -> (index: u32)
    requires
        table_entries(*old(table)).len() < u32::MAX,
    ensures
        index == table_entries(*old(table)).len(),
        table_entries(*final(table)) == table_entries(*old(table)).push(description),
{
    table.inner.push(description)
}

/// Indexing an `sid_vec::IdVec` by an identifier: the entry at that index,
/// which must exist.
#[verifier::external_body]
fn table_get(table: &AttachmentTable, index: u32) -> (description: &AttachmentDescription)
    requires
        index < table_entries(*table).len(),
    ensures
        *description == table_entries(*table)[index as int],
{
    &table.inner[index]
}

/// Assigning through the mutable index of an `sid_vec::IdVec`: replaces the
/// entry at that index, which must exist, and no other.
#[verifier::external_body]
fn table_set(table: &mut AttachmentTable, index: u32, description: AttachmentDescription)
    requires
        index < table_entries(*old(table)).len(),
    ensures
        table_entries(*final(table)) == table_entries(*old(table)).update(index as int, description),
{
    table.inner[index] = description;
}

/// Why a render pass refused a request.
#[derive(Clone, Copy, Debug, PartialEq, Eq, Structural)]
pub enum RenderPassError {
    /// The identifier names no render pass.
    UnknownRenderPass,
    /// The index names no attachment of the render pass.
    UnknownAttachment,
    /// The render pass holds as many attachments as an index can name.
    TooManyAttachments,
}

/// One render pass.
pub struct RenderPass {
    attachments_desc: AttachmentTable,
    attachments: Vec<ImageId>,
    tasks: Vec<TaskId>,
}

impl RenderPass {
    /// The attachment descriptions, by attachment index.
    pub closed spec fn descriptions(&self) -> Seq<AttachmentDescription> {
        table_entries(self.attachments_desc)
    }

    /// The image behind each attachment, by attachment index.
    pub closed spec fn images(&self) -> Seq<ImageId> {
        self.attachments@
    }

    /// The subpasses, in the order in which their tasks were declared.
    pub closed spec fn tasks(&self) -> Seq<TaskId> {
        self.tasks@
    }

    /// The invariant of a render pass: every attachment has a description and
    /// an image, and an index can name each.
    pub open spec fn wf(&self) -> bool {
        &&& self.descriptions().len() == self.images().len()
        &&& self.descriptions().len() < u32::MAX
    }

    /// The index that the next attachment takes: the number of attachments
    /// that the pass holds. A pass that is full has none to give.
    pub open spec fn next_index(&self) -> Result<AttachmentIndex, RenderPassError> {
        if self.descriptions().len() + 1 < u32::MAX {
            Ok(AttachmentIndex(self.descriptions().len() as u32))
        } else {
            Err(RenderPassError::TooManyAttachments)
        }
    }

    /// Whether this pass is `before` with one more attachment at the end,
    /// backed by `img` and described by `description`: what `add_attachment`
    /// makes of a pass.
    pub open spec fn holds_one_more(
        &self,
        before: RenderPass,
        img: ImageId,
        description: AttachmentDescription,
    ) -> bool {
        &&& self.descriptions() == before.descriptions().push(description)
        &&& self.images() == before.images().push(img)
        &&& self.tasks() == before.tasks()
    }

    /// Indices follow declaration order and never change. The attachment
    /// that `add_attachment` adds takes as its index the number of
    /// attachments declared before it, so the first takes 0 and each
    /// further one the index after the last. Once added, it is found at that
    /// index with its image and description, and every attachment declared
    /// earlier is found where it was, as it was.
    pub proof fn lemma_indices_follow_declarations(
        &self,
        after: RenderPass,
        img: ImageId,
        description: AttachmentDescription,
    )
        requires
            self.wf(),
            self.next_index() is Ok,
            after.holds_one_more(*self, img, description),
        ensures
            self.next_index()->Ok_0.0 == self.descriptions().len(),
            after.has_attachment(self.next_index()->Ok_0),
            after.images()[self.next_index()->Ok_0.0 as int] == img,
            after.descriptions()[self.next_index()->Ok_0.0 as int] == description,
            after.next_index() is Ok ==> after.next_index()->Ok_0.0 == self.next_index()->Ok_0.0
                + 1,
            forall|earlier: AttachmentIndex| #[trigger]
                self.has_attachment(earlier) ==> {
                    &&& earlier.0 < self.next_index()->Ok_0.0
                    &&& after.has_attachment(earlier)
                    &&& after.images()[earlier.0 as int] == self.images()[earlier.0 as int]
                    &&& after.descriptions()[earlier.0 as int] == self.descriptions()[earlier.0 as int]
                },
    {
    }

    /// Whether `index` names an attachment of this render pass.
    pub open spec fn has_attachment(&self, index: AttachmentIndex) -> bool {
        index.0 < self.descriptions().len()
    }

    /// A render pass without attachments or subpasses.
    pub fn new() -> (pass: RenderPass)
        ensures
            pass.wf(),
            pass.descriptions().len() == 0,
            pass.images().len() == 0,
            pass.tasks().len() == 0,
    {
        RenderPass { attachments_desc: table_new(), attachments: Vec::new(), tasks: Vec::new() }
    }

    /// The number of attachments.
    pub fn attachment_count(&self) -> (n: usize)
        requires
            self.wf(),
        ensures
            n == self.descriptions().len(),
    {
        table_len(&self.attachments_desc)
    }

    /// The description of the attachment at `index`, if there is one.
    pub fn description(&self, index: AttachmentIndex) -> (found: Option<AttachmentDescription>)
        requires
            self.wf(),
        ensures
            found == if self.has_attachment(index) {
                Some(self.descriptions()[index.0 as int])
            } else {
                None
            },
    {
        if (index.0 as usize) < table_len(&self.attachments_desc) {
            Some(*table_get(&self.attachments_desc, index.0))
        } else {
            None
        }
    }

    /// The image behind the attachment at `index`, if there is one.
    pub fn image(&self, index: AttachmentIndex) -> (found: Option<ImageId>)
        requires
            self.wf(),
        ensures
            found == if self.has_attachment(index) {
                Some(self.images()[index.0 as int])
            } else {
                None
            },
    {
        if (index.0 as usize) < self.attachments.len() {
            Some(self.attachments[index.0 as usize])
        } else {
            None
        }
    }

    /// The number of subpasses.
    pub fn task_count(&self) -> (n: usize)
        ensures
            n == self.tasks().len(),
    {
        self.tasks.len()
    }

    /// The task of the subpass at position `position`, if there is one.
    pub fn task(&self, position: usize) -> (found: Option<TaskId>)
        ensures
            found == if position < self.tasks().len() {
                Some(self.tasks()[position as int])
            } else {
                None
            },
    {
        if position < self.tasks.len() {
            Some(self.tasks[position])
        } else {
            None
        }
    }

    /// Appends an attachment backed by `img` and returns its index: the number
    /// of attachments that the pass held before. Earlier attachments keep
    /// their indices. A pass that is full refuses, and stays as it was.
    pub fn add_attachment(&mut self, img: ImageId, description: AttachmentDescription) -> (result:
        Result<AttachmentIndex, RenderPassError>)
        requires
            old(self).wf(),
        ensures
            final(self).wf(),
            final(self).tasks() == old(self).tasks(),
            result == old(self).next_index(),
            result is Ok ==> final(self).holds_one_more(*old(self), img, description),
            result is Err ==> final(self).descriptions() == old(self).descriptions()
                && final(self).images() == old(self).images(),
    {
        let count = table_len(&self.attachments_desc);
        if count + 1 >= u32::MAX as usize {
            return Err(RenderPassError::TooManyAttachments);
        }
        let index = table_push(&mut self.attachments_desc, description);
        self.attachments.push(img);
        Ok(AttachmentIndex(index))
    }

    /// Sets the store operation of the attachment at `index`, for its colour
    /// or depth and for its stencil alike. Returns whether there is such an
    /// attachment; if there is none, nothing changes.
    pub fn set_store_op(&mut self, index: AttachmentIndex, store_op: AttachmentStoreOp) -> (known:
        bool)
        requires
            old(self).wf(),
        ensures
            final(self).wf(),
            known == old(self).has_attachment(index),
            final(self).images() == old(self).images(),
            final(self).tasks() == old(self).tasks(),
            known ==> final(self).descriptions() == old(self).descriptions().update(
                index.0 as int,
                stored(old(self).descriptions()[index.0 as int], store_op),
            ),
            !known ==> final(self).descriptions() == old(self).descriptions(),
    {
        if (index.0 as usize) >= table_len(&self.attachments_desc) {
            return false;
        }
        let before = *table_get(&self.attachments_desc, index.0);
        let after = AttachmentDescription {
            store_op,
            stencil_store_op: store_op,
            ..before
        };
        table_set(&mut self.attachments_desc, index.0, after);
        true
    }

    /// Records `task` as the next subpass.
    pub fn add_task(&mut self, task: TaskId)
        requires
            old(self).wf(),
        ensures
            final(self).wf(),
            final(self).descriptions() == old(self).descriptions(),
            final(self).images() == old(self).images(),
            final(self).tasks() == old(self).tasks().push(task),
    {
        self.tasks.push(task);
    }
}

/// `description` with its store operations set to `store_op`.
pub open spec fn stored(description: AttachmentDescription, store_op: AttachmentStoreOp) -> AttachmentDescription {
    AttachmentDescription { store_op, stencil_store_op: store_op, ..description }
}

/// The render passes of a frame.
pub struct RenderPasses {
    passes: Vec<RenderPass>,
}

impl RenderPasses {
    /// The render passes, in the order in which they were created.
    pub closed spec fn passes(&self) -> Seq<RenderPass> {
        self.passes@
    }

    /// Whether `id` names a render pass.
    pub open spec fn has_pass(&self, id: RenderPassId) -> bool {
        id.0 < self.passes().len()
    }

    /// The render pass that `id` names.
    pub open spec fn pass(&self, id: RenderPassId) -> RenderPass
        recommends
            self.has_pass(id),
    {
        self.passes()[id.0 as int]
    }

    /// Whether `id` names an attachment: an index of its render pass, with
    /// the image that the pass holds at that index.
    pub open spec fn has_attachment(&self, id: crate::ids::AttachmentId) -> bool {
        &&& self.has_pass(id.renderpass)
        &&& self.pass(id.renderpass).has_attachment(id.index)
        &&& self.pass(id.renderpass).images()[id.index.0 as int] == id.img
    }

    /// The invariant: that of every render pass.
    pub open spec fn wf(&self) -> bool {
        forall|i: int| 0 <= i < self.passes().len() ==> (#[trigger] self.passes()[i]).wf()
    }

    /// No render passes.
    pub fn new() -> (passes: RenderPasses)
        ensures
            passes.wf(),
            passes.passes().len() == 0,
    {
        RenderPasses { passes: Vec::new() }
    }

    /// The number of render passes.
    pub fn count(&self) -> (n: usize)
        ensures
            n == self.passes().len(),
    {
        self.passes.len()
    }

    /// Adds a render pass without attachments or subpasses and returns its
    /// identifier: the number of passes before.
    pub fn create_renderpass(&mut self) -> (id: RenderPassId)
        requires
            old(self).wf(),
        ensures
            final(self).wf(),
            id.0 == old(self).passes().len(),
            final(self).passes().len() == old(self).passes().len() + 1,
            forall|i: int|
                0 <= i < old(self).passes().len() ==> final(self).passes()[i] == old(self).passes()[i],
            final(self).pass(id).descriptions().len() == 0,
            final(self).pass(id).images().len() == 0,
            final(self).pass(id).tasks().len() == 0,
    {
        let id = RenderPassId(self.passes.len());
        self.passes.push(RenderPass::new());
        id
    }

    /// The render pass that `id` names, if it names one.
    pub fn get(&self, id: RenderPassId) -> (found: Option<&RenderPass>)
        ensures
            found == if self.has_pass(id) {
                Some(&self.pass(id))
            } else {
                None
            },
    {
        if id.0 < self.passes.len() {
            Some(&self.passes[id.0])
        } else {
            None
        }
    }

    /// Whether `id` names an attachment: an index of its render pass, with
    /// the image that the pass holds at that index.
    pub fn contains_attachment(&self, id: crate::ids::AttachmentId) -> (found: bool)
        requires
            self.wf(),
        ensures
            found == self.has_attachment(id),
    {
        if id.renderpass.0 >= self.passes.len() {
            return false;
        }
        assert(self.passes()[id.renderpass.0 as int].wf());
        match self.passes[id.renderpass.0].image(id.index) {
            Some(img) => img.0 == id.img.0,
            None => false,
        }
    }

    /// Whether `task` is a subpass of the render pass `id`. A pass that does
    /// not exist has no subpasses.
    pub fn contains_task(&self, id: RenderPassId, task: TaskId) -> (found: bool)
        ensures
            found == (self.has_pass(id) && self.pass(id).tasks().contains(task)),
    {
        if id.0 >= self.passes.len() {
            return false;
        }
        let pass = &self.passes[id.0];
        let mut i: usize = 0;
        while i < pass.tasks.len()
            invariant
                self.has_pass(id),
                *pass == self.pass(id),
                i <= pass.tasks().len(),
                forall|j: int| 0 <= j < i ==> pass.tasks()[j] != task,
            decreases pass.tasks().len() - i,
        {
            if pass.tasks[i].0 == task.0 {
                assert(pass.tasks()[i as int] == task);
                return true;
            }
            i = i + 1;
        }
        false
    }

    /// Appends an attachment to the render pass `id`, as
    /// `RenderPass::add_attachment` does. Other passes are left alone, and if
    /// the request is refused, every pass stays as it was.
    pub fn add_attachment(
        &mut self,
        id: RenderPassId,
        img: ImageId,
        description: AttachmentDescription,
    ) -> (result: Result<AttachmentIndex, RenderPassError>)
        requires
            old(self).wf(),
        ensures
            final(self).wf(),
            result == old(self).check_add_attachment(id),
            final(self).passes().len() == old(self).passes().len(),
            forall|i: int|
                0 <= i < old(self).passes().len() && (i != id.0 || result is Err)
                    ==> final(self).passes()[i] == old(self).passes()[i],
            result is Ok ==> {
                &&& final(self).pass(id).descriptions() == old(self).pass(id).descriptions().push(
                    description,
                )
                &&& final(self).pass(id).images() == old(self).pass(id).images().push(img)
                &&& final(self).pass(id).tasks() == old(self).pass(id).tasks()
            },
    {
        if id.0 >= self.passes.len() {
            return Err(RenderPassError::UnknownRenderPass);
        }
        if self.passes[id.0].attachment_count() + 1 >= u32::MAX as usize {
            return Err(RenderPassError::TooManyAttachments);
        }
        self.passes[id.0].add_attachment(img, description)
    }

    /// What `add_attachment` answers for the render pass `id`.
    pub open spec fn check_add_attachment(&self, id: RenderPassId) -> Result<
        AttachmentIndex,
        RenderPassError,
    > {
        if !self.has_pass(id) {
            Err(RenderPassError::UnknownRenderPass)
        } else {
            self.pass(id).next_index()
        }
    }

    /// Sets the store operations of the attachment `id`, as
    /// `RenderPass::set_store_op` does. Returns whether `id` names an
    /// attachment; if it names none, nothing changes.
    pub fn set_store_op(&mut self, id: crate::ids::AttachmentId, store_op: AttachmentStoreOp) -> (known:
        bool)
        requires
            old(self).wf(),
        ensures
            final(self).wf(),
            known == old(self).has_attachment(id),
            final(self).passes().len() == old(self).passes().len(),
            forall|i: int|
                0 <= i < old(self).passes().len() && (i != id.renderpass.0 || !known)
                    ==> final(self).passes()[i] == old(self).passes()[i],
            known ==> {
                &&& final(self).pass(id.renderpass).descriptions() == old(self).pass(
                    id.renderpass,
                ).descriptions().update(
                    id.index.0 as int,
                    stored(old(self).pass(id.renderpass).descriptions()[id.index.0 as int], store_op),
                )
                &&& final(self).pass(id.renderpass).images() == old(self).pass(id.renderpass).images()
                &&& final(self).pass(id.renderpass).tasks() == old(self).pass(id.renderpass).tasks()
            },
    {
        if !self.contains_attachment(id) {
            return false;
        }
        self.passes[id.renderpass.0].set_store_op(id.index, store_op)
    }

    /// Records `task` as the next subpass of the render pass `id`. Returns
    /// whether `id` names a render pass; if it names none, nothing changes.
    pub fn add_task(&mut self, id: RenderPassId, task: TaskId) -> (known: bool)
        requires
            old(self).wf(),
        ensures
            final(self).wf(),
            known == old(self).has_pass(id),
            final(self).passes().len() == old(self).passes().len(),
            forall|i: int|
                0 <= i < old(self).passes().len() && (i != id.0 || !known) ==> final(self).passes()[i] == old(self).passes()[i],
            known ==> {
                &&& final(self).pass(id).descriptions() == old(self).pass(id).descriptions()
                &&& final(self).pass(id).images() == old(self).pass(id).images()
                &&& final(self).pass(id).tasks() == old(self).pass(id).tasks().push(task)
            },
    {
        if id.0 >= self.passes.len() {
            return false;
        }
        self.passes[id.0].add_task(task);
        true
    }
}

} // verus!
