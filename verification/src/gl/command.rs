//! Turning the commands of a frame into requests to the driver.
//!
//! The context remembers which pipeline is bound, since a draw takes its
//! topology from the pipeline and vertex buffers take their strides from it.
//! Each command yields one request; performing it is left to whoever owns the
//! GL context.

use crate::gl::buffer::GlBuffer;
use crate::gl::image::RawImage;
use vstd::prelude::*;

verus! {

/// A framebuffer object of the driver.
#[derive(Clone, Copy, Debug, PartialEq, Eq, Structural)]
pub struct GlFramebuffer {
    pub obj: u32,
}

/// One vertex buffer binding of a pipeline: the distance in bytes from one
/// vertex to the next.
#[derive(Clone, Copy, Debug, PartialEq, Eq, Structural)]
pub struct VertexInputBinding {
    pub binding: u32,
    pub stride: u32,
}

/// A graphics pipeline of this backend.
#[derive(Debug)]
pub struct GlGraphicsPipeline {
    pub program: u32,
    pub vertex_array: u32,
    pub topology: u32,
    pub vertex_input_bindings: Vec<VertexInputBinding>,
}

/// The type of the indices of an index buffer.
#[derive(Clone, Copy, Debug, PartialEq, Eq, Structural)]
pub enum IndexFormat {
    U16,
    U32,
}

/// A viewport, each of its numbers as the bit pattern of a float.
#[derive(Clone, Copy, Debug, PartialEq, Eq, Structural)]
pub struct Viewport {
    pub x: u32,
    pub y: u32,
    pub width: u32,
    pub height: u32,
    pub min_depth: u32,
    pub max_depth: u32,
}

/// The vertex buffers to bind for a draw, binding by binding: for each, the
/// buffer object, the offset of the first vertex in it and the stride. The
/// three lists are `smallvec::SmallVec`s of eight inline slots, ready to be
/// handed to the driver as arrays.
#[verifier::external_body]
pub struct VertexBufferBindings {
    objs: smallvec::SmallVec<[u32; 8]>,
    offsets: smallvec::SmallVec<[isize; 8]>,
    strides: smallvec::SmallVec<[i32; 8]>,
}

/// What a list of vertex buffer bindings holds: object, offset and stride,
/// binding by binding.
pub uninterp spec fn bound_buffers(bindings: VertexBufferBindings) -> Seq<(u32, isize, i32)>;

/// `smallvec::SmallVec::new`, for each of the three lists: no bindings.
#[verifier::external_body]
fn bindings_new() -> (bindings: VertexBufferBindings)
    ensures
        bound_buffers(bindings).len() == 0,
{
    VertexBufferBindings {
        objs: smallvec::SmallVec::new(),
        offsets: smallvec::SmallVec::new(),
        strides: smallvec::SmallVec::new(),
    }
}

/// `smallvec::SmallVec::push`, on each of the three lists: one more binding
/// at the end.
#[verifier::external_body]
fn bindings_push(bindings: &mut VertexBufferBindings, obj: u32, offset: isize, stride: i32)
    ensures
        bound_buffers(*final(bindings)) == bound_buffers(*old(bindings)).push((obj, offset, stride)),
{
    bindings.objs.push(obj);
    bindings.offsets.push(offset);
    bindings.strides.push(stride);
}

/// `smallvec::SmallVec::len`: the number of bindings.
#[verifier::external_body]
fn bindings_len(bindings: &VertexBufferBindings) -> (n: usize)
    ensures
        n == bound_buffers(*bindings).len(),
{
    bindings.objs.len()
}

/// Indexing a `smallvec::SmallVec`, on each of the three lists: the binding
/// at `index`, which must exist.
#[verifier::external_body]
fn bindings_get(bindings: &VertexBufferBindings, index: usize) -> (binding: (u32, isize, i32))
    requires
        index < bound_buffers(*bindings).len(),
    ensures
        binding == bound_buffers(*bindings)[index as int],
{
    (bindings.objs[index], bindings.offsets[index], bindings.strides[index])
}

impl VertexBufferBindings {
    /// The number of bindings.
    pub fn len(&self) -> (n: usize)
        ensures
            n == bound_buffers(*self).len(),
    {
        bindings_len(self)
    }

    /// The binding at `index`: object, offset and stride. `None` if there are
    /// not that many.
    pub fn get(&self, index: usize) -> (binding: Option<(u32, isize, i32)>)
        ensures
            binding == if index < bound_buffers(*self).len() {
                Some(bound_buffers(*self)[index as int])
            } else {
                None
            },
    {
        if index < bindings_len(self) {
            Some(bindings_get(self, index))
        } else {
            None
        }
    }
}

/// A command of a frame, with the objects of this backend that it names.
pub enum GlCommand<'rcx> {
    PipelineBarrier,
    ClearImageFloat { image: RawImage, color: [u32; 4] },
    ClearDepthStencilImage { image: RawImage, depth: u32, stencil: Option<u8> },
    /// Binds descriptor sets, named by their objects: the first as set 0 of
    /// the bound pipeline, the next as set 1, and so on.
    SetDescriptorSets { descriptor_sets: Vec<u32> },
    SetVertexBuffers { vertex_buffers: Vec<&'rcx GlBuffer> },
    SetIndexBuffer { index_buffer: &'rcx GlBuffer, offset: usize, ty: IndexFormat },
    DrawHeader { pipeline: &'rcx GlGraphicsPipeline },
    SetScissors,
    SetViewports { viewports: Vec<Viewport> },
    SetFramebuffer { framebuffer: &'rcx GlFramebuffer },
    Draw { vertex_count: u32, instance_count: u32, first_vertex: u32, first_instance: u32 },
    DrawIndexed {
        index_count: u32,
        instance_count: u32,
        first_index: u32,
        vertex_offset: i32,
        first_instance: u32,
    },
    Present { image: RawImage, width: u32, height: u32 },
}

/// A request to the driver.
pub enum GlRequest {
    /// Nothing is asked.
    Nothing,
    /// Clear a renderbuffer to a colour, through a framebuffer made for the
    /// purpose.
    ClearRenderbufferColor { renderbuffer: u32, color: [u32; 4] },
    /// Clear the base level of a texture to a colour.
    ClearTextureColor { texture: u32, color: [u32; 4] },
    /// Clear a renderbuffer to a depth, through a framebuffer made for the
    /// purpose.
    ClearRenderbufferDepth { renderbuffer: u32, depth: u32 },
    /// Clear the base level of a texture to a depth.
    ClearTextureDepth { texture: u32, depth: u32 },
    /// Copy an image to the default framebuffer, `width` by `height`, and
    /// swap buffers.
    Present { image: RawImage, width: i32, height: i32 },
    BindDrawFramebuffer { framebuffer: u32 },
    BindPipeline { program: u32, vertex_array: u32 },
    /// Bind the resources of descriptor sets to the program `program`: those
    /// of `sets[0]` as its set 0, those of `sets[1]` as its set 1, and so on.
    BindDescriptorSets { program: u32, sets: Vec<u32> },
    BindVertexBuffers(VertexBufferBindings),
    SetViewports(Vec<Viewport>),
    BindIndexBuffer { buffer: u32, offset: usize, format: IndexFormat },
    Draw { topology: u32, vertex_count: u32, instance_count: u32, first_vertex: u32, first_instance: u32 },
    DrawIndexed {
        topology: u32,
        index_count: u32,
        instance_count: u32,
        first_index: u32,
        vertex_offset: i32,
        first_instance: u32,
    },
}

/// Why a command cannot be submitted.
#[derive(Clone, Copy, Debug, PartialEq, Eq, Structural)]
pub enum SubmitError {
    /// The command needs a pipeline, and none is bound.
    NoPipelineBound,
    /// There are more vertex buffers than the pipeline has bindings.
    TooManyVertexBuffers,
    /// Clearing the stencil is not supported.
    StencilClearUnsupported,
    /// An offset, a stride or a size is beyond what the driver's interface
    /// can express.
    TooLarge,
}

/// Whether the driver's interface can express the offset and the stride of a
/// vertex buffer binding.
pub open spec fn binding_fits(buffer: GlBuffer, binding: VertexInputBinding) -> bool {
    buffer.offset <= isize::MAX && binding.stride <= i32::MAX
}

/// What is bound for the vertex buffer `buffer` at a binding of the pipeline.
pub open spec fn bound_buffer(buffer: GlBuffer, binding: VertexInputBinding) -> (u32, isize, i32) {
    (buffer.raw.obj, buffer.offset as isize, binding.stride as i32)
}

/// The state of the submission of a frame's commands.
pub struct SubmissionContext<'rcx> {
    pub current_pipeline: Option<&'rcx GlGraphicsPipeline>,
}

impl<'rcx> SubmissionContext<'rcx> {
    /// A context in which no pipeline is bound.
    pub fn new() -> (context: SubmissionContext<'rcx>)
        ensures
            context.current_pipeline is None,
    {
        SubmissionContext { current_pipeline: None }
    }

    /// Clears `image` to `color`.
    pub fn cmd_clear_image_float(&mut self, image: &RawImage, color: &[u32; 4]) -> (request: GlRequest)
        ensures
            final(self).current_pipeline == old(self).current_pipeline,
            request == if image.target == crate::gl::image::RENDERBUFFER {
                GlRequest::ClearRenderbufferColor { renderbuffer: image.obj, color: *color }
            } else {
                GlRequest::ClearTextureColor { texture: image.obj, color: *color }
            },
    {
        if image.is_renderbuffer() {
            GlRequest::ClearRenderbufferColor { renderbuffer: image.obj, color: *color }
        } else {
            GlRequest::ClearTextureColor { texture: image.obj, color: *color }
        }
    }

    /// Clears `image` to `depth`. Clearing the stencil as well is not
    /// supported.
    pub fn cmd_clear_depth_stencil_image(&mut self, image: &RawImage, depth: u32, stencil: Option<u8>) -> (result:
        Result<GlRequest, SubmitError>)
        ensures
            final(self).current_pipeline == old(self).current_pipeline,
            result == if stencil is Some {
                Err::<GlRequest, SubmitError>(SubmitError::StencilClearUnsupported)
            } else if image.target == crate::gl::image::RENDERBUFFER {
                Ok(GlRequest::ClearRenderbufferDepth { renderbuffer: image.obj, depth })
            } else {
                Ok(GlRequest::ClearTextureDepth { texture: image.obj, depth })
            },
    {
        if stencil.is_some() {
            return Err(SubmitError::StencilClearUnsupported);
        }
        if image.is_renderbuffer() {
            Ok(GlRequest::ClearRenderbufferDepth { renderbuffer: image.obj, depth })
        } else {
            Ok(GlRequest::ClearTextureDepth { texture: image.obj, depth })
        }
    }

    /// Whether binding `descriptor_sets` while `pipeline` is bound answers
    /// `result`: the request to bind the sets, in their order, to the program
    /// of the pipeline, or, where no pipeline is bound, the refusal.
    pub open spec fn binds_descriptor_sets(
        pipeline: Option<&GlGraphicsPipeline>,
        descriptor_sets: Seq<u32>,
        result: Result<GlRequest, SubmitError>,
    ) -> bool {
        match pipeline {
            Some(pipeline) => result matches Ok(GlRequest::BindDescriptorSets { program, sets })
                && program == pipeline.program && sets@ == descriptor_sets,
            None => result == Err::<GlRequest, SubmitError>(SubmitError::NoPipelineBound),
        }
    }

    /// Binds `descriptor_sets` for the draws that follow: the first as set 0
    /// of the bound pipeline, the next as set 1, and so on. The sets are
    /// bound to the program of the pipeline, whose layout says where the
    /// resources of each set go. Without a pipeline there is nothing to bind
    /// them to.
    pub fn cmd_set_descriptor_sets(&mut self, descriptor_sets: &Vec<u32>) -> (result: Result<
        GlRequest,
        SubmitError,
    >)
        ensures
            final(self).current_pipeline == old(self).current_pipeline,
            Self::binds_descriptor_sets(old(self).current_pipeline, descriptor_sets@, result),
    {
        let pipeline = match self.current_pipeline {
            Some(pipeline) => pipeline,
            None => {
                return Err(SubmitError::NoPipelineBound);
            },
        };
        let mut sets: Vec<u32> = Vec::new();
        let mut i: usize = 0;
        while i < descriptor_sets.len()
            invariant
                i <= descriptor_sets.len(),
                sets@ == descriptor_sets@.take(i as int),
            decreases descriptor_sets.len() - i,
        {
            sets.push(descriptor_sets[i]);
            assert(sets@ =~= descriptor_sets@.take(i + 1));
            i = i + 1;
        }
        assert(descriptor_sets@.take(i as int) =~= descriptor_sets@);
        Ok(GlRequest::BindDescriptorSets { program: pipeline.program, sets })
    }

    /// Presents `image` to a swapchain that is `width` by `height` large.
    pub fn cmd_present(&mut self, image: &RawImage, width: u32, height: u32) -> (result: Result<
        GlRequest,
        SubmitError,
    >)
        ensures
            final(self).current_pipeline == old(self).current_pipeline,
            result == if width > i32::MAX || height > i32::MAX {
                Err::<GlRequest, SubmitError>(SubmitError::TooLarge)
            } else {
                Ok(GlRequest::Present { image: *image, width: width as i32, height: height as i32 })
            },
    {
        let limit: u32 = 0x7fff_ffff;
        if width > limit || height > limit {
            return Err(SubmitError::TooLarge);
        }
        Ok(GlRequest::Present { image: *image, width: width as i32, height: height as i32 })
    }

    /// Makes `fb` the framebuffer that is drawn to.
    pub fn cmd_set_framebuffer(&mut self, fb: &'rcx GlFramebuffer) -> (request: GlRequest)
        ensures
            final(self).current_pipeline == old(self).current_pipeline,
            request == (GlRequest::BindDrawFramebuffer { framebuffer: fb.obj }),
    {
        GlRequest::BindDrawFramebuffer { framebuffer: fb.obj }
    }

    /// Makes `pipeline` the pipeline of the draws that follow.
    pub fn cmd_set_graphics_pipeline(&mut self, pipeline: &'rcx GlGraphicsPipeline) -> (request:
        GlRequest)
        ensures
            final(self).current_pipeline == Some(pipeline),
            request == (GlRequest::BindPipeline {
                program: pipeline.program,
                vertex_array: pipeline.vertex_array,
            }),
    {
        self.current_pipeline = Some(pipeline);
        GlRequest::BindPipeline { program: pipeline.program, vertex_array: pipeline.vertex_array }
    }

    /// What is wrong with binding `buffers` while `pipeline` is bound, if
    /// anything: no pipeline is bound, the pipeline has fewer bindings than
    /// there are buffers, or the first buffer that the driver's interface
    /// cannot express.
    pub open spec fn vertex_buffers_fault(
        pipeline: Option<&GlGraphicsPipeline>,
        buffers: Seq<&GlBuffer>,
    ) -> Option<SubmitError> {
        if pipeline is None {
            Some(SubmitError::NoPipelineBound)
        } else if buffers.len() > pipeline->Some_0.vertex_input_bindings@.len() {
            Some(SubmitError::TooManyVertexBuffers)
        } else if exists|i: int|
            0 <= i < buffers.len() && !binding_fits(
                *#[trigger] buffers[i],
                pipeline->Some_0.vertex_input_bindings@[i],
            ) {
            Some(SubmitError::TooLarge)
        } else {
            None
        }
    }

    /// Binds `buffers` as the vertex buffers of the draws that follow, the
    /// first at the first binding of the bound pipeline, and so on. Each is
    /// bound from its offset on, with the stride of its binding.
    pub fn cmd_set_vertex_buffers(&mut self, buffers: &[&'rcx GlBuffer]) -> (result: Result<
        GlRequest,
        SubmitError,
    >)
        ensures
            final(self).current_pipeline == old(self).current_pipeline,
            match result {
                Ok(request) => {
                    &&& Self::vertex_buffers_fault(old(self).current_pipeline, buffers@) is None
                    &&& request is BindVertexBuffers
                    &&& bound_buffers(request->BindVertexBuffers_0) == Seq::new(
                        buffers@.len(),
                        |i: int|
                            bound_buffer(
                                *buffers@[i],
                                old(self).current_pipeline->Some_0.vertex_input_bindings@[i],
                            ),
                    )
                },
                Err(fault) => Self::vertex_buffers_fault(old(self).current_pipeline, buffers@) == Some(
                    fault,
                ),
            },
    {
        let pipeline = match self.current_pipeline {
            Some(pipeline) => pipeline,
            None => {
                return Err(SubmitError::NoPipelineBound);
            },
        };
        if buffers.len() > pipeline.vertex_input_bindings.len() {
            return Err(SubmitError::TooManyVertexBuffers);
        }
        let mut bindings = bindings_new();
        let mut i: usize = 0;
        while i < buffers.len()
            invariant
                i <= buffers.len(),
                buffers.len() <= pipeline.vertex_input_bindings@.len(),
                self.current_pipeline == Some(pipeline),
                forall|j: int|
                    0 <= j < i ==> binding_fits(
                        *#[trigger] buffers@[j],
                        pipeline.vertex_input_bindings@[j],
                    ),
                bound_buffers(bindings) == Seq::new(
                    i as nat,
                    |j: int| bound_buffer(*buffers@[j], pipeline.vertex_input_bindings@[j]),
                ),
            decreases buffers.len() - i,
        {
            let vb = buffers[i];
            let stride = pipeline.vertex_input_bindings[i].stride;
            if vb.offset > isize::MAX as usize || stride > 0x7fff_ffff {
                assert(!binding_fits(*buffers@[i as int], pipeline.vertex_input_bindings@[i as int]));
                return Err(SubmitError::TooLarge);
            }
            bindings_push(&mut bindings, vb.raw.obj, vb.offset as isize, stride as i32);
            assert(bound_buffers(bindings) =~= Seq::new(
                (i + 1) as nat,
                |j: int| bound_buffer(*buffers@[j], pipeline.vertex_input_bindings@[j]),
            ));
            i = i + 1;
        }
        Ok(GlRequest::BindVertexBuffers(bindings))
    }

    /// Sets the viewports of the draws that follow.
    pub fn cmd_set_viewports(&mut self, viewports: &Vec<Viewport>) -> (request: GlRequest)
        ensures
            final(self).current_pipeline == old(self).current_pipeline,
            request is SetViewports,
            request->SetViewports_0@ == viewports@,
    {
        let mut copy: Vec<Viewport> = Vec::new();
        let mut i: usize = 0;
        while i < viewports.len()
            invariant
                i <= viewports.len(),
                copy@ == viewports@.take(i as int),
            decreases viewports.len() - i,
        {
            copy.push(viewports[i]);
            assert(copy@ =~= viewports@.take(i + 1));
            i = i + 1;
        }
        assert(viewports@.take(i as int) =~= viewports@);
        GlRequest::SetViewports(copy)
    }

    /// Binds `index_buffer` as the index buffer of the draws that follow,
    /// read from `offset` on as indices of type `ty`.
    pub fn cmd_set_index_buffer(&mut self, index_buffer: &'rcx GlBuffer, offset: usize, ty: IndexFormat) -> (request:
        GlRequest)
        ensures
            final(self).current_pipeline == old(self).current_pipeline,
            request == (GlRequest::BindIndexBuffer {
                buffer: index_buffer.raw.obj,
                offset,
                format: ty,
            }),
    {
        GlRequest::BindIndexBuffer { buffer: index_buffer.raw.obj, offset, format: ty }
    }

    /// Draws with the topology of the bound pipeline. Without a pipeline
    /// there is nothing to draw with.
    pub fn cmd_draw(
        &mut self,
        vertex_count: u32,
        instance_count: u32,
        first_vertex: u32,
        first_instance: u32,
    ) -> (result: Result<GlRequest, SubmitError>)
        ensures
            final(self).current_pipeline == old(self).current_pipeline,
            result == match old(self).current_pipeline {
                Some(pipeline) => Ok::<GlRequest, SubmitError>(
                    GlRequest::Draw {
                        topology: pipeline.topology,
                        vertex_count,
                        instance_count,
                        first_vertex,
                        first_instance,
                    },
                ),
                None => Err(SubmitError::NoPipelineBound),
            },
    {
        match self.current_pipeline {
            Some(pipeline) => Ok(
                GlRequest::Draw {
                    topology: pipeline.topology,
                    vertex_count,
                    instance_count,
                    first_vertex,
                    first_instance,
                },
            ),
            None => Err(SubmitError::NoPipelineBound),
        }
    }

    /// Draws indexed with the topology of the bound pipeline. Without a
    /// pipeline there is nothing to draw with.
    pub fn cmd_draw_indexed(
        &mut self,
        index_count: u32,
        instance_count: u32,
        first_index: u32,
        vertex_offset: i32,
        first_instance: u32,
    ) -> (result: Result<GlRequest, SubmitError>)
        ensures
            final(self).current_pipeline == old(self).current_pipeline,
            result == match old(self).current_pipeline {
                Some(pipeline) => Ok::<GlRequest, SubmitError>(
                    GlRequest::DrawIndexed {
                        topology: pipeline.topology,
                        index_count,
                        instance_count,
                        first_index,
                        vertex_offset,
                        first_instance,
                    },
                ),
                None => Err(SubmitError::NoPipelineBound),
            },
    {
        match self.current_pipeline {
            Some(pipeline) => Ok(
                GlRequest::DrawIndexed {
                    topology: pipeline.topology,
                    index_count,
                    instance_count,
                    first_index,
                    vertex_offset,
                    first_instance,
                },
            ),
            None => Err(SubmitError::NoPipelineBound),
        }
    }

    /// Whether submitting `command` while `before` is bound answers `result`
    /// and leaves `after` bound.
    ///
    /// A pipeline barrier and a change of scissors ask nothing of this
    /// backend. Every other command asks what the function for it asks.
    pub open spec fn submits(
        before: Option<&GlGraphicsPipeline>,
        command: GlCommand,
        result: Result<GlRequest, SubmitError>,
        after: Option<&GlGraphicsPipeline>,
    ) -> bool {
        match command {
            GlCommand::PipelineBarrier => after == before && result == Ok::<GlRequest, SubmitError>(
                GlRequest::Nothing,
            ),
            GlCommand::SetScissors => after == before && result == Ok::<GlRequest, SubmitError>(
                GlRequest::Nothing,
            ),
            GlCommand::ClearImageFloat { image, color } => after == before && result == Ok::<
                GlRequest,
                SubmitError,
            >(
                if image.target == crate::gl::image::RENDERBUFFER {
                    GlRequest::ClearRenderbufferColor { renderbuffer: image.obj, color }
                } else {
                    GlRequest::ClearTextureColor { texture: image.obj, color }
                },
            ),
            GlCommand::ClearDepthStencilImage { image, depth, stencil } => after == before && result
                == if stencil is Some {
                Err::<GlRequest, SubmitError>(SubmitError::StencilClearUnsupported)
            } else if image.target == crate::gl::image::RENDERBUFFER {
                Ok(GlRequest::ClearRenderbufferDepth { renderbuffer: image.obj, depth })
            } else {
                Ok(GlRequest::ClearTextureDepth { texture: image.obj, depth })
            },
            GlCommand::SetDescriptorSets { descriptor_sets } => after == before
                && Self::binds_descriptor_sets(before, descriptor_sets@, result),
            GlCommand::SetVertexBuffers { vertex_buffers } => after == before && match result {
                Ok(request) => {
                    &&& Self::vertex_buffers_fault(before, vertex_buffers@) is None
                    &&& request is BindVertexBuffers
                    &&& bound_buffers(request->BindVertexBuffers_0) == Seq::new(
                        vertex_buffers@.len(),
                        |i: int|
                            bound_buffer(
                                *vertex_buffers@[i],
                                before->Some_0.vertex_input_bindings@[i],
                            ),
                    )
                },
                Err(fault) => Self::vertex_buffers_fault(before, vertex_buffers@) == Some(fault),
            },
            GlCommand::SetIndexBuffer { index_buffer, offset, ty } => after == before && result
                == Ok::<GlRequest, SubmitError>(
                GlRequest::BindIndexBuffer { buffer: index_buffer.raw.obj, offset, format: ty },
            ),
            GlCommand::DrawHeader { pipeline } => after == Some(pipeline) && result == Ok::<
                GlRequest,
                SubmitError,
            >(
                GlRequest::BindPipeline {
                    program: pipeline.program,
                    vertex_array: pipeline.vertex_array,
                },
            ),
            GlCommand::SetViewports { viewports } => after == before && result is Ok && result->Ok_0 is SetViewports
                && result->Ok_0->SetViewports_0@ == viewports@,
            GlCommand::SetFramebuffer { framebuffer } => after == before && result == Ok::<
                GlRequest,
                SubmitError,
            >(GlRequest::BindDrawFramebuffer { framebuffer: framebuffer.obj }),
            GlCommand::Draw { vertex_count, instance_count, first_vertex, first_instance } => after
                == before && result == match before {
                Some(pipeline) => Ok::<GlRequest, SubmitError>(
                    GlRequest::Draw {
                        topology: pipeline.topology,
                        vertex_count,
                        instance_count,
                        first_vertex,
                        first_instance,
                    },
                ),
                None => Err(SubmitError::NoPipelineBound),
            },
            GlCommand::DrawIndexed {
                index_count,
                instance_count,
                first_index,
                vertex_offset,
                first_instance,
            } => after == before && result == match before {
                Some(pipeline) => Ok::<GlRequest, SubmitError>(
                    GlRequest::DrawIndexed {
                        topology: pipeline.topology,
                        index_count,
                        instance_count,
                        first_index,
                        vertex_offset,
                        first_instance,
                    },
                ),
                None => Err(SubmitError::NoPipelineBound),
            },
            GlCommand::Present { image, width, height } => after == before && result == if width
                > i32::MAX || height > i32::MAX {
                Err::<GlRequest, SubmitError>(SubmitError::TooLarge)
            } else {
                Ok(GlRequest::Present { image, width: width as i32, height: height as i32 })
            },
        }
    }

    /// Submits one command: works out what it asks of the driver, and
    /// remembers the pipeline if the command binds one.
    pub fn submit_command(&mut self, command: &GlCommand<'rcx>) -> (result: Result<
        GlRequest,
        SubmitError,
    >)
        ensures
            Self::submits(
                old(self).current_pipeline,
                *command,
                result,
                final(self).current_pipeline,
            ),
    {
        match command {
            GlCommand::PipelineBarrier => Ok(GlRequest::Nothing),
            GlCommand::ClearImageFloat { image, color } => Ok(
                self.cmd_clear_image_float(image, color),
            ),
            GlCommand::ClearDepthStencilImage { image, depth, stencil } => {
                self.cmd_clear_depth_stencil_image(image, *depth, *stencil)
            },
            GlCommand::SetDescriptorSets { descriptor_sets } => {
                self.cmd_set_descriptor_sets(descriptor_sets)
            },
            GlCommand::SetVertexBuffers { vertex_buffers } => {
                self.cmd_set_vertex_buffers(vertex_buffers.as_slice())
            },
            GlCommand::SetIndexBuffer { index_buffer, offset, ty } => Ok(
                self.cmd_set_index_buffer(index_buffer, *offset, *ty),
            ),
            GlCommand::DrawHeader { pipeline } => Ok(self.cmd_set_graphics_pipeline(pipeline)),
            GlCommand::SetScissors => Ok(GlRequest::Nothing),
            GlCommand::SetViewports { viewports } => Ok(self.cmd_set_viewports(viewports)),
            GlCommand::SetFramebuffer { framebuffer } => Ok(self.cmd_set_framebuffer(framebuffer)),
            GlCommand::Draw { vertex_count, instance_count, first_vertex, first_instance } => {
                self.cmd_draw(*vertex_count, *instance_count, *first_vertex, *first_instance)
            },
            GlCommand::DrawIndexed {
                index_count,
                instance_count,
                first_index,
                vertex_offset,
                first_instance,
            } => self.cmd_draw_indexed(
                *index_count,
                *instance_count,
                *first_index,
                *vertex_offset,
                *first_instance,
            ),
            GlCommand::Present { image, width, height } => self.cmd_present(image, *width, *height),
        }
    }
}

} // verus!
