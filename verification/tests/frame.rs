use autograph::flags::{
    AttachmentLoadOp, AttachmentStoreOp, Format, ImageLayout, ACCESS_SHADER_READ_BIT,
    IMAGE_USAGE_COLOR_ATTACHMENT_BIT, IMAGE_USAGE_SAMPLED_BIT, SAMPLE_COUNT_1_BIT,
};
use autograph::frame::{allocate_image, allocate_images, Frame};
use autograph::image::{Dimensions, MipmapsCount};
use autograph::renderer::{
    BufferSlice, Command, Descriptor, GraphicsShaderPipeline, LayoutBinding, Renderer,
    RendererBackend,
};
use std::sync::{Arc, Mutex};
use autograph::graph::{BarrierDetail, ImageBarrier};
use autograph::graphics::FrameError;
use autograph::ids::{ImageId, RenderPassId, TaskId};
use autograph::renderpass::RenderPassError;
use autograph::resources::{
    Extent3D, ImageCreateInfo, ImageTiling, ImageType, ResourceError, Resources, SharingMode,
};

/// A backend that notes down the images it is asked for.
struct Allocator {
    seen: Arc<Mutex<Vec<Request>>>,
}

type Request = (Format, Dimensions, MipmapsCount, u32, u32, bool);

fn allocator() -> (Renderer<Allocator>, Arc<Mutex<Vec<Request>>>) {
    let seen = Arc::new(Mutex::new(Vec::new()));
    (Renderer::new(Allocator { seen: seen.clone() }), seen)
}

impl RendererBackend for Allocator {
    type SwapchainHandle = u32;
    type BufferHandle = u32;
    type ImageHandle = usize;
    type DescriptorSetHandle = u32;
    type DescriptorSetLayoutHandle = u32;
    type GraphicsPipelineHandle = u32;

    fn create_swapchain(&self) -> u32 {
        0
    }

    fn default_swapchain(&self) -> Option<u32> {
        None
    }

    fn swapchain_dimensions(&self, _swapchain: u32) -> (u32, u32) {
        (0, 0)
    }

    fn create_image(
        &self,
        format: Format,
        dimensions: &Dimensions,
        mipcount: MipmapsCount,
        samples: u32,
        usage: u32,
        initial_data: Option<&[u8]>,
    ) -> usize {
        let mut seen = self.seen.lock().unwrap();
        seen.push((format, *dimensions, mipcount, samples, usage, initial_data.is_some()));
        100 + seen.len()
    }

    fn upload_transient(&self, data: &[u8]) -> BufferSlice<u32> {
        BufferSlice { buffer: 0, offset: 0, size: data.len() }
    }

    fn destroy_image(&self, _image: usize) {}

    fn create_buffer(&self, _size: u64) -> u32 {
        0
    }

    fn destroy_buffer(&self, _buffer: u32) {}

    fn submit_frame(&self, _commands: &Vec<Command<Allocator>>) {}

    fn create_graphics_pipeline(&self, _shaders: &GraphicsShaderPipeline) -> u32 {
        0
    }

    fn create_descriptor_set_layout(&self, _bindings: &[LayoutBinding]) -> u32 {
        0
    }

    fn create_descriptor_set(&self, _layout: u32, _resources: &[Descriptor<Allocator>]) -> u32 {
        0
    }
}

fn info(usage: u32) -> ImageCreateInfo {
    ImageCreateInfo {
        image_type: ImageType::Type2d,
        format: Format::R8G8B8A8Unorm,
        extent: Extent3D { width: 16, height: 8, depth: 1 },
        mip_levels: 1,
        array_layers: 1,
        samples: SAMPLE_COUNT_1_BIT,
        tiling: ImageTiling::Optimal,
        usage,
        sharing_mode: SharingMode::Exclusive,
        initial_layout: ImageLayout::General,
    }
}

#[test]
fn allocate_all_freezes_what_has_no_storage() {
    let mut resources = Resources::new();
    let a = resources.create_image(String::from("a"), info(0));
    let b = resources.import_image(String::from("b"), info(IMAGE_USAGE_SAMPLED_BIT));
    let c = resources.create_image(String::from("c"), info(IMAGE_USAGE_SAMPLED_BIT));
    resources.add_or_check_image_usage(a, IMAGE_USAGE_COLOR_ATTACHMENT_BIT).unwrap();
    resources.add_or_check_image_usage(a, IMAGE_USAGE_SAMPLED_BIT).unwrap();
    assert_eq!(
        resources.allocate_all(),
        vec![
            (a, info(IMAGE_USAGE_COLOR_ATTACHMENT_BIT | IMAGE_USAGE_SAMPLED_BIT)),
            (c, info(IMAGE_USAGE_SAMPLED_BIT)),
        ]
    );
    assert!(resources.is_allocated(a) && resources.is_allocated(b) && resources.is_allocated(c));
    assert_eq!(resources.allocate_all(), vec![]);
    assert_eq!(
        resources.get_image_create_info(a).unwrap().usage,
        IMAGE_USAGE_COLOR_ATTACHMENT_BIT | IMAGE_USAGE_SAMPLED_BIT
    );
}

#[test]
fn frame_refuses_a_task_in_an_unknown_pass() {
    let mut frame = Frame::new();
    assert!(matches!(
        frame.create_graphics_task(String::from("lost"), RenderPassId(0)),
        Err(FrameError::RenderPass(RenderPassError::UnknownRenderPass))
    ));
    assert_eq!(frame.graph.task_count(), 0);
    let p = frame.create_renderpass();
    assert_eq!(p, RenderPassId(0));
    assert!(matches!(
        frame.create_graphics_task(String::from("lost"), RenderPassId(1)),
        Err(FrameError::RenderPass(RenderPassError::UnknownRenderPass))
    ));
    assert_eq!(frame.graph.task_count(), 0);
    assert_eq!(frame.renderpasses.get(p).unwrap().task_count(), 0);
}

#[test]
fn finished_frame_gives_order_barriers_and_allocations() {
    let mut frame = Frame::new();
    let p = frame.create_renderpass();
    let q = frame.create_renderpass();
    // Declared first, executed last: the post-processing pass samples what the main pass draws.
    let post_task;
    let mut pending;
    {
        let mut main_pass = frame.create_graphics_task(String::from("main"), p).unwrap();
        let color = main_pass
            .create_attachment(
                String::from("color"),
                (320, 200),
                Format::R8G8B8A8Unorm,
                SAMPLE_COUNT_1_BIT,
                AttachmentLoadOp::Clear,
            )
            .unwrap();
        main_pass.set_color_attachments(&[&color]).unwrap();
        pending = main_pass.store_attachment(color, AttachmentStoreOp::Store).unwrap();
        assert_eq!(main_pass.finish(), TaskId(0));
    }
    {
        let mut post = frame.create_graphics_task(String::from("post"), q).unwrap();
        post.sample_image(&mut pending).unwrap();
        post_task = post.finish();
    }
    let plan = frame.finish();
    assert_eq!(plan.order, vec![TaskId(0), post_task]);
    assert_eq!(plan.barriers.len(), 1);
    assert_eq!(plan.barriers[0].src, TaskId(0));
    assert_eq!(plan.barriers[0].dst, post_task);
    assert_eq!(
        plan.barriers[0].dependency.barrier,
        BarrierDetail::Image(ImageBarrier {
            id: ImageId(0),
            old_layout: ImageLayout::ColorAttachmentOptimal,
            new_layout: ImageLayout::ShaderReadOnlyOptimal,
            src_access_mask: 0,
            dst_access_mask: ACCESS_SHADER_READ_BIT,
        })
    );
    assert_eq!(plan.allocations.len(), 1);
    assert_eq!(plan.allocations[0].0, ImageId(0));
    assert_eq!(
        plan.allocations[0].1.usage,
        IMAGE_USAGE_COLOR_ATTACHMENT_BIT | IMAGE_USAGE_SAMPLED_BIT
    );
    assert_eq!(plan.allocations[0].1.extent, Extent3D { width: 320, height: 200, depth: 1 });
    assert!(frame.resources.is_allocated(ImageId(0)));
    let again = frame.finish();
    assert_eq!(again.order, plan.order);
    assert!(again.allocations.is_empty());
}

#[test]
fn backend_sees_the_union_of_the_declared_uses() {
    let mut frame = Frame::new();
    let a = frame.resources.create_image(String::from("a"), info(0));
    let frozen = frame.resources.import_image(String::from("frozen"), info(IMAGE_USAGE_SAMPLED_BIT));
    let b = frame.resources.create_image(String::from("b"), info(0x2));
    for usage in [IMAGE_USAGE_SAMPLED_BIT, IMAGE_USAGE_COLOR_ATTACHMENT_BIT, IMAGE_USAGE_SAMPLED_BIT] {
        frame.resources.add_or_check_image_usage(a, usage).unwrap();
    }
    frame.resources.add_or_check_image_usage(b, 0x80).unwrap();
    let plan = frame.finish();
    let (renderer, seen) = allocator();
    let images = allocate_images(&renderer, &plan.allocations);
    assert_eq!(images, vec![(a, 101), (b, 102)]);
    let shape = Dimensions::Dim2d { width: 16, height: 8 };
    let levels = MipmapsCount::Specific(1);
    assert_eq!(
        *seen.lock().unwrap(),
        vec![
            (
                Format::R8G8B8A8Unorm,
                shape,
                levels,
                1,
                IMAGE_USAGE_SAMPLED_BIT | IMAGE_USAGE_COLOR_ATTACHMENT_BIT,
                false
            ),
            (Format::R8G8B8A8Unorm, shape, levels, 1, 0x82, false),
        ]
    );
    assert!(frame.resources.is_allocated(frozen));
    // A use that was not declared by then is refused afterwards.
    assert_eq!(
        frame.resources.add_or_check_image_usage(a, 0x8),
        Err(ResourceError::UsageNotDeclared)
    );
    assert_eq!(frame.resources.add_or_check_image_usage(a, IMAGE_USAGE_SAMPLED_BIT), Ok(()));
}

#[test]
fn allocation_hands_over_the_description_as_it_is() {
    let (renderer, seen) = allocator();
    let flat = ImageCreateInfo { usage: 0x14, ..info(0) };
    let layered = ImageCreateInfo { array_layers: 6, mip_levels: 3, ..info(0x4) };
    let line = ImageCreateInfo { image_type: ImageType::Type1d, ..info(0x1) };
    let lines = ImageCreateInfo { image_type: ImageType::Type1d, array_layers: 2, ..info(0x1) };
    let solid = ImageCreateInfo {
        image_type: ImageType::Type3d,
        extent: Extent3D { width: 4, height: 5, depth: 6 },
        samples: 4,
        ..info(0x8)
    };
    let handles: Vec<usize> =
        [flat, layered, line, lines, solid].iter().map(|d| allocate_image(&renderer, d)).collect();
    assert_eq!(handles, vec![101, 102, 103, 104, 105]);
    let format = Format::R8G8B8A8Unorm;
    assert_eq!(
        *seen.lock().unwrap(),
        vec![
            (format, Dimensions::Dim2d { width: 16, height: 8 }, MipmapsCount::Specific(1), 1, 0x14, false),
            (
                format,
                Dimensions::Dim2dArray { width: 16, height: 8, array_layers: 6 },
                MipmapsCount::Specific(3),
                1,
                0x4,
                false
            ),
            (format, Dimensions::Dim1d { width: 16 }, MipmapsCount::Specific(1), 1, 0x1, false),
            (
                format,
                Dimensions::Dim1dArray { width: 16, array_layers: 2 },
                MipmapsCount::Specific(1),
                1,
                0x1,
                false
            ),
            (
                format,
                Dimensions::Dim3d { width: 4, height: 5, depth: 6 },
                MipmapsCount::Specific(1),
                4,
                0x8,
                false
            ),
        ]
    );
}
