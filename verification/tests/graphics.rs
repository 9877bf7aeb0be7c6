use autograph::flags::{
    AttachmentLoadOp, AttachmentStoreOp, Format, ImageLayout, ACCESS_COLOR_ATTACHMENT_READ_BIT,
    ACCESS_COLOR_ATTACHMENT_WRITE_BIT, ACCESS_DEPTH_STENCIL_ATTACHMENT_READ_BIT,
    ACCESS_DEPTH_STENCIL_ATTACHMENT_WRITE_BIT, ACCESS_INPUT_ATTACHMENT_READ_BIT,
    ACCESS_SHADER_READ_BIT, IMAGE_USAGE_COLOR_ATTACHMENT_BIT,
    IMAGE_USAGE_DEPTH_STENCIL_ATTACHMENT_BIT, IMAGE_USAGE_INPUT_ATTACHMENT_BIT,
    IMAGE_USAGE_SAMPLED_BIT, PIPELINE_STAGE_BOTTOM_OF_PIPE_BIT,
    PIPELINE_STAGE_COLOR_ATTACHMENT_OUTPUT_BIT, PIPELINE_STAGE_EARLY_FRAGMENT_TESTS_BIT,
    PIPELINE_STAGE_TOP_OF_PIPE_BIT, PIPELINE_STAGE_VERTEX_SHADER_BIT, SAMPLE_COUNT_1_BIT,
    SAMPLE_COUNT_4_BIT,
};
use autograph::graph::{
    BarrierDetail, Dependency, Edge, FrameGraph, GraphError, ImageBarrier, SubpassBarrier,
    TaskDetails,
};
use autograph::graphics::{
    AttachmentRef, AttachmentReference, FrameError, GraphicsTaskBuilder, HazardError, ImageRef,
};
use autograph::ids::{AttachmentId, AttachmentIndex, ImageId, RenderPassId, TaskId};
use autograph::renderpass::{AttachmentDescription, RenderPassError, RenderPasses};
use autograph::resources::{
    Extent3D, ImageCreateInfo, ImageTiling, ImageType, ResourceError, Resources, SharingMode,
};

fn info(format: Format, usage: u32, layout: ImageLayout) -> ImageCreateInfo {
    ImageCreateInfo {
        image_type: ImageType::Type2d,
        format,
        extent: Extent3D { width: 64, height: 64, depth: 1 },
        mip_levels: 1,
        array_layers: 1,
        samples: SAMPLE_COUNT_4_BIT,
        tiling: ImageTiling::Optimal,
        usage,
        sharing_mode: SharingMode::Exclusive,
        initial_layout: layout,
    }
}

fn image_ref(id: ImageId, task: TaskId) -> ImageRef {
    ImageRef {
        id,
        task,
        src_stage_mask: PIPELINE_STAGE_BOTTOM_OF_PIPE_BIT,
        read: false,
        written: false,
        latency: 3,
    }
}

fn attachment_ref(id: AttachmentId, task: TaskId) -> AttachmentRef {
    AttachmentRef {
        id,
        task,
        src_stage_mask: PIPELINE_STAGE_TOP_OF_PIPE_BIT,
        read: false,
        written: false,
        latency: 0,
    }
}

#[test]
fn image_ref_read_then_write_is_a_hazard() {
    let mut img = image_ref(ImageId(0), TaskId(0));
    assert_eq!(img.set_read(), Ok(()));
    assert!(img.read);
    assert_eq!(img.set_read(), Ok(()));
    assert_eq!(img.set_written(), Err(HazardError::ReadWriteConflict));
    assert!(!img.written);
}

#[test]
fn image_ref_write_then_anything_is_a_hazard() {
    let mut img = image_ref(ImageId(0), TaskId(0));
    assert_eq!(img.set_written(), Ok(()));
    assert!(img.written);
    assert_eq!(img.set_written(), Err(HazardError::WriteWriteConflict));
    assert_eq!(img.set_read(), Err(HazardError::ReadWriteConflict));
    assert!(!img.read);
    assert_eq!(img.id, ImageId(0));
    assert_eq!(img.latency, 3);
}

#[test]
fn attachment_ref_hazards_are_those_of_image_refs() {
    let mut att = AttachmentRef {
        id: AttachmentId { renderpass: RenderPassId(0), index: AttachmentIndex(0), img: ImageId(0) },
        task: TaskId(0),
        src_stage_mask: PIPELINE_STAGE_TOP_OF_PIPE_BIT,
        read: false,
        written: false,
        latency: 0,
    };
    assert_eq!(att.set_written(), Ok(()));
    assert_eq!(att.set_read(), Err(HazardError::ReadWriteConflict));
    assert_eq!(att.set_written(), Err(HazardError::WriteWriteConflict));
    let mut other = attachment_ref(att.id, att.task);
    assert_eq!(other.set_read(), Ok(()));
    assert_eq!(other.set_written(), Err(HazardError::ReadWriteConflict));
}

#[test]
fn new_builder_enters_the_task_into_graph_and_pass() {
    let mut graph = FrameGraph::new();
    let mut resources = Resources::new();
    let mut passes = RenderPasses::new();
    let p = passes.create_renderpass();
    graph.create_task(String::from("earlier"), 0, TaskDetails::Other);
    let builder =
        GraphicsTaskBuilder::new(String::from("draw"), p, &mut graph, &mut resources, &mut passes);
    assert_eq!(builder.task_id(), TaskId(1));
    let task = builder.finish();
    assert_eq!(task, TaskId(1));
    assert_eq!(graph.task_count(), 2);
    assert_eq!(graph.task(task).unwrap().name, "draw");
    assert_eq!(graph.task(task).unwrap().queue, 0);
    match &graph.task(task).unwrap().details {
        TaskDetails::Graphics(details) => {
            assert_eq!(details.renderpass, p);
            assert!(details.color_attachments.is_empty());
            assert!(details.input_attachments.is_empty());
            assert!(details.resolve_attachments.is_empty());
            assert_eq!(details.depth_attachment, None);
            assert!(details.shader_images.is_empty());
        }
        TaskDetails::Other => panic!("details were not filled in"),
    }
    assert_eq!(passes.get(p).unwrap().task_count(), 1);
    assert_eq!(passes.get(p).unwrap().task(0), Some(task));
    assert_eq!(graph.dependency_count(), 0);
}

#[test]
fn sampling_adds_a_shader_read_dependency_on_the_writer() {
    let mut graph = FrameGraph::new();
    let mut resources = Resources::new();
    let mut passes = RenderPasses::new();
    let writer = graph.create_task(String::from("writer"), 0, TaskDetails::Other);
    let image =
        resources.create_image(String::from("x"), info(Format::R8G8B8A8Unorm, 0, ImageLayout::General));
    let p = passes.create_renderpass();
    let mut img = image_ref(image, writer);
    let mut builder =
        GraphicsTaskBuilder::new(String::from("reader"), p, &mut graph, &mut resources, &mut passes);
    assert_eq!(builder.sample_image(&mut img), Ok(()));
    let reader = builder.finish();
    assert!(img.read);
    assert!(!img.written);
    assert_eq!(graph.dependency_count(), 1);
    let edge = graph.dependency(0).unwrap();
    assert_eq!(
        edge,
        Edge {
            src: writer,
            dst: reader,
            dependency: Dependency {
                src_stage_mask: PIPELINE_STAGE_BOTTOM_OF_PIPE_BIT,
                dst_stage_mask: PIPELINE_STAGE_VERTEX_SHADER_BIT,
                barrier: BarrierDetail::Image(ImageBarrier {
                    id: image,
                    old_layout: ImageLayout::General,
                    new_layout: ImageLayout::ShaderReadOnlyOptimal,
                    src_access_mask: 0,
                    dst_access_mask: ACCESS_SHADER_READ_BIT,
                }),
                latency: 3,
            },
        }
    );
    assert_eq!(edge.dependency.dst_stage_mask & 0x8, 0x8);
    assert_eq!(resources.get_image_create_info(image).unwrap().usage, IMAGE_USAGE_SAMPLED_BIT);
    match &graph.task(reader).unwrap().details {
        TaskDetails::Graphics(details) => assert_eq!(details.shader_images, vec![image]),
        TaskDetails::Other => panic!("details were not filled in"),
    }
}

#[test]
fn sampling_an_image_of_the_same_task_adds_no_dependency() {
    let mut graph = FrameGraph::new();
    let mut resources = Resources::new();
    let mut passes = RenderPasses::new();
    let image =
        resources.create_image(String::from("x"), info(Format::R8G8B8A8Unorm, 0, ImageLayout::General));
    let p = passes.create_renderpass();
    let mut builder =
        GraphicsTaskBuilder::new(String::from("both"), p, &mut graph, &mut resources, &mut passes);
    let mut img = image_ref(image, builder.task_id());
    assert_eq!(builder.sample_image(&mut img), Ok(()));
    builder.finish();
    assert!(img.read);
    assert_eq!(graph.dependency_count(), 0);
    assert_eq!(resources.get_image_create_info(image).unwrap().usage, IMAGE_USAGE_SAMPLED_BIT);
}

#[test]
fn sampling_between_subpasses_of_one_pass_is_a_subpass_barrier() {
    let mut graph = FrameGraph::new();
    let mut resources = Resources::new();
    let mut passes = RenderPasses::new();
    let image =
        resources.create_image(String::from("x"), info(Format::R8G8B8A8Unorm, 0, ImageLayout::General));
    let p = passes.create_renderpass();
    let first =
        GraphicsTaskBuilder::new(String::from("first"), p, &mut graph, &mut resources, &mut passes)
            .finish();
    let mut img = image_ref(image, first);
    let mut builder =
        GraphicsTaskBuilder::new(String::from("second"), p, &mut graph, &mut resources, &mut passes);
    assert_eq!(builder.sample_image(&mut img), Ok(()));
    builder.finish();
    assert_eq!(
        graph.dependency(0).unwrap().dependency.barrier,
        BarrierDetail::Subpass(SubpassBarrier {
            id: image,
            old_layout: ImageLayout::Undefined,
            new_layout: ImageLayout::ShaderReadOnlyOptimal,
            src_access_mask: 0,
            dst_access_mask: ACCESS_SHADER_READ_BIT,
        })
    );
}

#[test]
fn sampling_a_written_reference_is_refused_and_changes_nothing() {
    let mut graph = FrameGraph::new();
    let mut resources = Resources::new();
    let mut passes = RenderPasses::new();
    let writer = graph.create_task(String::from("writer"), 0, TaskDetails::Other);
    let image =
        resources.create_image(String::from("x"), info(Format::R8G8B8A8Unorm, 0, ImageLayout::General));
    let p = passes.create_renderpass();
    let mut img = image_ref(image, writer);
    img.set_written().unwrap();
    let mut builder =
        GraphicsTaskBuilder::new(String::from("reader"), p, &mut graph, &mut resources, &mut passes);
    assert_eq!(
        builder.sample_image(&mut img),
        Err(FrameError::Hazard(HazardError::ReadWriteConflict))
    );
    let reader = builder.finish();
    assert!(!img.read);
    assert_eq!(graph.dependency_count(), 0);
    assert_eq!(resources.get_image_create_info(image).unwrap().usage, 0);
    match &graph.task(reader).unwrap().details {
        TaskDetails::Graphics(details) => assert!(details.shader_images.is_empty()),
        TaskDetails::Other => panic!("details were not filled in"),
    }
}

#[test]
fn sampling_is_refused_for_undeclared_usage_and_unknown_image_or_task() {
    let mut graph = FrameGraph::new();
    let mut resources = Resources::new();
    let mut passes = RenderPasses::new();
    let frozen = resources.import_image(
        String::from("frozen"),
        info(Format::R8G8B8A8Unorm, IMAGE_USAGE_COLOR_ATTACHMENT_BIT, ImageLayout::General),
    );
    let free =
        resources.create_image(String::from("free"), info(Format::R8G8B8A8Unorm, 0, ImageLayout::General));
    let p = passes.create_renderpass();
    let mut builder =
        GraphicsTaskBuilder::new(String::from("reader"), p, &mut graph, &mut resources, &mut passes);
    let me = builder.task_id();
    let mut a = image_ref(frozen, me);
    assert_eq!(
        builder.sample_image(&mut a),
        Err(FrameError::Resource(ResourceError::UsageNotDeclared))
    );
    let mut b = image_ref(ImageId(9), me);
    assert_eq!(builder.sample_image(&mut b), Err(FrameError::Resource(ResourceError::UnknownImage)));
    let mut c = image_ref(free, TaskId(1));
    assert_eq!(builder.sample_image(&mut c), Err(FrameError::Graph(GraphError::UnknownTask)));
    assert!(!a.read && !b.read && !c.read);
    builder.finish();
    assert_eq!(resources.get_image_create_info(free).unwrap().usage, 0);
    assert_eq!(graph.dependency_count(), 0);
}

#[test]
fn sampling_what_a_later_task_writes_is_refused_as_a_cycle() {
    let mut graph = FrameGraph::new();
    let mut resources = Resources::new();
    let mut passes = RenderPasses::new();
    let image =
        resources.create_image(String::from("x"), info(Format::R8G8B8A8Unorm, 0, ImageLayout::General));
    let later = graph.create_task(String::from("later"), 0, TaskDetails::Other);
    let p = passes.create_renderpass();
    let mut builder =
        GraphicsTaskBuilder::new(String::from("reader"), p, &mut graph, &mut resources, &mut passes);
    let me = builder.task_id();
    let plain = Dependency {
        src_stage_mask: 1,
        dst_stage_mask: 1,
        barrier: BarrierDetail::Subpass(SubpassBarrier {
            id: image,
            old_layout: ImageLayout::Undefined,
            new_layout: ImageLayout::Undefined,
            src_access_mask: 0,
            dst_access_mask: 0,
        }),
        latency: 0,
    };
    assert_eq!(builder.graph.add_dependency(me, later, plain), Ok(()));
    let mut img = image_ref(image, later);
    assert_eq!(builder.sample_image(&mut img), Err(FrameError::Graph(GraphError::Cycle)));
    builder.finish();
    assert!(!img.read);
    assert_eq!(graph.dependency_count(), 1);
    assert_eq!(resources.get_image_create_info(image).unwrap().usage, 0);
}

#[test]
fn create_attachment_declares_an_image_and_an_attachment() {
    let mut graph = FrameGraph::new();
    let mut resources = Resources::new();
    let mut passes = RenderPasses::new();
    resources.create_image(String::from("earlier"), info(Format::R8Unorm, 0, ImageLayout::General));
    let p = passes.create_renderpass();
    let mut builder =
        GraphicsTaskBuilder::new(String::from("draw"), p, &mut graph, &mut resources, &mut passes);
    let me = builder.task_id();
    let att = builder
        .create_attachment(
            String::from("color"),
            (640, 480),
            Format::R16G16B16A16Sfloat,
            SAMPLE_COUNT_1_BIT,
            AttachmentLoadOp::Clear,
        )
        .unwrap();
    assert_eq!(
        att,
        AttachmentRef {
            id: AttachmentId { renderpass: p, index: AttachmentIndex(0), img: ImageId(1) },
            task: me,
            src_stage_mask: PIPELINE_STAGE_TOP_OF_PIPE_BIT,
            read: false,
            written: false,
            latency: 0,
        }
    );
    let second = builder
        .create_attachment(
            String::from("depth"),
            (640, 480),
            Format::D32Sfloat,
            SAMPLE_COUNT_1_BIT,
            AttachmentLoadOp::DontCare,
        )
        .unwrap();
    assert_eq!(second.id.index, AttachmentIndex(1));
    assert_eq!(second.id.img, ImageId(2));
    builder.finish();
    assert_eq!(graph.dependency_count(), 0);
    assert_eq!(resources.image_count(), 3);
    assert_eq!(
        resources.get_image_create_info(ImageId(1)),
        Some(ImageCreateInfo {
            image_type: ImageType::Type2d,
            format: Format::R16G16B16A16Sfloat,
            extent: Extent3D { width: 640, height: 480, depth: 1 },
            mip_levels: 1,
            array_layers: 1,
            samples: SAMPLE_COUNT_1_BIT,
            tiling: ImageTiling::Optimal,
            usage: 0,
            sharing_mode: SharingMode::Concurrent,
            initial_layout: ImageLayout::ColorAttachmentOptimal,
        })
    );
    assert!(!resources.is_allocated(ImageId(1)));
    let pass = passes.get(p).unwrap();
    assert_eq!(pass.attachment_count(), 2);
    assert_eq!(pass.image(AttachmentIndex(0)), Some(ImageId(1)));
    assert_eq!(
        pass.description(AttachmentIndex(0)),
        Some(AttachmentDescription {
            flags: 0,
            format: Format::R16G16B16A16Sfloat,
            samples: SAMPLE_COUNT_1_BIT,
            load_op: AttachmentLoadOp::Clear,
            store_op: AttachmentStoreOp::DontCare,
            stencil_load_op: AttachmentLoadOp::Clear,
            stencil_store_op: AttachmentStoreOp::DontCare,
            initial_layout: ImageLayout::Undefined,
            final_layout: ImageLayout::Undefined,
        })
    );
    assert_eq!(pass.description(AttachmentIndex(1)).unwrap().load_op, AttachmentLoadOp::DontCare);
}

#[test]
fn load_attachment_takes_format_and_samples_from_the_image() {
    let mut graph = FrameGraph::new();
    let mut resources = Resources::new();
    let mut passes = RenderPasses::new();
    let writer = graph.create_task(String::from("writer"), 0, TaskDetails::Other);
    let image = resources.create_image(
        String::from("x"),
        info(Format::B8G8R8A8Unorm, IMAGE_USAGE_SAMPLED_BIT, ImageLayout::General),
    );
    let p = passes.create_renderpass();
    let img = image_ref(image, writer);
    let mut builder =
        GraphicsTaskBuilder::new(String::from("draw"), p, &mut graph, &mut resources, &mut passes);
    let att = builder.load_attachment(&img, AttachmentLoadOp::Load).unwrap();
    assert_eq!(
        att,
        AttachmentRef {
            id: AttachmentId { renderpass: p, index: AttachmentIndex(0), img: image },
            task: writer,
            src_stage_mask: PIPELINE_STAGE_TOP_OF_PIPE_BIT,
            read: false,
            written: false,
            latency: 0,
        }
    );
    assert_eq!(
        builder.load_attachment(&image_ref(ImageId(5), writer), AttachmentLoadOp::Load),
        Err(FrameError::Resource(ResourceError::UnknownImage))
    );
    builder.finish();
    assert_eq!(graph.dependency_count(), 0);
    assert_eq!(resources.get_image_create_info(image).unwrap().usage, IMAGE_USAGE_SAMPLED_BIT);
    let pass = passes.get(p).unwrap();
    assert_eq!(pass.attachment_count(), 1);
    assert_eq!(
        pass.description(AttachmentIndex(0)),
        Some(AttachmentDescription {
            flags: 0,
            format: Format::B8G8R8A8Unorm,
            samples: SAMPLE_COUNT_4_BIT,
            load_op: AttachmentLoadOp::Load,
            store_op: AttachmentStoreOp::DontCare,
            stencil_load_op: AttachmentLoadOp::Load,
            stencil_store_op: AttachmentStoreOp::DontCare,
            initial_layout: ImageLayout::Undefined,
            final_layout: ImageLayout::Undefined,
        })
    );
}

#[test]
fn store_attachment_sets_the_store_op_and_hands_on_the_image() {
    let mut graph = FrameGraph::new();
    let mut resources = Resources::new();
    let mut passes = RenderPasses::new();
    let p = passes.create_renderpass();
    let mut builder =
        GraphicsTaskBuilder::new(String::from("draw"), p, &mut graph, &mut resources, &mut passes);
    let me = builder.task_id();
    let att = builder
        .create_attachment(
            String::from("color"),
            (8, 8),
            Format::R8G8B8A8Unorm,
            SAMPLE_COUNT_1_BIT,
            AttachmentLoadOp::Clear,
        )
        .unwrap();
    let id = att.id;
    let img = builder.store_attachment(att, AttachmentStoreOp::Store).unwrap();
    assert_eq!(
        img,
        ImageRef {
            id: id.img,
            task: me,
            src_stage_mask: PIPELINE_STAGE_COLOR_ATTACHMENT_OUTPUT_BIT,
            read: false,
            written: false,
            latency: 0,
        }
    );
    let stranger = attachment_ref(
        AttachmentId { renderpass: p, index: AttachmentIndex(1), img: id.img },
        me,
    );
    assert_eq!(
        builder.store_attachment(stranger, AttachmentStoreOp::Store),
        Err(FrameError::RenderPass(RenderPassError::UnknownAttachment))
    );
    let elsewhere = attachment_ref(AttachmentId { renderpass: RenderPassId(1), ..id }, me);
    assert_eq!(
        builder.store_attachment(elsewhere, AttachmentStoreOp::Store),
        Err(FrameError::RenderPass(RenderPassError::UnknownAttachment))
    );
    builder.finish();
    let description = passes.get(p).unwrap().description(AttachmentIndex(0)).unwrap();
    assert_eq!(description.store_op, AttachmentStoreOp::Store);
    assert_eq!(description.stencil_store_op, AttachmentStoreOp::Store);
    assert_eq!(description.load_op, AttachmentLoadOp::Clear);
    assert_eq!(graph.dependency_count(), 0);
}

#[test]
fn binding_own_attachments_adds_usage_and_no_dependency() {
    let mut graph = FrameGraph::new();
    let mut resources = Resources::new();
    let mut passes = RenderPasses::new();
    let p = passes.create_renderpass();
    let mut builder =
        GraphicsTaskBuilder::new(String::from("draw"), p, &mut graph, &mut resources, &mut passes);
    let color = builder
        .create_attachment(
            String::from("color"),
            (8, 8),
            Format::R8G8B8A8Unorm,
            SAMPLE_COUNT_1_BIT,
            AttachmentLoadOp::Clear,
        )
        .unwrap();
    let depth = builder
        .create_attachment(
            String::from("depth"),
            (8, 8),
            Format::D32Sfloat,
            SAMPLE_COUNT_1_BIT,
            AttachmentLoadOp::Clear,
        )
        .unwrap();
    assert_eq!(builder.set_color_attachments(&[&color]), Ok(()));
    assert_eq!(builder.set_depth_attachment(&depth), Ok(()));
    let me = builder.finish();
    assert_eq!(graph.dependency_count(), 0);
    assert_eq!(
        resources.get_image_create_info(color.id.img).unwrap().usage,
        IMAGE_USAGE_COLOR_ATTACHMENT_BIT
    );
    assert_eq!(
        resources.get_image_create_info(depth.id.img).unwrap().usage,
        IMAGE_USAGE_DEPTH_STENCIL_ATTACHMENT_BIT
    );
    match &graph.task(me).unwrap().details {
        TaskDetails::Graphics(details) => {
            assert_eq!(
                details.color_attachments,
                vec![AttachmentReference {
                    attachment: 0,
                    layout: ImageLayout::ColorAttachmentOptimal
                }]
            );
            assert_eq!(
                details.depth_attachment,
                Some(AttachmentReference {
                    attachment: 1,
                    layout: ImageLayout::DepthStencilAttachmentOptimal
                })
            );
            assert!(details.input_attachments.is_empty());
        }
        TaskDetails::Other => panic!("details were not filled in"),
    }
}

#[test]
fn binding_attachments_of_an_earlier_subpass_adds_subpass_dependencies() {
    let mut graph = FrameGraph::new();
    let mut resources = Resources::new();
    let mut passes = RenderPasses::new();
    let p = passes.create_renderpass();
    let mut first =
        GraphicsTaskBuilder::new(String::from("first"), p, &mut graph, &mut resources, &mut passes);
    let a = first
        .create_attachment(
            String::from("a"),
            (8, 8),
            Format::R8G8B8A8Unorm,
            SAMPLE_COUNT_1_BIT,
            AttachmentLoadOp::Clear,
        )
        .unwrap();
    let b = first
        .create_attachment(
            String::from("b"),
            (8, 8),
            Format::R8G8B8A8Unorm,
            SAMPLE_COUNT_1_BIT,
            AttachmentLoadOp::Clear,
        )
        .unwrap();
    let d = first
        .create_attachment(
            String::from("d"),
            (8, 8),
            Format::D32Sfloat,
            SAMPLE_COUNT_1_BIT,
            AttachmentLoadOp::Clear,
        )
        .unwrap();
    let one = first.finish();
    let mut second =
        GraphicsTaskBuilder::new(String::from("second"), p, &mut graph, &mut resources, &mut passes);
    let own = second
        .create_attachment(
            String::from("own"),
            (8, 8),
            Format::R8G8B8A8Unorm,
            SAMPLE_COUNT_1_BIT,
            AttachmentLoadOp::Clear,
        )
        .unwrap();
    assert_eq!(second.set_input_attachments(&[&a, &b]), Ok(()));
    assert_eq!(second.set_color_attachments(&[&own, &b]), Ok(()));
    assert_eq!(second.set_depth_attachment(&d), Ok(()));
    let two = second.finish();
    assert_eq!(graph.dependency_count(), 4);
    let input = |img: ImageId| Edge {
        src: one,
        dst: two,
        dependency: Dependency {
            src_stage_mask: PIPELINE_STAGE_TOP_OF_PIPE_BIT,
            dst_stage_mask: PIPELINE_STAGE_TOP_OF_PIPE_BIT,
            barrier: BarrierDetail::Subpass(SubpassBarrier {
                id: img,
                old_layout: ImageLayout::Undefined,
                new_layout: ImageLayout::ColorAttachmentOptimal,
                src_access_mask: 0,
                dst_access_mask: ACCESS_INPUT_ATTACHMENT_READ_BIT,
            }),
            latency: 0,
        },
    };
    assert_eq!(graph.dependency(0), Some(input(a.id.img)));
    assert_eq!(graph.dependency(1), Some(input(b.id.img)));
    assert_eq!(
        graph.dependency(2),
        Some(Edge {
            src: one,
            dst: two,
            dependency: Dependency {
                src_stage_mask: PIPELINE_STAGE_TOP_OF_PIPE_BIT,
                dst_stage_mask: PIPELINE_STAGE_COLOR_ATTACHMENT_OUTPUT_BIT,
                barrier: BarrierDetail::Subpass(SubpassBarrier {
                    id: b.id.img,
                    old_layout: ImageLayout::Undefined,
                    new_layout: ImageLayout::ColorAttachmentOptimal,
                    src_access_mask: 0,
                    dst_access_mask: ACCESS_COLOR_ATTACHMENT_READ_BIT
                        | ACCESS_COLOR_ATTACHMENT_WRITE_BIT,
                }),
                latency: 0,
            },
        })
    );
    assert_eq!(
        graph.dependency(3),
        Some(Edge {
            src: one,
            dst: two,
            dependency: Dependency {
                src_stage_mask: PIPELINE_STAGE_TOP_OF_PIPE_BIT,
                dst_stage_mask: PIPELINE_STAGE_EARLY_FRAGMENT_TESTS_BIT,
                barrier: BarrierDetail::Subpass(SubpassBarrier {
                    id: d.id.img,
                    old_layout: ImageLayout::Undefined,
                    new_layout: ImageLayout::Undefined,
                    src_access_mask: 0,
                    dst_access_mask: ACCESS_DEPTH_STENCIL_ATTACHMENT_WRITE_BIT
                        | ACCESS_DEPTH_STENCIL_ATTACHMENT_READ_BIT,
                }),
                latency: 0,
            },
        })
    );
    assert_eq!(resources.get_image_create_info(a.id.img).unwrap().usage, IMAGE_USAGE_INPUT_ATTACHMENT_BIT);
    assert_eq!(
        resources.get_image_create_info(b.id.img).unwrap().usage,
        IMAGE_USAGE_INPUT_ATTACHMENT_BIT | IMAGE_USAGE_COLOR_ATTACHMENT_BIT
    );
    assert_eq!(
        resources.get_image_create_info(own.id.img).unwrap().usage,
        IMAGE_USAGE_COLOR_ATTACHMENT_BIT
    );
    match &graph.task(two).unwrap().details {
        TaskDetails::Graphics(details) => {
            assert_eq!(
                details.input_attachments,
                vec![
                    AttachmentReference { attachment: 0, layout: ImageLayout::ColorAttachmentOptimal },
                    AttachmentReference { attachment: 1, layout: ImageLayout::ColorAttachmentOptimal },
                ]
            );
            assert_eq!(
                details.color_attachments,
                vec![
                    AttachmentReference { attachment: 3, layout: ImageLayout::ColorAttachmentOptimal },
                    AttachmentReference { attachment: 1, layout: ImageLayout::ColorAttachmentOptimal },
                ]
            );
            assert_eq!(
                details.depth_attachment,
                Some(AttachmentReference {
                    attachment: 2,
                    layout: ImageLayout::DepthStencilAttachmentOptimal
                })
            );
        }
        TaskDetails::Other => panic!("details were not filled in"),
    }
}

#[test]
fn binding_a_loaded_attachment_across_passes_is_an_image_barrier() {
    let mut graph = FrameGraph::new();
    let mut resources = Resources::new();
    let mut passes = RenderPasses::new();
    let p = passes.create_renderpass();
    let mut first =
        GraphicsTaskBuilder::new(String::from("first"), p, &mut graph, &mut resources, &mut passes);
    let a = first
        .create_attachment(
            String::from("a"),
            (8, 8),
            Format::R8G8B8A8Unorm,
            SAMPLE_COUNT_1_BIT,
            AttachmentLoadOp::Clear,
        )
        .unwrap();
    first.set_color_attachments(&[&a]).unwrap();
    let img = first.store_attachment(a, AttachmentStoreOp::Store).unwrap();
    let one = first.finish();
    let q = passes.create_renderpass();
    let mut second =
        GraphicsTaskBuilder::new(String::from("second"), q, &mut graph, &mut resources, &mut passes);
    let loaded = second.load_attachment(&img, AttachmentLoadOp::Load).unwrap();
    assert_eq!(loaded.task, one);
    assert_eq!(loaded.id.renderpass, q);
    assert_eq!(second.set_color_attachments(&[&loaded]), Ok(()));
    let two = second.finish();
    assert_eq!(graph.dependency_count(), 1);
    assert_eq!(
        graph.dependency(0),
        Some(Edge {
            src: one,
            dst: two,
            dependency: Dependency {
                src_stage_mask: PIPELINE_STAGE_TOP_OF_PIPE_BIT,
                dst_stage_mask: PIPELINE_STAGE_COLOR_ATTACHMENT_OUTPUT_BIT,
                barrier: BarrierDetail::Image(ImageBarrier {
                    id: img.id,
                    old_layout: ImageLayout::ColorAttachmentOptimal,
                    new_layout: ImageLayout::ColorAttachmentOptimal,
                    src_access_mask: 0,
                    dst_access_mask: ACCESS_COLOR_ATTACHMENT_READ_BIT
                        | ACCESS_COLOR_ATTACHMENT_WRITE_BIT,
                }),
                latency: 0,
            },
        })
    );
}

#[test]
fn a_refused_list_of_attachments_changes_nothing() {
    let mut graph = FrameGraph::new();
    let mut resources = Resources::new();
    let mut passes = RenderPasses::new();
    let p = passes.create_renderpass();
    let mut first =
        GraphicsTaskBuilder::new(String::from("first"), p, &mut graph, &mut resources, &mut passes);
    let a = first
        .create_attachment(
            String::from("a"),
            (8, 8),
            Format::R8G8B8A8Unorm,
            SAMPLE_COUNT_1_BIT,
            AttachmentLoadOp::Clear,
        )
        .unwrap();
    first.finish();
    let mut second =
        GraphicsTaskBuilder::new(String::from("second"), p, &mut graph, &mut resources, &mut passes);
    let own = second
        .create_attachment(
            String::from("own"),
            (8, 8),
            Format::R8G8B8A8Unorm,
            SAMPLE_COUNT_1_BIT,
            AttachmentLoadOp::Clear,
        )
        .unwrap();
    second.set_color_attachments(&[&own]).unwrap();
    let missing = attachment_ref(
        AttachmentId { renderpass: p, index: AttachmentIndex(9), img: a.id.img },
        a.task,
    );
    assert_eq!(
        second.set_color_attachments(&[&a, &missing]),
        Err(FrameError::RenderPass(RenderPassError::UnknownAttachment))
    );
    let from_nowhere = attachment_ref(a.id, TaskId(17));
    assert_eq!(
        second.set_input_attachments(&[&a, &from_nowhere, &missing]),
        Err(FrameError::Graph(GraphError::UnknownTask))
    );
    assert_eq!(
        second.set_depth_attachment(&missing),
        Err(FrameError::RenderPass(RenderPassError::UnknownAttachment))
    );
    let two = second.finish();
    assert_eq!(graph.dependency_count(), 0);
    assert_eq!(resources.get_image_create_info(a.id.img).unwrap().usage, 0);
    match &graph.task(two).unwrap().details {
        TaskDetails::Graphics(details) => {
            assert_eq!(
                details.color_attachments,
                vec![AttachmentReference {
                    attachment: 1,
                    layout: ImageLayout::ColorAttachmentOptimal
                }]
            );
            assert!(details.input_attachments.is_empty());
            assert_eq!(details.depth_attachment, None);
        }
        TaskDetails::Other => panic!("details were not filled in"),
    }
}

#[test]
fn binding_an_empty_list_clears_the_attachments() {
    let mut graph = FrameGraph::new();
    let mut resources = Resources::new();
    let mut passes = RenderPasses::new();
    let p = passes.create_renderpass();
    let mut builder =
        GraphicsTaskBuilder::new(String::from("draw"), p, &mut graph, &mut resources, &mut passes);
    let a = builder
        .create_attachment(
            String::from("a"),
            (8, 8),
            Format::R8G8B8A8Unorm,
            SAMPLE_COUNT_1_BIT,
            AttachmentLoadOp::Clear,
        )
        .unwrap();
    builder.set_color_attachments(&[&a]).unwrap();
    assert_eq!(builder.set_color_attachments(&[]), Ok(()));
    let me = builder.finish();
    match &graph.task(me).unwrap().details {
        TaskDetails::Graphics(details) => assert!(details.color_attachments.is_empty()),
        TaskDetails::Other => panic!("details were not filled in"),
    }
}

#[test]
fn clear_write_then_sample_in_a_later_pass_gives_one_image_barrier() {
    let mut graph = FrameGraph::new();
    let mut resources = Resources::new();
    let mut passes = RenderPasses::new();
    let p = passes.create_renderpass();
    let mut write =
        GraphicsTaskBuilder::new(String::from("write"), p, &mut graph, &mut resources, &mut passes);
    let color = write
        .create_attachment(
            String::from("color"),
            (1280, 720),
            Format::R8G8B8A8Srgb,
            SAMPLE_COUNT_1_BIT,
            AttachmentLoadOp::Clear,
        )
        .unwrap();
    write.set_color_attachments(&[&color]).unwrap();
    let color_image = color.id.img;
    let mut image = write.store_attachment(color, AttachmentStoreOp::Store).unwrap();
    let writer = write.finish();
    let q = passes.create_renderpass();
    let mut sample =
        GraphicsTaskBuilder::new(String::from("sample"), q, &mut graph, &mut resources, &mut passes);
    assert_eq!(sample.sample_image(&mut image), Ok(()));
    let sampler = sample.finish();
    assert_eq!(graph.dependency_count(), 1);
    let edge = graph.dependency(0).unwrap();
    assert_eq!(edge.src, writer);
    assert_eq!(edge.dst, sampler);
    assert_eq!(
        edge.dependency.barrier,
        BarrierDetail::Image(ImageBarrier {
            id: color_image,
            old_layout: ImageLayout::ColorAttachmentOptimal,
            new_layout: ImageLayout::ShaderReadOnlyOptimal,
            src_access_mask: 0,
            dst_access_mask: ACCESS_SHADER_READ_BIT,
        })
    );
    assert_eq!(edge.dependency.src_stage_mask, PIPELINE_STAGE_COLOR_ATTACHMENT_OUTPUT_BIT);
    assert_eq!(edge.dependency.dst_stage_mask, PIPELINE_STAGE_VERTEX_SHADER_BIT);
    assert_eq!(graph.execution_order(), vec![writer, sampler]);
    assert_eq!(
        resources.allocate_image(color_image).unwrap().usage,
        IMAGE_USAGE_COLOR_ATTACHMENT_BIT | IMAGE_USAGE_SAMPLED_BIT
    );
    assert_eq!(
        passes.get(p).unwrap().description(AttachmentIndex(0)).unwrap().load_op,
        AttachmentLoadOp::Clear
    );
}
