use node_graph::document::{DocumentNode, DocumentNodeImplementation, NodeInput, NodeNetwork, NodeOutput};
use node_graph::flatten::CompileError;
use node_graph::gpu::{
    dimensions_buffer_options, dispatch_size, frame_from_words, image_buffer_options, read_back,
    BufferData, CompileRequest, DeviceError, GpuAction, GpuError, GpuEvent, GpuJob, Image,
    ImageFrame, Shader, ShaderIO, ShaderInput, StorageBufferOptions, Transform, ENTRY_POINT,
    MAX_DISPATCH, SHADER_NAME,
};
use node_graph::offload::{
    add_network, blend_gpu_image, blend_kernel, compile_gpu, kernel_network, map_gpu, map_network,
    shader_io, GpuCompileError,
};
use node_graph::proto::{ConstructionArgs, NodeConstructor, NodeIdentifier};
use node_graph::registry::{NodeIOTypes, NodeRegistry, RegistryEntry};
use node_graph::types::{Primitive, Type};
use node_graph::typing::{TypeError, TypingContext};
use node_graph::value::{Color, TaggedValue};

fn color(seed: u32) -> Color {
    Color { r: seed, g: seed + 1, b: seed + 2, a: seed + 3 }
}

fn placement(seed: u64) -> Transform {
    Transform { x_axis_x: seed, x_axis_y: 0, y_axis_x: 0, y_axis_y: seed, translation_x: 1, translation_y: 2 }
}

fn frame(width: u32, height: u32, seed: u32) -> ImageFrame {
    let data = (0..width * height).map(|i| color(seed + 10 * i)).collect();
    ImageFrame { image: Image { data, width, height }, transform: placement(seed as u64) }
}

fn shader() -> Shader {
    Shader { spirv_binary: vec![0x0723_0203, 1, 2], input_types: vec![], output_types: vec![], io: shader_io(&[]) }
}

#[test]
fn the_dispatch_is_capped() {
    assert_eq!(MAX_DISPATCH, 65535);
    assert_eq!(dispatch_size(0), 0);
    assert_eq!(dispatch_size(1), 1);
    assert_eq!(dispatch_size(4), 4);
    assert_eq!(dispatch_size(65534), 65534);
    assert_eq!(dispatch_size(65535), 65535);
    assert_eq!(dispatch_size(65536), 65535);
    assert_eq!(dispatch_size(usize::MAX), 65535);
}

#[test]
fn the_blend_kernel_text() {
    let expected = format!(
        r#"graphene_core::raster::adjustments::BlendNode::new(
							graphene_core::value::CopiedNode::new({}),
							graphene_core::value::CopiedNode::new({}),
						).eval((
							i1[_global_index.x as usize],
							if _global_index.x < i2[2] {{
								i0[_global_index.x as usize]
							}} else {{
								Color::from_rgbaf32_unchecked(0.0, 0.0, 0.0, 0.0)
							}},
						))"#,
        "BlendMode::Multiply", "0.5_f32",
    );
    assert_eq!(blend_kernel("BlendMode::Multiply", "0.5_f32", "i2"), expected);
}

#[test]
fn the_network_of_the_compile_client() {
    let network = add_network();
    assert!(network.inputs.is_empty());
    assert_eq!(network.outputs, vec![NodeOutput::new(0, 0)]);
    assert_eq!(network.nodes.len(), 1);
    let (id, node) = &network.nodes[0];
    assert_eq!(*id, 0);
    assert_eq!(node.name, "BlendData");
    match &node.implementation {
        DocumentNodeImplementation::Unresolved(identifier) => assert_eq!(identifier.name, "graphene_core::value::CopiedNode"),
        _ => panic!("not a constructor"),
    }
    match &node.inputs[..] {
        [NodeInput::Inline(inline)] => {
            assert_eq!(inline.expr, blend_kernel("BlendMode::Normal", "1_f32", "i3"));
            assert!(inline.expr.contains("if _global_index.x < i3[2] {"));
            assert_eq!(inline.ty, Type::Concrete(Primitive::Color));
        },
        _ => panic!("not one fragment"),
    }
}

#[test]
fn the_network_of_a_map() {
    let node = DocumentNode::unresolved("Invert", vec![NodeInput::Network(Type::Concrete(Primitive::Color))], "invert");
    let network = map_network(node);
    assert_eq!(network.outputs, vec![NodeOutput::new(1, 0)]);
    assert_eq!(network.nodes.len(), 2);
    assert_eq!(network.nodes[0].1.name, "Slice");
    assert!(matches!(&network.nodes[0].1.inputs[..], [NodeInput::Inline(i)] if i.expr == "i0[_global_index.x as usize]"));
    assert_eq!(network.nodes[1].1.name, "MapNode");
    assert!(matches!(&network.nodes[1].1.inputs[..], [NodeInput::Node { node_id: 0, output_index: 0, lambda: false }]));
    match &network.nodes[1].1.implementation {
        DocumentNodeImplementation::Network(inner) => {
            assert_eq!(inner.nodes.len(), 1);
            assert_eq!(inner.nodes[0].1.name, "Invert");
            assert_eq!(inner.outputs, vec![NodeOutput::new(0, 0)]);
        },
        _ => panic!("not a network"),
    }
}

#[test]
fn the_bindings_of_a_shader() {
    let io = shader_io(&[Primitive::Color, Primitive::U32]);
    assert_eq!(
        io.inputs,
        vec![
            ShaderInput::StorageBuffer(Type::Concrete(Primitive::Color)),
            ShaderInput::StorageBuffer(Type::Concrete(Primitive::U32)),
            ShaderInput::OutputBuffer(Type::Concrete(Primitive::Color)),
        ]
    );
    assert_eq!(io.output, ShaderInput::OutputBuffer(Type::Concrete(Primitive::Color)));
    assert_eq!(image_buffer_options(), StorageBufferOptions { cpu_writable: false, gpu_writable: true, cpu_readable: false, storage: true });
    assert_eq!(dimensions_buffer_options(), StorageBufferOptions { cpu_writable: false, gpu_writable: false, cpu_readable: false, storage: true });
    assert_eq!(SHADER_NAME, "gpu::eval");
    assert_eq!(ENTRY_POINT, "eval");
}

fn bytes_of(colors: &[Color]) -> Vec<u8> {
    let mut bytes = Vec::new();
    for c in colors {
        for word in [c.r, c.g, c.b, c.a] {
            bytes.extend_from_slice(&word.to_ne_bytes());
        }
    }
    bytes
}

#[test]
fn a_blend_of_two_images_runs_its_course() {
    let foreground = frame(1, 1, 500);
    let background = frame(2, 2, 100);
    let back_pixels = background.image.data.clone();
    let front_pixels = foreground.image.data.clone();
    let mut job = blend_gpu_image(foreground, background, "BlendMode::Normal", "1_f32").unwrap();

    assert_eq!(job.action(), GpuAction::Compile);
    let request = job.request();
    assert_eq!(request.networks.len(), 1);
    assert_eq!(request.networks[0].nodes.len(), 1);
    match &request.networks[0].nodes[0].1.construction_args {
        ConstructionArgs::Inline(inline) => assert_eq!(inline.expr, blend_kernel("BlendMode::Normal", "1_f32", "i2")),
        _ => panic!("the kernel is gone"),
    }
    let c = Type::Concrete(Primitive::Color);
    let w = Type::Concrete(Primitive::U32);
    assert_eq!(request.input_types, vec![c.clone(), c.clone(), w.clone(), w.clone()]);
    assert_eq!(request.output_types, vec![c.clone()]);
    assert_eq!(request.io.inputs.len(), 4);
    assert_eq!(request.io.inputs[2], ShaderInput::StorageBuffer(w.clone()));
    assert_eq!(request.io.inputs[3], ShaderInput::OutputBuffer(c.clone()));
    assert_eq!(job.bind_group(), &vec![0, 1, 3]);
    assert!(job.shader().is_none());

    assert_eq!(job.advance(GpuEvent::ShaderCompiled(shader())), GpuAction::CreateExecutor);
    assert_eq!(job.shader().unwrap().spirv_binary, vec![0x0723_0203, 1, 2]);
    assert_eq!(job.advance(GpuEvent::Completed), GpuAction::CreateStorageBuffer { index: 0 });
    assert_eq!(job.buffer(0).unwrap().data, BufferData::Colors(back_pixels));
    assert_eq!(job.buffer(0).unwrap().options, image_buffer_options());
    assert_eq!(job.advance(GpuEvent::Completed), GpuAction::CreateStorageBuffer { index: 1 });
    assert_eq!(job.buffer(1).unwrap().data, BufferData::Colors(front_pixels));
    assert_eq!(job.advance(GpuEvent::Completed), GpuAction::CreateStorageBuffer { index: 2 });
    assert_eq!(job.buffer(2).unwrap().data, BufferData::Words(vec![2, 2]));
    assert_eq!(job.buffer(2).unwrap().options, dimensions_buffer_options());
    assert_eq!(job.advance(GpuEvent::Completed), GpuAction::CreateStorageBuffer { index: 3 });
    assert_eq!(job.buffer(3).unwrap().data, BufferData::Words(vec![1, 1, 1]));
    assert!(job.buffer(4).is_none());
    assert_eq!(job.advance(GpuEvent::Completed), GpuAction::CreateOutputBuffer { len: 4, cpu_readable: false });
    assert_eq!(job.advance(GpuEvent::Completed), GpuAction::CreateOutputBuffer { len: 4, cpu_readable: true });
    assert_eq!(job.advance(GpuEvent::Completed), GpuAction::LoadShader);
    assert_eq!(job.advance(GpuEvent::Completed), GpuAction::CreateComputePass { instances: 4 });
    assert_eq!(job.advance(GpuEvent::Completed), GpuAction::ExecuteComputePipeline);
    assert_eq!(job.advance(GpuEvent::Completed), GpuAction::ReadOutputBuffer);
    let result: Vec<Color> = (0..4).map(|i| color(900 + i)).collect();
    assert_eq!(job.advance(GpuEvent::OutputRead(bytes_of(&result))), GpuAction::Finished);
    assert_eq!(job.advance(GpuEvent::Completed), GpuAction::Finished);
    let blended = job.into_outcome().unwrap().unwrap();
    assert_eq!(blended, ImageFrame { image: Image { data: result, width: 2, height: 2 }, transform: placement(100) });
}

#[test]
fn a_map_over_an_image() {
    let node = DocumentNode::unresolved("Invert", vec![NodeInput::Network(Type::Concrete(Primitive::Color))], "invert");
    let image = frame(3, 1, 7);
    let pixels = image.image.data.clone();
    let mut job = map_gpu(image, node).unwrap();
    assert_eq!(job.request().networks.len(), 1);
    let names: Vec<String> = job.request().networks[0].nodes.iter().map(|(_, n)| n.identifier.name.clone()).collect();
    assert_eq!(names, vec!["graphene_core::value::CopiedNode", "invert"]);
    assert_eq!(job.request().input_types, vec![Type::Concrete(Primitive::Color)]);
    assert_eq!(job.bind_group(), &vec![0]);
    assert_eq!(job.buffer(0).unwrap().data, BufferData::Colors(pixels.clone()));
    let course = [
        (GpuEvent::ShaderCompiled(shader()), GpuAction::CreateExecutor),
        (GpuEvent::Completed, GpuAction::CreateStorageBuffer { index: 0 }),
        (GpuEvent::Completed, GpuAction::CreateOutputBuffer { len: 3, cpu_readable: false }),
        (GpuEvent::Completed, GpuAction::CreateOutputBuffer { len: 3, cpu_readable: true }),
        (GpuEvent::Completed, GpuAction::LoadShader),
        (GpuEvent::Completed, GpuAction::CreateComputePass { instances: 3 }),
        (GpuEvent::Completed, GpuAction::ExecuteComputePipeline),
        (GpuEvent::Completed, GpuAction::ReadOutputBuffer),
        (GpuEvent::OutputRead(bytes_of(&pixels)), GpuAction::Finished),
    ];
    for (event, action) in course {
        assert_eq!(job.advance(event), action);
    }
    let mapped = job.into_outcome().unwrap().unwrap();
    assert_eq!(mapped.image.data, pixels);
    assert_eq!((mapped.image.width, mapped.image.height), (3, 1));
    assert_eq!(mapped.transform, placement(7));
}

fn small_job() -> GpuJob {
    let request = CompileRequest::new(vec![], vec![], vec![], shader_io(&[]));
    GpuJob::new(request, vec![], vec![], 1, 1, 1, placement(0)).unwrap()
}

#[test]
fn a_device_failure_ends_the_job() {
    let mut job = small_job();
    assert_eq!(job.advance(GpuEvent::ShaderCompiled(shader())), GpuAction::CreateExecutor);
    assert_eq!(job.advance(GpuEvent::Failed(DeviceError { message: "no adapter".to_string() })), GpuAction::Finished);
    assert_eq!(job.action(), GpuAction::Finished);
    assert_eq!(job.into_outcome(), Some(Err(GpuError::Device(DeviceError { message: "no adapter".to_string() }))));
}

#[test]
fn an_unexpected_event_ends_the_job() {
    let mut job = small_job();
    assert_eq!(job.advance(GpuEvent::Completed), GpuAction::Finished);
    assert_eq!(job.into_outcome(), Some(Err(GpuError::UnexpectedEvent { stage: 0 })));
    let mut job = small_job();
    assert_eq!(job.advance(GpuEvent::ShaderCompiled(shader())), GpuAction::CreateExecutor);
    assert_eq!(job.advance(GpuEvent::ShaderCompiled(shader())), GpuAction::Finished);
    assert_eq!(job.into_outcome(), Some(Err(GpuError::UnexpectedEvent { stage: 1 })));
    let mut job = small_job();
    assert_eq!(job.advance(GpuEvent::OutputRead(vec![])), GpuAction::Finished);
    assert_eq!(job.into_outcome(), Some(Err(GpuError::UnexpectedEvent { stage: 0 })));
    let mut job = small_job();
    job.advance(GpuEvent::ShaderCompiled(shader()));
    for _ in 0..6 {
        job.advance(GpuEvent::Completed);
    }
    assert_eq!(job.action(), GpuAction::ReadOutputBuffer);
    assert_eq!(job.advance(GpuEvent::Completed), GpuAction::Finished);
    assert_eq!(job.into_outcome(), Some(Err(GpuError::UnexpectedEvent { stage: 7 })));
}

#[test]
fn a_job_under_way_has_no_outcome() {
    let mut job = small_job();
    job.advance(GpuEvent::ShaderCompiled(shader()));
    assert!(job.into_outcome().is_none());
}

#[test]
fn a_job_binds_only_buffers_it_creates() {
    let request = || CompileRequest::new(vec![], vec![], vec![], shader_io(&[]));
    assert!(GpuJob::new(request(), vec![], vec![0], 1, 1, 1, placement(0)).is_none());
    assert!(GpuJob::new(request(), vec![], vec![], 1, 1, 1, placement(0)).is_some());
}

#[test]
fn bytes_read_back_become_colours() {
    let colors = vec![color(1), color(50)];
    let frame = read_back(&bytes_of(&colors), 2, 2, 1, placement(3)).unwrap();
    assert_eq!(frame.image.data, colors);
    assert_eq!((frame.image.width, frame.image.height), (2, 1));
    assert_eq!(frame.transform, placement(3));
    // A byte too many starts another word.
    let mut bytes = bytes_of(&colors);
    bytes.push(0);
    assert_eq!(read_back(&bytes, 2, 2, 1, placement(3)), Err(GpuError::ReadbackSize { expected: 2, found: 9 }));
    assert_eq!(read_back(&bytes_of(&colors), 3, 3, 1, placement(3)), Err(GpuError::ReadbackSize { expected: 3, found: 8 }));
    assert_eq!(read_back(&[], 0, 0, 0, placement(0)).unwrap().image.data, vec![]);
}

#[test]
fn words_are_grouped_by_four() {
    let frame = frame_from_words(vec![1, 2, 3, 4, 5, 6, 7, 8], 2, 1, 2, placement(1)).unwrap();
    assert_eq!(frame.image.data, vec![Color { r: 1, g: 2, b: 3, a: 4 }, Color { r: 5, g: 6, b: 7, a: 8 }]);
    assert_eq!(frame_from_words(vec![1, 2, 3], 1, 1, 1, placement(1)), Err(GpuError::ReadbackSize { expected: 1, found: 3 }));
    assert_eq!(frame_from_words(vec![1, 2, 3, 4], 2, 1, 1, placement(1)), Err(GpuError::ReadbackSize { expected: 2, found: 4 }));
}

fn gpu_registry() -> NodeRegistry {
    let mut registry = NodeRegistry::new();
    registry.register(RegistryEntry {
        identifier: NodeIdentifier::new("graphene_core::value::CopiedNode"),
        types: NodeIOTypes::new(Type::Concrete(Primitive::Unit), Type::Generic(0), vec![Type::Generic(0)]),
        constructor: NodeConstructor::Identity,
    });
    registry
}

#[test]
fn the_request_for_a_node() {
    let kernel = kernel_network("Kernel", "i0[0]".to_string(), Type::Concrete(Primitive::Color));
    let node = DocumentNode::nested("Gpu", vec![], kernel);
    let request = compile_gpu(&node, TypingContext::new(gpu_registry()), shader_io(&[Primitive::Color])).unwrap();
    assert_eq!(request.networks.len(), 1);
    assert_eq!(request.input_types, vec![]);
    assert_eq!(request.output_types, vec![Type::Concrete(Primitive::Color)]);
    assert_eq!(request.io.inputs.len(), 2);
}

#[test]
fn no_request_without_a_typed_network() {
    let plain = DocumentNode::unresolved("Plain", vec![], "plain");
    assert_eq!(compile_gpu(&plain, TypingContext::default(), shader_io(&[])).err(), Some(GpuCompileError::NotANetwork));

    let kernel = || kernel_network("Kernel", "i0[0]".to_string(), Type::Concrete(Primitive::Color));
    let node = DocumentNode::nested("Gpu", vec![], kernel());
    match compile_gpu(&node, TypingContext::default(), shader_io(&[])).err() {
        Some(GpuCompileError::Type(TypeError::UnknownIdentifier { .. })) => {},
        other => panic!("expected a type error, got {:?}", other),
    }

    let mut outputless = kernel();
    outputless.outputs.clear();
    let node = DocumentNode::nested("Gpu", vec![], outputless);
    assert_eq!(compile_gpu(&node, TypingContext::new(gpu_registry()), shader_io(&[])).err(), Some(GpuCompileError::NoPlan));

    let dangling = NodeNetwork {
        inputs: vec![],
        outputs: vec![NodeOutput::new(0, 0)],
        nodes: vec![(0, DocumentNode::unresolved("A", vec![NodeInput::node(5, 0)], "a"))],
        disabled: vec![],
        previous_outputs: None,
    };
    let node = DocumentNode::nested("Gpu", vec![], dangling);
    assert_eq!(
        compile_gpu(&node, TypingContext::new(gpu_registry()), shader_io(&[])).err(),
        Some(GpuCompileError::Compile(CompileError::DanglingReference { node: 0, reference: 5 }))
    );
    let _ = TaggedValue::Unit;
}
