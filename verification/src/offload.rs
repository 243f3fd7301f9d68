//! The offloads on offer: mapping a node over the pixels of an image and
//! blending two images, each as a job for the device, and the request that
//! compiles a node for the GPU.

use vstd::prelude::*;
use vstd::string::StringExecFns;
use crate::compiler::{compile, compiled_all, plans_view};
use crate::document::{
    network_inputs_before, DocumentNode, DocumentNodeImplementation, NodeInput, NodeNetwork,
    NodeOutput,
};
use crate::flatten::CompileError;
use crate::gpu::{
    dimensions_buffer_options, dimensions_options, image_buffer_options, image_options,
    BufferData, CompileRequest, GpuJob, GpuJobView, ImageFrame, ShaderIO, ShaderInput,
    StorageBuffer, StorageBufferOptions,
};
use crate::proto::{InlineRust, ProtoNetworkView};
use crate::types::{Primitive, Type};
use crate::typing::{infer_all, NodeRecordView, TypeError, TypingContext};
use crate::value::Color;
use crate::NodeId;

verus! {

/// The identifier of the constructor that hands a copy of its parameter on.
pub const COPIED_NODE: &'static str = "graphene_core::value::CopiedNode";

/// The text of the blend kernel up to the blend mode.
pub const BLEND_HEAD: &'static str =
    "graphene_core::raster::adjustments::BlendNode::new(\n\t\t\t\t\t\t\tgraphene_core::value::CopiedNode::new(";

/// The text of the blend kernel between the blend mode and the opacity.
pub const BLEND_SECOND: &'static str = "),\n\t\t\t\t\t\t\tgraphene_core::value::CopiedNode::new(";

/// The text of the blend kernel between the opacity and the binding that
/// holds the dimensions of the foreground.
pub const BLEND_EVAL: &'static str =
    "),\n\t\t\t\t\t\t).eval((\n\t\t\t\t\t\t\ti1[_global_index.x as usize],\n\t\t\t\t\t\t\tif _global_index.x < ";

/// The text of the blend kernel after the binding that holds the dimensions
/// of the foreground.
pub const BLEND_TAIL: &'static str =
    "[2] {\n\t\t\t\t\t\t\t\ti0[_global_index.x as usize]\n\t\t\t\t\t\t\t} else {\n\t\t\t\t\t\t\t\tColor::from_rgbaf32_unchecked(0.0, 0.0, 0.0, 0.0)\n\t\t\t\t\t\t\t},\n\t\t\t\t\t\t))";

/// The kernel that reads the pixel of its invocation.
pub const SLICE_KERNEL: &'static str = "i0[_global_index.x as usize]";

/// The source text of the normal blend mode.
pub const NORMAL_BLEND: &'static str = "BlendMode::Normal";

/// The source text of full opacity.
pub const FULL_OPACITY: &'static str = "1_f32";

/// The text of the kernel that blends pixel by pixel: the foreground pixel
/// of the invocation, or a transparent one past the end of the foreground,
/// over the background pixel. `dimensions` names the binding that holds the
/// dimensions of the foreground.
pub open spec fn blend_kernel_text(blend_mode: Seq<char>, opacity: Seq<char>, dimensions: Seq<char>)
    -> Seq<char> {
    BLEND_HEAD@ + blend_mode + BLEND_SECOND@ + opacity + BLEND_EVAL@ + dimensions + BLEND_TAIL@
}

/// The source text of the blend kernel for a blend mode and an opacity, both
/// given as source text.
pub fn blend_kernel(blend_mode: &str, opacity: &str, dimensions: &str) -> (r: String)
    ensures
        r@ == blend_kernel_text(blend_mode@, opacity@, dimensions@),
{
    let mut text = String::from_str(BLEND_HEAD);
    text.append(blend_mode);
    text.append(BLEND_SECOND);
    text.append(opacity);
    text.append(BLEND_EVAL);
    text.append(dimensions);
    text.append(BLEND_TAIL);
    text
}

/// Whether `net` is the network of one kernel: a single node, numbered 0
/// and designated as the output, that copies what the source fragment
/// `expr` of type `ty` evaluates to.
pub open spec fn is_kernel_network(net: NodeNetwork, name: Seq<char>, expr: Seq<char>, ty: Type)
    -> bool {
    &&& net.inputs@.len() == 0
    &&& net.outputs@ == seq![NodeOutput { node_id: 0, node_output_index: 0 }]
    &&& net.disabled@.len() == 0
    &&& net.previous_outputs is None
    &&& net.nodes@.len() == 1
    &&& net.nodes@[0].0 == 0
    &&& net.nodes@[0].1.name@ == name
    &&& net.nodes@[0].1.path is None
    &&& !net.nodes@[0].1.skip_deduplication
    &&& net.nodes@[0].1.implementation is Unresolved
    &&& net.nodes@[0].1.implementation->Unresolved_0.name@ == COPIED_NODE@
    &&& net.nodes@[0].1.inputs@.len() == 1
    &&& net.nodes@[0].1.inputs@[0] is Inline
    &&& net.nodes@[0].1.inputs@[0]->Inline_0.expr@ == expr
    &&& net.nodes@[0].1.inputs@[0]->Inline_0.ty == ty
}

/// The network of one kernel.
pub fn kernel_network(name: &str, expr: String, ty: Type) -> (r: NodeNetwork)
    ensures
        is_kernel_network(r, name@, expr@, ty),
{
    let mut inputs: Vec<NodeInput> = Vec::new();
    inputs.push(NodeInput::Inline(InlineRust::new(expr, ty)));
    let node = DocumentNode::unresolved(name, inputs, COPIED_NODE);
    let mut nodes: Vec<DocumentNode> = Vec::new();
    nodes.push(node);
    NodeNetwork::enumerated(nodes, 0)
}

/// The network that blends at full opacity in the normal blend mode, with
/// the dimensions of the foreground in the fourth binding.
pub fn add_network() -> (r: NodeNetwork)
    ensures
        is_kernel_network(
            r,
            "BlendData"@,
            blend_kernel_text(NORMAL_BLEND@, FULL_OPACITY@, "i3"@),
            Type::Concrete(Primitive::Color),
        ),
{
    kernel_network(
        "BlendData",
        blend_kernel(NORMAL_BLEND, FULL_OPACITY, "i3"),
        Type::Concrete(Primitive::Color),
    )
}

/// Whether `net` is the network that maps `node` over pixels: node 0 reads
/// the pixel of the invocation, node 1 is realized by the network of `node`
/// alone and takes node 0 as its input, and node 1 is the output.
pub open spec fn is_map_network(net: NodeNetwork, node: DocumentNode) -> bool {
    &&& net.inputs@.len() == 0
    &&& net.outputs@ == seq![NodeOutput { node_id: 1, node_output_index: 0 }]
    &&& net.disabled@.len() == 0
    &&& net.previous_outputs is None
    &&& net.nodes@.len() == 2
    &&& net.nodes@[0].0 == 0
    &&& net.nodes@[0].1.name@ == "Slice"@
    &&& net.nodes@[0].1.implementation is Unresolved
    &&& net.nodes@[0].1.implementation->Unresolved_0.name@ == COPIED_NODE@
    &&& net.nodes@[0].1.inputs@.len() == 1
    &&& net.nodes@[0].1.inputs@[0] is Inline
    &&& net.nodes@[0].1.inputs@[0]->Inline_0.expr@ == SLICE_KERNEL@
    &&& net.nodes@[0].1.inputs@[0]->Inline_0.ty == Type::Concrete(Primitive::Color)
    &&& net.nodes@[1].0 == 1
    &&& net.nodes@[1].1.name@ == "MapNode"@
    &&& net.nodes@[1].1.inputs@ == seq![
        NodeInput::Node { node_id: 0, output_index: 0, lambda: false },
    ]
    &&& net.nodes@[1].1.implementation is Network
    &&& net.nodes@[1].1.implementation->Network_0.nodes@ == seq![(0u64, node)]
    &&& net.nodes@[1].1.implementation->Network_0.outputs@ == seq![
        NodeOutput { node_id: 0, node_output_index: 0 },
    ]
    &&& net.nodes@[1].1.implementation->Network_0.inputs@ == Seq::new(
        network_inputs_before(node.inputs@, node.inputs@.len() as int),
        |i: int| 0u64,
    )
}

/// The network that maps `node` over the pixels of an image.
pub fn map_network(node: DocumentNode) -> (r: NodeNetwork)
    ensures
        is_map_network(r, node),
{
    let inner = NodeNetwork::value_network(node);
    let mut slice_inputs: Vec<NodeInput> = Vec::new();
    slice_inputs.push(
        NodeInput::Inline(
            InlineRust::new(String::from_str(SLICE_KERNEL), Type::Concrete(Primitive::Color)),
        ),
    );
    let slice = DocumentNode::unresolved("Slice", slice_inputs, COPIED_NODE);
    let mut map_inputs: Vec<NodeInput> = Vec::new();
    map_inputs.push(NodeInput::node(0, 0));
    assert(map_inputs@ =~= seq![NodeInput::Node { node_id: 0, output_index: 0, lambda: false }]);
    let map = DocumentNode::nested("MapNode", map_inputs, inner);
    let mut nodes: Vec<DocumentNode> = Vec::new();
    nodes.push(slice);
    nodes.push(map);
    NodeNetwork::enumerated(nodes, 1)
}

/// The bindings of a shader with `storage` storage buffers of the given
/// element types, followed by an output buffer of colours.
pub open spec fn storage_then_output(io: ShaderIO, storage: Seq<Primitive>) -> bool {
    &&& io.inputs@.len() == storage.len() + 1
    &&& (forall|i: int|
        0 <= i < storage.len() ==> #[trigger] io.inputs@[i] == ShaderInput::StorageBuffer(
            Type::Concrete(storage[i]),
        ))
    &&& io.inputs@[storage.len() as int] == ShaderInput::OutputBuffer(
        Type::Concrete(Primitive::Color),
    )
    &&& io.output == ShaderInput::OutputBuffer(Type::Concrete(Primitive::Color))
}

/// The bindings of a shader that reads storage buffers of the given element
/// types, in order, and writes colours.
pub fn shader_io(storage: &[Primitive]) -> (io: ShaderIO)
    ensures
        storage_then_output(io, storage@),
{
    let mut inputs: Vec<ShaderInput> = Vec::new();
    let mut i: usize = 0;
    while i < storage.len()
        invariant
            i <= storage@.len(),
            inputs@.len() == i,
            forall|j: int|
                0 <= j < i ==> #[trigger] inputs@[j] == ShaderInput::StorageBuffer(
                    Type::Concrete(storage@[j]),
                ),
        decreases storage.len() - i,
    {
        inputs.push(ShaderInput::StorageBuffer(Type::Concrete(storage[i])));
        i += 1;
    }
    inputs.push(ShaderInput::OutputBuffer(Type::Concrete(Primitive::Color)));
    ShaderIO { inputs, output: ShaderInput::OutputBuffer(Type::Concrete(Primitive::Color)) }
}

/// The types of a sequence of primitives.
pub open spec fn concrete(primitives: Seq<Primitive>) -> Seq<Type> {
    primitives.map_values(|p: Primitive| Type::Concrete(p))
}

fn concrete_types(primitives: &[Primitive]) -> (r: Vec<Type>)
    ensures
        r@ == concrete(primitives@),
{
    let mut types: Vec<Type> = Vec::new();
    let mut i: usize = 0;
    while i < primitives.len()
        invariant
            i <= primitives@.len(),
            types@ == concrete(primitives@).take(i as int),
        decreases primitives.len() - i,
    {
        types.push(Type::Concrete(primitives[i]));
        assert(types@ =~= concrete(primitives@).take(i + 1));
        i += 1;
    }
    assert(concrete(primitives@).take(primitives@.len() as int) =~= concrete(primitives@));
    types
}

/// The mathematical content of [`BufferData`].
pub ghost enum BufferDataView {
    Colors(Seq<Color>),
    Words(Seq<u32>),
}

impl View for BufferData {
    type V = BufferDataView;

    open spec fn view(&self) -> BufferDataView {
        match self {
            BufferData::Colors(colors) => BufferDataView::Colors(colors@),
            BufferData::Words(words) => BufferDataView::Words(words@),
        }
    }
}

/// What an offload of `network` is as a job that has not begun: the plans
/// of the network, the declared types and bindings, the storage buffers, and
/// the shape of the image that comes back.
pub open spec fn is_offload(
    job: GpuJob,
    network: NodeNetwork,
    inputs: Seq<Primitive>,
    storage: Seq<Primitive>,
    buffers: Seq<(BufferDataView, StorageBufferOptions)>,
    bound: Seq<usize>,
    shape: ImageFrame,
) -> bool {
    &&& job.wf()
    &&& job@ == (GpuJobView {
        stage: 0,
        buffers: buffers.len(),
        len: shape.image.data@.len() as usize,
        width: shape.image.width,
        height: shape.image.height,
        transform: shape.transform,
        shader: None,
        outcome: None,
    })
    &&& job.bound() == bound
    &&& job.storage_buffers().len() == buffers.len()
    &&& (forall|i: int|
        0 <= i < buffers.len() ==> (#[trigger] job.storage_buffers()[i]).data@ == buffers[i].0
            && job.storage_buffers()[i].options == buffers[i].1)
    &&& compiled_all(network, network.outputs@.len() as int) == Ok::<
        Seq<ProtoNetworkView>,
        CompileError,
    >(plans_view(job.compile_request().networks@))
    &&& job.compile_request().input_types@ == concrete(inputs)
    &&& job.compile_request().output_types@ == seq![Type::Concrete(Primitive::Color)]
    &&& storage_then_output(job.compile_request().io, storage)
}

/// The job that maps `node` over the pixels of `image` on the GPU.
///
/// The network of the map is compiled; the job sends the plans to the
/// shader compiler, uploads the pixels as the one storage buffer, and
/// dispatches over one work group per pixel, up to the cap. The image that
/// comes back has the dimensions and the placement of `image`.
pub fn map_gpu(image: ImageFrame, node: DocumentNode) -> (r: Result<GpuJob, CompileError>)
    ensures
        exists|network: NodeNetwork|
            is_map_network(network, node) && match compiled_all(
                network,
                network.outputs@.len() as int,
            ) {
                Err(e) => r == Err::<GpuJob, CompileError>(e),
                Ok(_) => r is Ok && is_offload(
                    r->Ok_0,
                    network,
                    seq![Primitive::Color],
                    seq![Primitive::Color],
                    seq![(BufferDataView::Colors(image.image.data@), image_options())],
                    seq![0usize],
                    image,
                ),
            },
{
    let network = map_network(node);
    let proto_networks = match compile(&network) {
        Ok(plans) => plans,
        Err(e) => {
            return Err(e);
        },
    };
    let mut kinds: Vec<Primitive> = Vec::new();
    kinds.push(Primitive::Color);
    assert(kinds@ =~= seq![Primitive::Color]);
    let request = CompileRequest::new(
        proto_networks,
        concrete_types(kinds.as_slice()),
        concrete_types(kinds.as_slice()),
        shader_io(kinds.as_slice()),
    );
    assert(request.output_types@ =~= seq![Type::Concrete(Primitive::Color)]);
    let ImageFrame { image: pixels, transform } = image;
    let len = pixels.data.len();
    let mut buffers: Vec<StorageBuffer> = Vec::new();
    buffers.push(
        StorageBuffer { data: BufferData::Colors(pixels.data), options: image_buffer_options() },
    );
    let mut bind_group: Vec<usize> = Vec::new();
    bind_group.push(0);
    assert(bind_group@ =~= seq![0usize]);
    Ok(GpuJob::assemble(request, buffers, bind_group, len, pixels.width, pixels.height, transform))
}

/// The storage buffers of a blend: the background, the foreground,
/// the dimensions of the background, and the dimensions and the length of
/// the foreground.
pub open spec fn blend_buffers(foreground: ImageFrame, background: ImageFrame) -> Seq<
    (BufferDataView, StorageBufferOptions),
> {
    seq![
        (BufferDataView::Colors(background.image.data@), image_options()),
        (BufferDataView::Colors(foreground.image.data@), image_options()),
        (
            BufferDataView::Words(seq![background.image.width, background.image.height]),
            dimensions_options(),
        ),
        (
            BufferDataView::Words(
                seq![
                    foreground.image.width,
                    foreground.image.height,
                    foreground.image.data@.len() as u32,
                ],
            ),
            dimensions_options(),
        ),
    ]
}

/// The job that blends `foreground` over `background` on the GPU, in the
/// blend mode and at the opacity given as source text.
///
/// The job uploads both images and their dimensions, binds the background,
/// the foreground and the dimensions of the foreground, and dispatches over
/// one work group per pixel of the background, up to the cap. The image that
/// comes back has the dimensions and the placement of the background.
pub fn blend_gpu_image(
    foreground: ImageFrame,
    background: ImageFrame,
    blend_mode: &str,
    opacity: &str,
) -> (r: Result<GpuJob, CompileError>)
    ensures
        exists|network: NodeNetwork|
            is_kernel_network(
                network,
                "BlendOp"@,
                blend_kernel_text(blend_mode@, opacity@, "i2"@),
                Type::Concrete(Primitive::Color),
            ) && match compiled_all(network, network.outputs@.len() as int) {
                Err(e) => r == Err::<GpuJob, CompileError>(e),
                Ok(_) => r is Ok && is_offload(
                    r->Ok_0,
                    network,
                    seq![Primitive::Color, Primitive::Color, Primitive::U32, Primitive::U32],
                    seq![Primitive::Color, Primitive::Color, Primitive::U32],
                    blend_buffers(foreground, background),
                    seq![0usize, 1usize, 3usize],
                    background,
                ),
            },
{
    let network = kernel_network(
        "BlendOp",
        blend_kernel(blend_mode, opacity, "i2"),
        Type::Concrete(Primitive::Color),
    );
    let proto_networks = match compile(&network) {
        Ok(plans) => plans,
        Err(e) => {
            return Err(e);
        },
    };
    let mut inputs: Vec<Primitive> = Vec::new();
    inputs.push(Primitive::Color);
    inputs.push(Primitive::Color);
    inputs.push(Primitive::U32);
    inputs.push(Primitive::U32);
    assert(inputs@ =~= seq![Primitive::Color, Primitive::Color, Primitive::U32, Primitive::U32]);
    let mut storage: Vec<Primitive> = Vec::new();
    storage.push(Primitive::Color);
    storage.push(Primitive::Color);
    storage.push(Primitive::U32);
    assert(storage@ =~= seq![Primitive::Color, Primitive::Color, Primitive::U32]);
    let mut outputs: Vec<Primitive> = Vec::new();
    outputs.push(Primitive::Color);
    let request = CompileRequest::new(
        proto_networks,
        concrete_types(inputs.as_slice()),
        concrete_types(outputs.as_slice()),
        shader_io(storage.as_slice()),
    );
    assert(request.output_types@ =~= seq![Type::Concrete(Primitive::Color)]);
    let ghost expected = blend_buffers(foreground, background);
    let ImageFrame { image: front, transform: _ } = foreground;
    let ImageFrame { image: back, transform } = background;
    let len = back.data.len();
    let mut back_dimensions: Vec<u32> = Vec::new();
    back_dimensions.push(back.width);
    back_dimensions.push(back.height);
    assert(back_dimensions@ =~= seq![back.width, back.height]);
    let mut front_dimensions: Vec<u32> = Vec::new();
    front_dimensions.push(front.width);
    front_dimensions.push(front.height);
    let front_len = front.data.len();
    front_dimensions.push(#[verifier::truncate] (front_len as u32));
    assert(front_dimensions@ =~= seq![front.width, front.height, front.data@.len() as u32]);
    let mut buffers: Vec<StorageBuffer> = Vec::new();
    buffers.push(
        StorageBuffer { data: BufferData::Colors(back.data), options: image_buffer_options() },
    );
    buffers.push(
        StorageBuffer { data: BufferData::Colors(front.data), options: image_buffer_options() },
    );
    buffers.push(
        StorageBuffer {
            data: BufferData::Words(back_dimensions),
            options: dimensions_buffer_options(),
        },
    );
    buffers.push(
        StorageBuffer {
            data: BufferData::Words(front_dimensions),
            options: dimensions_buffer_options(),
        },
    );
    let mut bind_group: Vec<usize> = Vec::new();
    bind_group.push(0);
    bind_group.push(1);
    bind_group.push(3);
    assert(bind_group@ =~= seq![0usize, 1usize, 3usize]);
    Ok(GpuJob::assemble(request, buffers, bind_group, len, back.width, back.height, transform))
}

/// Why a node could not be compiled for the GPU.
#[derive(Debug, PartialEq)]
pub enum GpuCompileError {
    /// The node is not realized by a network.
    NotANetwork,
    /// The network of the node does not compile.
    Compile(CompileError),
    /// A plan of the network does not type-check.
    Type(TypeError),
    /// The network designates no output, so there is no plan.
    NoPlan,
    /// An input or the output of a plan has not been typed.
    Untyped { node: NodeId },
}

/// The records after the first `upto` plans have been typed, one after the
/// other, or the first failure.
pub open spec fn typed_plans(
    registry: crate::registry::NodeRegistry,
    records: Map<NodeId, NodeRecordView>,
    plans: Seq<ProtoNetworkView>,
    upto: int,
) -> Result<Map<NodeId, NodeRecordView>, TypeError>
    decreases upto,
{
    if upto <= 0 || upto > plans.len() {
        Ok(records)
    } else {
        match typed_plans(registry, records, plans, upto - 1) {
            Err(e) => Err(e),
            Ok(so_far) => infer_all(registry, so_far, plans[upto - 1].nodes, 0),
        }
    }
}

/// The output types of the first `upto` of `ids`, or the first of them that
/// has not been typed.
pub open spec fn output_types_of(records: Map<NodeId, NodeRecordView>, ids: Seq<NodeId>, upto: int)
    -> Result<Seq<Type>, NodeId>
    decreases upto,
{
    if upto <= 0 || upto > ids.len() {
        Ok(Seq::empty())
    } else {
        match output_types_of(records, ids, upto - 1) {
            Err(id) => Err(id),
            Ok(rest) => if records.contains_key(ids[upto - 1]) {
                Ok(rest.push(records[ids[upto - 1]].types.output))
            } else {
                Err(ids[upto - 1])
            },
        }
    }
}

/// The designated outputs of a sequence of plans.
pub open spec fn outputs_of(plans: Seq<ProtoNetworkView>) -> Seq<NodeId> {
    plans.map_values(|p: ProtoNetworkView| p.output)
}

/// What is asked of the shader compiler for a node: the plans of its
/// network, the output types of the inputs of the first plan, and the output
/// type of each plan; or the reason there is no request.
pub open spec fn gpu_request(
    node: DocumentNode,
    registry: crate::registry::NodeRegistry,
    records: Map<NodeId, NodeRecordView>,
) -> Result<(Seq<ProtoNetworkView>, Seq<Type>, Seq<Type>), GpuCompileError> {
    match node.implementation {
        DocumentNodeImplementation::Unresolved(_) => Err(GpuCompileError::NotANetwork),
        DocumentNodeImplementation::Network(network) => match compiled_all(
            network,
            network.outputs@.len() as int,
        ) {
            Err(e) => Err(GpuCompileError::Compile(e)),
            Ok(plans) => match typed_plans(registry, records, plans, plans.len() as int) {
                Err(e) => Err(GpuCompileError::Type(e)),
                Ok(all) => if plans.len() == 0 {
                    Err(GpuCompileError::NoPlan)
                } else {
                    match output_types_of(all, plans[0].inputs, plans[0].inputs.len() as int) {
                        Err(id) => Err(GpuCompileError::Untyped { node: id }),
                        Ok(inputs) => match output_types_of(
                            all,
                            outputs_of(plans),
                            plans.len() as int,
                        ) {
                            Err(id) => Err(GpuCompileError::Untyped { node: id }),
                            Ok(outputs) => Ok((plans, inputs, outputs)),
                        },
                    }
                },
            },
        },
    }
}

/// A failure among the first plans is the failure of all of them.
proof fn lemma_typed_plans_fail(
    registry: crate::registry::NodeRegistry,
    records: Map<NodeId, NodeRecordView>,
    plans: Seq<ProtoNetworkView>,
    failed: int,
    upto: int,
)
    requires
        0 < failed <= upto <= plans.len(),
        typed_plans(registry, records, plans, failed) is Err,
    ensures
        typed_plans(registry, records, plans, upto) == typed_plans(registry, records, plans, failed),
    decreases upto - failed,
{
    if failed < upto {
        lemma_typed_plans_fail(registry, records, plans, failed, upto - 1);
    }
}

/// An identifier that is not typed among the first is not typed among all.
proof fn lemma_output_types_fail(
    records: Map<NodeId, NodeRecordView>,
    ids: Seq<NodeId>,
    failed: int,
    upto: int,
)
    requires
        0 < failed <= upto <= ids.len(),
        output_types_of(records, ids, failed) is Err,
    ensures
        output_types_of(records, ids, upto) == output_types_of(records, ids, failed),
    decreases upto - failed,
{
    if failed < upto {
        lemma_output_types_fail(records, ids, failed, upto - 1);
    }
}

fn output_types(typing_context: &TypingContext, ids: &Vec<NodeId>) -> (r: Result<Vec<Type>, NodeId>)
    ensures
        match output_types_of(typing_context.records(), ids@, ids@.len() as int) {
            Ok(types) => r is Ok && r->Ok_0@ == types,
            Err(id) => r == Err::<Vec<Type>, NodeId>(id),
        },
{
    let mut types: Vec<Type> = Vec::new();
    let mut i: usize = 0;
    while i < ids.len()
        invariant
            i <= ids@.len(),
            output_types_of(typing_context.records(), ids@, i as int) == Ok::<Seq<Type>, NodeId>(
                types@,
            ),
        decreases ids.len() - i,
    {
        match typing_context.type_of(ids[i]) {
            Some(node_io) => {
                types.push(node_io.output.clone());
            },
            None => {
                proof {
                    lemma_output_types_fail(
                        typing_context.records(),
                        ids@,
                        i + 1,
                        ids@.len() as int,
                    );
                }
                return Err(ids[i]);
            },
        }
        i += 1;
    }
    Ok(types)
}

/// Prepares the request that compiles a node for the GPU: the network of
/// the node is compiled, every plan is type-checked, and the types of the
/// inputs and of the outputs are read off the typing context.
pub fn compile_gpu(node: &DocumentNode, typing_context: TypingContext, io: ShaderIO) -> (r: Result<
    CompileRequest,
    GpuCompileError,
>)
    ensures
        match gpu_request(*node, typing_context.registry(), typing_context.records()) {
            Err(e) => r is Err && r->Err_0 == e,
            Ok((plans, inputs, outputs)) => r is Ok && plans_view(r->Ok_0.networks@) == plans
                && r->Ok_0.input_types@ == inputs && r->Ok_0.output_types@ == outputs
                && r->Ok_0.io == io,
        },
{
    let network = match &node.implementation {
        DocumentNodeImplementation::Network(network) => network,
        DocumentNodeImplementation::Unresolved(_) => {
            return Err(GpuCompileError::NotANetwork);
        },
    };
    let proto_networks = match compile(network) {
        Ok(plans) => plans,
        Err(e) => {
            return Err(GpuCompileError::Compile(e));
        },
    };
    let ghost plans = plans_view(proto_networks@);
    let ghost start = typing_context.records();
    let ghost registry = typing_context.registry();
    let mut context = typing_context;
    let mut k: usize = 0;
    while k < proto_networks.len()
        invariant
            k <= proto_networks@.len(),
            plans == plans_view(proto_networks@),
            context.registry() == registry,
            registry == typing_context.registry(),
            start == typing_context.records(),
            node.implementation == DocumentNodeImplementation::Network(*network),
            compiled_all(*network, network.outputs@.len() as int) == Ok::<
                Seq<ProtoNetworkView>,
                CompileError,
            >(plans),
            typed_plans(registry, start, plans, k as int) == Ok::<
                Map<NodeId, NodeRecordView>,
                TypeError,
            >(context.records()),
        decreases proto_networks.len() - k,
    {
        assert(plans[k as int] == proto_networks@[k as int]@);
        assert(typed_plans(registry, start, plans, k + 1) == infer_all(
            registry,
            context.records(),
            plans[k as int].nodes,
            0,
        ));
        match context.update(&proto_networks[k]) {
            Ok(()) => {},
            Err(e) => {
                proof {
                    lemma_typed_plans_fail(
                        registry,
                        start,
                        plans,
                        k + 1,
                        plans.len() as int,
                    );
                }
                return Err(GpuCompileError::Type(e));
            },
        }
        k += 1;
    }
    if proto_networks.len() == 0 {
        return Err(GpuCompileError::NoPlan);
    }
    assert(plans[0] == proto_networks@[0]@);
    let input_types = match output_types(&context, &proto_networks[0].inputs) {
        Ok(types) => types,
        Err(id) => {
            return Err(GpuCompileError::Untyped { node: id });
        },
    };
    let mut outputs: Vec<NodeId> = Vec::new();
    let mut o: usize = 0;
    while o < proto_networks.len()
        invariant
            o <= proto_networks@.len(),
            plans == plans_view(proto_networks@),
            outputs@ == outputs_of(plans).take(o as int),
        decreases proto_networks.len() - o,
    {
        outputs.push(proto_networks[o].output);
        assert(plans[o as int] == proto_networks@[o as int]@);
        assert(outputs@ =~= outputs_of(plans).take(o + 1));
        o += 1;
    }
    assert(outputs_of(plans).take(plans.len() as int) =~= outputs_of(plans));
    let output_types = match output_types(&context, &outputs) {
        Ok(types) => types,
        Err(id) => {
            return Err(GpuCompileError::Untyped { node: id });
        },
    };
    Ok(CompileRequest::new(proto_networks, input_types, output_types, io))
}

} // verus!
