//! The planning side of GPU offload: what is sent to the shader compiler,
//! which buffers are created and bound, over how many work groups the shader
//! is dispatched, and how the bytes read back become an image.
//!
//! The device itself is driven by the caller. A [`GpuJob`] says which
//! operation comes next and takes the outcome of each operation as an event.

use vstd::prelude::*;
use crate::proto::ProtoNetwork;
use crate::types::Type;
use crate::value::Color;

verus! {

/// The largest number of work groups of one dispatch.
pub const MAX_DISPATCH: u32 = 65535;

/// The number of work groups to dispatch over `len` elements: one per
/// element, capped at [`MAX_DISPATCH`]. The caller chunks larger inputs.
pub fn dispatch_size(len: usize) -> (n: u32)
    ensures
        n as int == if len <= MAX_DISPATCH { len as int } else { MAX_DISPATCH as int },
{
    if len <= 65535 {
        len as u32
    } else {
        MAX_DISPATCH
    }
}

/// An affine map of the plane, each coefficient held as the bit pattern of a
/// 64-bit float.
#[derive(Clone, Copy, Debug, PartialEq, Eq, Structural)]
pub struct Transform {
    pub x_axis_x: u64,
    pub x_axis_y: u64,
    pub y_axis_x: u64,
    pub y_axis_y: u64,
    pub translation_x: u64,
    pub translation_y: u64,
}

/// A raster image, row by row.
#[derive(Debug, PartialEq, Eq)]
pub struct Image {
    pub data: Vec<Color>,
    pub width: u32,
    pub height: u32,
}

/// An image placed in the plane.
#[derive(Debug, PartialEq, Eq)]
pub struct ImageFrame {
    pub image: Image,
    pub transform: Transform,
}

/// The mathematical content of an [`ImageFrame`].
pub ghost struct ImageFrameView {
    pub data: Seq<Color>,
    pub width: u32,
    pub height: u32,
    pub transform: Transform,
}

impl View for ImageFrame {
    type V = ImageFrameView;

    open spec fn view(&self) -> ImageFrameView {
        ImageFrameView {
            data: self.image.data@,
            width: self.image.width,
            height: self.image.height,
            transform: self.transform,
        }
    }
}

/// How a storage buffer may be used.
#[derive(Clone, Copy, Debug, PartialEq, Eq, Structural)]
pub struct StorageBufferOptions {
    pub cpu_writable: bool,
    pub gpu_writable: bool,
    pub cpu_readable: bool,
    pub storage: bool,
}

/// One binding of a shader.
#[derive(Debug, PartialEq)]
pub enum ShaderInput {
    Uniform(Type),
    StorageBuffer(Type),
    OutputBuffer(Type),
    ReadBackBuffer(Type),
}

/// The bindings of a shader: its inputs in binding order and its output.
#[derive(Debug)]
pub struct ShaderIO {
    pub inputs: Vec<ShaderInput>,
    pub output: ShaderInput,
}

/// What is asked of the shader compiler.
#[derive(Debug)]
pub struct CompileRequest {
    pub networks: Vec<ProtoNetwork>,
    pub input_types: Vec<Type>,
    pub output_types: Vec<Type>,
    pub io: ShaderIO,
}

impl CompileRequest {
    pub fn new(
        networks: Vec<ProtoNetwork>,
        input_types: Vec<Type>,
        output_types: Vec<Type>,
        io: ShaderIO,
    ) -> (r: Self)
        ensures
            r.networks == networks,
            r.input_types == input_types,
            r.output_types == output_types,
            r.io == io,
    {
        CompileRequest { networks, input_types, output_types, io }
    }
}

/// What the shader compiler answers: the compiled code and the bindings it
/// was compiled for.
#[derive(Debug)]
pub struct Shader {
    pub spirv_binary: Vec<u32>,
    pub input_types: Vec<Type>,
    pub output_types: Vec<Type>,
    pub io: ShaderIO,
}

/// A failure of the device or of the compile service, as it reported it.
#[derive(Debug, PartialEq, Eq)]
pub struct DeviceError {
    pub message: String,
}

/// Why an offload did not produce an image.
#[derive(Debug, PartialEq, Eq)]
pub enum GpuError {
    /// The device or the compile service failed.
    Device(DeviceError),
    /// An event arrived that the operation under way does not end with.
    UnexpectedEvent { stage: usize },
    /// The bytes read back do not hold `expected` colours; they hold `found`
    /// 32-bit words.
    ReadbackSize { expected: usize, found: usize },
}

/// The data a storage buffer is filled with.
#[derive(Debug, PartialEq, Eq)]
pub enum BufferData {
    Colors(Vec<Color>),
    Words(Vec<u32>),
}

/// A storage buffer to create: its data and how it may be used.
#[derive(Debug)]
pub struct StorageBuffer {
    pub data: BufferData,
    pub options: StorageBufferOptions,
}

/// The options of a buffer that the shader reads image data from.
pub open spec fn image_options() -> StorageBufferOptions {
    StorageBufferOptions { cpu_writable: false, gpu_writable: true, cpu_readable: false, storage: true }
}

/// The options of a buffer that holds the dimensions of an image.
pub open spec fn dimensions_options() -> StorageBufferOptions {
    StorageBufferOptions {
        cpu_writable: false,
        gpu_writable: false,
        cpu_readable: false,
        storage: true,
    }
}

/// The options of a buffer that the shader reads image data from.
pub fn image_buffer_options() -> (r: StorageBufferOptions)
    ensures
        r == image_options(),
{
    StorageBufferOptions { cpu_writable: false, gpu_writable: true, cpu_readable: false, storage: true }
}

/// The options of a buffer that holds the dimensions of an image.
pub fn dimensions_buffer_options() -> (r: StorageBufferOptions)
    ensures
        r == dimensions_options(),
{
    StorageBufferOptions {
        cpu_writable: false,
        gpu_writable: false,
        cpu_readable: false,
        storage: true,
    }
}

/// The next operation on the device.
#[derive(Clone, Copy, Debug, PartialEq, Eq, Structural)]
pub enum GpuAction {
    /// Send the compile request and await the shader.
    Compile,
    /// Create the executor.
    CreateExecutor,
    /// Create the storage buffer with the given number and upload its data.
    CreateStorageBuffer { index: usize },
    /// Create a buffer of `len` colours for the shader's output; the one
    /// that is `cpu_readable` is the buffer results are read back from.
    CreateOutputBuffer { len: usize, cpu_readable: bool },
    /// Load the shader under the name [`SHADER_NAME`].
    LoadShader,
    /// Create the compute pass over the bind group, the output buffer and
    /// the read-back buffer, at entry point [`ENTRY_POINT`], dispatched over
    /// `instances` work groups.
    CreateComputePass { instances: u32 },
    /// Run the compute pass.
    ExecuteComputePipeline,
    /// Read the read-back buffer.
    ReadOutputBuffer,
    /// Nothing is left to do; the outcome can be taken.
    Finished,
}

/// The name a shader is loaded under.
pub const SHADER_NAME: &'static str = "gpu::eval";

/// The entry point of a compute pass.
pub const ENTRY_POINT: &'static str = "eval";

/// The outcome of an operation on the device.
#[derive(Debug)]
pub enum GpuEvent {
    /// The operation succeeded.
    Completed,
    /// The compile service answered with a shader.
    ShaderCompiled(Shader),
    /// The read-back buffer was read.
    OutputRead(Vec<u8>),
    /// The operation failed.
    Failed(DeviceError),
}

/// The number of operations of a job with `buffers` storage buffers; a job
/// at this stage is finished.
pub open spec fn last_stage(buffers: nat) -> nat {
    buffers + 8
}

/// The operation a job with `buffers` storage buffers over `len` elements is
/// at in stage `stage`: compile, create the executor, create the storage
/// buffers in order, the output buffer and the read-back buffer, load the
/// shader, create the pass, run it, read back.
pub open spec fn action_at(buffers: nat, len: usize, stage: nat) -> GpuAction {
    if stage == 0 {
        GpuAction::Compile
    } else if stage == 1 {
        GpuAction::CreateExecutor
    } else if stage < buffers + 2 {
        GpuAction::CreateStorageBuffer { index: (stage - 2) as usize }
    } else if stage == buffers + 2 {
        GpuAction::CreateOutputBuffer { len, cpu_readable: false }
    } else if stage == buffers + 3 {
        GpuAction::CreateOutputBuffer { len, cpu_readable: true }
    } else if stage == buffers + 4 {
        GpuAction::LoadShader
    } else if stage == buffers + 5 {
        GpuAction::CreateComputePass {
            instances: if len <= MAX_DISPATCH {
                len as u32
            } else {
                MAX_DISPATCH
            },
        }
    } else if stage == buffers + 6 {
        GpuAction::ExecuteComputePipeline
    } else if stage == buffers + 7 {
        GpuAction::ReadOutputBuffer
    } else {
        GpuAction::Finished
    }
}

/// Whether `event` is what the operation of `stage` ends with when it
/// succeeds: a shader for the compilation, bytes for the read-back, and a
/// bare completion for every other operation.
pub open spec fn awaited(buffers: nat, stage: nat, event: GpuEvent) -> bool {
    if stage == 0 {
        event is ShaderCompiled
    } else if stage == buffers + 7 {
        event is OutputRead
    } else {
        event is Completed
    }
}

/// The colours that a sequence of 32-bit words holds, four words each in the
/// order red, green, blue, alpha.
pub open spec fn colors_of(words: Seq<u32>) -> Seq<Color> {
    Seq::new(
        (words.len() / 4) as nat,
        |i: int|
            Color { r: words[4 * i], g: words[4 * i + 1], b: words[4 * i + 2], a: words[4 * i + 3] },
    )
}

/// The number of 32-bit words that `bytes` many bytes fill, the last one
/// possibly in part.
pub open spec fn words_in(bytes: nat) -> nat {
    (bytes + 3) / 4
}

/// Copies bytes into 32-bit words in the byte order of the machine, with
/// `bytemuck::pod_collect_to_vec`. Claimed of it: the result holds as many
/// words as the bytes fill, the last one padded. Which value each word has
/// depends on the machine and is not claimed.
#[verifier::external_body]
fn collect_words(bytes: &[u8]) -> (words: Vec<u32>)
    ensures
        words@.len() == words_in(bytes@.len()),
{
    bytemuck::pod_collect_to_vec::<u8, u32>(bytes)
}

/// Builds the image of an offload from the words read back: `len` colours of
/// four words each, with the given dimensions and placement.
pub fn frame_from_words(
    words: Vec<u32>,
    len: usize,
    width: u32,
    height: u32,
    transform: Transform,
) -> (r: Result<ImageFrame, GpuError>)
    ensures
        r is Ok <==> words@.len() == 4 * len,
        r is Ok ==> r->Ok_0@ == (ImageFrameView {
            data: colors_of(words@),
            width,
            height,
            transform,
        }),
        r is Err ==> r->Err_0 == (GpuError::ReadbackSize { expected: len, found: words.len() }),
{
    if words.len() % 4 != 0 || words.len() / 4 != len {
        return Err(GpuError::ReadbackSize { expected: len, found: words.len() });
    }
    let total = words.len();
    let mut data: Vec<Color> = Vec::new();
    let mut i: usize = 0;
    while i < len
        invariant
            i <= len,
            total == 4 * len,
            words@.len() == 4 * len,
            data@.len() == i,
            forall|j: int| 0 <= j < i ==> #[trigger] data@[j] == colors_of(words@)[j],
        decreases len - i,
    {
        data.push(
            Color {
                r: words[4 * i],
                g: words[4 * i + 1],
                b: words[4 * i + 2],
                a: words[4 * i + 3],
            },
        );
        i += 1;
    }
    assert(data@ =~= colors_of(words@));
    Ok(ImageFrame { image: Image { data, width, height }, transform })
}

/// Whether `outcome` is what reading `bytes` many bytes back can give for an
/// image of `len` colours: an image of that many colours with the given
/// dimensions and placement where the bytes fill four words per colour, and
/// else the mismatch.
pub open spec fn read_back_outcome(
    bytes: nat,
    len: usize,
    width: u32,
    height: u32,
    transform: Transform,
    outcome: Result<ImageFrameView, GpuError>,
) -> bool {
    if words_in(bytes) == 4 * len {
        &&& outcome is Ok
        &&& outcome->Ok_0.data.len() == len
        &&& outcome->Ok_0.width == width
        &&& outcome->Ok_0.height == height
        &&& outcome->Ok_0.transform == transform
    } else {
        outcome == Err::<ImageFrameView, GpuError>(
            GpuError::ReadbackSize { expected: len, found: words_in(bytes) as usize },
        )
    }
}

/// Turns the bytes read back from the device into the image of an offload.
pub fn read_back(bytes: &[u8], len: usize, width: u32, height: u32, transform: Transform) -> (r:
    Result<ImageFrame, GpuError>)
    ensures
        read_back_outcome(bytes@.len(), len, width, height, transform, view_of(r)),
{
    let words = collect_words(bytes);
    frame_from_words(words, len, width, height, transform)
}

/// The outcome with the image replaced by its content.
pub open spec fn view_of(r: Result<ImageFrame, GpuError>) -> Result<ImageFrameView, GpuError> {
    match r {
        Ok(frame) => Ok(frame@),
        Err(e) => Err(e),
    }
}

/// The mathematical content of a [`GpuJob`].
pub ghost struct GpuJobView {
    /// The number of operations that have succeeded.
    pub stage: nat,
    /// The number of storage buffers the job creates.
    pub buffers: nat,
    /// The number of elements the shader is dispatched over.
    pub len: usize,
    pub width: u32,
    pub height: u32,
    pub transform: Transform,
    /// The shader, once it has been compiled.
    pub shader: Option<Shader>,
    /// The outcome, once the job is finished.
    pub outcome: Option<Result<ImageFrameView, GpuError>>,
}

/// One offload: the compile request, the buffers to create, and how far the
/// work on the device has come.
pub struct GpuJob {
    request: CompileRequest,
    buffers: Vec<StorageBuffer>,
    bind_group: Vec<usize>,
    len: usize,
    width: u32,
    height: u32,
    transform: Transform,
    stage: usize,
    shader: Option<Shader>,
    outcome: Option<Result<ImageFrame, GpuError>>,
}

impl View for GpuJob {
    type V = GpuJobView;

    closed spec fn view(&self) -> GpuJobView {
        GpuJobView {
            stage: self.stage as nat,
            buffers: self.buffers@.len(),
            len: self.len,
            width: self.width,
            height: self.height,
            transform: self.transform,
            shader: self.shader,
            outcome: match self.outcome {
                Some(r) => Some(view_of(r)),
                None => None,
            },
        }
    }
}

impl GpuJob {
    /// The invariant of a job: it is at a stage of its course, holds the
    /// outcome when it is finished and only then, and binds buffers it
    /// creates.
    pub closed spec fn wf(&self) -> bool {
        &&& self.stage <= self.buffers@.len() + 8
        &&& self.buffers@.len() + 8 <= usize::MAX
        &&& (self.outcome is Some <==> self.stage == self.buffers@.len() + 8)
        &&& (forall|i: int|
            0 <= i < self.bind_group@.len() ==> (#[trigger] self.bind_group@[i])
                < self.buffers@.len())
    }

    /// The compile request of the job.
    pub closed spec fn compile_request(&self) -> CompileRequest {
        self.request
    }

    /// The storage buffers the job creates, in order.
    pub closed spec fn storage_buffers(&self) -> Seq<StorageBuffer> {
        self.buffers@
    }

    /// The storage buffers the compute pass binds, by their numbers and in
    /// binding order.
    pub closed spec fn bound(&self) -> Seq<usize> {
        self.bind_group@
    }

    /// A job that has not begun: it compiles `request`, creates `buffers`,
    /// binds those of them that `bind_group` names, and dispatches over
    /// `len` elements. `None` where `bind_group` names a buffer that is not
    /// among `buffers`, or there are more buffers than can be counted.
    pub fn new(
        request: CompileRequest,
        buffers: Vec<StorageBuffer>,
        bind_group: Vec<usize>,
        len: usize,
        width: u32,
        height: u32,
        transform: Transform,
    ) -> (r: Option<Self>)
        ensures
            r is Some <==> buffers@.len() + 8 <= usize::MAX && forall|i: int|
                0 <= i < bind_group@.len() ==> (#[trigger] bind_group@[i]) < buffers@.len(),
            r is Some ==> r->Some_0.wf() && r->Some_0.compile_request() == request
                && r->Some_0.storage_buffers() == buffers@ && r->Some_0.bound() == bind_group@
                && r->Some_0@ == (GpuJobView {
                stage: 0,
                buffers: buffers@.len(),
                len,
                width,
                height,
                transform,
                shader: None,
                outcome: None,
            }),
    {
        if buffers.len() > usize::MAX - 8 {
            return None;
        }
        let mut i: usize = 0;
        while i < bind_group.len()
            invariant
                i <= bind_group@.len(),
                forall|j: int| 0 <= j < i ==> (#[trigger] bind_group@[j]) < buffers@.len(),
            decreases bind_group.len() - i,
        {
            if bind_group[i] >= buffers.len() {
                return None;
            }
            i += 1;
        }
        Some(GpuJob::assemble(request, buffers, bind_group, len, width, height, transform))
    }

    /// A job that has not begun, of buffers that can be counted and a bind
    /// group that names some of them.
    pub(crate) fn assemble(
        request: CompileRequest,
        buffers: Vec<StorageBuffer>,
        bind_group: Vec<usize>,
        len: usize,
        width: u32,
        height: u32,
        transform: Transform,
    ) -> (r: Self)
        requires
            buffers@.len() + 8 <= usize::MAX,
            forall|i: int| 0 <= i < bind_group@.len() ==> (#[trigger] bind_group@[i]) < buffers@.len(),
        ensures
            r.wf(),
            r.compile_request() == request,
            r.storage_buffers() == buffers@,
            r.bound() == bind_group@,
            r@ == (GpuJobView {
                stage: 0,
                buffers: buffers@.len(),
                len,
                width,
                height,
                transform,
                shader: None,
                outcome: None,
            }),
    {
        GpuJob {
            request,
            buffers,
            bind_group,
            len,
            width,
            height,
            transform,
            stage: 0,
            shader: None,
            outcome: None,
        }
    }

    /// The operation the job is at.
    pub fn action(&self) -> (r: GpuAction)
        requires
            self.wf(),
        ensures
            r == action_at(self@.buffers, self@.len, self@.stage),
    {
        let n = self.buffers.len();
        if self.stage == 0 {
            GpuAction::Compile
        } else if self.stage == 1 {
            GpuAction::CreateExecutor
        } else if self.stage < n + 2 {
            GpuAction::CreateStorageBuffer { index: self.stage - 2 }
        } else if self.stage == n + 2 {
            GpuAction::CreateOutputBuffer { len: self.len, cpu_readable: false }
        } else if self.stage == n + 3 {
            GpuAction::CreateOutputBuffer { len: self.len, cpu_readable: true }
        } else if self.stage == n + 4 {
            GpuAction::LoadShader
        } else if self.stage == n + 5 {
            GpuAction::CreateComputePass { instances: dispatch_size(self.len) }
        } else if self.stage == n + 6 {
            GpuAction::ExecuteComputePipeline
        } else if self.stage == n + 7 {
            GpuAction::ReadOutputBuffer
        } else {
            GpuAction::Finished
        }
    }

    /// Takes the outcome of the operation the job is at and says which
    /// operation comes next.
    ///
    /// A failure ends the job with the error as the device reported it. An
    /// event that the operation does not end with ends the job as well. The
    /// shader is kept when it arrives; the bytes read back become the image.
    /// A finished job stays as it is.
    pub fn advance(&mut self, event: GpuEvent) -> (r: GpuAction)
        requires
            old(self).wf(),
        ensures
            final(self).wf(),
            final(self).compile_request() == old(self).compile_request(),
            final(self).storage_buffers() == old(self).storage_buffers(),
            final(self).bound() == old(self).bound(),
            r == action_at(final(self)@.buffers, final(self)@.len, final(self)@.stage),
            old(self)@.stage == last_stage(old(self)@.buffers) ==> final(self)@ == old(self)@,
            old(self)@.stage < last_stage(old(self)@.buffers) ==> match event {
                GpuEvent::Failed(e) => final(self)@ == (GpuJobView {
                    stage: last_stage(old(self)@.buffers),
                    outcome: Some(Err(GpuError::Device(e))),
                    ..old(self)@
                }),
                GpuEvent::Completed => if awaited(old(self)@.buffers, old(self)@.stage, event) {
                    final(self)@ == (GpuJobView { stage: old(self)@.stage + 1, ..old(self)@ })
                } else {
                    final(self)@ == (GpuJobView {
                        stage: last_stage(old(self)@.buffers),
                        outcome: Some(
                            Err(GpuError::UnexpectedEvent { stage: old(self)@.stage as usize }),
                        ),
                        ..old(self)@
                    })
                },
                GpuEvent::ShaderCompiled(shader) => if awaited(
                    old(self)@.buffers,
                    old(self)@.stage,
                    event,
                ) {
                    final(self)@ == (GpuJobView {
                        stage: old(self)@.stage + 1,
                        shader: Some(shader),
                        ..old(self)@
                    })
                } else {
                    final(self)@ == (GpuJobView {
                        stage: last_stage(old(self)@.buffers),
                        outcome: Some(
                            Err(GpuError::UnexpectedEvent { stage: old(self)@.stage as usize }),
                        ),
                        ..old(self)@
                    })
                },
                GpuEvent::OutputRead(bytes) => if awaited(
                    old(self)@.buffers,
                    old(self)@.stage,
                    event,
                ) {
                    &&& final(self)@.outcome is Some
                    &&& read_back_outcome(
                        bytes@.len(),
                        old(self)@.len,
                        old(self)@.width,
                        old(self)@.height,
                        old(self)@.transform,
                        final(self)@.outcome->Some_0,
                    )
                    &&& final(self)@ == (GpuJobView {
                        stage: last_stage(old(self)@.buffers),
                        outcome: final(self)@.outcome,
                        ..old(self)@
                    })
                } else {
                    final(self)@ == (GpuJobView {
                        stage: last_stage(old(self)@.buffers),
                        outcome: Some(
                            Err(GpuError::UnexpectedEvent { stage: old(self)@.stage as usize }),
                        ),
                        ..old(self)@
                    })
                },
            },
    {
        let n = self.buffers.len();
        let last = n + 8;
        if self.stage >= last {
            return GpuAction::Finished;
        }
        let stage = self.stage;
        match event {
            GpuEvent::Failed(e) => {
                self.outcome = Some(Err(GpuError::Device(e)));
                self.stage = last;
            },
            GpuEvent::Completed => {
                if stage != 0 && stage != n + 7 {
                    self.stage = stage + 1;
                } else {
                    self.outcome = Some(Err(GpuError::UnexpectedEvent { stage }));
                    self.stage = last;
                }
            },
            GpuEvent::ShaderCompiled(shader) => {
                if stage == 0 {
                    self.shader = Some(shader);
                    self.stage = 1;
                } else {
                    self.outcome = Some(Err(GpuError::UnexpectedEvent { stage }));
                    self.stage = last;
                }
            },
            GpuEvent::OutputRead(bytes) => {
                if stage == n + 7 {
                    self.outcome = Some(
                        read_back(
                            bytes.as_slice(),
                            self.len,
                            self.width,
                            self.height,
                            self.transform,
                        ),
                    );
                    self.stage = last;
                } else {
                    self.outcome = Some(Err(GpuError::UnexpectedEvent { stage }));
                    self.stage = last;
                }
            },
        }
        self.action()
    }

    /// The request to send to the shader compiler.
    pub fn request(&self) -> (r: &CompileRequest)
        ensures
            *r == self.compile_request(),
    {
        &self.request
    }

    /// The storage buffer with the given number, if the job creates it.
    pub fn buffer(&self, index: usize) -> (r: Option<&StorageBuffer>)
        ensures
            r is Some <==> index < self.storage_buffers().len(),
            r is Some ==> *r->Some_0 == self.storage_buffers()[index as int],
    {
        if index < self.buffers.len() {
            Some(&self.buffers[index])
        } else {
            None
        }
    }

    /// The numbers of the storage buffers that the compute pass binds, in
    /// binding order. The output buffer and the read-back buffer are created
    /// after the storage buffers.
    pub fn bind_group(&self) -> (r: &Vec<usize>)
        ensures
            r@ == self.bound(),
    {
        &self.bind_group
    }

    /// The shader to load, once it has been compiled.
    pub fn shader(&self) -> (r: Option<&Shader>)
        ensures
            r is Some <==> self@.shader is Some,
            r is Some ==> *r->Some_0 == self@.shader->Some_0,
    {
        self.shader.as_ref()
    }

    /// The outcome of a finished job; `None` while the job is under way.
    pub fn into_outcome(self) -> (r: Option<Result<ImageFrame, GpuError>>)
        ensures
            r is Some <==> self@.outcome is Some,
            r is Some ==> view_of(r->Some_0) == self@.outcome->Some_0,
    {
        self.outcome
    }
}

/// From a job that has not begun, a run of events of the awaited kinds leads
/// through the operations in order: compile, executor, the storage buffers,
/// the two output buffers, shader, pass, run, read-back.
pub proof fn lemma_course_of_a_job(buffers: nat, len: usize)
    ensures
        action_at(buffers, len, 0) == GpuAction::Compile,
        action_at(buffers, len, 1) == GpuAction::CreateExecutor,
        forall|i: nat|
            i < buffers ==> #[trigger] action_at(buffers, len, i + 2)
                == (GpuAction::CreateStorageBuffer { index: i as usize }),
        action_at(buffers, len, buffers + 2) == (GpuAction::CreateOutputBuffer {
            len,
            cpu_readable: false,
        }),
        action_at(buffers, len, buffers + 3) == (GpuAction::CreateOutputBuffer {
            len,
            cpu_readable: true,
        }),
        action_at(buffers, len, buffers + 4) == GpuAction::LoadShader,
        action_at(buffers, len, buffers + 5) is CreateComputePass,
        action_at(buffers, len, buffers + 5)->CreateComputePass_instances <= MAX_DISPATCH,
        len <= MAX_DISPATCH ==> action_at(buffers, len, buffers + 5)->CreateComputePass_instances
            == len,
        action_at(buffers, len, buffers + 6) == GpuAction::ExecuteComputePipeline,
        action_at(buffers, len, buffers + 7) == GpuAction::ReadOutputBuffer,
        action_at(buffers, len, last_stage(buffers)) == GpuAction::Finished,
{
}

} // verus!
