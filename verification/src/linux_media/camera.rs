//! Cameras: which one is opened and how, and how a worker takes frames from it.

use vstd::prelude::*;

use crate::compiler::{CompiledPipeline, ResolvedInputBackend};
use crate::error::RuntimeError;
use crate::frontend::{CaptureProfile, InputType};
use crate::runtime::media::{DecodedFrame, MediaPayload, MediaStorage};
use crate::runtime::pool::{self, BufferPool, MediaBuffer};
use crate::text;
use crate::time::Duration;

verus! {

/// How long a worker waits for a frame before it looks for commands, in milliseconds.
pub const FRAME_WAIT_MILLIS: u64 = 10;

// ---------------------------------------------------------------------------
// Faults
// ---------------------------------------------------------------------------

/// What can go wrong with a camera.
#[derive(Debug, PartialEq, Eq)]
pub enum CameraError {
    ManagerInit(String),
    NoCameras,
    CameraNotFound(String),
    AcquireFailed(String),
    ConfigGenerateFailed(String),
    InvalidConfig,
    ConfigureFailed(String),
    AllocFailed(String),
    StartFailed(String),
    QueueFailed(String),
    WorkerDied,
    ReceiverClosed,
}

impl CameraError {
    /// The text of the error.
    pub open spec fn text(&self) -> Seq<char> {
        match self {
            CameraError::ManagerInit(error) => "failed to initialize libcamera CameraManager: "@
                + error@,
            CameraError::NoCameras => "no libcamera compatible cameras found"@,
            CameraError::CameraNotFound(input) => "camera not found: "@ + input@,
            CameraError::AcquireFailed(error) => "failed to acquire camera: "@ + error@,
            CameraError::ConfigGenerateFailed(error) => "failed to generate configuration: "@
                + error@,
            CameraError::InvalidConfig => "invalid libcamera configuration"@,
            CameraError::ConfigureFailed(error) => "failed to configure camera: "@ + error@,
            CameraError::AllocFailed(error) => "failed to allocate frame buffers: "@ + error@,
            CameraError::StartFailed(error) => "failed to start camera: "@ + error@,
            CameraError::QueueFailed(error) => "failed to queue request: "@ + error@,
            CameraError::WorkerDied => "camera worker thread panicked or died"@,
            CameraError::ReceiverClosed => "camera receiver closed"@,
        }
    }

    /// The text of the error.
    pub fn to_string(&self) -> (r: String)
        ensures
            r@ == self.text(),
    {
        match self {
            CameraError::ManagerInit(error) => text::join2(
                "failed to initialize libcamera CameraManager: ",
                error.as_str(),
            ),
            CameraError::NoCameras => "no libcamera compatible cameras found".to_owned(),
            CameraError::CameraNotFound(input) => text::join2("camera not found: ", input.as_str()),
            CameraError::AcquireFailed(error) => text::join2(
                "failed to acquire camera: ",
                error.as_str(),
            ),
            CameraError::ConfigGenerateFailed(error) => text::join2(
                "failed to generate configuration: ",
                error.as_str(),
            ),
            CameraError::InvalidConfig => "invalid libcamera configuration".to_owned(),
            CameraError::ConfigureFailed(error) => text::join2(
                "failed to configure camera: ",
                error.as_str(),
            ),
            CameraError::AllocFailed(error) => text::join2(
                "failed to allocate frame buffers: ",
                error.as_str(),
            ),
            CameraError::StartFailed(error) => text::join2(
                "failed to start camera: ",
                error.as_str(),
            ),
            CameraError::QueueFailed(error) => text::join2(
                "failed to queue request: ",
                error.as_str(),
            ),
            CameraError::WorkerDied => "camera worker thread panicked or died".to_owned(),
            CameraError::ReceiverClosed => "camera receiver closed".to_owned(),
        }
    }

    /// The error as one of a pipeline.
    pub fn into_runtime_error(&self) -> (r: RuntimeError)
        ensures
            r matches RuntimeError::Adapter(message) && message@ == self.text(),
    {
        RuntimeError::Adapter(self.to_string())
    }
}

// ---------------------------------------------------------------------------
// Configuration
// ---------------------------------------------------------------------------

/// The decimal digits of a text, in their order.
pub open spec fn digits_of(s: Seq<char>) -> Seq<char>
    decreases s.len(),
{
    if s.len() == 0 {
        Seq::empty()
    } else if text::is_digit(s.last()) {
        digits_of(s.drop_last()).push(s.last())
    } else {
        digits_of(s.drop_last())
    }
}

/// The number of the camera that an input names: its digits read as one number, or the
/// first camera if there are none or too many.
pub open spec fn camera_index(input: Seq<char>) -> nat {
    let digits = digits_of(input);
    if digits.len() == 0 || text::digits_value(digits) > usize::MAX {
        0
    } else {
        text::digits_value(digits)
    }
}

proof fn lemma_digits_are_digits(s: Seq<char>)
    ensures
        text::all_digits(digits_of(s)),
    decreases s.len(),
{
    if s.len() > 0 {
        lemma_digits_are_digits(s.drop_last());
    }
}

/// The number of the camera that an input names.
pub fn resolve_camera_index(input: &str) -> (r: usize)
    ensures
        r == camera_index(input@),
{
    let chars = text::chars_of(input);
    let mut digits: Vec<char> = Vec::new();
    let mut i: usize = 0;
    assert(input@.take(0) == Seq::<char>::empty());
    while i < chars.len()
        invariant
            i <= chars@.len(),
            chars@ == input@,
            digits@ == digits_of(input@.take(i as int)),
        decreases chars@.len() - i,
    {
        assert(input@.take(i + 1).drop_last() == input@.take(i as int));
        let c = chars[i];
        if '0' <= c && c <= '9' {
            digits.push(c);
        }
        i += 1;
    }
    assert(input@.take(i as int) == input@);
    proof {
        lemma_digits_are_digits(input@);
    }
    match text::parse_unsigned(text::string_of(&digits).as_str(), usize::MAX as u64) {
        Some(index) => index as usize,
        None => 0,
    }
}

/// What a stream of a camera is asked for.
#[derive(Debug, PartialEq, Eq)]
pub struct StreamRequest {
    pub width: u32,
    pub height: u32,
    /// The code of the pixel format. Without one the format of the camera stays.
    pub fourcc: Option<[u8; 4]>,
}

/// What a stream is asked for by a profile. A name of a pixel format that has four
/// bytes is its code; any other is not looked at.
pub fn apply_capture_profile(profile: &CaptureProfile) -> (r: StreamRequest)
    ensures
        r.width == profile.width,
        r.height == profile.height,
        match r.fourcc {
            Some(code) => code@ == vstd::utf8::encode_utf8(profile.pixel_format@),
            None => vstd::utf8::encode_utf8(profile.pixel_format@).len() != 4,
        },
{
    let bytes = profile.pixel_format.as_str().as_bytes();
    let fourcc: Option<[u8; 4]> = if bytes.len() == 4 {
        let code: [u8; 4] = [bytes[0], bytes[1], bytes[2], bytes[3]];
        assert(code@ =~= bytes@);
        Some(code)
    } else {
        None
    };
    StreamRequest { width: profile.width, height: profile.height, fourcc }
}

/// The picture that a camera is asked for by a pipeline.
pub fn capture_profile_for(pipeline: &CompiledPipeline) -> (r: CaptureProfile)
    ensures
        r.width == 1920,
        r.height == 1080,
        r.pixel_format@ == "NV12"@,
        r.frame_rate == (match pipeline.processing {
            Some(processing) => processing.frame_rate,
            None => 30,
        }),
{
    let frame_rate: u32 = match &pipeline.processing {
        Some(processing) => processing.frame_rate,
        None => 30,
    };
    CaptureProfile { width: 1920, height: 1080, pixel_format: "NV12".to_owned(), frame_rate }
}

// ---------------------------------------------------------------------------
// The worker
// ---------------------------------------------------------------------------

/// What a worker is told. Faults come with the words of the camera.
#[derive(Debug, PartialEq, Eq)]
pub enum CameraEvent {
    /// The cameras were looked for, and this many are there.
    ManagerOpened(Result<usize, String>),
    Acquired(Result<(), String>),
    /// A configuration was made, with this many streams.
    ConfigGenerated(Result<usize, String>),
    /// The profile was applied to the configuration.
    Validated { invalid: bool },
    Configured(Result<(), String>),
    /// Buffers were made, and this many requests for them.
    Allocated(Result<usize, String>),
    Started(Result<(), String>),
    /// A request was queued.
    Queued(Result<(), String>),
    /// Commands were looked for.
    Commanded { shutdown: bool },
    /// A request was completed.
    Completed,
    /// No request was completed in time.
    TimedOut,
    /// No request will be completed any more.
    Disconnected,
    /// A frame was handed on; somebody took it, or nobody is there.
    HandedOn { taken: bool },
}

/// What is to be done next.
#[derive(Debug, PartialEq, Eq)]
pub enum CameraAction {
    /// Acquire the camera with this number.
    Acquire(usize),
    GenerateConfig,
    ApplyProfile,
    Configure,
    Allocate,
    Start,
    /// Queue the request with this number for the first time.
    QueueFirst(usize),
    LookForCommands,
    AwaitRequest,
    HandOnFrame,
    /// Queue the completed request again.
    QueueAgain,
    /// Stop the camera, and end.
    Stop,
    /// End with an error.
    Fail(CameraError),
}

/// Takes frames from a camera.
#[derive(Debug, PartialEq, Eq)]
pub struct CameraWorker {
    pub input: String,
    /// The number of requests.
    pub requests: usize,
    /// The number of requests that were queued for the first time.
    pub queued: usize,
}

/// Why a worker ends, with its text as characters.
pub enum CameraFailure {
    ManagerInit(Seq<char>),
    NoCameras,
    CameraNotFound(Seq<char>),
    AcquireFailed(Seq<char>),
    ConfigGenerateFailed(Seq<char>),
    InvalidConfig,
    ConfigureFailed(Seq<char>),
    AllocFailed(Seq<char>),
    StartFailed(Seq<char>),
    QueueFailed(Seq<char>),
    WorkerDied,
    ReceiverClosed,
}

impl View for CameraError {
    type V = CameraFailure;

    open spec fn view(&self) -> CameraFailure {
        match self {
            CameraError::ManagerInit(error) => CameraFailure::ManagerInit(error@),
            CameraError::NoCameras => CameraFailure::NoCameras,
            CameraError::CameraNotFound(input) => CameraFailure::CameraNotFound(input@),
            CameraError::AcquireFailed(error) => CameraFailure::AcquireFailed(error@),
            CameraError::ConfigGenerateFailed(error) => CameraFailure::ConfigGenerateFailed(error@),
            CameraError::InvalidConfig => CameraFailure::InvalidConfig,
            CameraError::ConfigureFailed(error) => CameraFailure::ConfigureFailed(error@),
            CameraError::AllocFailed(error) => CameraFailure::AllocFailed(error@),
            CameraError::StartFailed(error) => CameraFailure::StartFailed(error@),
            CameraError::QueueFailed(error) => CameraFailure::QueueFailed(error@),
            CameraError::WorkerDied => CameraFailure::WorkerDied,
            CameraError::ReceiverClosed => CameraFailure::ReceiverClosed,
        }
    }
}

/// What is to be done next, with its texts as characters.
pub enum CameraMove {
    Acquire(nat),
    GenerateConfig,
    ApplyProfile,
    Configure,
    Allocate,
    Start,
    QueueFirst(nat),
    LookForCommands,
    AwaitRequest,
    HandOnFrame,
    QueueAgain,
    Stop,
    Fail(CameraFailure),
}

impl View for CameraAction {
    type V = CameraMove;

    open spec fn view(&self) -> CameraMove {
        match self {
            CameraAction::Acquire(index) => CameraMove::Acquire(*index as nat),
            CameraAction::GenerateConfig => CameraMove::GenerateConfig,
            CameraAction::ApplyProfile => CameraMove::ApplyProfile,
            CameraAction::Configure => CameraMove::Configure,
            CameraAction::Allocate => CameraMove::Allocate,
            CameraAction::Start => CameraMove::Start,
            CameraAction::QueueFirst(index) => CameraMove::QueueFirst(*index as nat),
            CameraAction::LookForCommands => CameraMove::LookForCommands,
            CameraAction::AwaitRequest => CameraMove::AwaitRequest,
            CameraAction::HandOnFrame => CameraMove::HandOnFrame,
            CameraAction::QueueAgain => CameraMove::QueueAgain,
            CameraAction::Stop => CameraMove::Stop,
            CameraAction::Fail(error) => CameraMove::Fail(error@),
        }
    }
}

/// What is done after a request was queued, or before any is: those that were never
/// queued come first.
pub open spec fn after_queueing(requests: nat, queued: nat) -> CameraMove {
    if queued < requests {
        CameraMove::QueueFirst(queued)
    } else {
        CameraMove::LookForCommands
    }
}

/// The number of requests, after an event.
pub open spec fn requests_after(requests: nat, event: CameraEvent) -> nat {
    match event {
        CameraEvent::Allocated(Ok(count)) => count as nat,
        _ => requests,
    }
}

/// The number of requests that were queued for the first time, after an event.
pub open spec fn queued_after(requests: nat, queued: nat, event: CameraEvent) -> nat {
    match event {
        CameraEvent::Allocated(Ok(_)) => 0,
        CameraEvent::Queued(Ok(())) => if queued < requests {
            queued + 1
        } else {
            queued
        },
        _ => queued,
    }
}

/// What is done after an event.
pub open spec fn camera_reaction(
    input: Seq<char>,
    requests: nat,
    queued: nat,
    event: CameraEvent,
) -> CameraMove {
    match event {
        CameraEvent::ManagerOpened(Err(error)) => CameraMove::Fail(
            CameraFailure::ManagerInit(error@),
        ),
        CameraEvent::ManagerOpened(Ok(count)) => if count == 0 {
            CameraMove::Fail(CameraFailure::NoCameras)
        } else if camera_index(input) < count {
            CameraMove::Acquire(camera_index(input))
        } else {
            CameraMove::Fail(CameraFailure::CameraNotFound(input))
        },
        CameraEvent::Acquired(Err(error)) => CameraMove::Fail(CameraFailure::AcquireFailed(error@)),
        CameraEvent::Acquired(Ok(())) => CameraMove::GenerateConfig,
        CameraEvent::ConfigGenerated(Err(error)) => CameraMove::Fail(
            CameraFailure::ConfigGenerateFailed(error@),
        ),
        CameraEvent::ConfigGenerated(Ok(streams)) => if streams == 0 {
            CameraMove::Fail(CameraFailure::InvalidConfig)
        } else {
            CameraMove::ApplyProfile
        },
        CameraEvent::Validated { invalid } => if invalid {
            CameraMove::Fail(CameraFailure::InvalidConfig)
        } else {
            CameraMove::Configure
        },
        CameraEvent::Configured(Err(error)) => CameraMove::Fail(
            CameraFailure::ConfigureFailed(error@),
        ),
        CameraEvent::Configured(Ok(())) => CameraMove::Allocate,
        CameraEvent::Allocated(Err(error)) => CameraMove::Fail(CameraFailure::AllocFailed(error@)),
        CameraEvent::Allocated(Ok(_)) => CameraMove::Start,
        CameraEvent::Started(Err(error)) => CameraMove::Fail(CameraFailure::StartFailed(error@)),
        CameraEvent::Started(Ok(())) => after_queueing(requests, queued),
        CameraEvent::Queued(Err(error)) => CameraMove::Fail(CameraFailure::QueueFailed(error@)),
        CameraEvent::Queued(Ok(())) => after_queueing(
            requests,
            queued_after(requests, queued, event),
        ),
        CameraEvent::Commanded { shutdown } => if shutdown {
            CameraMove::Stop
        } else {
            CameraMove::AwaitRequest
        },
        CameraEvent::Completed => CameraMove::HandOnFrame,
        CameraEvent::TimedOut => CameraMove::LookForCommands,
        CameraEvent::Disconnected => CameraMove::Stop,
        CameraEvent::HandedOn { taken } => if taken {
            CameraMove::QueueAgain
        } else {
            CameraMove::Stop
        },
    }
}

impl CameraWorker {
    /// A worker that has not looked for cameras yet.
    pub fn new(input: &str) -> (r: Self)
        ensures
            r.input@ == input@,
            r.requests == 0,
            r.queued == 0,
    {
        CameraWorker { input: input.to_owned(), requests: 0, queued: 0 }
    }

    fn next_request(&self) -> (r: CameraAction)
        ensures
            r@ == after_queueing(self.requests as nat, self.queued as nat),
    {
        if self.queued < self.requests {
            CameraAction::QueueFirst(self.queued)
        } else {
            CameraAction::LookForCommands
        }
    }

    /// Decides what is done after an event.
    pub fn step(&mut self, event: CameraEvent) -> (r: CameraAction)
        ensures
            r@ == camera_reaction(
                old(self).input@,
                old(self).requests as nat,
                old(self).queued as nat,
                event,
            ),
            final(self).input == old(self).input,
            final(self).requests == requests_after(old(self).requests as nat, event),
            final(self).queued == queued_after(
                old(self).requests as nat,
                old(self).queued as nat,
                event,
            ),
    {
        match event {
            CameraEvent::ManagerOpened(Err(error)) => CameraAction::Fail(
                CameraError::ManagerInit(error),
            ),
            CameraEvent::ManagerOpened(Ok(count)) => {
                let index: usize = resolve_camera_index(self.input.as_str());
                if count == 0 {
                    CameraAction::Fail(CameraError::NoCameras)
                } else if index < count {
                    CameraAction::Acquire(index)
                } else {
                    CameraAction::Fail(CameraError::CameraNotFound(self.input.clone()))
                }
            },
            CameraEvent::Acquired(Err(error)) => CameraAction::Fail(
                CameraError::AcquireFailed(error),
            ),
            CameraEvent::Acquired(Ok(())) => CameraAction::GenerateConfig,
            CameraEvent::ConfigGenerated(Err(error)) => CameraAction::Fail(
                CameraError::ConfigGenerateFailed(error),
            ),
            CameraEvent::ConfigGenerated(Ok(streams)) => if streams == 0 {
                CameraAction::Fail(CameraError::InvalidConfig)
            } else {
                CameraAction::ApplyProfile
            },
            CameraEvent::Validated { invalid } => if invalid {
                CameraAction::Fail(CameraError::InvalidConfig)
            } else {
                CameraAction::Configure
            },
            CameraEvent::Configured(Err(error)) => CameraAction::Fail(
                CameraError::ConfigureFailed(error),
            ),
            CameraEvent::Configured(Ok(())) => CameraAction::Allocate,
            CameraEvent::Allocated(Err(error)) => CameraAction::Fail(
                CameraError::AllocFailed(error),
            ),
            CameraEvent::Allocated(Ok(count)) => {
                self.requests = count;
                self.queued = 0;
                CameraAction::Start
            },
            CameraEvent::Started(Err(error)) => CameraAction::Fail(CameraError::StartFailed(error)),
            CameraEvent::Started(Ok(())) => self.next_request(),
            CameraEvent::Queued(Err(error)) => CameraAction::Fail(CameraError::QueueFailed(error)),
            CameraEvent::Queued(Ok(())) => {
                if self.queued < self.requests {
                    self.queued = self.queued + 1;
                }
                self.next_request()
            },
            CameraEvent::Commanded { shutdown } => if shutdown {
                CameraAction::Stop
            } else {
                CameraAction::AwaitRequest
            },
            CameraEvent::Completed => CameraAction::HandOnFrame,
            CameraEvent::TimedOut => CameraAction::LookForCommands,
            CameraEvent::Disconnected => CameraAction::Stop,
            CameraEvent::HandedOn { taken } => if taken {
                CameraAction::QueueAgain
            } else {
                CameraAction::Stop
            },
        }
    }
}

// ---------------------------------------------------------------------------
// Frames
// ---------------------------------------------------------------------------

/// A frame of a camera.
#[derive(Debug, PartialEq, Eq)]
pub struct LibcameraFrame {
    pub timestamp: Duration,
    pub data: MediaBuffer,
}

/// A frame on its way from a worker to a source.
#[derive(Debug, PartialEq, Eq)]
pub struct CameraFrameMessage {
    pub timestamp: Duration,
    pub data: MediaBuffer,
}

/// The bytes of all planes of a picture in a row.
pub open spec fn planes_joined(planes: Seq<Vec<u8>>) -> Seq<u8>
    decreases planes.len(),
{
    if planes.len() == 0 {
        Seq::empty()
    } else {
        planes_joined(planes.drop_last()) + planes.last()@
    }
}

/// Copies a picture to a buffer of a pool; its number stands for its time.
pub fn frame_message(sequence: u64, planes: &Vec<Vec<u8>>, buffers: &mut BufferPool) -> (r:
    CameraFrameMessage)
    requires
        old(buffers)@.available > 0 || old(buffers)@.allocated < usize::MAX,
        old(buffers)@.buffer_size <= isize::MAX,
    ensures
        r.timestamp@ == sequence,
        r.data@ == planes_joined(planes@),
        final(buffers)@ == pool::after_acquire(old(buffers)@),
{
    let mut data = buffers.acquire();
    let mut i: usize = 0;
    assert(planes@.take(0) == Seq::<Vec<u8>>::empty());
    while i < planes.len()
        invariant
            i <= planes@.len(),
            data@ == planes_joined(planes@.take(i as int)),
        decreases planes@.len() - i,
    {
        assert(planes@.take(i + 1).drop_last() == planes@.take(i as int));
        data.extend_from_slice(planes[i].as_slice());
        i += 1;
    }
    assert(planes@.take(i as int) == planes@);
    CameraFrameMessage { timestamp: Duration::from_nanos(sequence), data }
}

/// What a source makes of a frame of its worker.
pub fn payload_from_frame(message: Option<CameraFrameMessage>, profile: &CaptureProfile) -> (r:
    Result<MediaPayload, RuntimeError>)
    ensures
        match message {
            Some(frame) => r matches Ok(MediaPayload::DecodedFrame(out)) && {
                &&& out.pixel_format@ == profile.pixel_format@
                &&& out.width == profile.width
                &&& out.height == profile.height
                &&& out.timestamp == Some(frame.timestamp)
                &&& out.data is Pooled
                &&& out.data@ == frame.data@
            },
            None => r matches Err(RuntimeError::Adapter(message)) && message@
                == "camera worker thread terminated"@,
        },
{
    match message {
        Some(frame) => Ok(
            MediaPayload::DecodedFrame(
                DecodedFrame {
                    pixel_format: profile.pixel_format.clone(),
                    width: profile.width,
                    height: profile.height,
                    timestamp: Some(frame.timestamp),
                    data: MediaStorage::Pooled(frame.data.freeze()),
                },
            ),
        ),
        None => Err(RuntimeError::adapter("camera worker thread terminated")),
    }
}

/// Makes sources that read from cameras, which the provider factory opens.
#[derive(Debug, Clone, PartialEq, Eq)]
pub struct LibcameraSourceFactory<F> {
    pub provider_factory: F,
}

impl<F> LibcameraSourceFactory<F> {
    pub fn new(provider_factory: F) -> (r: Self)
        ensures
            r.provider_factory == provider_factory,
    {
        LibcameraSourceFactory { provider_factory }
    }

    /// Gives the factory that opens the camera of a pipeline, if the pipeline reads from
    /// a camera.
    pub fn provider_for(&self, pipeline: &CompiledPipeline) -> (r: Result<&F, RuntimeError>)
        ensures
            if pipeline.input.kind == InputType::Device && pipeline.resolved_backend
                == ResolvedInputBackend::LibcameraDevice {
                r matches Ok(provider_factory) && *provider_factory == self.provider_factory
            } else {
                r matches Err(RuntimeError::Adapter(message)) && message@ == "pipeline '"@
                    + pipeline.id@ + "' is not a libcamera device pipeline"@
            },
    {
        if pipeline.input.kind != InputType::Device || pipeline.resolved_backend
            != ResolvedInputBackend::LibcameraDevice {
            return Err(
                RuntimeError::Adapter(
                    text::join3(
                        "pipeline '",
                        pipeline.id.as_str(),
                        "' is not a libcamera device pipeline",
                    ),
                ),
            );
        }
        Ok(&self.provider_factory)
    }
}

// ---------------------------------------------------------------------------
// Laws
// ---------------------------------------------------------------------------

/// A worker that is told to shut down stops the camera.
pub proof fn shutdowns_stop_the_camera(input: Seq<char>, requests: nat, queued: nat)
    ensures
        camera_reaction(input, requests, queued, CameraEvent::Commanded { shutdown: true })
            == CameraMove::Stop,
{
}

/// A worker whose frames nobody takes stops the camera.
pub proof fn unwanted_frames_stop_the_camera(input: Seq<char>, requests: nat, queued: nat)
    ensures
        camera_reaction(input, requests, queued, CameraEvent::HandedOn { taken: false })
            == CameraMove::Stop,
{
}

/// The camera that is acquired is one of those that are there.
pub proof fn acquired_cameras_exist(
    input: Seq<char>,
    requests: nat,
    queued: nat,
    count: usize,
    index: nat,
)
    requires
        camera_reaction(input, requests, queued, CameraEvent::ManagerOpened(Ok(count)))
            == CameraMove::Acquire(index),
    ensures
        index < count,
{
}

/// Every request is queued once, in a row, before the worker looks for commands.
pub proof fn requests_are_queued_in_a_row(input: Seq<char>, requests: nat, queued: nat)
    requires
        queued < requests,
    ensures
        queued_after(requests, queued, CameraEvent::Queued(Ok(()))) == queued + 1,
        camera_reaction(input, requests, queued, CameraEvent::Queued(Ok(()))) == (if queued + 1
            < requests {
            CameraMove::QueueFirst(queued + 1)
        } else {
            CameraMove::LookForCommands
        }),
{
}

proof fn lemma_digits_join(a: Seq<char>, b: Seq<char>)
    ensures
        digits_of(a + b) == digits_of(a) + digits_of(b),
    decreases b.len(),
{
    if b.len() == 0 {
        assert(a + b == a);
        assert(digits_of(a) + digits_of(b) == digits_of(a));
    } else {
        lemma_digits_join(a, b.drop_last());
        assert((a + b).drop_last() == a + b.drop_last());
        assert((a + b).last() == b.last());
        assert(digits_of(a + b) == digits_of(a) + digits_of(b));
    }
}

proof fn lemma_digits_stay(s: Seq<char>)
    ensures
        text::all_digits(s) ==> digits_of(s) == s,
        (forall|i: int| 0 <= i < s.len() ==> !text::is_digit(#[trigger] s[i])) ==> digits_of(s)
            == Seq::<char>::empty(),
    decreases s.len(),
{
    if s.len() > 0 {
        let front = s.drop_last();
        lemma_digits_stay(front);
        if text::all_digits(s) {
            assert(text::is_digit(s[s.len() - 1]));
            assert forall|i: int| 0 <= i < front.len() implies text::is_digit(
                #[trigger] front[i],
            ) by {
                assert(text::is_digit(s[i]));
            }
            assert(front.push(s.last()) == s);
        }
        if forall|i: int| 0 <= i < s.len() ==> !text::is_digit(#[trigger] s[i]) {
            assert(!text::is_digit(s[s.len() - 1]));
            assert forall|i: int| 0 <= i < front.len() implies !text::is_digit(
                #[trigger] front[i],
            ) by {
                assert(!text::is_digit(s[i]));
            }
        }
    }
}

/// A camera is found by the number in its name, whatever other characters stand around it;
/// a name without a number, or with one too large, means the first camera.
pub proof fn cameras_are_found_by_their_number(front: Seq<char>, n: nat, back: Seq<char>)
    requires
        forall|i: int| 0 <= i < front.len() ==> !text::is_digit(#[trigger] front[i]),
        forall|i: int| 0 <= i < back.len() ==> !text::is_digit(#[trigger] back[i]),
    ensures
        n <= usize::MAX ==> camera_index(front + text::decimal(n) + back) == n,
        n > usize::MAX ==> camera_index(front + text::decimal(n) + back) == 0,
        camera_index(front) == 0,
{
    text::decimals_read_back(n);
    lemma_digits_stay(front);
    lemma_digits_stay(back);
    lemma_digits_stay(text::decimal(n));
    lemma_digits_join(front, text::decimal(n));
    lemma_digits_join(front + text::decimal(n), back);
    assert(digits_of(front + text::decimal(n) + back) == text::decimal(n));
}

/// A camera is opened step by step, each after the one before it has worked; then its
/// requests are queued, and frames are taken as long as somebody wants them.
pub proof fn cameras_are_opened_step_by_step(
    input: Seq<char>,
    requests: nat,
    queued: nat,
    count: usize,
)
    requires
        count > 0,
    ensures
        camera_index(input) < count ==> camera_reaction(
            input,
            requests,
            queued,
            CameraEvent::ManagerOpened(Ok(count)),
        ) == CameraMove::Acquire(camera_index(input)),
        camera_index(input) >= count ==> camera_reaction(
            input,
            requests,
            queued,
            CameraEvent::ManagerOpened(Ok(count)),
        ) == CameraMove::Fail(CameraFailure::CameraNotFound(input)),
        camera_reaction(input, requests, queued, CameraEvent::Acquired(Ok(())))
            == CameraMove::GenerateConfig,
        camera_reaction(input, requests, queued, CameraEvent::ConfigGenerated(Ok(count)))
            == CameraMove::ApplyProfile,
        camera_reaction(input, requests, queued, CameraEvent::Validated { invalid: false })
            == CameraMove::Configure,
        camera_reaction(input, requests, queued, CameraEvent::Configured(Ok(())))
            == CameraMove::Allocate,
        camera_reaction(input, requests, queued, CameraEvent::Allocated(Ok(count)))
            == CameraMove::Start,
        requests_after(requests, CameraEvent::Allocated(Ok(count))) == count,
        queued_after(requests, queued, CameraEvent::Allocated(Ok(count))) == 0,
        camera_reaction(input, count as nat, 0, CameraEvent::Started(Ok(())))
            == CameraMove::QueueFirst(0),
        camera_reaction(input, requests, queued, CameraEvent::Commanded { shutdown: false })
            == CameraMove::AwaitRequest,
        camera_reaction(input, requests, queued, CameraEvent::Completed)
            == CameraMove::HandOnFrame,
        camera_reaction(input, requests, queued, CameraEvent::TimedOut)
            == CameraMove::LookForCommands,
        camera_reaction(input, requests, queued, CameraEvent::HandedOn { taken: true })
            == CameraMove::QueueAgain,
        queued >= requests ==> camera_reaction(
            input,
            requests,
            queued,
            CameraEvent::Queued(Ok(())),
        ) == CameraMove::LookForCommands,
{
}

/// A step that does not work ends the worker, with what was said about it; so does a host
/// without cameras, a configuration without streams, and one that does not hold.
pub proof fn failed_steps_end_the_worker(
    input: Seq<char>,
    requests: nat,
    queued: nat,
    error: String,
)
    ensures
        camera_reaction(input, requests, queued, CameraEvent::ManagerOpened(Err(error)))
            == CameraMove::Fail(CameraFailure::ManagerInit(error@)),
        camera_reaction(input, requests, queued, CameraEvent::ManagerOpened(Ok(0)))
            == CameraMove::Fail(CameraFailure::NoCameras),
        camera_reaction(input, requests, queued, CameraEvent::Acquired(Err(error)))
            == CameraMove::Fail(CameraFailure::AcquireFailed(error@)),
        camera_reaction(input, requests, queued, CameraEvent::ConfigGenerated(Err(error)))
            == CameraMove::Fail(CameraFailure::ConfigGenerateFailed(error@)),
        camera_reaction(input, requests, queued, CameraEvent::ConfigGenerated(Ok(0)))
            == CameraMove::Fail(CameraFailure::InvalidConfig),
        camera_reaction(input, requests, queued, CameraEvent::Validated { invalid: true })
            == CameraMove::Fail(CameraFailure::InvalidConfig),
        camera_reaction(input, requests, queued, CameraEvent::Configured(Err(error)))
            == CameraMove::Fail(CameraFailure::ConfigureFailed(error@)),
        camera_reaction(input, requests, queued, CameraEvent::Allocated(Err(error)))
            == CameraMove::Fail(CameraFailure::AllocFailed(error@)),
        camera_reaction(input, requests, queued, CameraEvent::Started(Err(error)))
            == CameraMove::Fail(CameraFailure::StartFailed(error@)),
        camera_reaction(input, requests, queued, CameraEvent::Queued(Err(error)))
            == CameraMove::Fail(CameraFailure::QueueFailed(error@)),
        camera_reaction(input, requests, queued, CameraEvent::Disconnected) == CameraMove::Stop,
{
}

/// Only a new set of requests and a request that was queued change what is queued.
pub proof fn other_events_leave_the_requests(requests: nat, queued: nat, event: CameraEvent)
    requires
        !(event matches CameraEvent::Allocated(Ok(_))),
    ensures
        requests_after(requests, event) == requests,
        !(event matches CameraEvent::Queued(Ok(_))) ==> queued_after(requests, queued, event)
            == queued,
        queued <= requests ==> queued_after(requests, queued, event) <= requests,
{
}

/// The planes of a frame are joined in their order, every byte of them.
pub proof fn planes_are_joined_in_order(planes: Seq<Vec<u8>>, plane: Vec<u8>)
    ensures
        planes_joined(Seq::empty()) == Seq::<u8>::empty(),
        planes_joined(planes.push(plane)) == planes_joined(planes) + plane@,
{
    assert(planes.push(plane).drop_last() == planes);
}

/// A camera is found by the number in its name.
pub proof fn named_cameras_are_found(input: &str, front: Seq<char>, n: usize, index: usize)
    requires
        forall|i: int| 0 <= i < front.len() ==> !text::is_digit(#[trigger] front[i]),
        input@ == front + text::decimal(n as nat),
        call_ensures(resolve_camera_index, (input,), index),
    ensures
        index == n,
{
    cameras_are_found_by_their_number(front, n as nat, Seq::empty());
    assert(front + text::decimal(n as nat) + Seq::<char>::empty() == input@);
}

/// A camera films in full HD, at the rate of the pipeline's frames or else at thirty a
/// second, and the frames that it gives keep the size and the format that it was asked for.
pub proof fn cameras_film_as_asked(
    pipeline: &CompiledPipeline,
    profile: CaptureProfile,
    request: StreamRequest,
    frame: CameraFrameMessage,
    payload: Result<MediaPayload, RuntimeError>,
)
    requires
        call_ensures(capture_profile_for, (pipeline,), profile),
        call_ensures(apply_capture_profile, (&profile,), request),
        call_ensures(payload_from_frame, (Some(frame), &profile), payload),
    ensures
        profile.width == 1920 && profile.height == 1080,
        pipeline.processing matches Some(processing) ==> profile.frame_rate
            == processing.frame_rate,
        pipeline.processing is None ==> profile.frame_rate == 30,
        request.width == profile.width && request.height == profile.height,
        payload matches Ok(MediaPayload::DecodedFrame(out)) && out.width == request.width
            && out.height == request.height && out.pixel_format@ == profile.pixel_format@
            && out.data@ == frame.data@ && out.timestamp == Some(frame.timestamp),
{
}

/// A worker opens its camera step by step and then takes frames, as long as every step
/// works and somebody wants them.
pub proof fn workers_go_from_step_to_step(
    worker: &mut CameraWorker,
    event: CameraEvent,
    action: CameraAction,
)
    requires
        call_ensures(CameraWorker::step, (worker, event), action),
    ensures
        event matches CameraEvent::ManagerOpened(Ok(count)) ==> (action matches
            CameraAction::Acquire(index) ==> index < count),
        event matches CameraEvent::Acquired(Ok(_)) ==> action is GenerateConfig,
        event matches CameraEvent::ConfigGenerated(Ok(streams)) ==> (streams > 0
            ==> action is ApplyProfile),
        event matches CameraEvent::Validated { invalid } ==> (!invalid ==> action is Configure),
        event matches CameraEvent::Configured(Ok(_)) ==> action is Allocate,
        event matches CameraEvent::Allocated(Ok(_)) ==> action is Start,
        event matches CameraEvent::Started(Ok(_)) ==> action is QueueFirst
            || action is LookForCommands,
        event matches CameraEvent::Commanded { shutdown } ==> (shutdown ==> action is Stop) && (
        !shutdown ==> action is AwaitRequest),
        event is Completed ==> action is HandOnFrame,
        event is TimedOut ==> action is LookForCommands,
        event is Disconnected ==> action is Stop,
        event matches CameraEvent::HandedOn { taken } ==> (taken ==> action is QueueAgain) && (
        !taken ==> action is Stop),
        event matches CameraEvent::Acquired(Err(error)) ==> (action matches CameraAction::Fail(
            CameraError::AcquireFailed(words),
        ) && words@ == error@),
        event matches CameraEvent::Started(Err(error)) ==> (action matches CameraAction::Fail(
            CameraError::StartFailed(words),
        ) && words@ == error@),
{
}

} // verus!
