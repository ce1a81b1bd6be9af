//! Workers: what is to be read, what is to be done with it, and what comes of it.

use vstd::prelude::*;

use crate::compiler::{
    self, CodecPath, CompiledPipeline, CompiledProcessingProfile, ResolvedInputBackend,
};
use crate::error::RuntimeError;
use crate::ffmpeg::device::{self, VideoCodec};
use crate::ffmpeg::filter::{self, Rational};
use crate::ffmpeg::h264::{self, H264Config};
use crate::ffmpeg::hwaccel::{self, TranscodeBackend};
use crate::frontend::{InputType, StreamStrategy, Transport};
use crate::text;
use crate::time::Duration;
use crate::webrtc::config;

verus! {

/// The length of a frame where nothing says it, in milliseconds.
pub const DEFAULT_FRAME_DURATION_MILLIS: u64 = 33;

/// What a worker does.
#[derive(Debug, Clone, PartialEq, Eq)]
pub struct WorkerSpec {
    pub pipeline_id: String,
    pub input: String,
    pub input_spec: InputSpec,
    pub mode: WorkerMode,
}

/// How the input is opened.
#[derive(Debug, Clone, Copy, PartialEq, Eq)]
pub enum InputSpec {
    Rtsp { transport: Transport },
    Device { backend: ResolvedInputBackend, frame_rate: Option<u32> },
}

/// What becomes of the packets of the input.
#[derive(Debug, Clone, PartialEq, Eq)]
pub enum WorkerMode {
    Passthrough { default_frame_duration: Duration },
    Transcode {
        processing: CompiledProcessingProfile,
        backend: TranscodeBackend,
        default_frame_duration: Duration,
    },
}

/// What a worker reports.
#[derive(Debug, PartialEq, Eq)]
pub enum WorkerMessage {
    Packet(OwnedEncodedPacket),
    EndOfStream,
    RecoverableError(String),
    Error(String),
}

/// A packet that stands by itself.
#[derive(Debug, PartialEq, Eq)]
pub struct OwnedEncodedPacket {
    pub codec: String,
    pub timestamp: Option<Duration>,
    pub duration: Option<Duration>,
    pub is_keyframe: bool,
    pub data: Vec<u8>,
}

// ---------------------------------------------------------------------------
// What a pipeline asks for
// ---------------------------------------------------------------------------

/// The transport of a pipeline, TCP where its network profile says nothing.
pub open spec fn transport_of(pipeline: CompiledPipeline) -> Transport {
    match pipeline.network {
        Some(profile) => profile.transport,
        None => Transport::Tcp,
    }
}

/// The length of a frame of a pipeline, in nanoseconds.
pub open spec fn frame_nanos(pipeline: CompiledPipeline) -> nat {
    match pipeline.processing {
        Some(processing) => match device::processing_frame_nanos(processing) {
            Some(nanos) => nanos,
            None => 33_000_000,
        },
        None => 33_000_000,
    }
}

/// The frame rate that a device is asked for.
pub open spec fn capture_rate(pipeline: CompiledPipeline) -> Option<u32> {
    match pipeline.processing {
        Some(processing) => if processing.frame_rate > 0 {
            Some(processing.frame_rate)
        } else {
            None
        },
        None => None,
    }
}

/// A text about a pipeline.
pub open spec fn about(pipeline: CompiledPipeline, rest: Seq<char>) -> Seq<char> {
    "pipeline '"@ + pipeline.id@ + rest
}

/// How the input of a pipeline is opened, or why it is not.
pub open spec fn input_of(pipeline: CompiledPipeline) -> Result<InputSpec, Seq<char>> {
    match pipeline.input.kind {
        InputType::Rtsp => Ok(InputSpec::Rtsp { transport: transport_of(pipeline) }),
        InputType::Device => match pipeline.resolved_backend {
            ResolvedInputBackend::LibcameraDevice => Err(
                about(
                    pipeline,
                    "' selected a libcamera device backend, but the current FFmpeg adapter only implements RTSP and V4L2-backed device ingest"@,
                ),
            ),
            ResolvedInputBackend::FfmpegRtsp => Err(
                about(pipeline, "' resolved an invalid FFmpeg RTSP backend for device input"@),
            ),
            backend => Ok(
                InputSpec::Device { backend, frame_rate: capture_rate(pipeline) },
            ),
        },
    }
}

/// The encoders that can be named on a codec path; a path that passes media through
/// has none.
pub open spec fn encoder_fits(path: CodecPath, encoder: Seq<char>) -> bool {
    let name = text::lower(text::trimmed(encoder));
    match path {
        CodecPath::SoftwareTranscode => name == "software"@ || name == "libx264"@,
        CodecPath::HardwareDecode => name == "software"@ || name == "libx264"@,
        CodecPath::HardwareTranscode => name == "hardware"@ || name == "v4l2m2m"@,
        CodecPath::Passthrough => false,
    }
}

/// What is said of an encoder that does not fit.
pub open spec fn encoder_failure(
    pipeline: CompiledPipeline,
    processing: CompiledProcessingProfile,
) -> Seq<char> {
    match pipeline.codec_path {
        CodecPath::Passthrough => about(
            pipeline,
            "' cannot request transcode support while compiled for passthrough"@,
        ),
        CodecPath::HardwareTranscode => "pipeline '"@ + pipeline.id@ + "' requested encoder '"@
            + processing.encoder@
            + "' but Raspberry Pi hardware transcode requires 'hardware' or 'v4l2m2m'"@,
        _ => "pipeline '"@ + pipeline.id@ + "' requested encoder '"@ + processing.encoder@
            + "' but the current FFmpeg backend only implements software H.264 encode for this pipeline"@,
    }
}

/// Why a pipeline cannot be transcoded as its profile asks, if it cannot.
pub open spec fn support_failure(
    pipeline: CompiledPipeline,
    processing: CompiledProcessingProfile,
) -> Option<Seq<char>> {
    if !encoder_fits(pipeline.codec_path, processing.encoder@) {
        Some(encoder_failure(pipeline, processing))
    } else if text::lower(text::trimmed(processing.codec@)) != "h264"@ {
        Some(
            "pipeline '"@ + pipeline.id@ + "' requested codec '"@ + processing.codec@
                + "' but the current FFmpeg backend only implements software H.264 transcode"@,
        )
    } else if processing.frame_rate == 0 {
        Some(about(pipeline, "' must set a positive frame_rate for software transcode"@))
    } else if filter::rotation_by(filter::degrees_of(processing.rotation)) is None {
        Some(
            "unsupported rotation '"@ + text::signed_decimal(
                filter::degrees_of(processing.rotation),
            ) + "'; supported values are 0, 90, 180, 270, -90, -180, and -270"@,
        )
    } else {
        None
    }
}

/// Why a pipeline has no worker, if it has none.
pub open spec fn worker_failure(pipeline: CompiledPipeline) -> Option<Seq<char>> {
    match input_of(pipeline) {
        Err(message) => Some(message),
        Ok(_) => match pipeline.strategy {
            StreamStrategy::Passthrough => None,
            StreamStrategy::Transcode => match pipeline.processing {
                None => Some(
                    about(pipeline, "' was compiled for transcode but has no processing profile"@),
                ),
                Some(processing) => support_failure(pipeline, processing),
            },
            StreamStrategy::HardwareDecode => match pipeline.processing {
                None => Some(
                    about(
                        pipeline,
                        "' was compiled for hardware decode but has no processing profile"@,
                    ),
                ),
                Some(processing) => support_failure(pipeline, processing),
            },
        },
    }
}

/// Whether a mode is the one that a pipeline asks for.
pub open spec fn mode_fits(mode: WorkerMode, pipeline: CompiledPipeline) -> bool {
    match mode {
        WorkerMode::Passthrough { default_frame_duration } => {
            &&& pipeline.strategy == StreamStrategy::Passthrough
            &&& default_frame_duration@ == frame_nanos(pipeline)
        },
        WorkerMode::Transcode { processing, backend, default_frame_duration } => {
            &&& pipeline.strategy != StreamStrategy::Passthrough
            &&& pipeline.processing == Some(processing)
            &&& hwaccel::backend_for(pipeline.codec_path) == Some(backend)
            &&& default_frame_duration@ == frame_nanos(pipeline)
        },
    }
}

/// Whether a worker is the one that a pipeline asks for.
pub open spec fn worker_fits(spec: WorkerSpec, pipeline: CompiledPipeline) -> bool {
    &&& spec.pipeline_id@ == pipeline.id@
    &&& spec.input@ == pipeline.input.source@
    &&& input_of(pipeline) == Ok::<InputSpec, Seq<char>>(spec.input_spec)
    &&& mode_fits(spec.mode, pipeline)
}

/// Whether an error is of an adapter, with the given text.
pub open spec fn is_adapter_error(error: RuntimeError, message: Seq<char>) -> bool {
    error matches RuntimeError::Adapter(text) && text@ == message
}

fn adapter_error(pipeline: &CompiledPipeline, rest: &str) -> (r: RuntimeError)
    ensures
        is_adapter_error(r, about(*pipeline, rest@)),
{
    RuntimeError::Adapter(text::join3("pipeline '", pipeline.id.as_str(), rest))
}

fn is_one_of(name: &str, a: &str, b: &str) -> (r: bool)
    ensures
        r == (name@ == a@ || name@ == b@),
{
    text::same(name, a) || text::same(name, b)
}

/// Whether the worker can transcode as the profile of a pipeline asks.
pub fn validate_transcode_support(
    pipeline: &CompiledPipeline,
    processing: &CompiledProcessingProfile,
) -> (r: Result<(), RuntimeError>)
    ensures
        match r {
            Ok(()) => support_failure(*pipeline, *processing) is None,
            Err(error) => support_failure(*pipeline, *processing) matches Some(message)
                && is_adapter_error(error, message),
        },
{
    let encoder = text::to_ascii_lowercase(text::trim(processing.encoder.as_str()));
    match pipeline.codec_path {
        CodecPath::SoftwareTranscode | CodecPath::HardwareDecode => {
            if !is_one_of(encoder.as_str(), "software", "libx264") {
                return Err(
                    RuntimeError::Adapter(
                        text::join5(
                            "pipeline '",
                            pipeline.id.as_str(),
                            "' requested encoder '",
                            processing.encoder.as_str(),
                            "' but the current FFmpeg backend only implements software H.264 encode for this pipeline",
                        ),
                    ),
                );
            }
        },
        CodecPath::HardwareTranscode => {
            if !is_one_of(encoder.as_str(), "hardware", "v4l2m2m") {
                return Err(
                    RuntimeError::Adapter(
                        text::join5(
                            "pipeline '",
                            pipeline.id.as_str(),
                            "' requested encoder '",
                            processing.encoder.as_str(),
                            "' but Raspberry Pi hardware transcode requires 'hardware' or 'v4l2m2m'",
                        ),
                    ),
                );
            }
        },
        CodecPath::Passthrough => {
            return Err(
                adapter_error(
                    pipeline,
                    "' cannot request transcode support while compiled for passthrough",
                ),
            );
        },
    }
    let codec = text::to_ascii_lowercase(text::trim(processing.codec.as_str()));
    if !text::same(codec.as_str(), "h264") {
        return Err(
            RuntimeError::Adapter(
                text::join5(
                    "pipeline '",
                    pipeline.id.as_str(),
                    "' requested codec '",
                    processing.codec.as_str(),
                    "' but the current FFmpeg backend only implements software H.264 transcode",
                ),
            ),
        );
    }
    if device::frame_duration_from_processing(processing).is_none() {
        return Err(
            adapter_error(pipeline, "' must set a positive frame_rate for software transcode"),
        );
    }
    match filter::normalize_rotation(processing.rotation) {
        Ok(_) => Ok(()),
        Err(message) => Err(RuntimeError::Adapter(message)),
    }
}

/// How the input of a pipeline is opened.
fn input_spec_for_pipeline(pipeline: &CompiledPipeline) -> (r: Result<InputSpec, RuntimeError>)
    ensures
        match r {
            Ok(input) => input_of(*pipeline) == Ok::<InputSpec, Seq<char>>(input),
            Err(error) => input_of(*pipeline) matches Err(message) && is_adapter_error(
                error,
                message,
            ),
        },
{
    match pipeline.input.kind {
        InputType::Rtsp => {
            let transport = match &pipeline.network {
                Some(profile) => profile.transport,
                None => Transport::Tcp,
            };
            Ok(InputSpec::Rtsp { transport })
        },
        InputType::Device => match pipeline.resolved_backend {
            ResolvedInputBackend::AutoDevice | ResolvedInputBackend::V4l2Device => {
                let frame_rate: Option<u32> = match &pipeline.processing {
                    Some(processing) => if processing.frame_rate > 0 {
                        Some(processing.frame_rate)
                    } else {
                        None
                    },
                    None => None,
                };
                Ok(InputSpec::Device { backend: pipeline.resolved_backend, frame_rate })
            },
            ResolvedInputBackend::LibcameraDevice => Err(
                adapter_error(
                    pipeline,
                    "' selected a libcamera device backend, but the current FFmpeg adapter only implements RTSP and V4L2-backed device ingest",
                ),
            ),
            ResolvedInputBackend::FfmpegRtsp => Err(
                adapter_error(
                    pipeline,
                    "' resolved an invalid FFmpeg RTSP backend for device input",
                ),
            ),
        },
    }
}

/// How the packets of a pipeline are transcoded; `missing` is what is said of one that
/// has no profile.
fn transcode_mode(
    pipeline: &CompiledPipeline,
    default_frame_duration: Duration,
    missing: &str,
) -> (r: Result<WorkerMode, RuntimeError>)
    requires
        default_frame_duration@ == frame_nanos(*pipeline),
        pipeline.strategy != StreamStrategy::Passthrough,
    ensures
        match r {
            Ok(mode) => mode_fits(mode, *pipeline) && (pipeline.processing matches Some(processing)
                && support_failure(*pipeline, processing) is None),
            Err(error) => match pipeline.processing {
                None => is_adapter_error(error, about(*pipeline, missing@)),
                Some(processing) => support_failure(*pipeline, processing) matches Some(message)
                    && is_adapter_error(error, message),
            },
        },
{
    let processing = match &pipeline.processing {
        Some(processing) => processing.clone(),
        None => {
            return Err(adapter_error(pipeline, missing));
        },
    };
    match validate_transcode_support(pipeline, &processing) {
        Ok(()) => {},
        Err(error) => {
            return Err(error);
        },
    }
    match hwaccel::transcode_backend_for_pipeline(pipeline) {
        Ok(backend) => Ok(WorkerMode::Transcode { processing, backend, default_frame_duration }),
        Err(error) => Err(error),
    }
}

/// The worker that a pipeline asks for.
pub fn worker_spec_for_pipeline(pipeline: &CompiledPipeline) -> (r: Result<
    WorkerSpec,
    RuntimeError,
>)
    ensures
        match r {
            Ok(spec) => worker_failure(*pipeline) is None && worker_fits(spec, *pipeline),
            Err(error) => worker_failure(*pipeline) matches Some(message) && is_adapter_error(
                error,
                message,
            ),
        },
{
    broadcast use crate::time::durations_are_their_length;

    let mut default_frame_duration = Duration::from_millis(DEFAULT_FRAME_DURATION_MILLIS);
    if let Some(processing) = &pipeline.processing {
        if let Some(frame) = device::frame_duration_from_processing(processing) {
            default_frame_duration = frame;
        }
    }
    let input_spec = match input_spec_for_pipeline(pipeline) {
        Ok(input_spec) => input_spec,
        Err(error) => {
            return Err(error);
        },
    };
    let mode = match pipeline.strategy {
        StreamStrategy::Passthrough => WorkerMode::Passthrough { default_frame_duration },
        StreamStrategy::Transcode => match transcode_mode(
            pipeline,
            default_frame_duration,
            "' was compiled for transcode but has no processing profile",
        ) {
            Ok(mode) => mode,
            Err(error) => {
                return Err(error);
            },
        },
        StreamStrategy::HardwareDecode => match transcode_mode(
            pipeline,
            default_frame_duration,
            "' was compiled for hardware decode but has no processing profile",
        ) {
            Ok(mode) => mode,
            Err(error) => {
                return Err(error);
            },
        },
    };
    Ok(
        WorkerSpec {
            pipeline_id: pipeline.id.clone(),
            input: pipeline.input.source.clone(),
            input_spec,
            mode,
        },
    )
}

// ---------------------------------------------------------------------------
// Packets
// ---------------------------------------------------------------------------

/// A packet as FFmpeg hands it out.
#[derive(Debug, PartialEq, Eq)]
pub struct RawPacket {
    pub pts: Option<i64>,
    pub duration: i64,
    pub is_key: bool,
    pub data: Option<Vec<u8>>,
}

/// The time of a packet, in nanoseconds.
pub open spec fn packet_time(packet: RawPacket, time_base: Rational) -> Option<nat> {
    match packet.pts {
        Some(ticks) => device::ticks_nanos(ticks as int, time_base),
        None => None,
    }
}

/// The length of a packet in nanoseconds, `nominal` where the packet does not say it.
pub open spec fn packet_nanos(packet: RawPacket, time_base: Rational, nominal: nat) -> nat {
    if packet.duration <= 0 {
        nominal
    } else {
        match device::ticks_nanos(packet.duration as int, time_base) {
            Some(nanos) => nanos,
            None => nominal,
        }
    }
}

/// Whether a packet is what a raw packet is made into, if its bytes are `data`.
pub open spec fn packet_fits(
    out: OwnedEncodedPacket,
    packet: RawPacket,
    time_base: Rational,
    nominal: nat,
    data: Seq<u8>,
) -> bool {
    &&& out.codec@ == "h264"@
    &&& config::nanos_of(out.timestamp) == packet_time(packet, time_base)
    &&& config::nanos_of(out.duration) == Some(packet_nanos(packet, time_base, nominal))
    &&& out.is_keyframe == packet.is_key
    &&& out.data@ == data
}

/// The bytes that a raw packet is made into; `missing` is what is said of one without
/// any.
pub open spec fn packet_bytes(
    packet: RawPacket,
    h264_config: Option<H264Config>,
    missing: Seq<char>,
) -> Result<Seq<u8>, Seq<char>> {
    match packet.data {
        None => Err(missing),
        Some(data) => h264::normalized(data@, packet.is_key, h264::config_view(h264_config)),
    }
}

/// Makes a raw packet into one that stands by itself; `missing` is what is said of one
/// without bytes.
pub fn owned_packet(
    packet: &RawPacket,
    time_base: Rational,
    nominal: Duration,
    h264_config: &Option<H264Config>,
    missing: &str,
) -> (r: Result<OwnedEncodedPacket, String>)
    ensures
        match packet_bytes(*packet, *h264_config, missing@) {
            Ok(data) => r matches Ok(out) && packet_fits(out, *packet, time_base, nominal@, data),
            Err(message) => r matches Err(error) && error@ == message,
        },
{
    let raw = match &packet.data {
        Some(raw) => raw,
        None => {
            return Err(missing.to_owned());
        },
    };
    let data = match device::normalize_encoded_packet(
        "h264",
        raw.as_slice(),
        packet.is_key,
        h264_config.as_ref(),
    ) {
        Ok(data) => data,
        Err(message) => {
            return Err(message);
        },
    };
    let duration = match device::duration_from_packet(packet.duration, time_base) {
        Some(duration) => duration,
        None => nominal,
    };
    Ok(
        OwnedEncodedPacket {
            codec: "h264".to_owned(),
            timestamp: device::duration_from_time_base(packet.pts, time_base),
            duration: Some(duration),
            is_keyframe: packet.is_key,
            data,
        },
    )
}

// ---------------------------------------------------------------------------
// Passing packets on
// ---------------------------------------------------------------------------

/// What is known of the video stream of an input.
#[derive(Debug, PartialEq, Eq)]
pub struct StreamFacts {
    pub index: usize,
    pub codec: VideoCodec,
    pub extradata: Option<Vec<u8>>,
    pub time_base: Rational,
    pub avg_frame_rate: Rational,
}

/// The extra data of a stream.
pub open spec fn extra_bytes(stream: StreamFacts) -> Option<Seq<u8>> {
    match stream.extradata {
        Some(data) => Some(data@),
        None => None,
    }
}

/// The length of a frame of a stream in nanoseconds, `default_nanos` where its frame
/// rate does not say it.
pub open spec fn nominal_nanos(stream: StreamFacts, default_nanos: nat) -> nat {
    match device::rate_frame_nanos(stream.avg_frame_rate) {
        Some(nanos) => nanos,
        None => default_nanos,
    }
}

/// Passes on the packets of one stream of an input.
#[derive(Debug, PartialEq, Eq)]
pub struct Demuxer {
    pub stream_index: usize,
    pub time_base: Rational,
    pub nominal_duration: Duration,
    pub h264_config: Option<H264Config>,
}

/// What is done with a packet.
#[derive(Debug, PartialEq, Eq)]
pub enum DemuxAction {
    /// Nothing more is read.
    Stop,
    /// The packet is of another stream.
    Skip,
    /// The packet is passed on. If nobody takes it, nothing more is read.
    Send(OwnedEncodedPacket),
    /// The input cannot be read.
    Fail(String),
}

impl Demuxer {
    /// Passes on a stream, if its codec is one that can be passed on.
    pub fn new(stream: &StreamFacts, default_frame_duration: Duration) -> (r: Result<Self, String>)
        ensures
            match stream.codec {
                VideoCodec::H264 => match h264::config_reading(extra_bytes(*stream)) {
                    Ok(reading) => r matches Ok(demuxer) && demuxer.stream_index == stream.index
                        && demuxer.time_base == stream.time_base && demuxer.nominal_duration@
                        == nominal_nanos(*stream, default_frame_duration@) && h264::config_view(
                        demuxer.h264_config,
                    ) == reading,
                    Err(message) => r matches Err(error) && error@ == message,
                },
                VideoCodec::Hevc => r matches Err(error) && error@
                    == "H.265 input was detected, but the current FFmpeg backend only supports H.264 passthrough/transcode"@,
                VideoCodec::Other(name) => r matches Err(error) && error@
                    == "unsupported encoded video codec '"@ + name@
                    + "'; expected H.264 for the current backend"@,
            },
    {
        match device::codec_name(&stream.codec) {
            Ok(_) => {},
            Err(message) => {
                return Err(message);
            },
        }
        let h264_config = match &stream.extradata {
            Some(data) => match h264::extract_h264_config(Some(data.as_slice())) {
                Ok(h264_config) => h264_config,
                Err(message) => {
                    return Err(message);
                },
            },
            None => None,
        };
        let nominal_duration = match device::frame_duration_from_rate(stream.avg_frame_rate) {
            Some(duration) => duration,
            None => default_frame_duration,
        };
        Ok(
            Demuxer {
                stream_index: stream.index,
                time_base: stream.time_base,
                nominal_duration,
                h264_config,
            },
        )
    }

    /// Decides what is done with a packet of the input.
    pub fn step(&self, cancelled: bool, stream_index: usize, packet: &RawPacket) -> (r:
        DemuxAction)
        ensures
            if cancelled {
                r is Stop
            } else if stream_index != self.stream_index {
                r is Skip
            } else {
                match packet_bytes(
                    *packet,
                    self.h264_config,
                    "ffmpeg returned a packet with no payload"@,
                ) {
                    Ok(data) => r matches DemuxAction::Send(out) && packet_fits(
                        out,
                        *packet,
                        self.time_base,
                        self.nominal_duration@,
                        data,
                    ),
                    Err(message) => r matches DemuxAction::Fail(error) && error@ == message,
                }
            },
    {
        if cancelled {
            return DemuxAction::Stop;
        }
        if stream_index != self.stream_index {
            return DemuxAction::Skip;
        }
        match owned_packet(
            packet,
            self.time_base,
            self.nominal_duration,
            &self.h264_config,
            "ffmpeg returned a packet with no payload",
        ) {
            Ok(out) => DemuxAction::Send(out),
            Err(message) => DemuxAction::Fail(message),
        }
    }
}

// ---------------------------------------------------------------------------
// Running
// ---------------------------------------------------------------------------

/// What a worker does first.
#[derive(Debug, PartialEq, Eq)]
pub enum WorkerStart {
    /// Report this, and stop.
    Report(WorkerMessage),
    /// Pass packets on.
    Demux,
    /// Transcode packets.
    Transcode,
}

/// Decides what a worker does first, given whether FFmpeg could be initialized.
pub fn start_worker(spec: &WorkerSpec, ffmpeg_ready: bool) -> (r: WorkerStart)
    ensures
        if ffmpeg_ready {
            match spec.mode {
                WorkerMode::Passthrough { .. } => r is Demux,
                WorkerMode::Transcode { .. } => r is Transcode,
            }
        } else {
            r matches WorkerStart::Report(WorkerMessage::Error(message)) && message@
                == "ffmpeg initialization failed; verify FFmpeg libraries are available"@
        },
{
    if !ffmpeg_ready {
        return WorkerStart::Report(
            WorkerMessage::Error(
                "ffmpeg initialization failed; verify FFmpeg libraries are available".to_owned(),
            ),
        );
    }
    match &spec.mode {
        WorkerMode::Passthrough { .. } => WorkerStart::Demux,
        WorkerMode::Transcode { .. } => WorkerStart::Transcode,
    }
}

/// The last report of a worker.
pub fn finish_worker(spec: &WorkerSpec, outcome: Result<(), String>) -> (r: WorkerMessage)
    ensures
        match outcome {
            Ok(()) => r is EndOfStream,
            Err(error) => r matches WorkerMessage::RecoverableError(message) && message@
                == "pipeline '"@ + spec.pipeline_id@ + "' failed during FFmpeg execution: "@
                + error@,
        },
{
    match outcome {
        Ok(()) => WorkerMessage::EndOfStream,
        Err(error) => {
            let mut message = text::join3(
                "pipeline '",
                spec.pipeline_id.as_str(),
                "' failed during FFmpeg execution: ",
            );
            message.append(error.as_str());
            WorkerMessage::RecoverableError(message)
        },
    }
}

// ---------------------------------------------------------------------------
// Laws
// ---------------------------------------------------------------------------

/// A worker transcodes only what it has codecs for, at a frame rate that gives every
/// frame a length, and with a rotation that it can do.
pub proof fn transcoding_workers_are_supported(spec: WorkerSpec, pipeline: CompiledPipeline)
    requires
        worker_failure(pipeline) is None,
        worker_fits(spec, pipeline),
        spec.mode is Transcode,
    ensures
        pipeline.codec_path != CodecPath::Passthrough,
        pipeline.processing matches Some(processing) && encoder_fits(
            pipeline.codec_path,
            processing.encoder@,
        ) && device::processing_frame_nanos(processing) == Some(frame_nanos(pipeline))
            && filter::rotation_by(filter::degrees_of(processing.rotation)) is Some,
{
}

/// A worker passes packets on exactly for the pipelines that are to pass them on.
pub proof fn passing_on_follows_the_strategy(spec: WorkerSpec, pipeline: CompiledPipeline)
    requires
        worker_fits(spec, pipeline),
    ensures
        spec.mode is Passthrough <==> pipeline.strategy == StreamStrategy::Passthrough,
{
}

/// Cameras of libcamera are never read by a worker.
pub proof fn libcamera_devices_have_no_worker(pipeline: CompiledPipeline)
    requires
        pipeline.input.kind == InputType::Device,
        pipeline.resolved_backend == ResolvedInputBackend::LibcameraDevice,
    ensures
        worker_failure(pipeline) is Some,
{
}

/// How an input is opened: a network input over the transport of its profile, or over TCP
/// without one; a device by the backend that it has, at the rate of its frames if that is
/// positive. A device of libcamera, and one that is no device, cannot be opened.
pub proof fn inputs_are_opened_by_their_kind(pipeline: CompiledPipeline)
    ensures
        match pipeline.input.kind {
            InputType::Rtsp => {
                &&& input_of(pipeline) matches Ok(InputSpec::Rtsp { transport })
                &&& (pipeline.network matches Some(profile) ==> transport == profile.transport)
                &&& (pipeline.network is None ==> transport == Transport::Tcp)
            },
            InputType::Device => {
                &&& input_of(pipeline) is Err <==> pipeline.resolved_backend
                    == ResolvedInputBackend::LibcameraDevice || pipeline.resolved_backend
                    == ResolvedInputBackend::FfmpegRtsp
                &&& (input_of(pipeline) matches Ok(input) ==> {
                    &&& input matches InputSpec::Device { backend, frame_rate }
                    &&& backend == pipeline.resolved_backend
                    &&& frame_rate is Some <==> pipeline.processing is Some
                        && pipeline.processing->0.frame_rate > 0
                    &&& (frame_rate matches Some(rate) ==> rate
                        == pipeline.processing->0.frame_rate)
                })
            },
        },
{
}

/// An encoder is good for software or for hardware and never for both, and none is good
/// for a pipeline that passes media through. The hardware encoders are those that the
/// compiler takes for such.
pub proof fn encoders_fit_one_kind_of_path(encoder: Seq<char>)
    ensures
        encoder_fits(CodecPath::HardwareTranscode, encoder) <==> compiler::names_hardware_encoder(
            encoder,
        ),
        encoder_fits(CodecPath::SoftwareTranscode, encoder) <==> encoder_fits(
            CodecPath::HardwareDecode,
            encoder,
        ),
        !(encoder_fits(CodecPath::SoftwareTranscode, encoder) && encoder_fits(
            CodecPath::HardwareTranscode,
            encoder,
        )),
        !encoder_fits(CodecPath::Passthrough, encoder),
{
    reveal_strlit("software");
    reveal_strlit("libx264");
    reveal_strlit("hardware");
    reveal_strlit("v4l2m2m");
    assert("software"@[0] == 's' && "libx264"@[0] == 'l');
    assert("hardware"@[0] == 'h' && "v4l2m2m"@[0] == 'v');
}

/// The names of the encoders count in any case of letters and with any white space around
/// them.
pub proof fn encoder_names_are_read_loosely(
    front: Seq<char>,
    name: Seq<char>,
    back: Seq<char>,
)
    requires
        text::all_white(front),
        text::all_white(back),
    ensures
        text::lower(name) == "software"@ || text::lower(name) == "libx264"@ ==> encoder_fits(
            CodecPath::SoftwareTranscode,
            front + name + back,
        ),
        text::lower(name) == "hardware"@ || text::lower(name) == "v4l2m2m"@ ==> encoder_fits(
            CodecPath::HardwareTranscode,
            front + name + back,
        ),
{
    reveal_strlit("software");
    reveal_strlit("libx264");
    reveal_strlit("hardware");
    reveal_strlit("v4l2m2m");
    let low = text::lower(name);
    if low == "software"@ || low == "libx264"@ || low == "hardware"@ || low == "v4l2m2m"@ {
        assert(low.len() == name.len());
        assert(low[0] == text::lower_char(name[0]));
        assert(low.last() == text::lower_char(name.last()));
        text::letters_change_their_case(name[0]);
        text::letters_change_their_case(name.last());
        text::visible_characters_are_no_white_space(name[0]);
        text::visible_characters_are_no_white_space(name.last());
        text::trimming_takes_white_space_off(front, name, back);
    }
}

/// A pipeline gets a worker if and only if its input can be opened and, unless it passes
/// media on, its processing is there and can be done: by an encoder for its path, to H.264,
/// at a positive rate, and turned by quarters.
pub proof fn pipelines_get_their_workers(pipeline: CompiledPipeline)
    ensures
        worker_failure(pipeline) is None <==> {
            &&& input_of(pipeline) is Ok
            &&& pipeline.strategy == StreamStrategy::Passthrough || {
                &&& pipeline.processing matches Some(processing)
                &&& encoder_fits(pipeline.codec_path, processing.encoder@)
                &&& text::lower(text::trimmed(processing.codec@)) == "h264"@
                &&& processing.frame_rate > 0
                &&& (processing.rotation matches Some(degrees) ==> -360 < degrees < 360
                    && degrees as int % 90 == 0)
            }
        },
{
}

/// A worker does what its pipeline says: it reads the same input, passes on or transcodes,
/// and takes a frame for as long as the rate leaves it, or for 33 milliseconds without one.
pub proof fn workers_do_what_their_pipeline_says(spec: WorkerSpec, pipeline: CompiledPipeline)
    requires
        worker_fits(spec, pipeline),
    ensures
        spec.pipeline_id@ == pipeline.id@,
        spec.input@ == pipeline.input.source@,
        match spec.mode {
            WorkerMode::Passthrough { default_frame_duration } => {
                &&& pipeline.processing is None ==> default_frame_duration@ == 33_000_000
            },
            WorkerMode::Transcode { processing, backend, default_frame_duration } => {
                &&& pipeline.processing == Some(processing)
                &&& processing.frame_rate == 0 ==> default_frame_duration@ == 33_000_000
                &&& processing.frame_rate > 0 ==> default_frame_duration@ * processing.frame_rate
                    <= 1_000_000_000 < (default_frame_duration@ + 1) * processing.frame_rate
                &&& backend == TranscodeBackend::Software <==> pipeline.codec_path
                    == CodecPath::SoftwareTranscode
                &&& backend == TranscodeBackend::Pi4HardwareEncode <==> pipeline.codec_path
                    == CodecPath::HardwareTranscode
                &&& backend == TranscodeBackend::Pi5HardwareDecode <==> pipeline.codec_path
                    == CodecPath::HardwareDecode
            },
        },
{
    if let Some(processing) = pipeline.processing {
        device::frames_share_the_second(processing);
    }
}

/// A packet keeps its bytes, once they are normalized, and its key mark. Its time and its
/// length are those that it brings, in its time base; a length that it does not bring is
/// the usual one. One without bytes is no packet.
pub proof fn packets_keep_what_they_bring(
    out: OwnedEncodedPacket,
    packet: RawPacket,
    time_base: Rational,
    nominal: nat,
    data: Seq<u8>,
    h264_config: Option<H264Config>,
    missing: Seq<char>,
)
    requires
        packet_fits(out, packet, time_base, nominal, data),
        packet_bytes(packet, h264_config, missing) == Ok::<Seq<u8>, Seq<char>>(data),
    ensures
        packet.data is Some,
        out.data@ == data,
        out.is_keyframe == packet.is_key,
        out.codec@ == "h264"@,
        out.duration is Some,
        packet.pts is None ==> out.timestamp is None,
        packet.pts matches Some(ticks) ==> (out.timestamp matches Some(at) ==> at@
            * time_base.denominator <= (ticks * time_base.numerator) * 1_000_000_000 < (at@ + 1)
            * time_base.denominator),
        packet.duration <= 0 ==> out.duration->0@ == nominal,
        packet.data matches Some(bytes) ==> (!packet.is_key && h264::is_annex_b(bytes@) ==> out.data@
            == bytes@),
{
    if let Some(ticks) = packet.pts {
        device::ticks_are_counted_exactly(ticks as int, time_base);
    }
}

/// A worker is started as its pipeline asks, and refused exactly where the pipeline cannot
/// be run.
pub proof fn workers_are_made_for_their_pipelines(
    pipeline: &CompiledPipeline,
    r: Result<WorkerSpec, RuntimeError>,
)
    requires
        call_ensures(worker_spec_for_pipeline, (pipeline,), r),
    ensures
        r is Ok <==> {
            &&& input_of(*pipeline) is Ok
            &&& pipeline.strategy == StreamStrategy::Passthrough || {
                &&& pipeline.processing matches Some(processing)
                &&& encoder_fits(pipeline.codec_path, processing.encoder@)
                &&& text::lower(text::trimmed(processing.codec@)) == "h264"@
                &&& processing.frame_rate > 0
                &&& (processing.rotation matches Some(degrees) ==> -360 < degrees < 360
                    && degrees as int % 90 == 0)
            }
        },
        r matches Ok(spec) ==> {
            &&& spec.pipeline_id@ == pipeline.id@
            &&& spec.input@ == pipeline.input.source@
            &&& spec.input_spec is Rtsp <==> pipeline.input.kind == InputType::Rtsp
            &&& spec.mode is Passthrough <==> pipeline.strategy == StreamStrategy::Passthrough
            &&& (spec.mode matches WorkerMode::Transcode { processing, .. } ==> pipeline.processing
                == Some(processing))
        },
{
    pipelines_get_their_workers(*pipeline);
    inputs_are_opened_by_their_kind(*pipeline);
}

/// A worker runs as its mode says once FFmpeg is ready, and reports a fault otherwise. What
/// it ends with is the end of the media, or a fault that the pipeline can recover from.
pub proof fn workers_start_and_finish(
    spec: &WorkerSpec,
    ready: bool,
    start: WorkerStart,
    outcome: Result<(), String>,
    end: WorkerMessage,
)
    requires
        call_ensures(start_worker, (spec, ready), start),
        call_ensures(finish_worker, (spec, outcome), end),
    ensures
        !ready <==> start is Report,
        ready ==> (start is Demux <==> spec.mode is Passthrough),
        start matches WorkerStart::Report(message) ==> message is Error,
        outcome is Ok ==> end is EndOfStream,
        outcome matches Err(error) ==> (end matches WorkerMessage::RecoverableError(message)
            && text::has_suffix(message@, error@)),
{
    if let Err(error) = outcome {
        let front = "pipeline '"@ + spec.pipeline_id@ + "' failed during FFmpeg execution: "@;
        text::parts_of_a_text_are_found(front, error@, Seq::empty());
    }
}

/// A packet that is passed on keeps its key mark and, unless it is a key frame, its bytes
/// where they stand behind start codes; without bytes it is refused.
pub proof fn packets_are_passed_on(
    packet: &RawPacket,
    time_base: Rational,
    nominal: Duration,
    h264_config: &Option<H264Config>,
    missing: &str,
    r: Result<OwnedEncodedPacket, String>,
)
    requires
        call_ensures(owned_packet, (packet, time_base, nominal, h264_config, missing), r),
    ensures
        packet.data is None ==> (r matches Err(message) && message@ == missing@),
        r matches Ok(out) ==> {
            &&& out.is_keyframe == packet.is_key
            &&& out.codec@ == "h264"@
            &&& packet.pts is None ==> out.timestamp is None
            &&& packet.duration <= 0 ==> (out.duration matches Some(span) && span@ == nominal@)
            &&& (packet.data matches Some(bytes) ==> (!packet.is_key && h264::is_annex_b(bytes@)
                ==> out.data@ == bytes@))
        },
        packet.data matches Some(bytes) ==> (h264::is_annex_b(bytes@) ==> r is Ok),
{
}

/// A demuxer passes on the packets of its stream and no others, until it is cancelled.
pub proof fn demuxers_pass_on_their_stream(
    demuxer: &Demuxer,
    cancelled: bool,
    stream_index: usize,
    packet: &RawPacket,
    action: DemuxAction,
)
    requires
        call_ensures(Demuxer::step, (demuxer, cancelled, stream_index, packet), action),
    ensures
        action is Stop <==> cancelled,
        action is Skip <==> !cancelled && stream_index != demuxer.stream_index,
        action matches DemuxAction::Send(out) ==> packet.data is Some && out.is_keyframe
            == packet.is_key,
        !cancelled && stream_index == demuxer.stream_index && packet.data is None ==> action is Fail,
{
}

/// A packet lasts as long as it says, in its time base, wherever that can be read; without
/// a positive length it lasts as long as usual.
pub proof fn packets_last_as_they_say(packet: RawPacket, time_base: Rational, nominal: nat)
    ensures
        packet.duration > 0 && device::ticks_nanos(packet.duration as int, time_base) is Some
            ==> packet_nanos(packet, time_base, nominal) == device::ticks_nanos(
            packet.duration as int,
            time_base,
        )->0,
        packet.duration <= 0 || device::ticks_nanos(packet.duration as int, time_base) is None
            ==> packet_nanos(packet, time_base, nominal) == nominal,
{
}

} // verus!
