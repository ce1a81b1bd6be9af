//! Sources that read from a worker.

use vstd::prelude::*;

use crate::compiler::CompiledPipeline;
use crate::error::RuntimeError;
use crate::ffmpeg::worker::{self, OwnedEncodedPacket, WorkerMessage, WorkerSpec};
use crate::runtime::media::{self, EncodedPacket, MediaPayload, MediaStorage};
use crate::runtime::pool::{self, BufferPool};
use crate::text;
use crate::time::Duration;

verus! {

/// How many reports of a worker wait to be read.
pub const WORKER_QUEUE_DEPTH: usize = 8;

/// How many packets a mock source gives.
pub const MOCK_PACKETS: u64 = 5;

/// The length of a frame of a mock source, in milliseconds.
pub const MOCK_FRAME_MILLIS: u64 = 33;

/// How long a mock source waits before each packet, in milliseconds.
pub const MOCK_WAIT_MILLIS: u64 = 10;

/// Where the packets of a pipeline come from.
#[derive(Debug, PartialEq, Eq)]
pub enum SourcePlan {
    /// They are made up.
    Mock,
    /// A worker reads them.
    Worker(WorkerSpec),
}

/// Whether the input of a pipeline stands for a mock source.
pub open spec fn names_mock(input: Seq<char>) -> bool {
    text::has_substring(input, "mock"@)
}

/// Makes sources.
#[derive(Debug, Clone, Copy, PartialEq, Eq, Structural)]
pub struct FfmpegSourceFactory;

impl Default for FfmpegSourceFactory {
    fn default() -> (r: Self)
        ensures
            r == FfmpegSourceFactory,
    {
        FfmpegSourceFactory
    }
}

impl FfmpegSourceFactory {
    pub fn new() -> (r: Self)
        ensures
            r == FfmpegSourceFactory,
    {
        FfmpegSourceFactory
    }

    /// Decides where the packets of a pipeline come from.
    pub fn plan_source(&self, pipeline: &CompiledPipeline) -> (r: Result<SourcePlan, RuntimeError>)
        ensures
            if names_mock(pipeline.input.source@) {
                r matches Ok(plan) && plan is Mock
            } else {
                match worker::worker_failure(*pipeline) {
                    Some(message) => r matches Err(error) && worker::is_adapter_error(
                        error,
                        message,
                    ),
                    None => r matches Ok(SourcePlan::Worker(spec)) && worker::worker_fits(
                        spec,
                        *pipeline,
                    ),
                }
            },
    {
        if text::contains(pipeline.input.source.as_str(), "mock") {
            return Ok(SourcePlan::Mock);
        }
        match worker::worker_spec_for_pipeline(pipeline) {
            Ok(spec) => Ok(SourcePlan::Worker(spec)),
            Err(error) => Err(error),
        }
    }
}

/// The name of the thread of a worker.
pub fn worker_thread_name(pipeline_id: &str) -> (r: String)
    ensures
        r@ == "caml-ffmpeg-"@ + pipeline_id@,
{
    text::join2("caml-ffmpeg-", pipeline_id)
}

/// The error of a worker whose thread could not be started.
pub fn spawn_error(pipeline_id: &str, error: &str) -> (r: RuntimeError)
    ensures
        worker::is_adapter_error(
            r,
            "failed to spawn FFmpeg worker for '"@ + pipeline_id@ + "': "@ + error@,
        ),
{
    let mut message = text::join3("failed to spawn FFmpeg worker for '", pipeline_id, "': ");
    message.append(error);
    RuntimeError::Adapter(message)
}

/// What a mock source reports as the report with this number: a few packets, of which
/// the first is a key frame, and then the end of the stream.
pub fn mock_message(index: u64) -> (r: WorkerMessage)
    ensures
        if index < MOCK_PACKETS {
            r matches WorkerMessage::Packet(packet) && packet.codec@ == "h264"@
                && packet.is_keyframe == (index == 0) && packet.data@ == seq![
                0u8,
                0u8,
                0u8,
                1u8,
                0x65u8,
                index as u8,
                0u8,
                0u8,
                0u8,
            ] && (packet.timestamp matches Some(timestamp) && timestamp@ == index * 33_000_000)
                && (packet.duration matches Some(duration) && duration@ == 33_000_000)
        } else {
            r is EndOfStream
        },
{
    if index < MOCK_PACKETS {
        let data: Vec<u8> = vec![0, 0, 0, 1, 0x65, index as u8, 0, 0, 0];
        assert(data@ =~= seq![0u8, 0u8, 0u8, 1u8, 0x65u8, index as u8, 0u8, 0u8, 0u8]);
        WorkerMessage::Packet(
            OwnedEncodedPacket {
                codec: "h264".to_owned(),
                timestamp: Some(Duration::from_millis(index * MOCK_FRAME_MILLIS)),
                duration: Some(Duration::from_millis(MOCK_FRAME_MILLIS)),
                is_keyframe: index == 0,
                data,
            },
        )
    } else {
        WorkerMessage::EndOfStream
    }
}

/// Whether a payload holds a packet, in a buffer of a pool.
pub open spec fn payload_holds(payload: MediaPayload, packet: OwnedEncodedPacket) -> bool {
    payload matches MediaPayload::EncodedPacket(out) && {
        &&& out.codec@ == packet.codec@
        &&& out.timestamp == packet.timestamp
        &&& out.duration == packet.duration
        &&& out.is_keyframe == packet.is_keyframe
        &&& out.data is Pooled
        &&& out.data@ == packet.data@
    }
}

/// How many bytes are copied for a report.
pub fn copied_bytes(message: &Option<WorkerMessage>) -> (r: Option<usize>)
    ensures
        match message {
            Some(WorkerMessage::Packet(packet)) => r == Some(packet.data@.len() as usize)
                && packet.data@.len() <= usize::MAX,
            _ => r is None,
        },
{
    match message {
        Some(WorkerMessage::Packet(packet)) => Some(packet.data.len()),
        _ => None,
    }
}

/// What a source makes of a report of its worker; a worker that is gone has ended the
/// stream. A packet is copied to a buffer of the pool.
pub fn payload_from_message(message: Option<WorkerMessage>, buffers: &mut BufferPool) -> (r: Result<
    MediaPayload,
    RuntimeError,
>)
    requires
        old(buffers)@.available > 0 || old(buffers)@.allocated < usize::MAX,
        old(buffers)@.buffer_size <= isize::MAX,
    ensures
        match message {
            Some(WorkerMessage::Packet(packet)) => (r matches Ok(payload) && payload_holds(
                payload,
                packet,
            )) && final(buffers)@ == pool::after_acquire(old(buffers)@),
            Some(WorkerMessage::RecoverableError(text)) => (r matches Err(
                RuntimeError::Recoverable(message),
            ) && message@ == text@) && final(buffers)@ == old(buffers)@,
            Some(WorkerMessage::Error(text)) => (r matches Err(RuntimeError::Source(message))
                && message@ == text@) && final(buffers)@ == old(buffers)@,
            _ => (r matches Ok(payload) && payload is EndOfStream) && final(buffers)@ == old(
                buffers,
            )@,
        },
{
    match message {
        Some(WorkerMessage::Packet(packet)) => {
            let mut data = buffers.acquire();
            data.extend_from_slice(packet.data.as_slice());
            assert(data@ =~= packet.data@);
            Ok(
                MediaPayload::EncodedPacket(
                    EncodedPacket {
                        codec: packet.codec,
                        timestamp: packet.timestamp,
                        duration: packet.duration,
                        is_keyframe: packet.is_keyframe,
                        data: MediaStorage::Pooled(data.freeze()),
                    },
                ),
            )
        },
        Some(WorkerMessage::EndOfStream) | None => Ok(MediaPayload::EndOfStream),
        Some(WorkerMessage::RecoverableError(message)) => Err(RuntimeError::Recoverable(message)),
        Some(WorkerMessage::Error(message)) => Err(RuntimeError::Source(message)),
    }
}

/// What a worker hands over arrives as it is, with every byte.
pub proof fn packets_arrive_as_they_are(payload: MediaPayload, packet: OwnedEncodedPacket)
    requires
        payload_holds(payload, packet),
    ensures
        payload matches MediaPayload::EncodedPacket(out) && out.data@ == packet.data@
            && out.codec@ == packet.codec@ && out.timestamp == packet.timestamp && out.duration
            == packet.duration && out.is_keyframe == packet.is_keyframe,
        media::payload_bytes(payload) == Some(packet.data@),
{
}

/// An input is a mock if and only if its name holds that word.
pub proof fn mocks_are_named_so(front: Seq<char>, back: Seq<char>, input: Seq<char>)
    ensures
        names_mock(front + "mock"@ + back),
        input.len() < 4 ==> !names_mock(input),
{
    reveal_strlit("mock");
    text::parts_of_a_text_are_found(front, "mock"@, back);
}

} // verus!
