//! The configuration of a WebRTC sink.

use std::collections::hash_map::DefaultHasher;
use std::hash::Hasher;

use vstd::prelude::*;
use vstd::std_specs::hash::DefaultHasherAdditionalSpecFns;

use crate::capability::{self, HostCapabilities, StaticCapabilityProbe};
use crate::compiler::{CompiledPipeline, CompiledProcessingProfile};
use crate::error::RuntimeError;
use crate::frontend::{self, OutputProfile};
use crate::overlay;
use crate::runtime::fanout::{self, DropPolicy};
use crate::text;
use crate::time::{Duration, MAX_NANOS};

verus! {

pub const DEFAULT_PACKET_SIZE_LIMIT: usize = 1200;

pub const DEFAULT_QUEUE_LIMIT: usize = 10;

pub const H264_PAYLOAD_TYPE: u8 = 102;

pub const VIDEO_CLOCK_RATE: u32 = 90_000;

/// The bytes of an RTP header.
pub const RTP_HEADER_SIZE: usize = 12;

/// The length of a frame that says nothing of it, in nanoseconds.
pub const DEFAULT_FRAME_NANOS: u64 = 33_000_000;

/// How late a frame may be at least, in nanoseconds.
pub const MIN_LATENESS_NANOS: u64 = 50_000_000;

/// How a WebRTC sink sends.
#[derive(Debug, PartialEq, Eq)]
pub struct WebRtcSenderConfig {
    pub pipeline_id: String,
    pub packet_size_limit: usize,
    pub default_frame_duration: Option<Duration>,
    pub codec: String,
    pub payload_type: u8,
    pub ssrc: u32,
    pub clock_rate: u32,
    pub lateness_budget: Duration,
}

/// A WebRTC sink: how it sends, and how its queue behaves.
#[derive(Debug, PartialEq, Eq)]
pub struct WebRtcSinkConfig {
    pub sender: WebRtcSenderConfig,
    pub queue_limit: usize,
    pub drop_policy: DropPolicy,
}

/// What a build with WebRTC adds to the host: RTP packetization, and nothing else.
pub fn webrtc_capabilities() -> (r: StaticCapabilityProbe)
    ensures
        r.capabilities == (HostCapabilities {
            rtp_packetization_available: true,
            ..capability::no_capabilities()
        }),
{
    let mut host = HostCapabilities::default();
    host.rtp_packetization_available = true;
    StaticCapabilityProbe::new(host)
}

// ---------------------------------------------------------------------------
// What the configuration is
// ---------------------------------------------------------------------------

/// What the standard hasher makes of a text: its bytes, then one that no text holds, cut
/// to 32 bits.
pub open spec fn ssrc_of(id: Seq<char>) -> u32 {
    #[verifier::truncate]
    (DefaultHasher::spec_finish(seq![vstd::utf8::encode_utf8(id), seq![0xFFu8]]) as u32)
}

/// What an output that streams sets.
#[derive(Debug, PartialEq, Eq)]
pub struct StreamSettings {
    pub codec: Option<String>,
    pub payload_type: Option<u8>,
    pub mtu: Option<usize>,
    pub ssrc: Option<String>,
    pub clock_rate: Option<u32>,
    pub queue_limit: Option<usize>,
    pub drop_policy: frontend::DropPolicy,
}

/// What the first output that streams sets; where there is none, nothing is set.
pub open spec fn stream_settings(outputs: Seq<OutputProfile>) -> StreamSettings
    decreases outputs.len(),
{
    if outputs.len() == 0 {
        StreamSettings {
            codec: None,
            payload_type: None,
            mtu: None,
            ssrc: None,
            clock_rate: None,
            queue_limit: None,
            drop_policy: frontend::DropPolicy::Block,
        }
    } else {
        match outputs[0] {
            OutputProfile::WebrtcRtp {
                codec,
                payload_type,
                mtu,
                ssrc,
                clock_rate,
                queue_limit,
                drop_policy,
            } => StreamSettings {
                codec,
                payload_type,
                mtu,
                ssrc,
                clock_rate,
                queue_limit,
                drop_policy,
            },
            OutputProfile::Recording { .. } => stream_settings(outputs.drop_first()),
        }
    }
}

/// The source identifier that a setting names: a number as it is, any other text by its
/// hash, and the name of the pipeline where the setting is `stable` or missing.
pub open spec fn ssrc_for(setting: Option<String>, id: Seq<char>) -> u32 {
    match setting {
        None => ssrc_of(id),
        Some(name) => if name@ == "stable"@ {
            ssrc_of(id)
        } else {
            match text::unsigned_value(name@, u32::MAX as nat) {
                Some(number) => number as u32,
                None => ssrc_of(name@),
            }
        },
    }
}

/// The largest packet of a sink: what the output says, or else the network, or else the
/// default.
pub open spec fn packet_limit_for(setting: Option<usize>, pipeline: CompiledPipeline) -> usize {
    match (setting, pipeline.network) {
        (Some(mtu), _) => mtu,
        (None, Some(profile)) => profile.packet_size_limit,
        (None, None) => DEFAULT_PACKET_SIZE_LIMIT,
    }
}

/// The length of a frame at the rate of a profile, in nanoseconds.
pub open spec fn frame_nanos_of(processing: Option<CompiledProcessingProfile>) -> Option<nat> {
    match processing {
        Some(profile) => if profile.frame_rate == 0 {
            None
        } else {
            Some(1_000_000_000nat / profile.frame_rate as nat)
        },
        None => None,
    }
}

/// The length of an optional span.
pub open spec fn nanos_of(span: Option<Duration>) -> Option<nat> {
    match span {
        Some(span) => Some(span@),
        None => None,
    }
}

/// How late a frame may be: two frames, and no less than the minimum.
pub open spec fn budget_nanos(default_frame: Option<nat>) -> nat {
    let frame = match default_frame {
        Some(nanos) => nanos,
        None => DEFAULT_FRAME_NANOS as nat,
    };
    if 2 * frame > MAX_NANOS {
        MAX_NANOS as nat
    } else if 2 * frame < MIN_LATENESS_NANOS {
        MIN_LATENESS_NANOS as nat
    } else {
        2 * frame
    }
}

/// Why a sink cannot be built.
pub open spec fn sink_failure(pipeline: CompiledPipeline) -> Option<Seq<char>> {
    let settings = stream_settings(pipeline.outputs@);
    let limit = packet_limit_for(settings.mtu, pipeline);
    if settings.queue_limit == Some(0usize) {
        Some("pipeline '"@ + pipeline.id@ + "' queue_limit must be at least 1 for WebRTC output"@)
    } else if limit <= RTP_HEADER_SIZE {
        Some(
            "pipeline '"@ + pipeline.id@ + "' packet_size_limit "@ + text::decimal(limit as nat)
                + " is too small for RTP output"@,
        )
    } else {
        None
    }
}

/// Whether a configuration is the one for a pipeline.
pub open spec fn is_config_for(config: WebRtcSinkConfig, pipeline: CompiledPipeline) -> bool {
    let settings = stream_settings(pipeline.outputs@);
    let sender = config.sender;
    &&& sender.pipeline_id@ == pipeline.id@
    &&& sender.packet_size_limit == packet_limit_for(settings.mtu, pipeline)
    &&& nanos_of(sender.default_frame_duration) == frame_nanos_of(pipeline.processing)
    &&& sender.codec@ == overlay::text_or(settings.codec, "h264"@)
    &&& sender.payload_type == overlay::value_or(settings.payload_type, H264_PAYLOAD_TYPE)
    &&& sender.ssrc == ssrc_for(settings.ssrc, pipeline.id@)
    &&& sender.clock_rate == overlay::value_or(settings.clock_rate, VIDEO_CLOCK_RATE)
    &&& sender.lateness_budget@ == budget_nanos(frame_nanos_of(pipeline.processing))
    &&& config.queue_limit == overlay::value_or(settings.queue_limit, DEFAULT_QUEUE_LIMIT)
    &&& config.drop_policy == fanout::runtime_policy(settings.drop_policy)
}

// ---------------------------------------------------------------------------
// Building it
// ---------------------------------------------------------------------------

/// A source identifier that stays the same for the same name.
pub fn stable_ssrc(pipeline_id: &str) -> (r: u32)
    ensures
        r == ssrc_of(pipeline_id@),
{
    let mut hasher = DefaultHasher::new();
    hasher.write(pipeline_id.as_bytes());
    let end: [u8; 1] = [0xFF];
    hasher.write(end.as_slice());
    proof {
        assert(end@ =~= seq![0xFFu8]);
        assert(hasher@ =~= seq![vstd::utf8::encode_utf8(pipeline_id@), seq![0xFFu8]]);
    }
    let hash: u64 = hasher.finish();
    #[verifier::truncate]
    (hash as u32)
}

/// The source identifier that a setting names.
pub fn resolve_ssrc(setting: &Option<String>, pipeline_id: &str) -> (r: u32)
    ensures
        r == ssrc_for(*setting, pipeline_id@),
{
    match setting {
        None => stable_ssrc(pipeline_id),
        Some(name) => {
            if text::same(name.as_str(), "stable") {
                return stable_ssrc(pipeline_id);
            }
            match text::parse_unsigned(name.as_str(), u32::MAX as u64) {
                Some(number) => number as u32,
                None => stable_ssrc(name.as_str()),
            }
        },
    }
}

/// How late a frame may be.
pub fn lateness_budget(default_frame_duration: Option<Duration>) -> (r: Duration)
    ensures
        r@ == budget_nanos(nanos_of(default_frame_duration)),
{
    let baseline = match default_frame_duration {
        Some(span) => span,
        None => Duration::from_nanos(DEFAULT_FRAME_NANOS),
    };
    let doubled = Duration::saturating_from_nanos(2 * baseline.as_nanos());
    let least = Duration::from_nanos(MIN_LATENESS_NANOS);
    if least.exceeds(&doubled) {
        least
    } else {
        doubled
    }
}

/// The length of a frame at the rate of a profile.
fn default_frame_duration_of(processing: &Option<CompiledProcessingProfile>) -> (r: Option<
    Duration,
>)
    ensures
        nanos_of(r) == frame_nanos_of(*processing),
{
    match processing {
        Some(profile) => {
            if profile.frame_rate == 0 {
                None
            } else {
                Some(Duration::from_nanos(1_000_000_000u64 / profile.frame_rate as u64))
            }
        },
        None => None,
    }
}

/// What the first output that streams sets; where there is none, nothing is set.
pub fn settings_of_stream(outputs: &Vec<OutputProfile>) -> (r: StreamSettings)
    ensures
        r == stream_settings(outputs@),
{
    let mut i: usize = 0;
    assert(outputs@.skip(0) == outputs@);
    while i < outputs.len()
        invariant
            i <= outputs@.len(),
            stream_settings(outputs@) == stream_settings(outputs@.skip(i as int)),
        decreases outputs@.len() - i,
    {
        assert(outputs@.skip(i as int)[0] == outputs@[i as int]);
        assert(outputs@.skip(i as int).drop_first() == outputs@.skip(i + 1));
        match &outputs[i] {
            OutputProfile::WebrtcRtp {
                codec,
                payload_type,
                mtu,
                ssrc,
                clock_rate,
                queue_limit,
                drop_policy,
            } => {
                return StreamSettings {
                    codec: codec.clone(),
                    payload_type: *payload_type,
                    mtu: *mtu,
                    ssrc: ssrc.clone(),
                    clock_rate: *clock_rate,
                    queue_limit: *queue_limit,
                    drop_policy: *drop_policy,
                };
            },
            OutputProfile::Recording { .. } => {},
        }
        i += 1;
    }
    StreamSettings {
        codec: None,
        payload_type: None,
        mtu: None,
        ssrc: None,
        clock_rate: None,
        queue_limit: None,
        drop_policy: frontend::DropPolicy::Block,
    }
}

/// The configuration of the sink of a pipeline.
pub fn sink_config_for_pipeline(pipeline: &CompiledPipeline) -> (r: Result<
    WebRtcSinkConfig,
    RuntimeError,
>)
    ensures
        match r {
            Ok(config) => sink_failure(*pipeline) is None && is_config_for(config, *pipeline),
            Err(error) => error matches RuntimeError::Sink(message) && sink_failure(*pipeline)
                == Some(message@),
        },
{
    let settings = settings_of_stream(&pipeline.outputs);
    let packet_size_limit: usize = match settings.mtu {
        Some(mtu) => mtu,
        None => match &pipeline.network {
            Some(profile) => profile.packet_size_limit,
            None => DEFAULT_PACKET_SIZE_LIMIT,
        },
    };
    let queue_limit: usize = settings.queue_limit.unwrap_or(DEFAULT_QUEUE_LIMIT);
    if queue_limit == 0 {
        return Err(
            RuntimeError::Sink(
                text::join3(
                    "pipeline '",
                    pipeline.id.as_str(),
                    "' queue_limit must be at least 1 for WebRTC output",
                ),
            ),
        );
    }
    if packet_size_limit <= RTP_HEADER_SIZE {
        return Err(
            RuntimeError::Sink(
                text::join5(
                    "pipeline '",
                    pipeline.id.as_str(),
                    "' packet_size_limit ",
                    text::decimal_string(packet_size_limit as u64).as_str(),
                    " is too small for RTP output",
                ),
            ),
        );
    }
    let default_frame_duration = default_frame_duration_of(&pipeline.processing);
    let ssrc: u32 = resolve_ssrc(&settings.ssrc, pipeline.id.as_str());
    let codec = match settings.codec {
        Some(codec) => codec,
        None => "h264".to_owned(),
    };
    Ok(
        WebRtcSinkConfig {
            sender: WebRtcSenderConfig {
                pipeline_id: pipeline.id.clone(),
                packet_size_limit,
                default_frame_duration,
                codec,
                payload_type: settings.payload_type.unwrap_or(H264_PAYLOAD_TYPE),
                ssrc,
                clock_rate: settings.clock_rate.unwrap_or(VIDEO_CLOCK_RATE),
                lateness_budget: lateness_budget(default_frame_duration),
            },
            queue_limit,
            drop_policy: fanout::frontend_to_runtime_drop_policy(settings.drop_policy),
        },
    )
}

// ---------------------------------------------------------------------------
// Laws
// ---------------------------------------------------------------------------

/// A sink that is built has room in its queue for a frame, and in its packets for more
/// than a header.
pub proof fn built_sinks_can_send(config: WebRtcSinkConfig, pipeline: CompiledPipeline)
    requires
        sink_failure(pipeline) is None,
        is_config_for(config, pipeline),
    ensures
        config.queue_limit >= 1,
        config.sender.packet_size_limit > RTP_HEADER_SIZE,
{
}

/// Pipelines without settings of their own have the source identifier of their name.
pub proof fn unset_sources_follow_the_name(config: WebRtcSinkConfig, pipeline: CompiledPipeline)
    requires
        is_config_for(config, pipeline),
        stream_settings(pipeline.outputs@).ssrc is None,
    ensures
        config.sender.ssrc == ssrc_of(pipeline.id@),
{
}

proof fn lemma_recordings_set_nothing(recordings: Seq<OutputProfile>, rest: Seq<OutputProfile>)
    requires
        forall|i: int| 0 <= i < recordings.len() ==> #[trigger] recordings[i] is Recording,
    ensures
        stream_settings(recordings + rest) == stream_settings(rest),
    decreases recordings.len(),
{
    if recordings.len() == 0 {
        assert(recordings + rest == rest);
    } else {
        let fewer = recordings.drop_first();
        assert forall|i: int| 0 <= i < fewer.len() implies #[trigger] fewer[i] is Recording by {
            assert(fewer[i] == recordings[i + 1]);
        }
        lemma_recordings_set_nothing(fewer, rest);
        assert((recordings + rest).drop_first() == fewer + rest);
        assert((recordings + rest)[0] == recordings[0]);
    }
}

/// The first output that streams decides: recordings in front of it, and whatever comes
/// behind it, set nothing. Without such an output nothing is set.
pub proof fn the_first_stream_decides(
    recordings: Seq<OutputProfile>,
    stream: OutputProfile,
    rest: Seq<OutputProfile>,
)
    requires
        forall|i: int| 0 <= i < recordings.len() ==> #[trigger] recordings[i] is Recording,
        stream is WebrtcRtp,
    ensures
        ({
            let settings = stream_settings(recordings + seq![stream] + rest);
            stream matches OutputProfile::WebrtcRtp {
                codec,
                payload_type,
                mtu,
                ssrc,
                clock_rate,
                queue_limit,
                drop_policy,
            } && settings.codec == codec && settings.payload_type == payload_type && settings.mtu
                == mtu && settings.ssrc == ssrc && settings.clock_rate == clock_rate
                && settings.queue_limit == queue_limit && settings.drop_policy == drop_policy
        }),
        ({
            let settings = stream_settings(recordings);
            &&& settings.codec is None && settings.payload_type is None && settings.mtu is None
            &&& settings.ssrc is None && settings.clock_rate is None
            &&& settings.queue_limit is None
            &&& settings.drop_policy == frontend::DropPolicy::Block
        }),
{
    assert(recordings + seq![stream] + rest == recordings + (seq![stream] + rest));
    lemma_recordings_set_nothing(recordings, seq![stream] + rest);
    assert((seq![stream] + rest)[0] == stream);
    lemma_recordings_set_nothing(recordings, Seq::empty());
    assert(recordings + Seq::<OutputProfile>::empty() == recordings);
}

/// A sink does what its stream sets. What that leaves open is the usual: packets as large
/// as those of the network or else of 1200 bytes, H.264 under the payload type 102 at
/// 90 kHz, and a queue of ten frames.
pub proof fn sinks_do_what_is_set(config: WebRtcSinkConfig, pipeline: CompiledPipeline)
    requires
        is_config_for(config, pipeline),
    ensures
        ({
            let set = stream_settings(pipeline.outputs@);
            let sender = config.sender;
            &&& sender.pipeline_id@ == pipeline.id@
            &&& (set.mtu matches Some(mtu) ==> sender.packet_size_limit == mtu)
            &&& (set.mtu is None ==> (pipeline.network matches Some(network)
                ==> sender.packet_size_limit == network.packet_size_limit))
            &&& (set.mtu is None && pipeline.network is None ==> sender.packet_size_limit == 1200)
            &&& (set.codec matches Some(codec) ==> sender.codec@ == codec@)
            &&& (set.codec is None ==> sender.codec@ == "h264"@)
            &&& (set.payload_type matches Some(number) ==> sender.payload_type == number)
            &&& (set.payload_type is None ==> sender.payload_type == 102)
            &&& (set.clock_rate matches Some(rate) ==> sender.clock_rate == rate)
            &&& (set.clock_rate is None ==> sender.clock_rate == 90_000)
            &&& (set.queue_limit matches Some(limit) ==> config.queue_limit == limit)
            &&& (set.queue_limit is None ==> config.queue_limit == 10)
            &&& config.drop_policy == (match set.drop_policy {
                frontend::DropPolicy::Block => DropPolicy::Block,
                frontend::DropPolicy::DropOldest => DropPolicy::DropOldest,
                frontend::DropPolicy::DropNewest => DropPolicy::DropNewest,
            })
        }),
{
}

/// A sink is refused if and only if its queue has no room for a frame, or its packets have
/// none behind the twelve bytes of their header.
pub proof fn sinks_without_room_are_refused(pipeline: CompiledPipeline)
    ensures
        ({
            let set = stream_settings(pipeline.outputs@);
            let largest: int = if set.mtu is Some {
                set.mtu->0 as int
            } else if pipeline.network is Some {
                pipeline.network->0.packet_size_limit as int
            } else {
                1200
            };
            sink_failure(pipeline) is Some <==> (set.queue_limit matches Some(limit) && limit < 1)
                || largest < 13
        }),
{
}

/// A source identifier that is written as a number is that number, as long as it has 32
/// bits; the word `stable` means the same as none.
pub proof fn numbers_are_taken_for_sources(setting: String, n: u32, id: Seq<char>)
    ensures
        setting@ == text::decimal(n as nat) ==> ssrc_for(Some(setting), id) == n,
        setting@ == "stable"@ ==> ssrc_for(Some(setting), id) == ssrc_for(None, id),
        !(setting@ == "stable"@) && (exists|i: int|
            1 <= i < setting@.len() && !text::is_digit(#[trigger] setting@[i])) ==> ssrc_for(
            Some(setting),
            id,
        ) == ssrc_for(None, setting@),
{
    text::unsigned_numbers_read_back(n as nat, u32::MAX as nat);
    text::decimals_read_back(n as nat);
    reveal_strlit("stable");
    assert("stable"@[0] == 's');
    assert(text::is_digit(text::decimal(n as nat)[0]));
    text::other_texts_are_no_numbers(setting@, u32::MAX as nat);
}

/// A frame may be late by twice its usual length, and always by 50 milliseconds. The usual
/// length is what the frame rate leaves for each frame of a second, cut to nanoseconds.
pub proof fn late_frames_get_two_frames_of_grace(
    config: WebRtcSinkConfig,
    pipeline: CompiledPipeline,
)
    requires
        is_config_for(config, pipeline),
    ensures
        ({
            let budget = config.sender.lateness_budget@;
            &&& budget >= 50_000_000
            &&& match config.sender.default_frame_duration {
                Some(frame) => {
                    let rate = pipeline.processing->0.frame_rate;
                    &&& pipeline.processing is Some
                    &&& rate > 0
                    &&& frame@ * rate <= 1_000_000_000 < (frame@ + 1) * rate
                    &&& budget >= 2 * frame@
                    &&& budget == 2 * frame@ || budget == 50_000_000
                },
                None => {
                    &&& pipeline.processing matches Some(processing) ==> processing.frame_rate == 0
                    &&& budget == 66_000_000
                },
            }
        }),
{
    if let Some(processing) = pipeline.processing {
        let rate = processing.frame_rate as int;
        if rate > 0 {
            let frame = 1_000_000_000int / rate;
            assert(frame * rate <= 1_000_000_000 < (frame + 1) * rate && frame <= 1_000_000_000)
                by (nonlinear_arith)
                requires
                    rate > 0,
                    frame == 1_000_000_000int / rate,
            ;
        }
    }
}

/// A late frame is given twice the usual length of a frame, and at least 50 milliseconds.
pub proof fn budgets_are_two_frames(frame: Option<Duration>, budget: Duration)
    requires
        call_ensures(lateness_budget, (frame,), budget),
        frame matches Some(frame) ==> 2 * frame@ <= MAX_NANOS,
    ensures
        budget@ >= 50_000_000,
        frame matches Some(frame) ==> budget@ >= 2 * frame@ && (budget@ == 2 * frame@ || budget@
            == 50_000_000),
        frame is None ==> budget@ == 66_000_000,
{
}

/// A sink is built for a pipeline unless it has no room, and does what the pipeline sets.
pub proof fn sinks_are_built_as_set(
    pipeline: &CompiledPipeline,
    r: Result<WebRtcSinkConfig, RuntimeError>,
)
    requires
        call_ensures(sink_config_for_pipeline, (pipeline,), r),
    ensures
        r is Err <==> (stream_settings(pipeline.outputs@).queue_limit matches Some(limit) && limit
            < 1) || packet_limit_for(stream_settings(pipeline.outputs@).mtu, *pipeline) < 13,
        r matches Ok(config) ==> {
            let set = stream_settings(pipeline.outputs@);
            &&& config.sender.pipeline_id@ == pipeline.id@
            &&& (set.mtu matches Some(mtu) ==> config.sender.packet_size_limit == mtu)
            &&& (set.payload_type matches Some(number) ==> config.sender.payload_type == number)
            &&& (set.clock_rate matches Some(rate) ==> config.sender.clock_rate == rate)
            &&& (set.clock_rate is None ==> config.sender.clock_rate == 90_000)
            &&& (set.queue_limit matches Some(limit) ==> config.queue_limit == limit)
            &&& (set.queue_limit is None ==> config.queue_limit == 10)
            &&& config.sender.lateness_budget@ >= 50_000_000
        },
{
    if let Ok(config) = r {
        sinks_do_what_is_set(config, *pipeline);
        late_frames_get_two_frames_of_grace(config, *pipeline);
    }
}

} // verus!
