//! The adapters that come with the library: where the media of a pipeline comes from,
//! and where it goes.

use std::sync::Arc;

use vstd::prelude::*;

use crate::compiler::{CompiledPipeline, ResolvedInputBackend};
use crate::error::RuntimeError;
use crate::ffmpeg::source::FfmpegSourceFactory;
use crate::frontend::OutputProfile;
use crate::linux_media::camera::LibcameraSourceFactory;
use crate::runtime::fanout::{self, DropPolicy};
use crate::string_map::StringMap;
use crate::text;

verus! {

/// How many payloads wait for a recorder that does not say it.
pub const DEFAULT_RECORDING_QUEUE_LIMIT: usize = 100;

/// How many payloads wait for a stream that does not say it.
pub const DEFAULT_WEBRTC_QUEUE_LIMIT: usize = 10;

/// The backends that a program was built with.
#[derive(Debug, Clone, Copy, PartialEq, Eq, Structural)]
pub struct Features {
    pub ffmpeg: bool,
    pub pi: bool,
    pub webrtc: bool,
}

/// The adapters of a program. Cameras, streams and recorders are known by what stands
/// for them.
#[derive(Debug)]
pub struct BuiltinAdapters<L, W, R> {
    pub features: Features,
    pub ffmpeg_source: Option<FfmpegSourceFactory>,
    pub libcamera_source: Option<LibcameraSourceFactory<L>>,
    /// For each pipeline that streams, where it streams to.
    pub webrtc_sinks: StringMap<W>,
    pub recording_packets: Option<R>,
}

/// Where the media of a pipeline comes from.
#[derive(Debug)]
pub enum SourceChoice<'a, L> {
    Ffmpeg(&'a FfmpegSourceFactory),
    Libcamera(&'a LibcameraSourceFactory<L>),
}

/// A place that the media of a pipeline goes to.
#[derive(Debug, Clone, Copy, PartialEq, Eq, Structural)]
pub enum SinkPlan {
    Recording { queue_limit: usize, drop_policy: DropPolicy },
    WebRtc { queue_limit: usize, drop_policy: DropPolicy },
}

/// How the sinks of a pipeline are put together.
#[derive(Debug, Clone, Copy, PartialEq, Eq, Structural)]
pub enum SinkLayout {
    /// There is none, and the media is dropped.
    Null,
    /// There is one, and it takes the media itself.
    Direct,
    /// There are several, and a router gives each its copy.
    Fanout,
}

/// The sink that an output asks for.
pub open spec fn sink_of(output: OutputProfile) -> SinkPlan {
    match output {
        OutputProfile::Recording { queue_limit, drop_policy } => SinkPlan::Recording {
            queue_limit: match queue_limit {
                Some(limit) => limit,
                None => DEFAULT_RECORDING_QUEUE_LIMIT,
            },
            drop_policy: fanout::runtime_policy(drop_policy),
        },
        OutputProfile::WebrtcRtp { queue_limit, drop_policy, .. } => SinkPlan::WebRtc {
            queue_limit: match queue_limit {
                Some(limit) => limit,
                None => DEFAULT_WEBRTC_QUEUE_LIMIT,
            },
            drop_policy: fanout::runtime_policy(drop_policy),
        },
    }
}

/// The sinks that outputs ask for.
pub open spec fn sinks_of(outputs: Seq<OutputProfile>) -> Seq<SinkPlan> {
    Seq::new(outputs.len(), |i: int| sink_of(outputs[i]))
}

/// Whether any of the outputs streams.
pub open spec fn streams(outputs: Seq<OutputProfile>) -> bool {
    exists|i: int| 0 <= i < outputs.len() && #[trigger] outputs[i] is WebrtcRtp
}

/// Why a pipeline has no sinks, if it has none: it streams, and cannot.
pub open spec fn sinks_failure(
    pipeline: CompiledPipeline,
    features: Features,
    has_stream: bool,
) -> Option<Seq<char>> {
    if !streams(pipeline.outputs@) {
        None
    } else if !features.webrtc {
        Some("webrtc feature is disabled"@)
    } else if !has_stream {
        Some("no webrtc sink configured for pipeline "@ + pipeline.id@)
    } else {
        None
    }
}

/// The layout of a number of sinks.
pub open spec fn layout_of(count: nat) -> SinkLayout {
    if count == 0 {
        SinkLayout::Null
    } else if count == 1 {
        SinkLayout::Direct
    } else {
        SinkLayout::Fanout
    }
}

/// Decides how sinks are put together.
pub fn sink_layout(sinks: &Vec<SinkPlan>) -> (r: SinkLayout)
    ensures
        r == layout_of(sinks@.len()),
{
    match sinks.len() {
        0 => SinkLayout::Null,
        1 => SinkLayout::Direct,
        _ => SinkLayout::Fanout,
    }
}

impl<L, W, R> Clone for BuiltinAdapters<Arc<L>, Arc<W>, Arc<R>> {
    /// Adapters that share the cameras, streams and recorders of these.
    fn clone(&self) -> (r: Self)
        ensures
            r.features == self.features,
            r.ffmpeg_source == self.ffmpeg_source,
            r.libcamera_source == self.libcamera_source,
            r.webrtc_sinks@ == self.webrtc_sinks@,
            r.recording_packets == self.recording_packets,
    {
        BuiltinAdapters {
            features: self.features,
            ffmpeg_source: self.ffmpeg_source,
            libcamera_source: match &self.libcamera_source {
                Some(factory) => Some(
                    LibcameraSourceFactory { provider_factory: Arc::clone(&factory.provider_factory) },
                ),
                None => None,
            },
            webrtc_sinks: self.webrtc_sinks.clone(),
            recording_packets: match &self.recording_packets {
                Some(packets) => Some(Arc::clone(packets)),
                None => None,
            },
        }
    }
}

impl<L, W, R> BuiltinAdapters<L, W, R> {
    /// No adapters yet.
    pub fn new(features: Features) -> (r: Self)
        ensures
            r.features == features,
            r.ffmpeg_source is None,
            r.libcamera_source is None,
            r.webrtc_sinks@ == Map::<Seq<char>, W>::empty(),
            r.recording_packets is None,
    {
        BuiltinAdapters {
            features,
            ffmpeg_source: None,
            libcamera_source: None,
            webrtc_sinks: StringMap::new(),
            recording_packets: None,
        }
    }

    /// Decides where the media of a pipeline comes from.
    pub fn plan_source(&self, pipeline: &CompiledPipeline) -> (r: Result<
        SourceChoice<'_, L>,
        RuntimeError,
    >)
        ensures
            if pipeline.resolved_backend == ResolvedInputBackend::LibcameraDevice {
                if !self.features.pi {
                    r matches Err(RuntimeError::Adapter(message)) && message@
                        == "pi feature is disabled"@
                } else {
                    match self.libcamera_source {
                        Some(factory) => r matches Ok(SourceChoice::Libcamera(choice)) && *choice
                            == factory,
                        None => r matches Err(RuntimeError::Adapter(message)) && message@
                            == "libcamera provider factory not configured"@,
                    }
                }
            } else if !self.features.ffmpeg {
                r matches Err(RuntimeError::Adapter(message)) && message@
                    == "ffmpeg feature is disabled"@
            } else {
                match self.ffmpeg_source {
                    Some(factory) => r matches Ok(SourceChoice::Ffmpeg(choice)) && *choice
                        == factory,
                    None => r matches Err(RuntimeError::Adapter(message)) && message@
                        == "ffmpeg source factory not configured"@,
                }
            },
    {
        match pipeline.resolved_backend {
            ResolvedInputBackend::FfmpegRtsp
            | ResolvedInputBackend::AutoDevice
            | ResolvedInputBackend::V4l2Device => {
                if !self.features.ffmpeg {
                    return Err(RuntimeError::adapter("ffmpeg feature is disabled"));
                }
                match &self.ffmpeg_source {
                    Some(factory) => Ok(SourceChoice::Ffmpeg(factory)),
                    None => Err(RuntimeError::adapter("ffmpeg source factory not configured")),
                }
            },
            ResolvedInputBackend::LibcameraDevice => {
                if !self.features.pi {
                    return Err(RuntimeError::adapter("pi feature is disabled"));
                }
                match &self.libcamera_source {
                    Some(factory) => Ok(SourceChoice::Libcamera(factory)),
                    None => Err(RuntimeError::adapter("libcamera provider factory not configured")),
                }
            },
        }
    }

    /// Decides where the media of a pipeline goes, one sink for each output.
    pub fn plan_sinks(&self, pipeline: &CompiledPipeline) -> (r: Result<
        Vec<SinkPlan>,
        RuntimeError,
    >)
        ensures
            match sinks_failure(
                *pipeline,
                self.features,
                self.webrtc_sinks@.dom().contains(pipeline.id@),
            ) {
                None => r matches Ok(sinks) && sinks@ == sinks_of(pipeline.outputs@),
                Some(message) => r matches Err(RuntimeError::Adapter(text)) && text@ == message,
            },
    {
        let mut sinks: Vec<SinkPlan> = Vec::new();
        let mut i: usize = 0;
        while i < pipeline.outputs.len()
            invariant
                i <= pipeline.outputs@.len(),
                sinks@ == sinks_of(pipeline.outputs@).take(i as int),
                forall|k: int|
                    0 <= k < i && #[trigger] pipeline.outputs@[k] is WebrtcRtp
                        ==> self.features.webrtc && self.webrtc_sinks@.dom().contains(pipeline.id@),
            decreases pipeline.outputs@.len() - i,
        {
            match &pipeline.outputs[i] {
                OutputProfile::Recording { queue_limit, drop_policy } => {
                    let queue_limit: usize = match queue_limit {
                        Some(limit) => *limit,
                        None => DEFAULT_RECORDING_QUEUE_LIMIT,
                    };
                    sinks.push(
                        SinkPlan::Recording {
                            queue_limit,
                            drop_policy: fanout::frontend_to_runtime_drop_policy(*drop_policy),
                        },
                    );
                },
                OutputProfile::WebrtcRtp { queue_limit, drop_policy, .. } => {
                    assert(pipeline.outputs@[i as int] is WebrtcRtp);
                    if !self.features.webrtc {
                        return Err(RuntimeError::adapter("webrtc feature is disabled"));
                    }
                    if !self.webrtc_sinks.contains_key(pipeline.id.as_str()) {
                        return Err(
                            RuntimeError::Adapter(
                                text::join2(
                                    "no webrtc sink configured for pipeline ",
                                    pipeline.id.as_str(),
                                ),
                            ),
                        );
                    }
                    let queue_limit: usize = match queue_limit {
                        Some(limit) => *limit,
                        None => DEFAULT_WEBRTC_QUEUE_LIMIT,
                    };
                    sinks.push(
                        SinkPlan::WebRtc {
                            queue_limit,
                            drop_policy: fanout::frontend_to_runtime_drop_policy(*drop_policy),
                        },
                    );
                },
            }
            assert(sinks@ =~= sinks_of(pipeline.outputs@).take(i + 1));
            i += 1;
        }
        assert(sinks@ =~= sinks_of(pipeline.outputs@));
        Ok(sinks)
    }
}

// ---------------------------------------------------------------------------
// Laws
// ---------------------------------------------------------------------------

/// A pipeline that does not stream needs nothing for its sinks.
pub proof fn recorders_need_no_stream(pipeline: CompiledPipeline, features: Features)
    requires
        forall|i: int|
            0 <= i < pipeline.outputs@.len() ==> !(#[trigger] pipeline.outputs@[i] is WebrtcRtp),
    ensures
        sinks_failure(pipeline, features, false) is None,
{
}

/// A router is used only where there is more than one sink to route to.
pub proof fn routers_have_several_sinks(outputs: Seq<OutputProfile>)
    ensures
        layout_of(sinks_of(outputs).len()) == SinkLayout::Fanout <==> outputs.len() > 1,
        layout_of(sinks_of(outputs).len()) == SinkLayout::Null <==> outputs.len() == 0,
{
}

/// Each output gets a sink of its own kind in its own place, with the queue that it sets:
/// where it sets none, a recorder keeps a hundred frames and a stream ten.
pub proof fn outputs_get_their_sinks(outputs: Seq<OutputProfile>, at: int)
    requires
        0 <= at < outputs.len(),
    ensures
        sinks_of(outputs).len() == outputs.len(),
        match outputs[at] {
            OutputProfile::Recording { queue_limit: asked, drop_policy: policy } => {
                &&& sinks_of(outputs)[at] matches SinkPlan::Recording { queue_limit, drop_policy }
                &&& (asked matches Some(limit) ==> queue_limit == limit)
                &&& (asked is None ==> queue_limit == 100)
                &&& drop_policy == fanout::runtime_policy(policy)
            },
            OutputProfile::WebrtcRtp { queue_limit: asked, drop_policy: policy, .. } => {
                &&& sinks_of(outputs)[at] matches SinkPlan::WebRtc { queue_limit, drop_policy }
                &&& (asked matches Some(limit) ==> queue_limit == limit)
                &&& (asked is None ==> queue_limit == 10)
                &&& drop_policy == fanout::runtime_policy(policy)
            },
        },
{
}

/// A pipeline gets its sinks unless it streams and the program cannot, or has nothing to
/// stream to.
pub proof fn streams_need_somewhere_to_go(
    pipeline: CompiledPipeline,
    features: Features,
    has_stream: bool,
)
    ensures
        sinks_failure(pipeline, features, has_stream) is Some <==> (!features.webrtc
            || !has_stream) && exists|i: int|
            0 <= i < pipeline.outputs@.len() && #[trigger] pipeline.outputs@[i] is WebrtcRtp,
{
}

/// A pipeline gets one sink for each of its outputs, of its kind and in its place, unless it
/// streams and cannot.
pub proof fn sinks_are_planned_for_their_outputs<L, W, R>(
    adapters: &BuiltinAdapters<L, W, R>,
    pipeline: &CompiledPipeline,
    sinks: Result<Vec<SinkPlan>, RuntimeError>,
    at: int,
)
    requires
        call_ensures(BuiltinAdapters::<L, W, R>::plan_sinks, (adapters, pipeline), sinks),
        0 <= at < pipeline.outputs@.len(),
    ensures
        sinks is Err <==> streams(pipeline.outputs@) && (!adapters.features.webrtc
            || !adapters.webrtc_sinks@.dom().contains(pipeline.id@)),
        sinks matches Ok(sinks) ==> {
            &&& sinks@.len() == pipeline.outputs@.len()
            &&& sinks@[at] is WebRtc <==> pipeline.outputs@[at] is WebrtcRtp
        },
{
    outputs_get_their_sinks(pipeline.outputs@, at);
}

} // verus!
