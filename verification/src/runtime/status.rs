//! The status of pipelines, and the events that report it.

use vstd::prelude::*;

use crate::compiler::{CodecPath, CompiledGraph, CompiledPipeline, ResolvedInputBackend};
use crate::string_map::StringMap;

verus! {

/// What a pipeline is doing.
#[derive(Debug, Clone, Copy, PartialEq, Eq, Structural)]
pub enum TaskStatus {
    Spawning,
    Running,
    Stalled,
    Recovering,
    Stopped,
    Failed,
}

/// Something that happened to a pipeline.
#[derive(Debug, Clone, PartialEq, Eq)]
pub enum RuntimeEvent {
    StatusChanged { pipeline_id: String, status: TaskStatus, message: Option<String> },
    BackendStarted { pipeline_id: String, codec_path: String, backend_name: String },
}

/// What an event says, with its texts as characters.
pub enum EventText {
    StatusChanged { pipeline_id: Seq<char>, status: TaskStatus, message: Option<Seq<char>> },
    BackendStarted { pipeline_id: Seq<char>, codec_path: Seq<char>, backend_name: Seq<char> },
}

impl View for RuntimeEvent {
    type V = EventText;

    open spec fn view(&self) -> EventText {
        match self {
            RuntimeEvent::StatusChanged { pipeline_id, status, message } =>
                EventText::StatusChanged {
                pipeline_id: pipeline_id@,
                status: *status,
                message: match message {
                    Some(message) => Some(message@),
                    None => None,
                },
            },
            RuntimeEvent::BackendStarted { pipeline_id, codec_path, backend_name } =>
                EventText::BackendStarted {
                pipeline_id: pipeline_id@,
                codec_path: codec_path@,
                backend_name: backend_name@,
            },
        }
    }
}

/// What a number of events say.
pub open spec fn event_texts(events: Seq<RuntimeEvent>) -> Seq<EventText> {
    Seq::new(events.len(), |i: int| events[i]@)
}

/// The event that reports a status.
pub open spec fn status_event(
    id: Seq<char>,
    status: TaskStatus,
    message: Option<Seq<char>>,
) -> EventText {
    EventText::StatusChanged { pipeline_id: id, status, message }
}

/// The name of a codec path.
pub open spec fn codec_path_text(path: CodecPath) -> Seq<char> {
    match path {
        CodecPath::Passthrough => "Passthrough"@,
        CodecPath::SoftwareTranscode => "SoftwareTranscode"@,
        CodecPath::HardwareTranscode => "HardwareTranscode"@,
        CodecPath::HardwareDecode => "HardwareDecode"@,
    }
}

/// The name of a backend.
pub open spec fn backend_text(backend: ResolvedInputBackend) -> Seq<char> {
    match backend {
        ResolvedInputBackend::FfmpegRtsp => "FfmpegRtsp"@,
        ResolvedInputBackend::V4l2Device => "V4l2Device"@,
        ResolvedInputBackend::LibcameraDevice => "LibcameraDevice"@,
        ResolvedInputBackend::AutoDevice => "AutoDevice"@,
    }
}

/// The name of a codec path.
pub fn codec_path_name(path: CodecPath) -> (r: &'static str)
    ensures
        r@ == codec_path_text(path),
{
    match path {
        CodecPath::Passthrough => "Passthrough",
        CodecPath::SoftwareTranscode => "SoftwareTranscode",
        CodecPath::HardwareTranscode => "HardwareTranscode",
        CodecPath::HardwareDecode => "HardwareDecode",
    }
}

/// The name of a backend.
pub fn backend_name(backend: ResolvedInputBackend) -> (r: &'static str)
    ensures
        r@ == backend_text(backend),
{
    match backend {
        ResolvedInputBackend::FfmpegRtsp => "FfmpegRtsp",
        ResolvedInputBackend::V4l2Device => "V4l2Device",
        ResolvedInputBackend::LibcameraDevice => "LibcameraDevice",
        ResolvedInputBackend::AutoDevice => "AutoDevice",
    }
}

/// The event that reports a status.
pub fn status_changed(pipeline_id: &str, status: TaskStatus, message: Option<String>) -> (r:
    RuntimeEvent)
    ensures
        r@ == status_event(pipeline_id@, status, crate::frontend::text_of(message)),
{
    RuntimeEvent::StatusChanged { pipeline_id: pipeline_id.to_owned(), status, message }
}

/// The event that reports which backend a pipeline has started.
pub fn backend_started(pipeline: &CompiledPipeline) -> (r: RuntimeEvent)
    ensures
        r@ == (EventText::BackendStarted {
            pipeline_id: pipeline.id@,
            codec_path: codec_path_text(pipeline.codec_path),
            backend_name: backend_text(pipeline.resolved_backend),
        }),
{
    RuntimeEvent::BackendStarted {
        pipeline_id: pipeline.id.clone(),
        codec_path: codec_path_name(pipeline.codec_path).to_owned(),
        backend_name: backend_name(pipeline.resolved_backend).to_owned(),
    }
}

/// The status of all pipelines.
#[derive(Debug, PartialEq, Eq)]
pub struct RuntimeStatus {
    pub pipelines: StringMap<TaskStatus>,
}

/// The status of all pipelines of a graph before any of them has run.
pub open spec fn all_spawning(pipelines: Seq<CompiledPipeline>) -> Map<Seq<char>, TaskStatus>
    decreases pipelines.len(),
{
    if pipelines.len() == 0 {
        Map::empty()
    } else {
        all_spawning(pipelines.drop_last()).insert(pipelines.last().id@, TaskStatus::Spawning)
    }
}

impl Default for RuntimeStatus {
    fn default() -> (r: Self)
        ensures
            r.pipelines@ == Map::<Seq<char>, TaskStatus>::empty(),
    {
        RuntimeStatus { pipelines: StringMap::new() }
    }
}

impl Clone for StringMap<TaskStatus> {
    fn clone(&self) -> (r: Self)
        ensures
            r@ == self@,
    {
        self.copied()
    }
}

impl Clone for RuntimeStatus {
    fn clone(&self) -> (r: Self)
        ensures
            r.pipelines@ == self.pipelines@,
    {
        RuntimeStatus { pipelines: self.pipelines.clone() }
    }
}

impl RuntimeStatus {
    /// The status of a pipeline, if it is known.
    pub fn pipeline(&self, pipeline_id: &str) -> (r: Option<TaskStatus>)
        ensures
            match r {
                Some(status) => self.pipelines@.dom().contains(pipeline_id@)
                    && self.pipelines@[pipeline_id@] == status,
                None => !self.pipelines@.dom().contains(pipeline_id@),
            },
    {
        match self.pipelines.get(pipeline_id) {
            Some(status) => Some(*status),
            None => None,
        }
    }

    /// Notes the status that an event reports; other events change nothing.
    pub fn apply(&mut self, event: &RuntimeEvent)
        ensures
            final(self).pipelines@ == (match event@ {
                EventText::StatusChanged { pipeline_id, status, .. } =>
                    old(self).pipelines@.insert(pipeline_id, status),
                EventText::BackendStarted { .. } => old(self).pipelines@,
            }),
    {
        match event {
            RuntimeEvent::StatusChanged { pipeline_id, status, .. } => {
                self.pipelines.insert(pipeline_id.clone(), *status);
            },
            RuntimeEvent::BackendStarted { .. } => {},
        }
    }
}

/// Runs graphs.
pub struct RuntimeEngine;

impl RuntimeEngine {
    /// The status of all pipelines of a graph before any of them has run.
    pub fn initial_status(graph: &CompiledGraph) -> (r: RuntimeStatus)
        ensures
            r.pipelines@ == all_spawning(graph.pipelines@),
    {
        let mut pipelines: StringMap<TaskStatus> = StringMap::new();
        let mut i: usize = 0;
        assert(graph.pipelines@.take(0) == Seq::<CompiledPipeline>::empty());
        while i < graph.pipelines.len()
            invariant
                i <= graph.pipelines@.len(),
                pipelines@ == all_spawning(graph.pipelines@.take(i as int)),
            decreases graph.pipelines@.len() - i,
        {
            pipelines.insert(graph.pipelines[i].id.clone(), TaskStatus::Spawning);
            assert(graph.pipelines@.take(i + 1).drop_last() == graph.pipelines@.take(i as int));
            i += 1;
        }
        assert(graph.pipelines@.take(i as int) == graph.pipelines@);
        RuntimeStatus { pipelines }
    }
}

// ---------------------------------------------------------------------------
// Laws
// ---------------------------------------------------------------------------

/// Every pipeline of a graph has a status from the start, and nothing else has one.
pub proof fn every_pipeline_has_a_status(pipelines: Seq<CompiledPipeline>, id: Seq<char>)
    ensures
        all_spawning(pipelines).dom().contains(id) <==> exists|i: int|
            0 <= i < pipelines.len() && (#[trigger] pipelines[i]).id@ == id,
        all_spawning(pipelines).dom().contains(id) ==> all_spawning(pipelines)[id]
            == TaskStatus::Spawning,
    decreases pipelines.len(),
{
    if pipelines.len() > 0 {
        let front = pipelines.drop_last();
        every_pipeline_has_a_status(front, id);
        if all_spawning(front).dom().contains(id) {
            let i = choose|i: int| 0 <= i < front.len() && (#[trigger] front[i]).id@ == id;
            assert(pipelines[i].id@ == id);
        }
        if pipelines.last().id@ == id {
            assert(pipelines[pipelines.len() - 1].id@ == id);
        }
        if exists|i: int| 0 <= i < pipelines.len() && (#[trigger] pipelines[i]).id@ == id {
            let i = choose|i: int| 0 <= i < pipelines.len() && (#[trigger] pipelines[i]).id@ == id;
            if i < front.len() {
                assert(front[i].id@ == id);
            }
        }
    }
}

/// Paths and backends are told apart by their names.
pub proof fn names_tell_apart(
    path: CodecPath,
    other_path: CodecPath,
    backend: ResolvedInputBackend,
    other_backend: ResolvedInputBackend,
)
    ensures
        codec_path_text(path) == codec_path_text(other_path) <==> path == other_path,
        backend_text(backend) == backend_text(other_backend) <==> backend == other_backend,
{
    reveal_strlit("Passthrough");
    reveal_strlit("SoftwareTranscode");
    reveal_strlit("HardwareTranscode");
    reveal_strlit("HardwareDecode");
    reveal_strlit("FfmpegRtsp");
    reveal_strlit("V4l2Device");
    reveal_strlit("LibcameraDevice");
    reveal_strlit("AutoDevice");
    assert("Passthrough"@[0] == 'P' && "SoftwareTranscode"@[0] == 'S');
    assert("HardwareTranscode"@.len() == 17 && "HardwareDecode"@.len() == 14);
    assert("HardwareTranscode"@[0] == 'H' && "HardwareDecode"@[0] == 'H');
    assert("FfmpegRtsp"@[0] == 'F' && "V4l2Device"@[0] == 'V');
    assert("LibcameraDevice"@[0] == 'L' && "AutoDevice"@[0] == 'A');
}

/// An event says which pipeline it is about, and what happened to it.
pub proof fn events_say_what_happened(
    id: &str,
    status: TaskStatus,
    message: Option<String>,
    pipeline: &CompiledPipeline,
    changed: RuntimeEvent,
    started: RuntimeEvent,
)
    requires
        call_ensures(status_changed, (id, status, message), changed),
        call_ensures(backend_started, (pipeline,), started),
    ensures
        changed matches RuntimeEvent::StatusChanged { pipeline_id, status: now, message: words }
            && pipeline_id@ == id@ && now == status && (words is Some <==> message is Some) && (
        message matches Some(message) ==> words->0@ == message@),
        started matches RuntimeEvent::BackendStarted { pipeline_id, codec_path, backend_name }
            && pipeline_id@ == pipeline.id@ && codec_path@ == codec_path_text(pipeline.codec_path)
            && backend_name@ == backend_text(pipeline.resolved_backend),
{
}

} // verus!
