//! Camera pipelines: a manifest says which cameras are read and what becomes of their
//! pictures; it is checked, compiled for the host it runs on, and run.
//!
//! The library holds what is decided on the way. Media, devices and the network are
//! left to the program around it, which hands in what it found and does what it is told:
//!
//! * `frontend`, `units`: manifests, and the sizes, bitrates and durations in them;
//! * `capability`, `overlay`, `compiler`: what a host can do, and the graph of pipelines
//!   that a manifest compiles to;
//! * `builder`, `adapters`: what a run is made of;
//! * `runtime`: buffers, media, the loop of a pipeline and its supervision;
//! * `ffmpeg`, `linux_media`, `webrtc`: the sources and sinks that come with the library;
//! * `text`, `time`, `show`, `string_map`, `deque`: what all of these are written with.

pub mod adapters;
pub mod builder;
pub mod capability;
pub mod compiler;
pub mod deque;
pub mod error;
pub mod ffmpeg;
pub mod frontend;
pub mod linux_media;
pub mod metrics;
pub mod overlay;
pub mod runtime;
pub mod show;
pub mod string_map;
pub mod text;
pub mod time;
pub mod units;
pub mod webrtc;

pub use builder::{CamlError, CamlPipeline, CamlPipelineBuilder, RuntimeBuilder, RuntimeBuilderError};
pub use capability::{
    CapabilityProbe, CapabilityRequirement, CompositeCapabilityProbe, HostCapabilities, PiModel,
    StaticCapabilityProbe,
};
pub use compiler::{
    BufferPoolPlan, CamlCompiler, CodecPath, CompiledGraph, CompiledInput, CompiledNetworkProfile,
    CompiledPipeline, CompiledProcessingProfile, CompiledSystem, ExecutionMode, Multiplier,
    RecoveryClass, RecoveryPolicy, ResolvedInputBackend, ResourcePlan, ResourceWarning,
    RuntimePolicy,
};
pub use error::{CompileError, ManifestError, RuntimeError};
pub use frontend::{
    CamlManifest, DropPolicy as OutputDropPolicy, HardwareTarget, InputBackend, InputType,
    NetworkProfile, OutputProfile, PipelineNode, ProcessingProfile, StreamStrategy, SystemConfig,
    Transport,
};
pub use overlay::{
    CompiledOverlayLayer, CompiledOverlayProfile, CompiledTextOverlay, CompiledTextOverlayStyle,
    CompiledTimestampOverlay, CompiledWatermarkOverlay,
};
pub use runtime::fanout::{DropPolicy, FanoutRouter, SinkActorConfig};
pub use runtime::media::{
    BorrowedMediaSlice, DecodedFrame, EncodedPacket, FfmpegPacketHandle, MappedFrameHandle,
    MediaPayload, MediaStorage, RecordedPacket,
};
pub use runtime::pool::{BufferPool, MediaBuffer, PoolStats, PooledBuffer};
pub use runtime::status::{RuntimeEngine, RuntimeEvent, RuntimeStatus, TaskStatus};
pub use string_map::StringMap;
pub use units::{Bitrate, ByteSize};
