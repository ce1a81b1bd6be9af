//! The compiler: turns a manifest into a graph of pipelines that is ready to run.

use vstd::prelude::*;

use crate::capability::{
    self, CapabilityProbe, CapabilityRequirement, CompileFailure, HostCapabilities, PiModel,
};
use crate::error::CompileError;
use crate::frontend::{
    self, CamlManifest, HardwareTarget, InputBackend, InputType, NetworkProfile, OutputProfile,
    OverlayLayer, OverlayProfile, PipelineNode, ProcessingProfile, StreamStrategy, SystemConfig,
    Transport,
};
use crate::overlay::{self, CompiledOverlayProfile};
use crate::string_map::StringMap;
use crate::text;
use crate::time::Duration;
use crate::units::ByteSize;

verus! {

pub const DEFAULT_PACKET_BUFFER_SIZE: usize = 2_048;

pub const DEFAULT_STALL_TIMEOUT_SECS: u64 = 10;

/// The capture backend that a pipeline will use.
#[derive(Debug, Clone, Copy, PartialEq, Eq, Structural)]
pub enum ResolvedInputBackend {
    FfmpegRtsp,
    V4l2Device,
    LibcameraDevice,
    AutoDevice,
}

/// What travels through a pipeline.
#[derive(Debug, Clone, Copy, PartialEq, Eq, Structural)]
pub enum ExecutionMode {
    EncodedPackets,
    DecodedFrames,
}

/// Where a pipeline decodes and encodes.
#[derive(Debug, Clone, Copy, PartialEq, Eq, Structural)]
pub enum CodecPath {
    Passthrough,
    SoftwareTranscode,
    HardwareTranscode,
    HardwareDecode,
}

/// Something about the use of memory that an operator should know.
#[derive(Debug, Clone, Copy, PartialEq, Eq, Structural)]
pub enum ResourceWarning {
    HighMemoryUsage,
}

impl ResourceWarning {
    /// The text of the warning.
    pub fn to_string(&self) -> (r: String)
        ensures
            r@
                == "Estimated total memory usage (buffers + backend) exceeds configured limit"@,
    {
        "Estimated total memory usage (buffers + backend) exceeds configured limit".to_owned()
    }
}

/// The buffers of one pipeline.
#[derive(Debug, Clone, PartialEq, Eq)]
pub struct BufferPoolPlan {
    pub pipeline_id: String,
    pub buffer_size: usize,
    pub buffer_count: usize,
    pub estimated_bytes: u64,
}

/// A compiled manifest.
#[derive(Debug, Clone, PartialEq, Eq)]
pub struct CompiledGraph {
    pub system: CompiledSystem,
    pub pipelines: Vec<CompiledPipeline>,
    pub resource_plan: ResourcePlan,
}

#[derive(Debug, Clone, Copy, PartialEq, Eq)]
pub struct CompiledSystem {
    pub hardware_target: HardwareTarget,
    pub cma_allocation_limit_bytes: u64,
}

/// How much memory the pipelines are expected to use.
#[derive(Debug, Clone, PartialEq, Eq)]
pub struct ResourcePlan {
    pub configured_limit_bytes: u64,
    pub estimated_pool_bytes: u64,
    pub estimated_backend_bytes: Option<u64>,
    pub buffer_pools: Vec<BufferPoolPlan>,
    pub warnings: Vec<ResourceWarning>,
}

/// A pipeline that is ready to run.
#[derive(Debug, Clone, PartialEq, Eq)]
pub struct CompiledPipeline {
    pub id: String,
    pub input: CompiledInput,
    pub strategy: StreamStrategy,
    pub network: Option<CompiledNetworkProfile>,
    pub processing: Option<CompiledProcessingProfile>,
    pub overlay: Option<CompiledOverlayProfile>,
    pub runtime: RuntimePolicy,
    pub resolved_backend: ResolvedInputBackend,
    pub execution_mode: ExecutionMode,
    pub codec_path: CodecPath,
    pub recovery: RecoveryPolicy,
    pub capability_requirements: Vec<CapabilityRequirement>,
    pub outputs: Vec<OutputProfile>,
}

#[derive(Debug, Clone, PartialEq, Eq)]
pub struct CompiledInput {
    pub kind: InputType,
    pub source: String,
}

#[derive(Debug, Clone, Copy, PartialEq, Eq)]
pub struct CompiledNetworkProfile {
    pub transport: Transport,
    pub packet_size_limit: usize,
    pub stall_timeout: Duration,
}

#[derive(Debug, PartialEq, Eq)]
pub struct CompiledProcessingProfile {
    pub codec: String,
    pub encoder: String,
    pub preset: String,
    pub tune: String,
    pub frame_rate: u32,
    pub bitrate_bps: u64,
    pub rotation: Option<i32>,
}

impl Clone for CompiledProcessingProfile {
    fn clone(&self) -> (r: Self)
        ensures
            r == *self,
    {
        CompiledProcessingProfile {
            codec: self.codec.clone(),
            encoder: self.encoder.clone(),
            preset: self.preset.clone(),
            tune: self.tune.clone(),
            frame_rate: self.frame_rate,
            bitrate_bps: self.bitrate_bps,
            rotation: self.rotation,
        }
    }
}

/// The factor by which the wait before a restart grows: a number of single precision, by
/// its bits.
#[derive(Debug, Clone, Copy, PartialEq, Eq, Structural)]
pub struct Multiplier {
    pub bits: u32,
}

/// The bits of the number 1 in single precision.
pub const ONE_BITS: u32 = 0x3f80_0000;

/// The bits of the number 2 in single precision.
pub const TWO_BITS: u32 = 0x4000_0000;

/// When and how often a pipeline is restarted.
#[derive(Debug, Clone, Copy, PartialEq, Eq)]
pub struct RecoveryPolicy {
    pub class: RecoveryClass,
    pub max_restarts: u32,
    pub initial_backoff: Duration,
    pub max_backoff: Duration,
    pub backoff_multiplier: Multiplier,
    pub reset_after: Duration,
}

/// The kind of fault that a pipeline is prepared for.
#[derive(Debug, Clone, Copy, PartialEq, Eq, Structural)]
pub enum RecoveryClass {
    Network,
    Device,
    Hardware,
}

#[derive(Debug, Clone, Copy, PartialEq, Eq)]
pub struct RuntimePolicy {
    pub buffer_size: usize,
    pub watchdog_timeout: Duration,
    pub buffer_count: usize,
}

// ---------------------------------------------------------------------------
// What a pipeline compiles to
// ---------------------------------------------------------------------------

/// Whether an encoder name asks for the hardware encoder.
pub open spec fn names_hardware_encoder(encoder: Seq<char>) -> bool {
    let name = text::lower(text::trimmed(encoder));
    name == "hardware"@ || name == "v4l2m2m"@
}

/// Whether a pipeline asks for the hardware encoder.
pub open spec fn uses_hardware_encoder(node: PipelineNode) -> bool {
    node.processing matches Some(processing) && names_hardware_encoder(processing.encoder@)
}

/// The backend that a pipeline asks for; one that names none leaves it open.
pub open spec fn requested_backend(node: PipelineNode) -> InputBackend {
    match node.backend {
        Some(backend) => backend,
        None => InputBackend::Auto,
    }
}

pub open spec fn backend_of(node: PipelineNode) -> ResolvedInputBackend {
    match node.input_type {
        InputType::Rtsp => ResolvedInputBackend::FfmpegRtsp,
        InputType::Device => match requested_backend(node) {
            InputBackend::Auto => ResolvedInputBackend::AutoDevice,
            InputBackend::Ffmpeg => ResolvedInputBackend::AutoDevice,
            InputBackend::V4l2 => ResolvedInputBackend::V4l2Device,
            InputBackend::Libcamera => ResolvedInputBackend::LibcameraDevice,
        },
    }
}

pub open spec fn execution_mode_of(strategy: StreamStrategy) -> ExecutionMode {
    match strategy {
        StreamStrategy::Passthrough => ExecutionMode::EncodedPackets,
        StreamStrategy::Transcode => ExecutionMode::DecodedFrames,
        StreamStrategy::HardwareDecode => ExecutionMode::DecodedFrames,
    }
}

pub open spec fn codec_path_of(node: PipelineNode) -> CodecPath {
    match node.strategy {
        StreamStrategy::Passthrough => CodecPath::Passthrough,
        StreamStrategy::HardwareDecode => CodecPath::HardwareDecode,
        StreamStrategy::Transcode => if uses_hardware_encoder(node) {
            CodecPath::HardwareTranscode
        } else {
            CodecPath::SoftwareTranscode
        },
    }
}

/// Whether an overlay draws text.
pub open spec fn draws_text(overlay: Option<OverlayProfile>) -> bool {
    overlay matches Some(profile) && exists|i: int|
        0 <= i < profile.layers@.len() && !(#[trigger] profile.layers@[i] is Watermark)
}

/// Whether an overlay draws a picture.
pub open spec fn draws_watermark(overlay: Option<OverlayProfile>) -> bool {
    overlay matches Some(profile) && exists|i: int|
        0 <= i < profile.layers@.len() && #[trigger] profile.layers@[i] is Watermark
}

/// What the input of a pipeline needs. Where a stream is decoded by the hardware, the
/// decoder is what counts.
pub open spec fn input_requirements(node: PipelineNode) -> Seq<CapabilityRequirement> {
    match node.input_type {
        InputType::Rtsp => if node.strategy == StreamStrategy::HardwareDecode {
            Seq::empty()
        } else {
            seq![CapabilityRequirement::Ffmpeg]
        },
        InputType::Device => match requested_backend(node) {
            InputBackend::Auto => Seq::empty(),
            InputBackend::Ffmpeg => seq![CapabilityRequirement::Ffmpeg],
            InputBackend::V4l2 => seq![CapabilityRequirement::V4l2],
            InputBackend::Libcamera => seq![CapabilityRequirement::Libcamera],
        },
    }
}

/// What the outputs of a pipeline need: RTP packetization for each that streams.
pub open spec fn output_requirements(outputs: Seq<OutputProfile>) -> Seq<CapabilityRequirement>
    decreases outputs.len(),
{
    if outputs.len() == 0 {
        Seq::empty()
    } else if outputs.last() is WebrtcRtp {
        output_requirements(outputs.drop_last()).push(CapabilityRequirement::RtpPacketization)
    } else {
        output_requirements(outputs.drop_last())
    }
}

/// What the codecs of a pipeline need.
pub open spec fn codec_requirements(node: PipelineNode) -> Seq<CapabilityRequirement> {
    match codec_path_of(node) {
        CodecPath::Passthrough => Seq::empty(),
        CodecPath::SoftwareTranscode => Seq::empty(),
        CodecPath::HardwareTranscode => seq![CapabilityRequirement::Pi4HardwareEncoder],
        CodecPath::HardwareDecode => seq![CapabilityRequirement::Pi5StatelessDecoder],
    }
}

/// What drawing text needs.
pub open spec fn text_requirements(node: PipelineNode) -> Seq<CapabilityRequirement> {
    if draws_text(node.overlay) {
        seq![CapabilityRequirement::DrawTextFilter]
    } else {
        Seq::empty()
    }
}

/// What drawing pictures needs.
pub open spec fn watermark_requirements(node: PipelineNode) -> Seq<CapabilityRequirement> {
    if draws_watermark(node.overlay) {
        seq![
            CapabilityRequirement::OverlayFilter,
            CapabilityRequirement::ScaleFilter,
            CapabilityRequirement::ColorChannelMixerFilter,
        ]
    } else {
        Seq::empty()
    }
}

/// Everything that a pipeline needs of its host.
pub open spec fn requirements_of(node: PipelineNode) -> Seq<CapabilityRequirement> {
    input_requirements(node) + output_requirements(node.outputs@) + codec_requirements(node)
        + text_requirements(node) + watermark_requirements(node)
}

pub open spec fn recovery_class_of(node: PipelineNode) -> RecoveryClass {
    if node.strategy == StreamStrategy::HardwareDecode {
        RecoveryClass::Hardware
    } else if node.input_type == InputType::Rtsp {
        RecoveryClass::Network
    } else {
        RecoveryClass::Device
    }
}

/// Whether a policy is the one for its class of faults.
pub open spec fn is_policy_for(policy: RecoveryPolicy, class: RecoveryClass) -> bool {
    &&& policy.class == class
    &&& policy.backoff_multiplier.bits == TWO_BITS
    &&& match class {
        RecoveryClass::Network => {
            &&& policy.initial_backoff@ == 250_000_000
            &&& policy.max_backoff@ == 5_000_000_000
            &&& policy.reset_after@ == 30_000_000_000
            &&& policy.max_restarts == 5
        },
        RecoveryClass::Device => {
            &&& policy.initial_backoff@ == 1_000_000_000
            &&& policy.max_backoff@ == 30_000_000_000
            &&& policy.reset_after@ == 60_000_000_000
            &&& policy.max_restarts == 3
        },
        RecoveryClass::Hardware => {
            &&& policy.initial_backoff@ == 2_000_000_000
            &&& policy.max_backoff@ == 60_000_000_000
            &&& policy.reset_after@ == 120_000_000_000
            &&& policy.max_restarts == 3
        },
    }
}

pub open spec fn buffer_count_of(strategy: StreamStrategy) -> usize {
    match strategy {
        StreamStrategy::Passthrough => 100,
        StreamStrategy::Transcode => 64,
        StreamStrategy::HardwareDecode => 32,
    }
}

pub open spec fn buffer_size_of(node: PipelineNode) -> usize {
    match node.network {
        Some(profile) => profile.packet_size_limit,
        None => DEFAULT_PACKET_BUFFER_SIZE,
    }
}

/// The time without media after which a pipeline counts as stalled, in nanoseconds.
pub open spec fn watchdog_nanos_of(node: PipelineNode) -> nat {
    match node.network {
        Some(profile) => profile.stall_timeout@,
        None => 10_000_000_000,
    }
}

pub open spec fn network_compiled(
    compiled: Option<CompiledNetworkProfile>,
    profile: Option<NetworkProfile>,
) -> bool {
    match profile {
        None => compiled is None,
        Some(profile) => {
            &&& compiled matches Some(network)
            &&& network.transport == profile.transport
            &&& network.packet_size_limit == profile.packet_size_limit
            &&& network.stall_timeout == profile.stall_timeout
        },
    }
}

pub open spec fn processing_compiled(
    compiled: Option<CompiledProcessingProfile>,
    profile: Option<ProcessingProfile>,
) -> bool {
    match profile {
        None => compiled is None,
        Some(profile) => {
            &&& compiled matches Some(processing)
            &&& processing.codec@ == profile.codec@
            &&& processing.encoder@ == profile.encoder@
            &&& processing.preset@ == profile.preset@
            &&& processing.tune@ == profile.tune@
            &&& processing.frame_rate == profile.frame_rate
            &&& processing.bitrate_bps == profile.bitrate.0
            &&& processing.rotation == profile.rotation
        },
    }
}

pub open spec fn optional_overlay_compiled(
    compiled: Option<CompiledOverlayProfile>,
    id: Seq<char>,
    profile: Option<OverlayProfile>,
    variables: Map<Seq<char>, Seq<char>>,
) -> bool {
    match profile {
        None => compiled is None,
        Some(profile) => {
            &&& compiled matches Some(layers)
            &&& overlay::overlay_compiled(layers, id, profile, variables)
        },
    }
}

/// Whether a compiled pipeline is what the compiler makes of a pipeline.
pub open spec fn pipeline_compiled(
    compiled: CompiledPipeline,
    node: PipelineNode,
    variables: Map<Seq<char>, Seq<char>>,
) -> bool {
    &&& compiled.id@ == node.id@
    &&& compiled.input.kind == node.input_type
    &&& compiled.input.source@ == node.input@
    &&& compiled.strategy == node.strategy
    &&& network_compiled(compiled.network, node.network)
    &&& processing_compiled(compiled.processing, node.processing)
    &&& optional_overlay_compiled(compiled.overlay, node.id@, node.overlay, variables)
    &&& compiled.runtime.buffer_size == buffer_size_of(node)
    &&& compiled.runtime.buffer_count == buffer_count_of(node.strategy)
    &&& compiled.runtime.watchdog_timeout@ == watchdog_nanos_of(node)
    &&& compiled.resolved_backend == backend_of(node)
    &&& compiled.execution_mode == execution_mode_of(node.strategy)
    &&& compiled.codec_path == codec_path_of(node)
    &&& is_policy_for(compiled.recovery, recovery_class_of(node))
    &&& compiled.capability_requirements@ == requirements_of(node)
    &&& compiled.outputs@ == node.outputs@
}

// ---------------------------------------------------------------------------
// Why a manifest does not compile
// ---------------------------------------------------------------------------

/// The failure of a host that is another machine than the manifest asks for.
pub open spec fn host_failure(target: HardwareTarget, host: HostCapabilities) -> Option<
    CompileFailure,
> {
    if target == HardwareTarget::RaspberryPi4 && host.pi_model == Some(PiModel::Pi5) {
        Some(
            CompileFailure::UnsupportedCapability(
                "manifest targets Raspberry Pi 4 but the capability probe detected a Raspberry Pi 5 host"@,
            ),
        )
    } else if target == HardwareTarget::RaspberryPi5 && host.pi_model == Some(PiModel::Pi4) {
        Some(
            CompileFailure::UnsupportedCapability(
                "manifest targets Raspberry Pi 5 but the capability probe detected a Raspberry Pi 4 host"@,
            ),
        )
    } else {
        None
    }
}

pub open spec fn invalid(id: Seq<char>, rest: Seq<char>) -> Option<CompileFailure> {
    Some(CompileFailure::InvalidConfiguration("pipeline '"@ + id + rest))
}

pub open spec fn unsupported(id: Seq<char>, rest: Seq<char>) -> Option<CompileFailure> {
    Some(CompileFailure::UnsupportedCapability("pipeline '"@ + id + rest))
}

/// The failure of a pipeline that lacks what its strategy needs.
pub open spec fn shape_failure(node: PipelineNode) -> Option<CompileFailure> {
    match node.strategy {
        StreamStrategy::Passthrough => {
            if node.processing is Some {
                invalid(node.id@, "' defines processing but is marked as passthrough"@)
            } else if node.network is None && !frontend::uses_libcamera(node) {
                invalid(node.id@, "' uses passthrough and requires a network profile"@)
            } else if node.overlay is Some {
                invalid(
                    node.id@,
                    "' defines overlay but overlays require transcode or hardware_decode"@,
                )
            } else {
                None
            }
        },
        StreamStrategy::Transcode => {
            if node.processing is None {
                invalid(node.id@, "' uses transcode and requires a processing profile"@)
            } else {
                None
            }
        },
        StreamStrategy::HardwareDecode => {
            if node.processing is None {
                invalid(node.id@, "' uses hardware_decode and requires a processing profile"@)
            } else {
                None
            }
        },
    }
}

/// The failure of a pipeline that asks for the hardware encoder, which the
/// Raspberry Pi 5 does not have.
pub open spec fn encoder_mismatch(target: HardwareTarget, node: PipelineNode) -> Option<
    CompileFailure,
> {
    if target == HardwareTarget::RaspberryPi5 && uses_hardware_encoder(node) {
        Some(
            CompileFailure::HardwareMismatch(
                "pipeline '"@ + node.id@ + "' cannot use '"@ + node.processing->0.encoder@
                    + "' on Raspberry Pi 5; use software encoding instead"@,
            ),
        )
    } else {
        None
    }
}

/// The failure of a pipeline that asks for hardware the host does not have.
pub open spec fn hardware_failure(
    target: HardwareTarget,
    node: PipelineNode,
    host: HostCapabilities,
) -> Option<CompileFailure> {
    if target == HardwareTarget::RaspberryPi4 && uses_hardware_encoder(node)
        && !host.has_pi4_h264_encoder {
        unsupported(
            node.id@,
            "' requested Raspberry Pi 4 hardware encoding but no Pi 4 H.264 encoder was detected"@,
        )
    } else if target == HardwareTarget::RaspberryPi5 && node.strategy
        == StreamStrategy::HardwareDecode && !host.has_pi5_stateless_decoder {
        unsupported(
            node.id@,
            "' requested Raspberry Pi 5 hardware decode but no stateless decoder was detected"@,
        )
    } else {
        capability::requirements_failure(requirements_of(node), node.id@, host)
    }
}

/// The failure of a pipeline, where the host is known or not looked at.
pub open spec fn pipeline_failure(
    target: HardwareTarget,
    node: PipelineNode,
    host: Option<HostCapabilities>,
) -> Option<CompileFailure> {
    if shape_failure(node) is Some {
        shape_failure(node)
    } else if encoder_mismatch(target, node) is Some {
        encoder_mismatch(target, node)
    } else {
        match host {
            Some(host) => hardware_failure(target, node, host),
            None => None,
        }
    }
}

/// The failure of an overlay whose templates do not expand.
pub open spec fn node_template_failure(
    node: PipelineNode,
    variables: Map<Seq<char>, Seq<char>>,
) -> Option<CompileFailure> {
    match node.overlay {
        Some(profile) => overlay::templates_failure(
            node.id@,
            profile.layers@,
            overlay::pipeline_variables(node.id@, variables),
        ),
        None => None,
    }
}

/// Whether an earlier pipeline has the same name.
pub open spec fn name_taken(nodes: Seq<PipelineNode>, at: int) -> bool {
    exists|k: int| 0 <= k < at && (#[trigger] nodes[k]).id@ == nodes[at].id@
}

/// The first failure of the pipelines from `at` on, in their order.
pub open spec fn nodes_failure(
    target: HardwareTarget,
    nodes: Seq<PipelineNode>,
    at: int,
    host: Option<HostCapabilities>,
    variables: Map<Seq<char>, Seq<char>>,
) -> Option<CompileFailure>
    decreases nodes.len() - at,
{
    if at >= nodes.len() {
        None
    } else if name_taken(nodes, at) {
        Some(CompileFailure::DuplicatePipelineId(nodes[at].id@))
    } else if pipeline_failure(target, nodes[at], host) is Some {
        pipeline_failure(target, nodes[at], host)
    } else if node_template_failure(nodes[at], variables) is Some {
        node_template_failure(nodes[at], variables)
    } else {
        nodes_failure(target, nodes, at + 1, host, variables)
    }
}

/// The bytes of the buffers of all pipelines.
pub open spec fn pool_need(nodes: Seq<PipelineNode>) -> nat
    decreases nodes.len(),
{
    if nodes.len() == 0 {
        0
    } else {
        pool_need(nodes.drop_last()) + buffer_size_of(nodes.last()) as nat * buffer_count_of(
            nodes.last().strategy,
        ) as nat
    }
}

/// The bytes that the backend of a pipeline is expected to use: 128 packets of an
/// RTSP session; 128 packets, 8 full-HD frames and 32 encoded frames of a device;
/// 8 full-HD frames and 8 requests of a libcamera device.
pub open spec fn backend_bytes(node: PipelineNode) -> nat {
    match backend_of(node) {
        ResolvedInputBackend::FfmpegRtsp => 128 * buffer_size_of(node) as nat,
        ResolvedInputBackend::AutoDevice => 33_228_800,
        ResolvedInputBackend::V4l2Device => 33_228_800,
        ResolvedInputBackend::LibcameraDevice => 49_766_400,
    }
}

/// The bytes that the backends of all pipelines are expected to use.
pub open spec fn backend_need(nodes: Seq<PipelineNode>) -> nat
    decreases nodes.len(),
{
    if nodes.len() == 0 {
        0
    } else {
        backend_need(nodes.drop_last()) + backend_bytes(nodes.last())
    }
}

/// A number of bytes, cut off at the largest that can be counted.
pub open spec fn capped(n: nat) -> u64 {
    if n <= u64::MAX {
        n as u64
    } else {
        u64::MAX
    }
}

/// The limit on memory that a manifest sets; one on contiguous memory goes first.
pub open spec fn limit_of(manifest: CamlManifest) -> u64 {
    match (manifest.system.cma_allocation_limit, manifest.system.media_memory_limit) {
        (Some(limit), _) => limit.0,
        (None, Some(limit)) => limit.0,
        (None, None) => 0,
    }
}

/// Why a manifest does not compile; `host` is what the host can do, if it is looked
/// at.
pub open spec fn compile_failure(
    manifest: CamlManifest,
    host: Option<HostCapabilities>,
    variables: Map<Seq<char>, Seq<char>>,
) -> Option<CompileFailure> {
    let target = manifest.system.hardware_target;
    let nodes = manifest.pipelines@;
    if host is Some && host_failure(target, host->0) is Some {
        host_failure(target, host->0)
    } else if nodes_failure(target, nodes, 0, host, variables) is Some {
        nodes_failure(target, nodes, 0, host, variables)
    } else if capped(pool_need(nodes)) > limit_of(manifest) {
        Some(
            CompileFailure::ResourceLimitExceeded {
                configured_limit_bytes: limit_of(manifest),
                estimated_usage_bytes: capped(pool_need(nodes)),
            },
        )
    } else {
        None
    }
}

/// Whether a plan for a pool is the one for a pipeline.
pub open spec fn pool_planned(plan: BufferPoolPlan, node: PipelineNode) -> bool {
    &&& plan.pipeline_id@ == node.id@
    &&& plan.buffer_size == buffer_size_of(node)
    &&& plan.buffer_count == buffer_count_of(node.strategy)
    &&& plan.estimated_bytes == capped(
        buffer_size_of(node) as nat * buffer_count_of(node.strategy) as nat,
    )
}

/// Whether a graph is what the compiler makes of a manifest that compiles.
pub open spec fn graph_compiled(
    graph: CompiledGraph,
    manifest: CamlManifest,
    variables: Map<Seq<char>, Seq<char>>,
) -> bool {
    let nodes = manifest.pipelines@;
    let plan = graph.resource_plan;
    &&& graph.system.hardware_target == manifest.system.hardware_target
    &&& graph.system.cma_allocation_limit_bytes == limit_of(manifest)
    &&& graph.pipelines@.len() == nodes.len()
    &&& forall|i: int|
        0 <= i < nodes.len() ==> pipeline_compiled(
            #[trigger] graph.pipelines@[i],
            nodes[i],
            variables,
        )
    &&& plan.configured_limit_bytes == limit_of(manifest)
    &&& plan.estimated_pool_bytes == capped(pool_need(nodes))
    &&& plan.estimated_backend_bytes == Some(capped(backend_need(nodes)))
    &&& plan.buffer_pools@.len() == nodes.len()
    &&& forall|i: int|
        0 <= i < nodes.len() ==> pool_planned(#[trigger] plan.buffer_pools@[i], nodes[i])
    &&& plan.warnings@ == (if capped(pool_need(nodes) + backend_need(nodes)) > limit_of(manifest) {
        seq![ResourceWarning::HighMemoryUsage]
    } else {
        Seq::empty()
    })
}

/// Whether a result is exactly what compiling gives.
pub open spec fn compiles_to(
    r: Result<CompiledGraph, CompileError>,
    manifest: CamlManifest,
    host: Option<HostCapabilities>,
    variables: Map<Seq<char>, Seq<char>>,
) -> bool {
    match r {
        Ok(graph) => compile_failure(manifest, host, variables) is None && graph_compiled(
            graph,
            manifest,
            variables,
        ),
        Err(error) => compile_failure(manifest, host, variables) == Some(error@),
    }
}

/// The first pipeline that asks for the hardware encoder on a machine that has none.
pub open spec fn encoder_mismatches(target: HardwareTarget, nodes: Seq<PipelineNode>) -> Option<
    CompileFailure,
>
    decreases nodes.len(),
{
    if nodes.len() == 0 {
        None
    } else if encoder_mismatch(target, nodes[0]) is Some {
        encoder_mismatch(target, nodes[0])
    } else {
        encoder_mismatches(target, nodes.drop_first())
    }
}

/// Whether a result is exactly what compiling gives where there is no probe: a
/// manifest for a Raspberry Pi is refused, for its encoder where that can never
/// work, and else for want of a probe.
pub open spec fn compiles_without_probe(
    r: Result<CompiledGraph, CompileError>,
    manifest: CamlManifest,
    variables: Map<Seq<char>, Seq<char>>,
) -> bool {
    let target = manifest.system.hardware_target;
    if target == HardwareTarget::GenericLinux {
        compiles_to(r, manifest, None, variables)
    } else {
        &&& r matches Err(error)
        &&& error@ == (match encoder_mismatches(target, manifest.pipelines@) {
            Some(failure) => failure,
            None => CompileFailure::InvalidConfiguration(
                "hardware-target compilation requires a capability probe. Use `compile_with_probe` or `compile_unchecked` if you want to skip guardrails."@,
            ),
        })
    }
}

/// Whether a result is exactly what compiling gives after a probe has replied.
pub open spec fn compiles_after(
    r: Result<CompiledGraph, CompileError>,
    manifest: CamlManifest,
    reply: Result<HostCapabilities, CompileError>,
    variables: Map<Seq<char>, Seq<char>>,
) -> bool {
    match reply {
        Ok(host) => compiles_to(r, manifest, Some(host), variables),
        Err(error) => r == Err::<CompiledGraph, CompileError>(error),
    }
}

// ---------------------------------------------------------------------------
// The compiler
// ---------------------------------------------------------------------------

/// Whether an encoder name asks for the hardware encoder.
fn is_hardware_encoder(encoder: &str) -> (r: bool)
    ensures
        r == names_hardware_encoder(encoder@),
{
    let name = text::to_ascii_lowercase(text::trim(encoder));
    text::same(name.as_str(), "hardware") || text::same(name.as_str(), "v4l2m2m")
}

/// Whether a pipeline asks for the hardware encoder.
fn node_uses_hardware_encoder(node: &PipelineNode) -> (r: bool)
    ensures
        r == uses_hardware_encoder(*node),
{
    match &node.processing {
        Some(processing) => is_hardware_encoder(processing.encoder.as_str()),
        None => false,
    }
}

fn backend_or_auto(node: &PipelineNode) -> (r: InputBackend)
    ensures
        r == requested_backend(*node),
{
    match node.backend {
        Some(backend) => backend,
        None => InputBackend::Auto,
    }
}

/// The backend that a pipeline will use.
pub fn resolve_backend(pipeline: &PipelineNode) -> (r: ResolvedInputBackend)
    ensures
        r == backend_of(*pipeline),
{
    match pipeline.input_type {
        InputType::Rtsp => ResolvedInputBackend::FfmpegRtsp,
        InputType::Device => match backend_or_auto(pipeline) {
            InputBackend::Auto => ResolvedInputBackend::AutoDevice,
            InputBackend::Ffmpeg => ResolvedInputBackend::AutoDevice,
            InputBackend::V4l2 => ResolvedInputBackend::V4l2Device,
            InputBackend::Libcamera => ResolvedInputBackend::LibcameraDevice,
        },
    }
}

/// What travels through a pipeline of the given strategy.
pub fn resolve_execution_mode(strategy: StreamStrategy) -> (r: ExecutionMode)
    ensures
        r == execution_mode_of(strategy),
{
    match strategy {
        StreamStrategy::Passthrough => ExecutionMode::EncodedPackets,
        StreamStrategy::Transcode => ExecutionMode::DecodedFrames,
        StreamStrategy::HardwareDecode => ExecutionMode::DecodedFrames,
    }
}

/// Where a pipeline decodes and encodes.
pub fn resolve_codec_path(pipeline: &PipelineNode) -> (r: CodecPath)
    ensures
        r == codec_path_of(*pipeline),
{
    match pipeline.strategy {
        StreamStrategy::Passthrough => CodecPath::Passthrough,
        StreamStrategy::HardwareDecode => CodecPath::HardwareDecode,
        StreamStrategy::Transcode => {
            if node_uses_hardware_encoder(pipeline) {
                CodecPath::HardwareTranscode
            } else {
                CodecPath::SoftwareTranscode
            }
        },
    }
}

/// Whether an overlay draws text.
pub fn overlay_uses_text(overlay: &Option<OverlayProfile>) -> (r: bool)
    ensures
        r == draws_text(*overlay),
{
    match overlay {
        None => false,
        Some(profile) => {
            let mut i: usize = 0;
            while i < profile.layers.len()
                invariant
                    i <= profile.layers@.len(),
                    *overlay == Some(*profile),
                    forall|k: int| 0 <= k < i ==> #[trigger] profile.layers@[k] is Watermark,
                decreases profile.layers@.len() - i,
            {
                match &profile.layers[i] {
                    OverlayLayer::Watermark { .. } => {},
                    _ => {
                        assert(!(profile.layers@[i as int] is Watermark));
                        return true;
                    },
                }
                i += 1;
            }
            false
        },
    }
}

/// Whether an overlay draws a picture.
pub fn overlay_uses_watermark(overlay: &Option<OverlayProfile>) -> (r: bool)
    ensures
        r == draws_watermark(*overlay),
{
    match overlay {
        None => false,
        Some(profile) => {
            let mut i: usize = 0;
            while i < profile.layers.len()
                invariant
                    i <= profile.layers@.len(),
                    *overlay == Some(*profile),
                    forall|k: int| 0 <= k < i ==> !(#[trigger] profile.layers@[k] is Watermark),
                decreases profile.layers@.len() - i,
            {
                match &profile.layers[i] {
                    OverlayLayer::Watermark { .. } => {
                        assert(profile.layers@[i as int] is Watermark);
                        return true;
                    },
                    _ => {},
                }
                i += 1;
            }
            false
        },
    }
}

fn add_input_requirements(requirements: &mut Vec<CapabilityRequirement>, pipeline: &PipelineNode)
    ensures
        final(requirements)@ == old(requirements)@ + input_requirements(*pipeline),
{
    match pipeline.input_type {
        InputType::Rtsp => match pipeline.strategy {
            StreamStrategy::HardwareDecode => {},
            _ => requirements.push(CapabilityRequirement::Ffmpeg),
        },
        InputType::Device => match backend_or_auto(pipeline) {
            InputBackend::Auto => {},
            InputBackend::Ffmpeg => requirements.push(CapabilityRequirement::Ffmpeg),
            InputBackend::V4l2 => requirements.push(CapabilityRequirement::V4l2),
            InputBackend::Libcamera => requirements.push(CapabilityRequirement::Libcamera),
        },
    }
}

fn add_output_requirements(requirements: &mut Vec<CapabilityRequirement>, pipeline: &PipelineNode)
    ensures
        final(requirements)@ == old(requirements)@ + output_requirements(pipeline.outputs@),
{
    let mut i: usize = 0;
    let ghost before = requirements@;
    assert(pipeline.outputs@.take(0) == Seq::<OutputProfile>::empty());
    while i < pipeline.outputs.len()
        invariant
            i <= pipeline.outputs@.len(),
            requirements@ == before + output_requirements(pipeline.outputs@.take(i as int)),
        decreases pipeline.outputs@.len() - i,
    {
        assert(pipeline.outputs@.take(i + 1).drop_last() == pipeline.outputs@.take(i as int));
        match &pipeline.outputs[i] {
            OutputProfile::WebrtcRtp { .. } => {
                requirements.push(CapabilityRequirement::RtpPacketization);
            },
            OutputProfile::Recording { .. } => {},
        }
        i += 1;
    }
    assert(pipeline.outputs@.take(i as int) == pipeline.outputs@);
}

fn add_codec_requirements(requirements: &mut Vec<CapabilityRequirement>, pipeline: &PipelineNode)
    ensures
        final(requirements)@ == old(requirements)@ + codec_requirements(*pipeline),
{
    match resolve_codec_path(pipeline) {
        CodecPath::HardwareTranscode => {
            requirements.push(CapabilityRequirement::Pi4HardwareEncoder);
        },
        CodecPath::HardwareDecode => {
            requirements.push(CapabilityRequirement::Pi5StatelessDecoder);
        },
        _ => {},
    }
}

fn add_overlay_requirements(requirements: &mut Vec<CapabilityRequirement>, pipeline: &PipelineNode)
    ensures
        final(requirements)@ == old(requirements)@ + text_requirements(*pipeline)
            + watermark_requirements(*pipeline),
{
    if overlay_uses_text(&pipeline.overlay) {
        requirements.push(CapabilityRequirement::DrawTextFilter);
    }
    if overlay_uses_watermark(&pipeline.overlay) {
        requirements.push(CapabilityRequirement::OverlayFilter);
        requirements.push(CapabilityRequirement::ScaleFilter);
        requirements.push(CapabilityRequirement::ColorChannelMixerFilter);
    }
}

/// Everything that a pipeline needs of its host.
pub fn capability_requirements_for(pipeline: &PipelineNode) -> (r: Vec<CapabilityRequirement>)
    ensures
        r@ == requirements_of(*pipeline),
{
    let mut requirements: Vec<CapabilityRequirement> = Vec::new();
    add_input_requirements(&mut requirements, pipeline);
    assert(requirements@ == input_requirements(*pipeline));
    add_output_requirements(&mut requirements, pipeline);
    add_codec_requirements(&mut requirements, pipeline);
    add_overlay_requirements(&mut requirements, pipeline);
    requirements
}

/// The policy by which a pipeline is restarted.
pub fn recovery_policy_for(pipeline: &PipelineNode) -> (r: RecoveryPolicy)
    ensures
        is_policy_for(r, recovery_class_of(*pipeline)),
{
    let class = if pipeline.strategy == StreamStrategy::HardwareDecode {
        RecoveryClass::Hardware
    } else if pipeline.input_type == InputType::Rtsp {
        RecoveryClass::Network
    } else {
        RecoveryClass::Device
    };
    let backoff_multiplier = Multiplier { bits: TWO_BITS };
    match class {
        RecoveryClass::Network => RecoveryPolicy {
            class,
            max_restarts: 5,
            initial_backoff: Duration::from_millis(250),
            max_backoff: Duration::from_secs(5),
            backoff_multiplier,
            reset_after: Duration::from_secs(30),
        },
        RecoveryClass::Device => RecoveryPolicy {
            class,
            max_restarts: 3,
            initial_backoff: Duration::from_secs(1),
            max_backoff: Duration::from_secs(30),
            backoff_multiplier,
            reset_after: Duration::from_secs(60),
        },
        RecoveryClass::Hardware => RecoveryPolicy {
            class,
            max_restarts: 3,
            initial_backoff: Duration::from_secs(2),
            max_backoff: Duration::from_secs(60),
            backoff_multiplier,
            reset_after: Duration::from_secs(120),
        },
    }
}

fn compile_network_profile(profile: &Option<NetworkProfile>) -> (r: Option<CompiledNetworkProfile>)
    ensures
        network_compiled(r, *profile),
{
    match profile {
        None => None,
        Some(profile) => Some(
            CompiledNetworkProfile {
                transport: profile.transport,
                packet_size_limit: profile.packet_size_limit,
                stall_timeout: profile.stall_timeout,
            },
        ),
    }
}

fn compile_processing_profile(profile: &Option<ProcessingProfile>) -> (r: Option<
    CompiledProcessingProfile,
>)
    ensures
        processing_compiled(r, *profile),
{
    match profile {
        None => None,
        Some(profile) => Some(
            CompiledProcessingProfile {
                codec: profile.codec.clone(),
                encoder: profile.encoder.clone(),
                preset: profile.preset.clone(),
                tune: profile.tune.clone(),
                frame_rate: profile.frame_rate,
                bitrate_bps: profile.bitrate.as_bits_per_second(),
                rotation: profile.rotation,
            },
        ),
    }
}

fn copy_outputs(outputs: &Vec<OutputProfile>) -> (r: Vec<OutputProfile>)
    ensures
        r@ == outputs@,
{
    let mut copy: Vec<OutputProfile> = Vec::new();
    let mut i: usize = 0;
    while i < outputs.len()
        invariant
            i <= outputs@.len(),
            copy@ == outputs@.take(i as int),
        decreases outputs@.len() - i,
    {
        copy.push(outputs[i].clone());
        i += 1;
    }
    assert(outputs@.take(i as int) == outputs@);
    copy
}

/// Compiles one pipeline.
pub fn compile_pipeline(pipeline: &PipelineNode, overlay_variables: &StringMap<String>) -> (r:
    Result<CompiledPipeline, CompileError>)
    ensures
        match r {
            Ok(compiled) => node_template_failure(
                *pipeline,
                overlay::variable_texts(overlay_variables@),
            ) is None && pipeline_compiled(
                compiled,
                *pipeline,
                overlay::variable_texts(overlay_variables@),
            ),
            Err(error) => node_template_failure(
                *pipeline,
                overlay::variable_texts(overlay_variables@),
            ) == Some(error@),
        },
{
    let overlay = match &pipeline.overlay {
        None => None,
        Some(profile) => {
            match overlay::compile_overlay_profile(
                pipeline.id.as_str(),
                profile,
                overlay_variables,
            ) {
                Ok(compiled) => Some(compiled),
                Err(error) => {
                    return Err(error);
                },
            }
        },
    };
    let network = compile_network_profile(&pipeline.network);
    let buffer_count: usize = match pipeline.strategy {
        StreamStrategy::Passthrough => 100,
        StreamStrategy::Transcode => 64,
        StreamStrategy::HardwareDecode => 32,
    };
    let runtime = match &network {
        Some(profile) => RuntimePolicy {
            buffer_size: profile.packet_size_limit,
            watchdog_timeout: profile.stall_timeout,
            buffer_count,
        },
        None => RuntimePolicy {
            buffer_size: DEFAULT_PACKET_BUFFER_SIZE,
            watchdog_timeout: Duration::from_secs(DEFAULT_STALL_TIMEOUT_SECS),
            buffer_count,
        },
    };
    Ok(
        CompiledPipeline {
            id: pipeline.id.clone(),
            input: CompiledInput { kind: pipeline.input_type, source: pipeline.input.clone() },
            strategy: pipeline.strategy,
            network,
            processing: compile_processing_profile(&pipeline.processing),
            overlay,
            runtime,
            resolved_backend: resolve_backend(pipeline),
            execution_mode: resolve_execution_mode(pipeline.strategy),
            codec_path: resolve_codec_path(pipeline),
            recovery: recovery_policy_for(pipeline),
            capability_requirements: capability_requirements_for(pipeline),
            outputs: copy_outputs(&pipeline.outputs),
        },
    )
}

/// Holds the host to being the machine that the manifest asks for.
pub fn validate_host_target(
    hardware_target: HardwareTarget,
    capabilities: &HostCapabilities,
) -> (r: Result<(), CompileError>)
    ensures
        capability::fails_as(r, host_failure(hardware_target, *capabilities)),
{
    match (hardware_target, capabilities.pi_model) {
        (HardwareTarget::RaspberryPi4, Some(PiModel::Pi5)) => Err(
            CompileError::UnsupportedCapability(
                "manifest targets Raspberry Pi 4 but the capability probe detected a Raspberry Pi 5 host".to_owned(),
            ),
        ),
        (HardwareTarget::RaspberryPi5, Some(PiModel::Pi4)) => Err(
            CompileError::UnsupportedCapability(
                "manifest targets Raspberry Pi 5 but the capability probe detected a Raspberry Pi 4 host".to_owned(),
            ),
        ),
        _ => Ok(()),
    }
}

fn invalid_pipeline(id: &str, rest: &str) -> (r: Result<(), CompileError>)
    ensures
        capability::fails_as(r, invalid(id@, rest@)),
{
    Err(CompileError::InvalidConfiguration(text::join3("pipeline '", id, rest)))
}

fn unsupported_pipeline(id: &str, rest: &str) -> (r: Result<(), CompileError>)
    ensures
        capability::fails_as(r, unsupported(id@, rest@)),
{
    Err(CompileError::UnsupportedCapability(text::join3("pipeline '", id, rest)))
}

/// Holds a pipeline to what its strategy needs.
fn validate_shape(pipeline: &PipelineNode) -> (r: Result<(), CompileError>)
    ensures
        capability::fails_as(r, shape_failure(*pipeline)),
{
    let id = pipeline.id.as_str();
    match pipeline.strategy {
        StreamStrategy::Passthrough => {
            if pipeline.processing.is_some() {
                return invalid_pipeline(
                    id,
                    "' defines processing but is marked as passthrough",
                );
            }
            if pipeline.network.is_none() && !frontend::is_libcamera_device(pipeline) {
                return invalid_pipeline(
                    id,
                    "' uses passthrough and requires a network profile",
                );
            }
            if pipeline.overlay.is_some() {
                return invalid_pipeline(
                    id,
                    "' defines overlay but overlays require transcode or hardware_decode",
                );
            }
        },
        StreamStrategy::Transcode => {
            if pipeline.processing.is_none() {
                return invalid_pipeline(
                    id,
                    "' uses transcode and requires a processing profile",
                );
            }
        },
        StreamStrategy::HardwareDecode => {
            if pipeline.processing.is_none() {
                return invalid_pipeline(
                    id,
                    "' uses hardware_decode and requires a processing profile",
                );
            }
        },
    }
    Ok(())
}

/// Refuses the hardware encoder on a machine that has none.
fn validate_encoder(hardware_target: HardwareTarget, pipeline: &PipelineNode) -> (r: Result<
    (),
    CompileError,
>)
    ensures
        capability::fails_as(r, encoder_mismatch(hardware_target, *pipeline)),
{
    if hardware_target == HardwareTarget::RaspberryPi5 {
        if let Some(processing) = &pipeline.processing {
            if is_hardware_encoder(processing.encoder.as_str()) {
                return Err(
                    CompileError::HardwareMismatch(
                        text::join5(
                            "pipeline '",
                            pipeline.id.as_str(),
                            "' cannot use '",
                            processing.encoder.as_str(),
                            "' on Raspberry Pi 5; use software encoding instead",
                        ),
                    ),
                );
            }
        }
    }
    Ok(())
}

/// Holds a pipeline to its rules and, where the host is known, to the host.
pub fn validate_pipeline(
    manifest: &CamlManifest,
    pipeline: &PipelineNode,
    capabilities: Option<&HostCapabilities>,
) -> (r: Result<(), CompileError>)
    ensures
        capability::fails_as(
            r,
            pipeline_failure(
                manifest.system.hardware_target,
                *pipeline,
                match capabilities {
                    Some(host) => Some(*host),
                    None => None,
                },
            ),
        ),
{
    let target = manifest.system.hardware_target;
    match validate_shape(pipeline) {
        Ok(()) => {},
        Err(error) => {
            return Err(error);
        },
    }
    match validate_encoder(target, pipeline) {
        Ok(()) => {},
        Err(error) => {
            return Err(error);
        },
    }
    match capabilities {
        None => Ok(()),
        Some(host) => {
            if target == HardwareTarget::RaspberryPi4 && !host.has_pi4_h264_encoder
                && node_uses_hardware_encoder(pipeline) {
                return unsupported_pipeline(
                    pipeline.id.as_str(),
                    "' requested Raspberry Pi 4 hardware encoding but no Pi 4 H.264 encoder was detected",
                );
            }
            if target == HardwareTarget::RaspberryPi5 && pipeline.strategy
                == StreamStrategy::HardwareDecode && !host.has_pi5_stateless_decoder {
                return unsupported_pipeline(
                    pipeline.id.as_str(),
                    "' requested Raspberry Pi 5 hardware decode but no stateless decoder was detected",
                );
            }
            let requirements = capability_requirements_for(pipeline);
            capability::validate_requirements(&requirements, pipeline.id.as_str(), host)
        },
    }
}

/// Whether an earlier pipeline has the same name.
fn is_name_taken(pipelines: &Vec<PipelineNode>, at: usize) -> (r: bool)
    requires
        at < pipelines@.len(),
    ensures
        r == name_taken(pipelines@, at as int),
{
    let mut k: usize = 0;
    while k < at
        invariant
            k <= at < pipelines@.len(),
            forall|j: int| 0 <= j < k ==> (#[trigger] pipelines@[j]).id@ != pipelines@[at as int].id@,
        decreases at - k,
    {
        if pipelines[k].id == pipelines[at].id {
            assert(pipelines@[k as int].id@ == pipelines@[at as int].id@);
            return true;
        }
        k += 1;
    }
    false
}

/// The product of two numbers, cut off at the largest that can be counted.
fn saturating_product(a: u64, b: u64) -> (r: u64)
    ensures
        r == capped(a as nat * b as nat),
{
    match a.checked_mul(b) {
        Some(product) => product,
        None => u64::MAX,
    }
}

/// Plans the buffers of all pipelines.
fn plan_pools(pipelines: &Vec<PipelineNode>) -> (r: (Vec<BufferPoolPlan>, u64))
    ensures
        r.0@.len() == pipelines@.len(),
        forall|i: int|
            0 <= i < pipelines@.len() ==> pool_planned(#[trigger] r.0@[i], pipelines@[i]),
        r.1 == capped(pool_need(pipelines@)),
{
    let mut pools: Vec<BufferPoolPlan> = Vec::new();
    let mut total: u64 = 0;
    let mut i: usize = 0;
    assert(pipelines@.take(0) == Seq::<PipelineNode>::empty());
    while i < pipelines.len()
        invariant
            i <= pipelines@.len(),
            pools@.len() == i,
            forall|k: int| 0 <= k < i ==> pool_planned(#[trigger] pools@[k], pipelines@[k]),
            total == capped(pool_need(pipelines@.take(i as int))),
        decreases pipelines@.len() - i,
    {
        let node = &pipelines[i];
        let buffer_size: usize = match &node.network {
            Some(profile) => profile.packet_size_limit,
            None => DEFAULT_PACKET_BUFFER_SIZE,
        };
        let buffer_count: usize = match node.strategy {
            StreamStrategy::Passthrough => 100,
            StreamStrategy::Transcode => 64,
            StreamStrategy::HardwareDecode => 32,
        };
        let pool_bytes: u64 = saturating_product(buffer_size as u64, buffer_count as u64);
        pools.push(
            BufferPoolPlan {
                pipeline_id: node.id.clone(),
                buffer_size,
                buffer_count,
                estimated_bytes: pool_bytes,
            },
        );
        assert(pipelines@.take(i + 1).drop_last() == pipelines@.take(i as int));
        assert(pipelines@.take(i + 1).last() == pipelines@[i as int]);
        total = total.saturating_add(pool_bytes);
        i += 1;
    }
    assert(pipelines@.take(i as int) == pipelines@);
    (pools, total)
}

/// The bytes that the backends of all pipelines are expected to use.
fn estimate_backends(pipelines: &Vec<PipelineNode>) -> (r: u64)
    ensures
        r == capped(backend_need(pipelines@)),
{
    let mut total: u64 = 0;
    let mut i: usize = 0;
    assert(pipelines@.take(0) == Seq::<PipelineNode>::empty());
    while i < pipelines.len()
        invariant
            i <= pipelines@.len(),
            total == capped(backend_need(pipelines@.take(i as int))),
        decreases pipelines@.len() - i,
    {
        let node = &pipelines[i];
        let estimate: u64 = match resolve_backend(node) {
            ResolvedInputBackend::FfmpegRtsp => {
                let buffer_size: usize = match &node.network {
                    Some(profile) => profile.packet_size_limit,
                    None => DEFAULT_PACKET_BUFFER_SIZE,
                };
                saturating_product(128, buffer_size as u64)
            },
            ResolvedInputBackend::AutoDevice => {
                128 * 1_200 + 8 * (1_920 * 1_080 * 3 / 2) + 32 * 256_000
            },
            ResolvedInputBackend::V4l2Device => {
                128 * 1_200 + 8 * (1_920 * 1_080 * 3 / 2) + 32 * 256_000
            },
            ResolvedInputBackend::LibcameraDevice => {
                8 * (1_920 * 1_080 * 3 / 2) + 8 * (1_920 * 1_080 * 3 / 2)
            },
        };
        assert(pipelines@.take(i + 1).drop_last() == pipelines@.take(i as int));
        assert(pipelines@.take(i + 1).last() == pipelines@[i as int]);
        total = total.saturating_add(estimate);
        i += 1;
    }
    assert(pipelines@.take(i as int) == pipelines@);
    total
}

/// The compiler.
pub struct CamlCompiler;

impl CamlCompiler {
    /// Compiles a manifest without looking at the host.
    pub fn validate_and_compile(manifest: &CamlManifest) -> (r: Result<
        CompiledGraph,
        CompileError,
    >)
        ensures
            compiles_to(r, *manifest, None, Map::empty()),
    {
        Self::compile_unchecked(manifest)
    }

    /// Compiles a manifest for any Linux machine. A manifest for a Raspberry Pi
    /// needs a probe.
    pub fn compile(manifest: &CamlManifest) -> (r: Result<CompiledGraph, CompileError>)
        ensures
            compiles_without_probe(r, *manifest, Map::empty()),
    {
        let overlay_variables = StringMap::<String>::new();
        assert(overlay::variable_texts(overlay_variables@) =~= Map::empty());
        Self::compile_with_overlay_variables(manifest, &overlay_variables)
    }

    /// Compiles a manifest for any Linux machine, with variables for its overlays.
    pub fn compile_with_overlay_variables(
        manifest: &CamlManifest,
        overlay_variables: &StringMap<String>,
    ) -> (r: Result<CompiledGraph, CompileError>)
        ensures
            compiles_without_probe(
                r,
                *manifest,
                overlay::variable_texts(overlay_variables@),
            ),
    {
        if manifest.system.hardware_target != HardwareTarget::GenericLinux {
            match Self::find_encoder_mismatch(manifest) {
                Ok(()) => {},
                Err(error) => {
                    return Err(error);
                },
            }
            return Err(
                CompileError::InvalidConfiguration(
                    "hardware-target compilation requires a capability probe. Use `compile_with_probe` or `compile_unchecked` if you want to skip guardrails.".to_owned(),
                ),
            );
        }
        Self::compile_internal(manifest, None, overlay_variables)
    }

    /// Refuses the first pipeline that asks for the hardware encoder on a machine
    /// that has none.
    fn find_encoder_mismatch(manifest: &CamlManifest) -> (r: Result<(), CompileError>)
        ensures
            capability::fails_as(
                r,
                encoder_mismatches(manifest.system.hardware_target, manifest.pipelines@),
            ),
    {
        let mut i: usize = 0;
        let ghost nodes = manifest.pipelines@;
        assert(nodes.skip(0) == nodes);
        while i < manifest.pipelines.len()
            invariant
                i <= nodes.len(),
                nodes == manifest.pipelines@,
                encoder_mismatches(manifest.system.hardware_target, nodes) == encoder_mismatches(
                    manifest.system.hardware_target,
                    nodes.skip(i as int),
                ),
            decreases nodes.len() - i,
        {
            assert(nodes.skip(i as int)[0] == nodes[i as int]);
            assert(nodes.skip(i as int).drop_first() == nodes.skip(i + 1));
            match validate_encoder(manifest.system.hardware_target, &manifest.pipelines[i]) {
                Ok(()) => {},
                Err(error) => {
                    return Err(error);
                },
            }
            i += 1;
        }
        Ok(())
    }

    /// Compiles a manifest without looking at the host.
    pub fn compile_unchecked(manifest: &CamlManifest) -> (r: Result<CompiledGraph, CompileError>)
        ensures
            compiles_to(r, *manifest, None, Map::empty()),
    {
        let overlay_variables = StringMap::<String>::new();
        assert(overlay::variable_texts(overlay_variables@) =~= Map::empty());
        Self::compile_unchecked_with_overlay_variables(manifest, &overlay_variables)
    }

    /// Compiles a manifest without looking at the host, with variables for its
    /// overlays.
    pub fn compile_unchecked_with_overlay_variables(
        manifest: &CamlManifest,
        overlay_variables: &StringMap<String>,
    ) -> (r: Result<CompiledGraph, CompileError>)
        ensures
            compiles_to(r, *manifest, None, overlay::variable_texts(overlay_variables@)),
    {
        Self::compile_internal(manifest, None, overlay_variables)
    }

    /// Compiles a manifest for the host that a probe reports.
    pub fn compile_with_probe(
        manifest: &CamlManifest,
        capability_probe: &dyn CapabilityProbe,
    ) -> (r: Result<CompiledGraph, CompileError>)
        ensures
            exists|reply: Result<HostCapabilities, CompileError>| #[trigger]
                capability_probe.may_report(manifest.system.hardware_target, reply)
                    && compiles_after(r, *manifest, reply, Map::empty()),
    {
        let overlay_variables = StringMap::<String>::new();
        assert(overlay::variable_texts(overlay_variables@) =~= Map::empty());
        let reply = capability_probe.capabilities(manifest.system.hardware_target);
        Self::compile_for_reply(manifest, reply, &overlay_variables)
    }

    /// Compiles a manifest for the host that a probe reports, with variables for its
    /// overlays.
    pub fn compile_with_probe_and_overlay_variables(
        manifest: &CamlManifest,
        capability_probe: &dyn CapabilityProbe,
        overlay_variables: &StringMap<String>,
    ) -> (r: Result<CompiledGraph, CompileError>)
        ensures
            exists|reply: Result<HostCapabilities, CompileError>| #[trigger]
                capability_probe.may_report(manifest.system.hardware_target, reply)
                    && compiles_after(
                    r,
                    *manifest,
                    reply,
                    overlay::variable_texts(overlay_variables@),
                ),
    {
        let reply = capability_probe.capabilities(manifest.system.hardware_target);
        Self::compile_for_reply(manifest, reply, overlay_variables)
    }

    /// Compiles a manifest, given what a probe replied.
    pub fn compile_for_reply(
        manifest: &CamlManifest,
        reply: Result<HostCapabilities, CompileError>,
        overlay_variables: &StringMap<String>,
    ) -> (r: Result<CompiledGraph, CompileError>)
        ensures
            compiles_after(r, *manifest, reply, overlay::variable_texts(overlay_variables@)),
    {
        match reply {
            Ok(capabilities) => Self::compile_internal(
                manifest,
                Some(&capabilities),
                overlay_variables,
            ),
            Err(error) => Err(error),
        }
    }

    fn compile_internal(
        manifest: &CamlManifest,
        capabilities: Option<&HostCapabilities>,
        overlay_variables: &StringMap<String>,
    ) -> (r: Result<CompiledGraph, CompileError>)
        ensures
            compiles_to(
                r,
                *manifest,
                match capabilities {
                    Some(host) => Some(*host),
                    None => None,
                },
                overlay::variable_texts(overlay_variables@),
            ),
    {
        let ghost host = match capabilities {
            Some(host) => Some(*host),
            None => None,
        };
        let ghost variables = overlay::variable_texts(overlay_variables@);
        let ghost nodes = manifest.pipelines@;
        let target = manifest.system.hardware_target;
        if let Some(capabilities) = capabilities {
            match validate_host_target(target, capabilities) {
                Ok(()) => {},
                Err(error) => {
                    return Err(error);
                },
            }
        }
        let mut pipelines: Vec<CompiledPipeline> = Vec::new();
        let mut i: usize = 0;
        while i < manifest.pipelines.len()
            invariant
                i <= nodes.len(),
                nodes == manifest.pipelines@,
                target == manifest.system.hardware_target,
                variables == overlay::variable_texts(overlay_variables@),
                host == (match capabilities {
                    Some(host) => Some(*host),
                    None => None,
                }),
                host is Some ==> host_failure(target, host->0) is None,
                nodes_failure(target, nodes, 0, host, variables) == nodes_failure(
                    target,
                    nodes,
                    i as int,
                    host,
                    variables,
                ),
                pipelines@.len() == i,
                forall|k: int|
                    0 <= k < i ==> pipeline_compiled(
                        #[trigger] pipelines@[k],
                        nodes[k],
                        variables,
                    ),
            decreases nodes.len() - i,
        {
            let node = &manifest.pipelines[i];
            if is_name_taken(&manifest.pipelines, i) {
                return Err(CompileError::DuplicatePipelineId(node.id.clone()));
            }
            match validate_pipeline(manifest, node, capabilities) {
                Ok(()) => {},
                Err(error) => {
                    return Err(error);
                },
            }
            match compile_pipeline(node, overlay_variables) {
                Ok(compiled) => {
                    pipelines.push(compiled);
                },
                Err(error) => {
                    return Err(error);
                },
            }
            i += 1;
        }
        let limit: u64 = match (
            manifest.system.cma_allocation_limit,
            manifest.system.media_memory_limit,
        ) {
            (Some(limit), _) => limit.as_bytes(),
            (None, Some(limit)) => limit.as_bytes(),
            (None, None) => 0,
        };
        let (buffer_pools, estimated_pool_bytes) = plan_pools(&manifest.pipelines);
        if estimated_pool_bytes > limit {
            return Err(
                CompileError::ResourceLimitExceeded {
                    configured_limit_bytes: limit,
                    estimated_usage_bytes: estimated_pool_bytes,
                },
            );
        }
        let estimated_backend_bytes: u64 = estimate_backends(&manifest.pipelines);
        let mut warnings: Vec<ResourceWarning> = Vec::new();
        if estimated_pool_bytes.saturating_add(estimated_backend_bytes) > limit {
            warnings.push(ResourceWarning::HighMemoryUsage);
        }
        Ok(
            CompiledGraph {
                system: CompiledSystem {
                    hardware_target: target,
                    cma_allocation_limit_bytes: limit,
                },
                resource_plan: ResourcePlan {
                    configured_limit_bytes: limit,
                    estimated_pool_bytes,
                    estimated_backend_bytes: Some(estimated_backend_bytes),
                    buffer_pools,
                    warnings,
                },
                pipelines,
            },
        )
    }
}

impl CompiledPipeline {
    /// A minimal pipeline for tasks that never look at its policies.
    pub fn sentinel() -> (r: Self)
        ensures
            r.id@ == "__sentinel__"@,
            r.input.kind == InputType::Rtsp,
            r.input.source@ == Seq::<char>::empty(),
            r.strategy == StreamStrategy::Passthrough,
            r.network is None,
            r.processing is None,
            r.overlay is None,
            r.runtime.buffer_size == 1,
            r.runtime.buffer_count == 0,
            r.runtime.watchdog_timeout@ == 0,
            r.resolved_backend == ResolvedInputBackend::FfmpegRtsp,
            r.execution_mode == ExecutionMode::EncodedPackets,
            r.codec_path == CodecPath::Passthrough,
            r.recovery.class == RecoveryClass::Network,
            r.recovery.max_restarts == 0,
            r.recovery.initial_backoff@ == 0,
            r.recovery.max_backoff@ == 0,
            r.recovery.backoff_multiplier.bits == ONE_BITS,
            r.recovery.reset_after@ == 0,
            r.capability_requirements@.len() == 0,
            r.outputs@.len() == 0,
    {
        CompiledPipeline {
            id: "__sentinel__".to_owned(),
            input: CompiledInput { kind: InputType::Rtsp, source: String::new() },
            strategy: StreamStrategy::Passthrough,
            network: None,
            processing: None,
            overlay: None,
            runtime: RuntimePolicy {
                buffer_size: 1,
                watchdog_timeout: Duration::zero(),
                buffer_count: 0,
            },
            resolved_backend: ResolvedInputBackend::FfmpegRtsp,
            execution_mode: ExecutionMode::EncodedPackets,
            codec_path: CodecPath::Passthrough,
            recovery: RecoveryPolicy {
                class: RecoveryClass::Network,
                max_restarts: 0,
                initial_backoff: Duration::zero(),
                max_backoff: Duration::zero(),
                backoff_multiplier: Multiplier { bits: ONE_BITS },
                reset_after: Duration::zero(),
            },
            capability_requirements: Vec::new(),
            outputs: Vec::new(),
        }
    }
}

// ---------------------------------------------------------------------------
// Laws
// ---------------------------------------------------------------------------

/// Whether a pipeline by itself has nothing that keeps it from being compiled.
pub open spec fn node_compiles(
    target: HardwareTarget,
    nodes: Seq<PipelineNode>,
    at: int,
    host: Option<HostCapabilities>,
    variables: Map<Seq<char>, Seq<char>>,
) -> bool {
    &&& !name_taken(nodes, at)
    &&& pipeline_failure(target, nodes[at], host) is None
    &&& node_template_failure(nodes[at], variables) is None
}

/// The pipelines compile together exactly if each of them does.
proof fn lemma_nodes_compile_one_by_one(
    target: HardwareTarget,
    nodes: Seq<PipelineNode>,
    at: int,
    host: Option<HostCapabilities>,
    variables: Map<Seq<char>, Seq<char>>,
)
    requires
        0 <= at,
    ensures
        nodes_failure(target, nodes, at, host, variables) is None <==> forall|k: int|
            at <= k < nodes.len() ==> #[trigger] node_compiles(target, nodes, k, host, variables),
    decreases nodes.len() - at,
{
    if at < nodes.len() {
        lemma_nodes_compile_one_by_one(target, nodes, at + 1, host, variables);
        if nodes_failure(target, nodes, at, host, variables) is None {
            assert(node_compiles(target, nodes, at, host, variables));
        }
        if forall|k: int| at <= k < nodes.len() ==> #[trigger]
            node_compiles(target, nodes, k, host, variables) {
            assert(node_compiles(target, nodes, at, host, variables));
        }
    }
}

/// The pipelines of a compiled graph have different names.
pub proof fn compiled_names_are_distinct(
    graph: CompiledGraph,
    manifest: CamlManifest,
    host: Option<HostCapabilities>,
    variables: Map<Seq<char>, Seq<char>>,
)
    requires
        compiles_to(Ok(graph), manifest, host, variables),
    ensures
        forall|i: int, j: int|
            0 <= i < j < graph.pipelines@.len() ==> (#[trigger] graph.pipelines@[i]).id@ != (
            #[trigger] graph.pipelines@[j]).id@,
{
    let nodes = manifest.pipelines@;
    let target = manifest.system.hardware_target;
    lemma_nodes_compile_one_by_one(target, nodes, 0, host, variables);
    assert forall|i: int, j: int| 0 <= i < j < graph.pipelines@.len() implies (
    #[trigger] graph.pipelines@[i]).id@ != (#[trigger] graph.pipelines@[j]).id@ by {
        assert(node_compiles(target, nodes, j, host, variables));
        assert(pipeline_compiled(graph.pipelines@[i], nodes[i], variables));
        assert(pipeline_compiled(graph.pipelines@[j], nodes[j], variables));
        assert(nodes[i].id@ != nodes[j].id@);
    }
}

/// The buffers of a compiled graph fit into the limit that the manifest sets, and
/// below the largest limit no cut-off hides how much they need.
pub proof fn compiled_pools_fit_the_limit(
    graph: CompiledGraph,
    manifest: CamlManifest,
    host: Option<HostCapabilities>,
    variables: Map<Seq<char>, Seq<char>>,
)
    requires
        compiles_to(Ok(graph), manifest, host, variables),
    ensures
        graph.resource_plan.estimated_pool_bytes <= graph.resource_plan.configured_limit_bytes,
        limit_of(manifest) < u64::MAX ==> graph.resource_plan.estimated_pool_bytes == pool_need(
            manifest.pipelines@,
        ),
{
}

/// A manifest that keeps its own rules is never refused for the shape of one of its
/// pipelines.
pub proof fn valid_manifests_have_well_shaped_pipelines(manifest: CamlManifest, at: int)
    requires
        frontend::manifest_failure(manifest) is None,
        0 <= at < manifest.pipelines@.len(),
    ensures
        shape_failure(manifest.pipelines@[at]) is None,
{
    lemma_valid_nodes_are_well_shaped(manifest.pipelines@, at);
}

proof fn lemma_valid_nodes_are_well_shaped(nodes: Seq<PipelineNode>, at: int)
    requires
        frontend::nodes_failure(nodes) is None,
        0 <= at < nodes.len(),
    ensures
        shape_failure(nodes[at]) is None,
    decreases nodes.len(),
{
    if at == 0 {
        assert(frontend::strategy_failure(nodes[0]) is None);
    } else {
        lemma_valid_nodes_are_well_shaped(nodes.drop_first(), at - 1);
        assert(nodes.drop_first()[at - 1] == nodes[at]);
    }
}

/// What compiles for a host compiles, to the same graph, where the host is not
/// looked at.
pub proof fn looking_at_the_host_only_refuses(
    graph: CompiledGraph,
    manifest: CamlManifest,
    host: HostCapabilities,
    variables: Map<Seq<char>, Seq<char>>,
)
    requires
        compiles_to(Ok(graph), manifest, Some(host), variables),
    ensures
        compiles_to(Ok(graph), manifest, None, variables),
{
    let nodes = manifest.pipelines@;
    let target = manifest.system.hardware_target;
    lemma_nodes_compile_one_by_one(target, nodes, 0, Some(host), variables);
    assert forall|k: int| 0 <= k < nodes.len() implies #[trigger] node_compiles(
        target,
        nodes,
        k,
        None,
        variables,
    ) by {
        assert(node_compiles(target, nodes, k, Some(host), variables));
    }
    lemma_nodes_compile_one_by_one(target, nodes, 0, None, variables);
}

/// A host for which a manifest compiles meets every requirement of every pipeline.
pub proof fn compiled_pipelines_are_supported(
    graph: CompiledGraph,
    manifest: CamlManifest,
    host: HostCapabilities,
    variables: Map<Seq<char>, Seq<char>>,
    at: int,
    requirement: CapabilityRequirement,
)
    requires
        compiles_to(Ok(graph), manifest, Some(host), variables),
        0 <= at < graph.pipelines@.len(),
        graph.pipelines@[at].capability_requirements@.contains(requirement),
    ensures
        capability::met(requirement, host),
{
    let nodes = manifest.pipelines@;
    let target = manifest.system.hardware_target;
    lemma_nodes_compile_one_by_one(target, nodes, 0, Some(host), variables);
    assert(node_compiles(target, nodes, at, Some(host), variables));
    assert(pipeline_compiled(graph.pipelines@[at], nodes[at], variables));
    capability::requirements_hold_iff_all_met(requirements_of(nodes[at]), nodes[at].id@, host);
    let all = graph.pipelines@[at].capability_requirements@;
    let k = choose|k: int| 0 <= k < all.len() && all[k] == requirement;
    assert(capability::met(requirements_of(nodes[at])[k], host));
}

/// A host that can do more, and is no other machine, compiles what one that can do
/// less compiles.
#[verifier::spinoff_prover]
pub proof fn a_better_host_compiles_as_much(
    manifest: CamlManifest,
    less: HostCapabilities,
    more: HostCapabilities,
    variables: Map<Seq<char>, Seq<char>>,
)
    requires
        capability::covers(more, less),
        more.pi_model == less.pi_model,
        compile_failure(manifest, Some(less), variables) is None,
    ensures
        compile_failure(manifest, Some(more), variables) is None,
{
    let nodes = manifest.pipelines@;
    let target = manifest.system.hardware_target;
    lemma_nodes_compile_one_by_one(target, nodes, 0, Some(less), variables);
    assert forall|k: int| 0 <= k < nodes.len() implies #[trigger] node_compiles(
        target,
        nodes,
        k,
        Some(more),
        variables,
    ) by {
        assert(node_compiles(target, nodes, k, Some(less), variables));
        capability::more_capabilities_never_hurt(
            requirements_of(nodes[k]),
            nodes[k].id@,
            less,
            more,
        );
        assert(capability::met(CapabilityRequirement::Pi4HardwareEncoder, less)
            ==> capability::met(CapabilityRequirement::Pi4HardwareEncoder, more));
        assert(capability::met(CapabilityRequirement::Pi5StatelessDecoder, less)
            ==> capability::met(CapabilityRequirement::Pi5StatelessDecoder, more));
    }
    lemma_nodes_compile_one_by_one(target, nodes, 0, Some(more), variables);
}

/// No manifest that asks for the hardware encoder of a Raspberry Pi 5 compiles, in
/// whatever way it is compiled.
pub proof fn the_pi5_never_gets_a_hardware_encoder(
    manifest: CamlManifest,
    at: int,
    host: Option<HostCapabilities>,
    variables: Map<Seq<char>, Seq<char>>,
)
    requires
        manifest.system.hardware_target == HardwareTarget::RaspberryPi5,
        0 <= at < manifest.pipelines@.len(),
        uses_hardware_encoder(manifest.pipelines@[at]),
    ensures
        compile_failure(manifest, host, variables) is Some,
        forall|r: Result<CompiledGraph, CompileError>| #[trigger]
            compiles_without_probe(r, manifest, variables) ==> (r matches Err(error)
                && error@ is HardwareMismatch),
{
    let nodes = manifest.pipelines@;
    let target = manifest.system.hardware_target;
    lemma_nodes_compile_one_by_one(target, nodes, 0, host, variables);
    if nodes_failure(target, nodes, 0, host, variables) is None {
        assert(node_compiles(target, nodes, at, host, variables));
    }
    lemma_mismatch_is_found(target, nodes, at);
}

proof fn lemma_mismatch_is_found(target: HardwareTarget, nodes: Seq<PipelineNode>, at: int)
    requires
        target == HardwareTarget::RaspberryPi5,
        0 <= at < nodes.len(),
        uses_hardware_encoder(nodes[at]),
    ensures
        encoder_mismatches(target, nodes) matches Some(failure) && failure is HardwareMismatch,
    decreases nodes.len(),
{
    if at > 0 {
        assert(nodes.drop_first()[at - 1] == nodes[at]);
        lemma_mismatch_is_found(target, nodes.drop_first(), at - 1);
    }
}

/// A further pipeline needs its own buffers more, as many as its strategy keeps and each as
/// large as the packets it lets in; and lists of pipelines together need what each needs.
pub proof fn needs_add_up(nodes: Seq<PipelineNode>, more: Seq<PipelineNode>, node: PipelineNode)
    ensures
        pool_need(Seq::empty()) == 0,
        ({
            let size: nat = match node.network {
                Some(profile) => profile.packet_size_limit as nat,
                None => 2048,
            };
            let count: nat = match node.strategy {
                StreamStrategy::Passthrough => 100,
                StreamStrategy::Transcode => 64,
                StreamStrategy::HardwareDecode => 32,
            };
            pool_need(nodes.push(node)) == pool_need(nodes) + size * count
        }),
        pool_need(nodes + more) == pool_need(nodes) + pool_need(more),
        backend_need(Seq::empty()) == 0,
        backend_need(nodes.push(node)) == backend_need(nodes) + backend_need(seq![node]),
        backend_need(nodes + more) == backend_need(nodes) + backend_need(more),
    decreases more.len(),
{
    assert(nodes.push(node).drop_last() == nodes);
    assert(seq![node].drop_last() == Seq::<PipelineNode>::empty());
    assert(backend_need(Seq::<PipelineNode>::empty()) == 0);
    assert(backend_need(seq![node]) == backend_bytes(node));
    if more.len() == 0 {
        assert(nodes + more == nodes);
    } else {
        needs_add_up(nodes, more.drop_last(), node);
        assert((nodes + more).drop_last() == nodes + more.drop_last());
    }
}

/// The backend of a pipeline needs room for 128 packets over the network, and for a number
/// of frames where it captures.
pub proof fn backends_need_their_frames(node: PipelineNode)
    ensures
        node.input_type == InputType::Rtsp ==> (node.network matches Some(profile)
            ==> backend_need(seq![node]) == 128 * profile.packet_size_limit),
        node.input_type == InputType::Rtsp && node.network is None ==> backend_need(seq![node])
            == 128 * 2048,
        node.input_type == InputType::Device && node.backend != Some(InputBackend::Libcamera)
            ==> backend_need(seq![node]) == 33_228_800,
        node.input_type == InputType::Device && node.backend == Some(InputBackend::Libcamera)
            ==> backend_need(seq![node]) == 49_766_400,
{
    assert(seq![node].drop_last() == Seq::<PipelineNode>::empty());
    assert(backend_need(Seq::empty()) == 0);
}

/// The bytes of some pools together.
pub open spec fn pools_total(pools: Seq<BufferPoolPlan>) -> nat
    decreases pools.len(),
{
    if pools.len() == 0 {
        0
    } else {
        pools_total(pools.drop_last()) + pools.last().estimated_bytes as nat
    }
}

proof fn lemma_pools_total(pools: Seq<BufferPoolPlan>, nodes: Seq<PipelineNode>)
    requires
        pools.len() == nodes.len(),
        forall|i: int| 0 <= i < nodes.len() ==> pool_planned(#[trigger] pools[i], nodes[i]),
    ensures
        pool_need(nodes) <= u64::MAX ==> pools_total(pools) == pool_need(nodes),
        pool_need(nodes) > u64::MAX ==> pools_total(pools) >= u64::MAX,
        pool_need(nodes) <= u64::MAX ==> forall|i: int|
            0 <= i < pools.len() ==> (#[trigger] pools[i]).estimated_bytes == pools[i].buffer_size
                * pools[i].buffer_count,
    decreases nodes.len(),
{
    if nodes.len() > 0 {
        let front = pools.drop_last();
        let fewer = nodes.drop_last();
        assert forall|i: int| 0 <= i < fewer.len() implies pool_planned(
            #[trigger] front[i],
            fewer[i],
        ) by {
            assert(pool_planned(pools[i], nodes[i]));
        }
        lemma_pools_total(front, fewer);
        let last = nodes.len() - 1;
        assert(pool_planned(pools[last], nodes[last]));
        let size = buffer_size_of(nodes[last]) as nat;
        let count = buffer_count_of(nodes[last].strategy) as nat;
        assert(size * count >= 0) by (nonlinear_arith);
        if pool_need(nodes) <= u64::MAX {
            assert forall|i: int| 0 <= i < pools.len() implies (#[trigger] pools[i]).estimated_bytes
                == pools[i].buffer_size * pools[i].buffer_count by {
                if i < last {
                    assert(front[i] == pools[i]);
                }
            }
        }
    }
}

/// The estimate for the pools of a compiled graph is the sum over all of them, as long as
/// it can be counted. There is one pool for each pipeline, with the buffers that the
/// pipeline runs with, and all of them together fit the limit.
pub proof fn the_pools_add_up_to_the_estimate(
    graph: CompiledGraph,
    manifest: CamlManifest,
    host: Option<HostCapabilities>,
    variables: Map<Seq<char>, Seq<char>>,
)
    requires
        compiles_to(Ok(graph), manifest, host, variables),
    ensures
        ({
            let plan = graph.resource_plan;
            let pools = plan.buffer_pools@;
            &&& pools.len() == graph.pipelines@.len()
            &&& forall|i: int|
                0 <= i < pools.len() ==> {
                    &&& (#[trigger] pools[i]).pipeline_id@ == graph.pipelines@[i].id@
                    &&& pools[i].buffer_size == graph.pipelines@[i].runtime.buffer_size
                    &&& pools[i].buffer_count == graph.pipelines@[i].runtime.buffer_count
                }
            &&& plan.estimated_pool_bytes < u64::MAX ==> {
                &&& plan.estimated_pool_bytes == pools_total(pools)
                &&& forall|i: int|
                    0 <= i < pools.len() ==> (#[trigger] pools[i]).estimated_bytes
                        == pools[i].buffer_size * pools[i].buffer_count
            }
            &&& plan.estimated_pool_bytes == u64::MAX ==> pools_total(pools) >= u64::MAX
            &&& plan.configured_limit_bytes < u64::MAX ==> pools_total(pools)
                <= plan.configured_limit_bytes
        }),
{
    let nodes = manifest.pipelines@;
    let pools = graph.resource_plan.buffer_pools@;
    lemma_pools_total(pools, nodes);
    assert forall|i: int| 0 <= i < pools.len() implies {
        &&& (#[trigger] pools[i]).pipeline_id@ == graph.pipelines@[i].id@
        &&& pools[i].buffer_size == graph.pipelines@[i].runtime.buffer_size
        &&& pools[i].buffer_count == graph.pipelines@[i].runtime.buffer_count
    } by {
        assert(pool_planned(pools[i], nodes[i]));
        assert(pipeline_compiled(graph.pipelines@[i], nodes[i], variables));
    }
}

/// The bytes of all the buffers that some pipelines run with.
pub open spec fn buffers_of(nodes: Seq<PipelineNode>) -> int
    decreases nodes.len(),
{
    if nodes.len() == 0 {
        0
    } else {
        let size: int = match nodes[0].network {
            Some(profile) => profile.packet_size_limit as int,
            None => 2048,
        };
        let count: int = match nodes[0].strategy {
            StreamStrategy::Passthrough => 100,
            StreamStrategy::Transcode => 64,
            StreamStrategy::HardwareDecode => 32,
        };
        count * size + buffers_of(nodes.drop_first())
    }
}

proof fn lemma_buffers_are_the_need(nodes: Seq<PipelineNode>)
    ensures
        buffers_of(nodes) == pool_need(nodes),
    decreases nodes.len(),
{
    if nodes.len() > 0 {
        let first = nodes.take(1);
        let rest = nodes.drop_first();
        lemma_buffers_are_the_need(rest);
        needs_add_up(first, rest, nodes[0]);
        needs_add_up(Seq::empty(), Seq::empty(), nodes[0]);
        assert(first + rest == nodes);
        assert(Seq::<PipelineNode>::empty().push(nodes[0]) == first);
        let size = buffer_size_of(nodes[0]) as int;
        let count = buffer_count_of(nodes[0].strategy) as int;
        assert(size * count == count * size) by (nonlinear_arith);
    }
}

/// A manifest is refused for its memory if and only if nothing else is wrong with it and
/// all its buffers together are larger than the limit; the error tells both numbers. The
/// limit is the one for contiguous memory where there is one, and else that for media.
pub proof fn only_the_sum_of_the_buffers_meets_the_limit(
    manifest: CamlManifest,
    host: Option<HostCapabilities>,
    variables: Map<Seq<char>, Seq<char>>,
)
    requires
        buffers_of(manifest.pipelines@) < u64::MAX,
    ensures
        ({
            let roomy = CamlManifest {
                system: SystemConfig {
                    cma_allocation_limit: Some(ByteSize(u64::MAX)),
                    ..manifest.system
                },
                ..manifest
            };
            let limit: u64 = match manifest.system.cma_allocation_limit {
                Some(contiguous) => contiguous.0,
                None => match manifest.system.media_memory_limit {
                    Some(media) => media.0,
                    None => 0,
                },
            };
            let failure = compile_failure(manifest, host, variables);
            match compile_failure(roomy, host, variables) {
                Some(other) => failure == Some(other),
                None => if buffers_of(manifest.pipelines@) <= limit {
                    failure is None
                } else {
                    failure matches Some(
                        CompileFailure::ResourceLimitExceeded {
                            configured_limit_bytes,
                            estimated_usage_bytes,
                        },
                    ) && configured_limit_bytes == limit && estimated_usage_bytes == buffers_of(
                        manifest.pipelines@,
                    )
                },
            }
        }),
{
    lemma_buffers_are_the_need(manifest.pipelines@);
}

/// A compiled graph warns if and only if its pools and its backends together would be
/// larger than the limit.
pub proof fn warnings_count_pools_and_backends(
    graph: CompiledGraph,
    manifest: CamlManifest,
    host: Option<HostCapabilities>,
    variables: Map<Seq<char>, Seq<char>>,
)
    requires
        compiles_to(Ok(graph), manifest, host, variables),
        graph.resource_plan.configured_limit_bytes < u64::MAX,
    ensures
        graph.resource_plan.estimated_backend_bytes matches Some(backends) && (
        graph.resource_plan.warnings@.contains(ResourceWarning::HighMemoryUsage)
            <==> graph.resource_plan.estimated_pool_bytes + backends
            > graph.resource_plan.configured_limit_bytes),
        graph.resource_plan.warnings@.len() <= 1,
{
    assert(graph.resource_plan.warnings@.len() > 0 ==> graph.resource_plan.warnings@[0]
        == ResourceWarning::HighMemoryUsage);
}

/// A compiled pipeline takes over what its manifest says of it, name by name.
pub proof fn pipelines_are_compiled_as_written(
    graph: CompiledGraph,
    manifest: CamlManifest,
    host: Option<HostCapabilities>,
    variables: Map<Seq<char>, Seq<char>>,
    at: int,
)
    requires
        compiles_to(Ok(graph), manifest, host, variables),
        0 <= at < manifest.pipelines@.len(),
    ensures
        graph.pipelines@.len() == manifest.pipelines@.len(),
        graph.system.hardware_target == manifest.system.hardware_target,
        graph.system.cma_allocation_limit_bytes == graph.resource_plan.configured_limit_bytes,
        ({
            let node = manifest.pipelines@[at];
            let pipeline = graph.pipelines@[at];
            &&& pipeline.id@ == node.id@
            &&& pipeline.input.source@ == node.input@
            &&& pipeline.input.kind == node.input_type
            &&& pipeline.strategy == node.strategy
            &&& pipeline.outputs@ == node.outputs@
            &&& pipeline.network is Some <==> node.network is Some
            &&& (pipeline.network matches Some(network) ==> {
                &&& network.transport == node.network->0.transport
                &&& network.packet_size_limit == node.network->0.packet_size_limit
                &&& network.stall_timeout@ == node.network->0.stall_timeout@
                &&& pipeline.runtime.buffer_size == network.packet_size_limit
                &&& pipeline.runtime.watchdog_timeout@ == network.stall_timeout@
            })
            &&& pipeline.processing is Some <==> node.processing is Some
            &&& (pipeline.processing matches Some(processing) ==> {
                &&& processing.codec@ == node.processing->0.codec@
                &&& processing.encoder@ == node.processing->0.encoder@
                &&& processing.preset@ == node.processing->0.preset@
                &&& processing.tune@ == node.processing->0.tune@
                &&& processing.frame_rate == node.processing->0.frame_rate
                &&& processing.bitrate_bps == node.processing->0.bitrate.0
                &&& processing.rotation == node.processing->0.rotation
            })
            &&& pipeline.overlay is Some <==> node.overlay is Some
            &&& (pipeline.overlay matches Some(overlay) ==> overlay.layers@.len()
                == node.overlay->0.layers@.len())
        }),
{
    assert(pipeline_compiled(graph.pipelines@[at], manifest.pipelines@[at], variables));
}

/// What runs a pipeline follows from its input, its backend and its strategy.
pub proof fn pipelines_run_as_their_manifest_asks(
    graph: CompiledGraph,
    manifest: CamlManifest,
    host: Option<HostCapabilities>,
    variables: Map<Seq<char>, Seq<char>>,
    at: int,
)
    requires
        compiles_to(Ok(graph), manifest, host, variables),
        0 <= at < manifest.pipelines@.len(),
    ensures
        ({
            let node = manifest.pipelines@[at];
            let pipeline = graph.pipelines@[at];
            let rtsp = node.input_type == InputType::Rtsp;
            &&& pipeline.resolved_backend == ResolvedInputBackend::FfmpegRtsp <==> rtsp
            &&& pipeline.resolved_backend == ResolvedInputBackend::V4l2Device <==> !rtsp
                && node.backend == Some(InputBackend::V4l2)
            &&& pipeline.resolved_backend == ResolvedInputBackend::LibcameraDevice <==> !rtsp
                && node.backend == Some(InputBackend::Libcamera)
            &&& pipeline.execution_mode == ExecutionMode::EncodedPackets <==> node.strategy
                == StreamStrategy::Passthrough
            &&& pipeline.codec_path == CodecPath::Passthrough <==> node.strategy
                == StreamStrategy::Passthrough
            &&& pipeline.codec_path == CodecPath::HardwareDecode <==> node.strategy
                == StreamStrategy::HardwareDecode
            &&& pipeline.codec_path == CodecPath::HardwareTranscode <==> node.strategy
                == StreamStrategy::Transcode && names_hardware_encoder(
                node.processing->0.encoder@,
            )
            &&& pipeline.recovery.class == RecoveryClass::Hardware <==> node.strategy
                == StreamStrategy::HardwareDecode
            &&& pipeline.recovery.class == RecoveryClass::Network <==> node.strategy
                != StreamStrategy::HardwareDecode && rtsp
            &&& node.network is None ==> pipeline.runtime.buffer_size == 2048
                && pipeline.runtime.watchdog_timeout@ == 10_000_000_000
        }),
{
    let nodes = manifest.pipelines@;
    let target = manifest.system.hardware_target;
    lemma_nodes_compile_one_by_one(target, nodes, 0, host, variables);
    assert(node_compiles(target, nodes, at, host, variables));
    assert(pipeline_compiled(graph.pipelines@[at], nodes[at], variables));
}

/// A pipeline of any kind is restarted after a wait that starts short of its limit and at
/// least doubles; one that has run longer than it can ever wait starts afresh. A network
/// is tried again sooner and more often than a device, and a device sooner than a decoder.
pub proof fn policies_fit_their_faults(
    network: RecoveryPolicy,
    device: RecoveryPolicy,
    hardware: RecoveryPolicy,
)
    requires
        is_policy_for(network, RecoveryClass::Network),
        is_policy_for(device, RecoveryClass::Device),
        is_policy_for(hardware, RecoveryClass::Hardware),
    ensures
        2 * network.initial_backoff@ <= network.max_backoff@ < network.reset_after@,
        2 * device.initial_backoff@ <= device.max_backoff@ < device.reset_after@,
        2 * hardware.initial_backoff@ <= hardware.max_backoff@ < hardware.reset_after@,
        network.initial_backoff@ < device.initial_backoff@ < hardware.initial_backoff@,
        network.max_backoff@ < device.max_backoff@ < hardware.max_backoff@,
        network.reset_after@ < device.reset_after@ < hardware.reset_after@,
        network.initial_backoff@ == 250_000_000,
        device.initial_backoff@ == 4 * network.initial_backoff@,
        hardware.initial_backoff@ == 2 * device.initial_backoff@,
        network.max_backoff@ == 20 * network.initial_backoff@,
        device.max_backoff@ == 30 * device.initial_backoff@,
        hardware.max_backoff@ == 30 * hardware.initial_backoff@,
        network.reset_after@ == 6 * network.max_backoff@,
        device.reset_after@ == 2 * device.max_backoff@,
        hardware.reset_after@ == 2 * hardware.max_backoff@,
        network.max_restarts == 5,
        device.max_restarts == 3,
        hardware.max_restarts == 3,
        network.backoff_multiplier == device.backoff_multiplier,
        device.backoff_multiplier == hardware.backoff_multiplier,
        network.class == RecoveryClass::Network,
        device.class == RecoveryClass::Device,
        hardware.class == RecoveryClass::Hardware,
{
}

proof fn lemma_output_requirements(outputs: Seq<OutputProfile>, requirement: CapabilityRequirement)
    ensures
        output_requirements(outputs).contains(requirement) <==> requirement
            == CapabilityRequirement::RtpPacketization && exists|i: int|
            0 <= i < outputs.len() && #[trigger] outputs[i] is WebrtcRtp,
    decreases outputs.len(),
{
    if outputs.len() > 0 {
        let front = outputs.drop_last();
        lemma_output_requirements(front, requirement);
        let before = output_requirements(front);
        let all = output_requirements(outputs);
        if outputs.last() is WebrtcRtp {
            assert(all == before.push(CapabilityRequirement::RtpPacketization));
            assert(all.last() == CapabilityRequirement::RtpPacketization);
            if before.contains(requirement) {
                let k = before.index_of(requirement);
                assert(all[k] == requirement);
            }
            if all.contains(requirement) && requirement != CapabilityRequirement::RtpPacketization {
                let k = all.index_of(requirement);
                assert(before[k] == requirement);
            }
            assert(outputs[outputs.len() - 1] is WebrtcRtp);
        } else {
            assert(all == before);
            assert forall|i: int| 0 <= i < outputs.len() && #[trigger] outputs[i] is WebrtcRtp
                implies 0 <= i < front.len() && front[i] is WebrtcRtp by {}
            assert forall|i: int| 0 <= i < front.len() && #[trigger] front[i] is WebrtcRtp
                implies outputs[i] is WebrtcRtp by {}
        }
        if exists|i: int| 0 <= i < front.len() && #[trigger] front[i] is WebrtcRtp {
            let i = choose|i: int| 0 <= i < front.len() && #[trigger] front[i] is WebrtcRtp;
            assert(outputs[i] is WebrtcRtp);
        }
    }
}

proof fn lemma_found_in_either(
    a: Seq<CapabilityRequirement>,
    b: Seq<CapabilityRequirement>,
    requirement: CapabilityRequirement,
)
    ensures
        (a + b).contains(requirement) <==> a.contains(requirement) || b.contains(requirement),
{
    let both = a + b;
    if a.contains(requirement) {
        assert(both[a.index_of(requirement)] == requirement);
    }
    if b.contains(requirement) {
        assert(both[a.len() + b.index_of(requirement)] == requirement);
    }
    if both.contains(requirement) {
        let k = both.index_of(requirement);
        if k < a.len() {
            assert(a[k] == requirement);
        } else {
            assert(b[k - a.len()] == requirement);
        }
    }
}

/// What a pipeline needs of its host, requirement by requirement: the backend that it
/// names, packets where it streams, the encoder or decoder that it uses, and the filters
/// that its layers are drawn with.
pub proof fn pipelines_require_what_they_use(node: PipelineNode, requirement: CapabilityRequirement)
    ensures
        requirements_of(node).contains(requirement) <==> match requirement {
            CapabilityRequirement::Ffmpeg => (node.input_type == InputType::Rtsp && node.strategy
                != StreamStrategy::HardwareDecode) || (node.input_type == InputType::Device
                && node.backend == Some(InputBackend::Ffmpeg)),
            CapabilityRequirement::V4l2 => node.input_type == InputType::Device && node.backend
                == Some(InputBackend::V4l2),
            CapabilityRequirement::Libcamera => node.input_type == InputType::Device
                && node.backend == Some(InputBackend::Libcamera),
            CapabilityRequirement::RtpPacketization => exists|i: int|
                0 <= i < node.outputs@.len() && #[trigger] node.outputs@[i] is WebrtcRtp,
            CapabilityRequirement::Pi4HardwareEncoder => node.strategy == StreamStrategy::Transcode
                && uses_hardware_encoder(node),
            CapabilityRequirement::Pi5StatelessDecoder => node.strategy
                == StreamStrategy::HardwareDecode,
            CapabilityRequirement::DrawTextFilter => node.overlay is Some && exists|i: int|
                0 <= i < node.overlay->0.layers@.len() && !(
                #[trigger] node.overlay->0.layers@[i] is Watermark),
            _ => node.overlay is Some && exists|i: int|
                0 <= i < node.overlay->0.layers@.len()
                    && #[trigger] node.overlay->0.layers@[i] is Watermark,
        },
{
    let input = input_requirements(node);
    let output = output_requirements(node.outputs@);
    let codec = codec_requirements(node);
    let drawn = text_requirements(node);
    let pictures = watermark_requirements(node);
    lemma_output_requirements(node.outputs@, requirement);
    lemma_found_in_either(input, output, requirement);
    lemma_found_in_either(input + output, codec, requirement);
    lemma_found_in_either(input + output + codec, drawn, requirement);
    lemma_found_in_either(input + output + codec + drawn, pictures, requirement);
    assert(input.len() > 0 ==> input.contains(input[0]));
    assert(codec.len() > 0 ==> codec.contains(codec[0]));
    assert(drawn.len() > 0 ==> drawn.contains(drawn[0]));
    assert(pictures.len() > 0 ==> pictures.contains(pictures[0]) && pictures.contains(pictures[1])
        && pictures.contains(pictures[2]));
}

/// A manifest for one model of the Raspberry Pi never compiles for a host that is the other
/// one; any other host is not refused for its model.
pub proof fn models_are_not_mixed_up(
    manifest: CamlManifest,
    host: HostCapabilities,
    variables: Map<Seq<char>, Seq<char>>,
)
    ensures
        ({
            let target = manifest.system.hardware_target;
            let mixed_up = (target == HardwareTarget::RaspberryPi4 && host.pi_model == Some(
                PiModel::Pi5,
            )) || (target == HardwareTarget::RaspberryPi5 && host.pi_model == Some(PiModel::Pi4));
            &&& host_failure(target, host) is Some <==> mixed_up
            &&& mixed_up ==> compile_failure(manifest, Some(host), variables) matches Some(
                CompileFailure::UnsupportedCapability(_),
            )
        }),
{
}

/// The pipelines are looked at in their order: a manifest fails as the first one that does,
/// for its name if an earlier one has it, and else for itself.
pub proof fn the_first_failing_pipeline_is_reported(
    manifest: CamlManifest,
    host: Option<HostCapabilities>,
    variables: Map<Seq<char>, Seq<char>>,
    at: int,
)
    requires
        0 <= at < manifest.pipelines@.len(),
        host matches Some(host) ==> host_failure(manifest.system.hardware_target, host) is None,
        forall|k: int|
            0 <= k < at ==> #[trigger] node_compiles(
                manifest.system.hardware_target,
                manifest.pipelines@,
                k,
                host,
                variables,
            ),
    ensures
        ({
            let nodes = manifest.pipelines@;
            let target = manifest.system.hardware_target;
            let failure = compile_failure(manifest, host, variables);
            if exists|k: int| 0 <= k < at && (#[trigger] nodes[k]).id@ == nodes[at].id@ {
                failure == Some(CompileFailure::DuplicatePipelineId(nodes[at].id@))
            } else if pipeline_failure(target, nodes[at], host) is Some {
                failure == pipeline_failure(target, nodes[at], host)
            } else {
                node_template_failure(nodes[at], variables) is Some ==> failure
                    == node_template_failure(nodes[at], variables)
            }
        }),
{
    lemma_first_failure(
        manifest.system.hardware_target,
        manifest.pipelines@,
        0,
        at,
        host,
        variables,
    );
}

proof fn lemma_first_failure(
    target: HardwareTarget,
    nodes: Seq<PipelineNode>,
    from: int,
    at: int,
    host: Option<HostCapabilities>,
    variables: Map<Seq<char>, Seq<char>>,
)
    requires
        0 <= from <= at < nodes.len(),
        forall|k: int|
            from <= k < at ==> #[trigger] node_compiles(target, nodes, k, host, variables),
    ensures
        nodes_failure(target, nodes, from, host, variables) == nodes_failure(
            target,
            nodes,
            at,
            host,
            variables,
        ),
    decreases at - from,
{
    if from < at {
        assert(node_compiles(target, nodes, from, host, variables));
        lemma_first_failure(target, nodes, from + 1, at, host, variables);
    }
}

/// What a strategy asks of a pipeline: one that passes media on has no processing and no
/// overlay, and a network profile unless libcamera feeds it; any other has processing.
pub proof fn strategies_ask_for_their_profiles(node: PipelineNode)
    ensures
        shape_failure(node) is None <==> (if node.strategy == StreamStrategy::Passthrough {
            &&& node.processing is None
            &&& node.overlay is None
            &&& node.network is Some || (node.input_type == InputType::Device && node.backend
                == Some(InputBackend::Libcamera))
        } else {
            node.processing is Some
        }),
{
}

/// Without a probe, a manifest for a Raspberry Pi is never compiled, and any other as if
/// the host were not looked at.
pub proof fn raspberry_pis_are_compiled_with_a_probe(
    r: Result<CompiledGraph, CompileError>,
    manifest: CamlManifest,
    variables: Map<Seq<char>, Seq<char>>,
)
    requires
        compiles_without_probe(r, manifest, variables),
    ensures
        manifest.system.hardware_target != HardwareTarget::GenericLinux ==> r is Err,
        manifest.system.hardware_target == HardwareTarget::GenericLinux ==> compiles_to(
            r,
            manifest,
            None,
            variables,
        ),
{
}

/// A pipeline that asks for hardware that the host lacks is refused on the Raspberry Pi:
/// the encoder on a Pi 4, and the decoder on a Pi 5.
pub proof fn missing_hardware_is_refused(
    manifest: CamlManifest,
    host: HostCapabilities,
    variables: Map<Seq<char>, Seq<char>>,
    at: int,
)
    requires
        0 <= at < manifest.pipelines@.len(),
        ({
            let target = manifest.system.hardware_target;
            let node = manifest.pipelines@[at];
            ||| target == HardwareTarget::RaspberryPi4 && uses_hardware_encoder(node)
                && !host.has_pi4_h264_encoder
            ||| node.strategy == StreamStrategy::HardwareDecode && !host.has_pi5_stateless_decoder
            ||| target == HardwareTarget::RaspberryPi5 && uses_hardware_encoder(node)
        }),
    ensures
        compile_failure(manifest, Some(host), variables) is Some,
{
    let nodes = manifest.pipelines@;
    let target = manifest.system.hardware_target;
    let node = nodes[at];
    lemma_nodes_compile_one_by_one(target, nodes, 0, Some(host), variables);
    if nodes_failure(target, nodes, 0, Some(host), variables) is None {
        assert(node_compiles(target, nodes, at, Some(host), variables));
        if node.strategy == StreamStrategy::HardwareDecode {
            let decoder = CapabilityRequirement::Pi5StatelessDecoder;
            pipelines_require_what_they_use(node, decoder);
            capability::requirements_hold_iff_all_met(requirements_of(node), node.id@, host);
            let k = requirements_of(node).index_of(decoder);
            assert(capability::met(requirements_of(node)[k], host));
        }
    }
}

/// The hardware encoder is asked for by either of its names, in any case of letters and
/// with any white space around it; the software encoders are other names.
pub proof fn hardware_encoders_go_by_two_names(front: Seq<char>, name: Seq<char>, back: Seq<char>)
    requires
        text::all_white(front),
        text::all_white(back),
        name.len() > 0,
        !text::is_whitespace(name[0]),
        !text::is_whitespace(name.last()),
    ensures
        names_hardware_encoder(front + name + back) <==> text::lower(name) == "hardware"@
            || text::lower(name) == "v4l2m2m"@,
        text::lower(name) == "software"@ || text::lower(name) == "libx264"@
            ==> !names_hardware_encoder(front + name + back),
{
    text::trimming_takes_white_space_off(front, name, back);
    reveal_strlit("software");
    reveal_strlit("libx264");
    reveal_strlit("hardware");
    reveal_strlit("v4l2m2m");
    assert("software"@[0] == 's' && "libx264"@[0] == 'l');
    assert("hardware"@[0] == 'h' && "v4l2m2m"@[0] == 'v');
}

/// A pipeline is taken for a host if and only if it has the profiles of its strategy, asks
/// no Pi 5 for an encoder and no Pi 4 for one that is missing, and finds all that it
/// requires.
pub proof fn pipelines_are_taken_if_all_is_there(
    target: HardwareTarget,
    node: PipelineNode,
    host: HostCapabilities,
)
    ensures
        pipeline_failure(target, node, Some(host)) is None <==> {
            &&& shape_failure(node) is None
            &&& !(target == HardwareTarget::RaspberryPi5 && uses_hardware_encoder(node))
            &&& !(target == HardwareTarget::RaspberryPi4 && uses_hardware_encoder(node)
                && !host.has_pi4_h264_encoder)
            &&& forall|requirement: CapabilityRequirement|
                requirements_of(node).contains(requirement) ==> #[trigger] capability::met(
                    requirement,
                    host,
                )
        },
        pipeline_failure(target, node, None) is None <==> shape_failure(node) is None && !(target
            == HardwareTarget::RaspberryPi5 && uses_hardware_encoder(node)),
{
    let all = requirements_of(node);
    capability::requirements_hold_iff_all_met(all, node.id@, host);
    let decoder = CapabilityRequirement::Pi5StatelessDecoder;
    pipelines_require_what_they_use(node, decoder);
    capability::requirements_ask_for_one_thing(host);
    if forall|i: int| 0 <= i < all.len() ==> capability::met(#[trigger] all[i], host) {
        assert forall|requirement: CapabilityRequirement|
            all.contains(requirement) implies #[trigger] capability::met(requirement, host) by {
            assert(all[all.index_of(requirement)] == requirement);
        }
    }
    if forall|requirement: CapabilityRequirement|
        all.contains(requirement) ==> #[trigger] capability::met(requirement, host) {
        assert forall|i: int| 0 <= i < all.len() implies capability::met(
            #[trigger] all[i],
            host,
        ) by {
            assert(all.contains(all[i]));
        }
        if node.strategy == StreamStrategy::HardwareDecode {
            assert(all.contains(decoder));
            assert(capability::met(decoder, host));
        }
    }
}

/// What compiling says is what is wrong: an error is the failure of the manifest, and a
/// manifest without one compiles. A probe that fails is reported as it is.
pub proof fn errors_are_the_failures(
    r: Result<CompiledGraph, CompileError>,
    manifest: CamlManifest,
    reply: Result<HostCapabilities, CompileError>,
    variables: Map<Seq<char>, Seq<char>>,
)
    requires
        compiles_after(r, manifest, reply, variables),
    ensures
        match reply {
            Err(error) => r matches Err(same) && same == error,
            Ok(host) => match compile_failure(manifest, Some(host), variables) {
                Some(failure) => r matches Err(error) && error@ == failure,
                None => r is Ok,
            },
        },
{
}

/// However a manifest is compiled without a host, the estimate for its pools is the sum over
/// all of them, and fits the limit.
pub proof fn compiled_pools_add_up(manifest: &CamlManifest, graph: CompiledGraph)
    requires
        call_ensures(CamlCompiler::compile_unchecked, (manifest,), Ok(graph)) || call_ensures(
            CamlCompiler::validate_and_compile,
            (manifest,),
            Ok(graph),
        ) || call_ensures(CamlCompiler::compile, (manifest,), Ok(graph)),
    ensures
        ({
            let plan = graph.resource_plan;
            let pools = plan.buffer_pools@;
            &&& pools.len() == manifest.pipelines@.len()
            &&& plan.estimated_pool_bytes < u64::MAX ==> plan.estimated_pool_bytes == pools_total(
                pools,
            )
            &&& plan.estimated_pool_bytes < u64::MAX ==> pools_total(pools) == buffers_of(
                manifest.pipelines@,
            )
            &&& plan.configured_limit_bytes < u64::MAX ==> pools_total(pools)
                <= plan.configured_limit_bytes
        }),
{
    the_pools_add_up_to_the_estimate(graph, *manifest, None, Map::empty());
    lemma_pools_total(graph.resource_plan.buffer_pools@, manifest.pipelines@);
    lemma_buffers_are_the_need(manifest.pipelines@);
}

/// With a host that was reported, a manifest compiles to pipelines as they were written, for
/// as much memory as the limit allows, and every pipeline finds what it requires.
pub proof fn graphs_for_a_host_fit_it(
    manifest: &CamlManifest,
    host: HostCapabilities,
    overlay_variables: &StringMap<String>,
    graph: CompiledGraph,
    at: int,
)
    requires
        call_ensures(
            CamlCompiler::compile_for_reply,
            (manifest, Ok(host), overlay_variables),
            Ok(graph),
        ),
        0 <= at < manifest.pipelines@.len(),
    ensures
        graph.pipelines@.len() == manifest.pipelines@.len(),
        graph.pipelines@[at].id@ == manifest.pipelines@[at].id@,
        graph.pipelines@[at].input.source@ == manifest.pipelines@[at].input@,
        graph.pipelines@[at].strategy == manifest.pipelines@[at].strategy,
        graph.pipelines@[at].outputs@ == manifest.pipelines@[at].outputs@,
        forall|requirement: CapabilityRequirement|
            graph.pipelines@[at].capability_requirements@.contains(requirement)
                ==> #[trigger] capability::met(requirement, host),
        graph.resource_plan.estimated_pool_bytes < u64::MAX
            ==> graph.resource_plan.estimated_pool_bytes == pools_total(
            graph.resource_plan.buffer_pools@,
        ),
        graph.resource_plan.configured_limit_bytes < u64::MAX ==> pools_total(
            graph.resource_plan.buffer_pools@,
        ) <= graph.resource_plan.configured_limit_bytes,
        !(graph.system.hardware_target == HardwareTarget::RaspberryPi4 && host.pi_model == Some(
            PiModel::Pi5,
        )),
        !(graph.system.hardware_target == HardwareTarget::RaspberryPi5 && host.pi_model == Some(
            PiModel::Pi4,
        )),
        forall|other: int|
            0 <= other < manifest.pipelines@.len() && other != at ==> (
            #[trigger] manifest.pipelines@[other]).id@ != manifest.pipelines@[at].id@,
{
    let variables = overlay::variable_texts(overlay_variables@);
    pipelines_are_compiled_as_written(graph, *manifest, Some(host), variables, at);
    the_pools_add_up_to_the_estimate(graph, *manifest, Some(host), variables);
    models_are_not_mixed_up(*manifest, host, variables);
    assert forall|requirement: CapabilityRequirement|
        graph.pipelines@[at].capability_requirements@.contains(
            requirement,
        ) implies #[trigger] capability::met(requirement, host) by {
        compiled_pipelines_are_supported(
            graph,
            *manifest,
            host,
            variables,
            at,
            requirement,
        );
    }
    compiled_names_are_distinct(graph, *manifest, Some(host), variables);
    assert forall|other: int|
        0 <= other < manifest.pipelines@.len() && other != at implies (
    #[trigger] manifest.pipelines@[other]).id@ != manifest.pipelines@[at].id@ by {
        assert(pipeline_compiled(graph.pipelines@[other], manifest.pipelines@[other], variables));
        assert(pipeline_compiled(graph.pipelines@[at], manifest.pipelines@[at], variables));
        if other < at {
            assert(graph.pipelines@[other].id@ != graph.pipelines@[at].id@);
        } else {
            assert(graph.pipelines@[at].id@ != graph.pipelines@[other].id@);
        }
    }
}

/// A manifest whose buffers together are larger than its limit is never compiled, whatever
/// the host.
pub proof fn too_large_manifests_never_compile(
    manifest: &CamlManifest,
    reply: Result<HostCapabilities, CompileError>,
    overlay_variables: &StringMap<String>,
    r: Result<CompiledGraph, CompileError>,
    unchecked: Result<CompiledGraph, CompileError>,
)
    requires
        call_ensures(CamlCompiler::compile_for_reply, (manifest, reply, overlay_variables), r),
        call_ensures(CamlCompiler::compile_unchecked, (manifest,), unchecked),
        manifest.system.cma_allocation_limit matches Some(limit) && buffers_of(
            manifest.pipelines@,
        ) > limit.0,
        buffers_of(manifest.pipelines@) < u64::MAX,
    ensures
        r is Err,
        unchecked is Err,
{
    let variables = overlay::variable_texts(overlay_variables@);
    only_the_sum_of_the_buffers_meets_the_limit(*manifest, None, Map::empty());
    if let Ok(host) = reply {
        only_the_sum_of_the_buffers_meets_the_limit(*manifest, Some(host), variables);
    }
}

/// What a pipeline runs on follows from what its manifest says, each part by itself.
pub proof fn parts_of_a_pipeline_are_resolved(
    node: &PipelineNode,
    backend: ResolvedInputBackend,
    mode: ExecutionMode,
    path: CodecPath,
    policy: RecoveryPolicy,
    requirements: Vec<CapabilityRequirement>,
)
    requires
        call_ensures(resolve_backend, (node,), backend),
        call_ensures(resolve_execution_mode, (node.strategy,), mode),
        call_ensures(resolve_codec_path, (node,), path),
        call_ensures(recovery_policy_for, (node,), policy),
        call_ensures(capability_requirements_for, (node,), requirements),
    ensures
        backend == ResolvedInputBackend::FfmpegRtsp <==> node.input_type == InputType::Rtsp,
        backend == ResolvedInputBackend::LibcameraDevice <==> node.input_type == InputType::Device
            && node.backend == Some(InputBackend::Libcamera),
        backend == ResolvedInputBackend::V4l2Device <==> node.input_type == InputType::Device
            && node.backend == Some(InputBackend::V4l2),
        mode == ExecutionMode::EncodedPackets <==> node.strategy == StreamStrategy::Passthrough,
        path == CodecPath::Passthrough <==> node.strategy == StreamStrategy::Passthrough,
        path == CodecPath::HardwareDecode <==> node.strategy == StreamStrategy::HardwareDecode,
        path == CodecPath::HardwareTranscode ==> node.processing is Some && names_hardware_encoder(
            node.processing->0.encoder@,
        ),
        policy.class == RecoveryClass::Hardware <==> node.strategy
            == StreamStrategy::HardwareDecode,
        policy.class == RecoveryClass::Network ==> node.input_type == InputType::Rtsp
            && policy.max_restarts == 5,
        policy.class == RecoveryClass::Device ==> node.input_type == InputType::Device
            && policy.max_restarts == 3,
        2 * policy.initial_backoff@ <= policy.max_backoff@ < policy.reset_after@,
        requirements@.contains(CapabilityRequirement::Libcamera) <==> backend
            == ResolvedInputBackend::LibcameraDevice,
        requirements@.contains(CapabilityRequirement::V4l2) <==> backend
            == ResolvedInputBackend::V4l2Device,
        requirements@.contains(CapabilityRequirement::Pi4HardwareEncoder) <==> path
            == CodecPath::HardwareTranscode,
        requirements@.contains(CapabilityRequirement::Pi5StatelessDecoder) <==> path
            == CodecPath::HardwareDecode,
        requirements@.contains(CapabilityRequirement::RtpPacketization) <==> exists|i: int|
            0 <= i < node.outputs@.len() && #[trigger] node.outputs@[i] is WebrtcRtp,
{
    pipelines_require_what_they_use(*node, CapabilityRequirement::Libcamera);
    pipelines_require_what_they_use(*node, CapabilityRequirement::V4l2);
    pipelines_require_what_they_use(*node, CapabilityRequirement::Pi4HardwareEncoder);
    pipelines_require_what_they_use(*node, CapabilityRequirement::Pi5StatelessDecoder);
    pipelines_require_what_they_use(*node, CapabilityRequirement::RtpPacketization);
}

} // verus!
