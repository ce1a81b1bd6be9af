//! Manifests as they are written, what they compile to, and what runs are built of.

use std::sync::Arc;

use caml::adapters::{BuiltinAdapters, Features, SinkLayout, SinkPlan};
use caml::builder::FeatureProbes;
use caml::ffmpeg::source::FfmpegSourceFactory;
use caml::frontend::{
    CaptureProfile, DropPolicy as WrittenPolicy, OverlayLayer, OverlayPosition, OverlayProfile,
    OverlayTimezone, TextOverlayStyle, TimestampSource,
};
use caml::linux_media::camera::{resolve_camera_index, LibcameraSourceFactory};
use caml::linux_media::probe::{linux_capability_probe, HostObservations};
use caml::runtime::mock::{MockSourceAction, MockSourcePlan, MockStep};
use caml::runtime::pipeline_loop::{received, LoopAction, LoopEvent, PipelineLoop};
use caml::runtime::supervisor::{
    PipelineLoopExit, Supervisor, SupervisorAction, SupervisorEvent,
};
use caml::time::Duration;
use caml::units::parse_duration;
use caml::{
    Bitrate, BufferPool, ByteSize, CamlCompiler, CamlError, CamlManifest, CamlPipeline,
    CamlPipelineBuilder, CapabilityProbe, CapabilityRequirement, CompileError,
    CompiledOverlayLayer, CompiledPipeline, CompositeCapabilityProbe, DropPolicy, HardwareTarget,
    HostCapabilities, InputBackend, InputType, ManifestError, Multiplier, NetworkProfile,
    OutputProfile, PiModel, PipelineNode, ProcessingProfile, RecoveryClass, ResourceWarning,
    RuntimeBuilder, RuntimeBuilderError, RuntimeEngine, RuntimeError, RuntimeEvent,
    StaticCapabilityProbe, StreamStrategy, StringMap, SystemConfig, TaskStatus, Transport,
};
use serde_yaml::{Mapping, Value};

type RunBuilder = RuntimeBuilder<&'static str, &'static str, &'static str, &'static str>;
type PipelineBuilder = CamlPipelineBuilder<&'static str, &'static str, &'static str>;

// Reading manifests.

type Reading<T> = Result<T, String>;

fn fields<'a>(value: &'a Value, known: &[&str]) -> Reading<&'a Mapping> {
    let map = value.as_mapping().ok_or("expected a mapping")?;
    for key in map.keys() {
        let key = key.as_str().ok_or("expected a name")?;
        if !known.contains(&key) {
            return Err(format!("unknown field `{}`", key));
        }
    }
    Ok(map)
}

fn optional<T>(map: &Mapping, key: &str, read: fn(&Value) -> Reading<T>) -> Reading<Option<T>> {
    match map.get(key) {
        None | Some(Value::Null) => Ok(None),
        Some(value) => read(value).map(Some),
    }
}

fn required<T>(map: &Mapping, key: &str, read: fn(&Value) -> Reading<T>) -> Reading<T> {
    match map.get(key) {
        None => Err(format!("missing field `{}`", key)),
        Some(value) => read(value),
    }
}

fn string(value: &Value) -> Reading<String> {
    value.as_str().map(str::to_string).ok_or("expected a text".to_string())
}

fn unsigned(value: &Value) -> Reading<u64> {
    value.as_u64().ok_or("expected a number".to_string())
}

fn number(value: &Value) -> Reading<u32> {
    u32::try_from(unsigned(value)?).map_err(|error| error.to_string())
}

fn size(value: &Value) -> Reading<usize> {
    usize::try_from(unsigned(value)?).map_err(|error| error.to_string())
}

fn byte(value: &Value) -> Reading<u8> {
    u8::try_from(unsigned(value)?).map_err(|error| error.to_string())
}

fn degrees(value: &Value) -> Reading<i32> {
    let degrees = value.as_i64().ok_or("expected a number")?;
    i32::try_from(degrees).map_err(|error| error.to_string())
}

fn byte_size(value: &Value) -> Reading<ByteSize> {
    ByteSize::from_str(&string(value)?)
}

fn bitrate(value: &Value) -> Reading<Bitrate> {
    Bitrate::from_str(&string(value)?)
}

fn duration(value: &Value) -> Reading<Duration> {
    parse_duration(&string(value)?)
}

fn one_of<T: Copy>(value: &Value, names: &[(&str, T)]) -> Reading<T> {
    let name = string(value)?;
    match names.iter().find(|(known, _)| *known == name) {
        Some((_, found)) => Ok(*found),
        None => Err(format!("unknown variant `{}`", name)),
    }
}

fn target(value: &Value) -> Reading<HardwareTarget> {
    one_of(
        value,
        &[
            ("RASPBERRY_PI_4", HardwareTarget::RaspberryPi4),
            ("RASPBERRY_PI_5", HardwareTarget::RaspberryPi5),
            ("GENERIC_LINUX", HardwareTarget::GenericLinux),
        ],
    )
}

fn input_type(value: &Value) -> Reading<InputType> {
    one_of(value, &[("rtsp", InputType::Rtsp), ("device", InputType::Device)])
}

fn strategy(value: &Value) -> Reading<StreamStrategy> {
    one_of(
        value,
        &[
            ("passthrough", StreamStrategy::Passthrough),
            ("transcode", StreamStrategy::Transcode),
            ("hardware_decode", StreamStrategy::HardwareDecode),
        ],
    )
}

fn backend(value: &Value) -> Reading<InputBackend> {
    one_of(
        value,
        &[
            ("auto", InputBackend::Auto),
            ("ffmpeg", InputBackend::Ffmpeg),
            ("v4l2", InputBackend::V4l2),
            ("libcamera", InputBackend::Libcamera),
        ],
    )
}

fn transport(value: &Value) -> Reading<Transport> {
    one_of(value, &[("tcp", Transport::Tcp), ("udp", Transport::Udp)])
}

fn drop_policy(value: &Value) -> Reading<WrittenPolicy> {
    one_of(
        value,
        &[
            ("block", WrittenPolicy::Block),
            ("drop_oldest", WrittenPolicy::DropOldest),
            ("drop_newest", WrittenPolicy::DropNewest),
        ],
    )
}

fn position(value: &Value) -> Reading<OverlayPosition> {
    one_of(
        value,
        &[
            ("top_left", OverlayPosition::TopLeft),
            ("top_right", OverlayPosition::TopRight),
            ("bottom_left", OverlayPosition::BottomLeft),
            ("bottom_right", OverlayPosition::BottomRight),
        ],
    )
}

fn timezone(value: &Value) -> Reading<OverlayTimezone> {
    one_of(value, &[("local", OverlayTimezone::Local), ("utc", OverlayTimezone::Utc)])
}

fn network(value: &Value) -> Reading<NetworkProfile> {
    let map = fields(value, &["transport", "packet_size_limit", "stall_timeout"])?;
    Ok(NetworkProfile {
        transport: required(map, "transport", transport)?,
        packet_size_limit: required(map, "packet_size_limit", size)?,
        stall_timeout: required(map, "stall_timeout", duration)?,
    })
}

fn capture(value: &Value) -> Reading<CaptureProfile> {
    let map = fields(value, &["width", "height", "pixel_format", "frame_rate"])?;
    Ok(CaptureProfile {
        width: required(map, "width", number)?,
        height: required(map, "height", number)?,
        pixel_format: required(map, "pixel_format", string)?,
        frame_rate: required(map, "frame_rate", number)?,
    })
}

fn processing(value: &Value) -> Reading<ProcessingProfile> {
    let known = ["codec", "encoder", "preset", "tune", "frame_rate", "bitrate", "rotation"];
    let map = fields(value, &known)?;
    Ok(ProcessingProfile {
        codec: required(map, "codec", string)?,
        encoder: required(map, "encoder", string)?,
        preset: required(map, "preset", string)?,
        tune: required(map, "tune", string)?,
        frame_rate: required(map, "frame_rate", number)?,
        bitrate: required(map, "bitrate", bitrate)?,
        rotation: optional(map, "rotation", degrees)?,
    })
}

fn style(map: &Mapping) -> Reading<TextOverlayStyle> {
    Ok(TextOverlayStyle {
        font_size: optional(map, "font_size", number)?,
        font_color: optional(map, "font_color", string)?,
        background_color: optional(map, "background_color", string)?,
        background_alpha: optional(map, "background_alpha", byte)?,
        padding: optional(map, "padding", number)?,
        margin: optional(map, "margin", number)?,
    })
}

fn layer(value: &Value) -> Reading<OverlayLayer> {
    let map = value.as_mapping().ok_or("expected a mapping")?;
    match required(map, "type", string)?.as_str() {
        "timestamp" => Ok(OverlayLayer::Timestamp {
            position: required(map, "position", position)?,
            source: TimestampSource::WallClock,
            timezone: optional(map, "timezone", timezone)?.unwrap_or(OverlayTimezone::Utc),
            format: optional(map, "format", string)?,
            style: style(map)?,
        }),
        "text" => Ok(OverlayLayer::Text {
            text: required(map, "text", string)?,
            position: required(map, "position", position)?,
            style: style(map)?,
        }),
        "watermark" => Ok(OverlayLayer::Watermark {
            image_path: required(map, "image_path", string)?,
            position: required(map, "position", position)?,
            max_width_px: optional(map, "max_width_px", number)?,
            opacity: optional(map, "opacity", byte)?,
            margin: optional(map, "margin", number)?,
        }),
        other => Err(format!("unknown variant `{}`", other)),
    }
}

fn overlay(value: &Value) -> Reading<OverlayProfile> {
    let map = fields(value, &["layers"])?;
    Ok(OverlayProfile { layers: required(map, "layers", |value| list(value, layer))? })
}

fn output(value: &Value) -> Reading<OutputProfile> {
    let map = value.as_mapping().ok_or("expected a mapping")?;
    let queue_limit = optional(map, "queue_limit", size)?;
    let drop_policy = optional(map, "drop_policy", drop_policy)?.unwrap_or(WrittenPolicy::Block);
    match required(map, "type", string)?.as_str() {
        "webrtc_rtp" => Ok(OutputProfile::WebrtcRtp {
            codec: optional(map, "codec", string)?,
            payload_type: optional(map, "payload_type", byte)?,
            mtu: optional(map, "mtu", size)?,
            ssrc: optional(map, "ssrc", string)?,
            clock_rate: optional(map, "clock_rate", number)?,
            queue_limit,
            drop_policy,
        }),
        "recording" => Ok(OutputProfile::Recording { queue_limit, drop_policy }),
        other => Err(format!("unknown variant `{}`", other)),
    }
}

fn list<T>(value: &Value, read: fn(&Value) -> Reading<T>) -> Reading<Vec<T>> {
    value.as_sequence().ok_or("expected a list")?.iter().map(read).collect()
}

fn node(value: &Value) -> Reading<PipelineNode> {
    let known = [
        "id", "input", "type", "strategy", "backend", "network", "capture", "processing",
        "overlay", "outputs",
    ];
    let map = fields(value, &known)?;
    Ok(PipelineNode {
        id: required(map, "id", string)?,
        input: required(map, "input", string)?,
        input_type: required(map, "type", input_type)?,
        strategy: required(map, "strategy", strategy)?,
        backend: optional(map, "backend", backend)?,
        network: optional(map, "network", network)?,
        capture: optional(map, "capture", capture)?,
        processing: optional(map, "processing", processing)?,
        overlay: optional(map, "overlay", overlay)?,
        outputs: optional(map, "outputs", |value| list(value, output))?.unwrap_or_default(),
    })
}

fn system(value: &Value) -> Reading<SystemConfig> {
    let known = ["hardware_target", "cma_allocation_limit", "media_memory_limit"];
    let map = fields(value, &known)?;
    Ok(SystemConfig {
        hardware_target: required(map, "hardware_target", target)?,
        cma_allocation_limit: optional(map, "cma_allocation_limit", byte_size)?,
        media_memory_limit: optional(map, "media_memory_limit", byte_size)?,
    })
}

fn manifest_of(value: &Value) -> Reading<CamlManifest> {
    let map = fields(value, &["version", "system", "pipelines"])?;
    Ok(CamlManifest {
        version: optional(map, "version", number)?,
        system: required(map, "system", system)?,
        pipelines: required(map, "pipelines", |value| list(value, node))?,
    })
}

fn manifest_from_yaml(input: &str) -> Result<CamlManifest, ManifestError> {
    let parsed = serde_yaml::from_str::<Value>(input)
        .map_err(|error| error.to_string())
        .and_then(|value| manifest_of(&value));
    CamlManifest::from_parsed(parsed)
}

fn factor(multiplier: Multiplier) -> f32 {
    f32::from_bits(multiplier.bits)
}

fn valid_manifest() -> &'static str {
    r#"
system:
  hardware_target: "RASPBERRY_PI_5"
  cma_allocation_limit: "512MB"
pipelines:
  - id: "forward_primary"
    input: "rtsp://192.168.1.50:554/stream1"
    type: "rtsp"
    strategy: "passthrough"
    network:
      transport: "tcp"
      packet_size_limit: 1200
      stall_timeout: 10s
  - id: "belly_optical"
    input: "/dev/video0"
    type: "device"
    strategy: "transcode"
    processing:
      codec: "h264"
      encoder: "software"
      preset: "ultrafast"
      tune: "zerolatency"
      frame_rate: 30
      bitrate: "512k"
      rotation: 90
"#
}

#[test]
fn parses_valid_manifest_into_typed_values() {
    let manifest = manifest_from_yaml(valid_manifest()).expect("manifest should parse");

    assert_eq!(
        manifest.system.hardware_target,
        HardwareTarget::RaspberryPi5
    );
    assert_eq!(manifest.system.cma_allocation_limit.unwrap().as_bytes(), 512_000_000);
    assert_eq!(manifest.pipelines[0].input_type, InputType::Rtsp);
    assert_eq!(manifest.pipelines[0].strategy, StreamStrategy::Passthrough);
    assert_eq!(
        manifest.pipelines[0]
            .network
            .as_ref()
            .expect("network")
            .transport,
        Transport::Tcp
    );
    assert_eq!(
        manifest.pipelines[0]
            .network
            .as_ref()
            .expect("network")
            .stall_timeout,
        Duration::from_secs(10)
    );
    assert_eq!(
        manifest.pipelines[1]
            .processing
            .as_ref()
            .expect("processing")
            .bitrate
            .as_bits_per_second(),
        512_000
    );
}

#[test]
fn parses_optional_backend_selection() {
    let manifest = manifest_from_yaml(
        r#"
system:
  hardware_target: "GENERIC_LINUX"
  cma_allocation_limit: "128MB"
pipelines:
  - id: "device"
    input: "/dev/video0"
    type: "device"
    strategy: "transcode"
    backend: "v4l2"
    processing:
      codec: "h264"
      encoder: "software"
      preset: "ultrafast"
      tune: "zerolatency"
      frame_rate: 30
      bitrate: "512k"
"#,
    )
    .expect("manifest should parse");

    assert_eq!(manifest.pipelines[0].backend, Some(InputBackend::V4l2));
}

#[test]
fn rejects_invalid_duration_format() {
    let manifest = valid_manifest().replace("10s", "\"ten seconds\"");
    let error = manifest_from_yaml(&manifest).expect_err("duration should fail");

    assert!(matches!(error, ManifestError::Yaml(_)));
    assert!(error.to_string().contains("Invalid duration format"));
}

#[test]
fn rejects_invalid_bitrate_format() {
    let manifest = valid_manifest().replace("\"512k\"", "\"512elephants\"");
    let error = manifest_from_yaml(&manifest).expect_err("bitrate should fail");

    assert!(matches!(error, ManifestError::Yaml(_)));
    assert!(error.to_string().contains("Invalid bitrate format"));
}

#[test]
fn rejects_invalid_byte_size_format() {
    let manifest = valid_manifest().replace("\"512MB\"", "\"512XB\"");
    let error = manifest_from_yaml(&manifest).expect_err("byte size should fail");

    assert!(matches!(error, ManifestError::Yaml(_)));
    assert!(error.to_string().contains("Invalid byte size format"));
}

#[test]
fn rejects_passthrough_pipeline_with_processing() {
    let manifest = r#"
system:
  hardware_target: "RASPBERRY_PI_5"
  cma_allocation_limit: "512MB"
pipelines:
  - id: "bad_passthrough"
    input: "rtsp://127.0.0.1:8554/live"
    type: "rtsp"
    strategy: "passthrough"
    network:
      transport: "tcp"
      packet_size_limit: 1200
      stall_timeout: 10s
    processing:
      codec: "h264"
      encoder: "software"
      preset: "ultrafast"
      tune: "zerolatency"
      frame_rate: 30
      bitrate: "512k"
"#;

    let error = manifest_from_yaml(manifest).expect_err("manifest should be invalid");
    assert!(matches!(error, ManifestError::Validation(_)));
    assert!(error.to_string().contains("processing"));
}

#[test]
fn rejects_transcode_pipeline_without_processing() {
    let manifest = r#"
system:
  hardware_target: "RASPBERRY_PI_5"
  cma_allocation_limit: "512MB"
pipelines:
  - id: "bad_transcode"
    input: "/dev/video0"
    type: "device"
    strategy: "transcode"
"#;

    let error = manifest_from_yaml(manifest).expect_err("manifest should be invalid");
    assert!(matches!(error, ManifestError::Validation(_)));
    assert!(error.to_string().contains("processing"));
}

#[test]
fn rejects_hardware_decode_pipeline_without_processing() {
    let manifest = r#"
system:
  hardware_target: "RASPBERRY_PI_5"
  cma_allocation_limit: "512MB"
pipelines:
  - id: "bad_hw_decode"
    input: "rtsp://127.0.0.1:8554/live"
    type: "rtsp"
    strategy: "hardware_decode"
"#;

    let error = manifest_from_yaml(manifest).expect_err("manifest should be invalid");
    assert!(matches!(error, ManifestError::Validation(_)));
    assert!(error.to_string().contains("processing"));
}

#[test]
fn rejects_duplicate_pipeline_ids() {
    let manifest = manifest_from_yaml(
        r#"
system:
  hardware_target: "GENERIC_LINUX"
  cma_allocation_limit: "256MB"
pipelines:
  - id: "dup"
    input: "rtsp://127.0.0.1:8554/one"
    type: "rtsp"
    strategy: "passthrough"
    network:
      transport: "tcp"
      packet_size_limit: 1200
      stall_timeout: 10s
  - id: "dup"
    input: "rtsp://127.0.0.1:8554/two"
    type: "rtsp"
    strategy: "passthrough"
    network:
      transport: "tcp"
      packet_size_limit: 1200
      stall_timeout: 10s
"#,
    )
    .expect("manifest should parse");

    let error = CamlCompiler::compile(&manifest).expect_err("compiler should reject duplicates");
    assert_eq!(error, CompileError::DuplicatePipelineId("dup".to_string()));
}

#[test]
fn rejects_pi5_hardware_encoder() {
    let manifest = manifest_from_yaml(
        r#"
system:
  hardware_target: "RASPBERRY_PI_5"
  cma_allocation_limit: "512MB"
pipelines:
  - id: "pi5_transcode"
    input: "/dev/video0"
    type: "device"
    strategy: "transcode"
    processing:
      codec: "h264"
      encoder: "v4l2m2m"
      preset: "ultrafast"
      tune: "zerolatency"
      frame_rate: 30
      bitrate: "512k"
"#,
    )
    .expect("manifest should parse");

    let error = CamlCompiler::compile(&manifest).expect_err("compiler should reject encoder");
    assert!(matches!(error, CompileError::HardwareMismatch(_)));
    assert!(error.to_string().contains("Raspberry Pi 5"));
}

#[test]
fn compiles_runtime_ready_graph() {
    let manifest = manifest_from_yaml(
        r#"
system:
  hardware_target: "GENERIC_LINUX"
  cma_allocation_limit: "256MB"
pipelines:
  - id: "forward_primary"
    input: "rtsp://127.0.0.1:8554/live"
    type: "rtsp"
    strategy: "passthrough"
    network:
      transport: "udp"
      packet_size_limit: 1400
      stall_timeout: 5s
"#,
    )
    .expect("manifest should parse");

    let compiled = CamlCompiler::compile(&manifest).expect("compiler should succeed");

    assert_eq!(compiled.system.cma_allocation_limit_bytes, 256_000_000);
    assert_eq!(compiled.pipelines.len(), 1);
    assert_eq!(compiled.pipelines[0].runtime.buffer_size, 1400);
    assert_eq!(
        compiled.pipelines[0].runtime.watchdog_timeout,
        Duration::from_secs(5)
    );
}

#[test]
fn test_generic_linux_compilation() {
    let manifest = manifest_from_yaml(
        r#"
system:
  hardware_target: "GENERIC_LINUX"
  cma_allocation_limit: "256MB"
pipelines:
  - id: "generic_pipeline"
    input: "rtsp://192.168.1.50:554/stream1"
    type: "rtsp"
    strategy: "passthrough"
    network:
      transport: "tcp"
      packet_size_limit: 1200
      stall_timeout: 10s
"#,
    )
    .unwrap();

    let compiled = CamlCompiler::compile(&manifest);
    assert!(compiled.is_ok());

    let builder = RunBuilder::from_manifest(manifest).compile();
    assert!(builder.is_ok());
}

#[test]
fn test_pi4_compilation_without_probe_fails() {
    let manifest = manifest_from_yaml(
        r#"
system:
  hardware_target: "RASPBERRY_PI_4"
  cma_allocation_limit: "256MB"
pipelines:
  - id: "pi4_pipeline"
    input: "rtsp://192.168.1.50:554/stream1"
    type: "rtsp"
    strategy: "passthrough"
    network:
      transport: "tcp"
      packet_size_limit: 1200
      stall_timeout: 10s
"#,
    )
    .unwrap();

    let compiled = CamlCompiler::compile(&manifest);
    assert!(matches!(
        compiled,
        Err(CompileError::InvalidConfiguration(_))
    ));
}

#[test]
fn test_pi4_compilation_unchecked_succeeds() {
    let manifest = manifest_from_yaml(
        r#"
system:
  hardware_target: "RASPBERRY_PI_4"
  cma_allocation_limit: "256MB"
pipelines:
  - id: "pi4_pipeline"
    input: "rtsp://192.168.1.50:554/stream1"
    type: "rtsp"
    strategy: "passthrough"
    network:
      transport: "tcp"
      packet_size_limit: 1200
      stall_timeout: 10s
"#,
    )
    .unwrap();

    let compiled = CamlCompiler::compile_unchecked(&manifest);
    assert!(compiled.is_ok());
}

#[test]
fn readme_manifest_parses_with_webrtc_output() {
    let manifest = manifest_from_yaml(
        r#"
system:
  hardware_target: "RASPBERRY_PI_5"
  cma_allocation_limit: "512MB"

pipelines:
  - id: "forward_primary"
    input: "rtsp://192.168.1.50:554/stream1"
    type: "rtsp"
    strategy: "passthrough"
    network:
      transport: "tcp"
      packet_size_limit: 1200
      stall_timeout: 10s
    outputs:
      - type: "webrtc_rtp"
        codec: "h264"
        payload_type: 102
        mtu: 1200
        ssrc: "stable"
        clock_rate: 90000

  - id: "belly_optical"
    input: "/dev/video0"
    type: "device"
    strategy: "transcode"
    backend: "v4l2"
    processing:
      codec: "h264"
      encoder: "software"
      preset: "ultrafast"
      tune: "zerolatency"
      frame_rate: 30
      bitrate: "512k"
      rotation: 90
"#,
    )
    .expect("README manifest should parse");

    assert_eq!(manifest.pipelines.len(), 2);

    // First pipeline must have a WebRTC output
    let forward = &manifest.pipelines[0];
    assert!(
        forward.outputs.iter().any(|o| matches!(o, OutputProfile::WebrtcRtp { .. })),
        "forward_primary must have a WebrtcRtp output"
    );

    // Second pipeline has no outputs (device transcode)
    let belly = &manifest.pipelines[1];
    assert!(
        belly.outputs.is_empty(),
        "belly_optical should have no explicit outputs"
    );
}

#[test]
fn test_recovery_policy_class_defaults() {
    let manifest = manifest_from_yaml(
        r#"
system:
  hardware_target: "GENERIC_LINUX"
  cma_allocation_limit: "256MB"
pipelines:
  - id: "net_pipeline"
    input: "rtsp://192.168.1.50:554/stream1"
    type: "rtsp"
    strategy: "passthrough"
    network:
      transport: "tcp"
      packet_size_limit: 1200
      stall_timeout: 10s
  - id: "dev_pipeline"
    input: "/dev/video0"
    type: "device"
    strategy: "transcode"
    backend: "v4l2"
    processing:
      codec: "h264"
      encoder: "software"
      preset: "ultrafast"
      tune: "zerolatency"
      frame_rate: 30
      bitrate: "512k"
      rotation: 90
"#,
    )
    .unwrap();

    let compiled = CamlCompiler::compile(&manifest).unwrap();
    assert_eq!(compiled.pipelines.len(), 2);

    // Network recovery class asserts
    let net_p = &compiled.pipelines[0];
    assert_eq!(net_p.recovery.class, RecoveryClass::Network);
    assert_eq!(net_p.recovery.initial_backoff, Duration::from_millis(250));
    assert_eq!(net_p.recovery.max_backoff, Duration::from_secs(5));
    assert_eq!(factor(net_p.recovery.backoff_multiplier), 2.0);
    assert_eq!(net_p.recovery.reset_after, Duration::from_secs(30));
    assert_eq!(net_p.recovery.max_restarts, 5);

    // Device recovery class asserts
    let dev_p = &compiled.pipelines[1];
    assert_eq!(dev_p.recovery.class, RecoveryClass::Device);
    assert_eq!(dev_p.recovery.initial_backoff, Duration::from_secs(1));
    assert_eq!(dev_p.recovery.max_backoff, Duration::from_secs(30));
    assert_eq!(factor(dev_p.recovery.backoff_multiplier), 2.0);
    assert_eq!(dev_p.recovery.reset_after, Duration::from_secs(60));
    assert_eq!(dev_p.recovery.max_restarts, 3);
}

#[test]
fn test_recovery_policy_hardware_class_defaults() {
    let manifest = manifest_from_yaml(
        r#"
system:
  hardware_target: "GENERIC_LINUX"
  cma_allocation_limit: "256MB"
pipelines:
  - id: "hw_pipeline"
    input: "rtsp://192.168.1.50:554/stream1"
    type: "rtsp"
    strategy: "hardware_decode"
    network:
      transport: "tcp"
      packet_size_limit: 1200
      stall_timeout: 10s
    processing:
      codec: "h264"
      encoder: "software"
      preset: "ultrafast"
      tune: "zerolatency"
      frame_rate: 30
      bitrate: "512k"
"#,
    )
    .unwrap();

    let compiled = CamlCompiler::compile(&manifest).unwrap();
    assert_eq!(compiled.pipelines.len(), 1);

    // Hardware recovery class asserts
    let hw_p = &compiled.pipelines[0];
    assert_eq!(hw_p.recovery.class, RecoveryClass::Hardware);
    assert_eq!(hw_p.recovery.initial_backoff, Duration::from_secs(2));
    assert_eq!(hw_p.recovery.max_backoff, Duration::from_secs(60));
    assert_eq!(factor(hw_p.recovery.backoff_multiplier), 2.0);
    assert_eq!(hw_p.recovery.reset_after, Duration::from_secs(120));
    assert_eq!(hw_p.recovery.max_restarts, 3);
}

#[test]
fn test_media_memory_limit_parsing_and_compilation() {
    let manifest_str = r#"
system:
  hardware_target: "GENERIC_LINUX"
  media_memory_limit: "50MB"
pipelines:
  - id: "generic_pipeline"
    input: "rtsp://192.168.1.50:554/stream1"
    type: "rtsp"
    strategy: "passthrough"
    network:
      transport: "tcp"
      packet_size_limit: 1200
      stall_timeout: 10s
"#;

    let manifest = manifest_from_yaml(manifest_str).expect("should parse");
    let compiled = CamlCompiler::compile(&manifest).expect("should compile");

    let resource_plan = compiled.resource_plan;
    assert_eq!(resource_plan.configured_limit_bytes, 50_000_000);
}

#[test]
fn test_resource_warning_high_memory_usage() {
    let manifest_str = r#"
system:
  hardware_target: "GENERIC_LINUX"
  media_memory_limit: "150MB"
pipelines:
  - id: "generic_pipeline"
    input: "rtsp://192.168.1.50:554/stream1"
    type: "rtsp"
    strategy: "passthrough"
    network:
      transport: "tcp"
      packet_size_limit: 1000000
      stall_timeout: 10s
"#;

    let manifest = manifest_from_yaml(manifest_str).expect("should parse");
    let compiled = CamlCompiler::compile(&manifest).expect("should compile");

    let plan = compiled.resource_plan;
    assert!(plan.warnings.contains(&ResourceWarning::HighMemoryUsage));
}

#[test]
fn test_resource_limit_exceeded_error() {
    let manifest_str = r#"
system:
  hardware_target: "GENERIC_LINUX"
  media_memory_limit: "50MB"
pipelines:
  - id: "generic_pipeline"
    input: "rtsp://192.168.1.50:554/stream1"
    type: "rtsp"
    strategy: "passthrough"
    network:
      transport: "tcp"
      packet_size_limit: 1000000
      stall_timeout: 10s
"#;

    let manifest = manifest_from_yaml(manifest_str).expect("should parse");
    let compiled = CamlCompiler::compile(&manifest);
    match compiled {
        Err(CompileError::ResourceLimitExceeded {
            configured_limit_bytes,
            estimated_usage_bytes,
        }) => {
            assert_eq!(configured_limit_bytes, 50_000_000);
            assert_eq!(estimated_usage_bytes, 100_000_000);
        }
        other => panic!("expected ResourceLimitExceeded error, got {:?}", other),
    }
}

// Builders.

const RTSP_PIPELINE: &str = r#"
system:
  hardware_target: "GENERIC_LINUX"
  cma_allocation_limit: "256MB"
pipelines:
  - id: "generic_pipeline"
    input: "rtsp://192.168.1.50:554/stream1"
    type: "rtsp"
    strategy: "passthrough"
    network:
      transport: "tcp"
      packet_size_limit: 1200
      stall_timeout: 10s
"#;

const NO_FEATURES: Features = Features { ffmpeg: false, pi: false, webrtc: false };
const ALL_FEATURES: Features = Features { ffmpeg: true, pi: true, webrtc: true };

#[test]
fn test_facade_builder_generic_linux_success() {
    let loaded = manifest_from_yaml(RTSP_PIPELINE);
    let builder: PipelineBuilder = CamlPipeline::from_loaded(loaded).expect("should parse");
    let probe = Arc::new(StaticCapabilityProbe::new(HostCapabilities {
        ffmpeg_available: true,
        rtp_packetization_available: true,
        ..HostCapabilities::default()
    }));
    let builder = builder.with_capability_probe(probe).with_native_adapters();
    let run: RunBuilder = match builder.prepare_start(NO_FEATURES) {
        Ok(run) => run,
        Err(error) => panic!("unexpected error: {:?}", error),
    };
    match run.prepare_start() {
        Ok(_) => panic!("there is no factory"),
        Err(error) => assert!(error.to_string().contains("runtime factory is required")),
    }
}

#[test]
fn test_facade_builder_missing_capability_probe_error() {
    let yaml = RTSP_PIPELINE.replace("GENERIC_LINUX", "RASPBERRY_PI_4");
    let builder: PipelineBuilder =
        CamlPipeline::from_loaded(manifest_from_yaml(&yaml)).expect("should parse");
    match builder.prepare_start::<&str>(ALL_FEATURES) {
        Err(CamlError::MissingCapabilityProbe { hardware_target }) => {
            assert_eq!(hardware_target, HardwareTarget::RaspberryPi4);
        }
        Err(other) => panic!("expected MissingCapabilityProbe error, got {:?}", other),
        Ok(_) => panic!("expected MissingCapabilityProbe error"),
    }
}

#[test]
fn test_builtin_adapters_null_sink_when_no_outputs() {
    let manifest = manifest_from_yaml(RTSP_PIPELINE).unwrap();
    let compiled = CamlCompiler::compile(&manifest).unwrap();
    let adapters: BuiltinAdapters<&str, &str, &str> = BuiltinAdapters::new(NO_FEATURES);
    let error = adapters.plan_source(&compiled.pipelines[0]).unwrap_err();
    assert_eq!(error, RuntimeError::Adapter("ffmpeg feature is disabled".to_string()));
    let adapters: BuiltinAdapters<&str, &str, &str> = BuiltinAdapters::new(ALL_FEATURES);
    let error = adapters.plan_source(&compiled.pipelines[0]).unwrap_err();
    assert_eq!(error, RuntimeError::Adapter("ffmpeg source factory not configured".to_string()));
    let sinks = adapters.plan_sinks(&compiled.pipelines[0]).unwrap();
    assert!(sinks.is_empty());
    assert_eq!(caml::adapters::sink_layout(&sinks), SinkLayout::Null);
}

#[test]
fn broken_manifests_do_not_load() {
    let broken: Result<PipelineBuilder, CamlError> =
        CamlPipeline::from_loaded(manifest_from_yaml("pipelines: []"));
    assert!(matches!(broken, Err(CamlError::Manifest(ManifestError::Yaml(_)))));
    let broken: Result<RunBuilder, RuntimeBuilderError> =
        RunBuilder::from_loaded(manifest_from_yaml(&RTSP_PIPELINE.replace("rtsp://", "http://")));
    match broken {
        Err(error) => assert_eq!(
            error.to_string(),
            "pipeline 'generic_pipeline' must use an rtsp:// URL with a host"
        ),
        Ok(_) => panic!("an http input should be refused"),
    }
}

#[test]
fn rtsp_inputs_are_read_as_urls() {
    let with_input = |input: &str| {
        manifest_from_yaml(&RTSP_PIPELINE.replace("rtsp://192.168.1.50:554/stream1", input))
            .map_err(|error| error.to_string())
    };
    assert!(with_input("RTSP://Camera.local/live").is_ok());
    assert!(with_input("rtsps://camera").is_err());
    assert!(with_input("  rtsp://camera").is_ok());
    let error = with_input("not a url").unwrap_err();
    assert!(error.contains("relative URL without a base"), "{}", error);
    assert!(with_input("rtsp:///stream").is_err());
}

#[test]
fn compiling_needs_a_manifest_and_starting_a_factory() {
    let empty: Result<RunBuilder, RuntimeBuilderError> = RunBuilder::default().compile();
    assert!(matches!(empty, Err(RuntimeBuilderError::MissingManifest)));
    assert_eq!(
        RuntimeBuilderError::MissingManifest.to_string(),
        "a manifest or compiled graph is required before compile/start"
    );
    let manifest = manifest_from_yaml(RTSP_PIPELINE).unwrap();
    let run = RunBuilder::from_manifest(manifest.clone());
    assert!(matches!(run.prepare_start(), Err(RuntimeBuilderError::MissingRuntimeFactory)));
    let start = RunBuilder::from_manifest(manifest)
        .with_runtime_factory("factory")
        .with_metrics_exporter(Arc::new("metrics"))
        .prepare_start();
    match start {
        Ok(start) => {
            assert_eq!(start.runtime_factory, "factory");
            assert_eq!(*start.metrics.unwrap(), "metrics");
            assert_eq!(start.compiled.pipelines[0].id, "generic_pipeline");
        }
        Err(error) => panic!("unexpected error: {:?}", error),
    }
}

#[test]
fn a_compiled_graph_is_not_compiled_again() {
    let manifest = manifest_from_yaml(RTSP_PIPELINE).unwrap();
    let graph = CamlCompiler::compile(&manifest).unwrap();
    let pi = manifest_from_yaml(&RTSP_PIPELINE.replace("GENERIC_LINUX", "RASPBERRY_PI_4")).unwrap();
    let run = RunBuilder::from_manifest(pi).with_compiled_graph(graph.clone());
    match run.compile() {
        Ok(run) => assert_eq!(run.compiled, Some(graph)),
        Err(error) => panic!("unexpected error: {:?}", error),
    }
}

#[test]
fn probes_of_all_backends_are_merged() {
    let ffmpeg = HostCapabilities { ffmpeg_available: true, ..HostCapabilities::default() };
    let linux = HostCapabilities {
        pi_model: Some(PiModel::Pi4),
        v4l2_available: true,
        ..HostCapabilities::default()
    };
    let probes = FeatureProbes {
        ffmpeg: Some(Arc::new(StaticCapabilityProbe::new(ffmpeg))),
        webrtc: Some(Arc::new(caml::webrtc::config::webrtc_capabilities())),
        linux: Some(Arc::new(StaticCapabilityProbe::new(linux))),
    };
    let all = caml::builder::feature_capability_probe(probes);
    let report = all.capabilities(HardwareTarget::RaspberryPi4).unwrap();
    assert!(report.ffmpeg_available);
    assert!(report.v4l2_available);
    assert!(report.rtp_packetization_available);
    assert_eq!(report.pi_model, Some(PiModel::Pi4));
    assert!(!report.libcamera_available);
}

#[test]
fn probes_that_disagree_fail() {
    let pi = |model| {
        Arc::new(StaticCapabilityProbe::new(HostCapabilities {
            pi_model: Some(model),
            ..HostCapabilities::default()
        }))
    };
    let mut both = CompositeCapabilityProbe::new();
    both.push(pi(PiModel::Pi4));
    both.push(pi(PiModel::Pi5));
    match both.capabilities(HardwareTarget::GenericLinux) {
        Err(CompileError::ProbeFailure(message)) => assert!(message.contains("Pi4 vs Pi5")),
        other => panic!("expected a failure, got {:?}", other),
    }
}

const STREAMING_PIPELINE: &str = r#"
system:
  hardware_target: "GENERIC_LINUX"
  cma_allocation_limit: "256MB"
pipelines:
  - id: "camera"
    input: "/dev/video0"
    type: "device"
    strategy: "transcode"
    backend: "libcamera"
    processing:
      codec: "h264"
      encoder: "software"
      preset: "ultrafast"
      tune: "zerolatency"
      frame_rate: 30
      bitrate: "512k"
    outputs:
      - type: "webrtc_rtp"
        drop_policy: "drop_newest"
      - type: "recording"
        queue_limit: 7
        drop_policy: "drop_oldest"
"#;

fn streaming_builder() -> PipelineBuilder {
    CamlPipeline::from_loaded(manifest_from_yaml(STREAMING_PIPELINE)).expect("should parse")
}

fn refusal(builder: PipelineBuilder, features: Features) -> String {
    match builder.prepare_start::<&str>(features) {
        Ok(_) => panic!("should be refused"),
        Err(error) => error.to_string(),
    }
}

#[test]
fn pipelines_that_lack_something_are_not_started() {
    assert_eq!(
        refusal(streaming_builder(), NO_FEATURES),
        "unsupported output for pipeline camera: webrtc_rtp"
    );
    assert_eq!(
        refusal(streaming_builder(), ALL_FEATURES),
        "missing WebRTC track for pipeline camera"
    );
    let with_track = || streaming_builder().with_webrtc_track("camera", Arc::new("track"));
    assert_eq!(
        refusal(with_track(), Features { pi: false, ..ALL_FEATURES }),
        "missing adapter for pipeline camera, backend libcamera"
    );
    assert_eq!(
        refusal(with_track(), ALL_FEATURES),
        "missing libcamera provider factory for pipeline camera"
    );
    assert_eq!(
        CamlError::MissingCapabilityProbe { hardware_target: HardwareTarget::RaspberryPi5 }
            .to_string(),
        "missing capability probe for hardware target RaspberryPi5"
    );
}

#[test]
fn native_adapters_get_tracks_and_cameras() {
    let complete = || {
        streaming_builder()
            .with_webrtc_track("camera", Arc::new("track"))
            .with_libcamera_provider_factory(Arc::new("cameras"))
    };
    let run: RunBuilder = match complete().prepare_start(ALL_FEATURES) {
        Ok(run) => run,
        Err(error) => panic!("unexpected error: {:?}", error),
    };
    assert!(run.webrtc_tracks.is_empty());
    let run: RunBuilder = match complete().with_native_adapters().prepare_start(ALL_FEATURES) {
        Ok(run) => run,
        Err(error) => panic!("unexpected error: {:?}", error),
    };
    let mut adapters: BuiltinAdapters<_, _, Arc<()>> = run.feature_media_adapters(ALL_FEATURES);
    adapters.recording_packets = Some(Arc::new(()));
    let shared = adapters.clone();
    assert_eq!(shared.libcamera_source, adapters.libcamera_source);
    assert_eq!(shared.webrtc_sinks, adapters.webrtc_sinks);
    assert_eq!(shared.recording_packets, adapters.recording_packets);
    assert_eq!(adapters.ffmpeg_source, Some(FfmpegSourceFactory::new()));
    assert_eq!(
        adapters.libcamera_source,
        Some(LibcameraSourceFactory::new(Arc::new("cameras")))
    );
    assert_eq!(adapters.webrtc_sinks.get("camera"), Some(&Arc::new("track")));
    let pipeline = &run.compiled.as_ref().unwrap().pipelines[0];
    let sinks = adapters.plan_sinks(pipeline).unwrap();
    assert_eq!(
        sinks,
        vec![
            SinkPlan::WebRtc { queue_limit: 10, drop_policy: DropPolicy::DropNewest },
            SinkPlan::Recording { queue_limit: 7, drop_policy: DropPolicy::DropOldest },
        ]
    );
    assert_eq!(caml::adapters::sink_layout(&sinks), SinkLayout::Fanout);
    let none: BuiltinAdapters<_, _, ()> = run.feature_media_adapters(NO_FEATURES);
    assert!(none.ffmpeg_source.is_none());
    assert_eq!(
        none.plan_sinks(pipeline),
        Err(RuntimeError::Adapter("webrtc feature is disabled".to_string()))
    );
    let bare: BuiltinAdapters<&str, &str, ()> = BuiltinAdapters::new(ALL_FEATURES);
    assert_eq!(
        bare.plan_sinks(pipeline),
        Err(RuntimeError::Adapter("no webrtc sink configured for pipeline camera".to_string()))
    );
    assert!(bare.plan_source(pipeline).is_err());
}

const OVERLAY_PIPELINE: &str = r#"
system:
  hardware_target: "GENERIC_LINUX"
  cma_allocation_limit: "256MB"
pipelines:
  - id: "drawn"
    input: "/dev/video0"
    type: "device"
    strategy: "transcode"
    processing:
      codec: "h264"
      encoder: "software"
      preset: "ultrafast"
      tune: "zerolatency"
      frame_rate: 30
      bitrate: "512k"
    overlay:
      layers:
        - type: "text"
          text: "{site} {pipeline_id}"
          position: "top_right"
        - type: "timestamp"
          position: "bottom_left"
          timezone: "local"
"#;

#[test]
fn overlay_variables_reach_the_layers() {
    let manifest = manifest_from_yaml(OVERLAY_PIPELINE).unwrap();
    let run = RunBuilder::from_manifest(manifest.clone())
        .with_overlay_variable("site", "nobody")
        .with_overlay_variables(vec![("site".to_string(), "Dock 4".to_string())]);
    let run = match run.compile() {
        Ok(run) => run,
        Err(error) => panic!("unexpected error: {:?}", error),
    };
    let graph = run.compiled.unwrap();
    let layers = &graph.pipelines[0].overlay.as_ref().unwrap().layers;
    match &layers[0] {
        CompiledOverlayLayer::Text(text) => assert_eq!(text.text, "Dock 4 drawn"),
        other => panic!("expected a text, got {:?}", other),
    }
    match &layers[1] {
        CompiledOverlayLayer::Timestamp(stamp) => assert_eq!(stamp.style.font_size, 18),
        other => panic!("expected a timestamp, got {:?}", other),
    }
    let mut variables: StringMap<String> = StringMap::new();
    assert!(CamlCompiler::compile_with_overlay_variables(&manifest, &variables).is_err());
    variables.insert("site".to_string(), "x".to_string());
    assert!(CamlCompiler::compile_with_overlay_variables(&manifest, &variables).is_ok());
}

#[test]
fn hosts_are_held_to_their_target() {
    let yaml = r#"
system:
  hardware_target: "RASPBERRY_PI_4"
  cma_allocation_limit: "512MB"
pipelines:
  - id: "pi4_encode"
    input: "/dev/video0"
    type: "device"
    backend: "v4l2"
    strategy: "transcode"
    processing:
      codec: "h264"
      encoder: "v4l2m2m"
      preset: "ultrafast"
      tune: "zerolatency"
      frame_rate: 30
      bitrate: "512k"
"#;
    let manifest = manifest_from_yaml(yaml).unwrap();
    let pi4 = HostCapabilities {
        pi_model: Some(PiModel::Pi4),
        has_pi4_h264_encoder: true,
        v4l2_available: true,
        ..HostCapabilities::default()
    };
    let compile = |host| {
        CamlCompiler::compile_with_probe(&manifest, &StaticCapabilityProbe::new(host))
    };
    assert!(compile(pi4).is_ok());
    assert!(matches!(
        compile(HostCapabilities { pi_model: Some(PiModel::Pi5), ..pi4 }),
        Err(CompileError::UnsupportedCapability(_))
    ));
    assert!(compile(HostCapabilities { has_pi4_h264_encoder: false, ..pi4 }).is_err());
    assert!(compile(HostCapabilities { v4l2_available: false, ..pi4 }).is_err());
}

#[test]
fn the_first_broken_pipeline_is_named() {
    let mut manifest = manifest_from_yaml(valid_manifest()).unwrap();
    let mut second = manifest.pipelines[0].clone();
    second.id = "second".to_string();
    second.backend = Some(InputBackend::V4l2);
    let mut third = manifest.pipelines[0].clone();
    third.id = "third".to_string();
    third.input = "http://192.168.1.50/stream1".to_string();
    manifest.pipelines.push(second);
    manifest.pipelines.push(third);
    let broken = |manifest: &CamlManifest| match manifest.validate() {
        Err(ManifestError::Validation(message)) => message,
        other => panic!("expected a broken rule, got {:?}", other),
    };
    assert_eq!(
        broken(&manifest),
        "pipeline 'second' uses an rtsp input and only supports 'auto' or 'ffmpeg' backends"
    );
    manifest.pipelines[2].backend = Some(InputBackend::Ffmpeg);
    assert_eq!(broken(&manifest), "pipeline 'third' must use an rtsp:// URL with a host");
    manifest.pipelines[3].input = "rtsp://192.168.1.50/stream1".to_string();
    assert!(manifest.validate().is_ok());
}

// Hosts.

fn linux_probe(target: HardwareTarget, found: &HostObservations) -> StaticCapabilityProbe {
    StaticCapabilityProbe::new(linux_capability_probe().report(target, found))
}

fn raspberry_pi(model: &str) -> HostObservations {
    HostObservations {
        models: vec![model.to_string()],
        has_video_device: true,
        has_video_entries: true,
        video_names: Vec::new(),
        has_media_device: true,
        has_media_entries: true,
        media_models: Vec::new(),
        has_libcamera_hello: true,
        has_libcamera_still: false,
        has_libcamera_vid: false,
    }
}

#[test]
fn pi4_hardware_encode_host_guardrail() {
    let found = HostObservations {
        video_names: vec!["bcm2835-codec-encode".to_string()],
        ..raspberry_pi("Raspberry Pi 4 Model B Rev 1.5")
    };
    let probe = linux_probe(HardwareTarget::RaspberryPi4, &found);
    let capabilities = probe
        .capabilities(HardwareTarget::RaspberryPi4)
        .expect("Linux capability probe should run");

    assert_eq!(capabilities.pi_model, Some(PiModel::Pi4));
    assert!(capabilities.has_pi4_h264_encoder);

    let manifest = manifest_from_yaml(
        r#"
system:
  hardware_target: "RASPBERRY_PI_4"
  cma_allocation_limit: "512MB"
pipelines:
  - id: "pi4_encode"
    input: "/dev/video0"
    type: "device"
    backend: "v4l2"
    strategy: "transcode"
    processing:
      codec: "h264"
      encoder: "v4l2m2m"
      preset: "ultrafast"
      tune: "zerolatency"
      frame_rate: 30
      bitrate: "512k"
"#,
    )
    .expect("manifest should parse");

    CamlCompiler::compile_with_probe(&manifest, &probe)
        .expect("Pi 4 hardware encode should compile on a matching host");
}

#[test]
fn pi5_stateless_decode_host_guardrail() {
    let found = raspberry_pi("Raspberry Pi 5 Model B");
    let probe = linux_probe(HardwareTarget::RaspberryPi5, &found);
    let capabilities = probe
        .capabilities(HardwareTarget::RaspberryPi5)
        .expect("Linux capability probe should run");

    assert_eq!(capabilities.pi_model, Some(PiModel::Pi5));
    assert!(capabilities.has_pi5_stateless_decoder);

    let yaml = r#"
system:
  hardware_target: "RASPBERRY_PI_5"
  cma_allocation_limit: "512MB"
pipelines:
  - id: "pi5_decode"
    input: "rtsp://127.0.0.1:8554/live"
    type: "rtsp"
    strategy: "hardware_decode"
    processing:
      codec: "h264"
      encoder: "software"
      preset: "ultrafast"
      tune: "zerolatency"
      frame_rate: 30
      bitrate: "512k"
"#;
    let manifest = manifest_from_yaml(yaml).expect("manifest should parse");

    let graph = CamlCompiler::compile_with_probe(&manifest, &probe)
        .expect("Pi 5 stateless decode should compile on a matching host");
    assert_eq!(
        graph.pipelines[0].capability_requirements,
        vec![CapabilityRequirement::Pi5StatelessDecoder]
    );
    let software = manifest_from_yaml(&yaml.replace("hardware_decode", "transcode")).unwrap();
    match CamlCompiler::compile_with_probe(&software, &probe) {
        Err(CompileError::UnsupportedCapability(message)) => {
            assert!(message.contains("requires FFmpeg"), "{}", message);
        }
        other => panic!("software decoding needs FFmpeg, got {:?}", other),
    }
}

const LIBCAMERA_PIPELINE: &str = r#"
system:
  hardware_target: "RASPBERRY_PI_4"
  media_memory_limit: "256MB"
pipelines:
  - id: "libcamera_pipeline"
    input: "camera:0"
    type: "device"
    backend: "libcamera"
    strategy: "passthrough"
    outputs:
      - type: "recording"
"#;

#[test]
fn test_libcamera_host_capture() {
    let found = raspberry_pi("Raspberry Pi 4 Model B Rev 1.5");
    let probe = linux_probe(HardwareTarget::RaspberryPi4, &found);
    let manifest = manifest_from_yaml(LIBCAMERA_PIPELINE).expect("manifest should parse");

    let mut adapters: BuiltinAdapters<&str, &str, &str> = BuiltinAdapters::new(ALL_FEATURES);
    adapters.recording_packets = Some("packets");
    adapters.libcamera_source = Some(LibcameraSourceFactory::new("cameras"));
    let start = RunBuilder::new()
        .with_manifest(manifest)
        .with_capability_probe(Arc::new(probe))
        .with_runtime_factory("adapters")
        .prepare_start();
    let start = match start {
        Ok(start) => start,
        Err(error) => panic!("failed to start libcamera runtime: {:?}", error),
    };
    let pipeline = &start.compiled.pipelines[0];
    assert!(adapters.plan_source(pipeline).is_ok());
    assert_eq!(adapters.plan_sinks(pipeline).map(|sinks| sinks.len()), Ok(1));
    assert_eq!(resolve_camera_index(&pipeline.input.source), 0);

    let mut status = RuntimeEngine::initial_status(&start.compiled);
    for event in Supervisor::new().step(pipeline, SupervisorEvent::Built).events {
        status.apply(&event);
    }
    let pipeline_status = status.pipeline("libcamera_pipeline");
    assert_ne!(pipeline_status, Some(TaskStatus::Failed));
}

#[test]
fn only_libcamera_devices_are_named_by_number() {
    let broken = |from: &str, to: &str| {
        match manifest_from_yaml(&LIBCAMERA_PIPELINE.replace(from, to)) {
            Ok(_) => None,
            Err(error) => Some(error.to_string()),
        }
    };
    let no_path = "pipeline 'libcamera_pipeline' must use a filesystem-like path for device input";
    assert_eq!(broken("camera:0", "camera:12"), None);
    assert_eq!(broken("camera:0", "/dev/video0"), None);
    assert_eq!(broken("camera:0", "camera:").as_deref(), Some(no_path));
    assert_eq!(broken("camera:0", "camera:front").as_deref(), Some(no_path));
    assert_eq!(broken("camera:0", "camera").as_deref(), Some(no_path));
    let no_network =
        "pipeline 'libcamera_pipeline' uses passthrough and requires a network profile";
    assert_eq!(broken("\"libcamera\"", "\"v4l2\"").as_deref(), Some(no_network));
}

// Recovery.

/// Runs a pipeline by hand, from one scripted source: how often it recovered, the status
/// it ended with, and what its sink got.
fn run_by_hand(
    pipeline: &CompiledPipeline,
    actions: Vec<MockSourceAction>,
) -> (usize, TaskStatus, Vec<Vec<u8>>) {
    let mut plan = MockSourcePlan::new(actions);
    let mut supervisor = Supervisor::new();
    let mut recoveries = 0;
    let mut last = TaskStatus::Spawning;
    let mut payloads = Vec::new();
    let mut event = SupervisorEvent::Ready;
    loop {
        let step = supervisor.step(pipeline, event);
        for event in &step.events {
            if let RuntimeEvent::StatusChanged { status, .. } = event {
                last = *status;
                if *status == TaskStatus::Recovering {
                    recoveries += 1;
                }
            }
        }
        event = match step.action {
            SupervisorAction::Build => SupervisorEvent::Built,
            SupervisorAction::Run => SupervisorEvent::Exited {
                exit: run_once(pipeline, &mut plan, &mut payloads),
                ran_for: Duration::from_millis(20),
            },
            SupervisorAction::Scale { exponent } => {
                let scale = factor(pipeline.recovery.backoff_multiplier).powi(exponent as i32);
                let millis = pipeline.recovery.initial_backoff.as_millis() as u64;
                let wait = std::time::Duration::from_millis(millis).mul_f32(scale);
                SupervisorEvent::Scaled(Duration::saturating_from_nanos(wait.as_nanos()))
            }
            SupervisorAction::Wait(wait) => {
                assert_eq!(wait, Duration::from_millis(5));
                SupervisorEvent::Ready
            }
            SupervisorAction::Finish => return (recoveries, last, payloads),
        };
    }
}

fn run_once(
    pipeline: &CompiledPipeline,
    plan: &mut MockSourcePlan,
    payloads: &mut Vec<Vec<u8>>,
) -> PipelineLoopExit {
    let mut pool = BufferPool::new(pipeline.runtime.buffer_size);
    pool.preallocate(pipeline.runtime.buffer_count);
    let mut running = PipelineLoop::new(0);
    let mut current = None;
    let mut action = LoopAction::Poll;
    loop {
        let event = match action {
            LoopAction::Poll => match plan.step(&mut pool) {
                Ok(MockStep::Give(payload)) => {
                    let event = received(&payload);
                    current = Some(payload);
                    event
                }
                Ok(MockStep::Stall) => LoopEvent::TimedOut,
                Ok(MockStep::Sleep(_)) => continue,
                Err(error) => LoopEvent::Failed(error),
            },
            LoopAction::Deliver => {
                let payload = current.take().expect("there is a payload");
                payloads.push(payload.data().expect("packets hold bytes").to_vec());
                LoopEvent::Consumed
            }
            LoopAction::Transform(_) => panic!("there is no transform"),
            LoopAction::Exit(exit) => return exit,
        };
        action = running.step(event, pipeline.runtime.watchdog_timeout).action;
    }
}

#[test]
fn test_chaos_multi_class_recovery() {
    let manifest = manifest_from_yaml(
        r#"
system:
  hardware_target: "GENERIC_LINUX"
  cma_allocation_limit: "512MB"
pipelines:
  - id: "net_chaos"
    input: "rtsp://mock"
    type: "rtsp"
    strategy: "passthrough"
    network:
      transport: "udp"
      packet_size_limit: 1200
      stall_timeout: "5s"
  - id: "dev_chaos"
    input: "/dev/video0"
    type: "device"
    strategy: "transcode"
    backend: "v4l2"
    processing:
      codec: "h264"
      encoder: "software"
      preset: "ultrafast"
      tune: "zerolatency"
      frame_rate: 30
      bitrate: "512k"
      rotation: 90
"#,
    )
    .expect("manifest should parse");

    let mut compiled = CamlCompiler::compile(&manifest).expect("should compile");

    // Override policies to make the test run fast
    for pipeline in &mut compiled.pipelines {
        pipeline.runtime.watchdog_timeout = Duration::from_millis(15);
        pipeline.recovery.initial_backoff = Duration::from_millis(5);
        pipeline.recovery.max_backoff = Duration::from_millis(5);
        pipeline.recovery.backoff_multiplier = Multiplier { bits: 1.0f32.to_bits() };
        pipeline.recovery.max_restarts = 5;
    }

    // net_chaos: stalls once, errors once, then exits gracefully
    let net_actions = vec![
        MockSourceAction::Packet(vec![1, 2, 3]),
        MockSourceAction::Stall,
        MockSourceAction::Packet(vec![4, 5, 6]),
        MockSourceAction::Fail("connection dropped".to_string()),
        MockSourceAction::Packet(vec![7, 8, 9]),
        MockSourceAction::EndOfStream,
    ];

    // dev_chaos: errors twice, then exits gracefully
    let dev_actions = vec![
        MockSourceAction::Packet(vec![10, 11, 12]),
        MockSourceAction::Fail("device disconnected".to_string()),
        MockSourceAction::Packet(vec![13, 14, 15]),
        MockSourceAction::Fail("device power cycle".to_string()),
        MockSourceAction::Packet(vec![16, 17, 18]),
        MockSourceAction::EndOfStream,
    ];

    let (net_recoveries, net_status, net_payloads) =
        run_by_hand(&compiled.pipelines[0], net_actions);
    let (dev_recoveries, dev_status, dev_payloads) =
        run_by_hand(&compiled.pipelines[1], dev_actions);

    assert_eq!(net_recoveries, 2, "net_chaos should recover exactly twice");
    assert_eq!(dev_recoveries, 2, "dev_chaos should recover exactly twice");
    assert_eq!((net_status, dev_status), (TaskStatus::Stopped, TaskStatus::Stopped));

    // Verify all payloads were processed after recoveries
    assert!(net_payloads.contains(&vec![1, 2, 3]));
    assert!(net_payloads.contains(&vec![4, 5, 6]));
    assert!(net_payloads.contains(&vec![7, 8, 9]));

    assert!(dev_payloads.contains(&vec![10, 11, 12]));
    assert!(dev_payloads.contains(&vec![13, 14, 15]));
    assert!(dev_payloads.contains(&vec![16, 17, 18]));
}

#[test]
fn probes_added_last_merge_their_report() {
    let ffmpeg = HostCapabilities { ffmpeg_available: true, ..HostCapabilities::default() };
    let pi4 = HostCapabilities { pi_model: Some(PiModel::Pi4), ..HostCapabilities::default() };
    let pi5 = HostCapabilities { pi_model: Some(PiModel::Pi5), ..HostCapabilities::default() };
    let mut probe = CompositeCapabilityProbe::new();
    probe.push(Arc::new(StaticCapabilityProbe::new(ffmpeg)));
    assert_eq!(probe.capabilities(HardwareTarget::GenericLinux), Ok(ffmpeg));
    probe.push(Arc::new(StaticCapabilityProbe::new(pi4)));
    let both = HostCapabilities { pi_model: Some(PiModel::Pi4), ..ffmpeg };
    assert_eq!(probe.capabilities(HardwareTarget::GenericLinux), Ok(both));
    assert_eq!(ffmpeg.merge(&pi4), Ok(both));
    probe.push(Arc::new(StaticCapabilityProbe::new(pi5)));
    let refused = probe.capabilities(HardwareTarget::GenericLinux);
    assert!(matches!(refused, Err(CompileError::ProbeFailure(_))));
    probe.push(Arc::new(StaticCapabilityProbe::new(ffmpeg)));
    assert_eq!(probe.capabilities(HardwareTarget::GenericLinux), refused);
}
