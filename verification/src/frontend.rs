//! The manifest: what a deployment asks for, and the rules it has to keep.

use vstd::prelude::*;

use crate::error::ManifestError;
use crate::text;
use crate::time::Duration;
use crate::units::{Bitrate, ByteSize};

verus! {

/// The machine a manifest is written for.
#[derive(Debug, Clone, Copy, PartialEq, Eq, Structural)]
pub enum HardwareTarget {
    RaspberryPi4,
    RaspberryPi5,
    GenericLinux,
}

/// Where the media of a pipeline comes from.
#[derive(Debug, Clone, Copy, PartialEq, Eq, Structural)]
pub enum InputType {
    Rtsp,
    Device,
}

/// What a pipeline does with the media it takes in.
#[derive(Debug, Clone, Copy, PartialEq, Eq, Structural)]
pub enum StreamStrategy {
    Passthrough,
    Transcode,
    HardwareDecode,
}

/// The transport of an RTSP session.
#[derive(Debug, Clone, Copy, PartialEq, Eq, Structural)]
pub enum Transport {
    Tcp,
    Udp,
}

/// The capture backend that a pipeline asks for.
#[derive(Debug, Clone, Copy, PartialEq, Eq, Structural)]
pub enum InputBackend {
    Auto,
    Ffmpeg,
    V4l2,
    Libcamera,
}

/// Network settings of a pipeline.
#[derive(Debug, Clone, Copy, PartialEq, Eq)]
pub struct NetworkProfile {
    pub transport: Transport,
    pub packet_size_limit: usize,
    pub stall_timeout: Duration,
}

/// Drop policy applied when a sink's queue is full.
#[derive(Debug, Clone, Copy, PartialEq, Eq, Structural)]
pub enum DropPolicy {
    /// Back-pressure the ingestion loop until the sink drains.
    Block,
    /// Discard the oldest buffered frame to make room for the incoming one.
    DropOldest,
    /// Discard the incoming frame; the sink keeps its current queue contents.
    DropNewest,
}

impl Default for DropPolicy {
    fn default() -> (r: Self)
        ensures
            r == DropPolicy::Block,
    {
        DropPolicy::Block
    }
}

/// One output of a pipeline.
#[derive(Debug, PartialEq, Eq)]
pub enum OutputProfile {
    WebrtcRtp {
        codec: Option<String>,
        payload_type: Option<u8>,
        mtu: Option<usize>,
        ssrc: Option<String>,
        clock_rate: Option<u32>,
        /// Maximum number of frames buffered in the sink's actor queue.
        /// Defaults to 10 when unset.
        queue_limit: Option<usize>,
        /// Action taken when `queue_limit` is reached.
        drop_policy: DropPolicy,
    },
    Recording {
        /// Maximum number of frames buffered in the recorder's actor queue.
        /// Defaults to 100 when unset.
        queue_limit: Option<usize>,
        /// Action taken when `queue_limit` is reached.
        drop_policy: DropPolicy,
    },
}

impl Clone for OutputProfile {
    fn clone(&self) -> (r: Self)
        ensures
            r == *self,
    {
        match self {
            OutputProfile::WebrtcRtp {
                codec,
                payload_type,
                mtu,
                ssrc,
                clock_rate,
                queue_limit,
                drop_policy,
            } => OutputProfile::WebrtcRtp {
                codec: codec.clone(),
                payload_type: *payload_type,
                mtu: *mtu,
                ssrc: ssrc.clone(),
                clock_rate: *clock_rate,
                queue_limit: *queue_limit,
                drop_policy: *drop_policy,
            },
            OutputProfile::Recording { queue_limit, drop_policy } => OutputProfile::Recording {
                queue_limit: *queue_limit,
                drop_policy: *drop_policy,
            },
        }
    }
}

/// The picture that a capture device is asked for.
#[derive(Debug, Clone, PartialEq, Eq)]
pub struct CaptureProfile {
    pub width: u32,
    pub height: u32,
    pub pixel_format: String,
    pub frame_rate: u32,
}

/// How a pipeline encodes its output.
#[derive(Debug, Clone, PartialEq, Eq)]
pub struct ProcessingProfile {
    pub codec: String,
    pub encoder: String,
    pub preset: String,
    pub tune: String,
    pub frame_rate: u32,
    pub bitrate: Bitrate,
    pub rotation: Option<i32>,
}

/// The corner in which an overlay layer is drawn.
#[derive(Debug, Clone, Copy, PartialEq, Eq, Structural)]
pub enum OverlayPosition {
    TopLeft,
    TopRight,
    BottomLeft,
    BottomRight,
}

impl Default for OverlayPosition {
    fn default() -> (r: Self)
        ensures
            r == OverlayPosition::TopLeft,
    {
        OverlayPosition::TopLeft
    }
}

/// The clock that a timestamp layer shows.
#[derive(Debug, Clone, Copy, PartialEq, Eq, Structural)]
pub enum TimestampSource {
    WallClock,
}

impl Default for TimestampSource {
    fn default() -> (r: Self)
        ensures
            r == TimestampSource::WallClock,
    {
        TimestampSource::WallClock
    }
}

/// The time zone that a timestamp layer shows.
#[derive(Debug, Clone, Copy, PartialEq, Eq, Structural)]
pub enum OverlayTimezone {
    Local,
    Utc,
}

impl Default for OverlayTimezone {
    fn default() -> (r: Self)
        ensures
            r == OverlayTimezone::Utc,
    {
        OverlayTimezone::Utc
    }
}

/// The look of a text layer; what is unset takes a default.
#[derive(Debug, Clone, PartialEq, Eq)]
pub struct TextOverlayStyle {
    pub font_size: Option<u32>,
    pub font_color: Option<String>,
    pub background_color: Option<String>,
    pub background_alpha: Option<u8>,
    pub padding: Option<u32>,
    pub margin: Option<u32>,
}

impl Default for TextOverlayStyle {
    fn default() -> (r: Self)
        ensures
            r.font_size is None,
            r.font_color is None,
            r.background_color is None,
            r.background_alpha is None,
            r.padding is None,
            r.margin is None,
    {
        TextOverlayStyle {
            font_size: None,
            font_color: None,
            background_color: None,
            background_alpha: None,
            padding: None,
            margin: None,
        }
    }
}

/// One layer drawn over the picture.
#[derive(Debug, Clone, PartialEq, Eq)]
pub enum OverlayLayer {
    Timestamp {
        position: OverlayPosition,
        source: TimestampSource,
        timezone: OverlayTimezone,
        format: Option<String>,
        style: TextOverlayStyle,
    },
    Text { text: String, position: OverlayPosition, style: TextOverlayStyle },
    Watermark {
        image_path: String,
        position: OverlayPosition,
        max_width_px: Option<u32>,
        opacity: Option<u8>,
        margin: Option<u32>,
    },
}

/// The layers drawn over the picture, bottom first.
#[derive(Debug, Clone, PartialEq, Eq)]
pub struct OverlayProfile {
    pub layers: Vec<OverlayLayer>,
}

/// One pipeline of a manifest.
#[derive(Debug, Clone, PartialEq, Eq)]
pub struct PipelineNode {
    pub id: String,
    pub input: String,
    pub input_type: InputType,
    pub strategy: StreamStrategy,
    pub backend: Option<InputBackend>,
    pub network: Option<NetworkProfile>,
    pub capture: Option<CaptureProfile>,
    pub processing: Option<ProcessingProfile>,
    pub overlay: Option<OverlayProfile>,
    pub outputs: Vec<OutputProfile>,
}

/// Settings of the machine as a whole.
#[derive(Debug, Clone, Copy, PartialEq, Eq)]
pub struct SystemConfig {
    pub hardware_target: HardwareTarget,
    pub cma_allocation_limit: Option<ByteSize>,
    pub media_memory_limit: Option<ByteSize>,
}

/// A whole manifest.
#[derive(Debug, Clone, PartialEq, Eq)]
pub struct CamlManifest {
    pub version: Option<u32>,
    pub system: SystemConfig,
    pub pipelines: Vec<PipelineNode>,
}

/// What a URL is made of, as far as the rules for inputs ask.
#[derive(Debug, Clone, PartialEq, Eq)]
pub struct UrlParts {
    pub scheme: String,
    pub host: Option<String>,
}

/// What `url::Url::parse` makes of a text: the scheme and the host, or the text
/// of its error.
pub uninterp spec fn url_reading(input: Seq<char>) -> Result<
    (Seq<char>, Option<Seq<char>>),
    Seq<char>,
>;

/// The characters of an optional text.
pub open spec fn text_of(s: Option<String>) -> Option<Seq<char>> {
    match s {
        Some(s) => Some(s@),
        None => None,
    }
}

/// The characters of what a URL was taken apart into.
pub open spec fn url_parts_text(parts: Result<UrlParts, String>) -> Result<
    (Seq<char>, Option<Seq<char>>),
    Seq<char>,
> {
    match parts {
        Ok(parts) => Ok((parts.scheme@, text_of(parts.host))),
        Err(message) => Err(message@),
    }
}

/// Takes a URL apart with `url::Url::parse`, then `scheme` and `host_str`. The
/// result, with the error in the words of the outside crate, depends on the text
/// alone.
#[verifier::external_body]
fn parse_url(input: &str) -> (r: Result<UrlParts, String>)
    ensures
        url_parts_text(r) == url_reading(input@),
{
    match url::Url::parse(input) {
        Ok(parsed) => Ok(
            UrlParts {
                scheme: parsed.scheme().to_string(),
                host: parsed.host_str().map(|host| host.to_string()),
            },
        ),
        Err(error) => Err(error.to_string()),
    }
}

// ---------------------------------------------------------------------------
// The rules
// ---------------------------------------------------------------------------

/// A message about one pipeline.
pub open spec fn about_pipeline(id: Seq<char>, rest: Seq<char>) -> Seq<char> {
    "pipeline '"@ + id + rest
}

/// The rule that an RTSP input breaks, given what its URL reads as.
pub open spec fn rtsp_failure(
    id: Seq<char>,
    input: Seq<char>,
    reading: Result<(Seq<char>, Option<Seq<char>>), Seq<char>>,
) -> Option<Seq<char>> {
    match reading {
        Err(error) => Some(
            "pipeline '"@ + id + "' has an invalid rtsp input '"@ + input + "': "@ + error,
        ),
        Ok((scheme, host)) => if scheme != "rtsp"@ || host is None {
            Some(about_pipeline(id, "' must use an rtsp:// URL with a host"@))
        } else {
            None
        },
    }
}

/// Whether an input looks like a path on a Unix file system.
pub open spec fn looks_like_path(input: Seq<char>) -> bool {
    text::has_prefix(input, "/"@) || text::has_prefix(input, "./"@) || text::has_prefix(
        input,
        "../"@,
    )
}

/// Whether a pipeline takes its media from a libcamera device.
pub open spec fn uses_libcamera(node: PipelineNode) -> bool {
    node.input_type == InputType::Device && node.backend == Some(InputBackend::Libcamera)
}

/// Whether an input names a camera by its number, such as `camera:0`.
pub open spec fn names_camera(input: Seq<char>) -> bool {
    &&& text::has_prefix(input, "camera:"@)
    &&& input.len() > "camera:"@.len()
    &&& text::all_digits(input.skip("camera:"@.len() as int))
}

/// The rule that a device input breaks.
pub open spec fn device_failure(id: Seq<char>, input: Seq<char>) -> Option<Seq<char>> {
    if !looks_like_path(input) || text::has_substring(input, "://"@) {
        Some(about_pipeline(id, "' must use a filesystem-like path for device input"@))
    } else {
        None
    }
}

/// The rule that the look of a text layer breaks.
pub open spec fn style_failure(id: Seq<char>, style: TextOverlayStyle) -> Option<Seq<char>> {
    if style.font_size == Some(0u32) {
        Some(about_pipeline(id, "' overlay font_size must be greater than 0"@))
    } else if style.background_alpha matches Some(alpha) && alpha > 100 {
        Some(about_pipeline(id, "' overlay background_alpha must be between 0 and 100"@))
    } else {
        None
    }
}

/// The first rule that a layer breaks.
pub open spec fn layer_failure(id: Seq<char>, layer: OverlayLayer) -> Option<Seq<char>> {
    match layer {
        OverlayLayer::Timestamp { format, style, .. } => {
            if style_failure(id, style) is Some {
                style_failure(id, style)
            } else if format matches Some(format) && text::is_blank(format@) {
                Some(about_pipeline(id, "' timestamp overlay format cannot be empty"@))
            } else {
                None
            }
        },
        OverlayLayer::Text { style, .. } => style_failure(id, style),
        OverlayLayer::Watermark { image_path, max_width_px, opacity, .. } => {
            if text::is_blank(image_path@) {
                Some(about_pipeline(id, "' watermark overlay image_path cannot be empty"@))
            } else if text::has_substring(image_path@, "://"@) {
                Some(
                    about_pipeline(
                        id,
                        "' watermark overlay image_path must reference a local file"@,
                    ),
                )
            } else if max_width_px == Some(0u32) {
                Some(
                    about_pipeline(
                        id,
                        "' watermark overlay max_width_px must be greater than 0"@,
                    ),
                )
            } else if opacity matches Some(opacity) && opacity > 100 {
                Some(
                    about_pipeline(id, "' watermark overlay opacity must be between 0 and 100"@),
                )
            } else {
                None
            }
        },
    }
}

/// The first rule that any of the layers breaks, in their order.
pub open spec fn layers_failure(id: Seq<char>, layers: Seq<OverlayLayer>) -> Option<Seq<char>>
    decreases layers.len(),
{
    if layers.len() == 0 {
        None
    } else if layer_failure(id, layers[0]) is Some {
        layer_failure(id, layers[0])
    } else {
        layers_failure(id, layers.drop_first())
    }
}

/// The first rule that an overlay breaks.
pub open spec fn overlay_failure(id: Seq<char>, overlay: OverlayProfile) -> Option<Seq<char>> {
    if overlay.layers@.len() == 0 {
        Some(about_pipeline(id, "' defines overlay but provides no layers"@))
    } else {
        layers_failure(id, overlay.layers@)
    }
}

/// The rule on what its strategy needs that a pipeline breaks. What is passed through
/// comes over a network, unless a libcamera device gives it.
pub open spec fn strategy_failure(node: PipelineNode) -> Option<Seq<char>> {
    match node.strategy {
        StreamStrategy::Passthrough => {
            if node.network is None && !uses_libcamera(node) {
                Some(
                    about_pipeline(node.id@, "' uses passthrough and requires a network profile"@),
                )
            } else if node.processing is Some {
                Some(
                    about_pipeline(node.id@, "' defines processing but is marked as passthrough"@),
                )
            } else if node.overlay is Some {
                Some(
                    about_pipeline(
                        node.id@,
                        "' defines overlay but overlays require transcode or hardware_decode"@,
                    ),
                )
            } else {
                None
            }
        },
        StreamStrategy::Transcode => {
            if node.processing is None {
                Some(
                    about_pipeline(node.id@, "' uses transcode and requires a processing profile"@),
                )
            } else {
                None
            }
        },
        StreamStrategy::HardwareDecode => {
            if node.processing is None {
                Some(
                    about_pipeline(
                        node.id@,
                        "' uses hardware_decode and requires a processing profile"@,
                    ),
                )
            } else {
                None
            }
        },
    }
}

/// The rule on inputs that a pipeline breaks. A libcamera device may be named by its
/// number.
pub open spec fn input_failure(node: PipelineNode) -> Option<Seq<char>> {
    match node.input_type {
        InputType::Rtsp => {
            if node.backend == Some(InputBackend::V4l2) || node.backend == Some(
                InputBackend::Libcamera,
            ) {
                Some(
                    about_pipeline(
                        node.id@,
                        "' uses an rtsp input and only supports 'auto' or 'ffmpeg' backends"@,
                    ),
                )
            } else {
                rtsp_failure(node.id@, node.input@, url_reading(node.input@))
            }
        },
        InputType::Device => if uses_libcamera(node) && names_camera(node.input@) {
            None
        } else {
            device_failure(node.id@, node.input@)
        },
    }
}

/// The first rule that a pipeline breaks.
pub open spec fn node_failure(node: PipelineNode) -> Option<Seq<char>> {
    if strategy_failure(node) is Some {
        strategy_failure(node)
    } else if node.overlay is Some && overlay_failure(node.id@, node.overlay->0) is Some {
        overlay_failure(node.id@, node.overlay->0)
    } else {
        input_failure(node)
    }
}

/// The first rule that any of the pipelines breaks, in their order.
pub open spec fn nodes_failure(nodes: Seq<PipelineNode>) -> Option<Seq<char>>
    decreases nodes.len(),
{
    if nodes.len() == 0 {
        None
    } else if node_failure(nodes[0]) is Some {
        node_failure(nodes[0])
    } else {
        nodes_failure(nodes.drop_first())
    }
}

/// The first rule that a manifest breaks, in the words of its error.
pub open spec fn manifest_failure(manifest: CamlManifest) -> Option<Seq<char>> {
    if manifest.system.cma_allocation_limit is None && manifest.system.media_memory_limit is None {
        Some("Either cma_allocation_limit or media_memory_limit must be specified"@)
    } else if manifest.pipelines@.len() == 0 {
        Some("manifest must define at least one pipeline"@)
    } else {
        nodes_failure(manifest.pipelines@)
    }
}

/// Whether a result reports exactly the given failure as a broken rule.
pub open spec fn reports(r: Result<(), ManifestError>, failure: Option<Seq<char>>) -> bool {
    match r {
        Ok(()) => failure is None,
        Err(ManifestError::Validation(message)) => failure == Some(message@),
        Err(_) => false,
    }
}

fn broken_rule(pipeline_id: &str, rest: &str) -> (r: Result<(), ManifestError>)
    ensures
        reports(r, Some(about_pipeline(pipeline_id@, rest@))),
{
    Err(ManifestError::Validation(text::join3("pipeline '", pipeline_id, rest)))
}

impl CamlManifest {
    /// Takes a manifest that was read, or the words of the reader if it could not be,
    /// and holds it to its rules.
    pub fn from_parsed(parsed: Result<CamlManifest, String>) -> (r: Result<Self, ManifestError>)
        ensures
            match parsed {
                Ok(manifest) => match manifest_failure(manifest) {
                    None => r == Ok::<CamlManifest, ManifestError>(manifest),
                    Some(failure) => r matches Err(ManifestError::Validation(message)) && message@
                        == failure,
                },
                Err(reason) => r matches Err(ManifestError::Yaml(message)) && message@ == reason@,
            },
    {
        let manifest = match parsed {
            Ok(manifest) => manifest,
            Err(reason) => {
                return Err(ManifestError::Yaml(reason));
            },
        };
        match manifest.validate() {
            Ok(()) => Ok(manifest),
            Err(error) => Err(error),
        }
    }

    /// Holds the manifest to its rules; the first broken one is reported.
    pub fn validate(&self) -> (r: Result<(), ManifestError>)
        ensures
            reports(r, manifest_failure(*self)),
    {
        if self.system.cma_allocation_limit.is_none() && self.system.media_memory_limit.is_none() {
            return Err(
                ManifestError::Validation(
                    "Either cma_allocation_limit or media_memory_limit must be specified".to_owned(),
                ),
            );
        }
        if self.pipelines.len() == 0 {
            return Err(
                ManifestError::Validation("manifest must define at least one pipeline".to_owned()),
            );
        }
        let mut i: usize = 0;
        assert(self.pipelines@.skip(0) == self.pipelines@);
        while i < self.pipelines.len()
            invariant
                i <= self.pipelines.len(),
                manifest_failure(*self) == nodes_failure(self.pipelines@.skip(i as int)),
            decreases self.pipelines.len() - i,
        {
            let ghost rest = self.pipelines@.skip(i as int);
            assert(rest[0] == self.pipelines@[i as int]);
            assert(rest.drop_first() == self.pipelines@.skip(i + 1));
            match validate_node(&self.pipelines[i]) {
                Ok(()) => {},
                Err(error) => return Err(error),
            }
            i += 1;
        }
        Ok(())
    }
}

/// Holds one pipeline to its rules.
pub fn validate_node(node: &PipelineNode) -> (r: Result<(), ManifestError>)
    ensures
        reports(r, node_failure(*node)),
{
    match validate_strategy(node) {
        Ok(()) => {},
        Err(error) => return Err(error),
    }
    if let Some(overlay) = &node.overlay {
        match validate_overlay_profile(node.id.as_str(), overlay) {
            Ok(()) => {},
            Err(error) => return Err(error),
        }
    }
    match node.input_type {
        InputType::Rtsp => {
            if let Some(backend) = node.backend {
                if backend == InputBackend::V4l2 || backend == InputBackend::Libcamera {
                    return broken_rule(
                        node.id.as_str(),
                        "' uses an rtsp input and only supports 'auto' or 'ffmpeg' backends",
                    );
                }
            }
            validate_rtsp_input(node.id.as_str(), node.input.as_str())
        },
        InputType::Device => {
            if is_libcamera_device(node) && is_camera_name(node.input.as_str()) {
                return Ok(());
            }
            validate_device_input(node.id.as_str(), node.input.as_str())
        },
    }
}

/// Whether a pipeline takes its media from a libcamera device.
pub fn is_libcamera_device(node: &PipelineNode) -> (r: bool)
    ensures
        r == uses_libcamera(*node),
{
    match (node.input_type, node.backend) {
        (InputType::Device, Some(InputBackend::Libcamera)) => true,
        _ => false,
    }
}

/// Whether an input names a camera by its number, such as `camera:0`.
pub fn is_camera_name(input: &str) -> (r: bool)
    ensures
        r == names_camera(input@),
{
    proof {
        reveal_strlit("camera:");
    }
    if !text::starts_with(input, "camera:") {
        return false;
    }
    let chars = text::chars_of(input);
    let mut i: usize = 7;
    while i < chars.len()
        invariant
            7 <= i <= chars@.len(),
            chars@ == input@,
            "camera:"@.len() == 7,
            forall|k: int| 7 <= k < i ==> text::is_digit(#[trigger] chars@[k]),
        decreases chars.len() - i,
    {
        if !('0' <= chars[i] && chars[i] <= '9') {
            assert(input@.skip(7)[i - 7] == chars@[i as int]);
            return false;
        }
        i += 1;
    }
    assert forall|k: int| 0 <= k < input@.skip(7).len() implies text::is_digit(
        #[trigger] input@.skip(7)[k],
    ) by {
        assert(input@.skip(7)[k] == chars@[k + 7]);
    }
    chars.len() > 7
}

/// Holds a pipeline to what its strategy needs.
fn validate_strategy(node: &PipelineNode) -> (r: Result<(), ManifestError>)
    ensures
        reports(r, strategy_failure(*node)),
{
    let id = node.id.as_str();
    match node.strategy {
        StreamStrategy::Passthrough => {
            if node.network.is_none() && !is_libcamera_device(node) {
                return broken_rule(id, "' uses passthrough and requires a network profile");
            }
            if node.processing.is_some() {
                return broken_rule(id, "' defines processing but is marked as passthrough");
            }
            if node.overlay.is_some() {
                return broken_rule(
                    id,
                    "' defines overlay but overlays require transcode or hardware_decode",
                );
            }
        },
        StreamStrategy::Transcode => {
            if node.processing.is_none() {
                return broken_rule(id, "' uses transcode and requires a processing profile");
            }
        },
        StreamStrategy::HardwareDecode => {
            if node.processing.is_none() {
                return broken_rule(
                    id,
                    "' uses hardware_decode and requires a processing profile",
                );
            }
        },
    }
    Ok(())
}

/// Holds an RTSP input to the rule that it is an `rtsp://` URL with a host.
pub fn validate_rtsp_input(pipeline_id: &str, input: &str) -> (r: Result<(), ManifestError>)
    ensures
        reports(r, rtsp_failure(pipeline_id@, input@, url_reading(input@))),
{
    let parts = parse_url(input);
    validate_rtsp_parts(pipeline_id, input, &parts)
}

/// Holds an RTSP input to its rule, given what its URL was taken apart into.
pub fn validate_rtsp_parts(
    pipeline_id: &str,
    input: &str,
    parts: &Result<UrlParts, String>,
) -> (r: Result<(), ManifestError>)
    ensures
        reports(r, rtsp_failure(pipeline_id@, input@, url_parts_text(*parts))),
{
    match parts {
        Err(error) => {
            let mut message = text::join5(
                "pipeline '",
                pipeline_id,
                "' has an invalid rtsp input '",
                input,
                "': ",
            );
            message.append(error.as_str());
            Err(ManifestError::Validation(message))
        },
        Ok(parsed) => {
            if !text::same(parsed.scheme.as_str(), "rtsp") || parsed.host.is_none() {
                return broken_rule(pipeline_id, "' must use an rtsp:// URL with a host");
            }
            Ok(())
        },
    }
}

/// Holds a device input to the rule that it is a path.
pub fn validate_device_input(pipeline_id: &str, input: &str) -> (r: Result<(), ManifestError>)
    ensures
        reports(r, device_failure(pipeline_id@, input@)),
{
    let is_path = text::starts_with(input, "/") || text::starts_with(input, "./")
        || text::starts_with(input, "../");
    if !is_path || text::contains(input, "://") {
        return broken_rule(pipeline_id, "' must use a filesystem-like path for device input");
    }
    Ok(())
}

/// Holds an overlay to its rules, layer by layer.
pub fn validate_overlay_profile(pipeline_id: &str, overlay: &OverlayProfile) -> (r: Result<
    (),
    ManifestError,
>)
    ensures
        reports(r, overlay_failure(pipeline_id@, *overlay)),
{
    if overlay.layers.len() == 0 {
        return broken_rule(pipeline_id, "' defines overlay but provides no layers");
    }
    let mut i: usize = 0;
    assert(overlay.layers@.skip(0) == overlay.layers@);
    while i < overlay.layers.len()
        invariant
            i <= overlay.layers.len(),
            overlay_failure(pipeline_id@, *overlay) == layers_failure(
                pipeline_id@,
                overlay.layers@.skip(i as int),
            ),
        decreases overlay.layers.len() - i,
    {
        let ghost rest = overlay.layers@.skip(i as int);
        assert(rest[0] == overlay.layers@[i as int]);
        assert(rest.drop_first() == overlay.layers@.skip(i + 1));
        match validate_overlay_layer(pipeline_id, &overlay.layers[i]) {
            Ok(()) => {},
            Err(error) => return Err(error),
        }
        i += 1;
    }
    Ok(())
}

/// Holds one layer to its rules.
fn validate_overlay_layer(pipeline_id: &str, layer: &OverlayLayer) -> (r: Result<
    (),
    ManifestError,
>)
    ensures
        reports(r, layer_failure(pipeline_id@, *layer)),
{
    match layer {
        OverlayLayer::Timestamp { format, style, .. } => {
            match validate_text_overlay_style(pipeline_id, style) {
                Ok(()) => {},
                Err(error) => return Err(error),
            }
            if let Some(value) = format {
                if text::trim(value.as_str()).is_empty() {
                    return broken_rule(
                        pipeline_id,
                        "' timestamp overlay format cannot be empty",
                    );
                }
            }
            Ok(())
        },
        OverlayLayer::Text { style, .. } => validate_text_overlay_style(pipeline_id, style),
        OverlayLayer::Watermark { image_path, max_width_px, opacity, .. } => {
            if text::trim(image_path.as_str()).is_empty() {
                return broken_rule(
                    pipeline_id,
                    "' watermark overlay image_path cannot be empty",
                );
            }
            if text::contains(image_path.as_str(), "://") {
                return broken_rule(
                    pipeline_id,
                    "' watermark overlay image_path must reference a local file",
                );
            }
            if let Some(width) = max_width_px {
                if *width == 0 {
                    return broken_rule(
                        pipeline_id,
                        "' watermark overlay max_width_px must be greater than 0",
                    );
                }
            }
            if let Some(value) = opacity {
                if *value > 100 {
                    return broken_rule(
                        pipeline_id,
                        "' watermark overlay opacity must be between 0 and 100",
                    );
                }
            }
            Ok(())
        },
    }
}

/// Holds the look of a text layer to its rules.
pub fn validate_text_overlay_style(pipeline_id: &str, style: &TextOverlayStyle) -> (r: Result<
    (),
    ManifestError,
>)
    ensures
        reports(r, style_failure(pipeline_id@, *style)),
{
    if let Some(size) = style.font_size {
        if size == 0 {
            return broken_rule(pipeline_id, "' overlay font_size must be greater than 0");
        }
    }
    if let Some(alpha) = style.background_alpha {
        if alpha > 100 {
            return broken_rule(
                pipeline_id,
                "' overlay background_alpha must be between 0 and 100",
            );
        }
    }
    Ok(())
}

// ---------------------------------------------------------------------------
// Laws
// ---------------------------------------------------------------------------

/// A manifest keeps its rules exactly if it sets a limit, has a pipeline, and each of its
/// pipelines keeps its own.
pub proof fn manifests_are_held_to_rules_pipeline_by_pipeline(manifest: CamlManifest)
    ensures
        manifest_failure(manifest) is None <==> {
            &&& manifest.system.cma_allocation_limit is Some
                || manifest.system.media_memory_limit is Some
            &&& manifest.pipelines@.len() > 0
            &&& forall|i: int|
                0 <= i < manifest.pipelines@.len() ==> node_failure(
                    #[trigger] manifest.pipelines@[i],
                ) is None
        },
{
    lemma_nodes_are_held_one_by_one(manifest.pipelines@);
}

proof fn lemma_nodes_are_held_one_by_one(nodes: Seq<PipelineNode>)
    ensures
        nodes_failure(nodes) is None <==> forall|i: int|
            0 <= i < nodes.len() ==> node_failure(#[trigger] nodes[i]) is None,
    decreases nodes.len(),
{
    if nodes.len() > 0 {
        let rest = nodes.drop_first();
        lemma_nodes_are_held_one_by_one(rest);
        if nodes_failure(nodes) is None {
            assert forall|i: int| 0 <= i < nodes.len() implies node_failure(
                #[trigger] nodes[i],
            ) is None by {
                if i > 0 {
                    assert(rest[i - 1] == nodes[i]);
                }
            }
        }
        if forall|i: int| 0 <= i < nodes.len() ==> node_failure(#[trigger] nodes[i]) is None {
            assert(node_failure(nodes[0]) is None);
            assert forall|i: int| 0 <= i < rest.len() implies node_failure(
                #[trigger] rest[i],
            ) is None by {
                assert(rest[i] == nodes[i + 1]);
            }
        }
    }
}

/// A broken rule is reported for the first pipeline that breaks one, whatever comes after.
pub proof fn the_first_broken_pipeline_is_reported(nodes: Seq<PipelineNode>, at: int)
    requires
        0 <= at < nodes.len(),
        node_failure(nodes[at]) is Some,
        forall|i: int| 0 <= i < at ==> node_failure(#[trigger] nodes[i]) is None,
    ensures
        nodes_failure(nodes) == node_failure(nodes[at]),
    decreases at,
{
    if at > 0 {
        let rest = nodes.drop_first();
        assert(node_failure(nodes[0]) is None);
        assert(rest[at - 1] == nodes[at]);
        assert forall|i: int| 0 <= i < at - 1 implies node_failure(#[trigger] rest[i]) is None by {
            assert(rest[i] == nodes[i + 1]);
        }
        the_first_broken_pipeline_is_reported(rest, at - 1);
    }
}

/// A style is refused if and only if its letters have no size or its background is more
/// than opaque.
pub proof fn styles_have_size_and_shade(id: Seq<char>, style: TextOverlayStyle)
    ensures
        style_failure(id, style) is None <==> {
            &&& style.font_size matches Some(size) ==> size > 0
            &&& style.background_alpha matches Some(alpha) ==> alpha <= 100
        },
{
}

/// A layer keeps the rules if and only if its style does, its format says something, and
/// its picture is a local file with a width and at most full opacity.
pub proof fn layers_keep_their_rules(id: Seq<char>, layer: OverlayLayer)
    ensures
        layer_failure(id, layer) is None <==> match layer {
            OverlayLayer::Timestamp { format, style, .. } => style_failure(id, style) is None && (
            format matches Some(format) ==> text::trimmed(format@).len() > 0),
            OverlayLayer::Text { style, .. } => style_failure(id, style) is None,
            OverlayLayer::Watermark { image_path, max_width_px, opacity, .. } => {
                &&& text::trimmed(image_path@).len() > 0
                &&& !text::has_substring(image_path@, "://"@)
                &&& max_width_px matches Some(width) ==> width > 0
                &&& opacity matches Some(opacity) ==> opacity <= 100
            },
        },
{
}

proof fn lemma_layers_are_held_one_by_one(id: Seq<char>, layers: Seq<OverlayLayer>)
    ensures
        layers_failure(id, layers) is None <==> forall|i: int|
            0 <= i < layers.len() ==> layer_failure(id, #[trigger] layers[i]) is None,
    decreases layers.len(),
{
    if layers.len() > 0 {
        let rest = layers.drop_first();
        lemma_layers_are_held_one_by_one(id, rest);
        if layers_failure(id, layers) is None {
            assert forall|i: int| 0 <= i < layers.len() implies layer_failure(
                id,
                #[trigger] layers[i],
            ) is None by {
                if i > 0 {
                    assert(rest[i - 1] == layers[i]);
                }
            }
        }
        if forall|i: int| 0 <= i < layers.len() ==> layer_failure(id, #[trigger] layers[i]) is None {
            assert(layer_failure(id, layers[0]) is None);
            assert forall|i: int| 0 <= i < rest.len() implies layer_failure(
                id,
                #[trigger] rest[i],
            ) is None by {
                assert(rest[i] == layers[i + 1]);
            }
        }
    }
}

/// A pipeline keeps the rules if and only if it has the profiles that its strategy asks
/// for and no others, an overlay of its draws something and only what can be drawn, and
/// its input can be read.
pub proof fn pipelines_keep_their_rules(node: PipelineNode)
    ensures
        node_failure(node) is None <==> {
            &&& if node.strategy == StreamStrategy::Passthrough {
                &&& node.processing is None
                &&& node.overlay is None
                &&& node.network is Some || (node.input_type == InputType::Device && node.backend
                    == Some(InputBackend::Libcamera))
            } else {
                node.processing is Some
            }
            &&& node.overlay matches Some(overlay) ==> overlay.layers@.len() > 0 && forall|i: int|
                0 <= i < overlay.layers@.len() ==> layer_failure(
                    node.id@,
                    #[trigger] overlay.layers@[i],
                ) is None
            &&& input_failure(node) is None
        },
{
    if let Some(overlay) = node.overlay {
        lemma_layers_are_held_one_by_one(node.id@, overlay.layers@);
    }
}

/// A network input is a URL that reads as one of RTSP with a host, and has no backend of a
/// device. A device is a path, or for libcamera the number of a camera.
pub proof fn inputs_are_of_their_kind(node: PipelineNode)
    ensures
        input_failure(node) is None <==> (if node.input_type == InputType::Rtsp {
            &&& node.backend != Some(InputBackend::V4l2)
            &&& node.backend != Some(InputBackend::Libcamera)
            &&& url_reading(node.input@) matches Ok((scheme, host)) && scheme == "rtsp"@
                && host is Some
        } else {
            ||| device_failure(node.id@, node.input@) is None
            ||| node.backend == Some(InputBackend::Libcamera) && names_camera(node.input@)
        }),
{
}

/// A path begins with a slash, behind one dot, two, or none, and holds no scheme.
pub proof fn devices_are_given_by_paths(id: Seq<char>, input: Seq<char>)
    ensures
        device_failure(id, input) is None <==> {
            &&& ({
                ||| input.len() >= 1 && input[0] == '/'
                ||| input.len() >= 2 && input[0] == '.' && input[1] == '/'
                ||| input.len() >= 3 && input[0] == '.' && input[1] == '.' && input[2] == '/'
            })
            &&& !text::has_substring(input, "://"@)
        },
{
    reveal_strlit("/");
    reveal_strlit("./");
    reveal_strlit("../");
    lemma_begins_with(input, "/"@);
    lemma_begins_with(input, "./"@);
    lemma_begins_with(input, "../"@);
    assert("/"@.len() == 1 && "/"@[0] == '/');
    assert("./"@.len() == 2 && "./"@[0] == '.' && "./"@[1] == '/');
    assert("../"@.len() == 3 && "../"@[0] == '.' && "../"@[1] == '.' && "../"@[2] == '/');
}

proof fn lemma_begins_with(s: Seq<char>, prefix: Seq<char>)
    ensures
        text::has_prefix(s, prefix) <==> s.len() >= prefix.len() && forall|i: int|
            0 <= i < prefix.len() ==> s[i] == #[trigger] prefix[i],
{
    if s.len() >= prefix.len() {
        let front = s.subrange(0, prefix.len() as int);
        if text::has_prefix(s, prefix) {
            assert forall|i: int| 0 <= i < prefix.len() implies s[i] == #[trigger] prefix[i] by {
                assert(front[i] == s[i]);
            }
        }
        if forall|i: int| 0 <= i < prefix.len() ==> s[i] == #[trigger] prefix[i] {
            assert(front =~= prefix);
        }
    }
}

/// A camera is named by the word, a colon and a number; anything else behind the colon, or
/// nothing, names none.
pub proof fn cameras_are_named_by_number(n: nat, rest: Seq<char>)
    ensures
        names_camera("camera:"@ + text::decimal(n)),
        !names_camera("camera:"@),
        (exists|i: int| 0 <= i < rest.len() && !text::is_digit(#[trigger] rest[i]))
            ==> !names_camera("camera:"@ + rest),
{
    text::decimals_read_back(n);
    let prefix = "camera:"@;
    let named = prefix + text::decimal(n);
    text::parts_of_a_text_are_found(prefix, text::decimal(n), Seq::empty());
    assert(named.skip(prefix.len() as int) == text::decimal(n));
    assert(names_camera(named));
    if exists|i: int| 0 <= i < rest.len() && !text::is_digit(#[trigger] rest[i]) {
        let i = choose|i: int| 0 <= i < rest.len() && !text::is_digit(#[trigger] rest[i]);
        let other = prefix + rest;
        assert(other.skip(prefix.len() as int) == rest);
        assert(!text::all_digits(rest));
    }
}

/// A check reports a broken rule in its own words, and only then an error.
pub proof fn broken_rules_are_reported(r: Result<(), ManifestError>, failure: Option<Seq<char>>)
    requires
        reports(r, failure),
    ensures
        r is Ok <==> failure is None,
        failure matches Some(rule) ==> (r matches Err(ManifestError::Validation(message))
            && message@ == rule),
{
}

/// A manifest is taken if and only if it sets a limit, has a pipeline, and each of its
/// pipelines keeps the rules; one that is taken is not changed.
pub proof fn manifests_are_taken_by_the_rules(
    manifest: CamlManifest,
    valid: Result<(), ManifestError>,
    taken: Result<CamlManifest, ManifestError>,
)
    requires
        call_ensures(CamlManifest::validate, (&manifest,), valid),
        call_ensures(CamlManifest::from_parsed, (Ok::<CamlManifest, String>(manifest),), taken),
    ensures
        valid is Ok <==> {
            &&& manifest.system.cma_allocation_limit is Some
                || manifest.system.media_memory_limit is Some
            &&& manifest.pipelines@.len() > 0
            &&& forall|i: int|
                0 <= i < manifest.pipelines@.len() ==> node_failure(
                    #[trigger] manifest.pipelines@[i],
                ) is None
        },
        taken is Ok <==> valid is Ok,
        taken matches Ok(same) ==> same == manifest,
{
    manifests_are_held_to_rules_pipeline_by_pipeline(manifest);
}

/// A pipeline is taken if and only if it has the profiles of its strategy, an overlay that
/// can be drawn, and an input of its kind.
pub proof fn pipelines_are_taken_by_the_rules(node: &PipelineNode, valid: Result<(), ManifestError>)
    requires
        call_ensures(validate_node, (node,), valid),
    ensures
        valid is Ok ==> (node.strategy == StreamStrategy::Passthrough <==> node.processing is None),
        valid is Ok && node.strategy == StreamStrategy::Passthrough ==> node.overlay is None,
        valid is Ok ==> (node.overlay matches Some(overlay) ==> overlay.layers@.len() > 0),
        valid is Ok && node.input_type == InputType::Rtsp ==> node.backend != Some(
            InputBackend::V4l2,
        ) && node.backend != Some(InputBackend::Libcamera),
        valid is Ok <==> node_failure(*node) is None,
{
    pipelines_keep_their_rules(*node);
    inputs_are_of_their_kind(*node);
}

} // verus!
