//! Transcoding: which codecs and settings are asked for, when packets are fed, and
//! what an overlay needs before a worker starts.

use vstd::prelude::*;

use crate::compiler::{CompiledPipeline, CompiledProcessingProfile};
use crate::ffmpeg::device::{self, VideoCodec};
use crate::ffmpeg::filter::{self, Rational};
use crate::ffmpeg::h264::H264Config;
use crate::ffmpeg::hwaccel::TranscodeBackend;
use crate::ffmpeg::worker::{self, OwnedEncodedPacket, RawPacket};
use crate::overlay::{CompiledOverlayLayer, CompiledWatermarkOverlay};
use crate::text;
use crate::time::Duration;
use crate::webrtc::config;

verus! {

// ---------------------------------------------------------------------------
// Feeding
// ---------------------------------------------------------------------------

/// Reads the packets of one stream of an input. Those of a local file are fed no faster
/// than their times say.
#[derive(Debug, PartialEq, Eq)]
pub struct TranscodeLoop {
    pub stream_index: usize,
    pub time_base: Rational,
    pub is_local_file: bool,
    /// The time of the first packet that has one.
    pub first_pts: Option<Duration>,
}

/// What is done with a packet.
#[derive(Debug, PartialEq, Eq)]
pub enum TranscodeAction {
    /// Nothing more is read.
    Stop,
    /// The packet is of another stream.
    Skip,
    /// The packet is fed to the decoder, after a wait if there is one.
    Feed { delay: Option<Duration> },
}

/// The time of a packet, in nanoseconds; one that makes no sense counts as none.
pub open spec fn pts_nanos(pts: i64, time_base: Rational) -> nat {
    match device::ticks_nanos(pts as int, time_base) {
        Some(nanos) => nanos,
        None => 0,
    }
}

/// How long a packet waits, if the first was at `first`, it is at `now`, and `elapsed`
/// has passed since the start.
pub open spec fn wait_nanos(first: nat, now: nat, elapsed: nat) -> Option<nat> {
    if now > first + elapsed {
        Some((now - first - elapsed) as nat)
    } else {
        None
    }
}

/// The time of the first packet, once a packet of this time was seen.
pub open spec fn first_time(first: Option<nat>, now: nat) -> nat {
    match first {
        Some(first) => first,
        None => now,
    }
}

impl TranscodeLoop {
    pub fn new(stream_index: usize, time_base: Rational, is_local_file: bool) -> (r: Self)
        ensures
            r == (TranscodeLoop { stream_index, time_base, is_local_file, first_pts: None }),
    {
        TranscodeLoop { stream_index, time_base, is_local_file, first_pts: None }
    }

    /// Decides what is done with a packet of the input; `elapsed` is the time since the
    /// start.
    pub fn step(
        &mut self,
        cancelled: bool,
        stream_index: usize,
        pts: Option<i64>,
        elapsed: Duration,
    ) -> (r: TranscodeAction)
        ensures
            final(self).stream_index == old(self).stream_index,
            final(self).time_base == old(self).time_base,
            final(self).is_local_file == old(self).is_local_file,
            if cancelled {
                r is Stop && final(self).first_pts == old(self).first_pts
            } else if stream_index != old(self).stream_index {
                r is Skip && final(self).first_pts == old(self).first_pts
            } else if old(self).is_local_file && pts is Some {
                let now = pts_nanos(pts->0, old(self).time_base);
                let first = first_time(config::nanos_of(old(self).first_pts), now);
                config::nanos_of(final(self).first_pts) == Some(first) && (r matches
                    TranscodeAction::Feed { delay } && config::nanos_of(delay) == wait_nanos(
                    first,
                    now,
                    elapsed@,
                ))
            } else {
                final(self).first_pts == old(self).first_pts && (r matches TranscodeAction::Feed {
                    delay,
                } && delay is None)
            },
    {
        if cancelled {
            return TranscodeAction::Stop;
        }
        if stream_index != self.stream_index {
            return TranscodeAction::Skip;
        }
        if !self.is_local_file || pts.is_none() {
            return TranscodeAction::Feed { delay: None };
        }
        let now = match device::duration_from_time_base(pts, self.time_base) {
            Some(now) => now,
            None => Duration::zero(),
        };
        let first = match self.first_pts {
            Some(first) => first,
            None => now,
        };
        self.first_pts = Some(first);
        let due = now.saturating_sub(first);
        if due.exceeds(&elapsed) {
            TranscodeAction::Feed { delay: Some(due.saturating_sub(elapsed)) }
        } else {
            TranscodeAction::Feed { delay: None }
        }
    }
}

/// What is done after the last packet.
#[derive(Debug, Clone, Copy, PartialEq, Eq, Structural)]
pub enum FinishStep {
    EndDecoder,
    DrainDecoder,
    FlushFilter,
    DrainFilter,
    EndEncoder,
    DrainEncoder,
}

/// The steps after the last packet, in their order: each stage is ended, and then
/// emptied into the next.
pub fn finish_steps() -> (r: [FinishStep; 6])
    ensures
        r@ == seq![
            FinishStep::EndDecoder,
            FinishStep::DrainDecoder,
            FinishStep::FlushFilter,
            FinishStep::DrainFilter,
            FinishStep::EndEncoder,
            FinishStep::DrainEncoder,
        ],
{
    [
        FinishStep::EndDecoder,
        FinishStep::DrainDecoder,
        FinishStep::FlushFilter,
        FinishStep::DrainFilter,
        FinishStep::EndEncoder,
        FinishStep::DrainEncoder,
    ]
}

/// Makes a packet of the encoder into one that stands by itself.
pub fn encoded_packet(
    packet: &RawPacket,
    time_base: Rational,
    nominal_duration: Duration,
    h264_config: &Option<H264Config>,
) -> (r: Result<OwnedEncodedPacket, String>)
    ensures
        match worker::packet_bytes(
            *packet,
            *h264_config,
            "encoder returned a packet with no payload"@,
        ) {
            Ok(data) => r matches Ok(out) && worker::packet_fits(
                out,
                *packet,
                time_base,
                nominal_duration@,
                data,
            ),
            Err(message) => r matches Err(error) && error@ == message,
        },
{
    worker::owned_packet(
        packet,
        time_base,
        nominal_duration,
        h264_config,
        "encoder returned a packet with no payload",
    )
}

/// The length of a frame of a transcoded stream.
pub fn nominal_duration(
    processing: &CompiledProcessingProfile,
    default_frame_duration: Duration,
) -> (r: Duration)
    ensures
        r@ == (match device::processing_frame_nanos(*processing) {
            Some(nanos) => nanos,
            None => default_frame_duration@,
        }),
{
    match device::frame_duration_from_processing(processing) {
        Some(duration) => duration,
        None => default_frame_duration,
    }
}

// ---------------------------------------------------------------------------
// Codecs
// ---------------------------------------------------------------------------

/// Which decoder is opened.
#[derive(Debug, PartialEq, Eq)]
pub enum DecoderChoice {
    /// The one that FFmpeg has for the stream.
    OfStream,
    /// The one with this name.
    Named(&'static str),
}

/// Decides which decoder is opened for a stream.
pub fn choose_decoder(backend: TranscodeBackend, codec: &VideoCodec) -> (r: Result<
    DecoderChoice,
    String,
>)
    ensures
        if backend == TranscodeBackend::Pi5HardwareDecode {
            match codec {
                VideoCodec::H264 => r matches Ok(DecoderChoice::Named(name)) && name@
                    == "h264_v4l2request"@,
                VideoCodec::Hevc => r matches Ok(DecoderChoice::Named(name)) && name@
                    == "hevc_v4l2request"@,
                VideoCodec::Other(name) => r matches Err(message) && message@
                    == "Raspberry Pi 5 hardware decode only supports H.264/H.265 inputs; stream codec was '"@
                    + name@ + "'"@,
            }
        } else {
            r matches Ok(choice) && choice is OfStream
        },
{
    match backend {
        TranscodeBackend::Software | TranscodeBackend::Pi4HardwareEncode => Ok(
            DecoderChoice::OfStream,
        ),
        TranscodeBackend::Pi5HardwareDecode => match codec {
            VideoCodec::H264 => Ok(DecoderChoice::Named("h264_v4l2request")),
            VideoCodec::Hevc => Ok(DecoderChoice::Named("hevc_v4l2request")),
            VideoCodec::Other(name) => Err(
                text::join3(
                    "Raspberry Pi 5 hardware decode only supports H.264/H.265 inputs; stream codec was '",
                    name.as_str(),
                    "'",
                ),
            ),
        },
    }
}

/// Which encoders the local FFmpeg build has.
#[derive(Debug, Clone, Copy, PartialEq, Eq, Structural)]
pub struct EncoderFacts {
    pub has_libx264: bool,
    /// There is some encoder for H.264.
    pub has_h264: bool,
    pub has_h264_v4l2m2m: bool,
}

/// Which encoder is opened.
#[derive(Debug, PartialEq, Eq)]
pub enum EncoderChoice {
    /// Any for H.264.
    AnyH264,
    /// The one with this name.
    Named(&'static str),
}

/// Decides which encoder is opened.
pub fn choose_encoder(backend: TranscodeBackend, facts: &EncoderFacts) -> (r: Result<
    EncoderChoice,
    String,
>)
    ensures
        if backend == TranscodeBackend::Pi4HardwareEncode {
            if facts.has_h264_v4l2m2m {
                r matches Ok(EncoderChoice::Named(name)) && name@ == "h264_v4l2m2m"@
            } else {
                r matches Err(message) && message@
                    == "the local FFmpeg build does not expose the 'h264_v4l2m2m' Raspberry Pi hardware encoder"@
            }
        } else if facts.has_libx264 {
            r matches Ok(EncoderChoice::Named(name)) && name@ == "libx264"@
        } else if facts.has_h264 {
            r matches Ok(choice) && choice is AnyH264
        } else {
            r matches Err(message) && message@
                == "no software H.264 encoder was found in the local FFmpeg build"@
        },
{
    match backend {
        TranscodeBackend::Software | TranscodeBackend::Pi5HardwareDecode => if facts.has_libx264 {
            Ok(EncoderChoice::Named("libx264"))
        } else if facts.has_h264 {
            Ok(EncoderChoice::AnyH264)
        } else {
            Err("no software H.264 encoder was found in the local FFmpeg build".to_owned())
        },
        TranscodeBackend::Pi4HardwareEncode => if facts.has_h264_v4l2m2m {
            Ok(EncoderChoice::Named("h264_v4l2m2m"))
        } else {
            Err(
                "the local FFmpeg build does not expose the 'h264_v4l2m2m' Raspberry Pi hardware encoder".to_owned(),
            )
        },
    }
}

/// The settings of an encoder.
#[derive(Debug, PartialEq, Eq)]
pub struct EncoderSettings {
    pub width: u32,
    pub height: u32,
    pub aspect_ratio: Rational,
    pub frame_rate: Rational,
    pub time_base: Rational,
    pub bit_rate: usize,
    pub max_b_frames: usize,
    pub gop: u32,
    pub options: Vec<(String, String)>,
}

/// An option that is set unless its value is blank.
pub open spec fn option_unless_blank(key: Seq<char>, value: Seq<char>) -> Seq<
    (Seq<char>, Seq<char>),
> {
    let value = text::trimmed(value);
    if value.len() == 0 {
        Seq::empty()
    } else {
        seq![(key, value)]
    }
}

/// The options that a profile asks for.
pub open spec fn encoder_options(processing: CompiledProcessingProfile) -> Seq<
    (Seq<char>, Seq<char>),
> {
    option_unless_blank("preset"@, processing.preset@) + option_unless_blank(
        "tune"@,
        processing.tune@,
    )
}

fn set_unless_blank(options: &mut Vec<(String, String)>, key: &str, value: &str)
    ensures
        device::option_texts(final(options)@) == device::option_texts(old(options)@)
            + option_unless_blank(key@, value@),
{
    let set = text::trim(value);
    proof {
        reveal_strlit("");
    }
    if !text::same(set, "") {
        options.push((key.to_owned(), set.to_owned()));
    }
    assert(set@.len() == 0 ==> set@ =~= ""@);
    assert(device::option_texts(options@) =~= device::option_texts(old(options)@)
        + option_unless_blank(key@, value@));
}

/// The settings of an encoder for pictures of a size.
pub fn encoder_settings(
    processing: &CompiledProcessingProfile,
    width: u32,
    height: u32,
    aspect_ratio: Rational,
) -> (r: EncoderSettings)
    ensures
        r.width == width,
        r.height == height,
        r.aspect_ratio == aspect_ratio,
        r.frame_rate == (Rational { numerator: processing.frame_rate as i32, denominator: 1 }),
        r.time_base == (Rational { numerator: 1, denominator: processing.frame_rate as i32 }),
        r.bit_rate == processing.bitrate_bps as usize,
        r.max_b_frames == 0,
        r.gop == (if 2 * processing.frame_rate <= u32::MAX {
            2 * processing.frame_rate
        } else {
            u32::MAX as int
        }),
        device::option_texts(r.options@) == encoder_options(*processing),
{
    let frame_rate: i32 = processing.frame_rate as i32;
    let mut options: Vec<(String, String)> = Vec::new();
    set_unless_blank(&mut options, "preset", processing.preset.as_str());
    set_unless_blank(&mut options, "tune", processing.tune.as_str());
    assert(device::option_texts(options@) =~= encoder_options(*processing));
    EncoderSettings {
        width,
        height,
        aspect_ratio,
        frame_rate: Rational { numerator: frame_rate, denominator: 1 },
        time_base: Rational { numerator: 1, denominator: frame_rate },
        bit_rate: processing.bitrate_bps as usize,
        max_b_frames: 0,
        gop: match processing.frame_rate.checked_mul(2) {
            Some(gop) => gop,
            None => u32::MAX,
        },
        options,
    }
}

// ---------------------------------------------------------------------------
// Faults
// ---------------------------------------------------------------------------

/// What can go wrong while FFmpeg transcodes, with its own words where it gives any.
#[derive(Debug, PartialEq, Eq)]
pub enum TranscodeFault {
    DecoderContext(String),
    OpenDecoder(String),
    MissingHardwareDecoder { name: String },
    OpenHardwareDecoder { name: String, error: String },
    EncoderContext(String),
    OpenEncoder { backend: TranscodeBackend, error: String },
    MissingFilter { name: String },
    AddFilter { name: String, error: String },
    MissingInputNode,
    MissingOutputNode,
    ParseGraph(String),
    ValidateGraph(String),
    SendPacket(String),
    DecoderEof(String),
    PushFrame(String),
    FlushFilter(String),
    SendFrame(String),
    EncoderEof(String),
}

impl TranscodeFault {
    /// The text of the fault.
    pub open spec fn text(&self) -> Seq<char> {
        match self {
            TranscodeFault::DecoderContext(error) => "failed to create decoder context: "@ + error@,
            TranscodeFault::OpenDecoder(error) => "failed to open video decoder: "@ + error@,
            TranscodeFault::MissingHardwareDecoder { name } =>
                "the local FFmpeg build does not expose the '"@ + name@ + "' hardware decoder"@,
            TranscodeFault::OpenHardwareDecoder { name, error } =>
                "failed to open Raspberry Pi 5 hardware decoder '"@ + name@ + "': "@ + error@,
            TranscodeFault::EncoderContext(error) => "failed to create H.264 encoder context: "@
                + error@,
            TranscodeFault::OpenEncoder { backend, error } => match backend {
                TranscodeBackend::Software => "failed to open software H.264 encoder: "@ + error@,
                TranscodeBackend::Pi4HardwareEncode =>
                    "failed to open Raspberry Pi 4 hardware H.264 encoder: "@ + error@,
                TranscodeBackend::Pi5HardwareDecode =>
                    "failed to open software H.264 encoder after Pi 5 hardware decode: "@ + error@,
            },
            TranscodeFault::MissingFilter { name } => "FFmpeg '"@ + name@
                + "' filter is unavailable"@,
            TranscodeFault::AddFilter { name, error } => "failed to add "@ + name@ + " filter: "@
                + error@,
            TranscodeFault::MissingInputNode => "filter graph is missing the input node"@,
            TranscodeFault::MissingOutputNode => "filter graph is missing the output node"@,
            TranscodeFault::ParseGraph(error) => "failed to parse filter graph: "@ + error@,
            TranscodeFault::ValidateGraph(error) => "failed to validate filter graph: "@ + error@,
            TranscodeFault::SendPacket(error) => "failed to send packet to decoder: "@ + error@,
            TranscodeFault::DecoderEof(error) => "failed to send decoder EOF: "@ + error@,
            TranscodeFault::PushFrame(error) => "failed to push frame into filter graph: "@
                + error@,
            TranscodeFault::FlushFilter(error) => "failed to flush video filter graph: "@ + error@,
            TranscodeFault::SendFrame(error) => "failed to send frame to encoder: "@ + error@,
            TranscodeFault::EncoderEof(error) => "failed to send encoder EOF: "@ + error@,
        }
    }

    /// The text of the fault.
    pub fn to_string(&self) -> (r: String)
        ensures
            r@ == self.text(),
    {
        match self {
            TranscodeFault::DecoderContext(error) => text::join2(
                "failed to create decoder context: ",
                error.as_str(),
            ),
            TranscodeFault::OpenDecoder(error) => text::join2(
                "failed to open video decoder: ",
                error.as_str(),
            ),
            TranscodeFault::MissingHardwareDecoder { name } => text::join3(
                "the local FFmpeg build does not expose the '",
                name.as_str(),
                "' hardware decoder",
            ),
            TranscodeFault::OpenHardwareDecoder { name, error } => {
                let mut out = text::join3(
                    "failed to open Raspberry Pi 5 hardware decoder '",
                    name.as_str(),
                    "': ",
                );
                out.append(error.as_str());
                out
            },
            TranscodeFault::EncoderContext(error) => text::join2(
                "failed to create H.264 encoder context: ",
                error.as_str(),
            ),
            TranscodeFault::OpenEncoder { backend, error } => match backend {
                TranscodeBackend::Software => text::join2(
                    "failed to open software H.264 encoder: ",
                    error.as_str(),
                ),
                TranscodeBackend::Pi4HardwareEncode => text::join2(
                    "failed to open Raspberry Pi 4 hardware H.264 encoder: ",
                    error.as_str(),
                ),
                TranscodeBackend::Pi5HardwareDecode => text::join2(
                    "failed to open software H.264 encoder after Pi 5 hardware decode: ",
                    error.as_str(),
                ),
            },
            TranscodeFault::MissingFilter { name } => text::join3(
                "FFmpeg '",
                name.as_str(),
                "' filter is unavailable",
            ),
            TranscodeFault::AddFilter { name, error } => {
                let mut out = text::join3("failed to add ", name.as_str(), " filter: ");
                out.append(error.as_str());
                out
            },
            TranscodeFault::MissingInputNode => "filter graph is missing the input node".to_owned(),
            TranscodeFault::MissingOutputNode =>
                "filter graph is missing the output node".to_owned(),
            TranscodeFault::ParseGraph(error) => text::join2(
                "failed to parse filter graph: ",
                error.as_str(),
            ),
            TranscodeFault::ValidateGraph(error) => text::join2(
                "failed to validate filter graph: ",
                error.as_str(),
            ),
            TranscodeFault::SendPacket(error) => text::join2(
                "failed to send packet to decoder: ",
                error.as_str(),
            ),
            TranscodeFault::DecoderEof(error) => text::join2(
                "failed to send decoder EOF: ",
                error.as_str(),
            ),
            TranscodeFault::PushFrame(error) => text::join2(
                "failed to push frame into filter graph: ",
                error.as_str(),
            ),
            TranscodeFault::FlushFilter(error) => text::join2(
                "failed to flush video filter graph: ",
                error.as_str(),
            ),
            TranscodeFault::SendFrame(error) => text::join2(
                "failed to send frame to encoder: ",
                error.as_str(),
            ),
            TranscodeFault::EncoderEof(error) => text::join2(
                "failed to send encoder EOF: ",
                error.as_str(),
            ),
        }
    }
}

// ---------------------------------------------------------------------------
// Overlays
// ---------------------------------------------------------------------------

/// What was found of the picture of a watermark.
#[derive(Debug, PartialEq, Eq)]
pub enum AssetState {
    /// There is a picture.
    Usable,
    /// The file cannot be looked at, with the words of the system.
    NotAccessible(String),
    /// There is something else than a file.
    NotAFile,
    /// FFmpeg cannot read the file, with its words.
    NotDecodable(String),
    /// The file holds no picture.
    NoVideo,
}

/// What was found on the host for an overlay.
#[derive(Debug, PartialEq, Eq)]
pub struct OverlayFacts {
    /// FFmpeg could be initialized.
    pub ffmpeg_ready: bool,
    /// The font for texts is installed.
    pub font_exists: bool,
    /// For each layer, what was found of its picture. Layers without a picture have an
    /// entry that is not looked at.
    pub assets: Vec<AssetState>,
}

/// What is wrong with the picture of a watermark, if anything is.
pub open spec fn asset_failure(
    id: Seq<char>,
    watermark: CompiledWatermarkOverlay,
    asset: AssetState,
) -> Option<Seq<char>> {
    let prefix = "pipeline '"@ + id + "' watermark '"@ + watermark.image_path@;
    match asset {
        AssetState::Usable => None,
        AssetState::NotAccessible(error) => Some(prefix + "' is not accessible: "@ + error@),
        AssetState::NotAFile => Some(prefix + "' must be a regular file"@),
        AssetState::NotDecodable(error) => Some(
            prefix + "' could not be decoded by FFmpeg: "@ + error@,
        ),
        AssetState::NoVideo => Some(
            "no video stream was found in '"@ + watermark.image_path@ + "'"@,
        ),
    }
}

/// What is wrong with the pictures of layers, if anything is: what is said of the first
/// that is not usable.
pub open spec fn assets_failure(
    id: Seq<char>,
    layers: Seq<CompiledOverlayLayer>,
    assets: Seq<AssetState>,
) -> Option<Seq<char>>
    decreases layers.len(),
{
    if layers.len() == 0 {
        None
    } else {
        let first = match layers[0] {
            CompiledOverlayLayer::Watermark(watermark) => asset_failure(id, watermark, assets[0]),
            _ => None,
        };
        match first {
            Some(message) => Some(message),
            None => assets_failure(id, layers.drop_first(), assets.drop_first()),
        }
    }
}

/// Whether any of the layers is drawn with the font.
pub open spec fn uses_font(layers: Seq<CompiledOverlayLayer>) -> bool {
    exists|i: int| 0 <= i < layers.len() && !(#[trigger] layers[i] is Watermark)
}

/// Why the overlay of a pipeline cannot be drawn, if it cannot.
pub open spec fn overlay_failure(pipeline: CompiledPipeline, facts: OverlayFacts) -> Option<
    Seq<char>,
> {
    match pipeline.overlay {
        None => None,
        Some(overlay) => if !facts.ffmpeg_ready {
            Some(
                "pipeline '"@ + pipeline.id@
                    + "' requires FFmpeg overlay support, but FFmpeg failed to initialize"@,
            )
        } else if uses_font(overlay.layers@) && !facts.font_exists {
            Some(
                "pipeline '"@ + pipeline.id@ + "' requires the default overlay font '"@
                    + filter::font_path()
                    + "', but it was not found; install a DejaVu Sans font package on the host"@,
            )
        } else {
            assets_failure(pipeline.id@, overlay.layers@, facts.assets@)
        },
    }
}

/// Whether the picture of a watermark can be used.
pub fn validate_watermark_asset(
    pipeline_id: &str,
    watermark: &CompiledWatermarkOverlay,
    asset: &AssetState,
) -> (r: Result<(), String>)
    ensures
        match r {
            Ok(()) => asset_failure(pipeline_id@, *watermark, *asset) is None,
            Err(message) => asset_failure(pipeline_id@, *watermark, *asset) == Some(message@),
        },
{
    let mut message = text::join3("pipeline '", pipeline_id, "' watermark '");
    message.append(watermark.image_path.as_str());
    match asset {
        AssetState::Usable => Ok(()),
        AssetState::NotAccessible(error) => {
            message.append("' is not accessible: ");
            message.append(error.as_str());
            Err(message)
        },
        AssetState::NotAFile => {
            message.append("' must be a regular file");
            Err(message)
        },
        AssetState::NotDecodable(error) => {
            message.append("' could not be decoded by FFmpeg: ");
            message.append(error.as_str());
            Err(message)
        },
        AssetState::NoVideo => Err(device::missing_video_stream(watermark.image_path.as_str())),
    }
}

/// Whether any of the layers is drawn with the font.
fn layers_use_font(layers: &Vec<CompiledOverlayLayer>) -> (r: bool)
    ensures
        r == uses_font(layers@),
{
    let mut i: usize = 0;
    while i < layers.len()
        invariant
            i <= layers@.len(),
            forall|k: int| 0 <= k < i ==> #[trigger] layers@[k] is Watermark,
        decreases layers@.len() - i,
    {
        match &layers[i] {
            CompiledOverlayLayer::Timestamp(_) | CompiledOverlayLayer::Text(_) => {
                assert(!(layers@[i as int] is Watermark));
                return true;
            },
            CompiledOverlayLayer::Watermark(_) => {},
        }
        i += 1;
    }
    false
}

/// Whether the overlay of a pipeline can be drawn on the host.
pub fn validate_overlay_runtime(pipeline: &CompiledPipeline, facts: &OverlayFacts) -> (r: Result<
    (),
    String,
>)
    requires
        pipeline.overlay matches Some(overlay) ==> facts.assets@.len() == overlay.layers@.len(),
    ensures
        match r {
            Ok(()) => overlay_failure(*pipeline, *facts) is None,
            Err(message) => overlay_failure(*pipeline, *facts) == Some(message@),
        },
{
    let overlay = match &pipeline.overlay {
        Some(overlay) => overlay,
        None => {
            return Ok(());
        },
    };
    if !facts.ffmpeg_ready {
        return Err(
            text::join3(
                "pipeline '",
                pipeline.id.as_str(),
                "' requires FFmpeg overlay support, but FFmpeg failed to initialize",
            ),
        );
    }
    if layers_use_font(&overlay.layers) && !facts.font_exists {
        return Err(
            text::join5(
                "pipeline '",
                pipeline.id.as_str(),
                "' requires the default overlay font '",
                filter::default_draw_text_font_path(),
                "', but it was not found; install a DejaVu Sans font package on the host",
            ),
        );
    }
    let mut i: usize = 0;
    assert(overlay.layers@.skip(0) == overlay.layers@);
    assert(facts.assets@.skip(0) == facts.assets@);
    while i < overlay.layers.len()
        invariant
            i <= overlay.layers@.len(),
            facts.assets@.len() == overlay.layers@.len(),
            pipeline.overlay == Some(*overlay),
            facts.ffmpeg_ready,
            uses_font(overlay.layers@) ==> facts.font_exists,
            assets_failure(pipeline.id@, overlay.layers@, facts.assets@) == assets_failure(
                pipeline.id@,
                overlay.layers@.skip(i as int),
                facts.assets@.skip(i as int),
            ),
        decreases overlay.layers@.len() - i,
    {
        assert(overlay.layers@.skip(i as int).drop_first() == overlay.layers@.skip(i + 1));
        assert(facts.assets@.skip(i as int).drop_first() == facts.assets@.skip(i + 1));
        if let CompiledOverlayLayer::Watermark(watermark) = &overlay.layers[i] {
            match validate_watermark_asset(pipeline.id.as_str(), watermark, &facts.assets[i]) {
                Ok(()) => {},
                Err(message) => {
                    return Err(message);
                },
            }
        }
        i += 1;
    }
    Ok(())
}

// ---------------------------------------------------------------------------
// Laws
// ---------------------------------------------------------------------------

/// A packet is never fed before its time: the wait ends when as much time has passed
/// as lies between the first packet and this one, and where there is no wait that much
/// has passed already.
pub proof fn packets_are_fed_in_time(first: nat, now: nat, elapsed: nat)
    ensures
        match wait_nanos(first, now, elapsed) {
            Some(wait) => wait > 0 && first + elapsed + wait == now,
            None => now <= first + elapsed,
        },
{
}

/// An overlay can be drawn only if every picture of it can be used.
pub proof fn drawn_overlays_have_their_pictures(
    id: Seq<char>,
    layers: Seq<CompiledOverlayLayer>,
    assets: Seq<AssetState>,
    at: int,
)
    requires
        assets.len() == layers.len(),
        assets_failure(id, layers, assets) is None,
        0 <= at < layers.len(),
        layers[at] is Watermark,
    ensures
        assets[at] is Usable,
    decreases layers.len(),
{
    if at > 0 {
        assert(layers.drop_first()[at - 1] == layers[at]);
        assert(assets.drop_first()[at - 1] == assets[at]);
        drawn_overlays_have_their_pictures(id, layers.drop_first(), assets.drop_first(), at - 1);
    }
}

/// The first packet that has a time is fed at once, and every later one when as much time
/// has passed as lies between the two.
pub proof fn feeding_starts_with_the_first_packet(now: nat, elapsed: nat, time_base: Rational)
    ensures
        first_time(None, now) == now,
        wait_nanos(first_time(None, now), now, elapsed) is None,
        forall|first: nat| #[trigger] first_time(Some(first), now) == first,
        forall|pts: i64|
            pts < 0 || time_base.numerator <= 0 || time_base.denominator <= 0 ==> #[trigger]
                pts_nanos(pts, time_base) == 0,
        forall|pts: i64|
            device::ticks_nanos(pts as int, time_base) is Some ==> #[trigger] pts_nanos(
                pts,
                time_base,
            ) == device::ticks_nanos(pts as int, time_base)->0,
{
}

/// An encoder is given the preset and the tune of a profile, without white space around
/// them; one that is blank is not given at all.
pub proof fn encoders_get_what_the_profile_sets(processing: CompiledProcessingProfile)
    ensures
        match device::option_named(encoder_options(processing), "preset"@) {
            Some(value) => value == text::trimmed(processing.preset@) && value.len() > 0,
            None => text::is_blank(processing.preset@),
        },
        match device::option_named(encoder_options(processing), "tune"@) {
            Some(value) => value == text::trimmed(processing.tune@) && value.len() > 0,
            None => text::is_blank(processing.tune@),
        },
{
    reveal_strlit("preset");
    reveal_strlit("tune");
    assert("preset"@.len() == 6 && "tune"@.len() == 4);
    reveal_with_fuel(device::option_named, 3);
    let options = encoder_options(processing);
    let preset = text::trimmed(processing.preset@);
    let tune = text::trimmed(processing.tune@);
    if preset.len() > 0 {
        assert(options[0] == ("preset"@, preset));
        if tune.len() > 0 {
            assert(options.drop_first()[0] == ("tune"@, tune));
        } else {
            assert(options.drop_first().len() == 0);
        }
    } else if tune.len() > 0 {
        assert(options[0] == ("tune"@, tune));
        assert(options.drop_first().len() == 0);
    } else {
        assert(options.len() == 0);
    }
}

proof fn lemma_usable_pictures_pass(
    id: Seq<char>,
    layers: Seq<CompiledOverlayLayer>,
    assets: Seq<AssetState>,
)
    requires
        assets.len() == layers.len(),
        forall|i: int|
            0 <= i < layers.len() && #[trigger] layers[i] is Watermark ==> assets[i] is Usable,
    ensures
        assets_failure(id, layers, assets) is None,
    decreases layers.len(),
{
    if layers.len() > 0 {
        let rest = layers.drop_first();
        let others = assets.drop_first();
        assert forall|i: int| 0 <= i < rest.len() && #[trigger] rest[i] is Watermark implies
            others[i] is Usable by {
            assert(rest[i] == layers[i + 1]);
            assert(others[i] == assets[i + 1]);
        }
        lemma_usable_pictures_pass(id, rest, others);
    }
}

/// A pipeline with an overlay can start if and only if FFmpeg is ready, the font is there
/// where anything is written, and every picture can be used. One without can always.
pub proof fn overlays_need_what_they_draw(pipeline: CompiledPipeline, facts: OverlayFacts)
    requires
        pipeline.overlay matches Some(overlay) ==> facts.assets@.len() == overlay.layers@.len(),
    ensures
        overlay_failure(pipeline, facts) is None <==> (pipeline.overlay matches Some(overlay) ==> {
            &&& facts.ffmpeg_ready
            &&& facts.font_exists || forall|i: int|
                0 <= i < overlay.layers@.len() ==> #[trigger] overlay.layers@[i] is Watermark
            &&& forall|i: int|
                0 <= i < overlay.layers@.len() && #[trigger] overlay.layers@[i] is Watermark
                    ==> facts.assets@[i] is Usable
        }),
{
    if let Some(overlay) = pipeline.overlay {
        let layers = overlay.layers@;
        let assets = facts.assets@;
        if assets_failure(pipeline.id@, layers, assets) is None {
            assert forall|i: int| 0 <= i < layers.len() && #[trigger] layers[i] is Watermark implies
                assets[i] is Usable by {
                drawn_overlays_have_their_pictures(pipeline.id@, layers, assets, i);
            }
        }
        if forall|i: int|
            0 <= i < layers.len() && #[trigger] layers[i] is Watermark ==> assets[i] is Usable {
            lemma_usable_pictures_pass(pipeline.id@, layers, assets);
        }
    }
}

/// Hardware decoding takes the decoder that is named for the codec, and knows two codecs;
/// in any other case the stream has its own.
pub proof fn decoders_are_chosen_by_the_codec(
    backend: TranscodeBackend,
    codec: &VideoCodec,
    r: Result<DecoderChoice, String>,
)
    requires
        call_ensures(choose_decoder, (backend, codec), r),
    ensures
        r is Err <==> backend == TranscodeBackend::Pi5HardwareDecode && codec is Other,
        r matches Ok(choice) ==> (choice is OfStream <==> backend
            != TranscodeBackend::Pi5HardwareDecode),
        r matches Ok(DecoderChoice::Named(name)) ==> text::has_suffix(name@, "_v4l2request"@) && (
        *codec is H264 ==> text::has_prefix(name@, "h264"@)) && (*codec is Hevc
            ==> text::has_prefix(name@, "hevc"@)),
{
    reveal_strlit("h264");
    reveal_strlit("hevc");
    reveal_strlit("_v4l2request");
    reveal_strlit("h264_v4l2request");
    reveal_strlit("hevc_v4l2request");
    assert("h264_v4l2request"@ == "h264"@ + "_v4l2request"@);
    assert("hevc_v4l2request"@ == "hevc"@ + "_v4l2request"@);
    text::parts_of_a_text_are_found("h264"@, "_v4l2request"@, Seq::empty());
    text::parts_of_a_text_are_found("hevc"@, "_v4l2request"@, Seq::empty());
}

/// The hardware encoder is used where it is asked for and there, and nothing else instead;
/// for software the best one is taken that is there.
pub proof fn encoders_are_chosen_by_what_is_there(
    backend: TranscodeBackend,
    facts: &EncoderFacts,
    r: Result<EncoderChoice, String>,
)
    requires
        call_ensures(choose_encoder, (backend, facts), r),
    ensures
        backend == TranscodeBackend::Pi4HardwareEncode ==> (r is Ok <==> facts.has_h264_v4l2m2m),
        backend != TranscodeBackend::Pi4HardwareEncode ==> (r is Ok <==> facts.has_libx264
            || facts.has_h264),
        r matches Ok(EncoderChoice::Named(name)) ==> (name@ == "h264_v4l2m2m"@ && backend
            == TranscodeBackend::Pi4HardwareEncode) || (name@ == "libx264"@ && backend
            != TranscodeBackend::Pi4HardwareEncode && facts.has_libx264),
        r matches Ok(EncoderChoice::AnyH264) ==> !facts.has_libx264,
{
}

/// An encoder is set up for the pictures that come, at the rate and the bitrate of the
/// profile, with a key frame every two seconds and no frame that needs a later one.
pub proof fn encoders_are_set_up_by_the_profile(
    processing: &CompiledProcessingProfile,
    width: u32,
    height: u32,
    aspect_ratio: Rational,
    settings: EncoderSettings,
)
    requires
        call_ensures(encoder_settings, (processing, width, height, aspect_ratio), settings),
        processing.frame_rate <= i32::MAX,
        processing.bitrate_bps <= usize::MAX,
    ensures
        settings.width == width && settings.height == height,
        settings.aspect_ratio == aspect_ratio,
        settings.frame_rate.numerator == processing.frame_rate,
        settings.frame_rate.denominator == 1,
        settings.time_base.numerator == settings.frame_rate.denominator,
        settings.time_base.denominator == settings.frame_rate.numerator,
        settings.bit_rate == processing.bitrate_bps,
        settings.gop == processing.frame_rate + processing.frame_rate,
        settings.max_b_frames == 0,
{
}

/// A packet of the right stream is fed, unless reading was cancelled; one of a local file
/// waits until as much time has passed as lies between it and the first.
pub proof fn packets_of_the_stream_are_fed(
    reader: &mut TranscodeLoop,
    cancelled: bool,
    stream_index: usize,
    pts: Option<i64>,
    elapsed: Duration,
    action: TranscodeAction,
)
    requires
        call_ensures(TranscodeLoop::step, (reader, cancelled, stream_index, pts, elapsed), action),
    ensures
        action is Stop <==> cancelled,
        action is Skip <==> !cancelled && stream_index != old(reader).stream_index,
        action matches TranscodeAction::Feed { delay } ==> {
            &&& !old(reader).is_local_file || pts is None ==> delay is None
            &&& old(reader).first_pts is None ==> delay is None
            &&& (delay matches Some(wait) ==> pts_nanos(pts->0, old(reader).time_base) == old(
                reader,
            ).first_pts->0@ + elapsed@ + wait@)
        },
        old(reader).first_pts is Some ==> config::nanos_of(final(reader).first_pts)
            == config::nanos_of(old(reader).first_pts),
{
}

} // verus!
