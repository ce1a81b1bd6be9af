//! What the local FFmpeg build can do.

use vstd::prelude::*;

use crate::capability::{self, HostCapabilities, StaticCapabilityProbe};

verus! {

/// What was found of the local FFmpeg build.
#[derive(Debug, Clone, Copy, PartialEq, Eq, Structural)]
pub struct FfmpegFacts {
    /// The library could be initialized.
    pub initialized: bool,
    /// There is an encoder named `h264_v4l2m2m`.
    pub has_h264_v4l2m2m_encoder: bool,
    /// There is a decoder named `h264_v4l2request`.
    pub has_h264_v4l2request_decoder: bool,
    /// There is a decoder named `hevc_v4l2request`.
    pub has_hevc_v4l2request_decoder: bool,
    /// There is an input format named `video4linux2`.
    pub has_video4linux2_input: bool,
}

/// What a build can do, given what was found of it. The filters are not looked at.
pub open spec fn build_capabilities(facts: FfmpegFacts) -> HostCapabilities {
    if facts.initialized {
        HostCapabilities {
            ffmpeg_available: true,
            v4l2_available: facts.has_video4linux2_input,
            has_pi4_h264_encoder: facts.has_h264_v4l2m2m_encoder,
            has_pi5_stateless_decoder: facts.has_h264_v4l2request_decoder
                || facts.has_hevc_v4l2request_decoder,
            ..capability::no_capabilities()
        }
    } else {
        capability::no_capabilities()
    }
}

/// A probe that reports what the local FFmpeg build can do.
pub fn ffmpeg_capabilities(facts: &FfmpegFacts) -> (r: StaticCapabilityProbe)
    ensures
        r.capabilities == build_capabilities(*facts),
{
    let mut host = HostCapabilities::default();
    if facts.initialized {
        host.ffmpeg_available = true;
        host.v4l2_available = facts.has_video4linux2_input;
        host.has_pi4_h264_encoder = facts.has_h264_v4l2m2m_encoder;
        host.has_pi5_stateless_decoder = facts.has_h264_v4l2request_decoder
            || facts.has_hevc_v4l2request_decoder;
    }
    StaticCapabilityProbe::new(host)
}

/// A build that cannot be initialized can do nothing. Any other can do what was found of
/// it: capture where there is the input format, encode where there is the encoder, and
/// decode where there is either decoder.
pub proof fn builds_can_do_what_was_found(facts: FfmpegFacts)
    ensures
        build_capabilities(facts).ffmpeg_available == facts.initialized,
        build_capabilities(facts).v4l2_available <==> facts.initialized
            && facts.has_video4linux2_input,
        build_capabilities(facts).has_pi4_h264_encoder <==> facts.initialized
            && facts.has_h264_v4l2m2m_encoder,
        build_capabilities(facts).has_pi5_stateless_decoder <==> facts.initialized && (
        facts.has_h264_v4l2request_decoder || facts.has_hevc_v4l2request_decoder),
        !build_capabilities(facts).libcamera_available,
        !build_capabilities(facts).rtp_packetization_available,
        build_capabilities(facts).pi_model is None,
        !build_capabilities(facts).has_drawtext_filter,
        !build_capabilities(facts).has_overlay_filter,
        !build_capabilities(facts).has_scale_filter,
        !build_capabilities(facts).has_color_channel_mixer_filter,
{
}

} // verus!
