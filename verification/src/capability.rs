//! What a host can do, how that is found out, and what a pipeline needs of it.

use std::sync::Arc;

use vstd::prelude::*;

use crate::error::CompileError;
use crate::frontend::HardwareTarget;
use crate::text;

verus! {

/// A model of the Raspberry Pi.
#[derive(Debug, Clone, Copy, PartialEq, Eq, Structural)]
pub enum PiModel {
    Pi4,
    Pi5,
}

/// Something that a pipeline needs of its host.
#[derive(Debug, Clone, Copy, PartialEq, Eq, Structural)]
pub enum CapabilityRequirement {
    Ffmpeg,
    V4l2,
    Libcamera,
    RtpPacketization,
    Pi4HardwareEncoder,
    Pi5StatelessDecoder,
    DrawTextFilter,
    OverlayFilter,
    ScaleFilter,
    ColorChannelMixerFilter,
}

/// What a host can do.
#[derive(Debug, Clone, Copy, PartialEq, Eq, Structural)]
pub struct HostCapabilities {
    pub ffmpeg_available: bool,
    pub v4l2_available: bool,
    pub libcamera_available: bool,
    pub rtp_packetization_available: bool,
    pub pi_model: Option<PiModel>,
    pub has_pi4_h264_encoder: bool,
    pub has_pi5_stateless_decoder: bool,
    pub has_drawtext_filter: bool,
    pub has_overlay_filter: bool,
    pub has_scale_filter: bool,
    pub has_color_channel_mixer_filter: bool,
}

/// A host that can do nothing.
pub open spec fn no_capabilities() -> HostCapabilities {
    HostCapabilities {
        ffmpeg_available: false,
        v4l2_available: false,
        libcamera_available: false,
        rtp_packetization_available: false,
        pi_model: None,
        has_pi4_h264_encoder: false,
        has_pi5_stateless_decoder: false,
        has_drawtext_filter: false,
        has_overlay_filter: false,
        has_scale_filter: false,
        has_color_channel_mixer_filter: false,
    }
}

impl Default for HostCapabilities {
    fn default() -> (r: Self)
        ensures
            r == no_capabilities(),
    {
        HostCapabilities {
            ffmpeg_available: false,
            v4l2_available: false,
            libcamera_available: false,
            rtp_packetization_available: false,
            pi_model: None,
            has_pi4_h264_encoder: false,
            has_pi5_stateless_decoder: false,
            has_drawtext_filter: false,
            has_overlay_filter: false,
            has_scale_filter: false,
            has_color_channel_mixer_filter: false,
        }
    }
}

/// What an error says, with its texts as characters.
pub enum CompileFailure {
    HardwareMismatch(Seq<char>),
    InvalidConfiguration(Seq<char>),
    DuplicatePipelineId(Seq<char>),
    UnsupportedCapability(Seq<char>),
    ProbeFailure(Seq<char>),
    ResourceLimitExceeded { configured_limit_bytes: u64, estimated_usage_bytes: u64 },
}

impl View for CompileError {
    type V = CompileFailure;

    open spec fn view(&self) -> CompileFailure {
        match self {
            CompileError::HardwareMismatch(m) => CompileFailure::HardwareMismatch(m@),
            CompileError::InvalidConfiguration(m) => CompileFailure::InvalidConfiguration(m@),
            CompileError::DuplicatePipelineId(m) => CompileFailure::DuplicatePipelineId(m@),
            CompileError::UnsupportedCapability(m) => CompileFailure::UnsupportedCapability(m@),
            CompileError::ProbeFailure(m) => CompileFailure::ProbeFailure(m@),
            CompileError::ResourceLimitExceeded {
                configured_limit_bytes,
                estimated_usage_bytes,
            } => CompileFailure::ResourceLimitExceeded {
                configured_limit_bytes: *configured_limit_bytes,
                estimated_usage_bytes: *estimated_usage_bytes,
            },
        }
    }
}

/// The name of a model.
pub open spec fn model_name(model: PiModel) -> Seq<char> {
    match model {
        PiModel::Pi4 => "Pi4"@,
        PiModel::Pi5 => "Pi5"@,
    }
}

impl PiModel {
    /// The name of the model.
    pub fn name(&self) -> (r: &'static str)
        ensures
            r@ == model_name(*self),
    {
        match self {
            PiModel::Pi4 => "Pi4",
            PiModel::Pi5 => "Pi5",
        }
    }
}

/// Whether two reports name no two different models.
pub open spec fn agree(a: HostCapabilities, b: HostCapabilities) -> bool {
    a.pi_model is Some && b.pi_model is Some ==> a.pi_model == b.pi_model
}

/// The capabilities that either of two reports names.
pub open spec fn either(a: HostCapabilities, b: HostCapabilities) -> HostCapabilities {
    HostCapabilities {
        ffmpeg_available: a.ffmpeg_available || b.ffmpeg_available,
        v4l2_available: a.v4l2_available || b.v4l2_available,
        libcamera_available: a.libcamera_available || b.libcamera_available,
        rtp_packetization_available: a.rtp_packetization_available || b.rtp_packetization_available,
        pi_model: if a.pi_model is Some {
            a.pi_model
        } else {
            b.pi_model
        },
        has_pi4_h264_encoder: a.has_pi4_h264_encoder || b.has_pi4_h264_encoder,
        has_pi5_stateless_decoder: a.has_pi5_stateless_decoder || b.has_pi5_stateless_decoder,
        has_drawtext_filter: a.has_drawtext_filter || b.has_drawtext_filter,
        has_overlay_filter: a.has_overlay_filter || b.has_overlay_filter,
        has_scale_filter: a.has_scale_filter || b.has_scale_filter,
        has_color_channel_mixer_filter: a.has_color_channel_mixer_filter
            || b.has_color_channel_mixer_filter,
    }
}

/// What two probes report together: a capability is there if either reports it.
/// They may not report two different models.
pub open spec fn merged(a: HostCapabilities, b: HostCapabilities) -> Result<
    HostCapabilities,
    CompileFailure,
> {
    if agree(a, b) {
        Ok(either(a, b))
    } else {
        Err(
            CompileFailure::ProbeFailure(
                "capability probes disagreed on the detected Raspberry Pi model: "@ + model_name(
                    a.pi_model->0,
                ) + " vs "@ + model_name(b.pi_model->0),
            ),
        )
    }
}

/// Whether a result is exactly the given outcome.
pub open spec fn gives<T>(r: Result<T, CompileError>, outcome: Result<T, CompileFailure>) -> bool {
    match r {
        Ok(value) => outcome == Ok::<T, CompileFailure>(value),
        Err(error) => outcome == Err::<T, CompileFailure>(error@),
    }
}

impl HostCapabilities {
    /// What this probe and another report together.
    pub fn merge(&self, other: &Self) -> (r: Result<Self, CompileError>)
        ensures
            gives(r, merged(*self, *other)),
    {
        let pi_model = match (self.pi_model, other.pi_model) {
            (Some(left), Some(right)) => {
                if left != right {
                    let mut message = text::join3(
                        "capability probes disagreed on the detected Raspberry Pi model: ",
                        left.name(),
                        " vs ",
                    );
                    message.append(right.name());
                    return Err(CompileError::ProbeFailure(message));
                }
                Some(left)
            },
            (Some(model), None) => Some(model),
            (None, Some(model)) => Some(model),
            (None, None) => None,
        };
        Ok(
            HostCapabilities {
                ffmpeg_available: self.ffmpeg_available || other.ffmpeg_available,
                v4l2_available: self.v4l2_available || other.v4l2_available,
                libcamera_available: self.libcamera_available || other.libcamera_available,
                rtp_packetization_available: self.rtp_packetization_available
                    || other.rtp_packetization_available,
                pi_model,
                has_pi4_h264_encoder: self.has_pi4_h264_encoder || other.has_pi4_h264_encoder,
                has_pi5_stateless_decoder: self.has_pi5_stateless_decoder
                    || other.has_pi5_stateless_decoder,
                has_drawtext_filter: self.has_drawtext_filter || other.has_drawtext_filter,
                has_overlay_filter: self.has_overlay_filter || other.has_overlay_filter,
                has_scale_filter: self.has_scale_filter || other.has_scale_filter,
                has_color_channel_mixer_filter: self.has_color_channel_mixer_filter
                    || other.has_color_channel_mixer_filter,
            },
        )
    }
}

// ---------------------------------------------------------------------------
// Probes
// ---------------------------------------------------------------------------

/// Something that finds out what the host can do.
pub trait CapabilityProbe: Send + Sync {
    /// Which replies the probe may give for a target. A probe that looks at the
    /// machine may reply differently from one call to the next.
    spec fn may_report(
        &self,
        hardware_target: HardwareTarget,
        reply: Result<HostCapabilities, CompileError>,
    ) -> bool;

    fn capabilities(&self, hardware_target: HardwareTarget) -> (reply: Result<
        HostCapabilities,
        CompileError,
    >)
        ensures
            self.may_report(hardware_target, reply),
    ;
}

/// A probe that always reports the same.
#[derive(Debug)]
pub struct StaticCapabilityProbe {
    pub capabilities: HostCapabilities,
}

impl Default for StaticCapabilityProbe {
    fn default() -> (r: Self)
        ensures
            r.capabilities == no_capabilities(),
    {
        StaticCapabilityProbe { capabilities: HostCapabilities::default() }
    }
}

impl StaticCapabilityProbe {
    pub fn new(capabilities: HostCapabilities) -> (r: Self)
        ensures
            r.capabilities == capabilities,
    {
        StaticCapabilityProbe { capabilities }
    }
}

impl CapabilityProbe for StaticCapabilityProbe {
    open spec fn may_report(
        &self,
        hardware_target: HardwareTarget,
        reply: Result<HostCapabilities, CompileError>,
    ) -> bool {
        reply == Ok::<HostCapabilities, CompileError>(self.capabilities)
    }

    fn capabilities(&self, _hardware_target: HardwareTarget) -> Result<
        HostCapabilities,
        CompileError,
    > {
        Ok(self.capabilities)
    }
}

/// Several probes whose reports are merged in their order.
pub struct CompositeCapabilityProbe {
    pub probes: Vec<Arc<dyn CapabilityProbe>>,
}

/// Which replies the probes may add up to, after `so_far` was merged: each is
/// asked in turn, and the first error ends it.
pub open spec fn may_add_up(
    probes: Seq<Arc<dyn CapabilityProbe>>,
    hardware_target: HardwareTarget,
    so_far: HostCapabilities,
    reply: Result<HostCapabilities, CompileError>,
) -> bool
    decreases probes.len(),
{
    if probes.len() == 0 {
        reply == Ok::<HostCapabilities, CompileError>(so_far)
    } else {
        exists|one: Result<HostCapabilities, CompileError>| #[trigger]
            probes[0].may_report(hardware_target, one) && match one {
                Err(error) => reply == Err::<HostCapabilities, CompileError>(error),
                Ok(capabilities) => match merged(so_far, capabilities) {
                    Err(failure) => reply matches Err(error) && error@ == failure,
                    Ok(both) => may_add_up(probes.drop_first(), hardware_target, both, reply),
                },
            }
    }
}

/// Which replies there may be once the last probe is asked, after the others gave a
/// reply: an error stays, and capabilities are merged with what the probe reports.
pub open spec fn may_follow(
    probes: Seq<Arc<dyn CapabilityProbe>>,
    hardware_target: HardwareTarget,
    before: Result<HostCapabilities, CompileError>,
    reply: Result<HostCapabilities, CompileError>,
) -> bool {
    match before {
        Err(error) => reply == Err::<HostCapabilities, CompileError>(error),
        Ok(others) => exists|one: Result<HostCapabilities, CompileError>| #[trigger]
            probes.last().may_report(hardware_target, one) && match one {
                Err(error) => reply == Err::<HostCapabilities, CompileError>(error),
                Ok(capabilities) => gives(reply, merged(others, capabilities)),
            },
    }
}

impl Default for CompositeCapabilityProbe {
    fn default() -> (r: Self)
        ensures
            r.probes@.len() == 0,
    {
        CompositeCapabilityProbe { probes: Vec::new() }
    }
}

impl CompositeCapabilityProbe {
    pub fn new() -> (r: Self)
        ensures
            r.probes@.len() == 0,
    {
        CompositeCapabilityProbe { probes: Vec::new() }
    }

    pub fn from_probes(probes: Vec<Arc<dyn CapabilityProbe>>) -> (r: Self)
        ensures
            r.probes == probes,
    {
        CompositeCapabilityProbe { probes }
    }

    pub fn push(&mut self, probe: Arc<dyn CapabilityProbe>)
        ensures
            final(self).probes@.len() == old(self).probes@.len() + 1,
            final(self).probes@.drop_last() == old(self).probes@,
            final(self).probes@.last() == probe,
    {
        let mut one = Vec::new();
        one.push(probe);
        self.probes.append(&mut one);
    }
}

impl CapabilityProbe for CompositeCapabilityProbe {
    open spec fn may_report(
        &self,
        hardware_target: HardwareTarget,
        reply: Result<HostCapabilities, CompileError>,
    ) -> bool {
        may_add_up(self.probes@, hardware_target, no_capabilities(), reply)
    }

    fn capabilities(&self, hardware_target: HardwareTarget) -> (reply: Result<
        HostCapabilities,
        CompileError,
    >) {
        let mut so_far = HostCapabilities::default();
        let mut i: usize = 0;
        assert(self.probes@.skip(0) == self.probes@);
        while i < self.probes.len()
            invariant
                i <= self.probes@.len(),
                forall|r: Result<HostCapabilities, CompileError>|
                    may_add_up(self.probes@.skip(i as int), hardware_target, so_far, r) ==>
                    #[trigger] may_add_up(self.probes@, hardware_target, no_capabilities(), r),
            decreases self.probes@.len() - i,
        {
            let ghost rest = self.probes@.skip(i as int);
            assert(rest.drop_first() == self.probes@.skip(i + 1));
            let one = self.probes[i].capabilities(hardware_target);
            assert(rest[0].may_report(hardware_target, one));
            match one {
                Err(error) => {
                    return Err(error);
                },
                Ok(capabilities) => {
                    match so_far.merge(&capabilities) {
                        Err(error) => {
                            return Err(error);
                        },
                        Ok(both) => {
                            so_far = both;
                        },
                    }
                },
            }
            i += 1;
        }
        Ok(so_far)
    }
}

// ---------------------------------------------------------------------------
// Requirements
// ---------------------------------------------------------------------------

/// Whether the host meets a requirement.
pub open spec fn met(requirement: CapabilityRequirement, host: HostCapabilities) -> bool {
    match requirement {
        CapabilityRequirement::Ffmpeg => host.ffmpeg_available,
        CapabilityRequirement::V4l2 => host.v4l2_available,
        CapabilityRequirement::Libcamera => host.libcamera_available,
        CapabilityRequirement::RtpPacketization => host.rtp_packetization_available,
        CapabilityRequirement::Pi4HardwareEncoder => host.has_pi4_h264_encoder,
        CapabilityRequirement::Pi5StatelessDecoder => host.has_pi5_stateless_decoder,
        CapabilityRequirement::DrawTextFilter => host.has_drawtext_filter,
        CapabilityRequirement::OverlayFilter => host.has_overlay_filter,
        CapabilityRequirement::ScaleFilter => host.has_scale_filter,
        CapabilityRequirement::ColorChannelMixerFilter => host.has_color_channel_mixer_filter,
    }
}

/// How a message says that a requirement is not met.
pub open spec fn unmet_text(requirement: CapabilityRequirement) -> Seq<char> {
    match requirement {
        CapabilityRequirement::Ffmpeg =>
            "' requires FFmpeg but no FFmpeg capability probe was available"@,
        CapabilityRequirement::V4l2 =>
            "' requires a V4L2 backend but no V4L2 capability was detected"@,
        CapabilityRequirement::Libcamera =>
            "' requires a libcamera backend but no libcamera capability was detected"@,
        CapabilityRequirement::RtpPacketization =>
            "' requires RTP packetization support but none was detected"@,
        CapabilityRequirement::Pi4HardwareEncoder =>
            "' requires a Raspberry Pi 4 hardware encoder that was not detected"@,
        CapabilityRequirement::Pi5StatelessDecoder =>
            "' requires a Raspberry Pi 5 stateless decoder that was not detected"@,
        CapabilityRequirement::DrawTextFilter =>
            "' requires the FFmpeg drawtext filter but it was not detected"@,
        CapabilityRequirement::OverlayFilter =>
            "' requires the FFmpeg overlay filter but it was not detected"@,
        CapabilityRequirement::ScaleFilter =>
            "' requires the FFmpeg scale filter but it was not detected"@,
        CapabilityRequirement::ColorChannelMixerFilter =>
            "' requires the FFmpeg colorchannelmixer filter but it was not detected"@,
    }
}

/// The failure that an unmet requirement of a pipeline is.
pub open spec fn requirement_failure(
    requirement: CapabilityRequirement,
    id: Seq<char>,
    host: HostCapabilities,
) -> Option<CompileFailure> {
    if met(requirement, host) {
        None
    } else {
        Some(
            CompileFailure::UnsupportedCapability("pipeline '"@ + id + unmet_text(requirement)),
        )
    }
}

/// The first unmet requirement, in their order.
pub open spec fn requirements_failure(
    requirements: Seq<CapabilityRequirement>,
    id: Seq<char>,
    host: HostCapabilities,
) -> Option<CompileFailure>
    decreases requirements.len(),
{
    if requirements.len() == 0 {
        None
    } else if !met(requirements[0], host) {
        requirement_failure(requirements[0], id, host)
    } else {
        requirements_failure(requirements.drop_first(), id, host)
    }
}

/// Whether a result reports exactly the given failure.
pub open spec fn fails_as(r: Result<(), CompileError>, failure: Option<CompileFailure>) -> bool {
    match r {
        Ok(()) => failure is None,
        Err(error) => failure == Some(error@),
    }
}

impl CapabilityRequirement {
    /// Holds the host to one requirement of a pipeline.
    pub fn validate_for(&self, pipeline_id: &str, capabilities: &HostCapabilities) -> (r: Result<
        (),
        CompileError,
    >)
        ensures
            fails_as(r, requirement_failure(*self, pipeline_id@, *capabilities)),
    {
        let (is_met, rest) = match self {
            CapabilityRequirement::Ffmpeg => (
                capabilities.ffmpeg_available,
                "' requires FFmpeg but no FFmpeg capability probe was available",
            ),
            CapabilityRequirement::V4l2 => (
                capabilities.v4l2_available,
                "' requires a V4L2 backend but no V4L2 capability was detected",
            ),
            CapabilityRequirement::Libcamera => (
                capabilities.libcamera_available,
                "' requires a libcamera backend but no libcamera capability was detected",
            ),
            CapabilityRequirement::RtpPacketization => (
                capabilities.rtp_packetization_available,
                "' requires RTP packetization support but none was detected",
            ),
            CapabilityRequirement::Pi4HardwareEncoder => (
                capabilities.has_pi4_h264_encoder,
                "' requires a Raspberry Pi 4 hardware encoder that was not detected",
            ),
            CapabilityRequirement::Pi5StatelessDecoder => (
                capabilities.has_pi5_stateless_decoder,
                "' requires a Raspberry Pi 5 stateless decoder that was not detected",
            ),
            CapabilityRequirement::DrawTextFilter => (
                capabilities.has_drawtext_filter,
                "' requires the FFmpeg drawtext filter but it was not detected",
            ),
            CapabilityRequirement::OverlayFilter => (
                capabilities.has_overlay_filter,
                "' requires the FFmpeg overlay filter but it was not detected",
            ),
            CapabilityRequirement::ScaleFilter => (
                capabilities.has_scale_filter,
                "' requires the FFmpeg scale filter but it was not detected",
            ),
            CapabilityRequirement::ColorChannelMixerFilter => (
                capabilities.has_color_channel_mixer_filter,
                "' requires the FFmpeg colorchannelmixer filter but it was not detected",
            ),
        };
        if is_met {
            Ok(())
        } else {
            Err(
                CompileError::UnsupportedCapability(text::join3("pipeline '", pipeline_id, rest)),
            )
        }
    }
}

/// Holds the host to all the requirements of a pipeline, in their order.
pub fn validate_requirements(
    requirements: &Vec<CapabilityRequirement>,
    pipeline_id: &str,
    capabilities: &HostCapabilities,
) -> (r: Result<(), CompileError>)
    ensures
        fails_as(r, requirements_failure(requirements@, pipeline_id@, *capabilities)),
{
    let mut i: usize = 0;
    assert(requirements@.skip(0) == requirements@);
    while i < requirements.len()
        invariant
            i <= requirements@.len(),
            requirements_failure(requirements@, pipeline_id@, *capabilities)
                == requirements_failure(
                requirements@.skip(i as int),
                pipeline_id@,
                *capabilities,
            ),
        decreases requirements@.len() - i,
    {
        let ghost rest = requirements@.skip(i as int);
        assert(rest[0] == requirements@[i as int]);
        assert(rest.drop_first() == requirements@.skip(i + 1));
        match requirements[i].validate_for(pipeline_id, capabilities) {
            Ok(()) => {},
            Err(error) => {
                return Err(error);
            },
        }
        i += 1;
    }
    Ok(())
}

// ---------------------------------------------------------------------------
// Laws
// ---------------------------------------------------------------------------

/// Whether everything that `a` can do `b` can do too.
pub open spec fn covers(b: HostCapabilities, a: HostCapabilities) -> bool {
    &&& forall|requirement: CapabilityRequirement| #[trigger]
        met(requirement, a) ==> met(requirement, b)
    &&& a.pi_model is Some ==> b.pi_model == a.pi_model
}

/// A host that can do nothing adds nothing to a report.
pub proof fn merging_nothing_changes_nothing(a: HostCapabilities)
    ensures
        merged(no_capabilities(), a) == Ok::<HostCapabilities, CompileFailure>(a),
        merged(a, no_capabilities()) == Ok::<HostCapabilities, CompileFailure>(a),
{
}

/// A report merged with itself stays the same.
pub proof fn merging_is_idempotent(a: HostCapabilities)
    ensures
        merged(a, a) == Ok::<HostCapabilities, CompileFailure>(a),
{
}

/// Two reports merge in one order exactly if they merge in the other, and to the
/// same.
pub proof fn merging_is_commutative(a: HostCapabilities, b: HostCapabilities)
    ensures
        merged(a, b) is Ok <==> merged(b, a) is Ok,
        merged(a, b) is Ok ==> merged(a, b) == merged(b, a),
{
}

/// It makes no difference in which order three reports that agree are merged.
pub proof fn merging_is_associative(
    a: HostCapabilities,
    b: HostCapabilities,
    c: HostCapabilities,
    ab: HostCapabilities,
    bc: HostCapabilities,
)
    requires
        merged(a, b) == Ok::<HostCapabilities, CompileFailure>(ab),
        merged(b, c) == Ok::<HostCapabilities, CompileFailure>(bc),
    ensures
        merged(ab, c) is Ok <==> merged(a, bc) is Ok,
        merged(ab, c) is Ok ==> merged(ab, c) == merged(a, bc),
{
    assert(ab == either(a, b));
    assert(bc == either(b, c));
    lemma_either_is_associative(a, b, c);
    lemma_agreement_is_associative(a, b, c);
    if agree(ab, c) {
        assert(merged(ab, c) == Ok::<HostCapabilities, CompileFailure>(either(ab, c)));
        assert(merged(a, bc) == Ok::<HostCapabilities, CompileFailure>(either(a, bc)));
    } else {
        assert(merged(ab, c) is Err);
        assert(merged(a, bc) is Err);
    }
}

proof fn lemma_agreement_is_associative(
    a: HostCapabilities,
    b: HostCapabilities,
    c: HostCapabilities,
)
    requires
        agree(a, b),
        agree(b, c),
    ensures
        agree(either(a, b), c) <==> agree(a, either(b, c)),
{
    let ab = either(a, b).pi_model;
    let bc = either(b, c).pi_model;
    assert(ab == if a.pi_model is Some { a.pi_model } else { b.pi_model });
    assert(bc == if b.pi_model is Some { b.pi_model } else { c.pi_model });
}

proof fn lemma_either_is_associative(
    a: HostCapabilities,
    b: HostCapabilities,
    c: HostCapabilities,
)
    ensures
        either(either(a, b), c) == either(a, either(b, c)),
{
    let l = either(either(a, b), c);
    let r = either(a, either(b, c));
    assert(l.ffmpeg_available == r.ffmpeg_available);
    assert(l.v4l2_available == r.v4l2_available);
    assert(l.libcamera_available == r.libcamera_available);
    assert(l.rtp_packetization_available == r.rtp_packetization_available);
    assert(l.pi_model == r.pi_model);
    assert(l.has_pi4_h264_encoder == r.has_pi4_h264_encoder);
    assert(l.has_pi5_stateless_decoder == r.has_pi5_stateless_decoder);
    assert(l.has_drawtext_filter == r.has_drawtext_filter);
    assert(l.has_overlay_filter == r.has_overlay_filter);
    assert(l.has_scale_filter == r.has_scale_filter);
    assert(l.has_color_channel_mixer_filter == r.has_color_channel_mixer_filter);
}

/// Merging never takes a capability away.
pub proof fn merging_keeps_capabilities(a: HostCapabilities, b: HostCapabilities)
    requires
        merged(a, b) is Ok,
    ensures
        covers(merged(a, b)->Ok_0, a),
        covers(merged(a, b)->Ok_0, b),
{
}

/// All requirements are met exactly if none fails.
pub proof fn requirements_hold_iff_all_met(
    requirements: Seq<CapabilityRequirement>,
    id: Seq<char>,
    host: HostCapabilities,
)
    ensures
        requirements_failure(requirements, id, host) is None <==> forall|i: int|
            0 <= i < requirements.len() ==> met(#[trigger] requirements[i], host),
    decreases requirements.len(),
{
    if requirements.len() > 0 {
        let rest = requirements.drop_first();
        requirements_hold_iff_all_met(rest, id, host);
        if requirements_failure(requirements, id, host) is None {
            assert forall|i: int| 0 <= i < requirements.len() implies met(
                #[trigger] requirements[i],
                host,
            ) by {
                if i > 0 {
                    assert(rest[i - 1] == requirements[i]);
                }
            }
        } else if met(requirements[0], host) {
            let k = choose|k: int| 0 <= k < rest.len() && !met(#[trigger] rest[k], host);
            assert(requirements[k + 1] == rest[k]);
        }
    }
}

/// A host that can do more never fails where one that can do less succeeds.
pub proof fn more_capabilities_never_hurt(
    requirements: Seq<CapabilityRequirement>,
    id: Seq<char>,
    less: HostCapabilities,
    more: HostCapabilities,
)
    requires
        covers(more, less),
        requirements_failure(requirements, id, less) is None,
    ensures
        requirements_failure(requirements, id, more) is None,
{
    requirements_hold_iff_all_met(requirements, id, less);
    requirements_hold_iff_all_met(requirements, id, more);
}

/// The reply of several probes comes about only as that of all but the last, and then
/// that of the last.
proof fn lemma_last_probe_follows(
    probes: Seq<Arc<dyn CapabilityProbe>>,
    hardware_target: HardwareTarget,
    so_far: HostCapabilities,
    reply: Result<HostCapabilities, CompileError>,
)
    requires
        probes.len() > 0,
        may_add_up(probes, hardware_target, so_far, reply),
    ensures
        exists|before: Result<HostCapabilities, CompileError>| #[trigger]
            may_add_up(probes.drop_last(), hardware_target, so_far, before) && may_follow(
                probes,
                hardware_target,
                before,
                reply,
            ),
    decreases probes.len(),
{
    let others = probes.drop_last();
    let one = choose|one: Result<HostCapabilities, CompileError>| #[trigger]
        probes[0].may_report(hardware_target, one) && match one {
            Err(error) => reply == Err::<HostCapabilities, CompileError>(error),
            Ok(capabilities) => match merged(so_far, capabilities) {
                Err(failure) => reply matches Err(error) && error@ == failure,
                Ok(both) => may_add_up(probes.drop_first(), hardware_target, both, reply),
            },
        };
    if others.len() == 0 {
        let before = Ok::<HostCapabilities, CompileError>(so_far);
        assert(may_add_up(others, hardware_target, so_far, before));
        assert(probes.last().may_report(hardware_target, one));
        assert(may_follow(probes, hardware_target, before, reply));
    } else {
        let rest = probes.drop_first();
        assert(others[0] == probes[0]);
        assert(others.drop_first() =~= rest.drop_last());
        assert(others[0].may_report(hardware_target, one));
        match one {
            Err(_) => {
                assert(may_add_up(others, hardware_target, so_far, reply));
            },
            Ok(capabilities) => match merged(so_far, capabilities) {
                Err(_) => {
                    assert(may_add_up(others, hardware_target, so_far, reply));
                },
                Ok(both) => {
                    lemma_last_probe_follows(rest, hardware_target, both, reply);
                    let before = choose|before: Result<HostCapabilities, CompileError>| #[trigger]
                        may_add_up(rest.drop_last(), hardware_target, both, before) && may_follow(
                            rest,
                            hardware_target,
                            before,
                            reply,
                        );
                    assert(may_add_up(others, hardware_target, so_far, before));
                    assert(rest.last() == probes.last());
                    assert(may_follow(probes, hardware_target, before, reply));
                },
            },
        }
    }
}

proof fn lemma_last_probe_is_asked(
    probes: Seq<Arc<dyn CapabilityProbe>>,
    hardware_target: HardwareTarget,
    so_far: HostCapabilities,
    before: Result<HostCapabilities, CompileError>,
    reply: Result<HostCapabilities, CompileError>,
)
    requires
        probes.len() > 0,
        may_add_up(probes.drop_last(), hardware_target, so_far, before),
        may_follow(probes, hardware_target, before, reply),
    ensures
        may_add_up(probes, hardware_target, so_far, reply),
    decreases probes.len(),
{
    let others = probes.drop_last();
    reveal_with_fuel(may_add_up, 2);
    if others.len() == 0 {
        assert(before == Ok::<HostCapabilities, CompileError>(so_far));
        let one = choose|one: Result<HostCapabilities, CompileError>| #[trigger]
            probes.last().may_report(hardware_target, one) && match one {
                Err(error) => reply == Err::<HostCapabilities, CompileError>(error),
                Ok(capabilities) => gives(reply, merged(so_far, capabilities)),
            };
        assert(probes[0].may_report(hardware_target, one));
    } else {
        let rest = probes.drop_first();
        assert(others[0] == probes[0]);
        assert(others.drop_first() =~= rest.drop_last());
        let one = choose|one: Result<HostCapabilities, CompileError>| #[trigger]
            others[0].may_report(hardware_target, one) && match one {
                Err(error) => before == Err::<HostCapabilities, CompileError>(error),
                Ok(capabilities) => match merged(so_far, capabilities) {
                    Err(failure) => before matches Err(error) && error@ == failure,
                    Ok(both) => may_add_up(
                        others.drop_first(),
                        hardware_target,
                        both,
                        before,
                    ),
                },
            };
        assert(probes[0].may_report(hardware_target, one));
        if let Ok(capabilities) = one {
            if let Ok(both) = merged(so_far, capabilities) {
                assert(rest.last() == probes.last());
                assert(may_follow(rest, hardware_target, before, reply));
                lemma_last_probe_is_asked(rest, hardware_target, both, before, reply);
            }
        }
    }
}

/// The probe that was added last merges its report into that of the others: together
/// they may reply exactly what may follow on a reply of the others.
pub proof fn a_probe_added_last_merges_its_report(
    probes: Seq<Arc<dyn CapabilityProbe>>,
    hardware_target: HardwareTarget,
    so_far: HostCapabilities,
    reply: Result<HostCapabilities, CompileError>,
)
    requires
        probes.len() > 0,
    ensures
        may_add_up(probes, hardware_target, so_far, reply) <==> exists|
            before: Result<HostCapabilities, CompileError>,
        | #[trigger]
            may_add_up(probes.drop_last(), hardware_target, so_far, before) && may_follow(
                probes,
                hardware_target,
                before,
                reply,
            ),
{
    if may_add_up(probes, hardware_target, so_far, reply) {
        lemma_last_probe_follows(probes, hardware_target, so_far, reply);
    }
    if exists|before: Result<HostCapabilities, CompileError>| #[trigger]
        may_add_up(probes.drop_last(), hardware_target, so_far, before) && may_follow(
            probes,
            hardware_target,
            before,
            reply,
        ) {
        let before = choose|before: Result<HostCapabilities, CompileError>| #[trigger]
            may_add_up(probes.drop_last(), hardware_target, so_far, before) && may_follow(
                probes,
                hardware_target,
                before,
                reply,
            );
        lemma_last_probe_is_asked(probes, hardware_target, so_far, before, reply);
    }
}

/// Where each probe always replies the same, the probe that was added last changes the
/// reply of the others as follows: their error stays; its own error is the reply where
/// they had none; and otherwise the two reports are merged.
pub proof fn steady_probes_merge_their_reports(
    probes: Seq<Arc<dyn CapabilityProbe>>,
    hardware_target: HardwareTarget,
    others: Result<HostCapabilities, CompileError>,
    own: Result<HostCapabilities, CompileError>,
    reply: Result<HostCapabilities, CompileError>,
)
    requires
        probes.len() > 0,
        forall|r: Result<HostCapabilities, CompileError>| #[trigger]
            may_add_up(probes.drop_last(), hardware_target, no_capabilities(), r) ==> r == others,
        forall|r: Result<HostCapabilities, CompileError>| #[trigger]
            probes.last().may_report(hardware_target, r) ==> r == own,
        may_add_up(probes, hardware_target, no_capabilities(), reply),
    ensures
        match (others, own) {
            (Err(error), _) => reply == Err::<HostCapabilities, CompileError>(error),
            (Ok(_), Err(error)) => reply == Err::<HostCapabilities, CompileError>(error),
            (Ok(first), Ok(second)) => gives(reply, merged(first, second)),
        },
{
    a_probe_added_last_merges_its_report(probes, hardware_target, no_capabilities(), reply);
}

/// Each requirement asks for one thing of the host, and only for that.
pub proof fn requirements_ask_for_one_thing(host: HostCapabilities)
    ensures
        met(CapabilityRequirement::Ffmpeg, host) == host.ffmpeg_available,
        met(CapabilityRequirement::V4l2, host) == host.v4l2_available,
        met(CapabilityRequirement::Libcamera, host) == host.libcamera_available,
        met(CapabilityRequirement::RtpPacketization, host) == host.rtp_packetization_available,
        met(CapabilityRequirement::Pi4HardwareEncoder, host) == host.has_pi4_h264_encoder,
        met(CapabilityRequirement::Pi5StatelessDecoder, host) == host.has_pi5_stateless_decoder,
        met(CapabilityRequirement::DrawTextFilter, host) == host.has_drawtext_filter,
        met(CapabilityRequirement::OverlayFilter, host) == host.has_overlay_filter,
        met(CapabilityRequirement::ScaleFilter, host) == host.has_scale_filter,
        met(CapabilityRequirement::ColorChannelMixerFilter, host)
            == host.has_color_channel_mixer_filter,
{
}

/// A host that nothing is known of meets no requirement and is no Raspberry Pi.
pub proof fn nothing_is_met_without_capabilities(requirement: CapabilityRequirement)
    ensures
        !met(requirement, no_capabilities()),
        no_capabilities().pi_model is None,
{
}

/// Two findings about one host are put together: it can do what either says, and nothing
/// that neither says. They only clash where they name different models.
pub proof fn merging_adds_nothing(
    a: HostCapabilities,
    b: HostCapabilities,
    requirement: CapabilityRequirement,
)
    ensures
        merged(a, b) is Err <==> (a.pi_model is Some && b.pi_model is Some && a.pi_model
            != b.pi_model),
        merged(a, b) matches Ok(both) ==> {
            &&& met(requirement, both) <==> met(requirement, a) || met(requirement, b)
            &&& both.pi_model is Some <==> a.pi_model is Some || b.pi_model is Some
            &&& a.pi_model is Some ==> both.pi_model == a.pi_model
            &&& b.pi_model is Some ==> both.pi_model == b.pi_model
        },
{
}

/// The first requirement that is not met is the one that is reported, under the name of
/// the pipeline.
pub proof fn the_first_unmet_requirement_is_reported(
    requirements: Seq<CapabilityRequirement>,
    id: Seq<char>,
    host: HostCapabilities,
    at: int,
)
    requires
        0 <= at < requirements.len(),
        !met(requirements[at], host),
        forall|i: int| 0 <= i < at ==> met(#[trigger] requirements[i], host),
    ensures
        requirements_failure(requirements, id, host) == requirement_failure(
            requirements[at],
            id,
            host,
        ),
        requirements_failure(requirements, id, host) matches Some(
            CompileFailure::UnsupportedCapability(message),
        ) && text::has_prefix(message, "pipeline '"@ + id),
    decreases at,
{
    text::parts_of_a_text_are_found(
        "pipeline '"@ + id,
        unmet_text(requirements[at]),
        Seq::empty(),
    );
    if at > 0 {
        let rest = requirements.drop_first();
        assert(met(requirements[0], host));
        assert(rest[at - 1] == requirements[at]);
        assert forall|i: int| 0 <= i < at - 1 implies met(#[trigger] rest[i], host) by {
            assert(rest[i] == requirements[i + 1]);
        }
        the_first_unmet_requirement_is_reported(rest, id, host, at - 1);
    }
}

/// A check reports a failure in its own words, and only then an error; so does a merge.
pub proof fn failures_are_reported(
    r: Result<(), CompileError>,
    failure: Option<CompileFailure>,
    merge: Result<HostCapabilities, CompileError>,
    outcome: Result<HostCapabilities, CompileFailure>,
)
    requires
        fails_as(r, failure),
        gives(merge, outcome),
    ensures
        r is Ok <==> failure is None,
        failure matches Some(words) ==> (r matches Err(error) && error@ == words),
        outcome matches Ok(host) ==> merge == Ok::<HostCapabilities, CompileError>(host),
        outcome matches Err(words) ==> (merge matches Err(error) && error@ == words),
{
}

/// A probe of fixed capabilities reports those for every target, and never an error.
pub proof fn static_probes_report_what_they_hold(
    probe: StaticCapabilityProbe,
    hardware_target: HardwareTarget,
    reply: Result<HostCapabilities, CompileError>,
)
    ensures
        probe.may_report(hardware_target, reply) <==> reply == Ok::<HostCapabilities, CompileError>(
            probe.capabilities,
        ),
{
}

/// Two findings are merged unless they name different models; the host can then do what
/// either says, and nothing else.
pub proof fn findings_are_merged(
    a: &HostCapabilities,
    b: &HostCapabilities,
    r: Result<HostCapabilities, CompileError>,
    requirement: CapabilityRequirement,
)
    requires
        call_ensures(HostCapabilities::merge, (a, b), r),
    ensures
        r is Err <==> (a.pi_model is Some && b.pi_model is Some && a.pi_model != b.pi_model),
        r matches Ok(both) ==> (met(requirement, both) <==> met(requirement, *a) || met(
            requirement,
            *b,
        )),
        r matches Ok(both) ==> (a.pi_model is Some ==> both.pi_model == a.pi_model),
        r matches Ok(both) ==> (a.pi_model is None ==> both.pi_model == b.pi_model),
{
    merging_adds_nothing(*a, *b, requirement);
}

/// A list of requirements is taken if and only if the host meets each of them.
pub proof fn requirements_are_checked(
    requirements: &Vec<CapabilityRequirement>,
    pipeline_id: &str,
    host: &HostCapabilities,
    r: Result<(), CompileError>,
)
    requires
        call_ensures(validate_requirements, (requirements, pipeline_id, host), r),
    ensures
        r is Ok <==> forall|i: int|
            0 <= i < requirements@.len() ==> met(#[trigger] requirements@[i], *host),
{
    requirements_hold_iff_all_met(requirements@, pipeline_id@, *host);
}

/// An error says what it is for.
pub proof fn errors_say_what_they_are_for(words: String, limit: u64, usage: u64)
    ensures
        CompileError::HardwareMismatch(words)@ == CompileFailure::HardwareMismatch(words@),
        CompileError::InvalidConfiguration(words)@ == CompileFailure::InvalidConfiguration(words@),
        CompileError::DuplicatePipelineId(words)@ == CompileFailure::DuplicatePipelineId(words@),
        CompileError::UnsupportedCapability(words)@ == CompileFailure::UnsupportedCapability(
            words@,
        ),
        CompileError::ProbeFailure(words)@ == CompileFailure::ProbeFailure(words@),
        (CompileError::ResourceLimitExceeded {
            configured_limit_bytes: limit,
            estimated_usage_bytes: usage,
        })@ == (CompileFailure::ResourceLimitExceeded {
            configured_limit_bytes: limit,
            estimated_usage_bytes: usage,
        }),
{
}

} // verus!
