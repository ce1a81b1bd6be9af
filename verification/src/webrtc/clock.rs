//! The timing of frames: when each is to be sent, and which come too late.

use vstd::prelude::*;

use crate::error::RuntimeError;
use crate::runtime::media::EncodedPacket;
use crate::text;
use crate::time::{Duration, MAX_NANOS};
use crate::webrtc::config::{WebRtcSenderConfig, DEFAULT_FRAME_NANOS, VIDEO_CLOCK_RATE};
use crate::webrtc::queue::DequeuedPacket;

verus! {

/// The clock of a sender. Points in time are counted in nanoseconds from an origin that
/// stays the same.
#[derive(Debug, Clone, Copy, PartialEq, Eq)]
pub struct SenderClock {
    /// The timestamp of the first frame that had one.
    pub base_pts: Option<Duration>,
    /// When that frame came.
    pub playback_start: Option<Duration>,
    /// The timestamp of the last frame that was sent, or dropped for being late.
    pub last_released_timestamp: Option<Duration>,
    /// When a frame without a timestamp is next to be sent.
    pub fallback_deadline: Option<Duration>,
}

/// What is to be done with a frame.
#[derive(Debug, Clone, Copy, PartialEq, Eq)]
pub enum ReleasePlan {
    /// It waits, then it is sent.
    Wait(Duration),
    /// It is sent.
    Send,
    /// It comes too late.
    Drop,
}

/// Whether a frame steps back in time.
pub open spec fn steps_back(clock: SenderClock, timestamp: Option<Duration>) -> bool {
    match (clock.last_released_timestamp, timestamp) {
        (Some(last), Some(current)) => current@ <= last@,
        _ => false,
    }
}

/// Whether a frame steps back in time.
pub fn should_drop_for_timestamp(clock: &SenderClock, timestamp: Option<Duration>) -> (r: bool)
    ensures
        r == steps_back(*clock, timestamp),
{
    match (clock.last_released_timestamp, timestamp) {
        (Some(last), Some(current)) => !current.exceeds(&last),
        _ => false,
    }
}

/// A point in time after a span, cut off at the last that can be counted.
pub open spec fn later(point: nat, span: nat) -> nat {
    if point + span <= MAX_NANOS {
        point + span
    } else {
        MAX_NANOS as nat
    }
}

fn later_by(point: Duration, span: Duration) -> (r: Duration)
    ensures
        r@ == later(point@, span@),
{
    Duration::saturating_from_nanos(point.as_nanos() + span.as_nanos())
}

/// The value of an option, or a default.
pub open spec fn first_of(value: Option<Duration>, otherwise: Duration) -> Duration {
    match value {
        Some(value) => value,
        None => otherwise,
    }
}

/// When a frame with a timestamp is to be sent: as long after the first as their
/// timestamps are apart.
pub open spec fn scheduled(clock: SenderClock, timestamp: Duration, now: Duration) -> nat {
    let base = first_of(clock.base_pts, timestamp)@;
    let offset = if timestamp@ >= base {
        (timestamp@ - base) as nat
    } else {
        0
    };
    later(first_of(clock.playback_start, now)@, offset)
}

/// Whether a late frame may go: it is no key frame, or a newer one waits.
pub open spec fn expendable(is_keyframe: bool, newer_keyframe_queued: bool) -> bool {
    !is_keyframe || newer_keyframe_queued
}

/// Whether a frame comes too late.
pub open spec fn too_late(
    due: nat,
    now: nat,
    budget: nat,
    is_keyframe: bool,
    newer_keyframe_queued: bool,
) -> bool {
    due <= now && now - due > budget && expendable(is_keyframe, newer_keyframe_queued)
}

/// When a frame is due.
pub open spec fn due_time(clock: SenderClock, timestamp: Option<Duration>, now: Duration) -> nat {
    match timestamp {
        Some(timestamp) => scheduled(clock, timestamp, now),
        None => first_of(clock.fallback_deadline, now)@,
    }
}

/// Whether a plan for a frame, and what the clock has noted with it, is right. The
/// timestamp that was released last is another matter.
pub open spec fn is_planned(
    before: SenderClock,
    after: SenderClock,
    timestamp: Option<Duration>,
    frame_nanos: nat,
    budget: nat,
    is_keyframe: bool,
    newer_keyframe_queued: bool,
    now: Duration,
    plan: ReleasePlan,
) -> bool {
    let due = due_time(before, timestamp, now);
    &&& match timestamp {
        Some(timestamp) => {
            &&& after.base_pts == Some(first_of(before.base_pts, timestamp))
            &&& after.playback_start == Some(first_of(before.playback_start, now))
        },
        None => {
            &&& after.base_pts == before.base_pts
            &&& after.playback_start == before.playback_start
        },
    }
    &&& if due > now@ {
        &&& plan matches ReleasePlan::Wait(wait)
        &&& wait@ == due - now@
        &&& after.fallback_deadline == (if timestamp is Some {
            before.fallback_deadline
        } else {
            Some(first_of(before.fallback_deadline, now))
        })
    } else {
        &&& plan == (if timestamp is Some && too_late(
            due,
            now@,
            budget,
            is_keyframe,
            newer_keyframe_queued,
        ) {
            ReleasePlan::Drop
        } else {
            ReleasePlan::Send
        })
        &&& after.fallback_deadline matches Some(deadline)
        &&& deadline@ == later(now@, frame_nanos)
    }
}

impl Default for SenderClock {
    fn default() -> (r: Self)
        ensures
            r.base_pts is None,
            r.playback_start is None,
            r.last_released_timestamp is None,
            r.fallback_deadline is None,
    {
        SenderClock::new()
    }
}

impl SenderClock {
    /// A clock that has not started.
    pub fn new() -> (r: Self)
        ensures
            r.base_pts is None,
            r.playback_start is None,
            r.last_released_timestamp is None,
            r.fallback_deadline is None,
    {
        SenderClock {
            base_pts: None,
            playback_start: None,
            last_released_timestamp: None,
            fallback_deadline: None,
        }
    }

    /// Decides when a frame is to be sent. A frame that waits is reported with
    /// `released` after the wait.
    pub fn plan_release(
        &mut self,
        timestamp: Option<Duration>,
        frame_duration: Duration,
        lateness_budget: Duration,
        is_keyframe: bool,
        newer_keyframe_queued: bool,
        now: Duration,
    ) -> (r: ReleasePlan)
        ensures
            is_planned(
                *old(self),
                *final(self),
                timestamp,
                frame_duration@,
                lateness_budget@,
                is_keyframe,
                newer_keyframe_queued,
                now,
                r,
            ),
            final(self).last_released_timestamp == old(self).last_released_timestamp,
    {
        match timestamp {
            Some(timestamp) => {
                let base_pts = match self.base_pts {
                    Some(base) => base,
                    None => timestamp,
                };
                self.base_pts = Some(base_pts);
                let playback_start = match self.playback_start {
                    Some(start) => start,
                    None => now,
                };
                self.playback_start = Some(playback_start);
                let due = later_by(playback_start, timestamp.saturating_sub(base_pts));
                if due.exceeds(&now) {
                    return ReleasePlan::Wait(due.saturating_sub(now));
                }
                let lateness = now.saturating_sub(due);
                self.fallback_deadline = Some(later_by(now, frame_duration));
                if lateness.exceeds(&lateness_budget) && (!is_keyframe || newer_keyframe_queued) {
                    ReleasePlan::Drop
                } else {
                    ReleasePlan::Send
                }
            },
            None => {
                let due = match self.fallback_deadline {
                    Some(deadline) => deadline,
                    None => now,
                };
                if due.exceeds(&now) {
                    self.fallback_deadline = Some(due);
                    return ReleasePlan::Wait(due.saturating_sub(now));
                }
                self.fallback_deadline = Some(later_by(now, frame_duration));
                ReleasePlan::Send
            },
        }
    }

    /// Notes that a frame has waited; `now` is when the wait was over.
    pub fn released(&mut self, frame_duration: Duration, now: Duration)
        ensures
            final(self).base_pts == old(self).base_pts,
            final(self).playback_start == old(self).playback_start,
            final(self).last_released_timestamp == old(self).last_released_timestamp,
            final(self).fallback_deadline matches Some(deadline) && deadline@ == later(
                now@,
                frame_duration@,
            ),
    {
        self.fallback_deadline = Some(later_by(now, frame_duration));
    }

    /// Notes that a frame was sent, or dropped for being late.
    pub fn settle(&mut self, timestamp: Option<Duration>)
        ensures
            final(self).base_pts == old(self).base_pts,
            final(self).playback_start == old(self).playback_start,
            final(self).fallback_deadline == old(self).fallback_deadline,
            final(self).last_released_timestamp == (if timestamp is Some {
                timestamp
            } else {
                old(self).last_released_timestamp
            }),
    {
        if timestamp.is_some() {
            self.last_released_timestamp = timestamp;
        }
    }
}

// ---------------------------------------------------------------------------
// Samples
// ---------------------------------------------------------------------------

/// How many ticks of a clock a span is: at least one, and no more than fit.
pub open spec fn samples_of(nanos: nat, clock_rate: u32) -> u32 {
    let samples = nanos * clock_rate as nat / 1_000_000_000;
    if samples < 1 {
        1
    } else if samples > u32::MAX {
        u32::MAX
    } else {
        samples as u32
    }
}

/// How many ticks of a clock a span is.
pub fn duration_to_rtp_samples_with_rate(duration: Duration, clock_rate: u32) -> (r: u32)
    ensures
        r == samples_of(duration@, clock_rate),
{
    let nanos: u128 = duration.as_nanos();
    let rate: u128 = clock_rate as u128;
    proof {
        assert(nanos * rate <= 18_446_744_073_709_551_615_999_999_999u128 * 4_294_967_295u128)
            by (nonlinear_arith)
            requires
                nanos <= 18_446_744_073_709_551_615_999_999_999u128,
                rate <= 4_294_967_295u128,
        ;
    }
    let samples: u128 = nanos * rate / 1_000_000_000;
    if samples < 1 {
        1
    } else if samples > u32::MAX as u128 {
        u32::MAX
    } else {
        samples as u32
    }
}

/// How many ticks of the video clock a span is.
pub fn duration_to_rtp_samples(duration: Duration) -> (r: u32)
    ensures
        r == samples_of(duration@, VIDEO_CLOCK_RATE),
{
    duration_to_rtp_samples_with_rate(duration, VIDEO_CLOCK_RATE)
}

// ---------------------------------------------------------------------------
// Admission
// ---------------------------------------------------------------------------

/// What is to be done with the frame that is next.
#[derive(Debug, PartialEq, Eq)]
pub enum Admission {
    /// The frame cannot be sent at all; the sender stops.
    Reject(RuntimeError),
    /// The frame steps back in time and is left out.
    Skip,
    /// The frame is to be dealt with as planned.
    Plan(ReleasePlan),
}

/// How a codec is named in a message.
pub open spec fn codec_label(codec: Seq<char>) -> Seq<char> {
    if text::lower(codec) == text::lower("h264"@) {
        "H.264"@
    } else {
        codec
    }
}

/// The text that refuses a frame of another codec.
pub open spec fn codec_mismatch_text(
    id: Seq<char>,
    emitted: Seq<char>,
    expected: Seq<char>,
) -> Seq<char> {
    "pipeline '"@ + id + "' emitted codec '"@ + emitted
        + "' but the current WebRTC sink only packetizes "@ + codec_label(expected)
}

/// The length of a frame: its own, or else that of the sink, or else the default.
pub open spec fn frame_nanos(config: WebRtcSenderConfig, packet: EncodedPacket) -> nat {
    match (packet.duration, config.default_frame_duration) {
        (Some(span), _) => span@,
        (None, Some(span)) => span@,
        (None, None) => DEFAULT_FRAME_NANOS as nat,
    }
}

fn same_ignoring_case(a: &str, b: &str) -> (r: bool)
    ensures
        r == (text::lower(a@) == text::lower(b@)),
{
    text::same(text::to_ascii_lowercase(a).as_str(), text::to_ascii_lowercase(b).as_str())
}

/// The length of a frame: its own, or else that of the sink, or else the default.
pub fn frame_duration_of(config: &WebRtcSenderConfig, packet: &EncodedPacket) -> (r: Duration)
    ensures
        r@ == frame_nanos(*config, *packet),
{
    match packet.duration {
        Some(span) => span,
        None => match config.default_frame_duration {
            Some(span) => span,
            None => Duration::from_nanos(DEFAULT_FRAME_NANOS),
        },
    }
}

/// Whether what is to be done with the frame that is next, and what the clock has noted
/// with it, is right.
pub open spec fn is_considered(
    config: WebRtcSenderConfig,
    before: SenderClock,
    after: SenderClock,
    next: DequeuedPacket,
    now: Duration,
    admission: Admission,
) -> bool {
    let packet = next.packet;
    if text::lower(packet.codec@) != text::lower(config.codec@) {
        &&& admission matches Admission::Reject(RuntimeError::Sink(message))
        &&& message@ == codec_mismatch_text(config.pipeline_id@, packet.codec@, config.codec@)
        &&& after == before
    } else if steps_back(before, packet.timestamp) {
        admission == Admission::Skip && after == before
    } else {
        &&& admission matches Admission::Plan(plan)
        &&& is_planned(
            before,
            after,
            packet.timestamp,
            frame_nanos(config, packet),
            config.lateness_budget@,
            packet.is_keyframe,
            next.newer_keyframe_queued,
            now,
            plan,
        )
        &&& after.last_released_timestamp == (if plan == ReleasePlan::Drop {
            packet.timestamp
        } else {
            before.last_released_timestamp
        })
    }
}

/// Decides what is to be done with the frame that is next. A frame that is dropped for
/// being late is settled; one that is to be sent is settled when it was.
pub fn consider(
    config: &WebRtcSenderConfig,
    clock: &mut SenderClock,
    next: &DequeuedPacket,
    now: Duration,
) -> (r: Admission)
    ensures
        is_considered(*config, *old(clock), *final(clock), *next, now, r),
{
    let packet = &next.packet;
    if !same_ignoring_case(packet.codec.as_str(), config.codec.as_str()) {
        let expected = if same_ignoring_case(config.codec.as_str(), "h264") {
            "H.264"
        } else {
            config.codec.as_str()
        };
        let mut message = text::join5(
            "pipeline '",
            config.pipeline_id.as_str(),
            "' emitted codec '",
            packet.codec.as_str(),
            "' but the current WebRTC sink only packetizes ",
        );
        message.append(expected);
        return Admission::Reject(RuntimeError::Sink(message));
    }
    if should_drop_for_timestamp(clock, packet.timestamp) {
        return Admission::Skip;
    }
    let plan = clock.plan_release(
        packet.timestamp,
        frame_duration_of(config, packet),
        config.lateness_budget,
        packet.is_keyframe,
        next.newer_keyframe_queued,
        now,
    );
    match plan {
        ReleasePlan::Drop => {
            clock.settle(packet.timestamp);
        },
        _ => {},
    }
    Admission::Plan(plan)
}

// ---------------------------------------------------------------------------
// Laws
// ---------------------------------------------------------------------------

/// A span always counts for at least one tick, and a longer one for no fewer.
pub proof fn samples_grow_with_time(shorter: nat, longer: nat, clock_rate: u32)
    requires
        shorter <= longer,
    ensures
        1 <= samples_of(shorter, clock_rate) <= samples_of(longer, clock_rate),
{
    let rate = clock_rate as nat;
    assert(shorter * rate <= longer * rate) by (nonlinear_arith)
        requires
            shorter <= longer,
    ;
}

/// Whole seconds count for as many ticks as the clock makes, as long as they fit.
pub proof fn seconds_count_exactly(seconds: nat, clock_rate: u32)
    requires
        1 <= seconds * clock_rate as nat <= u32::MAX,
    ensures
        samples_of(seconds * 1_000_000_000, clock_rate) == seconds * clock_rate,
{
    let rate = clock_rate as nat;
    assert((seconds * 1_000_000_000) * rate == (seconds * rate) * 1_000_000_000)
        by (nonlinear_arith);
}

/// A key frame is dropped for being late only where a newer key frame waits.
pub proof fn late_keyframes_are_sent_unless_replaced(
    due: nat,
    now: nat,
    budget: nat,
    newer_keyframe_queued: bool,
)
    ensures
        too_late(due, now, budget, true, newer_keyframe_queued) ==> newer_keyframe_queued,
{
}

/// A frame that is on time, or late within the budget, is never dropped for it.
pub proof fn timely_frames_are_never_dropped(
    due: nat,
    now: nat,
    budget: nat,
    is_keyframe: bool,
    newer_keyframe_queued: bool,
)
    requires
        now <= due + budget,
    ensures
        !too_late(due, now, budget, is_keyframe, newer_keyframe_queued),
{
}

/// Once a frame is settled, every frame that is not later steps back: the timestamps of
/// what is sent strictly grow.
pub proof fn sent_timestamps_strictly_grow(clock: SenderClock, settled: Duration, next: Duration)
    requires
        clock.last_released_timestamp == Some(settled),
        !steps_back(clock, Some(next)),
    ensures
        next@ > settled@,
{
}

/// The first frame with a timestamp is due when it comes.
pub proof fn the_first_frame_is_due_at_once(
    clock: SenderClock,
    timestamp: Duration,
    now: Duration,
)
    requires
        clock.base_pts is None,
        clock.playback_start is None,
        now@ <= MAX_NANOS,
    ensures
        scheduled(clock, timestamp, now) == now@,
{
}

/// Two frames are due as far apart as their timestamps, as long as time can be counted.
pub proof fn frames_are_spaced_as_their_timestamps(
    clock: SenderClock,
    base: Duration,
    start: Duration,
    earlier: Duration,
    later_frame: Duration,
    now: Duration,
)
    requires
        clock.base_pts == Some(base),
        clock.playback_start == Some(start),
        base@ <= earlier@ <= later_frame@,
        start@ + (later_frame@ - base@) <= MAX_NANOS,
    ensures
        scheduled(clock, later_frame, now) - scheduled(clock, earlier, now) == later_frame@
            - earlier@,
{
}

/// A frame is left out for its timestamp only if it is not later than the one released
/// last, and then always. A frame that is later, one without a timestamp, and the first
/// one are never left out for it.
pub proof fn only_earlier_frames_step_back(clock: SenderClock, last: Duration, current: Duration)
    requires
        clock.last_released_timestamp == Some(last),
    ensures
        last@ < current@ ==> !steps_back(clock, Some(current)),
        current@ <= last@ ==> steps_back(clock, Some(current)),
        !steps_back(clock, None),
        !steps_back((SenderClock { last_released_timestamp: None, ..clock }), Some(current)),
{
}

/// A frame of the right codec is skipped if and only if it is not later than the one
/// released last; any other is planned.
pub proof fn later_frames_are_planned(
    config: WebRtcSenderConfig,
    before: SenderClock,
    after: SenderClock,
    next: DequeuedPacket,
    now: Duration,
    admission: Admission,
)
    requires
        is_considered(config, before, after, next, now, admission),
        next.packet.codec@ == config.codec@,
    ensures
        match (before.last_released_timestamp, next.packet.timestamp) {
            (Some(last), Some(current)) => if last@ < current@ {
                admission is Plan
            } else {
                admission is Skip && after == before
            },
            _ => admission is Plan,
        },
{
}

/// A frame with a timestamp goes out as long after the first one as its timestamp says: it
/// waits for exactly what is left of that, and once that has passed it is sent. It is
/// dropped only where it is later than the budget allows and can be spared: where it is no
/// key frame, or a newer one waits.
pub proof fn frames_go_out_at_their_time(
    config: WebRtcSenderConfig,
    before: SenderClock,
    after: SenderClock,
    next: DequeuedPacket,
    now: Duration,
    plan: ReleasePlan,
    base: Duration,
    start: Duration,
    timestamp: Duration,
)
    requires
        is_considered(config, before, after, next, now, Admission::Plan(plan)),
        before.base_pts == Some(base),
        before.playback_start == Some(start),
        next.packet.timestamp == Some(timestamp),
        base@ <= timestamp@,
        start@ + (timestamp@ - base@) <= MAX_NANOS,
    ensures
        plan is Wait <==> now@ - start@ < timestamp@ - base@,
        plan matches ReleasePlan::Wait(wait) ==> (now@ + wait@) - start@ == timestamp@ - base@,
        plan is Drop <==> now@ - start@ > timestamp@ - base@ + config.lateness_budget@ && (
        !next.packet.is_keyframe || next.newer_keyframe_queued),
        after.base_pts == before.base_pts,
        after.playback_start == before.playback_start,
        plan is Drop ==> after.last_released_timestamp == Some(timestamp),
        !(plan is Drop) ==> after.last_released_timestamp == before.last_released_timestamp,
{
}

/// The first frame with a timestamp goes out at once, and the others are measured by it.
pub proof fn the_first_frame_sets_the_clock(
    config: WebRtcSenderConfig,
    before: SenderClock,
    after: SenderClock,
    next: DequeuedPacket,
    now: Duration,
    plan: ReleasePlan,
    timestamp: Duration,
)
    requires
        is_considered(config, before, after, next, now, Admission::Plan(plan)),
        before.base_pts is None,
        before.playback_start is None,
        next.packet.timestamp == Some(timestamp),
        now@ <= MAX_NANOS,
    ensures
        plan is Send,
        after.base_pts == Some(timestamp),
        after.playback_start == Some(now),
{
}

/// A frame without a timestamp is never dropped: it waits until the frame before it is
/// over, and where that has passed, or there was none, it is sent at once.
pub proof fn frames_without_a_time_follow_the_last(
    config: WebRtcSenderConfig,
    before: SenderClock,
    after: SenderClock,
    next: DequeuedPacket,
    now: Duration,
    admission: Admission,
)
    requires
        is_considered(config, before, after, next, now, admission),
        next.packet.codec@ == config.codec@,
        next.packet.timestamp is None,
    ensures
        admission matches Admission::Plan(plan) && match before.fallback_deadline {
            None => plan is Send,
            Some(deadline) => if now@ < deadline@ {
                plan matches ReleasePlan::Wait(wait) && now@ + wait@ == deadline@
            } else {
                plan is Send
            },
        },
        after.base_pts == before.base_pts,
        after.playback_start == before.playback_start,
        after.last_released_timestamp == before.last_released_timestamp,
{
}

/// The span of a frame is its own; only where it has none is it the configured one.
pub proof fn frames_last_as_they_say(config: WebRtcSenderConfig, packet: EncodedPacket)
    ensures
        packet.duration matches Some(own) ==> frame_nanos(config, packet) == own@,
        packet.duration is None ==> (config.default_frame_duration matches Some(usual)
            ==> frame_nanos(config, packet) == usual@),
{
}

/// A frame that went out holds the next one without a timestamp back for its own span,
/// as long as time can be counted.
pub proof fn a_sent_frame_lasts_its_span(
    config: WebRtcSenderConfig,
    before: SenderClock,
    after: SenderClock,
    next: DequeuedPacket,
    now: Duration,
    plan: ReleasePlan,
    span: Duration,
)
    requires
        is_considered(config, before, after, next, now, Admission::Plan(plan)),
        !(plan is Wait),
        next.packet.duration == Some(span),
        now@ + span@ <= MAX_NANOS,
    ensures
        after.fallback_deadline matches Some(deadline) && deadline@ - now@ == span@,
{
}

/// The ticks of a span are the whole ones in it: they take no longer than the span, and
/// one more would. A span without a whole tick counts for one, and one with more than can
/// be counted for as many as can.
pub proof fn spans_hold_their_ticks(nanos: nat, clock_rate: u32)
    ensures
        ({
            let ticks = samples_of(nanos, clock_rate) as int;
            let exact = nanos * clock_rate;
            &&& exact < 1_000_000_000 ==> ticks == 1
            &&& 1_000_000_000 <= exact < 0x1_0000_0000 * 1_000_000_000 ==> ticks * 1_000_000_000
                <= exact < (ticks + 1) * 1_000_000_000
            &&& exact >= 0x1_0000_0000 * 1_000_000_000 ==> ticks == 0xFFFF_FFFF
        }),
{
    assert(nanos * clock_rate >= 0) by (nonlinear_arith);
}

/// H.264 is called by its full name, however the codec is written; any other codec by its
/// own.
pub proof fn codecs_are_called_by_their_names(codec: Seq<char>)
    ensures
        text::lower(codec) == "h264"@ ==> codec_label(codec) == "H.264"@,
        text::lower(codec) != "h264"@ ==> codec_label(codec) == codec,
{
    reveal_strlit("h264");
    assert(text::lower("h264"@) =~= "h264"@);
}

/// A point in time is later by the span, as long as time can be counted, and else the last
/// that can.
pub proof fn points_move_by_their_span(point: nat, span: nat)
    ensures
        point + span <= MAX_NANOS ==> later(point, span) == point + span,
        point + span > MAX_NANOS ==> later(point, span) == MAX_NANOS,
{
}

/// A frame is never taken for a step back if it is later than the one released last, and
/// always if it is not.
pub proof fn later_frames_are_no_steps_back(
    clock: &SenderClock,
    last: Duration,
    current: Duration,
    dropped: bool,
)
    requires
        clock.last_released_timestamp == Some(last),
        call_ensures(should_drop_for_timestamp, (clock, Some(current)), dropped),
    ensures
        last@ < current@ ==> !dropped,
        current@ <= last@ ==> dropped,
{
}

/// The ticks of a span are the whole ones in it, at the rate that is asked for.
pub proof fn ticks_are_whole(span: Duration, clock_rate: u32, ticks: u32, usual: u32)
    requires
        call_ensures(duration_to_rtp_samples_with_rate, (span, clock_rate), ticks),
        call_ensures(duration_to_rtp_samples, (span,), usual),
        1_000_000_000 <= span@ * clock_rate < 0x1_0000_0000 * 1_000_000_000,
        1_000_000_000 <= span@ * 90_000 < 0x1_0000_0000 * 1_000_000_000,
    ensures
        ticks * 1_000_000_000 <= span@ * clock_rate < (ticks + 1) * 1_000_000_000,
        usual * 1_000_000_000 <= span@ * 90_000 < (usual + 1) * 1_000_000_000,
{
    spans_hold_their_ticks(span@, clock_rate);
    spans_hold_their_ticks(span@, VIDEO_CLOCK_RATE);
}

/// A frame of the right codec is skipped if and only if it is not later than the one
/// released last, and else planned. One with a timestamp goes out as long after the first
/// as its timestamp says, and is dropped only where it is later than the budget allows and
/// can be spared.
pub proof fn frames_are_considered_by_their_time(
    config: &WebRtcSenderConfig,
    clock: &mut SenderClock,
    next: &DequeuedPacket,
    now: Duration,
    admission: Admission,
    base: Duration,
    start: Duration,
    current: Duration,
)
    requires
        call_ensures(consider, (config, clock, next, now), admission),
        next.packet.codec@ == config.codec@,
        next.packet.timestamp == Some(current),
        old(clock).base_pts == Some(base),
        old(clock).playback_start == Some(start),
        base@ <= current@,
        start@ + (current@ - base@) <= MAX_NANOS,
    ensures
        admission is Skip <==> old(clock).last_released_timestamp is Some && current@ <= old(
            clock,
        ).last_released_timestamp->0@,
        admission is Skip || admission is Plan,
        admission matches Admission::Plan(plan) ==> {
            &&& plan is Wait <==> now@ - start@ < current@ - base@
            &&& plan matches ReleasePlan::Wait(wait) ==> now@ + wait@ - start@ == current@ - base@
            &&& plan is Drop <==> now@ - start@ > current@ - base@ + config.lateness_budget@ && (
            !next.packet.is_keyframe || next.newer_keyframe_queued)
            &&& final(clock).last_released_timestamp == (if plan is Drop {
                Some(current)
            } else {
                old(clock).last_released_timestamp
            })
        },
{
    if let Admission::Plan(plan) = admission {
        frames_go_out_at_their_time(
            *config,
            *old(clock),
            *final(clock),
            *next,
            now,
            plan,
            base,
            start,
            current,
        );
    }
}

/// A frame from before the first one is due when that one was.
pub proof fn frames_before_the_first_are_due_with_it(
    clock: SenderClock,
    base: Duration,
    start: Duration,
    timestamp: Duration,
    now: Duration,
)
    requires
        clock.base_pts == Some(base),
        clock.playback_start == Some(start),
        timestamp@ <= base@,
        start@ <= MAX_NANOS,
    ensures
        scheduled(clock, timestamp, now) == start@,
        due_time(clock, Some(timestamp), now) == start@,
{
}

} // verus!
