//! The task that sends the frames of a sink: each is taken from the queue, waits for its
//! time, is cut into packets, and these are written one after the other.

use std::collections::VecDeque;

use vstd::multiset::Multiset;
use vstd::prelude::*;

use crate::deque;
use crate::error::RuntimeError;
use crate::runtime::media::EncodedPacket;
use crate::text;
use crate::time::Duration;
use crate::webrtc::clock::{self, Admission, ReleasePlan, SenderClock};
use crate::webrtc::config::{self, WebRtcSenderConfig};
use crate::webrtc::queue::DequeueOutcome;
use crate::webrtc::rtp::{self, RtpPacket, RtpSender};

verus! {

/// How long a packet may take to be written, in milliseconds.
pub const WRITE_TIMEOUT_MILLIS: u64 = 500;

/// Sends the frames of a sink.
pub struct WebRtcSender {
    pub config: WebRtcSenderConfig,
    pub clock: SenderClock,
    pub rtp: RtpSender,
    /// The frame that waits for its time.
    pub waiting: Option<EncodedPacket>,
    /// The packets of the frame that is being sent which were not written yet.
    pub unsent: VecDeque<RtpPacket>,
    /// That frame.
    pub sending: Option<EncodedPacket>,
    /// The frames that the sender is done with, and that were not handed out yet.
    pub finished: Vec<EncodedPacket>,
}

/// What is to be done next.
#[derive(Debug, PartialEq, Eq)]
pub enum SenderAction {
    /// Take the next frame from the queue.
    Dequeue,
    /// Wait until there is a frame in the queue.
    AwaitFrame,
    /// Wait this long.
    Sleep(Duration),
    /// Write this packet.
    Write(RtpPacket),
    /// End.
    Stop,
    /// End with an error.
    Fail(RuntimeError),
}

/// What a sender makes of an event.
#[derive(Debug, PartialEq, Eq)]
pub struct SenderStep {
    /// The number of bytes that were copied, for the metrics.
    pub copied: Option<usize>,
    /// What is to be done next.
    pub action: SenderAction,
}

/// What became of a packet that was to be written.
#[derive(Debug, PartialEq, Eq)]
pub enum WriteOutcome {
    Written,
    /// It took too long.
    TimedOut,
    /// It failed, with the words of the track.
    Failed(String),
}

/// A clock after a frame was sent, or dropped for being late.
pub open spec fn settled(clock: SenderClock, timestamp: Option<Duration>) -> SenderClock {
    match timestamp {
        Some(timestamp) => SenderClock { last_released_timestamp: Some(timestamp), ..clock },
        None => clock,
    }
}

/// Whether a clock has noted the end of a wait.
pub open spec fn wait_noted(
    before: SenderClock,
    after: SenderClock,
    frame_nanos: nat,
    now: Duration,
) -> bool {
    &&& after.base_pts == before.base_pts
    &&& after.playback_start == before.playback_start
    &&& after.last_released_timestamp == before.last_released_timestamp
    &&& after.fallback_deadline matches Some(deadline)
    &&& deadline@ == clock::later(now@, frame_nanos)
}

/// The timestamp of a frame, if there is one that has one.
pub open spec fn timestamp_of(frame: Option<EncodedPacket>) -> Option<Duration> {
    match frame {
        Some(frame) => frame.timestamp,
        None => None,
    }
}

/// A row of frames, and one more where there is one.
pub open spec fn with_frame(
    frames: Seq<EncodedPacket>,
    frame: Option<EncodedPacket>,
) -> Seq<EncodedPacket> {
    match frame {
        Some(frame) => frames.push(frame),
        None => frames,
    }
}

/// Whether a sender goes on with packets that are left of a frame: the first is written,
/// and after the last one the frame is settled, and done with as the others that are
/// `finished`.
pub open spec fn goes_on(
    packets: Seq<RtpPacket>,
    frame: Option<EncodedPacket>,
    clock: SenderClock,
    finished: Seq<EncodedPacket>,
    after: WebRtcSender,
    action: SenderAction,
) -> bool {
    if packets.len() > 0 {
        &&& action == SenderAction::Write(packets[0])
        &&& after.unsent@ == packets.drop_first()
        &&& after.sending == frame
        &&& after.clock == clock
        &&& after.finished@ == finished
    } else {
        &&& action == SenderAction::Dequeue
        &&& after.unsent@ == packets
        &&& after.sending is None
        &&& after.clock == settled(clock, timestamp_of(frame))
        &&& after.finished@ == with_frame(finished, frame)
    }
}

/// Whether a sender has cut a frame into the given packets, and goes on with them.
pub open spec fn sends(
    before: WebRtcSender,
    clock: SenderClock,
    frame: EncodedPacket,
    packets: Seq<RtpPacket>,
    after: WebRtcSender,
    step: SenderStep,
) -> bool {
    &&& rtp::is_packetized(
        packets,
        before.rtp.state(),
        after.rtp.state(),
        rtp::h264_payloads(
            before.rtp.state().sps,
            before.rtp.state().pps,
            rtp::room(before.rtp.state()),
            frame.data@,
        ),
        clock::samples_of(clock::frame_nanos(before.config, frame), before.config.clock_rate),
    )
    &&& step.copied == Some(frame.data@.len() as usize)
    &&& goes_on(
        packets,
        Some(frame),
        clock,
        with_frame(before.finished@, before.sending),
        after,
        step.action,
    )
}

/// Whether a sender does with a frame what was decided.
pub open spec fn follows(
    before: WebRtcSender,
    clock: SenderClock,
    admission: Admission,
    frame: EncodedPacket,
    after: WebRtcSender,
    step: SenderStep,
) -> bool {
    match admission {
        Admission::Plan(ReleasePlan::Send) => {
            &&& after.waiting == before.waiting
            &&& exists|packets: Seq<RtpPacket>| #[trigger]
                sends(before, clock, frame, packets, after, step)
        },
        _ => {
            &&& after.rtp == before.rtp
            &&& after.clock == clock
            &&& after.unsent == before.unsent
            &&& after.sending == before.sending
            &&& step.copied is None
            &&& match admission {
                Admission::Reject(error) => step.action == SenderAction::Fail(error)
                    && after.waiting == before.waiting && after.finished@ == before.finished@.push(
                    frame,
                ),
                Admission::Plan(ReleasePlan::Wait(wait)) => step.action == SenderAction::Sleep(wait)
                    && after.waiting == Some(frame) && after.finished@ == with_frame(
                    before.finished@,
                    before.waiting,
                ),
                _ => step.action == SenderAction::Dequeue && after.waiting == before.waiting
                    && after.finished@ == before.finished@.push(frame),
            }
        },
    }
}

/// Whether a sender has given up the frame that was being sent, and changed nothing else.
pub open spec fn gives_up(before: WebRtcSender, after: WebRtcSender) -> bool {
    &&& after.finished@ == with_frame(before.finished@, before.sending)
    &&& after.sending is None
    &&& after.clock == before.clock
    &&& after.unsent == before.unsent
}

/// What is said of a packet that was not written.
pub fn write_result(outcome: WriteOutcome) -> (r: Result<(), RuntimeError>)
    ensures
        match outcome {
            WriteOutcome::Written => r is Ok,
            WriteOutcome::TimedOut => r matches Err(RuntimeError::Sink(message)) && message@
                == "WebRTC track write stalled due to backpressure timeout"@,
            WriteOutcome::Failed(error) => r matches Err(RuntimeError::Sink(message)) && message@
                == "failed to write RTP packet: "@ + error@,
        },
{
    match outcome {
        WriteOutcome::Written => Ok(()),
        WriteOutcome::TimedOut => Err(
            RuntimeError::sink("WebRTC track write stalled due to backpressure timeout"),
        ),
        WriteOutcome::Failed(error) => Err(
            RuntimeError::Sink(text::join2("failed to write RTP packet: ", error.as_str())),
        ),
    }
}

impl WebRtcSender {
    /// Whether the packets of the sender have room for more than a header.
    pub open spec fn well_formed(&self) -> bool {
        self.rtp.has_room()
    }

    /// A sender that has not sent anything.
    pub fn new(config: WebRtcSenderConfig) -> (r: Self)
        requires
            config.packet_size_limit > config::RTP_HEADER_SIZE,
        ensures
            r.well_formed(),
            r.config == config,
            r.rtp.state().mtu == config.packet_size_limit,
            r.rtp.state().payload_type == config.payload_type,
            r.rtp.state().ssrc == config.ssrc,
            r.rtp.state().sps is None,
            r.rtp.state().pps is None,
            r.clock.base_pts is None,
            r.clock.playback_start is None,
            r.clock.last_released_timestamp is None,
            r.clock.fallback_deadline is None,
            r.waiting is None,
            r.unsent@.len() == 0,
            r.sending is None,
            r.finished@.len() == 0,
    {
        let rtp = RtpSender::new(&config);
        WebRtcSender {
            config,
            clock: SenderClock::new(),
            rtp,
            waiting: None,
            unsent: VecDeque::new(),
            sending: None,
            finished: Vec::new(),
        }
    }

    /// Hands out the frames that the sender is done with.
    pub fn take_finished(&mut self) -> (r: Vec<EncodedPacket>)
        ensures
            r@ == old(self).finished@,
            final(self).finished@ == Seq::<EncodedPacket>::empty(),
            final(self).config == old(self).config,
            final(self).clock == old(self).clock,
            final(self).rtp == old(self).rtp,
            final(self).waiting == old(self).waiting,
            final(self).unsent == old(self).unsent,
            final(self).sending == old(self).sending,
    {
        let mut finished: Vec<EncodedPacket> = Vec::new();
        std::mem::swap(&mut finished, &mut self.finished);
        finished
    }

    /// Notes that the sender is done with the frame that was being sent, if there is one.
    fn finish_sending(&mut self)
        ensures
            final(self).finished@ == with_frame(old(self).finished@, old(self).sending),
            final(self).sending is None,
            final(self).config == old(self).config,
            final(self).clock == old(self).clock,
            final(self).rtp == old(self).rtp,
            final(self).waiting == old(self).waiting,
            final(self).unsent == old(self).unsent,
    {
        let mut sent: Option<EncodedPacket> = None;
        std::mem::swap(&mut sent, &mut self.sending);
        match sent {
            Some(frame) => {
                self.finished.push(frame);
            },
            None => {},
        }
    }

    /// Goes on with the packets that are left.
    fn go_on(&mut self) -> (r: SenderAction)
        ensures
            goes_on(
                old(self).unsent@,
                old(self).sending,
                old(self).clock,
                old(self).finished@,
                *final(self),
                r,
            ),
            final(self).config == old(self).config,
            final(self).rtp == old(self).rtp,
            final(self).waiting == old(self).waiting,
    {
        match self.unsent.pop_front() {
            Some(packet) => {
                assert(self.unsent@ =~= old(self).unsent@.drop_first());
                SenderAction::Write(packet)
            },
            None => {
                let timestamp = match &self.sending {
                    Some(frame) => frame.timestamp,
                    None => None,
                };
                self.clock.settle(timestamp);
                assert(self.clock == settled(old(self).clock, timestamp_of(old(self).sending)));
                self.finish_sending();
                SenderAction::Dequeue
            },
        }
    }

    /// Cuts a frame into packets, and begins to write them.
    fn send_frame(&mut self, frame: EncodedPacket) -> (r: SenderStep)
        requires
            old(self).well_formed(),
        ensures
            final(self).well_formed(),
            final(self).config == old(self).config,
            final(self).waiting == old(self).waiting,
            exists|packets: Seq<RtpPacket>| #[trigger]
                sends(*old(self), old(self).clock, frame, packets, *final(self), r),
    {
        let copied: usize = frame.data.len();
        self.finish_sending();
        match self.rtp.send(&self.config, &frame) {
            Ok(packets) => {
                let ghost all = packets@;
                self.unsent = deque::deque_of(packets);
                self.sending = Some(frame);
                let action = self.go_on();
                let step = SenderStep { copied: Some(copied), action };
                assert(sends(*old(self), old(self).clock, frame, all, *self, step));
                step
            },
            Err(error) => {
                self.finished.push(frame);
                SenderStep { copied: Some(copied), action: SenderAction::Fail(error) }
            },
        }
    }

    /// Deals with what was taken from the queue.
    pub fn taken(&mut self, outcome: DequeueOutcome, now: Duration) -> (r: SenderStep)
        requires
            old(self).well_formed(),
        ensures
            final(self).well_formed(),
            final(self).config == old(self).config,
            match outcome {
                DequeueOutcome::Packet(next) => exists|clock: SenderClock, admission: Admission|
                    #![trigger follows(*old(self), clock, admission, next.packet, *final(self), r)]
                    clock::is_considered(
                        old(self).config,
                        old(self).clock,
                        clock,
                        next,
                        now,
                        admission,
                    ) && follows(*old(self), clock, admission, next.packet, *final(self), r),
                DequeueOutcome::Wait => *final(self) == *old(self) && r.copied is None && r.action
                    == SenderAction::AwaitFrame,
                DequeueOutcome::Closed => *final(self) == *old(self) && r.copied is None && r.action
                    == SenderAction::Stop,
            },
    {
        let next = match outcome {
            DequeueOutcome::Packet(next) => next,
            DequeueOutcome::Wait => {
                return SenderStep { copied: None, action: SenderAction::AwaitFrame };
            },
            DequeueOutcome::Closed => {
                return SenderStep { copied: None, action: SenderAction::Stop };
            },
        };
        let ghost before = *self;
        let mut noted = self.clock;
        let admission = clock::consider(&self.config, &mut noted, &next, now);
        let ghost decided = admission;
        self.clock = noted;
        let frame = next.packet;
        let step = match admission {
            Admission::Reject(error) => {
                self.finished.push(frame);
                SenderStep { copied: None, action: SenderAction::Fail(error) }
            },
            Admission::Skip => {
                self.finished.push(frame);
                SenderStep { copied: None, action: SenderAction::Dequeue }
            },
            Admission::Plan(ReleasePlan::Drop) => {
                self.finished.push(frame);
                SenderStep { copied: None, action: SenderAction::Dequeue }
            },
            Admission::Plan(ReleasePlan::Wait(wait)) => {
                let mut waiting: Option<EncodedPacket> = Some(frame);
                std::mem::swap(&mut waiting, &mut self.waiting);
                match waiting {
                    Some(replaced) => {
                        self.finished.push(replaced);
                    },
                    None => {},
                }
                SenderStep { copied: None, action: SenderAction::Sleep(wait) }
            },
            Admission::Plan(ReleasePlan::Send) => {
                let ghost here = *self;
                let step = self.send_frame(frame);
                proof {
                    let packets = choose|packets: Seq<RtpPacket>| #[trigger]
                        sends(here, here.clock, frame, packets, *self, step);
                    assert(sends(before, noted, frame, packets, *self, step));
                }
                step
            },
        };
        assert(follows(before, noted, decided, frame, *self, step));
        step
    }

    /// Deals with the end of a wait: the frame that waited is sent.
    pub fn woken(&mut self, now: Duration) -> (r: SenderStep)
        requires
            old(self).well_formed(),
        ensures
            final(self).well_formed(),
            final(self).config == old(self).config,
            final(self).waiting is None,
            match old(self).waiting {
                Some(frame) => exists|clock: SenderClock, packets: Seq<RtpPacket>|
                    #![trigger sends(*old(self), clock, frame, packets, *final(self), r)]
                    wait_noted(
                        old(self).clock,
                        clock,
                        clock::frame_nanos(old(self).config, frame),
                        now,
                    ) && sends(*old(self), clock, frame, packets, *final(self), r),
                None => *final(self) == *old(self) && r.copied is None && r.action
                    == SenderAction::Dequeue,
            },
    {
        let ghost before = *self;
        let mut waiting: Option<EncodedPacket> = None;
        std::mem::swap(&mut waiting, &mut self.waiting);
        match waiting {
            Some(frame) => {
                self.clock.released(clock::frame_duration_of(&self.config, &frame), now);
                let ghost here = *self;
                let step = self.send_frame(frame);
                proof {
                    let packets = choose|packets: Seq<RtpPacket>| #[trigger]
                        sends(here, here.clock, frame, packets, *self, step);
                    assert(sends(before, here.clock, frame, packets, *self, step));
                }
                step
            },
            None => SenderStep { copied: None, action: SenderAction::Dequeue },
        }
    }

    /// Deals with what became of a packet: the next one is written, unless it failed; then
    /// the sender is done with the frame.
    pub fn written(&mut self, outcome: WriteOutcome) -> (r: SenderStep)
        requires
            old(self).well_formed(),
        ensures
            final(self).well_formed(),
            final(self).config == old(self).config,
            final(self).rtp == old(self).rtp,
            final(self).waiting == old(self).waiting,
            r.copied is None,
            match outcome {
                WriteOutcome::Written => goes_on(
                    old(self).unsent@,
                    old(self).sending,
                    old(self).clock,
                    old(self).finished@,
                    *final(self),
                    r.action,
                ),
                WriteOutcome::TimedOut => gives_up(*old(self), *final(self)) && (r.action matches
                    SenderAction::Fail(RuntimeError::Sink(message)) && message@
                    == "WebRTC track write stalled due to backpressure timeout"@),
                WriteOutcome::Failed(error) => gives_up(*old(self), *final(self)) && (
                r.action matches SenderAction::Fail(RuntimeError::Sink(message)) && message@
                    == "failed to write RTP packet: "@ + error@),
            },
    {
        match write_result(outcome) {
            Ok(()) => {
                let action = self.go_on();
                SenderStep { copied: None, action }
            },
            Err(error) => {
                self.finish_sending();
                SenderStep { copied: None, action: SenderAction::Fail(error) }
            },
        }
    }
}

// ---------------------------------------------------------------------------
// Laws
// ---------------------------------------------------------------------------

/// All frames that a sender holds: the one that waits, the one that is being sent, and
/// those that it is done with.
pub open spec fn frames_held(sender: WebRtcSender) -> Multiset<EncodedPacket> {
    with_frame(with_frame(sender.finished@, sender.waiting), sender.sending).to_multiset()
}

/// A frame that was taken from the queue is held until it is handed out: whatever is
/// decided, the sender holds the frames that it held before, and this one.
pub proof fn taken_frames_are_held(
    before: WebRtcSender,
    clock: SenderClock,
    admission: Admission,
    frame: EncodedPacket,
    after: WebRtcSender,
    step: SenderStep,
)
    requires
        follows(before, clock, admission, frame, after, step),
    ensures
        frames_held(after) == frames_held(before).insert(frame),
{
    broadcast use vstd::seq_lib::group_to_multiset_ensures;

    let done = before.finished@;
    assert(frames_held(before) =~= with_frame(
        with_frame(done, before.sending),
        before.waiting,
    ).to_multiset());
    assert(frames_held(after) =~= frames_held(before).insert(frame));
}

/// A frame that has waited and is sent is still held.
pub proof fn woken_frames_are_held(
    before: WebRtcSender,
    clock: SenderClock,
    frame: EncodedPacket,
    packets: Seq<RtpPacket>,
    after: WebRtcSender,
    step: SenderStep,
)
    requires
        before.waiting == Some(frame),
        after.waiting is None,
        sends(before, clock, frame, packets, after, step),
    ensures
        frames_held(after) == frames_held(before),
{
    broadcast use vstd::seq_lib::group_to_multiset_ensures;

    assert(frames_held(after) =~= frames_held(before));
}

/// A frame whose packet was not written, or whose packets were all written, is done
/// with; no frame is lost on the way.
pub proof fn sent_frames_are_held(
    before: WebRtcSender,
    after: WebRtcSender,
    action: SenderAction,
)
    requires
        after.waiting == before.waiting,
        gives_up(before, after) || goes_on(
            before.unsent@,
            before.sending,
            before.clock,
            before.finished@,
            after,
            action,
        ),
    ensures
        frames_held(after) == frames_held(before),
        after.sending is Some ==> action is Write,
{
    broadcast use vstd::seq_lib::group_to_multiset_ensures;

    let done = before.finished@;
    assert(frames_held(before) =~= with_frame(
        with_frame(done, before.sending),
        before.waiting,
    ).to_multiset());
    assert(frames_held(after) =~= frames_held(before));
}

/// A frame is settled only after all its packets were written: as long as one is left,
/// the clock does not move.
pub proof fn frames_are_settled_last(
    packets: Seq<RtpPacket>,
    frame: Option<EncodedPacket>,
    clock: SenderClock,
    finished: Seq<EncodedPacket>,
    after: WebRtcSender,
    action: SenderAction,
)
    requires
        goes_on(packets, frame, clock, finished, after, action),
        packets.len() > 0,
    ensures
        after.clock == clock,
        action is Write,
{
}

/// A frame that is settled is not sent again: the same timestamp steps back then.
pub proof fn settled_frames_are_not_sent_again(clock: SenderClock, timestamp: Duration)
    ensures
        clock::steps_back(settled(clock, Some(timestamp)), Some(timestamp)),
{
}

/// The packets of a frame are written in the order in which they were cut.
pub proof fn packets_are_written_in_order(
    packets: Seq<RtpPacket>,
    frame: Option<EncodedPacket>,
    clock: SenderClock,
    finished: Seq<EncodedPacket>,
    after: WebRtcSender,
    action: SenderAction,
)
    requires
        goes_on(packets, frame, clock, finished, after, action),
        packets.len() > 0,
    ensures
        action == SenderAction::Write(packets[0]),
        seq![packets[0]] + after.unsent@ == packets,
{
    assert(seq![packets[0]] + packets.drop_first() =~= packets);
}

/// A frame is done with as it was decided: one that is too late or not later than the last
/// is left, one that is too early is kept until its time and slept for exactly that, and one
/// of the wrong kind ends the sender. None of these is packetized.
pub proof fn decisions_are_carried_out(
    before: WebRtcSender,
    clock: SenderClock,
    admission: Admission,
    frame: EncodedPacket,
    after: WebRtcSender,
    step: SenderStep,
)
    requires
        follows(before, clock, admission, frame, after, step),
    ensures
        admission is Skip || admission == Admission::Plan(ReleasePlan::Drop) ==> step.action
            == SenderAction::Dequeue && after.finished@.contains(frame),
        admission matches Admission::Plan(ReleasePlan::Wait(wait)) ==> step.action
            == SenderAction::Sleep(wait) && after.waiting == Some(frame),
        admission matches Admission::Reject(error) ==> step.action == SenderAction::Fail(error),
        admission != Admission::Plan(ReleasePlan::Send) ==> after.rtp == before.rtp
            && after.unsent == before.unsent && step.copied is None,
        admission == Admission::Plan(ReleasePlan::Send) ==> step.copied == Some(
            frame.data@.len() as usize,
        ) && (step.action is Write || step.action is Dequeue),
{
    if admission is Skip || admission == Admission::Plan(ReleasePlan::Drop) {
        assert(after.finished@.last() == frame);
    }
}

/// A frame is cut into packets whole: into the payloads of all its bytes, under the clock of
/// the stream, and the first packet is written at once.
pub proof fn sent_frames_are_cut_whole(
    before: WebRtcSender,
    clock: SenderClock,
    frame: EncodedPacket,
    packets: Seq<RtpPacket>,
    after: WebRtcSender,
    step: SenderStep,
)
    requires
        sends(before, clock, frame, packets, after, step),
    ensures
        ({
            let payloads = rtp::h264_payloads(
                before.rtp.state().sps,
                before.rtp.state().pps,
                (before.rtp.state().mtu - 12) as nat,
                frame.data@,
            ).0;
            &&& packets.len() == payloads.len()
            &&& forall|i: int|
                0 <= i < packets.len() ==> (#[trigger] packets[i]).payload@ == payloads[i]
            &&& packets.len() > 0 ==> step.action == SenderAction::Write(packets[0])
                && after.unsent@ == packets.drop_first() && after.sending == Some(frame)
            &&& packets.len() == 0 ==> step.action == SenderAction::Dequeue && (
            frame.timestamp is Some ==> after.clock.last_released_timestamp == frame.timestamp)
        }),
{
}

/// A frame counts as released once its last packet is written, and only then: the clock
/// notes its timestamp, if it has one, and nothing else.
pub proof fn releases_are_noted(clock: SenderClock, timestamp: Option<Duration>)
    ensures
        timestamp is Some ==> settled(clock, timestamp).last_released_timestamp == timestamp,
        timestamp is None ==> settled(clock, timestamp) == clock,
        settled(clock, timestamp).base_pts == clock.base_pts,
        settled(clock, timestamp).playback_start == clock.playback_start,
        settled(clock, timestamp).fallback_deadline == clock.fallback_deadline,
{
}

/// A frame that was waited for goes out when the wait is over, and the next one without a
/// timestamp waits for its span from then on; nothing else of the clock changes.
pub proof fn ended_waits_are_noted(
    before: SenderClock,
    after: SenderClock,
    frame_nanos: nat,
    now: Duration,
)
    requires
        wait_noted(before, after, frame_nanos, now),
        now@ + frame_nanos <= crate::time::MAX_NANOS,
    ensures
        after.fallback_deadline matches Some(deadline) && deadline@ - now@ == frame_nanos,
        after.base_pts == before.base_pts,
        after.playback_start == before.playback_start,
        after.last_released_timestamp == before.last_released_timestamp,
{
}

/// A sender that gives up sends nothing more of the frame, and does not count it as
/// released.
pub proof fn given_up_frames_are_not_released(before: WebRtcSender, after: WebRtcSender)
    requires
        gives_up(before, after),
    ensures
        after.sending is None,
        after.clock == before.clock,
        after.unsent == before.unsent,
        before.sending matches Some(frame) ==> after.finished@ == before.finished@.push(frame),
{
}

} // verus!
