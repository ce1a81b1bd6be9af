//! The queue between a pipeline and the task that sends its frames.

use std::collections::VecDeque;

use vstd::prelude::*;

use crate::error::RuntimeError;
use crate::runtime::fanout::DropPolicy;
use crate::runtime::media::{DecodedFrame, EncodedPacket, MediaPayload};
use crate::text;

verus! {

/// What a pipeline and the task that sends its frames share.
#[derive(Debug, PartialEq, Eq)]
pub struct WebRtcSharedState {
    /// The frames that wait, oldest first.
    pub queue: VecDeque<EncodedPacket>,
    /// Whether no more frames come.
    pub closed: bool,
    /// What went wrong first.
    pub error: Option<RuntimeError>,
}

/// What became of a frame that was brought.
#[derive(Debug, PartialEq, Eq)]
pub enum EnqueueOutcome {
    /// It waits.
    Queued,
    /// It waits; another one had to go, which this is, if one was there.
    QueuedAfterDrop(Option<EncodedPacket>),
    /// It was dropped; here it is.
    Dropped(EncodedPacket),
    /// There is no room yet; here it is back.
    Wait(EncodedPacket),
    /// Frames are not taken any more; here it is back.
    Refused { error: RuntimeError, packet: EncodedPacket },
}

/// A frame that is next, and whether a newer key frame waits behind it.
#[derive(Debug, PartialEq, Eq)]
pub struct DequeuedPacket {
    pub packet: EncodedPacket,
    pub newer_keyframe_queued: bool,
}

/// What there is to send.
#[derive(Debug, PartialEq, Eq)]
pub enum DequeueOutcome {
    /// This.
    Packet(DequeuedPacket),
    /// Nothing yet.
    Wait,
    /// Nothing any more.
    Closed,
}

/// The position of the oldest frame that is no key frame, or the number of frames.
pub open spec fn oldest_delta(queue: Seq<EncodedPacket>) -> int
    decreases queue.len(),
{
    if queue.len() == 0 || !queue[0].is_keyframe {
        0
    } else {
        1 + oldest_delta(queue.drop_first())
    }
}

/// The frame that makes room: the oldest that is no key frame, or else the oldest.
pub open spec fn victim(queue: Seq<EncodedPacket>) -> int {
    if oldest_delta(queue) < queue.len() {
        oldest_delta(queue)
    } else {
        0
    }
}

/// The frame that goes to make room, if there is one.
pub open spec fn dropped_frame(queue: Seq<EncodedPacket>) -> Option<EncodedPacket> {
    if queue.len() > 0 {
        Some(queue[victim(queue)])
    } else {
        None
    }
}

/// Whether one of the frames is a key frame.
pub open spec fn has_keyframe(queue: Seq<EncodedPacket>) -> bool {
    exists|i: int| 0 <= i < queue.len() && (#[trigger] queue[i]).is_keyframe
}

/// The frames that wait after one was brought.
pub open spec fn queue_after(
    queue: Seq<EncodedPacket>,
    limit: nat,
    policy: DropPolicy,
    packet: EncodedPacket,
) -> Seq<EncodedPacket> {
    if queue.len() < limit {
        queue.push(packet)
    } else if policy == DropPolicy::DropOldest {
        (if queue.len() > 0 {
            queue.remove(victim(queue))
        } else {
            queue
        }).push(packet)
    } else {
        queue
    }
}

/// Drops one frame: the oldest that is no key frame, or else the oldest.
pub fn drop_oldest_prefer_delta(queue: &mut VecDeque<EncodedPacket>) -> (r: Option<EncodedPacket>)
    ensures
        match r {
            Some(packet) => old(queue)@.len() > 0 && packet == old(queue)@[victim(old(queue)@)]
                && final(queue)@ == old(queue)@.remove(victim(old(queue)@)),
            None => old(queue)@.len() == 0 && final(queue)@ == old(queue)@,
        },
{
    let ghost before = queue@;
    let mut i: usize = 0;
    assert(before.skip(0) == before);
    while i < queue.len()
        invariant
            i <= before.len(),
            before == old(queue)@,
            queue@ == before,
            oldest_delta(before) == i + oldest_delta(before.skip(i as int)),
        decreases before.len() - i,
    {
        assert(before.skip(i as int)[0] == before[i as int]);
        assert(before.skip(i as int).drop_first() == before.skip(i + 1));
        if !queue[i].is_keyframe {
            return queue.remove(i);
        }
        i += 1;
    }
    let dropped = queue.pop_front();
    assert(before.len() > 0 ==> queue@ =~= before.remove(0));
    dropped
}

/// The text that refuses frames after the end.
pub open spec fn closed_text(id: Seq<char>) -> Seq<char> {
    "pipeline '"@ + id + "' cannot enqueue after WebRTC sink is closed"@
}

impl Default for WebRtcSharedState {
    fn default() -> (r: Self)
        ensures
            r.queue@ == Seq::<EncodedPacket>::empty(),
            !r.closed,
            r.error is None,
    {
        WebRtcSharedState::new()
    }
}

impl WebRtcSharedState {
    /// An empty queue.
    pub fn new() -> (r: Self)
        ensures
            r.queue@ == Seq::<EncodedPacket>::empty(),
            !r.closed,
            r.error is None,
    {
        WebRtcSharedState { queue: VecDeque::new(), closed: false, error: None }
    }

    /// Brings a frame.
    pub fn enqueue(
        &mut self,
        packet: EncodedPacket,
        pipeline_id: &str,
        queue_limit: usize,
        drop_policy: DropPolicy,
    ) -> (r: EnqueueOutcome)
        ensures
            final(self).closed == old(self).closed,
            final(self).error == old(self).error,
            match old(self).error {
                Some(error) => r == (EnqueueOutcome::Refused { error, packet })
                    && final(self).queue@ == old(self).queue@,
                None => if old(self).closed {
                    &&& r matches EnqueueOutcome::Refused {
                        error: RuntimeError::Sink(message),
                        packet: back,
                    }
                    &&& message@ == closed_text(pipeline_id@)
                    &&& back == packet
                    &&& final(self).queue@ == old(self).queue@
                } else {
                    &&& final(self).queue@ == queue_after(
                        old(self).queue@,
                        queue_limit as nat,
                        drop_policy,
                        packet,
                    )
                    &&& r == (if old(self).queue@.len() < queue_limit {
                        EnqueueOutcome::Queued
                    } else {
                        match drop_policy {
                            DropPolicy::Block => EnqueueOutcome::Wait(packet),
                            DropPolicy::DropNewest => EnqueueOutcome::Dropped(packet),
                            DropPolicy::DropOldest => EnqueueOutcome::QueuedAfterDrop(
                                dropped_frame(old(self).queue@),
                            ),
                        }
                    })
                },
            },
    {
        if let Some(error) = &self.error {
            return EnqueueOutcome::Refused { error: error.clone(), packet };
        }
        if self.closed {
            let error = RuntimeError::Sink(
                text::join3(
                    "pipeline '",
                    pipeline_id,
                    "' cannot enqueue after WebRTC sink is closed",
                ),
            );
            return EnqueueOutcome::Refused { error, packet };
        }
        if self.queue.len() < queue_limit {
            self.queue.push_back(packet);
            return EnqueueOutcome::Queued;
        }
        match drop_policy {
            DropPolicy::Block => EnqueueOutcome::Wait(packet),
            DropPolicy::DropNewest => EnqueueOutcome::Dropped(packet),
            DropPolicy::DropOldest => {
                let dropped = drop_oldest_prefer_delta(&mut self.queue);
                self.queue.push_back(packet);
                EnqueueOutcome::QueuedAfterDrop(dropped)
            },
        }
    }

    /// Takes the frame that is next.
    pub fn dequeue(&mut self) -> (r: DequeueOutcome)
        ensures
            final(self).closed == old(self).closed,
            final(self).error == old(self).error,
            if old(self).error is Some {
                r == DequeueOutcome::Closed && final(self).queue@ == old(self).queue@
            } else if old(self).queue@.len() > 0 {
                &&& r matches DequeueOutcome::Packet(next)
                &&& next.packet == old(self).queue@[0]
                &&& final(self).queue@ == old(self).queue@.drop_first()
                &&& next.newer_keyframe_queued == has_keyframe(old(self).queue@.drop_first())
            } else {
                &&& final(self).queue@ == old(self).queue@
                &&& r == (if old(self).closed {
                    DequeueOutcome::Closed
                } else {
                    DequeueOutcome::Wait
                })
            },
    {
        if self.error.is_some() {
            return DequeueOutcome::Closed;
        }
        match self.queue.pop_front() {
            Some(packet) => {
                assert(self.queue@ =~= old(self).queue@.drop_first());
                let mut newer_keyframe_queued = false;
                let mut i: usize = 0;
                while i < self.queue.len()
                    invariant
                        i <= self.queue@.len(),
                        newer_keyframe_queued == has_keyframe(self.queue@.take(i as int)),
                    decreases self.queue@.len() - i,
                {
                    let ghost queue = self.queue@;
                    if self.queue[i].is_keyframe {
                        newer_keyframe_queued = true;
                        assert(queue.take(i + 1)[i as int].is_keyframe);
                    } else {
                        proof {
                            if has_keyframe(queue.take(i + 1)) {
                                let k = choose|k: int|
                                    0 <= k < queue.take(i + 1).len() && (#[trigger] queue.take(
                                        i + 1,
                                    )[k]).is_keyframe;
                                assert(queue.take(i as int)[k].is_keyframe);
                            }
                            if has_keyframe(queue.take(i as int)) {
                                let k = choose|k: int|
                                    0 <= k < queue.take(i as int).len() && (#[trigger] queue.take(
                                        i as int,
                                    )[k]).is_keyframe;
                                assert(queue.take(i + 1)[k].is_keyframe);
                            }
                        }
                    }
                    i += 1;
                }
                assert(self.queue@.take(i as int) == self.queue@);
                DequeueOutcome::Packet(DequeuedPacket { packet, newer_keyframe_queued })
            },
            None => {
                if self.closed {
                    DequeueOutcome::Closed
                } else {
                    DequeueOutcome::Wait
                }
            },
        }
    }

    /// Says that no more frames come.
    pub fn close(&mut self)
        ensures
            final(self).queue == old(self).queue,
            final(self).closed,
            final(self).error == old(self).error,
    {
        self.closed = true;
    }

    /// Notes what went wrong; what went wrong first stays.
    pub fn fail(&mut self, error: RuntimeError)
        ensures
            final(self).queue == old(self).queue,
            final(self).closed == old(self).closed,
            final(self).error == (match old(self).error {
                Some(first) => Some(first),
                None => Some(error),
            }),
    {
        if self.error.is_none() {
            self.error = Some(error);
        }
    }

    /// What went wrong first, if anything did.
    pub fn shared_error(&self) -> (r: Result<(), RuntimeError>)
        ensures
            match self.error {
                Some(error) => r == Err::<(), RuntimeError>(error),
                None => r is Ok,
            },
    {
        match &self.error {
            Some(error) => Err(error.clone()),
            None => Ok(()),
        }
    }
}

/// A picture that a sink does not take.
#[derive(Debug, PartialEq, Eq)]
pub struct RefusedFrame {
    pub error: RuntimeError,
    pub frame: DecodedFrame,
}

/// What a sink does with a payload: packets are to be sent, the end is to be flushed,
/// and pictures are refused, and handed back.
pub fn accept_payload(pipeline_id: &str, payload: MediaPayload) -> (r: Result<
    Option<EncodedPacket>,
    RefusedFrame,
>)
    ensures
        match payload {
            MediaPayload::EncodedPacket(packet) => r == Ok::<Option<EncodedPacket>, RefusedFrame>(
                Some(packet),
            ),
            MediaPayload::EndOfStream => r == Ok::<Option<EncodedPacket>, RefusedFrame>(None),
            MediaPayload::DecodedFrame(frame) => r matches Err(refused) && refused.frame == frame
                && (refused.error matches RuntimeError::Sink(message) && message@ == "pipeline '"@
                + pipeline_id@
                + "' produced decoded frames but the current WebRTC sink expects packetized encoded video"@),
        },
{
    match payload {
        MediaPayload::EncodedPacket(packet) => Ok(Some(packet)),
        MediaPayload::EndOfStream => Ok(None),
        MediaPayload::DecodedFrame(frame) => {
            let error = RuntimeError::Sink(
                text::join3(
                    "pipeline '",
                    pipeline_id,
                    "' produced decoded frames but the current WebRTC sink expects packetized encoded video",
                ),
            );
            Err(RefusedFrame { error, frame })
        },
    }
}

// ---------------------------------------------------------------------------
// Laws
// ---------------------------------------------------------------------------

/// The oldest frame that is no key frame is found: only key frames stand before it.
pub proof fn only_keyframes_stand_before_the_oldest_delta(queue: Seq<EncodedPacket>)
    ensures
        0 <= oldest_delta(queue) <= queue.len(),
        forall|i: int|
            0 <= i < oldest_delta(queue) ==> (#[trigger] queue[i]).is_keyframe,
        oldest_delta(queue) < queue.len() ==> !queue[oldest_delta(queue)].is_keyframe,
    decreases queue.len(),
{
    if queue.len() > 0 && queue[0].is_keyframe {
        let rest = queue.drop_first();
        only_keyframes_stand_before_the_oldest_delta(rest);
        assert forall|i: int| 0 <= i < oldest_delta(queue) implies (
        #[trigger] queue[i]).is_keyframe by {
            if i > 0 {
                assert(rest[i - 1] == queue[i]);
            }
        }
        if oldest_delta(queue) < queue.len() {
            assert(rest[oldest_delta(rest)] == queue[oldest_delta(queue)]);
        }
    }
}

/// A key frame makes room only where there is nothing but key frames.
pub proof fn keyframes_are_dropped_last(queue: Seq<EncodedPacket>)
    requires
        queue.len() > 0,
    ensures
        0 <= victim(queue) < queue.len(),
        queue[victim(queue)].is_keyframe ==> forall|i: int|
            0 <= i < queue.len() ==> (#[trigger] queue[i]).is_keyframe,
{
    only_keyframes_stand_before_the_oldest_delta(queue);
}

/// The queue never grows beyond its limit.
pub proof fn the_queue_stays_bounded(
    queue: Seq<EncodedPacket>,
    limit: nat,
    policy: DropPolicy,
    packet: EncodedPacket,
)
    requires
        1 <= limit,
        queue.len() <= limit,
    ensures
        queue_after(queue, limit, policy, packet).len() <= limit,
{
    if queue.len() > 0 {
        keyframes_are_dropped_last(queue);
    }
}

/// The frames that a queue hands out when one is brought.
pub open spec fn handed_out(
    queue: Seq<EncodedPacket>,
    limit: nat,
    policy: DropPolicy,
    packet: EncodedPacket,
) -> Seq<EncodedPacket> {
    if queue.len() < limit {
        Seq::empty()
    } else {
        match (policy, dropped_frame(queue)) {
            (DropPolicy::DropOldest, Some(dropped)) => seq![dropped],
            (DropPolicy::DropOldest, None) => Seq::empty(),
            _ => seq![packet],
        }
    }
}

/// No frame gets lost: of those that waited and the one that was brought, all wait
/// afterwards or are handed out.
pub proof fn frames_wait_or_are_handed_out(
    queue: Seq<EncodedPacket>,
    limit: nat,
    policy: DropPolicy,
    packet: EncodedPacket,
)
    ensures
        (queue_after(queue, limit, policy, packet) + handed_out(
            queue,
            limit,
            policy,
            packet,
        )).to_multiset() == queue.push(packet).to_multiset(),
{
    broadcast use vstd::seq_lib::group_to_multiset_ensures;

    let after = queue_after(queue, limit, policy, packet);
    let out = handed_out(queue, limit, policy, packet);
    if queue.len() >= limit && policy == DropPolicy::DropOldest && queue.len() > 0 {
        keyframes_are_dropped_last(queue);
        let gone = queue[victim(queue)];
        assert(after + out =~= queue.remove(victim(queue)).push(packet).push(gone));
        assert(queue.to_multiset().contains(gone)) by {
            assert(queue.contains(gone));
        }
        assert((after + out).to_multiset() =~= queue.push(packet).to_multiset());
    } else if out.len() == 0 {
        assert(after + out =~= queue.push(packet));
    } else {
        assert(after + out =~= queue.push(packet));
    }
}

/// The frames that stay keep their order, and the one that came is the last.
pub proof fn frames_keep_their_order(
    queue: Seq<EncodedPacket>,
    limit: nat,
    packet: EncodedPacket,
    i: int,
)
    requires
        1 <= limit,
        queue.len() == limit,
        0 <= i < limit - 1,
    ensures
        ({
            let after = queue_after(queue, limit, DropPolicy::DropOldest, packet);
            &&& after.len() == limit
            &&& after.last() == packet
            &&& after[i] == (if i < victim(queue) {
                queue[i]
            } else {
                queue[i + 1]
            })
        }),
{
    keyframes_are_dropped_last(queue);
}

/// A queue with room takes every frame at its end, whatever its policy; a full one takes
/// a frame only if it may drop its oldest, and else stays as it is.
pub proof fn queues_with_room_take_every_frame(
    queue: Seq<EncodedPacket>,
    limit: nat,
    policy: DropPolicy,
    packet: EncodedPacket,
)
    ensures
        queue.len() < limit ==> queue_after(queue, limit, policy, packet) == queue.push(packet),
        queue.len() >= limit && policy != DropPolicy::DropOldest ==> queue_after(
            queue,
            limit,
            policy,
            packet,
        ) == queue,
        queue.len() >= limit && queue.len() > 0 ==> queue_after(
            queue,
            limit,
            DropPolicy::DropOldest,
            packet,
        ).len() == queue.len(),
{
    only_keyframes_stand_before_the_oldest_delta(queue);
}

/// The frame that is dropped is the oldest that is no key frame, and the oldest of all
/// where every frame is one.
pub proof fn the_oldest_delta_is_dropped(queue: Seq<EncodedPacket>, at: int)
    requires
        0 <= at < queue.len(),
    ensures
        !queue[at].is_keyframe && (forall|i: int|
            0 <= i < at ==> (#[trigger] queue[i]).is_keyframe) ==> victim(queue) == at,
        (forall|i: int| 0 <= i < queue.len() ==> (#[trigger] queue[i]).is_keyframe) ==> victim(
            queue,
        ) == 0,
        dropped_frame(queue) == Some(queue[victim(queue)]),
{
    only_keyframes_stand_before_the_oldest_delta(queue);
    let oldest = oldest_delta(queue);
    if !queue[at].is_keyframe && forall|i: int|
        0 <= i < at ==> (#[trigger] queue[i]).is_keyframe {
        if oldest < at {
            assert(queue[oldest].is_keyframe);
        }
        if oldest > at {
            assert(queue[at].is_keyframe);
        }
    }
    if forall|i: int| 0 <= i < queue.len() ==> (#[trigger] queue[i]).is_keyframe {
        if oldest < queue.len() {
            assert(queue[oldest].is_keyframe);
        }
    }
}

/// A key frame waits in a queue if and only if it waits in one of its parts.
pub proof fn waiting_keyframes_are_seen(
    front: Seq<EncodedPacket>,
    packet: EncodedPacket,
    back: Seq<EncodedPacket>,
)
    ensures
        !has_keyframe(Seq::empty()),
        has_keyframe(seq![packet]) == packet.is_keyframe,
        has_keyframe(front + back) <==> has_keyframe(front) || has_keyframe(back),
        packet.is_keyframe ==> has_keyframe(front + seq![packet] + back),
{
    assert(seq![packet][0] == packet);
    let both = front + back;
    if has_keyframe(front) {
        let i = choose|i: int| 0 <= i < front.len() && (#[trigger] front[i]).is_keyframe;
        assert(both[i] == front[i]);
    }
    if has_keyframe(back) {
        let i = choose|i: int| 0 <= i < back.len() && (#[trigger] back[i]).is_keyframe;
        assert(both[front.len() + i] == back[i]);
    }
    if has_keyframe(both) {
        let i = choose|i: int| 0 <= i < both.len() && (#[trigger] both[i]).is_keyframe;
        if i < front.len() {
            assert(front[i].is_keyframe);
        } else {
            assert(back[i - front.len()].is_keyframe);
        }
    }
    let whole = front + seq![packet] + back;
    assert(whole[front.len() as int] == packet);
}

/// An open queue with room takes every frame at its end. A full one drops its oldest delta
/// frame, hands the new one back, or makes its bringer wait, as its policy says.
pub proof fn frames_are_queued_by_the_room(
    state: &mut WebRtcSharedState,
    packet: EncodedPacket,
    pipeline_id: &str,
    queue_limit: usize,
    drop_policy: DropPolicy,
    outcome: EnqueueOutcome,
)
    requires
        call_ensures(
            WebRtcSharedState::enqueue,
            (state, packet, pipeline_id, queue_limit, drop_policy),
            outcome,
        ),
        !old(state).closed,
        old(state).error is None,
    ensures
        ({
            let before = old(state).queue@;
            let after = final(state).queue@;
            if before.len() < queue_limit {
                outcome is Queued && after == before.push(packet)
            } else {
                match drop_policy {
                    DropPolicy::Block => outcome == EnqueueOutcome::Wait(packet) && after == before,
                    DropPolicy::DropNewest => outcome == EnqueueOutcome::Dropped(packet) && after
                        == before,
                    DropPolicy::DropOldest => before.len() > 0 ==> {
                        &&& after.len() == before.len()
                        &&& after.last() == packet
                        &&& outcome matches EnqueueOutcome::QueuedAfterDrop(Some(dropped))
                        &&& before.contains(dropped)
                        &&& dropped.is_keyframe ==> forall|i: int|
                            0 <= i < before.len() ==> (#[trigger] before[i]).is_keyframe
                    },
                }
            }
        }),
{
    let queue = old(state).queue@;
    queues_with_room_take_every_frame(queue, queue_limit as nat, drop_policy, packet);
    if queue.len() > 0 {
        keyframes_are_dropped_last(queue);
    }
}

/// Frames leave a queue in the order in which they came, and each is told whether a key
/// frame waits behind it.
pub proof fn frames_leave_in_their_order(
    state: &mut WebRtcSharedState,
    first: EncodedPacket,
    rest: Seq<EncodedPacket>,
    outcome: DequeueOutcome,
)
    requires
        call_ensures(WebRtcSharedState::dequeue, (state,), outcome),
        old(state).error is None,
        old(state).queue@ == seq![first] + rest,
    ensures
        outcome matches DequeueOutcome::Packet(next) && next.packet == first
            && next.newer_keyframe_queued == (exists|i: int|
            0 <= i < rest.len() && (#[trigger] rest[i]).is_keyframe),
        final(state).queue@ == rest,
{
    assert(old(state).queue@.drop_first() == rest);
    assert(old(state).queue@[0] == first);
}

/// A sink sends packets, ends with the media, and refuses pictures.
pub proof fn only_packets_are_sent(
    pipeline_id: &str,
    payload: MediaPayload,
    r: Result<Option<EncodedPacket>, RefusedFrame>,
)
    requires
        call_ensures(accept_payload, (pipeline_id, payload), r),
    ensures
        payload matches MediaPayload::EncodedPacket(packet) ==> r == Ok::<
            Option<EncodedPacket>,
            RefusedFrame,
        >(Some(packet)),
        payload is EndOfStream ==> r == Ok::<Option<EncodedPacket>, RefusedFrame>(None),
        payload is DecodedFrame <==> r is Err,
{
}

} // verus!
