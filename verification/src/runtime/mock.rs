//! Sources that follow a script, and sinks that record.

use std::collections::VecDeque;
use std::sync::Arc;

use vstd::prelude::*;

use crate::deque;
use crate::error::RuntimeError;
use crate::runtime::media::{EncodedPacket, MediaPayload, MediaStorage};
use crate::runtime::pool::{self, BufferPool};
use crate::string_map::StringMap;
use crate::text;
use crate::time::Duration;

verus! {

/// One step of a script.
#[derive(Debug, Clone, PartialEq, Eq)]
pub enum MockSourceAction {
    /// Give a packet.
    Packet(Vec<u8>),
    /// Wait.
    Sleep(Duration),
    /// Give nothing any more.
    Stall,
    /// Fail in a way that can be recovered from.
    Fail(String),
    /// End the stream.
    EndOfStream,
}

/// A script. What was taken from it stays taken, also over restarts.
#[derive(Debug, PartialEq, Eq)]
pub struct MockSourcePlan {
    pub actions: VecDeque<MockSourceAction>,
}

impl MockSourcePlan {
    pub fn new(actions: Vec<MockSourceAction>) -> (r: Self)
        ensures
            r.actions@ == actions@,
    {
        MockSourcePlan { actions: deque::deque_of(actions) }
    }

    /// Takes the next step; a script that is used up is a fault of the source.
    pub fn next_action(&mut self) -> (r: Result<MockSourceAction, RuntimeError>)
        ensures
            match r {
                Ok(action) => old(self).actions@.len() > 0 && action == old(self).actions@[0]
                    && final(self).actions@ == old(self).actions@.drop_first(),
                Err(error) => old(self).actions@.len() == 0 && final(self).actions@ == old(
                    self,
                ).actions@ && (error matches RuntimeError::Source(message) && message@
                    == "mock source exhausted its scripted actions"@),
            },
    {
        match self.actions.pop_front() {
            Some(action) => {
                assert(self.actions@ =~= old(self).actions@.drop_first());
                Ok(action)
            },
            None => Err(RuntimeError::source("mock source exhausted its scripted actions")),
        }
    }
}

/// What a source does that follows a script.
#[derive(Debug, PartialEq, Eq)]
pub enum MockStep {
    /// It gives this.
    Give(MediaPayload),
    /// It waits, and then takes the next step.
    Sleep(Duration),
    /// It gives nothing any more.
    Stall,
}

/// Whether a payload is what a script gives for some bytes: a delta frame of H.264
/// without a time, in a buffer of a pool.
pub open spec fn is_mock_packet(payload: MediaPayload, bytes: Seq<u8>) -> bool {
    payload matches MediaPayload::EncodedPacket(packet) && {
        &&& packet.codec@ == "h264"@
        &&& packet.timestamp is None
        &&& packet.duration is None
        &&& !packet.is_keyframe
        &&& packet.data is Pooled
        &&& packet.data@ == bytes
    }
}

impl MockSourcePlan {
    /// Takes the next step; packets are put in buffers of the pool.
    pub fn step(&mut self, buffers: &mut BufferPool) -> (r: Result<MockStep, RuntimeError>)
        requires
            old(buffers)@.available > 0 || old(buffers)@.allocated < usize::MAX,
            old(buffers)@.buffer_size <= isize::MAX,
        ensures
            if old(self).actions@.len() == 0 {
                &&& r matches Err(RuntimeError::Source(message))
                &&& message@ == "mock source exhausted its scripted actions"@
                &&& final(self).actions@ == old(self).actions@
                &&& final(buffers)@ == old(buffers)@
            } else {
                &&& final(self).actions@ == old(self).actions@.drop_first()
                &&& final(buffers)@ == (if old(self).actions@[0] is Packet {
                    pool::after_acquire(old(buffers)@)
                } else {
                    old(buffers)@
                })
                &&& match old(self).actions@[0] {
                    MockSourceAction::Packet(bytes) => r matches Ok(MockStep::Give(payload))
                        && is_mock_packet(payload, bytes@),
                    MockSourceAction::Sleep(wait) => r matches Ok(MockStep::Sleep(span)) && span
                        == wait,
                    MockSourceAction::Stall => r matches Ok(MockStep::Stall),
                    MockSourceAction::Fail(text) => r matches Err(
                        RuntimeError::Recoverable(message),
                    ) && message@ == text@,
                    MockSourceAction::EndOfStream => r matches Ok(MockStep::Give(payload))
                        && payload is EndOfStream,
                }
            },
    {
        let action = match self.next_action() {
            Ok(action) => action,
            Err(error) => {
                return Err(error);
            },
        };
        match action {
            MockSourceAction::Packet(bytes) => {
                let mut data = buffers.acquire();
                data.extend_from_slice(bytes.as_slice());
                assert(data@ =~= bytes@);
                Ok(
                    MockStep::Give(
                        MediaPayload::EncodedPacket(
                            EncodedPacket {
                                codec: "h264".to_owned(),
                                timestamp: None,
                                duration: None,
                                is_keyframe: false,
                                data: MediaStorage::Pooled(data.freeze()),
                            },
                        ),
                    ),
                )
            },
            MockSourceAction::Sleep(wait) => Ok(MockStep::Sleep(wait)),
            MockSourceAction::Stall => Ok(MockStep::Stall),
            MockSourceAction::Fail(message) => Err(RuntimeError::Recoverable(message)),
            MockSourceAction::EndOfStream => Ok(MockStep::Give(MediaPayload::EndOfStream)),
        }
    }
}

/// The scripts of the sources of several pipelines, or what stands for them: a script that
/// is shared goes on where it was left.
#[derive(Debug, PartialEq, Eq)]
pub struct MockSourceFactory<P> {
    pub plans: StringMap<P>,
}

impl<P> Default for MockSourceFactory<P> {
    fn default() -> (r: Self)
        ensures
            r.plans@ == Map::<Seq<char>, P>::empty(),
    {
        MockSourceFactory { plans: StringMap::new() }
    }
}

impl<T> Clone for MockSourceFactory<Arc<T>> {
    /// A factory that shares the scripts of this one.
    fn clone(&self) -> (r: Self)
        ensures
            r.plans@ == self.plans@,
    {
        MockSourceFactory { plans: self.plans.clone() }
    }
}

impl<P> MockSourceFactory<P> {
    pub fn new(plans: StringMap<P>) -> (r: Self)
        ensures
            r.plans == plans,
    {
        MockSourceFactory { plans }
    }

    /// The script of the source of a pipeline.
    pub fn plan_for(&self, pipeline_id: &str) -> (r: Result<&P, RuntimeError>)
        ensures
            match r {
                Ok(plan) => self.plans@.dom().contains(pipeline_id@) && *plan
                    == self.plans@[pipeline_id@],
                Err(error) => !self.plans@.dom().contains(pipeline_id@) && (error matches
                    RuntimeError::Adapter(message) && message@ == "missing mock source plan for '"@
                    + pipeline_id@ + "'"@),
            },
    {
        match self.plans.get(pipeline_id) {
            Some(plan) => Ok(plan),
            None => Err(
                RuntimeError::Adapter(
                    text::join3("missing mock source plan for '", pipeline_id, "'"),
                ),
            ),
        }
    }
}

/// The recorders of the sinks of several pipelines.
#[derive(Debug, PartialEq, Eq)]
pub struct MockSinkFactory<R> {
    pub recorders: StringMap<R>,
}

impl<R> Default for MockSinkFactory<R> {
    fn default() -> (r: Self)
        ensures
            r.recorders@ == Map::<Seq<char>, R>::empty(),
    {
        MockSinkFactory { recorders: StringMap::new() }
    }
}

impl<T> Clone for MockSinkFactory<Arc<T>> {
    /// A factory that shares the recorders of this one.
    fn clone(&self) -> (r: Self)
        ensures
            r.recorders@ == self.recorders@,
    {
        MockSinkFactory { recorders: self.recorders.clone() }
    }
}

impl<R> MockSinkFactory<R> {
    pub fn new(recorders: StringMap<R>) -> (r: Self)
        ensures
            r.recorders == recorders,
    {
        MockSinkFactory { recorders }
    }

    /// The recorder of the sink of a pipeline.
    pub fn recorder_for(&self, pipeline_id: &str) -> (r: Result<&R, RuntimeError>)
        ensures
            match r {
                Ok(recorder) => self.recorders@.dom().contains(pipeline_id@) && *recorder
                    == self.recorders@[pipeline_id@],
                Err(error) => !self.recorders@.dom().contains(pipeline_id@) && (error matches
                    RuntimeError::Adapter(message) && message@
                    == "missing mock sink recorder for '"@ + pipeline_id@ + "'"@),
            },
    {
        match self.recorders.get(pipeline_id) {
            Some(recorder) => Ok(recorder),
            None => Err(
                RuntimeError::Adapter(
                    text::join3("missing mock sink recorder for '", pipeline_id, "'"),
                ),
            ),
        }
    }
}

} // verus!
