//! The loop of a running pipeline: media is taken from the source, sent through the
//! transforms in their order, and given to the sink.

use vstd::prelude::*;

use crate::error::RuntimeError;
use crate::runtime::media::{self, MediaPayload};
use crate::runtime::supervisor::{self, ExitText, PipelineLoopExit};
use crate::text;
use crate::time::{self, Duration};

verus! {

/// What a running pipeline is told.
#[derive(Debug, PartialEq, Eq)]
pub enum LoopEvent {
    /// The pipeline is not wanted any more.
    Cancelled,
    /// The source gave nothing for too long.
    TimedOut,
    /// The source gave a payload: how many bytes it holds, if it holds any, and whether
    /// the stream ends with it.
    Received { bytes: Option<usize>, end_of_stream: bool },
    /// A transform has handed its payload on.
    Transformed,
    /// The sink has taken its payload.
    Consumed,
    /// The source, a transform or the sink has failed.
    Failed(RuntimeError),
}

/// What is to be done next.
#[derive(Debug, PartialEq, Eq)]
pub enum LoopAction {
    /// Ask the source for a payload.
    Poll,
    /// Send the payload through the transform with this number.
    Transform(usize),
    /// Give the payload to the sink.
    Deliver,
    /// Stop.
    Exit(PipelineLoopExit),
}

/// What an action says, with its texts as characters.
pub enum LoopActionText {
    Poll,
    Transform(nat),
    Deliver,
    Exit(ExitText),
}

impl View for LoopAction {
    type V = LoopActionText;

    open spec fn view(&self) -> LoopActionText {
        match self {
            LoopAction::Poll => LoopActionText::Poll,
            LoopAction::Transform(index) => LoopActionText::Transform(*index as nat),
            LoopAction::Deliver => LoopActionText::Deliver,
            LoopAction::Exit(exit) => LoopActionText::Exit(exit@),
        }
    }
}

/// What the loop makes of an event.
#[derive(Debug, PartialEq, Eq)]
pub struct LoopStep {
    /// The number of bytes that came in, for the metrics.
    pub throughput: Option<usize>,
    /// The text of a fault, for the metrics.
    pub stream_error: Option<String>,
    /// What is to be done next.
    pub action: LoopAction,
}

/// Where the payload of a running pipeline is: with the source, with the transform of
/// the given number, or with the sink, whose number is that of the transforms.
#[derive(Debug, Clone, Copy, PartialEq, Eq)]
pub struct PipelineLoop {
    pub transforms: usize,
    /// How many transforms the payload has been handed to.
    pub handed_on: usize,
}

/// The text of a stall, given how the time is written.
pub open spec fn stall_text(waited: Seq<char>) -> Seq<char> {
    "no media received within "@ + waited
}

/// Where a payload goes that has passed the given number of transforms.
pub open spec fn next_stop(transforms: nat, passed: nat) -> LoopActionText {
    if passed < transforms {
        LoopActionText::Transform(passed)
    } else {
        LoopActionText::Deliver
    }
}

/// What is done after an event; `passed` is the number of transforms that the payload
/// has passed, and `waited` how the time limit is written.
pub open spec fn action_after(
    transforms: nat,
    passed: nat,
    event: LoopEvent,
    waited: Seq<char>,
) -> LoopActionText {
    match event {
        LoopEvent::Cancelled => LoopActionText::Exit(ExitText::Cancelled),
        LoopEvent::TimedOut => LoopActionText::Exit(ExitText::Recoverable(stall_text(waited))),
        LoopEvent::Received { end_of_stream, .. } => if end_of_stream {
            LoopActionText::Exit(ExitText::EndOfStream)
        } else {
            next_stop(transforms, 0)
        },
        LoopEvent::Transformed => next_stop(transforms, passed + 1),
        LoopEvent::Consumed => LoopActionText::Poll,
        LoopEvent::Failed(error) => LoopActionText::Exit(supervisor::exit_from_error(error)),
    }
}

/// How many transforms the payload has passed after an event.
pub open spec fn passed_after(passed: nat, event: LoopEvent) -> nat {
    match event {
        LoopEvent::Received { .. } => 0,
        LoopEvent::Transformed => passed + 1,
        _ => passed,
    }
}

/// Describes a payload that the source gave.
pub fn received(payload: &MediaPayload) -> (r: LoopEvent)
    ensures
        match media::payload_bytes(*payload) {
            Some(bytes) => r == (LoopEvent::Received {
                bytes: Some(bytes.len() as usize),
                end_of_stream: false,
            }) && bytes.len() <= usize::MAX,
            None => r == (LoopEvent::Received { bytes: None, end_of_stream: true }),
        },
{
    match payload.data() {
        Some(bytes) => LoopEvent::Received { bytes: Some(bytes.len()), end_of_stream: false },
        None => LoopEvent::Received { bytes: None, end_of_stream: true },
    }
}

/// The exit of a pipeline that got nothing for too long, given how the time is written.
pub fn stalled_exit(waited: &str) -> (r: PipelineLoopExit)
    ensures
        r@ == ExitText::Recoverable(stall_text(waited@)),
{
    PipelineLoopExit::Recoverable(text::join2("no media received within ", waited))
}

impl PipelineLoop {
    /// A loop that waits for its first payload.
    pub fn new(transforms: usize) -> (r: Self)
        ensures
            r.transforms == transforms,
            r.handed_on == 0,
    {
        PipelineLoop { transforms, handed_on: 0 }
    }

    fn next_action(&self) -> (r: LoopAction)
        ensures
            r@ == next_stop(self.transforms as nat, self.handed_on as nat),
    {
        if self.handed_on < self.transforms {
            LoopAction::Transform(self.handed_on)
        } else {
            LoopAction::Deliver
        }
    }

    /// Decides what an event leads to; `watchdog_timeout` is the time limit of the
    /// source.
    pub fn step(&mut self, event: LoopEvent, watchdog_timeout: Duration) -> (r: LoopStep)
        requires
            event is Transformed ==> old(self).handed_on < usize::MAX,
        ensures
            final(self).transforms == old(self).transforms,
            final(self).handed_on == passed_after(old(self).handed_on as nat, event),
            r.action@ == action_after(
                old(self).transforms as nat,
                old(self).handed_on as nat,
                event,
                time::human_form(watchdog_timeout@),
            ),
            r.throughput == (match event {
                LoopEvent::Received { bytes, .. } => bytes,
                _ => None,
            }),
            crate::frontend::text_of(r.stream_error) == (match event {
                LoopEvent::Failed(error) => Some(error.text()),
                _ => None,
            }),
    {
        match event {
            LoopEvent::Cancelled => LoopStep {
                throughput: None,
                stream_error: None,
                action: LoopAction::Exit(PipelineLoopExit::Cancelled),
            },
            LoopEvent::TimedOut => LoopStep {
                throughput: None,
                stream_error: None,
                action: LoopAction::Exit(stalled_exit(watchdog_timeout.to_human_form().as_str())),
            },
            LoopEvent::Received { bytes, end_of_stream } => {
                self.handed_on = 0;
                let action = if end_of_stream {
                    LoopAction::Exit(PipelineLoopExit::EndOfStream)
                } else {
                    self.next_action()
                };
                LoopStep { throughput: bytes, stream_error: None, action }
            },
            LoopEvent::Transformed => {
                self.handed_on = self.handed_on + 1;
                LoopStep { throughput: None, stream_error: None, action: self.next_action() }
            },
            LoopEvent::Consumed => LoopStep {
                throughput: None,
                stream_error: None,
                action: LoopAction::Poll,
            },
            LoopEvent::Failed(error) => {
                let message = error.to_string();
                LoopStep {
                    throughput: None,
                    stream_error: Some(message),
                    action: LoopAction::Exit(supervisor::pipeline_exit_from_error(error)),
                }
            },
        }
    }
}

// ---------------------------------------------------------------------------
// Laws
// ---------------------------------------------------------------------------

/// Where a payload goes from an action on, if every transform hands it on; `passed` is
/// the number of transforms that it has passed.
pub open spec fn route(transforms: nat, passed: nat, action: LoopActionText) -> Seq<LoopActionText>
    decreases transforms - passed,
{
    if action is Transform && passed < transforms {
        seq![action] + route(
            transforms,
            passed_after(passed, LoopEvent::Transformed),
            action_after(transforms, passed, LoopEvent::Transformed, Seq::empty()),
        )
    } else {
        seq![action]
    }
}

/// The transforms from a number on, in their order, and then the sink.
pub open spec fn stops_from(transforms: nat, first: nat) -> Seq<LoopActionText> {
    Seq::new(
        (transforms - first) as nat,
        |i: int| LoopActionText::Transform((first + i) as nat),
    ).push(LoopActionText::Deliver)
}

proof fn lemma_route_passes_the_rest(transforms: nat, passed: nat)
    requires
        passed <= transforms,
    ensures
        route(transforms, passed, next_stop(transforms, passed)) == stops_from(transforms, passed),
    decreases transforms - passed,
{
    if passed < transforms {
        lemma_route_passes_the_rest(transforms, passed + 1);
        assert(seq![LoopActionText::Transform(passed)] + stops_from(transforms, passed + 1)
            =~= stops_from(transforms, passed));
    } else {
        assert(seq![LoopActionText::Deliver] =~= stops_from(transforms, passed));
    }
}

/// Every payload that the source gives passes all transforms, once each and in their
/// order, before the sink gets it.
pub proof fn payloads_pass_all_transforms(
    transforms: nat,
    passed: nat,
    bytes: Option<usize>,
    waited: Seq<char>,
)
    ensures
        ({
            let event = LoopEvent::Received { bytes, end_of_stream: false };
            route(
                transforms,
                passed_after(passed, event),
                action_after(transforms, passed, event, waited),
            ) == stops_from(transforms, 0)
        }),
{
    lemma_route_passes_the_rest(transforms, 0);
}

/// The source is asked again only when the sink has taken what it gave.
pub proof fn the_source_waits_for_the_sink(
    transforms: nat,
    passed: nat,
    event: LoopEvent,
    waited: Seq<char>,
)
    ensures
        action_after(transforms, passed, event, waited) == LoopActionText::Poll <==> event
            == LoopEvent::Consumed,
{
}

/// The loop ends on exactly four events: it is cancelled, the source stalls, the stream
/// ends, or a stage fails.
pub proof fn the_loop_ends_only_for_a_reason(
    transforms: nat,
    passed: nat,
    event: LoopEvent,
    waited: Seq<char>,
)
    ensures
        action_after(transforms, passed, event, waited) is Exit <==> (event is Cancelled
            || event is TimedOut || event is Failed || (event matches LoopEvent::Received {
            end_of_stream,
            ..
        } && end_of_stream)),
{
}

/// A stall can be recovered from.
pub proof fn stalls_are_recoverable(transforms: nat, passed: nat, waited: Seq<char>)
    ensures
        action_after(transforms, passed, LoopEvent::TimedOut, waited) matches LoopActionText::Exit(
            exit,
        ) && exit is Recoverable,
{
}

/// A loop exits the way it was ended: cancelled, at the end of the media, or with the words
/// of the error; a stall says how long was waited.
pub proof fn loops_exit_the_way_they_end(
    transforms: nat,
    passed: nat,
    error: RuntimeError,
    waited: Seq<char>,
    bytes: Option<usize>,
)
    ensures
        action_after(transforms, passed, LoopEvent::Cancelled, waited) == LoopActionText::Exit(
            ExitText::Cancelled,
        ),
        action_after(
            transforms,
            passed,
            (LoopEvent::Received { bytes, end_of_stream: true }),
            waited,
        ) == LoopActionText::Exit(ExitText::EndOfStream),
        action_after(transforms, passed, LoopEvent::TimedOut, waited) == LoopActionText::Exit(
            ExitText::Recoverable("no media received within "@ + waited),
        ),
        error is Recoverable ==> action_after(transforms, passed, LoopEvent::Failed(error), waited)
            == LoopActionText::Exit(ExitText::Recoverable(error.text())),
        !(error is Recoverable) ==> action_after(
            transforms,
            passed,
            LoopEvent::Failed(error),
            waited,
        ) == LoopActionText::Exit(ExitText::Fatal(error.text())),
{
}

/// A payload goes from transform to transform, one by one, and behind the last of them to
/// the sink.
pub proof fn payloads_go_on_one_by_one(transforms: nat, passed: nat, waited: Seq<char>)
    ensures
        passed_after(passed, LoopEvent::Transformed) == passed + 1,
        passed + 1 < transforms ==> action_after(
            transforms,
            passed,
            LoopEvent::Transformed,
            waited,
        ) == LoopActionText::Transform(passed + 1),
        passed + 1 >= transforms ==> action_after(
            transforms,
            passed,
            LoopEvent::Transformed,
            waited,
        ) == LoopActionText::Deliver,
{
}

/// A payload that comes in goes through every transform and then to the sink; the end of
/// the media, a stall, a failure and a cancellation end the loop, and nothing else does.
pub proof fn loops_take_payloads_through(
    running: &mut PipelineLoop,
    event: LoopEvent,
    watchdog_timeout: Duration,
    step: LoopStep,
)
    requires
        event is Transformed ==> old(running).handed_on < usize::MAX,
        call_ensures(PipelineLoop::step, (running, event, watchdog_timeout), step),
    ensures
        step.action@ is Exit <==> (event is Cancelled || event is TimedOut || event is Failed || (
        event matches LoopEvent::Received { end_of_stream, .. } && end_of_stream)),
        step.action@ is Poll <==> event is Consumed,
        event matches LoopEvent::Received { end_of_stream, .. } ==> (!end_of_stream ==> step.action@
            == (if old(running).transforms > 0 {
            LoopActionText::Transform(0)
        } else {
            LoopActionText::Deliver
        })),
        event is Transformed ==> step.action@ == (if old(running).handed_on + 1 < old(
            running,
        ).transforms {
            LoopActionText::Transform((old(running).handed_on + 1) as nat)
        } else {
            LoopActionText::Deliver
        }),
        final(running).transforms == old(running).transforms,
{
}

/// An action says what is to be done.
pub proof fn actions_say_what_is_to_be_done(index: usize, exit: PipelineLoopExit)
    ensures
        LoopAction::Poll@ == LoopActionText::Poll,
        LoopAction::Transform(index)@ == LoopActionText::Transform(index as nat),
        LoopAction::Deliver@ == LoopActionText::Deliver,
        LoopAction::Exit(exit)@ == LoopActionText::Exit(exit@),
{
}

} // verus!
