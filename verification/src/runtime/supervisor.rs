//! The task that keeps a pipeline running: when it is built, restarted, and given up.

use vstd::prelude::*;

use crate::compiler::{CompiledPipeline, RecoveryClass, RecoveryPolicy};
use crate::error::RuntimeError;
use crate::runtime::status::{self, EventText, RuntimeEvent, TaskStatus};
use crate::text;
use crate::time::Duration;

verus! {

/// Why a pipeline has stopped running.
#[derive(Debug, PartialEq, Eq)]
pub enum PipelineLoopExit {
    Cancelled,
    EndOfStream,
    Recoverable(String),
    Fatal(String),
}

/// What an exit says, with its text as characters.
pub enum ExitText {
    Cancelled,
    EndOfStream,
    Recoverable(Seq<char>),
    Fatal(Seq<char>),
}

impl View for PipelineLoopExit {
    type V = ExitText;

    open spec fn view(&self) -> ExitText {
        match self {
            PipelineLoopExit::Cancelled => ExitText::Cancelled,
            PipelineLoopExit::EndOfStream => ExitText::EndOfStream,
            PipelineLoopExit::Recoverable(message) => ExitText::Recoverable(message@),
            PipelineLoopExit::Fatal(message) => ExitText::Fatal(message@),
        }
    }
}

/// How an error ends the run of a pipeline.
pub open spec fn exit_from_error(error: RuntimeError) -> ExitText {
    if error is Recoverable {
        ExitText::Recoverable(error.text())
    } else {
        ExitText::Fatal(error.text())
    }
}

/// How an error ends the run of a pipeline.
pub fn pipeline_exit_from_error(error: RuntimeError) -> (r: PipelineLoopExit)
    ensures
        r@ == exit_from_error(error),
{
    let message = error.to_string();
    if error.is_recoverable() {
        PipelineLoopExit::Recoverable(message)
    } else {
        PipelineLoopExit::Fatal(message)
    }
}

// ---------------------------------------------------------------------------
// The wait before a restart
// ---------------------------------------------------------------------------

/// The wait before a restart: the scaled wait, cut off where the policy ends it.
pub open spec fn backoff_nanos(policy: RecoveryPolicy, scaled: nat) -> nat {
    if scaled <= policy.max_backoff@ {
        scaled
    } else {
        policy.max_backoff@
    }
}

/// The wait before a restart, given the first wait as the multiplier has scaled it.
pub fn restart_backoff(policy: &RecoveryPolicy, scaled: Duration) -> (r: Duration)
    ensures
        r@ == backoff_nanos(*policy, scaled@),
{
    scaled.shorter(policy.max_backoff)
}

// ---------------------------------------------------------------------------
// Supervision
// ---------------------------------------------------------------------------

/// What a supervisor is told.
#[derive(Debug, PartialEq, Eq)]
pub enum SupervisorEvent {
    /// Nothing stands in the way of building the pipeline.
    Ready,
    /// The pipeline is not wanted any more.
    Cancelled,
    /// The pipeline was built.
    Built,
    /// The pipeline could not be built.
    BuildFailed(RuntimeError),
    /// The pipeline has stopped running, after it ran for some time.
    Exited { exit: PipelineLoopExit, ran_for: Duration },
    /// This is the first wait, as the multiplier has scaled it.
    Scaled(Duration),
}

/// What is to be done next.
#[derive(Debug, Clone, Copy, PartialEq, Eq)]
pub enum SupervisorAction {
    /// Build the pipeline.
    Build,
    /// Run what was built.
    Run,
    /// Scale the first wait of the policy: multiply it by this power of the multiplier.
    Scale { exponent: u32 },
    /// Wait before the next build.
    Wait(Duration),
    /// Nothing more.
    Finish,
}

/// What a supervisor makes of an event.
#[derive(Debug, PartialEq, Eq)]
pub struct SupervisorStep {
    /// What is to be reported, in this order.
    pub events: Vec<RuntimeEvent>,
    /// The reason of a restart, for the metrics.
    pub restart_reason: Option<String>,
    /// What is to be done next.
    pub action: SupervisorAction,
}

/// The supervisor of one pipeline: the number of restarts since the pipeline last ran
/// for long enough.
#[derive(Debug, Clone, Copy, PartialEq, Eq)]
pub struct Supervisor {
    pub attempts: u32,
}

/// The name of a class of faults.
pub open spec fn class_text(class: RecoveryClass) -> Seq<char> {
    match class {
        RecoveryClass::Network => "Network"@,
        RecoveryClass::Device => "Device"@,
        RecoveryClass::Hardware => "Hardware"@,
    }
}

/// The name of a class of faults.
pub fn class_name(class: RecoveryClass) -> (r: &'static str)
    ensures
        r@ == class_text(class),
{
    match class {
        RecoveryClass::Network => "Network",
        RecoveryClass::Device => "Device",
        RecoveryClass::Hardware => "Hardware",
    }
}

/// The number of restarts that count against a pipeline after it ran for some time.
pub open spec fn counted_attempts(policy: RecoveryPolicy, attempts: u32, ran_for: nat) -> u32 {
    if ran_for >= policy.reset_after@ {
        0
    } else {
        attempts
    }
}

/// Whether a pipeline is restarted once more.
pub open spec fn may_restart(policy: RecoveryPolicy, attempts: u32, ran_for: nat) -> bool {
    counted_attempts(policy, attempts, ran_for) < policy.max_restarts
}

/// The count of restarts after an event.
pub open spec fn attempts_after(
    policy: RecoveryPolicy,
    attempts: u32,
    event: SupervisorEvent,
) -> u32 {
    match event {
        SupervisorEvent::Exited { exit: PipelineLoopExit::Recoverable(_), ran_for } => {
            let counted = counted_attempts(policy, attempts, ran_for@);
            if counted < policy.max_restarts {
                (counted + 1) as u32
            } else {
                counted
            }
        },
        _ => attempts,
    }
}

/// What is reported after an event.
pub open spec fn events_after(
    pipeline: CompiledPipeline,
    attempts: u32,
    event: SupervisorEvent,
) -> Seq<EventText> {
    let id = pipeline.id@;
    match event {
        SupervisorEvent::Ready => Seq::empty(),
        SupervisorEvent::Scaled(_) => Seq::empty(),
        SupervisorEvent::Cancelled => seq![status::status_event(id, TaskStatus::Stopped, None)],
        SupervisorEvent::Built => seq![
            status::status_event(id, TaskStatus::Running, None),
            EventText::BackendStarted {
                pipeline_id: id,
                codec_path: status::codec_path_text(pipeline.codec_path),
                backend_name: status::backend_text(pipeline.resolved_backend),
            },
        ],
        SupervisorEvent::BuildFailed(error) => seq![
            status::status_event(id, TaskStatus::Failed, Some(error.text())),
        ],
        SupervisorEvent::Exited { exit, ran_for } => match exit@ {
            ExitText::Cancelled => seq![status::status_event(id, TaskStatus::Stopped, None)],
            ExitText::EndOfStream => seq![status::status_event(id, TaskStatus::Stopped, None)],
            ExitText::Fatal(message) => seq![
                status::status_event(id, TaskStatus::Failed, Some(message)),
            ],
            ExitText::Recoverable(message) => if may_restart(
                pipeline.recovery,
                attempts,
                ran_for@,
            ) {
                seq![
                    status::status_event(id, TaskStatus::Stalled, Some(message)),
                    status::status_event(
                        id,
                        TaskStatus::Recovering,
                        Some(
                            "restart attempt "@ + text::decimal(
                                attempts_after(pipeline.recovery, attempts, event) as nat,
                            ),
                        ),
                    ),
                ]
            } else {
                seq![status::status_event(id, TaskStatus::Failed, Some(message))]
            },
        },
    }
}

/// The reason that the metrics are given after an event, if there is a restart.
pub open spec fn restart_reason_after(
    pipeline: CompiledPipeline,
    attempts: u32,
    event: SupervisorEvent,
) -> Option<Seq<char>> {
    match event {
        SupervisorEvent::Exited { exit: PipelineLoopExit::Recoverable(message), ran_for } => {
            if may_restart(pipeline.recovery, attempts, ran_for@) {
                Some(class_text(pipeline.recovery.class) + ": "@ + message@)
            } else {
                None
            }
        },
        _ => None,
    }
}

/// Whether an action is the one to take after an event.
pub open spec fn is_action_after(
    action: SupervisorAction,
    policy: RecoveryPolicy,
    attempts: u32,
    event: SupervisorEvent,
) -> bool {
    match event {
        SupervisorEvent::Ready => action == SupervisorAction::Build,
        SupervisorEvent::Built => action == SupervisorAction::Run,
        SupervisorEvent::Exited { exit: PipelineLoopExit::Recoverable(_), ran_for } => {
            if may_restart(policy, attempts, ran_for@) {
                action == (SupervisorAction::Scale {
                    exponent: counted_attempts(policy, attempts, ran_for@),
                })
            } else {
                action == SupervisorAction::Finish
            }
        },
        SupervisorEvent::Scaled(scaled) => action matches SupervisorAction::Wait(wait) && wait@
            == backoff_nanos(policy, scaled@),
        _ => action == SupervisorAction::Finish,
    }
}

fn report_one(event: RuntimeEvent) -> (r: Vec<RuntimeEvent>)
    ensures
        status::event_texts(r@) == seq![event@],
{
    let mut events: Vec<RuntimeEvent> = Vec::new();
    events.push(event);
    assert(status::event_texts(events@) =~= seq![event@]);
    events
}

fn report_two(first: RuntimeEvent, second: RuntimeEvent) -> (r: Vec<RuntimeEvent>)
    ensures
        status::event_texts(r@) == seq![first@, second@],
{
    let mut events: Vec<RuntimeEvent> = Vec::new();
    events.push(first);
    events.push(second);
    assert(status::event_texts(events@) =~= seq![first@, second@]);
    events
}

impl Supervisor {
    /// A supervisor that has not restarted anything.
    pub fn new() -> (r: Self)
        ensures
            r.attempts == 0,
    {
        Supervisor { attempts: 0 }
    }

    /// Decides what an event leads to.
    pub fn step(&mut self, pipeline: &CompiledPipeline, event: SupervisorEvent) -> (r:
        SupervisorStep)
        ensures
            final(self).attempts == attempts_after(
                pipeline.recovery,
                old(self).attempts,
                event,
            ),
            status::event_texts(r.events@) == events_after(
                *pipeline,
                old(self).attempts,
                event,
            ),
            crate::frontend::text_of(r.restart_reason) == restart_reason_after(
                *pipeline,
                old(self).attempts,
                event,
            ),
            is_action_after(r.action, pipeline.recovery, old(self).attempts, event),
    {
        let id = pipeline.id.as_str();
        match event {
            SupervisorEvent::Ready => {
                let events: Vec<RuntimeEvent> = Vec::new();
                assert(status::event_texts(events@) =~= Seq::<EventText>::empty());
                SupervisorStep { events, restart_reason: None, action: SupervisorAction::Build }
            },
            SupervisorEvent::Scaled(scaled) => {
                let events: Vec<RuntimeEvent> = Vec::new();
                assert(status::event_texts(events@) =~= Seq::<EventText>::empty());
                SupervisorStep {
                    events,
                    restart_reason: None,
                    action: SupervisorAction::Wait(restart_backoff(&pipeline.recovery, scaled)),
                }
            },
            SupervisorEvent::Cancelled => SupervisorStep {
                events: report_one(status::status_changed(id, TaskStatus::Stopped, None)),
                restart_reason: None,
                action: SupervisorAction::Finish,
            },
            SupervisorEvent::Built => SupervisorStep {
                events: report_two(
                    status::status_changed(id, TaskStatus::Running, None),
                    status::backend_started(pipeline),
                ),
                restart_reason: None,
                action: SupervisorAction::Run,
            },
            SupervisorEvent::BuildFailed(error) => SupervisorStep {
                events: report_one(
                    status::status_changed(id, TaskStatus::Failed, Some(error.to_string())),
                ),
                restart_reason: None,
                action: SupervisorAction::Finish,
            },
            SupervisorEvent::Exited { exit, ran_for } => match exit {
                PipelineLoopExit::Cancelled => SupervisorStep {
                    events: report_one(status::status_changed(id, TaskStatus::Stopped, None)),
                    restart_reason: None,
                    action: SupervisorAction::Finish,
                },
                PipelineLoopExit::EndOfStream => SupervisorStep {
                    events: report_one(status::status_changed(id, TaskStatus::Stopped, None)),
                    restart_reason: None,
                    action: SupervisorAction::Finish,
                },
                PipelineLoopExit::Fatal(message) => SupervisorStep {
                    events: report_one(
                        status::status_changed(id, TaskStatus::Failed, Some(message)),
                    ),
                    restart_reason: None,
                    action: SupervisorAction::Finish,
                },
                PipelineLoopExit::Recoverable(message) => self.recover(
                    pipeline,
                    message,
                    ran_for,
                ),
            },
        }
    }

    /// Decides what a recoverable fault leads to.
    fn recover(&mut self, pipeline: &CompiledPipeline, message: String, ran_for: Duration) -> (r:
        SupervisorStep)
        ensures
            ({
                let event = SupervisorEvent::Exited {
                    exit: PipelineLoopExit::Recoverable(message),
                    ran_for,
                };
                &&& final(self).attempts == attempts_after(
                    pipeline.recovery,
                    old(self).attempts,
                    event,
                )
                &&& status::event_texts(r.events@) == events_after(
                    *pipeline,
                    old(self).attempts,
                    event,
                )
                &&& crate::frontend::text_of(r.restart_reason) == restart_reason_after(
                    *pipeline,
                    old(self).attempts,
                    event,
                )
                &&& is_action_after(r.action, pipeline.recovery, old(self).attempts, event)
            }),
    {
        let id = pipeline.id.as_str();
        if !pipeline.recovery.reset_after.exceeds(&ran_for) {
            self.attempts = 0;
        }
        if self.attempts < pipeline.recovery.max_restarts {
            let exponent: u32 = self.attempts;
            self.attempts = self.attempts + 1;
            let note = text::join2(
                "restart attempt ",
                text::decimal_string(self.attempts as u64).as_str(),
            );
            let reason = text::join3(
                class_name(pipeline.recovery.class),
                ": ",
                message.as_str(),
            );
            SupervisorStep {
                events: report_two(
                    status::status_changed(id, TaskStatus::Stalled, Some(message)),
                    status::status_changed(id, TaskStatus::Recovering, Some(note)),
                ),
                restart_reason: Some(reason),
                action: SupervisorAction::Scale { exponent },
            }
        } else {
            SupervisorStep {
                events: report_one(status::status_changed(id, TaskStatus::Failed, Some(message))),
                restart_reason: None,
                action: SupervisorAction::Finish,
            }
        }
    }
}

// ---------------------------------------------------------------------------
// Laws
// ---------------------------------------------------------------------------

/// No wait is longer than the policy allows, and one that is not is waited in full.
pub proof fn waits_are_bounded(policy: RecoveryPolicy, scaled: nat)
    ensures
        backoff_nanos(policy, scaled) <= policy.max_backoff@,
        scaled <= policy.max_backoff@ ==> backoff_nanos(policy, scaled) == scaled,
{
}

/// A first wait that is scaled further is never waited for shorter.
pub proof fn waits_never_get_shorter(policy: RecoveryPolicy, earlier: nat, later: nat)
    requires
        earlier <= later,
    ensures
        backoff_nanos(policy, earlier) <= backoff_nanos(policy, later),
{
}

/// A pipeline is never restarted more often in a row than its policy allows.
pub proof fn restarts_are_bounded(policy: RecoveryPolicy, attempts: u32, event: SupervisorEvent)
    requires
        attempts <= policy.max_restarts,
    ensures
        attempts_after(policy, attempts, event) <= policy.max_restarts,
{
}

/// A restart counts as one more, unless the pipeline ran for long enough before; then
/// the count starts again.
pub proof fn restarts_are_counted(
    policy: RecoveryPolicy,
    attempts: u32,
    message: String,
    ran_for: Duration,
)
    requires
        may_restart(policy, attempts, ran_for@),
    ensures
        ({
            let event = SupervisorEvent::Exited {
                exit: PipelineLoopExit::Recoverable(message),
                ran_for,
            };
            &&& ran_for@ >= policy.reset_after@ ==> attempts_after(policy, attempts, event) == 1
            &&& ran_for@ < policy.reset_after@ ==> attempts_after(policy, attempts, event)
                == attempts + 1
        }),
{
}

/// A supervisor that finishes has reported, last of all, that the pipeline is stopped
/// or has failed.
pub proof fn finishing_is_reported(
    pipeline: CompiledPipeline,
    attempts: u32,
    event: SupervisorEvent,
    action: SupervisorAction,
)
    requires
        is_action_after(action, pipeline.recovery, attempts, event),
        action == SupervisorAction::Finish,
    ensures
        events_after(pipeline, attempts, event).len() > 0,
        events_after(pipeline, attempts, event).last() matches EventText::StatusChanged {
            pipeline_id,
            status,
            ..
        } && pipeline_id == pipeline.id@ && (status == TaskStatus::Stopped || status
            == TaskStatus::Failed),
{
}

/// A fault that cannot be recovered from is final: nothing is restarted after it.
pub proof fn fatal_faults_are_final(
    pipeline: CompiledPipeline,
    attempts: u32,
    error: RuntimeError,
    exit: PipelineLoopExit,
    ran_for: Duration,
    action: SupervisorAction,
)
    requires
        !(error is Recoverable),
        exit@ == exit_from_error(error),
        is_action_after(
            action,
            pipeline.recovery,
            attempts,
            SupervisorEvent::Exited { exit, ran_for },
        ),
    ensures
        action == SupervisorAction::Finish,
        attempts_after(
            pipeline.recovery,
            attempts,
            SupervisorEvent::Exited { exit, ran_for },
        ) == attempts,
        events_after(pipeline, attempts, SupervisorEvent::Exited { exit, ran_for }) == seq![
            status::status_event(pipeline.id@, TaskStatus::Failed, Some(error.text())),
        ],
{
}

/// The count of restarts after a row of events.
pub open spec fn attempts_after_all(
    policy: RecoveryPolicy,
    attempts: u32,
    events: Seq<SupervisorEvent>,
) -> u32
    decreases events.len(),
{
    if events.len() == 0 {
        attempts
    } else {
        attempts_after(
            policy,
            attempts_after_all(policy, attempts, events.drop_last()),
            events.last(),
        )
    }
}

/// Whether an event is a fault that can be recovered from, before the pipeline ran for
/// long enough.
pub open spec fn is_quick_fault(policy: RecoveryPolicy, event: SupervisorEvent) -> bool {
    event matches SupervisorEvent::Exited { exit, ran_for } && exit is Recoverable && ran_for@
        < policy.reset_after@
}

/// Quick faults in a row use up the restarts one by one: each is answered by a wait, for
/// which the multiplier is applied once more than for the one before, until as many have
/// come as the policy allows, and the next one by giving up.
pub proof fn quick_faults_use_up_the_restarts(
    policy: RecoveryPolicy,
    faults: Seq<SupervisorEvent>,
    next: SupervisorEvent,
    action: SupervisorAction,
)
    requires
        forall|i: int| 0 <= i < faults.len() ==> is_quick_fault(policy, #[trigger] faults[i]),
        is_quick_fault(policy, next),
        is_action_after(action, policy, attempts_after_all(policy, 0, faults), next),
    ensures
        attempts_after_all(policy, 0, faults) == (if faults.len() <= policy.max_restarts {
            faults.len()
        } else {
            policy.max_restarts as nat
        }),
        action == (if faults.len() < policy.max_restarts {
            SupervisorAction::Scale { exponent: faults.len() as u32 }
        } else {
            SupervisorAction::Finish
        }),
{
    lemma_quick_faults_count(policy, faults);
}

proof fn lemma_quick_faults_count(policy: RecoveryPolicy, faults: Seq<SupervisorEvent>)
    requires
        forall|i: int| 0 <= i < faults.len() ==> is_quick_fault(policy, #[trigger] faults[i]),
    ensures
        attempts_after_all(policy, 0, faults) == (if faults.len() <= policy.max_restarts {
            faults.len()
        } else {
            policy.max_restarts as nat
        }),
    decreases faults.len(),
{
    if faults.len() > 0 {
        let before = faults.drop_last();
        assert forall|i: int| 0 <= i < before.len() implies is_quick_fault(
            policy,
            #[trigger] before[i],
        ) by {
            assert(before[i] == faults[i]);
        }
        lemma_quick_faults_count(policy, before);
        assert(is_quick_fault(policy, faults[faults.len() - 1]));
    }
}

/// Once the restarts are used up, the next fault is final, unless the pipeline ran for
/// long enough before.
pub proof fn used_up_restarts_are_final(
    pipeline: CompiledPipeline,
    attempts: u32,
    message: String,
    ran_for: Duration,
    action: SupervisorAction,
)
    requires
        attempts >= pipeline.recovery.max_restarts,
        ran_for@ < pipeline.recovery.reset_after@,
        is_action_after(
            action,
            pipeline.recovery,
            attempts,
            (SupervisorEvent::Exited {
                exit: PipelineLoopExit::Recoverable(message),
                ran_for,
            }),
        ),
    ensures
        action == SupervisorAction::Finish,
{
}

/// An error ends a run for good unless it is recoverable, and in its own words.
pub proof fn exits_follow_the_error(error: RuntimeError)
    ensures
        error is Recoverable ==> exit_from_error(error) == ExitText::Recoverable(error.text()),
        !(error is Recoverable) ==> exit_from_error(error) == ExitText::Fatal(error.text()),
{
}

/// A fault that a pipeline can recover from, soon after it was started, is answered by a
/// restart as long as there are some left: the pipeline is reported stalled and then
/// recovering, the wait grows with the restarts before, and one more is counted.
pub proof fn quick_faults_are_answered_by_restarts(
    pipeline: CompiledPipeline,
    attempts: u32,
    message: String,
    ran_for: Duration,
    action: SupervisorAction,
)
    requires
        attempts < pipeline.recovery.max_restarts,
        ran_for@ < pipeline.recovery.reset_after@,
        is_action_after(
            action,
            pipeline.recovery,
            attempts,
            (SupervisorEvent::Exited { exit: PipelineLoopExit::Recoverable(message), ran_for }),
        ),
    ensures
        ({
            let event = SupervisorEvent::Exited {
                exit: PipelineLoopExit::Recoverable(message),
                ran_for,
            };
            let events = events_after(pipeline, attempts, event);
            &&& action == (SupervisorAction::Scale { exponent: attempts })
            &&& attempts_after(pipeline.recovery, attempts, event) == attempts + 1
            &&& events.len() == 2
            &&& events[0] == (EventText::StatusChanged {
                pipeline_id: pipeline.id@,
                status: TaskStatus::Stalled,
                message: Some(message@),
            })
            &&& events[1] == (EventText::StatusChanged {
                pipeline_id: pipeline.id@,
                status: TaskStatus::Recovering,
                message: Some("restart attempt "@ + text::decimal((attempts + 1) as nat)),
            })
            &&& restart_reason_after(pipeline, attempts, event) matches Some(reason)
                && text::has_suffix(reason, ": "@ + message@)
        }),
{
    text::parts_of_a_text_are_found(
        class_text(pipeline.recovery.class),
        ": "@ + message@,
        Seq::empty(),
    );
    assert(class_text(pipeline.recovery.class) + ": "@ + message@ == class_text(
        pipeline.recovery.class,
    ) + (": "@ + message@));
}

/// A fault after a run that was long enough is answered as the first one, whatever was
/// counted before.
pub proof fn long_runs_start_afresh(
    pipeline: CompiledPipeline,
    attempts: u32,
    message: String,
    ran_for: Duration,
    action: SupervisorAction,
)
    requires
        pipeline.recovery.max_restarts > 0,
        ran_for@ >= pipeline.recovery.reset_after@,
        is_action_after(
            action,
            pipeline.recovery,
            attempts,
            (SupervisorEvent::Exited { exit: PipelineLoopExit::Recoverable(message), ran_for }),
        ),
    ensures
        action == (SupervisorAction::Scale { exponent: 0 }),
        attempts_after(
            pipeline.recovery,
            attempts,
            (SupervisorEvent::Exited { exit: PipelineLoopExit::Recoverable(message), ran_for }),
        ) == 1,
{
}

/// What a supervisor does in every other case: it builds what is ready, runs what is built,
/// waits for as long as the policy allows, and stops for good where it was told to, where
/// the media ended, and where a pipeline cannot be built. None of this is a restart.
pub proof fn other_events_are_no_restarts(
    pipeline: CompiledPipeline,
    attempts: u32,
    event: SupervisorEvent,
    action: SupervisorAction,
)
    requires
        is_action_after(action, pipeline.recovery, attempts, event),
        !(event matches SupervisorEvent::Exited { exit: PipelineLoopExit::Recoverable(_), .. }),
    ensures
        attempts_after(pipeline.recovery, attempts, event) == attempts,
        restart_reason_after(pipeline, attempts, event) is None,
        event is Ready ==> action == SupervisorAction::Build && events_after(
            pipeline,
            attempts,
            event,
        ).len() == 0,
        event is Built ==> action == SupervisorAction::Run && events_after(
            pipeline,
            attempts,
            event,
        )[0] == (EventText::StatusChanged {
            pipeline_id: pipeline.id@,
            status: TaskStatus::Running,
            message: None,
        }) && events_after(pipeline, attempts, event)[1] is BackendStarted,
        event matches SupervisorEvent::Scaled(scaled) ==> (action matches SupervisorAction::Wait(
            wait,
        ) && wait@ <= scaled@ && wait@ <= pipeline.recovery.max_backoff@ && (wait@ == scaled@
            || wait@ == pipeline.recovery.max_backoff@)),
        event is Cancelled ==> action == SupervisorAction::Finish && events_after(
            pipeline,
            attempts,
            event,
        ) == seq![
            (EventText::StatusChanged {
                pipeline_id: pipeline.id@,
                status: TaskStatus::Stopped,
                message: None,
            }),
        ],
        event matches SupervisorEvent::BuildFailed(error) ==> action == SupervisorAction::Finish
            && events_after(pipeline, attempts, event) == seq![
            (EventText::StatusChanged {
                pipeline_id: pipeline.id@,
                status: TaskStatus::Failed,
                message: Some(error.text()),
            }),
        ],
        event matches SupervisorEvent::Exited { exit, .. } ==> action == SupervisorAction::Finish
            && (exit@ is Cancelled || exit@ is EndOfStream ==> events_after(
            pipeline,
            attempts,
            event,
        ) == seq![
            (EventText::StatusChanged {
                pipeline_id: pipeline.id@,
                status: TaskStatus::Stopped,
                message: None,
            }),
        ]),
{
}

/// A supervisor answers a fault that a pipeline can recover from by a restart, as long as
/// the policy leaves some, and by giving up otherwise; and any other end by giving up.
pub proof fn supervisors_restart_what_they_may(
    supervisor: &mut Supervisor,
    pipeline: &CompiledPipeline,
    message: String,
    ran_for: Duration,
    step: SupervisorStep,
)
    requires
        call_ensures(
            Supervisor::step,
            (
                supervisor,
                pipeline,
                (SupervisorEvent::Exited { exit: PipelineLoopExit::Recoverable(message), ran_for }),
            ),
            step,
        ),
    ensures
        ({
            let before = if ran_for@ >= pipeline.recovery.reset_after@ {
                0
            } else {
                old(supervisor).attempts
            };
            if before < pipeline.recovery.max_restarts {
                &&& step.action == (SupervisorAction::Scale { exponent: before })
                &&& final(supervisor).attempts == before + 1
                &&& step.events@.len() == 2
                &&& step.restart_reason is Some
            } else {
                &&& step.action == SupervisorAction::Finish
                &&& final(supervisor).attempts == before
                &&& step.events@.len() == 1
                &&& step.restart_reason is None
            }
        }),
{
    let event = SupervisorEvent::Exited { exit: PipelineLoopExit::Recoverable(message), ran_for };
    assert(status::event_texts(step.events@).len() == step.events@.len());
    assert(events_after(*pipeline, old(supervisor).attempts, event).len() == step.events@.len());
}

/// A wait is as long as it was scaled, and never longer than the policy allows.
pub proof fn waits_are_as_scaled(policy: &RecoveryPolicy, scaled: Duration, wait: Duration)
    requires
        call_ensures(restart_backoff, (policy, scaled), wait),
    ensures
        wait@ <= scaled@,
        wait@ <= policy.max_backoff@,
        wait@ == scaled@ || wait@ == policy.max_backoff@,
{
}

/// An exit says how it came about, and an error becomes the exit of its kind.
pub proof fn exits_say_how_they_came_about(
    words: String,
    error: RuntimeError,
    exit: PipelineLoopExit,
)
    requires
        call_ensures(pipeline_exit_from_error, (error,), exit),
    ensures
        PipelineLoopExit::Cancelled@ == ExitText::Cancelled,
        PipelineLoopExit::EndOfStream@ == ExitText::EndOfStream,
        PipelineLoopExit::Recoverable(words)@ == ExitText::Recoverable(words@),
        PipelineLoopExit::Fatal(words)@ == ExitText::Fatal(words@),
        error is Recoverable ==> (exit matches PipelineLoopExit::Recoverable(text) && text@
            == error.text()),
        !(error is Recoverable) ==> (exit matches PipelineLoopExit::Fatal(text) && text@
            == error.text()),
{
}

} // verus!
