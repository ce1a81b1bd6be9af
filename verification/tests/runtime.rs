//! Supervision, the loop of a pipeline, and sources that follow a script.

use std::sync::{Arc, Mutex};

use caml::compiler::{ONE_BITS, TWO_BITS};
use caml::runtime::mock::{
    MockSinkFactory, MockSourceAction, MockSourceFactory, MockSourcePlan, MockStep,
};
use caml::runtime::pipeline_loop::{received, LoopAction, LoopEvent, PipelineLoop};
use caml::runtime::supervisor::{
    pipeline_exit_from_error, restart_backoff, PipelineLoopExit, Supervisor, SupervisorAction,
    SupervisorEvent,
};
use caml::time::Duration;
use caml::{
    BufferPool, CodecPath, CompiledGraph, CompiledPipeline, CompiledSystem, HardwareTarget,
    MediaPayload, Multiplier, RecoveryClass, RecoveryPolicy, ResolvedInputBackend, ResourcePlan,
    RuntimeEngine, RuntimeError, RuntimeEvent, StringMap, TaskStatus,
};

fn policy() -> RecoveryPolicy {
    RecoveryPolicy {
        class: RecoveryClass::Network,
        max_restarts: 2,
        initial_backoff: Duration::from_millis(250),
        max_backoff: Duration::from_secs(5),
        backoff_multiplier: Multiplier { bits: TWO_BITS },
        reset_after: Duration::from_secs(30),
    }
}

fn pipeline(id: &str) -> CompiledPipeline {
    let mut pipeline = CompiledPipeline::sentinel();
    pipeline.id = id.to_string();
    pipeline.recovery = policy();
    pipeline.runtime.watchdog_timeout = Duration::from_millis(25);
    pipeline
}

fn status(event: &RuntimeEvent) -> (TaskStatus, Option<&str>) {
    match event {
        RuntimeEvent::StatusChanged { status, message, .. } => (*status, message.as_deref()),
        other => panic!("expected a status, got {:?}", other),
    }
}

/// The first wait of a policy, as its multiplier scales it.
fn scaled(policy: &RecoveryPolicy, exponent: u32) -> Duration {
    let factor = f32::from_bits(policy.backoff_multiplier.bits).powi(exponent as i32);
    let first = std::time::Duration::from_nanos(policy.initial_backoff.as_nanos() as u64);
    Duration::saturating_from_nanos(first.mul_f32(factor).as_nanos())
}

#[test]
fn waits_double_up_to_a_limit() {
    let waits: Vec<u128> = (0..7)
        .map(|exponent| restart_backoff(&policy(), scaled(&policy(), exponent)).as_millis())
        .collect();
    assert_eq!(waits, vec![250, 500, 1000, 2000, 4000, 5000, 5000]);
    let half = Multiplier { bits: 0.5f32.to_bits() };
    let slower = RecoveryPolicy { backoff_multiplier: half, ..policy() };
    assert_eq!(restart_backoff(&slower, scaled(&slower, 2)).as_nanos(), 62_500_000);
    let uneven = RecoveryPolicy { initial_backoff: Duration::from_millis(100), ..policy() };
    assert_eq!(restart_backoff(&uneven, scaled(&uneven, 0)).as_nanos(), 100_000_001);
    assert_eq!(f32::from_bits(ONE_BITS), 1.0);
    assert_eq!(f32::from_bits(TWO_BITS), 2.0);
}

#[test]
fn recoverable_faults_restart_a_few_times() {
    let pipeline = pipeline("camera_a");
    let mut supervisor = Supervisor::new();
    let step = supervisor.step(&pipeline, SupervisorEvent::Ready);
    assert_eq!(step.action, SupervisorAction::Build);
    assert!(step.events.is_empty());
    let step = supervisor.step(&pipeline, SupervisorEvent::Built);
    assert_eq!(step.action, SupervisorAction::Run);
    assert_eq!(status(&step.events[0]), (TaskStatus::Running, None));
    match &step.events[1] {
        RuntimeEvent::BackendStarted { pipeline_id, codec_path, backend_name } => {
            assert_eq!(pipeline_id, "camera_a");
            assert_eq!(*codec_path, format!("{:?}", pipeline.codec_path));
            assert_eq!(*backend_name, format!("{:?}", pipeline.resolved_backend));
        }
        other => panic!("expected a backend, got {:?}", other),
    }
    let stall = |ran_for| SupervisorEvent::Exited {
        exit: PipelineLoopExit::Recoverable("stall".to_string()),
        ran_for: Duration::from_secs(ran_for),
    };
    let step = supervisor.step(&pipeline, stall(1));
    assert_eq!(step.action, SupervisorAction::Scale { exponent: 0 });
    assert_eq!(status(&step.events[0]), (TaskStatus::Stalled, Some("stall")));
    assert_eq!(status(&step.events[1]), (TaskStatus::Recovering, Some("restart attempt 1")));
    assert_eq!(step.restart_reason.as_deref(), Some("Network: stall"));
    let step = supervisor.step(&pipeline, SupervisorEvent::Scaled(Duration::from_millis(250)));
    assert_eq!(step.action, SupervisorAction::Wait(Duration::from_millis(250)));
    assert!(step.events.is_empty());
    assert_eq!(step.restart_reason, None);
    let step = supervisor.step(&pipeline, SupervisorEvent::Scaled(Duration::from_secs(6)));
    assert_eq!(step.action, SupervisorAction::Wait(Duration::from_secs(5)));
    let step = supervisor.step(&pipeline, stall(1));
    assert_eq!(step.action, SupervisorAction::Scale { exponent: 1 });
    // A long run wipes the slate.
    let step = supervisor.step(&pipeline, stall(30));
    assert_eq!(step.action, SupervisorAction::Scale { exponent: 0 });
    supervisor.step(&pipeline, stall(1));
    let step = supervisor.step(&pipeline, stall(1));
    assert_eq!(step.action, SupervisorAction::Finish);
    assert_eq!(status(&step.events[0]), (TaskStatus::Failed, Some("stall")));
    assert_eq!(step.restart_reason, None);
}

#[test]
fn other_exits_are_final() {
    let pipeline = pipeline("camera_a");
    let ran_for = Duration::from_secs(1);
    let cases = vec![
        (SupervisorEvent::Cancelled, TaskStatus::Stopped, None),
        (
            SupervisorEvent::Exited { exit: PipelineLoopExit::EndOfStream, ran_for },
            TaskStatus::Stopped,
            None,
        ),
        (
            SupervisorEvent::Exited { exit: PipelineLoopExit::Cancelled, ran_for },
            TaskStatus::Stopped,
            None,
        ),
        (
            SupervisorEvent::Exited { exit: PipelineLoopExit::Fatal("x".to_string()), ran_for },
            TaskStatus::Failed,
            Some("x".to_string()),
        ),
        (
            SupervisorEvent::BuildFailed(RuntimeError::adapter("no camera")),
            TaskStatus::Failed,
            Some(RuntimeError::adapter("no camera").to_string()),
        ),
    ];
    for (event, expected, message) in cases {
        let step = Supervisor::new().step(&pipeline, event);
        assert_eq!(step.action, SupervisorAction::Finish);
        assert_eq!(step.events.len(), 1);
        assert_eq!(status(&step.events[0]), (expected, message.as_deref()));
    }
}

#[test]
fn errors_end_runs_by_their_kind() {
    assert!(matches!(
        pipeline_exit_from_error(RuntimeError::recoverable("later")),
        PipelineLoopExit::Recoverable(_)
    ));
    for error in [
        RuntimeError::adapter("a"),
        RuntimeError::source("b"),
        RuntimeError::transform("c"),
        RuntimeError::sink("d"),
        RuntimeError::pipeline("e"),
        RuntimeError::Join("f".to_string()),
    ] {
        assert!(!error.is_recoverable());
        assert!(matches!(pipeline_exit_from_error(error), PipelineLoopExit::Fatal(_)));
    }
}

#[test]
fn runtime_watchdog_marks_pipeline_stalled() {
    let pipeline = pipeline("camera_a");
    let mut running = PipelineLoop::new(0);
    let step = running.step(LoopEvent::TimedOut, pipeline.runtime.watchdog_timeout);
    let exit = match step.action {
        LoopAction::Exit(exit) => exit,
        other => panic!("expected an exit, got {:?}", other),
    };
    assert_eq!(
        exit,
        PipelineLoopExit::Recoverable("no media received within 25ms".to_string())
    );
    let step = Supervisor::new().step(
        &pipeline,
        SupervisorEvent::Exited { exit, ran_for: Duration::zero() },
    );
    assert_eq!(
        status(&step.events[0]),
        (TaskStatus::Stalled, Some("no media received within 25ms"))
    );
}

#[test]
fn payloads_go_through_the_transforms_to_the_sink() {
    let timeout = Duration::from_secs(1);
    let mut running = PipelineLoop::new(2);
    let mut plan = MockSourcePlan::new(vec![MockSourceAction::Packet(vec![1, 2, 3])]);
    let mut pool = BufferPool::new(16);
    let payload = match plan.step(&mut pool) {
        Ok(MockStep::Give(payload)) => payload,
        other => panic!("expected a packet, got {:?}", other),
    };
    let step = running.step(received(&payload), timeout);
    assert_eq!(step.throughput, Some(3));
    assert_eq!(step.action, LoopAction::Transform(0));
    assert_eq!(running.step(LoopEvent::Transformed, timeout).action, LoopAction::Transform(1));
    assert_eq!(running.step(LoopEvent::Transformed, timeout).action, LoopAction::Deliver);
    assert_eq!(running.step(LoopEvent::Consumed, timeout).action, LoopAction::Poll);
    let step = running.step(received(&MediaPayload::EndOfStream), timeout);
    assert_eq!(step.action, LoopAction::Exit(PipelineLoopExit::EndOfStream));
    assert_eq!(step.throughput, None);
    let failed = LoopEvent::Failed(RuntimeError::recoverable("cable"));
    let step = running.step(failed, timeout);
    assert_eq!(step.stream_error, Some(RuntimeError::recoverable("cable").to_string()));
    assert!(matches!(step.action, LoopAction::Exit(PipelineLoopExit::Recoverable(_))));
    let step = running.step(LoopEvent::Cancelled, timeout);
    assert_eq!(step.action, LoopAction::Exit(PipelineLoopExit::Cancelled));
}

#[test]
fn scripts_are_followed_step_by_step() {
    let mut pool = BufferPool::new(16);
    let mut plan = MockSourcePlan::new(vec![
        MockSourceAction::Packet(vec![0xAA]),
        MockSourceAction::Sleep(Duration::from_millis(5)),
        MockSourceAction::Stall,
        MockSourceAction::Fail("cable".to_string()),
        MockSourceAction::EndOfStream,
    ]);
    match plan.step(&mut pool).unwrap() {
        MockStep::Give(payload) => assert_eq!(payload.data(), Some(&[0xAAu8][..])),
        other => panic!("expected a packet, got {:?}", other),
    }
    assert_eq!(pool.stats().in_use, 1);
    assert_eq!(plan.step(&mut pool).unwrap(), MockStep::Sleep(Duration::from_millis(5)));
    assert_eq!(plan.step(&mut pool).unwrap(), MockStep::Stall);
    assert_eq!(plan.step(&mut pool).unwrap_err(), RuntimeError::recoverable("cable"));
    assert_eq!(plan.step(&mut pool).unwrap(), MockStep::Give(MediaPayload::EndOfStream));
    assert_eq!(
        plan.step(&mut pool).unwrap_err(),
        RuntimeError::source("mock source exhausted its scripted actions")
    );
    assert_eq!(pool.stats().in_use, 1);
}

#[test]
fn scripts_and_recorders_are_found_by_pipeline() {
    let mut plans = StringMap::new();
    plans.insert("a".to_string(), MockSourcePlan::new(vec![MockSourceAction::Stall]));
    let sources = MockSourceFactory::new(plans);
    assert!(sources.plan_for("a").is_ok());
    assert_eq!(
        sources.plan_for("b").unwrap_err(),
        RuntimeError::adapter("missing mock source plan for 'b'")
    );
    let mut shared = StringMap::new();
    let script = Arc::new(Mutex::new(MockSourcePlan::new(vec![MockSourceAction::Stall])));
    shared.insert("a".to_string(), script);
    let one = MockSourceFactory::new(shared);
    let other = one.clone();
    assert!(one.plan_for("a").unwrap().lock().unwrap().next_action().is_ok());
    // What was taken stays taken, also for those who share the script.
    assert!(other.plan_for("a").unwrap().lock().unwrap().next_action().is_err());
    let empty: MockSinkFactory<Arc<u8>> = MockSinkFactory::default();
    assert!(empty.clone().recorder_for("a").is_err());
    let mut recorders = StringMap::new();
    recorders.insert("a".to_string(), 7);
    let sinks = MockSinkFactory::new(recorders);
    assert_eq!(sinks.recorder_for("a"), Ok(&7));
    assert_eq!(
        sinks.recorder_for("b"),
        Err(RuntimeError::adapter("missing mock sink recorder for 'b'"))
    );
}

#[test]
fn every_pipeline_starts_as_spawning() {
    let graph = CompiledGraph {
        system: CompiledSystem {
            hardware_target: HardwareTarget::GenericLinux,
            cma_allocation_limit_bytes: 1,
        },
        pipelines: vec![pipeline("a"), pipeline("b")],
        resource_plan: ResourcePlan {
            configured_limit_bytes: 1,
            estimated_pool_bytes: 0,
            estimated_backend_bytes: None,
            buffer_pools: Vec::new(),
            warnings: Vec::new(),
        },
    };
    let mut current = RuntimeEngine::initial_status(&graph);
    let before = current.clone();
    assert_eq!(current.pipeline("a"), Some(TaskStatus::Spawning));
    assert_eq!(current.pipeline("c"), None);
    current.apply(&RuntimeEvent::StatusChanged {
        pipeline_id: "b".to_string(),
        status: TaskStatus::Running,
        message: None,
    });
    assert_eq!(current.pipeline("b"), Some(TaskStatus::Running));
    assert_eq!(current.pipeline("a"), Some(TaskStatus::Spawning));
    assert_eq!(before.pipeline("b"), Some(TaskStatus::Spawning));
    assert_eq!(before, RuntimeEngine::initial_status(&graph));
    let mut hardware = pipeline("b");
    hardware.codec_path = CodecPath::HardwareDecode;
    hardware.resolved_backend = ResolvedInputBackend::V4l2Device;
    for event in Supervisor::new().step(&hardware, SupervisorEvent::Built).events {
        current.apply(&event);
    }
    assert_eq!(current.pipeline("b"), Some(TaskStatus::Running));
}
