//! What is found out of a host, and how cameras are read.

use caml::linux_media::camera::{
    apply_capture_profile, capture_profile_for, frame_message, payload_from_frame,
    resolve_camera_index, CameraAction, CameraError, CameraEvent, CameraWorker,
    LibcameraSourceFactory,
};
use caml::linux_media::probe::{
    clean_text, linux_capability_probe, model_locations, HostObservations, LinuxCapabilityProbe,
};
use caml::frontend::CaptureProfile;
use caml::time::Duration;
use caml::{
    BufferPool, CompiledPipeline, HardwareTarget, InputType, MediaPayload, PiModel,
    ResolvedInputBackend, RuntimeError,
};

fn nothing_found() -> HostObservations {
    HostObservations {
        models: Vec::new(),
        has_video_device: false,
        has_video_entries: false,
        video_names: Vec::new(),
        has_media_device: false,
        has_media_entries: false,
        media_models: Vec::new(),
        has_libcamera_hello: false,
        has_libcamera_still: false,
        has_libcamera_vid: false,
    }
}

#[test]
fn detects_pi4_hardware_encoder_from_sysfs_names() {
    let found = HostObservations {
        models: vec!["Raspberry Pi 4 Model B Rev 1.5".to_string()],
        has_video_device: true,
        has_video_entries: true,
        video_names: vec!["bcm2835-codec-encode".to_string()],
        ..nothing_found()
    };
    let probe = LinuxCapabilityProbe::with_root("/tmp/host");
    let capabilities = probe.report(HardwareTarget::RaspberryPi4, &found);

    assert_eq!(capabilities.pi_model, Some(PiModel::Pi4));
    assert!(capabilities.v4l2_available);
    assert!(capabilities.has_pi4_h264_encoder);
    assert!(!capabilities.has_pi5_stateless_decoder);
}

#[test]
fn detects_pi5_stateless_decoder_from_media_topology() {
    let found = HostObservations {
        models: vec!["Raspberry Pi 5 Model B".to_string()],
        has_media_device: true,
        has_media_entries: true,
        media_models: vec!["rpivid-v4l2-request".to_string()],
        ..nothing_found()
    };
    let probe = LinuxCapabilityProbe::with_root("/tmp/host");
    let capabilities = probe.report(HardwareTarget::RaspberryPi5, &found);

    assert_eq!(capabilities.pi_model, Some(PiModel::Pi5));
    assert!(capabilities.has_pi5_stateless_decoder);
    assert!(!capabilities.has_pi4_h264_encoder);
}

#[test]
fn detects_libcamera_binaries() {
    let found = HostObservations { has_libcamera_hello: true, ..nothing_found() };
    let probe = LinuxCapabilityProbe::with_root("/tmp/host");
    let capabilities = probe.report(HardwareTarget::GenericLinux, &found);

    assert!(capabilities.libcamera_available);
}

#[test]
fn default_probe_constructor_returns_linux_probe() {
    let _probe = linux_capability_probe();
}

#[test]
fn models_are_read_in_order() {
    let report = |models: &[&str], target| {
        let found = HostObservations {
            models: models.iter().map(|model| model.to_string()).collect(),
            ..nothing_found()
        };
        linux_capability_probe().report(target, &found)
    };
    let generic = HardwareTarget::GenericLinux;
    assert_eq!(report(&[], generic).pi_model, None);
    assert_eq!(report(&["\0 \0", "RASPBERRY PI 4\0"], generic).pi_model, Some(PiModel::Pi4));
    let both = report(&["raspberry pi 5", "raspberry pi 4"], generic);
    assert_eq!(both.pi_model, Some(PiModel::Pi5));
    assert!(!both.has_pi5_stateless_decoder);
    assert_eq!(report(&["some board"], generic).pi_model, None);
    let found = HostObservations {
        models: vec!["raspberry pi 5".to_string()],
        has_media_entries: true,
        ..nothing_found()
    };
    assert!(linux_capability_probe().report(generic, &found).has_pi5_stateless_decoder);
    let found = HostObservations {
        video_names: vec!["Stateless H264 Decoder".to_string()],
        ..nothing_found()
    };
    let pi5 = linux_capability_probe().report(HardwareTarget::RaspberryPi5, &found);
    assert!(pi5.has_pi5_stateless_decoder);
    assert!(!linux_capability_probe().report(generic, &found).has_pi5_stateless_decoder);
}

#[test]
fn files_say_what_is_left_of_them() {
    assert_eq!(clean_text("\0\0 Model B \n\0").as_deref(), Some("Model B"));
    assert_eq!(clean_text("\0 \0"), None);
    assert_eq!(clean_text(""), None);
}

#[test]
fn paths_lie_below_the_root() {
    assert_eq!(linux_capability_probe().resolve(model_locations()[0]), "/proc/device-tree/model");
    let probe = LinuxCapabilityProbe::with_root("/tmp/host");
    assert_eq!(probe.resolve("/dev/video0"), "/tmp/host/dev/video0");
    assert_eq!(probe.resolve("///dev"), "/tmp/host/dev");
    assert_eq!(LinuxCapabilityProbe::with_root("").resolve("/dev"), "dev");
    assert_eq!(LinuxCapabilityProbe::with_root("a/").resolve("dev"), "a/dev");
}

#[test]
fn inputs_name_cameras_by_their_digits() {
    assert_eq!(resolve_camera_index("/dev/video2"), 2);
    assert_eq!(resolve_camera_index("/base/soc/i2c0mux/i2c@1/imx219@10"), 202_121_910);
    assert_eq!(resolve_camera_index("camera"), 0);
    assert_eq!(resolve_camera_index("camera:3"), 3);
    assert_eq!(resolve_camera_index(""), 0);
    assert_eq!(resolve_camera_index(&"9".repeat(40)), 0);
    assert_eq!(resolve_camera_index(&usize::MAX.to_string()), usize::MAX);
}

#[test]
fn pixel_formats_of_four_bytes_are_codes() {
    let profile = |format: &str| CaptureProfile {
        width: 640,
        height: 480,
        pixel_format: format.to_string(),
        frame_rate: 30,
    };
    let request = apply_capture_profile(&profile("NV12"));
    assert_eq!((request.width, request.height), (640, 480));
    assert_eq!(request.fourcc, Some(*b"NV12"));
    assert_eq!(apply_capture_profile(&profile("RGB888")).fourcc, None);
    let umlauts = "\u{e4}\u{f6}";
    let mut code = [0u8; 4];
    code.copy_from_slice(umlauts.as_bytes());
    assert_eq!(apply_capture_profile(&profile(umlauts)).fourcc, Some(code));
}

#[test]
fn workers_take_frames_until_they_are_told_to_stop() {
    let mut worker = CameraWorker::new("/dev/video1");
    assert_eq!(worker.step(CameraEvent::ManagerOpened(Ok(2))), CameraAction::Acquire(1));
    assert_eq!(worker.step(CameraEvent::Acquired(Ok(()))), CameraAction::GenerateConfig);
    assert_eq!(worker.step(CameraEvent::ConfigGenerated(Ok(1))), CameraAction::ApplyProfile);
    assert_eq!(worker.step(CameraEvent::Validated { invalid: false }), CameraAction::Configure);
    assert_eq!(worker.step(CameraEvent::Configured(Ok(()))), CameraAction::Allocate);
    assert_eq!(worker.step(CameraEvent::Allocated(Ok(2))), CameraAction::Start);
    assert_eq!(worker.step(CameraEvent::Started(Ok(()))), CameraAction::QueueFirst(0));
    assert_eq!(worker.step(CameraEvent::Queued(Ok(()))), CameraAction::QueueFirst(1));
    assert_eq!(worker.step(CameraEvent::Queued(Ok(()))), CameraAction::LookForCommands);
    let nothing = CameraEvent::Commanded { shutdown: false };
    assert_eq!(worker.step(nothing), CameraAction::AwaitRequest);
    assert_eq!(worker.step(CameraEvent::TimedOut), CameraAction::LookForCommands);
    assert_eq!(worker.step(CameraEvent::Completed), CameraAction::HandOnFrame);
    assert_eq!(worker.step(CameraEvent::HandedOn { taken: true }), CameraAction::QueueAgain);
    assert_eq!(worker.step(CameraEvent::Queued(Ok(()))), CameraAction::LookForCommands);
    assert_eq!(worker.step(CameraEvent::Commanded { shutdown: true }), CameraAction::Stop);
    assert_eq!(worker.step(CameraEvent::HandedOn { taken: false }), CameraAction::Stop);
    assert_eq!(worker.step(CameraEvent::Disconnected), CameraAction::Stop);
}

#[test]
fn workers_say_what_went_wrong() {
    let words = || "EBUSY".to_string();
    let cases = vec![
        (
            CameraEvent::ManagerOpened(Err(words())),
            "failed to initialize libcamera CameraManager: EBUSY",
        ),
        (CameraEvent::ManagerOpened(Ok(0)), "no libcamera compatible cameras found"),
        (CameraEvent::ManagerOpened(Ok(1)), "camera not found: /dev/video1"),
        (CameraEvent::Acquired(Err(words())), "failed to acquire camera: EBUSY"),
        (CameraEvent::ConfigGenerated(Err(words())), "failed to generate configuration: EBUSY"),
        (CameraEvent::ConfigGenerated(Ok(0)), "invalid libcamera configuration"),
        (CameraEvent::Validated { invalid: true }, "invalid libcamera configuration"),
        (CameraEvent::Configured(Err(words())), "failed to configure camera: EBUSY"),
        (CameraEvent::Allocated(Err(words())), "failed to allocate frame buffers: EBUSY"),
        (CameraEvent::Started(Err(words())), "failed to start camera: EBUSY"),
        (CameraEvent::Queued(Err(words())), "failed to queue request: EBUSY"),
    ];
    for (event, expected) in cases {
        match CameraWorker::new("/dev/video1").step(event) {
            CameraAction::Fail(error) => {
                assert_eq!(error.to_string(), expected);
                assert_eq!(error.into_runtime_error(), RuntimeError::adapter(expected));
            }
            other => panic!("expected a failure, got {:?}", other),
        }
    }
    assert_eq!(CameraError::WorkerDied.to_string(), "camera worker thread panicked or died");
    assert_eq!(CameraError::ReceiverClosed.to_string(), "camera receiver closed");
}

#[test]
fn frames_hold_all_planes() {
    let mut pool = BufferPool::new(8);
    let message = frame_message(5, &vec![vec![1, 2], vec![], vec![3]], &mut pool);
    assert_eq!(message.timestamp, Duration::from_nanos(5));
    let profile = capture_profile_for(&CompiledPipeline::sentinel());
    assert_eq!((profile.width, profile.height, profile.frame_rate), (1920, 1080, 30));
    match payload_from_frame(Some(message), &profile).unwrap() {
        MediaPayload::DecodedFrame(frame) => {
            assert_eq!(frame.pixel_format, "NV12");
            assert_eq!(frame.data.as_slice(), &[1, 2, 3]);
            assert_eq!(frame.timestamp, Some(Duration::from_nanos(5)));
        }
        other => panic!("expected a frame, got {:?}", other),
    }
    assert_eq!(
        payload_from_frame(None, &profile),
        Err(RuntimeError::adapter("camera worker thread terminated"))
    );
}

#[test]
fn cameras_are_opened_for_their_pipelines_only() {
    let factory = LibcameraSourceFactory::new("cameras");
    let mut pipeline = CompiledPipeline::sentinel();
    pipeline.id = "libcam0".to_string();
    pipeline.input.kind = InputType::Device;
    pipeline.resolved_backend = ResolvedInputBackend::LibcameraDevice;
    assert_eq!(factory.provider_for(&pipeline), Ok(&"cameras"));
    pipeline.resolved_backend = ResolvedInputBackend::V4l2Device;
    assert_eq!(
        factory.provider_for(&pipeline),
        Err(RuntimeError::adapter("pipeline 'libcam0' is not a libcamera device pipeline"))
    );
    pipeline.resolved_backend = ResolvedInputBackend::LibcameraDevice;
    pipeline.input.kind = InputType::Rtsp;
    assert!(factory.provider_for(&pipeline).is_err());
}
