//! What the FFmpeg backend decides.

use caml::ffmpeg::capabilities::{ffmpeg_capabilities, FfmpegFacts};
use caml::ffmpeg::device::{
    auto_open_error, codec_name, device_input_options, duration_from_packet,
    duration_from_time_base, frame_duration_from_processing, frame_duration_from_rate,
    missing_input_format, missing_video_stream, normalize_encoded_packet, plan_device_input,
    rtsp_input_options, rtsp_open_error, v4l2_open_error, validate_input_format_name,
    DeviceOpenPlan, VideoCodec,
};
use caml::ffmpeg::error::{map_ffmpeg_error, FfmpegErrorClass, FfmpegFault};
use caml::ffmpeg::filter::{
    alpha_percent_to_decimal, buffer_source_args, build_filter_spec,
    drawtext_filter_for_timestamp, escape_drawtext_expansion_format, escape_drawtext_text,
    escape_filter_path, normalize_rotation, overlay_position_expr, rotated_dimensions,
    sanitize_rational, Rational, Rotation,
};
use caml::ffmpeg::h264::{
    annex_b_parameter_sets, avcc_to_annex_b, extract_h264_config, normalize_h264_payload,
    parse_avcc_extradata, H264Config, H264_START_CODE,
};
use caml::ffmpeg::hwaccel::{transcode_backend_for_pipeline, TranscodeBackend};
use caml::ffmpeg::source::{
    copied_bytes, mock_message, payload_from_message, spawn_error, worker_thread_name,
    FfmpegSourceFactory, SourcePlan,
};
use caml::ffmpeg::transcode::{
    choose_decoder, choose_encoder, encoded_packet, encoder_settings, finish_steps,
    nominal_duration, validate_overlay_runtime, AssetState, DecoderChoice, EncoderChoice,
    EncoderFacts, FinishStep, OverlayFacts, TranscodeAction, TranscodeFault, TranscodeLoop,
};
use caml::ffmpeg::worker::{
    finish_worker, start_worker, worker_spec_for_pipeline, DemuxAction, Demuxer, InputSpec,
    RawPacket, StreamFacts, WorkerMessage, WorkerMode, WorkerStart,
};
use caml::frontend::{OverlayPosition, OverlayTimezone};
use caml::time::Duration;
use caml::{
    BufferPool, CodecPath, CompiledInput, CompiledNetworkProfile, CompiledOverlayLayer,
    CompiledOverlayProfile, CompiledPipeline, CompiledProcessingProfile, CompiledTextOverlay,
    CompiledTextOverlayStyle, CompiledTimestampOverlay, CompiledWatermarkOverlay, InputType,
    MediaPayload, ResolvedInputBackend, RuntimeError, StreamStrategy, Transport,
};

fn compiled_pipeline(codec: &str, encoder: &str, rotation: Option<i32>) -> CompiledPipeline {
    let mut pipeline = CompiledPipeline::sentinel();
    pipeline.id = "camera_a".to_string();
    pipeline.input = CompiledInput {
        kind: InputType::Rtsp,
        source: "rtsp://127.0.0.1:8554/live".to_string(),
    };
    pipeline.strategy = StreamStrategy::Transcode;
    pipeline.network = Some(CompiledNetworkProfile {
        transport: Transport::Tcp,
        packet_size_limit: 1200,
        stall_timeout: Duration::from_secs(1),
    });
    pipeline.processing = Some(CompiledProcessingProfile {
        codec: codec.to_string(),
        encoder: encoder.to_string(),
        preset: "ultrafast".to_string(),
        tune: "zerolatency".to_string(),
        frame_rate: 25,
        bitrate_bps: 512_000,
        rotation,
    });
    pipeline.codec_path = CodecPath::SoftwareTranscode;
    pipeline.resolved_backend = ResolvedInputBackend::FfmpegRtsp;
    pipeline
}

#[test]
fn parses_avcc_extradata_and_converts_payload_to_annex_b() {
    let extradata = vec![
        0x01, 0x64, 0x00, 0x1F, 0xFF, 0xE1, 0x00, 0x04, 0x67, 0x64, 0x00, 0x1F, 0x01, 0x00, 0x04,
        0x68, 0xEE, 0x3C, 0x80,
    ];
    let (nalu_length_size, parameter_sets_annexb) =
        parse_avcc_extradata(&extradata).expect("extradata should parse");
    assert_eq!(nalu_length_size, 4);
    assert_eq!(
        parameter_sets_annexb,
        vec![
            0x00, 0x00, 0x00, 0x01, 0x67, 0x64, 0x00, 0x1F, 0x00, 0x00, 0x00, 0x01, 0x68, 0xEE,
            0x3C, 0x80
        ]
    );

    let payload = vec![0x00, 0x00, 0x00, 0x03, 0x65, 0x88, 0x84];
    let normalized = normalize_h264_payload(
        &payload,
        true,
        Some(&H264Config { nalu_length_size, parameter_sets_annexb }),
    )
    .expect("payload should normalize");

    assert!(normalized.starts_with(&H264_START_CODE));
    assert_eq!(&normalized[16..], &[0x00, 0x00, 0x00, 0x01, 0x65, 0x88, 0x84]);
}

#[test]
fn leaves_existing_annex_b_keyframe_intact_when_parameter_sets_are_present() {
    let payload = vec![
        0x00, 0x00, 0x00, 0x01, 0x67, 0x64, 0x00, 0x1F, 0x00, 0x00, 0x00, 0x01, 0x68, 0xEE, 0x3C,
        0x80, 0x00, 0x00, 0x00, 0x01, 0x65, 0x88, 0x84,
    ];
    let normalized = normalize_h264_payload(&payload, true, None).expect("payload should pass");
    assert_eq!(normalized, payload);
}

#[test]
fn normalizes_supported_rotation_values() {
    assert_eq!(normalize_rotation(Some(90)).unwrap(), Rotation::Clockwise);
    assert_eq!(normalize_rotation(Some(-90)).unwrap(), Rotation::CounterClockwise);
    assert_eq!(normalize_rotation(Some(180)).unwrap(), Rotation::HalfTurn);
    assert_eq!(normalize_rotation(None).unwrap(), Rotation::NoTurn);
    assert!(normalize_rotation(Some(45)).is_err());
}

#[test]
fn swaps_dimensions_for_quarter_turns() {
    assert_eq!(rotated_dimensions(1920, 1080, Rotation::NoTurn), (1920, 1080));
    assert_eq!(rotated_dimensions(1920, 1080, Rotation::Clockwise), (1080, 1920));
}

#[test]
fn derives_transcode_frame_duration() {
    let processing = CompiledProcessingProfile {
        codec: "h264".to_string(),
        encoder: "software".to_string(),
        preset: "ultrafast".to_string(),
        tune: "zerolatency".to_string(),
        frame_rate: 25,
        bitrate_bps: 512_000,
        rotation: None,
    };
    assert_eq!(frame_duration_from_processing(&processing), Some(Duration::from_millis(40)));
}

#[test]
fn rejects_unsupported_transcode_codec_in_factory() {
    let factory = FfmpegSourceFactory;
    let pipeline = compiled_pipeline("h265", "software", Some(90));
    let error = factory.plan_source(&pipeline).expect_err("unsupported codec should fail");
    assert!(matches!(error, RuntimeError::Adapter(_)));
    assert!(error.to_string().contains("only implements software H.264 transcode"));
}

#[test]
fn rejects_unsupported_rotation_in_factory() {
    let factory = FfmpegSourceFactory;
    let pipeline = compiled_pipeline("h264", "software", Some(45));
    let error = factory.plan_source(&pipeline).expect_err("unsupported rotation should fail");
    assert!(matches!(error, RuntimeError::Adapter(_)));
    assert!(error.to_string().contains("unsupported rotation"));
}

#[test]
fn plans_v4l2_device_capture_for_device_inputs() {
    let mut pipeline = compiled_pipeline("h264", "software", Some(90));
    pipeline.input.kind = InputType::Device;
    pipeline.input.source = "/dev/video0".to_string();
    pipeline.resolved_backend = ResolvedInputBackend::V4l2Device;

    let spec = worker_spec_for_pipeline(&pipeline).expect("worker spec should compile");
    assert_eq!(
        spec.input_spec,
        InputSpec::Device { backend: ResolvedInputBackend::V4l2Device, frame_rate: Some(25) }
    );
}

#[test]
fn selects_pi4_hardware_transcode_backend() {
    let mut pipeline = compiled_pipeline("h264", "v4l2m2m", None);
    pipeline.codec_path = CodecPath::HardwareTranscode;

    assert_eq!(
        transcode_backend_for_pipeline(&pipeline).expect("backend should resolve"),
        TranscodeBackend::Pi4HardwareEncode
    );

    let spec = worker_spec_for_pipeline(&pipeline).expect("worker spec should compile");
    match spec.mode {
        WorkerMode::Transcode { backend, .. } => {
            assert_eq!(backend, TranscodeBackend::Pi4HardwareEncode);
        }
        other => panic!("expected transcode worker mode, got {:?}", other),
    }
}

#[test]
fn selects_pi5_hardware_decode_backend() {
    let mut pipeline = compiled_pipeline("h264", "software", None);
    pipeline.strategy = StreamStrategy::HardwareDecode;
    pipeline.codec_path = CodecPath::HardwareDecode;

    assert_eq!(
        transcode_backend_for_pipeline(&pipeline).expect("backend should resolve"),
        TranscodeBackend::Pi5HardwareDecode
    );

    let spec = worker_spec_for_pipeline(&pipeline).expect("worker spec should compile");
    match spec.mode {
        WorkerMode::Transcode { backend, .. } => {
            assert_eq!(backend, TranscodeBackend::Pi5HardwareDecode);
        }
        other => panic!("expected transcode worker mode, got {:?}", other),
    }
}

#[test]
fn rejects_libcamera_device_backend_in_ffmpeg_factory() {
    let factory = FfmpegSourceFactory;
    let mut pipeline = compiled_pipeline("h264", "software", None);
    pipeline.input.kind = InputType::Device;
    pipeline.input.source = "/dev/video0".to_string();
    pipeline.resolved_backend = ResolvedInputBackend::LibcameraDevice;

    let error = factory.plan_source(&pipeline).expect_err("libcamera should fail here");
    assert!(matches!(error, RuntimeError::Adapter(_)));
    assert!(error.to_string().contains("libcamera"));
}

fn style(position: OverlayPosition, color: &str, alpha: u8) -> CompiledTextOverlayStyle {
    CompiledTextOverlayStyle {
        position,
        font_size: 18,
        font_color: color.to_string(),
        background_color: "black".to_string(),
        background_alpha: alpha,
        padding: 6,
        margin: 12,
    }
}

fn timestamp() -> CompiledTimestampOverlay {
    CompiledTimestampOverlay {
        format: "%Y-%m-%d %H:%M:%S UTC".to_string(),
        timezone: OverlayTimezone::Utc,
        style: style(OverlayPosition::TopLeft, "white", 60),
    }
}

fn watermark(image_path: &str) -> CompiledWatermarkOverlay {
    CompiledWatermarkOverlay {
        image_path: image_path.to_string(),
        position: OverlayPosition::BottomRight,
        max_width_px: Some(96),
        opacity: 75,
        margin: 8,
    }
}

#[test]
fn builds_filter_spec_in_overlay_order() {
    let overlay = CompiledOverlayProfile {
        layers: vec![
            CompiledOverlayLayer::Timestamp(timestamp()),
            CompiledOverlayLayer::Text(CompiledTextOverlay {
                text: "DEV01".to_string(),
                style: CompiledTextOverlayStyle {
                    position: OverlayPosition::BottomRight,
                    font_size: 18,
                    font_color: "yellow".to_string(),
                    background_color: "black".to_string(),
                    background_alpha: 50,
                    padding: 4,
                    margin: 10,
                },
            }),
            CompiledOverlayLayer::Watermark(watermark("./logo.png")),
        ],
    };

    let spec = build_filter_spec(Rotation::Clockwise, Some(&overlay)).expect("spec");
    assert!(spec.contains("[in]transpose=clock[stage0]"));
    assert!(spec.contains("drawtext"));
    assert!(spec.contains("movie='./logo.png'"));

    let first_draw = spec.find("drawtext").expect("first drawtext");
    let second_draw = spec[first_draw + 1..]
        .find("drawtext")
        .map(|offset| offset + first_draw + 1)
        .expect("second drawtext");
    let movie = spec.find("movie='./logo.png'").expect("movie");
    assert!(first_draw < second_draw);
    assert!(second_draw < movie);
    assert!(spec.ends_with(
        ";movie='./logo.png',scale=w=96:h=-1:force_original_aspect_ratio=decrease,format=rgba,\
         colorchannelmixer=aa=0.75[wm2];[stage2][wm2]overlay=x=W-w-8:y=H-h-8[stage3];\
         [stage3]null[out]"
    ));
}

fn overlay_pipeline(layers: Vec<CompiledOverlayLayer>) -> CompiledPipeline {
    let mut pipeline = CompiledPipeline::sentinel();
    pipeline.id = "BOTTOM_CAM01".to_string();
    pipeline.overlay = Some(CompiledOverlayProfile { layers });
    pipeline
}

#[test]
fn rejects_missing_watermark_asset_before_worker_start() {
    let pipeline = overlay_pipeline(vec![CompiledOverlayLayer::Watermark(
        CompiledWatermarkOverlay {
            image_path: "./does-not-exist.png".to_string(),
            position: OverlayPosition::TopLeft,
            max_width_px: None,
            opacity: 100,
            margin: 12,
        },
    )]);
    let facts = OverlayFacts {
        ffmpeg_ready: true,
        font_exists: false,
        assets: vec![AssetState::NotAccessible("No such file or directory".to_string())],
    };
    let error =
        validate_overlay_runtime(&pipeline, &facts).expect_err("missing watermark should fail");
    assert!(error.contains("does-not-exist.png"));
}

#[test]
fn overlays_are_held_to_what_the_host_has() {
    let layers = || {
        vec![
            CompiledOverlayLayer::Watermark(watermark("a.png")),
            CompiledOverlayLayer::Timestamp(timestamp()),
            CompiledOverlayLayer::Watermark(watermark("b.png")),
        ]
    };
    let pipeline = overlay_pipeline(layers());
    let facts = |ffmpeg_ready, font_exists, last| OverlayFacts {
        ffmpeg_ready,
        font_exists,
        assets: vec![AssetState::Usable, AssetState::Usable, last],
    };
    assert_eq!(validate_overlay_runtime(&pipeline, &facts(true, true, AssetState::Usable)), Ok(()));
    let text = |facts| validate_overlay_runtime(&pipeline, &facts).unwrap_err();
    assert!(text(facts(false, true, AssetState::Usable)).contains("failed to initialize"));
    assert!(text(facts(true, false, AssetState::Usable)).contains("DejaVuSans.ttf"));
    assert_eq!(
        text(facts(true, true, AssetState::NotAFile)),
        "pipeline 'BOTTOM_CAM01' watermark 'b.png' must be a regular file"
    );
    assert_eq!(
        text(facts(true, true, AssetState::NotDecodable("bad".to_string()))),
        "pipeline 'BOTTOM_CAM01' watermark 'b.png' could not be decoded by FFmpeg: bad"
    );
    assert_eq!(
        text(facts(true, true, AssetState::NoVideo)),
        "no video stream was found in 'b.png'"
    );
    let plain = CompiledPipeline::sentinel();
    let nothing = OverlayFacts { ffmpeg_ready: false, font_exists: false, assets: Vec::new() };
    assert_eq!(validate_overlay_runtime(&plain, &nothing), Ok(()));
}

#[test]
fn converts_alpha_percent_to_decimal() {
    assert_eq!(alpha_percent_to_decimal(75), "0.75");
    for value in 0..=u8::MAX {
        assert_eq!(alpha_percent_to_decimal(value), format!("{:.2}", f32::from(value) / 100.0));
    }
}

#[test]
fn timestamp_overlay_escapes_inner_time_format_colons() {
    let filter = drawtext_filter_for_timestamp(&timestamp()).expect("timestamp filter");
    assert!(filter.contains("%{gmtime\\:%Y-%m-%d %H\\\\\\:%M\\\\\\:%S UTC}"));
}

#[test]
fn special_characters_are_escaped() {
    assert_eq!(escape_filter_path("C:\\a'b"), "C\\:\\\\a\\'b");
    assert_eq!(escape_drawtext_text("50%: it's"), "50\\%\\: it\\'s");
    let format = "a\\b:c'd";
    assert_eq!(
        escape_drawtext_expansion_format(format),
        format.replace('\\', "\\\\\\\\").replace(':', "\\\\\\:").replace('\'', "\\'")
    );
    assert_eq!(overlay_position_expr(OverlayPosition::TopRight, 3), "x=W-w-3:y=3");
    assert_eq!(build_filter_spec(Rotation::HalfTurn, None).unwrap(), "[in]hflip,vflip[out]");
    assert_eq!(
        buffer_source_args(
            640,
            480,
            Some("nv12"),
            Rational { numerator: 1, denominator: 90_000 },
            Rational { numerator: 0, denominator: 1 },
        ),
        "video_size=640x480:pix_fmt=nv12:time_base=1/90000:pixel_aspect=1/1"
    );
    let odd = Rational { numerator: 4, denominator: -3 };
    assert_eq!(sanitize_rational(odd), Rational { numerator: 1, denominator: 1 });
}

#[test]
fn payloads_that_are_cut_off_do_not_convert() {
    assert_eq!(
        avcc_to_annex_b(&[0, 0, 0, 9, 1], 4).unwrap_err(),
        "AVCC payload contained a truncated NALU"
    );
    assert_eq!(avcc_to_annex_b(&[0, 1, 9, 0], 1).unwrap(), [0, 0, 0, 1, 9]);
    assert_eq!(avcc_to_annex_b(&[0, 0], 1).unwrap_err(), "AVCC payload produced no NAL units");
    assert!(avcc_to_annex_b(&[], 1).unwrap().is_empty());
    assert_eq!(avcc_to_annex_b(&[2, 7, 7, 1, 8], 1).unwrap(), [
        0, 0, 0, 1, 7, 7, 0, 0, 0, 1, 8
    ]);
    assert_eq!(annex_b_parameter_sets(&[0, 0, 1, 0x67, 0, 0, 0, 1, 0x68]), (true, true));
    assert_eq!(annex_b_parameter_sets(&[0, 0, 1, 0x65]), (false, false));
    assert_eq!(extract_h264_config(None), Ok(None));
    assert_eq!(extract_h264_config(Some(&[])), Ok(None));
    assert_eq!(extract_h264_config(Some(&[9, 9])), Ok(None));
    assert!(extract_h264_config(Some(&[1, 2])).is_err());
    let annex_b = [0, 0, 0, 1, 0x67, 1];
    let config = extract_h264_config(Some(&annex_b)).unwrap().unwrap();
    assert_eq!(config.nalu_length_size, 4);
    assert_eq!(config.parameter_sets_annexb, annex_b);
    assert_eq!(
        normalize_encoded_packet("vp8", &[1], false, None).unwrap_err(),
        "codec 'vp8' is not supported by the current FFmpeg source backend"
    );
}

#[test]
fn times_are_counted_in_ticks() {
    let video = Rational { numerator: 1, denominator: 90_000 };
    assert_eq!(duration_from_time_base(Some(90_000), video), Some(Duration::from_secs(1)));
    assert_eq!(duration_from_time_base(Some(-1), video), None);
    assert_eq!(duration_from_time_base(None, video), None);
    let broken = Rational { numerator: 1, denominator: 0 };
    assert_eq!(duration_from_time_base(Some(1), broken), None);
    let years = Rational { numerator: i32::MAX, denominator: 1 };
    assert_eq!(duration_from_time_base(Some(i64::MAX), years), None);
    assert_eq!(duration_from_packet(0, video), None);
    assert_eq!(duration_from_packet(3_600, video), Some(Duration::from_millis(40)));
    let rate = Rational { numerator: 30_000, denominator: 1_001 };
    assert_eq!(frame_duration_from_rate(rate), Some(Duration::from_nanos(33_366_666)));
    assert_eq!(frame_duration_from_rate(broken), None);
    let fast = Rational { numerator: i32::MAX, denominator: 1 };
    assert_eq!(frame_duration_from_rate(fast), None);
}

#[test]
fn inputs_are_opened_with_options() {
    let named = |options: Vec<(String, String)>| {
        options.into_iter().map(|(key, value)| format!("{}={}", key, value)).collect::<Vec<_>>()
    };
    assert_eq!(
        named(rtsp_input_options(Transport::Udp)),
        [
            "rtsp_transport=udp",
            "fflags=nobuffer",
            "flags=low_delay",
            "timeout=5000000",
            "stimeout=5000000"
        ]
    );
    assert_eq!(
        named(device_input_options(Some(25))),
        ["fflags=nobuffer", "flags=low_delay", "framerate=25"]
    );
    assert_eq!(named(device_input_options(Some(0))).len(), 2);
    let plan = |backend| plan_device_input("/dev/video0", backend);
    assert_eq!(plan(ResolvedInputBackend::V4l2Device), Ok(DeviceOpenPlan::V4l2));
    assert_eq!(plan(ResolvedInputBackend::AutoDevice), Ok(DeviceOpenPlan::V4l2ThenGeneric));
    assert!(plan(ResolvedInputBackend::LibcameraDevice).unwrap_err().contains("libcamera"));
    assert!(plan(ResolvedInputBackend::FfmpegRtsp).unwrap_err().contains("unexpectedly"));
    assert_eq!(rtsp_open_error("u", "e"), "unable to open RTSP input 'u': e");
    assert_eq!(v4l2_open_error("d", "e"), "unable to open V4L2 device 'd': e");
    assert_eq!(
        auto_open_error("d", "e", "f"),
        "unable to open device input 'd' via auto detection (v4l2 attempt: e; generic attempt: f)"
    );
    assert!(validate_input_format_name("video4linux2").is_ok());
    assert!(validate_input_format_name("a\0b").unwrap_err().contains("interior null byte"));
    assert!(missing_input_format("x").contains("'x' input format"));
    assert_eq!(missing_video_stream("x"), "no video stream was found in 'x'");
    assert_eq!(codec_name(&VideoCodec::H264), Ok("h264"));
    assert!(codec_name(&VideoCodec::Hevc).is_err());
    assert!(codec_name(&VideoCodec::Other("VP8".to_string())).unwrap_err().contains("'VP8'"));
}

#[test]
fn workers_are_held_to_what_they_can_do() {
    let refused = |pipeline: &CompiledPipeline| {
        worker_spec_for_pipeline(pipeline).expect_err("should be refused").to_string()
    };
    let mut pipeline = compiled_pipeline("h264", "nvenc", None);
    assert!(refused(&pipeline).contains("requested encoder 'nvenc'"));
    pipeline.codec_path = CodecPath::HardwareTranscode;
    assert!(refused(&pipeline).contains("requires 'hardware' or 'v4l2m2m'"));
    pipeline.codec_path = CodecPath::Passthrough;
    assert!(refused(&pipeline).contains("while compiled for passthrough"));
    assert!(transcode_backend_for_pipeline(&pipeline).is_err());
    let mut pipeline = compiled_pipeline(" H264 ", " LibX264", None);
    assert!(worker_spec_for_pipeline(&pipeline).is_ok());
    pipeline.processing.as_mut().unwrap().frame_rate = 0;
    assert!(refused(&pipeline).contains("positive frame_rate"));
    pipeline.processing = None;
    assert!(refused(&pipeline).contains("compiled for transcode but has no processing profile"));
    pipeline.strategy = StreamStrategy::HardwareDecode;
    assert!(refused(&pipeline).contains("compiled for hardware decode"));
    pipeline.strategy = StreamStrategy::Passthrough;
    pipeline.network = None;
    let spec = worker_spec_for_pipeline(&pipeline).unwrap();
    assert_eq!(spec.input_spec, InputSpec::Rtsp { transport: Transport::Tcp });
    assert_eq!(
        spec.mode,
        WorkerMode::Passthrough { default_frame_duration: Duration::from_millis(33) }
    );
    pipeline.input.kind = InputType::Device;
    assert!(refused(&pipeline).contains("invalid FFmpeg RTSP backend"));
}

fn raw(pts: Option<i64>, duration: i64, data: Option<&[u8]>) -> RawPacket {
    RawPacket { pts, duration, is_key: false, data: data.map(|data| data.to_vec()) }
}

#[test]
fn packets_of_the_stream_are_passed_on() {
    let stream = StreamFacts {
        index: 1,
        codec: VideoCodec::H264,
        extradata: None,
        time_base: Rational { numerator: 1, denominator: 1_000 },
        avg_frame_rate: Rational { numerator: 0, denominator: 0 },
    };
    let demuxer = Demuxer::new(&stream, Duration::from_millis(33)).unwrap();
    let packet = raw(Some(5), 0, Some(&[0, 0, 0, 2, 0x41, 0x9A]));
    assert_eq!(demuxer.step(true, 1, &packet), DemuxAction::Stop);
    assert_eq!(demuxer.step(false, 0, &packet), DemuxAction::Skip);
    match demuxer.step(false, 1, &packet) {
        DemuxAction::Send(out) => {
            assert_eq!(out.codec, "h264");
            assert_eq!(out.timestamp, Some(Duration::from_millis(5)));
            assert_eq!(out.duration, Some(Duration::from_millis(33)));
            assert_eq!(out.data, [0, 0, 0, 1, 0x41, 0x9A]);
        }
        other => panic!("expected a packet, got {:?}", other),
    }
    match demuxer.step(false, 1, &raw(None, 40, None)) {
        DemuxAction::Fail(error) => assert_eq!(error, "ffmpeg returned a packet with no payload"),
        other => panic!("expected a failure, got {:?}", other),
    }
    let hevc = StreamFacts { codec: VideoCodec::Hevc, ..stream };
    assert!(Demuxer::new(&hevc, Duration::zero()).unwrap_err().contains("H.265"));
    let time_base = Rational { numerator: 1, denominator: 25 };
    let out = encoded_packet(&raw(None, 1, Some(&[0, 0, 1, 0x41])), time_base, Duration::zero(), &None)
        .unwrap();
    assert_eq!(out.timestamp, None);
    assert_eq!(out.duration, Some(Duration::from_millis(40)));
    assert_eq!(
        encoded_packet(&raw(None, 1, None), time_base, Duration::zero(), &None).unwrap_err(),
        "encoder returned a packet with no payload"
    );
}

#[test]
fn workers_report_how_they_end() {
    let pipeline = compiled_pipeline("h264", "software", None);
    let spec = worker_spec_for_pipeline(&pipeline).unwrap();
    assert_eq!(start_worker(&spec, true), WorkerStart::Transcode);
    assert!(matches!(
        start_worker(&spec, false),
        WorkerStart::Report(WorkerMessage::Error(_))
    ));
    assert_eq!(finish_worker(&spec, Ok(())), WorkerMessage::EndOfStream);
    assert_eq!(
        finish_worker(&spec, Err("x".to_string())),
        WorkerMessage::RecoverableError(
            "pipeline 'camera_a' failed during FFmpeg execution: x".to_string()
        )
    );
}

#[test]
fn local_files_are_read_at_their_pace() {
    let millis = Rational { numerator: 1, denominator: 1_000 };
    let mut file = TranscodeLoop::new(0, millis, true);
    let at = Duration::from_millis;
    assert_eq!(
        file.step(false, 0, Some(100), at(0)),
        TranscodeAction::Feed { delay: None }
    );
    assert_eq!(
        file.step(false, 0, Some(140), at(10)),
        TranscodeAction::Feed { delay: Some(at(30)) }
    );
    assert_eq!(file.step(false, 0, Some(180), at(90)), TranscodeAction::Feed { delay: None });
    assert_eq!(file.step(false, 0, Some(50), at(90)), TranscodeAction::Feed { delay: None });
    assert_eq!(file.step(false, 1, Some(500), at(0)), TranscodeAction::Skip);
    assert_eq!(file.step(true, 0, Some(500), at(0)), TranscodeAction::Stop);
    let mut live = TranscodeLoop::new(0, millis, false);
    assert_eq!(live.step(false, 0, Some(500), at(0)), TranscodeAction::Feed { delay: None });
    assert_eq!(finish_steps()[0], FinishStep::EndDecoder);
    assert_eq!(finish_steps()[5], FinishStep::DrainEncoder);
}

#[test]
fn codecs_are_chosen_by_backend() {
    let decoder = |backend, codec| choose_decoder(backend, &codec);
    assert_eq!(decoder(TranscodeBackend::Software, VideoCodec::Hevc), Ok(DecoderChoice::OfStream));
    assert_eq!(
        decoder(TranscodeBackend::Pi5HardwareDecode, VideoCodec::Hevc),
        Ok(DecoderChoice::Named("hevc_v4l2request"))
    );
    assert_eq!(
        decoder(TranscodeBackend::Pi5HardwareDecode, VideoCodec::H264),
        Ok(DecoderChoice::Named("h264_v4l2request"))
    );
    let other = VideoCodec::Other("VP8".to_string());
    assert!(decoder(TranscodeBackend::Pi5HardwareDecode, other).unwrap_err().ends_with("'VP8'"));
    let facts = |has_libx264, has_h264, has_h264_v4l2m2m| EncoderFacts {
        has_libx264,
        has_h264,
        has_h264_v4l2m2m,
    };
    let encoder = |backend, facts| choose_encoder(backend, &facts);
    assert_eq!(
        encoder(TranscodeBackend::Software, facts(true, true, false)),
        Ok(EncoderChoice::Named("libx264"))
    );
    assert_eq!(
        encoder(TranscodeBackend::Pi5HardwareDecode, facts(false, true, true)),
        Ok(EncoderChoice::AnyH264)
    );
    assert!(encoder(TranscodeBackend::Software, facts(false, false, true)).is_err());
    assert_eq!(
        encoder(TranscodeBackend::Pi4HardwareEncode, facts(true, true, true)),
        Ok(EncoderChoice::Named("h264_v4l2m2m"))
    );
    assert!(encoder(TranscodeBackend::Pi4HardwareEncode, facts(true, true, false)).is_err());
}

#[test]
fn encoders_are_set_up_by_profile() {
    let pipeline = compiled_pipeline("h264", "software", None);
    let mut profile = pipeline.processing.unwrap();
    profile.tune = "  ".to_string();
    profile.preset = " fast ".to_string();
    let square = Rational { numerator: 1, denominator: 1 };
    let settings = encoder_settings(&profile, 1080, 1920, square);
    assert_eq!((settings.width, settings.height), (1080, 1920));
    assert_eq!(settings.frame_rate, Rational { numerator: 25, denominator: 1 });
    assert_eq!(settings.time_base, Rational { numerator: 1, denominator: 25 });
    assert_eq!(settings.bit_rate, 512_000);
    assert_eq!(settings.max_b_frames, 0);
    assert_eq!(settings.gop, 50);
    assert_eq!(settings.options, vec![("preset".to_string(), "fast".to_string())]);
    profile.frame_rate = u32::MAX;
    let settings = encoder_settings(&profile, 1, 1, square);
    assert_eq!(settings.gop, u32::MAX);
    assert_eq!(settings.frame_rate.numerator, u32::MAX as i32);
    profile.frame_rate = 0;
    assert_eq!(nominal_duration(&profile, Duration::from_millis(7)), Duration::from_millis(7));
}

#[test]
fn faults_have_their_texts() {
    let e = || "e".to_string();
    let n = || "n".to_string();
    let cases = vec![
        (TranscodeFault::DecoderContext(e()), "failed to create decoder context: e"),
        (TranscodeFault::OpenDecoder(e()), "failed to open video decoder: e"),
        (
            TranscodeFault::MissingHardwareDecoder { name: n() },
            "the local FFmpeg build does not expose the 'n' hardware decoder",
        ),
        (
            TranscodeFault::OpenHardwareDecoder { name: n(), error: e() },
            "failed to open Raspberry Pi 5 hardware decoder 'n': e",
        ),
        (TranscodeFault::EncoderContext(e()), "failed to create H.264 encoder context: e"),
        (
            TranscodeFault::OpenEncoder { backend: TranscodeBackend::Software, error: e() },
            "failed to open software H.264 encoder: e",
        ),
        (
            TranscodeFault::OpenEncoder {
                backend: TranscodeBackend::Pi4HardwareEncode,
                error: e(),
            },
            "failed to open Raspberry Pi 4 hardware H.264 encoder: e",
        ),
        (
            TranscodeFault::OpenEncoder {
                backend: TranscodeBackend::Pi5HardwareDecode,
                error: e(),
            },
            "failed to open software H.264 encoder after Pi 5 hardware decode: e",
        ),
        (
            TranscodeFault::MissingFilter { name: "buffer".to_string() },
            "FFmpeg 'buffer' filter is unavailable",
        ),
        (
            TranscodeFault::AddFilter { name: "buffersink".to_string(), error: e() },
            "failed to add buffersink filter: e",
        ),
        (TranscodeFault::MissingInputNode, "filter graph is missing the input node"),
        (TranscodeFault::MissingOutputNode, "filter graph is missing the output node"),
        (TranscodeFault::ParseGraph(e()), "failed to parse filter graph: e"),
        (TranscodeFault::ValidateGraph(e()), "failed to validate filter graph: e"),
        (TranscodeFault::SendPacket(e()), "failed to send packet to decoder: e"),
        (TranscodeFault::DecoderEof(e()), "failed to send decoder EOF: e"),
        (TranscodeFault::PushFrame(e()), "failed to push frame into filter graph: e"),
        (TranscodeFault::FlushFilter(e()), "failed to flush video filter graph: e"),
        (TranscodeFault::SendFrame(e()), "failed to send frame to encoder: e"),
        (TranscodeFault::EncoderEof(e()), "failed to send encoder EOF: e"),
    ];
    for (fault, expected) in cases {
        assert_eq!(fault.to_string(), expected);
    }
}

#[test]
fn faults_are_classed() {
    let class = |fault| FfmpegErrorClass::from_ffmpeg_error(&fault);
    assert_eq!(class(FfmpegFault::Eof), FfmpegErrorClass::DeviceLost);
    assert_eq!(class(FfmpegFault::Bug), FfmpegErrorClass::CodecError);
    assert_eq!(class(FfmpegFault::Bug2), FfmpegErrorClass::CodecError);
    assert_eq!(class(FfmpegFault::InvalidData), FfmpegErrorClass::InvalidData);
    assert_eq!(class(FfmpegFault::StreamNotFound), FfmpegErrorClass::InvalidData);
    assert_eq!(class(FfmpegFault::Other), FfmpegErrorClass::Unknown);
    assert!(FfmpegErrorClass::NetworkStall.is_recoverable());
    assert_eq!(
        map_ffmpeg_error("reading", FfmpegFault::Eof, "End of file"),
        RuntimeError::recoverable("reading (recoverable DeviceLost): End of file")
    );
    assert_eq!(
        map_ffmpeg_error("reading", FfmpegFault::Other, "x"),
        RuntimeError::adapter("reading (Unknown): x")
    );
}

#[test]
fn builds_are_reported_as_they_were_found() {
    let nothing = FfmpegFacts {
        initialized: false,
        has_h264_v4l2m2m_encoder: true,
        has_h264_v4l2request_decoder: true,
        has_hevc_v4l2request_decoder: true,
        has_video4linux2_input: true,
    };
    assert!(!ffmpeg_capabilities(&nothing).capabilities.has_pi4_h264_encoder);
    let host = ffmpeg_capabilities(&FfmpegFacts {
        initialized: true,
        has_h264_v4l2request_decoder: false,
        ..nothing
    });
    assert!(host.capabilities.ffmpeg_available);
    assert!(host.capabilities.v4l2_available);
    assert!(host.capabilities.has_pi4_h264_encoder);
    assert!(host.capabilities.has_pi5_stateless_decoder);
    assert!(!host.capabilities.has_drawtext_filter);
}

#[test]
fn mock_inputs_are_made_up() {
    let mut pipeline = compiled_pipeline("h265", "software", None);
    pipeline.input.source = "rtsp://mock/stream".to_string();
    assert_eq!(FfmpegSourceFactory::new().plan_source(&pipeline), Ok(SourcePlan::Mock));
    match mock_message(3) {
        WorkerMessage::Packet(packet) => {
            assert_eq!(packet.timestamp, Some(Duration::from_millis(99)));
            assert_eq!(packet.duration, Some(Duration::from_millis(33)));
            assert!(!packet.is_keyframe);
            assert_eq!(packet.data, [0, 0, 0, 1, 0x65, 3, 0, 0, 0]);
        }
        other => panic!("expected a packet, got {:?}", other),
    }
    assert_eq!(mock_message(5), WorkerMessage::EndOfStream);
    assert_eq!(worker_thread_name("a"), "caml-ffmpeg-a");
    assert_eq!(
        spawn_error("a", "EAGAIN"),
        RuntimeError::adapter("failed to spawn FFmpeg worker for 'a': EAGAIN")
    );
}

#[test]
fn reports_become_payloads() {
    let mut pool = BufferPool::new(16);
    let message = Some(mock_message(0));
    assert_eq!(copied_bytes(&message), Some(9));
    match payload_from_message(message, &mut pool).unwrap() {
        MediaPayload::EncodedPacket(packet) => {
            assert!(packet.is_keyframe);
            assert_eq!(packet.data.as_slice(), &[0, 0, 0, 1, 0x65, 0, 0, 0, 0]);
        }
        other => panic!("expected a packet, got {:?}", other),
    }
    assert_eq!(pool.stats().in_use, 1);
    assert_eq!(payload_from_message(None, &mut pool), Ok(MediaPayload::EndOfStream));
    let end = Some(WorkerMessage::EndOfStream);
    assert_eq!(copied_bytes(&end), None);
    assert_eq!(payload_from_message(end, &mut pool), Ok(MediaPayload::EndOfStream));
    assert_eq!(
        payload_from_message(Some(WorkerMessage::RecoverableError("x".to_string())), &mut pool),
        Err(RuntimeError::recoverable("x"))
    );
    assert_eq!(
        payload_from_message(Some(WorkerMessage::Error("x".to_string())), &mut pool),
        Err(RuntimeError::source("x"))
    );
    assert_eq!(pool.stats().in_use, 1);
}

#[test]
fn key_frames_keep_their_parameter_sets_whatever_follows() {
    let sets = vec![0, 0, 0, 1, 0x67, 0x64, 0, 0, 0, 1, 0x68, 0xEE, 0];
    let config = H264Config { nalu_length_size: 4, parameter_sets_annexb: sets.clone() };
    let frame = [0, 0, 1, 0x65, 0x88];
    let once = normalize_h264_payload(&frame, true, Some(&config)).unwrap();
    assert_eq!(once, [sets.as_slice(), frame.as_slice()].concat());
    assert_eq!(annex_b_parameter_sets(&once), (true, true));
    assert_eq!(normalize_h264_payload(&once, true, Some(&config)).unwrap(), once);
    let record = [
        1, 0x64, 0, 0x1F, 0xFF, 0xE1, 0, 6, 0x67, 0x64, 0, 0, 1, 0x09, 1, 0, 3, 0x68, 0xEE, 0,
    ];
    let read = extract_h264_config(Some(record.as_slice())).unwrap().unwrap();
    assert_eq!(annex_b_parameter_sets(&read.parameter_sets_annexb), (true, true));
}
