//! The WebRTC sink.

use std::collections::hash_map::DefaultHasher;
use std::collections::VecDeque;
use std::hash::{Hash, Hasher};

use caml::frontend::DropPolicy as WrittenPolicy;
use caml::time::Duration;
use caml::webrtc::clock::{
    duration_to_rtp_samples, duration_to_rtp_samples_with_rate, ReleasePlan, SenderClock,
};
use caml::webrtc::config::{
    lateness_budget, sink_config_for_pipeline, stable_ssrc, WebRtcSinkConfig,
};
use caml::webrtc::queue::{
    accept_payload, drop_oldest_prefer_delta, DequeueOutcome, EnqueueOutcome, WebRtcSharedState,
};
use caml::webrtc::rtp::RtpPacket;
use caml::webrtc::sender::{write_result, SenderAction, WebRtcSender, WriteOutcome};
use caml::{
    CompiledNetworkProfile, CompiledPipeline, DecodedFrame, DropPolicy, EncodedPacket,
    MediaPayload, MediaStorage, OutputProfile, RuntimeError, Transport,
};

fn build_pipeline(queue_limit: Option<usize>, drop_policy: WrittenPolicy) -> CompiledPipeline {
    let mut pipeline = CompiledPipeline::sentinel();
    pipeline.id = "camera_a".to_string();
    pipeline.outputs = vec![OutputProfile::WebrtcRtp {
        codec: Some("h264".to_string()),
        payload_type: Some(123),
        mtu: Some(1400),
        ssrc: Some("9999".to_string()),
        clock_rate: Some(90000),
        queue_limit,
        drop_policy,
    }];
    pipeline
}

fn encoded_packet(
    timestamp: Option<Duration>,
    duration: Option<Duration>,
    is_keyframe: bool,
    byte: u8,
) -> EncodedPacket {
    EncodedPacket {
        codec: "h264".to_string(),
        timestamp,
        duration,
        is_keyframe,
        data: MediaStorage::from_vec(vec![
            0x00, 0x00, 0x00, 0x01, 0x65, byte, 0x84, 0x21, 0xA0, 0x10, 0xFF, 0xEE,
        ]),
    }
}

fn at(millis: u64) -> Option<Duration> {
    Some(Duration::from_millis(millis))
}

/// A sink whose task is run by hand, at the times that the test says.
struct Sink {
    state: WebRtcSharedState,
    config: WebRtcSinkConfig,
    sender: WebRtcSender,
    now: u64,
    waits: Vec<Duration>,
    written: Vec<RtpPacket>,
    copied: Vec<usize>,
}

impl Sink {
    fn new(pipeline: &CompiledPipeline) -> Sink {
        let config = sink_config_for_pipeline(pipeline).expect("sink should build");
        let sender =
            WebRtcSender::new(sink_config_for_pipeline(pipeline).expect("sink should build").sender);
        Sink {
            state: WebRtcSharedState::default(),
            config,
            sender,
            now: 1_000,
            waits: Vec::new(),
            written: Vec::new(),
            copied: Vec::new(),
        }
    }

    fn bring(&mut self, packet: EncodedPacket) -> EnqueueOutcome {
        self.state.enqueue(
            packet,
            "camera_a",
            self.config.queue_limit,
            self.config.drop_policy,
        )
    }

    /// Brings a packet, and begins to send it; the writer holds what it is to write.
    fn hold(&mut self, packet: EncodedPacket) -> RtpPacket {
        assert_eq!(self.bring(packet), EnqueueOutcome::Queued);
        let next = self.state.dequeue();
        match self.sender.taken(next, Duration::from_millis(self.now)).action {
            SenderAction::Write(held) => held,
            other => panic!("expected a packet to write, got {:?}", other),
        }
    }

    /// Lets the writer go on with what it holds, and sends all that waits.
    fn let_go(&mut self, held: RtpPacket) -> Result<(), RuntimeError> {
        self.run_from(SenderAction::Write(held))
    }

    /// Sends all that waits.
    fn run(&mut self) -> Result<(), RuntimeError> {
        self.run_from(SenderAction::Dequeue)
    }

    fn run_from(&mut self, first: SenderAction) -> Result<(), RuntimeError> {
        let mut action = first;
        loop {
            let step = match action {
                SenderAction::Dequeue => {
                    let next = self.state.dequeue();
                    self.sender.taken(next, Duration::from_millis(self.now))
                }
                SenderAction::Sleep(wait) => {
                    self.now += wait.as_millis() as u64;
                    self.waits.push(wait);
                    self.sender.woken(Duration::from_millis(self.now))
                }
                SenderAction::Write(packet) => {
                    self.written.push(packet);
                    self.sender.written(WriteOutcome::Written)
                }
                SenderAction::AwaitFrame | SenderAction::Stop => return Ok(()),
                SenderAction::Fail(error) => {
                    self.state.fail(error);
                    return self.state.shared_error();
                }
            };
            self.copied.extend(step.copied);
            action = step.action;
        }
    }

    fn flush(&mut self) -> Result<(), RuntimeError> {
        self.state.close();
        self.run()?;
        self.state.shared_error()
    }
}

#[test]
fn packetizes_annex_b_h264_into_rtp_packets() {
    let mut sink = Sink::new(&build_pipeline(None, WrittenPolicy::Block));
    sink.bring(encoded_packet(at(0), at(40), true, 0x10));
    sink.flush().expect("flush should succeed");

    assert!(!sink.written.is_empty());
    assert_eq!(sink.written.first().unwrap().payload_type, 123);
    assert_eq!(sink.written.first().unwrap().ssrc, 9999);
    assert!(sink.written.last().unwrap().marker);
    assert_eq!(sink.written[0].payload, [0x65, 0x10, 0x84, 0x21, 0xA0, 0x10, 0xFF, 0xEE]);
    assert_eq!(sink.copied, [12]);
}

#[test]
fn rejects_non_h264_encoded_packets() {
    let mut sink = Sink::new(&build_pipeline(None, WrittenPolicy::Block));
    let outcome = sink.bring(EncodedPacket {
        codec: "h265".to_string(),
        ..encoded_packet(at(0), None, true, 0x10)
    });
    assert_eq!(outcome, EnqueueOutcome::Queued);

    let error = sink.flush().expect_err("codec mismatch should surface at flush");
    assert!(error.to_string().contains("only packetizes H.264"));
    let outcome = sink.bring(encoded_packet(at(0), None, true, 0x10));
    let packet = encoded_packet(at(0), None, true, 0x10);
    assert_eq!(outcome, EnqueueOutcome::Refused { error, packet });
}

#[test]
fn converts_duration_to_rtp_samples() {
    assert_eq!(duration_to_rtp_samples(Duration::from_millis(40)), 3_600);
    assert_eq!(duration_to_rtp_samples(Duration::zero()), 1);
    assert_eq!(duration_to_rtp_samples(Duration::from_secs(u64::MAX)), u32::MAX);
    assert_eq!(duration_to_rtp_samples_with_rate(Duration::from_secs(2), 48_000), 96_000);
}

#[test]
fn test_custom_config_propagation() {
    let mut sink = Sink::new(&build_pipeline(None, WrittenPolicy::Block));
    sink.bring(encoded_packet(at(0), at(40), true, 0x11));
    sink.flush().expect("flush should succeed");

    assert!(!sink.written.is_empty());
    assert_eq!(sink.written[0].ssrc, 9999);
    assert_eq!(sink.written[0].payload_type, 123);
}

#[test]
fn paces_in_order_frames_from_timestamps() {
    let mut sink = Sink::new(&build_pipeline(None, WrittenPolicy::Block));
    sink.bring(encoded_packet(at(0), at(60), true, 0x20));
    sink.bring(encoded_packet(at(60), at(60), false, 0x21));
    sink.flush().unwrap();

    assert!(sink.written.len() >= 2);
    assert_eq!(sink.waits, [Duration::from_millis(60)]);
    let last = sink.written.last().unwrap();
    assert_eq!(last.timestamp, sink.written[0].timestamp.wrapping_add(5_400));
    assert_eq!(last.sequence_number, sink.written[0].sequence_number.wrapping_add(1));
}

#[test]
fn drops_regressing_timestamps() {
    let mut sink = Sink::new(&build_pipeline(None, WrittenPolicy::Block));
    sink.bring(encoded_packet(at(60), at(33), true, 0x30));
    sink.bring(encoded_packet(at(30), at(33), false, 0x31));
    sink.flush().unwrap();

    assert_eq!(sink.written.len(), 1);
}

#[test]
fn drops_overly_late_delta_frames_before_packetization() {
    let mut sink = Sink::new(&build_pipeline(None, WrittenPolicy::Block));
    sink.bring(encoded_packet(at(0), at(33), true, 0x40));
    sink.run().unwrap();
    sink.now += 130;
    sink.bring(encoded_packet(at(10), at(33), false, 0x41));
    sink.flush().unwrap();

    assert_eq!(sink.written.len(), 1);
    assert_eq!(sink.copied.len(), 1);
}

#[test]
fn late_keyframes_are_sent_unless_a_newer_one_waits() {
    let mut sink = Sink::new(&build_pipeline(None, WrittenPolicy::Block));
    sink.bring(encoded_packet(at(0), at(33), true, 0x40));
    sink.run().unwrap();
    sink.now += 130;
    sink.bring(encoded_packet(at(10), at(33), true, 0x41));
    sink.run().unwrap();
    assert_eq!(sink.written.len(), 2);
    sink.now += 130;
    sink.bring(encoded_packet(at(20), at(33), true, 0x42));
    sink.bring(encoded_packet(at(30), at(33), true, 0x43));
    sink.flush().unwrap();
    assert_eq!(sink.written.len(), 3);
}

#[test]
fn keyframes_survive_drop_oldest_preference() {
    let mut queue = VecDeque::new();
    queue.push_back(encoded_packet(at(0), None, true, 0x50));
    queue.push_back(encoded_packet(at(33), None, false, 0x51));
    queue.push_back(encoded_packet(at(66), None, false, 0x52));

    let dropped = drop_oldest_prefer_delta(&mut queue).expect("one packet should drop");
    assert!(!dropped.is_keyframe);
    assert!(queue.iter().any(|packet| packet.is_keyframe));
    assert_eq!(dropped.timestamp, at(33));
    drop_oldest_prefer_delta(&mut queue);
    assert!(drop_oldest_prefer_delta(&mut queue).unwrap().is_keyframe);
    assert!(drop_oldest_prefer_delta(&mut queue).is_none());
}

#[test]
fn drop_newest_single_sink_does_not_block_ingress() {
    let mut sink = Sink::new(&build_pipeline(Some(1), WrittenPolicy::DropNewest));
    let held = sink.hold(encoded_packet(at(0), None, true, 0x60));
    assert_eq!(sink.bring(encoded_packet(at(33), None, false, 0x61)), EnqueueOutcome::Queued);
    let newest = encoded_packet(at(66), None, false, 0x62);
    assert_eq!(sink.bring(newest.clone()), EnqueueOutcome::Dropped(newest));
    sink.let_go(held).unwrap();
    sink.flush().unwrap();
    assert_eq!(sink.written.len(), 2);
}

#[test]
fn block_single_sink_applies_backpressure() {
    let mut sink = Sink::new(&build_pipeline(Some(1), WrittenPolicy::Block));
    let held = sink.hold(encoded_packet(at(0), None, true, 0x70));
    assert_eq!(sink.bring(encoded_packet(at(33), None, false, 0x71)), EnqueueOutcome::Queued);
    let third = encoded_packet(at(66), None, false, 0x72);
    assert_eq!(sink.bring(third.clone()), EnqueueOutcome::Wait(third.clone()));
    sink.let_go(held).unwrap();
    assert_eq!(sink.bring(third), EnqueueOutcome::Queued);
    sink.flush().unwrap();
    assert_eq!(sink.written.len(), 3);
}

#[test]
fn drop_oldest_makes_room() {
    let mut sink = Sink::new(&build_pipeline(Some(1), WrittenPolicy::DropOldest));
    sink.bring(encoded_packet(at(33), None, true, 0x71));
    let outcome = sink.bring(encoded_packet(at(66), None, false, 0x72));
    let oldest = encoded_packet(at(33), None, true, 0x71);
    assert_eq!(outcome, EnqueueOutcome::QueuedAfterDrop(Some(oldest)));
    match sink.state.dequeue() {
        DequeueOutcome::Packet(next) => {
            assert_eq!(next.packet.timestamp, at(66));
            assert!(!next.newer_keyframe_queued);
        }
        other => panic!("expected a packet, got {:?}", other),
    }
    assert_eq!(sink.state.dequeue(), DequeueOutcome::Wait);
    sink.state.close();
    assert_eq!(sink.state.dequeue(), DequeueOutcome::Closed);
    match sink.bring(encoded_packet(at(99), None, false, 0x73)) {
        EnqueueOutcome::Refused { error, packet } => {
            assert!(error.to_string().contains("is closed"));
            assert_eq!(packet.timestamp, at(99));
        }
        other => panic!("expected a refusal, got {:?}", other),
    }
}

#[test]
fn frames_without_times_follow_each_other() {
    let mut sink = Sink::new(&build_pipeline(None, WrittenPolicy::Block));
    sink.bring(encoded_packet(None, at(20), true, 1));
    sink.bring(encoded_packet(None, None, false, 2));
    sink.bring(encoded_packet(None, None, false, 3));
    sink.flush().unwrap();
    assert_eq!(sink.waits, [Duration::from_millis(20), Duration::from_millis(33)]);
    assert_eq!(sink.written.len(), 3);
}

#[test]
fn large_frames_are_cut_into_packets() {
    let mut pipeline = build_pipeline(None, WrittenPolicy::Block);
    if let OutputProfile::WebrtcRtp { mtu, .. } = &mut pipeline.outputs[0] {
        *mtu = Some(112);
    }
    let mut sink = Sink::new(&pipeline);
    let mut data = vec![0, 0, 0, 1, 0x65];
    data.extend(vec![7u8; 299]);
    sink.bring(EncodedPacket {
        data: MediaStorage::from_vec(data),
        ..encoded_packet(at(0), at(40), true, 0)
    });
    sink.flush().unwrap();
    let lengths: Vec<usize> = sink.written.iter().map(|packet| packet.payload.len()).collect();
    assert_eq!(lengths, [100, 100, 100, 7]);
    let first = sink.written[0].sequence_number;
    for (index, packet) in sink.written.iter().enumerate() {
        assert_eq!(packet.sequence_number, first.wrapping_add(index as u16));
        assert_eq!(packet.timestamp, sink.written[0].timestamp);
        assert_eq!(packet.marker, index == 3);
    }
}

#[test]
fn parameter_sets_go_before_the_next_picture() {
    let mut sink = Sink::new(&build_pipeline(None, WrittenPolicy::Block));
    let sets = vec![0, 0, 0, 1, 0x67, 1, 2, 0, 0, 0, 1, 0x68, 3];
    sink.bring(EncodedPacket {
        data: MediaStorage::from_vec(sets),
        ..encoded_packet(at(0), at(40), true, 0)
    });
    sink.run().unwrap();
    assert!(sink.written.is_empty());
    sink.bring(encoded_packet(at(40), at(40), true, 9));
    sink.flush().unwrap();
    assert_eq!(sink.written.len(), 2);
    assert_eq!(sink.written[0].payload, [0x78, 0, 3, 0x67, 1, 2, 0, 2, 0x68, 3]);
}

#[test]
fn writes_that_fail_end_the_sender() {
    let mut sink = Sink::new(&build_pipeline(None, WrittenPolicy::Block));
    sink.bring(encoded_packet(at(0), at(40), true, 1));
    let next = sink.state.dequeue();
    let step = sink.sender.taken(next, Duration::zero());
    assert!(matches!(step.action, SenderAction::Write(_)));
    assert!(sink.sender.take_finished().is_empty());
    let step = sink.sender.written(WriteOutcome::TimedOut);
    assert_eq!(sink.sender.take_finished(), vec![encoded_packet(at(0), at(40), true, 1)]);
    assert_eq!(
        step.action,
        SenderAction::Fail(RuntimeError::sink(
            "WebRTC track write stalled due to backpressure timeout"
        ))
    );
    assert_eq!(
        write_result(WriteOutcome::Failed("closed".to_string())),
        Err(RuntimeError::sink("failed to write RTP packet: closed"))
    );
    assert_eq!(write_result(WriteOutcome::Written), Ok(()));
}

#[test]
fn frames_are_handed_out_when_they_are_done_with() {
    let mut sink = Sink::new(&build_pipeline(None, WrittenPolicy::Block));
    let sent = encoded_packet(at(60), at(33), true, 0x30);
    let back_in_time = encoded_packet(at(30), at(33), false, 0x31);
    let delayed = encoded_packet(at(90), at(33), false, 0x32);
    for packet in [&sent, &back_in_time, &delayed] {
        sink.bring(packet.clone());
    }
    sink.run().unwrap();
    assert_eq!(sink.sender.take_finished(), vec![sent, back_in_time, delayed]);
    assert!(sink.sender.take_finished().is_empty());
    sink.now += 500;
    let late = encoded_packet(at(100), at(33), false, 0x33);
    let foreign =
        EncodedPacket { codec: "h265".to_string(), ..encoded_packet(at(900), None, true, 0x34) };
    sink.bring(late.clone());
    sink.bring(foreign.clone());
    assert!(sink.run().is_err());
    assert_eq!(sink.sender.take_finished(), vec![late, foreign]);
    assert_eq!(sink.written.len(), 2);
}

#[test]
fn sinks_are_configured_with_defaults() {
    let mut pipeline = CompiledPipeline::sentinel();
    pipeline.id = "camera_a".to_string();
    pipeline.network = None;
    pipeline.processing = None;
    pipeline.outputs = Vec::new();
    let config = sink_config_for_pipeline(&pipeline).unwrap();
    assert_eq!(config.sender.codec, "h264");
    assert_eq!(config.sender.payload_type, 102);
    assert_eq!(config.sender.packet_size_limit, 1200);
    assert_eq!(config.sender.clock_rate, 90_000);
    assert_eq!(config.sender.ssrc, stable_ssrc("camera_a"));
    assert_eq!(config.sender.lateness_budget, Duration::from_millis(66));
    assert_eq!(config.queue_limit, 10);
    assert_eq!(config.drop_policy, DropPolicy::Block);
    pipeline.network = Some(CompiledNetworkProfile {
        transport: Transport::Udp,
        packet_size_limit: 12,
        stall_timeout: Duration::from_secs(1),
    });
    let error = sink_config_for_pipeline(&pipeline).unwrap_err().to_string();
    assert!(error.contains("packet_size_limit 12 is too small for RTP output"));
    let none = sink_config_for_pipeline(&build_pipeline(Some(0), WrittenPolicy::Block));
    assert!(none.unwrap_err().to_string().contains("queue_limit must be at least 1"));
    assert_eq!(lateness_budget(Some(Duration::from_millis(1))), Duration::from_millis(50));
}

#[test]
fn sources_are_numbered_by_the_standard_hash() {
    for name in ["camera_a", "", "K\u{e4}mera"] {
        let mut hasher = DefaultHasher::new();
        name.hash(&mut hasher);
        assert_eq!(stable_ssrc(name), hasher.finish() as u32);
    }
    assert_ne!(stable_ssrc("a"), stable_ssrc("b"));
}

#[test]
fn pictures_are_refused() {
    let frame = MediaPayload::DecodedFrame(DecodedFrame {
        pixel_format: "NV12".to_string(),
        width: 1,
        height: 1,
        timestamp: None,
        data: MediaStorage::from_vec(vec![0]),
    });
    let refused = accept_payload("camera_a", frame).unwrap_err();
    assert!(refused.error.to_string().contains("produced decoded frames"));
    assert_eq!(refused.frame.data.as_slice(), &[0]);
    assert_eq!(accept_payload("camera_a", MediaPayload::EndOfStream), Ok(None));
    let packet = encoded_packet(at(0), None, true, 1);
    let accepted = accept_payload("camera_a", MediaPayload::EncodedPacket(packet.clone()));
    assert_eq!(accepted, Ok(Some(packet)));
}

#[test]
fn clocks_plan_by_the_first_frame() {
    let mut clock = SenderClock::default();
    let second = Duration::from_secs(1);
    let plan = clock.plan_release(at(500), second, second, true, false, Duration::from_secs(9));
    assert_eq!(plan, ReleasePlan::Send);
    let plan = clock.plan_release(at(1500), second, second, true, false, Duration::from_secs(9));
    assert_eq!(plan, ReleasePlan::Wait(second));
    let late = Duration::from_secs(12);
    let plan = clock.plan_release(at(1500), second, second, false, false, late);
    assert_eq!(plan, ReleasePlan::Drop);
}
