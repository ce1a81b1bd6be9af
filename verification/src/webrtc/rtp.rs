//! RTP packets: how frames are cut into them.

use vstd::prelude::*;

use crate::error::RuntimeError;
use crate::runtime::media::EncodedPacket;
use crate::text;
use crate::webrtc::clock;
use crate::webrtc::config::{WebRtcSenderConfig, RTP_HEADER_SIZE};

verus! {

/// An RTP packet without padding, extensions or contributing sources.
#[derive(Debug, PartialEq, Eq)]
pub struct RtpPacket {
    pub marker: bool,
    pub payload_type: u8,
    pub sequence_number: u16,
    pub timestamp: u32,
    pub ssrc: u32,
    pub payload: Vec<u8>,
}

/// Cuts frames into packets, with the packetizer of the `rtp` crate for H.264. The
/// packetizer has a type without a name, so it is kept behind the trait of the crate.
#[verifier::external_body]
pub struct H264Packetizer {
    inner: Box<dyn rtp::packetizer::Packetizer + Send + Sync>,
}

/// What there is to know of a packetizer.
pub struct PacketizerState {
    /// The largest packet, header included.
    pub mtu: nat,
    pub payload_type: u8,
    pub ssrc: u32,
    /// The number of the next packet.
    pub sequence_number: u16,
    /// The timestamp of the next frame.
    pub timestamp: u32,
    /// The parameter sets that came and were not sent yet.
    pub sps: Option<Seq<u8>>,
    pub pps: Option<Seq<u8>>,
}

/// What a packetizer holds.
pub uninterp spec fn packetizer_state(packetizer: H264Packetizer) -> PacketizerState;

/// What `rtp::codecs::h264::H264Payloader::payload` makes of a frame, given the parameter
/// sets that it keeps and the room in a packet: the payloads, and the parameter sets that
/// it keeps then.
pub uninterp spec fn h264_payloads(
    sps: Option<Seq<u8>>,
    pps: Option<Seq<u8>>,
    room: nat,
    frame: Seq<u8>,
) -> (Seq<Seq<u8>>, Option<Seq<u8>>, Option<Seq<u8>>);

/// A number after a number of steps in 16 bits.
pub open spec fn sequence_after(sequence_number: u16, steps: nat) -> u16 {
    ((sequence_number as nat + steps) % 0x1_0000) as u16
}

/// A timestamp after a number of ticks in 32 bits.
pub open spec fn timestamp_after(timestamp: u32, samples: u32) -> u32 {
    ((timestamp as nat + samples as nat) % 0x1_0000_0000) as u32
}

/// Whether packets carry the given payloads, one each and in their order: numbered one
/// after the other, with one timestamp, the last one marked.
pub open spec fn carries(
    packets: Seq<RtpPacket>,
    state: PacketizerState,
    payloads: Seq<Seq<u8>>,
) -> bool {
    &&& packets.len() == payloads.len()
    &&& forall|i: int|
        0 <= i < packets.len() ==> {
            let packet = #[trigger] packets[i];
            &&& packet.marker == (i == packets.len() - 1)
            &&& packet.payload_type == state.payload_type
            &&& packet.ssrc == state.ssrc
            &&& packet.timestamp == state.timestamp
            &&& packet.sequence_number == sequence_after(state.sequence_number, i as nat)
            &&& packet.payload@ == payloads[i]
        }
}

/// The room for a payload in a packet.
pub open spec fn room(state: PacketizerState) -> nat {
    (state.mtu - RTP_HEADER_SIZE) as nat
}

/// Whether packets are what a packetizer makes of a frame, given what the payloader makes
/// of it, and `after` is what it holds then. Every payload has at least one byte, and none
/// is longer than the room.
pub open spec fn is_packetized(
    packets: Seq<RtpPacket>,
    before: PacketizerState,
    after: PacketizerState,
    payloaded: (Seq<Seq<u8>>, Option<Seq<u8>>, Option<Seq<u8>>),
    samples: u32,
) -> bool {
    &&& carries(packets, before, payloaded.0)
    &&& forall|i: int|
        0 <= i < packets.len() ==> 1 <= (#[trigger] packets[i]).payload@.len() <= room(before)
    &&& after == PacketizerState {
        sequence_number: sequence_after(before.sequence_number, packets.len()),
        timestamp: timestamp_after(before.timestamp, samples),
        sps: payloaded.1,
        pps: payloaded.2,
        ..before
    }
}

/// Makes a packetizer with `rtp::packetizer::new_packetizer`, an `H264Payloader` that
/// keeps no parameter sets, and `rtp::sequence::new_random_sequencer`. The first number
/// and the first timestamp are left to chance.
#[verifier::external_body]
fn new_h264_packetizer(mtu: usize, payload_type: u8, ssrc: u32, clock_rate: u32) -> (r:
    H264Packetizer)
    ensures
        packetizer_state(r).mtu == mtu,
        packetizer_state(r).payload_type == payload_type,
        packetizer_state(r).ssrc == ssrc,
        packetizer_state(r).sps is None,
        packetizer_state(r).pps is None,
{
    H264Packetizer {
        inner: Box::new(
            rtp::packetizer::new_packetizer(
                mtu,
                payload_type,
                ssrc,
                Box::new(rtp::codecs::h264::H264Payloader::default()),
                Box::new(rtp::sequence::new_random_sequencer()),
                clock_rate,
            ),
        ),
    }
}

/// Cuts a frame into packets with `rtp::packetizer::Packetizer::packetize`, whose
/// arithmetic needs more room than the 12 bytes of a header. It never fails for H.264. The
/// packets carry the payloads that the payloader makes, each of at least one byte and none
/// longer than the room; the timestamp moves on by the given number of ticks.
#[verifier::external_body]
fn packetize_frame(packetizer: &mut H264Packetizer, frame: &[u8], samples: u32) -> (r: Result<
    Vec<RtpPacket>,
    String,
>)
    requires
        packetizer_state(*old(packetizer)).mtu > 12,
    ensures
        r is Ok,
        is_packetized(
            r->Ok_0@,
            packetizer_state(*old(packetizer)),
            packetizer_state(*final(packetizer)),
            h264_payloads(
                packetizer_state(*old(packetizer)).sps,
                packetizer_state(*old(packetizer)).pps,
                room(packetizer_state(*old(packetizer))),
                frame@,
            ),
            samples,
        ),
{
    let frame = bytes::Bytes::copy_from_slice(frame);
    match packetizer.inner.packetize(&frame, samples) {
        Ok(packets) => Ok(packets.into_iter().map(|packet| RtpPacket {
            marker: packet.header.marker,
            payload_type: packet.header.payload_type,
            sequence_number: packet.header.sequence_number,
            timestamp: packet.header.timestamp,
            ssrc: packet.header.ssrc,
            payload: packet.payload.to_vec(),
        }).collect()),
        Err(error) => Err(error.to_string()),
    }
}

/// What a sender reports of cutting a frame into packets.
pub fn packetize_outcome(pipeline_id: &str, outcome: Result<Vec<RtpPacket>, String>) -> (r: Result<
    Vec<RtpPacket>,
    RuntimeError,
>)
    ensures
        match outcome {
            Ok(packets) => r == Ok::<Vec<RtpPacket>, RuntimeError>(packets),
            Err(message) => r matches Err(RuntimeError::Sink(text)) && text@ == "pipeline '"@
                + pipeline_id@ + "' failed to packetize H.264 RTP payloads: "@ + message@,
        },
{
    match outcome {
        Ok(packets) => Ok(packets),
        Err(message) => {
            let mut text = text::join3(
                "pipeline '",
                pipeline_id,
                "' failed to packetize H.264 RTP payloads: ",
            );
            text.append(message.as_str());
            Err(RuntimeError::Sink(text))
        },
    }
}

/// Cuts the frames of one sink into packets.
pub struct RtpSender {
    packetizer: H264Packetizer,
}

impl RtpSender {
    /// What the packetizer of the sender holds.
    pub closed spec fn state(&self) -> PacketizerState {
        packetizer_state(self.packetizer)
    }

    /// Whether the packets of the sender have room for more than a header.
    pub open spec fn has_room(&self) -> bool {
        self.state().mtu > RTP_HEADER_SIZE
    }

    /// A sender for a sink.
    pub fn new(config: &WebRtcSenderConfig) -> (r: Self)
        requires
            config.packet_size_limit > RTP_HEADER_SIZE,
        ensures
            r.has_room(),
            r.state().mtu == config.packet_size_limit,
            r.state().payload_type == config.payload_type,
            r.state().ssrc == config.ssrc,
            r.state().sps is None,
            r.state().pps is None,
    {
        RtpSender {
            packetizer: new_h264_packetizer(
                config.packet_size_limit,
                config.payload_type,
                config.ssrc,
                config.clock_rate,
            ),
        }
    }

    /// Cuts a frame into packets. The timestamp moves on by the length of the frame.
    pub fn send(&mut self, config: &WebRtcSenderConfig, packet: &EncodedPacket) -> (r: Result<
        Vec<RtpPacket>,
        RuntimeError,
    >)
        requires
            old(self).has_room(),
        ensures
            final(self).has_room(),
            r is Ok,
            is_packetized(
                r->Ok_0@,
                old(self).state(),
                final(self).state(),
                h264_payloads(
                    old(self).state().sps,
                    old(self).state().pps,
                    room(old(self).state()),
                    packet.data@,
                ),
                clock::samples_of(clock::frame_nanos(*config, *packet), config.clock_rate),
            ),
    {
        let samples: u32 = clock::duration_to_rtp_samples_with_rate(
            clock::frame_duration_of(config, packet),
            config.clock_rate,
        );
        let outcome = packetize_frame(&mut self.packetizer, packet.data.as_slice(), samples);
        packetize_outcome(config.pipeline_id.as_str(), outcome)
    }
}

// ---------------------------------------------------------------------------
// Laws
// ---------------------------------------------------------------------------

/// The packets of a frame are numbered one after the other, also where the numbers start
/// again.
pub proof fn packets_are_numbered_in_a_row(
    packets: Seq<RtpPacket>,
    state: PacketizerState,
    payloads: Seq<Seq<u8>>,
    i: int,
)
    requires
        carries(packets, state, payloads),
        0 <= i < packets.len() - 1,
    ensures
        packets[i + 1].sequence_number == sequence_after(packets[i].sequence_number, 1),
        packets[i + 1].timestamp == packets[i].timestamp,
        !packets[i].marker,
{
    let s = state.sequence_number as nat;
    let here = packets[i];
    let next = packets[i + 1];
    assert(here.sequence_number == sequence_after(state.sequence_number, i as nat));
    assert(next.sequence_number == sequence_after(state.sequence_number, (i + 1) as nat));
    assert((((s + i) % 0x1_0000) + 1) % 0x1_0000 == (s + i + 1) % 0x1_0000);
}

/// The numbers go on from frame to frame without a gap.
pub proof fn numbers_go_on_from_frame_to_frame(sequence_number: u16, sent: nat, more: nat)
    ensures
        sequence_after(sequence_after(sequence_number, sent), more) == sequence_after(
            sequence_number,
            sent + more,
        ),
{
    let s = sequence_number as nat;
    assert(((s + sent) % 0x1_0000 + more) % 0x1_0000 == (s + sent + more) % 0x1_0000);
}

/// Numbers of packets and timestamps go up by as much as was sent, and begin again at zero
/// when their bits are used up.
pub proof fn numbers_wrap_around(sequence_number: u16, steps: u16, timestamp: u32, samples: u32)
    ensures
        sequence_number + steps < 0x1_0000 ==> sequence_after(sequence_number, steps as nat)
            == sequence_number + steps,
        sequence_number + steps >= 0x1_0000 ==> sequence_after(sequence_number, steps as nat)
            == sequence_number + steps - 0x1_0000,
        timestamp + samples < 0x1_0000_0000 ==> timestamp_after(timestamp, samples) == timestamp
            + samples,
        timestamp + samples >= 0x1_0000_0000 ==> timestamp_after(timestamp, samples) == timestamp
            + samples - 0x1_0000_0000,
{
}

/// The packets of a frame carry all its payloads in their order, none larger than the
/// packets may be, under the same timestamp, and only the last one is marked. The next
/// frame goes on behind them.
pub proof fn frames_are_carried_whole(
    packets: Seq<RtpPacket>,
    before: PacketizerState,
    after: PacketizerState,
    payloaded: (Seq<Seq<u8>>, Option<Seq<u8>>, Option<Seq<u8>>),
    samples: u32,
)
    requires
        is_packetized(packets, before, after, payloaded, samples),
        before.mtu >= 12,
        packets.len() > 0,
    ensures
        packets.len() == payloaded.0.len(),
        forall|i: int|
            0 <= i < packets.len() ==> {
                &&& (#[trigger] packets[i]).payload@ == payloaded.0[i]
                &&& 12 + packets[i].payload@.len() <= before.mtu
                &&& packets[i].timestamp == before.timestamp
                &&& packets[i].ssrc == before.ssrc
                &&& packets[i].payload_type == before.payload_type
                &&& packets[i].marker <==> i == packets.len() - 1
            },
        packets[0].sequence_number == before.sequence_number,
        packets.len() == 1 && before.sequence_number < 0xFFFF ==> after.sequence_number
            == before.sequence_number + 1,
        before.timestamp + samples < 0x1_0000_0000 ==> after.timestamp == before.timestamp
            + samples,
        after.mtu == before.mtu,
        after.ssrc == before.ssrc,
        after.payload_type == before.payload_type,
        after.sps == payloaded.1,
        after.pps == payloaded.2,
{
    assert(packets[0].sequence_number == sequence_after(before.sequence_number, 0));
}

} // verus!
