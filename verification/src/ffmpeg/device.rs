//! Inputs: how they are opened, and how their times are read.

use vstd::prelude::*;

use crate::compiler::{CompiledProcessingProfile, ResolvedInputBackend};
use crate::ffmpeg::filter::Rational;
use crate::ffmpeg::h264::{self, H264Config};
use crate::frontend::Transport;
use crate::text;
use crate::time::Duration;
use crate::webrtc::config;

verus! {

// ---------------------------------------------------------------------------
// Options
// ---------------------------------------------------------------------------

/// The options of an input, with their texts as characters.
pub open spec fn option_texts(options: Seq<(String, String)>) -> Seq<(Seq<char>, Seq<char>)> {
    Seq::new(options.len(), |i: int| (options[i].0@, options[i].1@))
}

/// The name of a transport.
pub open spec fn transport_text(transport: Transport) -> Seq<char> {
    match transport {
        Transport::Tcp => "tcp"@,
        Transport::Udp => "udp"@,
    }
}

/// The options of an RTSP session: no buffering, and five seconds of patience.
pub open spec fn rtsp_options(transport: Transport) -> Seq<(Seq<char>, Seq<char>)> {
    seq![
        ("rtsp_transport"@, transport_text(transport)),
        ("fflags"@, "nobuffer"@),
        ("flags"@, "low_delay"@),
        ("timeout"@, "5000000"@),
        ("stimeout"@, "5000000"@),
    ]
}

/// The options of a device: no buffering, and the frame rate if one is asked for.
pub open spec fn device_options(frame_rate: Option<u32>) -> Seq<(Seq<char>, Seq<char>)> {
    let always = seq![("fflags"@, "nobuffer"@), ("flags"@, "low_delay"@)];
    match frame_rate {
        Some(rate) => if rate > 0 {
            always.push(("framerate"@, text::decimal(rate as nat)))
        } else {
            always
        },
        None => always,
    }
}

fn set_option(options: &mut Vec<(String, String)>, key: &str, value: &str)
    ensures
        option_texts(final(options)@) == option_texts(old(options)@).push((key@, value@)),
{
    options.push((key.to_owned(), value.to_owned()));
    assert(option_texts(options@) =~= option_texts(old(options)@).push((key@, value@)));
}

/// The options of an RTSP session.
pub fn rtsp_input_options(transport: Transport) -> (r: Vec<(String, String)>)
    ensures
        option_texts(r@) == rtsp_options(transport),
{
    let mut options: Vec<(String, String)> = Vec::new();
    assert(option_texts(options@) =~= Seq::<(Seq<char>, Seq<char>)>::empty());
    let name = match transport {
        Transport::Tcp => "tcp",
        Transport::Udp => "udp",
    };
    set_option(&mut options, "rtsp_transport", name);
    set_option(&mut options, "fflags", "nobuffer");
    set_option(&mut options, "flags", "low_delay");
    set_option(&mut options, "timeout", "5000000");
    set_option(&mut options, "stimeout", "5000000");
    assert(option_texts(options@) =~= rtsp_options(transport));
    options
}

/// The options of a device.
pub fn device_input_options(frame_rate: Option<u32>) -> (r: Vec<(String, String)>)
    ensures
        option_texts(r@) == device_options(frame_rate),
{
    let mut options: Vec<(String, String)> = Vec::new();
    assert(option_texts(options@) =~= Seq::<(Seq<char>, Seq<char>)>::empty());
    set_option(&mut options, "fflags", "nobuffer");
    set_option(&mut options, "flags", "low_delay");
    assert(option_texts(options@) =~= seq![("fflags"@, "nobuffer"@), ("flags"@, "low_delay"@)]);
    if let Some(rate) = frame_rate {
        if rate > 0 {
            set_option(&mut options, "framerate", text::decimal_string(rate as u64).as_str());
        }
    }
    options
}

// ---------------------------------------------------------------------------
// Opening
// ---------------------------------------------------------------------------

/// How a device is opened.
#[derive(Debug, Clone, Copy, PartialEq, Eq, Structural)]
pub enum DeviceOpenPlan {
    /// As a V4L2 device.
    V4l2,
    /// As a V4L2 device, and if that fails as whatever FFmpeg makes of it.
    V4l2ThenGeneric,
}

/// Decides how a device is opened.
pub fn plan_device_input(input: &str, backend: ResolvedInputBackend) -> (r: Result<
    DeviceOpenPlan,
    String,
>)
    ensures
        match backend {
            ResolvedInputBackend::V4l2Device => r == Ok::<DeviceOpenPlan, String>(
                DeviceOpenPlan::V4l2,
            ),
            ResolvedInputBackend::AutoDevice => r == Ok::<DeviceOpenPlan, String>(
                DeviceOpenPlan::V4l2ThenGeneric,
            ),
            ResolvedInputBackend::LibcameraDevice => r matches Err(message) && message@
                == "device input '"@ + input@
                + "' requested libcamera, but the current FFmpeg adapter only supports V4L2-backed capture"@,
            ResolvedInputBackend::FfmpegRtsp => r matches Err(message) && message@
                == "device input '"@ + input@ + "' resolved an RTSP backend unexpectedly"@,
        },
{
    match backend {
        ResolvedInputBackend::V4l2Device => Ok(DeviceOpenPlan::V4l2),
        ResolvedInputBackend::AutoDevice => Ok(DeviceOpenPlan::V4l2ThenGeneric),
        ResolvedInputBackend::LibcameraDevice => Err(
            text::join3(
                "device input '",
                input,
                "' requested libcamera, but the current FFmpeg adapter only supports V4L2-backed capture",
            ),
        ),
        ResolvedInputBackend::FfmpegRtsp => Err(
            text::join3("device input '", input, "' resolved an RTSP backend unexpectedly"),
        ),
    }
}

/// The text of an RTSP session that could not be opened.
pub fn rtsp_open_error(input: &str, error: &str) -> (r: String)
    ensures
        r@ == "unable to open RTSP input '"@ + input@ + "': "@ + error@,
{
    let mut out = text::join3("unable to open RTSP input '", input, "': ");
    out.append(error);
    out
}

/// The text of a V4L2 device that could not be opened.
pub fn v4l2_open_error(input: &str, error: &str) -> (r: String)
    ensures
        r@ == "unable to open V4L2 device '"@ + input@ + "': "@ + error@,
{
    let mut out = text::join3("unable to open V4L2 device '", input, "': ");
    out.append(error);
    out
}

/// The text of a device that could be opened neither way.
pub fn auto_open_error(input: &str, v4l2_error: &str, generic_error: &str) -> (r: String)
    ensures
        r@ == "unable to open device input '"@ + input@ + "' via auto detection (v4l2 attempt: "@
            + v4l2_error@ + "; generic attempt: "@ + generic_error@ + ")"@,
{
    let mut out = text::join5(
        "unable to open device input '",
        input,
        "' via auto detection (v4l2 attempt: ",
        v4l2_error,
        "; generic attempt: ",
    );
    out.append(generic_error);
    out.append(")");
    out
}

/// Whether a text holds the character with the number 0.
pub open spec fn holds_null(name: Seq<char>) -> bool {
    exists|i: int| 0 <= i < name.len() && #[trigger] name[i] == '\0'
}

/// Holds the name of an input format to having no null in it, as it is handed on with a
/// null behind it.
pub fn validate_input_format_name(name: &str) -> (r: Result<(), String>)
    ensures
        match r {
            Ok(()) => !holds_null(name@),
            Err(message) => holds_null(name@) && message@ == "input format name '"@ + name@
                + "' contained an interior null byte"@,
        },
{
    let chars = text::chars_of(name);
    let mut i: usize = 0;
    while i < chars.len()
        invariant
            i <= chars@.len(),
            chars@ == name@,
            forall|k: int| 0 <= k < i ==> #[trigger] name@[k] != '\0',
        decreases chars@.len() - i,
    {
        if chars[i] == '\0' {
            assert(name@[i as int] == '\0');
            return Err(
                text::join3("input format name '", name, "' contained an interior null byte"),
            );
        }
        i += 1;
    }
    Ok(())
}

/// The text of an input format that FFmpeg does not have.
pub fn missing_input_format(name: &str) -> (r: String)
    ensures
        r@ == "the local FFmpeg build does not expose the '"@ + name@ + "' input format"@,
{
    text::join3("the local FFmpeg build does not expose the '", name, "' input format")
}

/// The text of an input without a video stream.
pub fn missing_video_stream(input: &str) -> (r: String)
    ensures
        r@ == "no video stream was found in '"@ + input@ + "'"@,
{
    text::join3("no video stream was found in '", input, "'")
}

/// The codec of a stream.
#[derive(Debug, PartialEq, Eq)]
pub enum VideoCodec {
    H264,
    Hevc,
    /// Any other, by its name.
    Other(String),
}

/// The name of a codec whose packets can be sent as they are.
pub fn codec_name(codec: &VideoCodec) -> (r: Result<&'static str, String>)
    ensures
        match codec {
            VideoCodec::H264 => r matches Ok(name) && name@ == "h264"@,
            VideoCodec::Hevc => r matches Err(message) && message@
                == "H.265 input was detected, but the current FFmpeg backend only supports H.264 passthrough/transcode"@,
            VideoCodec::Other(name) => r matches Err(message) && message@
                == "unsupported encoded video codec '"@ + name@
                + "'; expected H.264 for the current backend"@,
        },
{
    match codec {
        VideoCodec::H264 => Ok("h264"),
        VideoCodec::Hevc => Err(
            "H.265 input was detected, but the current FFmpeg backend only supports H.264 passthrough/transcode".to_owned(),
        ),
        VideoCodec::Other(name) => Err(
            text::join3(
                "unsupported encoded video codec '",
                name.as_str(),
                "'; expected H.264 for the current backend",
            ),
        ),
    }
}

// ---------------------------------------------------------------------------
// Times
// ---------------------------------------------------------------------------

/// The length of a frame at the rate of a profile, in nanoseconds.
pub open spec fn processing_frame_nanos(processing: CompiledProcessingProfile) -> Option<nat> {
    if processing.frame_rate == 0 {
        None
    } else {
        Some(1_000_000_000nat / processing.frame_rate as nat)
    }
}

/// The length of a frame at the rate of a profile.
pub fn frame_duration_from_processing(processing: &CompiledProcessingProfile) -> (r: Option<
    Duration,
>)
    ensures
        config::nanos_of(r) == processing_frame_nanos(*processing),
{
    if processing.frame_rate == 0 {
        return None;
    }
    Some(Duration::from_nanos(1_000_000_000u64 / processing.frame_rate as u64))
}

/// Ticks of a time base in nanoseconds, if both make sense and the result fits.
pub open spec fn ticks_nanos(ticks: int, time_base: Rational) -> Option<nat> {
    if ticks < 0 || time_base.numerator <= 0 || time_base.denominator <= 0 {
        None
    } else {
        let nanos = ticks * time_base.numerator * 1_000_000_000 / time_base.denominator as int;
        if nanos > u64::MAX {
            None
        } else {
            Some(nanos as nat)
        }
    }
}

/// A point in time, counted in ticks of a time base.
pub fn duration_from_time_base(value: Option<i64>, time_base: Rational) -> (r: Option<Duration>)
    ensures
        config::nanos_of(r) == (match value {
            Some(ticks) => ticks_nanos(ticks as int, time_base),
            None => None,
        }),
{
    let ticks: i64 = match value {
        Some(ticks) => ticks,
        None => {
            return None;
        },
    };
    if ticks < 0 || time_base.numerator <= 0 || time_base.denominator <= 0 {
        return None;
    }
    let t: i128 = ticks as i128;
    let n: i128 = time_base.numerator as i128;
    let d: i128 = time_base.denominator as i128;
    proof {
        assert(0 <= t * n <= 9_223_372_036_854_775_807i128 * 2_147_483_647i128) by (nonlinear_arith)
            requires
                0 <= t <= 9_223_372_036_854_775_807i128,
                0 < n <= 2_147_483_647i128,
        ;
    }
    let product: i128 = t * n;
    let nanos: i128 = product * 1_000_000_000 / d;
    if nanos > u64::MAX as i128 {
        return None;
    }
    proof {
        assert(nanos >= 0) by (nonlinear_arith)
            requires
                nanos == (product * 1_000_000_000) / d as int,
                product >= 0,
                d > 0,
        ;
    }
    Some(Duration::from_nanos(nanos as u64))
}

/// The length of a packet, counted in ticks of a time base; one that is not positive is
/// not known.
pub fn duration_from_packet(value: i64, time_base: Rational) -> (r: Option<Duration>)
    ensures
        config::nanos_of(r) == (if value <= 0 {
            None
        } else {
            ticks_nanos(value as int, time_base)
        }),
{
    if value <= 0 {
        return None;
    }
    duration_from_time_base(Some(value), time_base)
}

/// The length of a frame at a frame rate, in nanoseconds.
pub open spec fn rate_frame_nanos(rate: Rational) -> Option<nat> {
    if rate.numerator <= 0 || rate.denominator <= 0 {
        None
    } else {
        let nanos = 1_000_000_000 * rate.denominator / rate.numerator as int;
        if nanos <= 0 || nanos > u64::MAX {
            None
        } else {
            Some(nanos as nat)
        }
    }
}

/// The length of a frame at a frame rate.
pub fn frame_duration_from_rate(rate: Rational) -> (r: Option<Duration>)
    ensures
        config::nanos_of(r) == rate_frame_nanos(rate),
{
    if rate.numerator <= 0 || rate.denominator <= 0 {
        return None;
    }
    let scaled: i128 = 1_000_000_000 * rate.denominator as i128;
    let nanos: i128 = scaled / rate.numerator as i128;
    if nanos <= 0 || nanos > u64::MAX as i128 {
        return None;
    }
    Some(Duration::from_nanos(nanos as u64))
}

// ---------------------------------------------------------------------------
// Packets
// ---------------------------------------------------------------------------

/// Makes the payload of a packet into a stream with start codes.
pub fn normalize_encoded_packet(
    codec: &str,
    payload: &[u8],
    is_keyframe: bool,
    h264_config: Option<&H264Config>,
) -> (r: Result<Vec<u8>, String>)
    ensures
        if codec@ == "h264"@ {
            match r {
                Ok(output) => h264::normalized(
                    payload@,
                    is_keyframe,
                    match h264_config {
                        Some(config) => h264::config_view(Some(*config)),
                        None => None,
                    },
                ) == Ok::<Seq<u8>, Seq<char>>(output@),
                Err(message) => h264::normalized(
                    payload@,
                    is_keyframe,
                    match h264_config {
                        Some(config) => h264::config_view(Some(*config)),
                        None => None,
                    },
                ) == Err::<Seq<u8>, Seq<char>>(message@),
            }
        } else {
            r matches Err(message) && message@ == "codec '"@ + codec@
                + "' is not supported by the current FFmpeg source backend"@
        },
{
    if text::same(codec, "h264") {
        h264::normalize_h264_payload(payload, is_keyframe, h264_config)
    } else {
        Err(
            text::join3(
                "codec '",
                codec,
                "' is not supported by the current FFmpeg source backend",
            ),
        )
    }
}

// ---------------------------------------------------------------------------
// Laws
// ---------------------------------------------------------------------------

/// Later ticks are never earlier in time.
pub proof fn times_keep_their_order(earlier: int, later: int, time_base: Rational)
    requires
        earlier <= later,
        ticks_nanos(earlier, time_base) is Some,
        ticks_nanos(later, time_base) is Some,
    ensures
        ticks_nanos(earlier, time_base)->0 <= ticks_nanos(later, time_base)->0,
{
    let n = time_base.numerator as int;
    let d = time_base.denominator as int;
    assert(earlier * n * 1_000_000_000 <= later * n * 1_000_000_000) by (nonlinear_arith)
        requires
            earlier <= later,
            n > 0,
    ;
    vstd::arithmetic::div_mod::lemma_div_is_ordered(
        earlier * n * 1_000_000_000,
        later * n * 1_000_000_000,
        d,
    );
}

/// A time in ticks is the nanoseconds that have passed, cut to whole ones: no more than the
/// ticks take, and less than one short of it. There is none for a time before the start,
/// for a base that is no positive fraction, and for more than can be counted.
pub proof fn ticks_are_counted_exactly(ticks: int, time_base: Rational)
    ensures
        time_base.numerator > 0 && time_base.denominator > 0 && ticks >= 0 ==> {
            let exact = (ticks * time_base.numerator) * 1_000_000_000;
            match ticks_nanos(ticks, time_base) {
                Some(nanos) => nanos * time_base.denominator <= exact < (nanos + 1)
                    * time_base.denominator && nanos < 0x1_0000_0000_0000_0000,
                None => exact >= 0x1_0000_0000_0000_0000 * time_base.denominator,
            }
        },
        ticks < 0 || time_base.numerator <= 0 || time_base.denominator <= 0 ==> ticks_nanos(
            ticks,
            time_base,
        ) is None,
{
    let num = time_base.numerator as int;
    let den = time_base.denominator as int;
    if num > 0 && den > 0 && ticks >= 0 {
        let exact = ticks * num * 1_000_000_000;
        lemma_quotient(exact, den);
        assert(exact >= 0) by (nonlinear_arith)
            requires
                ticks >= 0,
                num > 0,
                exact == ticks * num * 1_000_000_000,
        ;
        let nanos = exact / den;
        if nanos > u64::MAX {
            assert(exact >= 0x1_0000_0000_0000_0000 * den) by (nonlinear_arith)
                requires
                    nanos >= 0x1_0000_0000_0000_0000,
                    nanos * den <= exact,
                    den > 0,
            ;
        }
    }
}

proof fn lemma_quotient(a: int, b: int)
    requires
        b > 0,
    ensures
        (a / b) * b <= a < (a / b + 1) * b,
{
    assert((a / b) * b <= a < (a / b + 1) * b) by (nonlinear_arith)
        requires
            b > 0,
    ;
}

/// A whole second of ticks is a second.
pub proof fn ticks_of_a_second_are_a_second(seconds: nat, time_base: Rational)
    requires
        time_base.numerator == 1,
        time_base.denominator > 0,
        seconds * 1_000_000_000 <= u64::MAX,
    ensures
        ticks_nanos(seconds * time_base.denominator, time_base) == Some(seconds * 1_000_000_000),
{
    let den = time_base.denominator as int;
    let ticks = seconds * den;
    assert(ticks >= 0) by (nonlinear_arith)
        requires
            ticks == seconds * den,
            den > 0,
    ;
    assert((seconds * den) * 1 * 1_000_000_000 / den == seconds * 1_000_000_000)
        by (nonlinear_arith)
        requires
            den > 0,
    ;
}

/// A frame lasts as long as its rate leaves it, cut to nanoseconds: as many frames as the
/// rate counts take no longer than a second, and would if each were a nanosecond longer.
pub proof fn frames_share_the_second(processing: CompiledProcessingProfile)
    ensures
        match processing_frame_nanos(processing) {
            Some(nanos) => nanos * processing.frame_rate <= 1_000_000_000 < (nanos + 1)
                * processing.frame_rate,
            None => processing.frame_rate == 0,
        },
{
    if processing.frame_rate > 0 {
        lemma_quotient(1_000_000_000, processing.frame_rate as int);
    }
}

/// The same holds of a rate that is a fraction; one that is not positive, or leaves a frame
/// less than a nanosecond, gives no length.
pub proof fn fractions_share_the_second(rate: Rational)
    ensures
        match rate_frame_nanos(rate) {
            Some(nanos) => 0 < nanos && rate.numerator > 0 && rate.denominator > 0 && nanos
                * rate.numerator <= 1_000_000_000 * rate.denominator < (nanos + 1)
                * rate.numerator,
            None => rate.numerator <= 0 || rate.denominator <= 0 || 1_000_000_000
                * rate.denominator < rate.numerator,
        },
{
    if rate.numerator > 0 && rate.denominator > 0 {
        let num = rate.numerator as int;
        let whole = 1_000_000_000 * rate.denominator as int;
        lemma_quotient(whole, num);
        let nanos = whole / num;
        lemma_small_quotient(whole, num, nanos);
        assert(0 <= nanos <= u64::MAX);
        if nanos > 0 {
            assert(rate_frame_nanos(rate) == Some(nanos as nat));
        }
    }
}

proof fn lemma_small_quotient(whole: int, num: int, nanos: int)
    requires
        whole >= 0,
        num > 0,
        nanos * num <= whole < (nanos + 1) * num,
    ensures
        0 <= nanos <= whole,
        nanos == 0 ==> whole < num,
{
    assert(nanos >= 0) by (nonlinear_arith)
        requires
            whole >= 0,
            num > 0,
            whole < (nanos + 1) * num,
    ;
    assert(nanos <= whole) by (nonlinear_arith)
        requires
            nanos * num <= whole,
            num > 0,
            nanos >= 0,
    ;
}

/// The value of an option, the first of that name.
pub open spec fn option_named(options: Seq<(Seq<char>, Seq<char>)>, name: Seq<char>) -> Option<
    Seq<char>,
>
    decreases options.len(),
{
    if options.len() == 0 {
        None
    } else if options[0].0 == name {
        Some(options[0].1)
    } else {
        option_named(options.drop_first(), name)
    }
}

/// An RTSP session is opened over the transport that is asked for, and a device at the
/// frame rate that is asked for, if any is; neither is buffered.
pub proof fn inputs_are_opened_as_asked(transport: Transport, frame_rate: Option<u32>)
    ensures
        option_named(rtsp_options(transport), "rtsp_transport"@) == Some(
            if transport == Transport::Tcp {
                "tcp"@
            } else {
                "udp"@
            },
        ),
        option_named(rtsp_options(transport), "fflags"@) == Some("nobuffer"@),
        option_named(rtsp_options(transport), "flags"@) == Some("low_delay"@),
        option_named(device_options(frame_rate), "fflags"@) == Some("nobuffer"@),
        option_named(device_options(frame_rate), "flags"@) == Some("low_delay"@),
        match option_named(device_options(frame_rate), "framerate"@) {
            Some(value) => frame_rate matches Some(rate) && rate > 0 && text::all_digits(value)
                && text::digits_value(value) == rate,
            None => frame_rate is None || frame_rate == Some(0u32),
        },
{
    reveal_strlit("rtsp_transport");
    reveal_strlit("fflags");
    reveal_strlit("flags");
    reveal_strlit("framerate");
    assert("rtsp_transport"@.len() == 14 && "fflags"@.len() == 6 && "flags"@.len() == 5);
    assert("framerate"@.len() == 9);
    reveal_with_fuel(option_named, 4);
    let rtsp = rtsp_options(transport);
    assert(rtsp[0].0 == "rtsp_transport"@);
    assert(rtsp.drop_first()[0] == rtsp[1]);
    assert(rtsp.drop_first().drop_first()[0] == rtsp[2]);
    let plain = device_options(frame_rate);
    assert(plain[0].0 == "fflags"@);
    assert(plain.drop_first()[0] == plain[1]);
    assert(plain[1].0 == "flags"@);
    let behind = plain.drop_first().drop_first();
    if let Some(rate) = frame_rate {
        if rate > 0 {
            assert(behind[0] == plain[2]);
            text::decimals_read_back(rate as nat);
        }
    }
}

/// A device is opened as the backend says, and one that FFmpeg cannot open is refused; only
/// H.264 is taken of the codecs.
pub proof fn devices_are_opened_by_their_backend(
    input: &str,
    backend: ResolvedInputBackend,
    plan: Result<DeviceOpenPlan, String>,
    codec: &VideoCodec,
    name: Result<&'static str, String>,
)
    requires
        call_ensures(plan_device_input, (input, backend), plan),
        call_ensures(codec_name, (codec,), name),
    ensures
        plan matches Ok(DeviceOpenPlan::V4l2) <==> backend == ResolvedInputBackend::V4l2Device,
        plan matches Ok(DeviceOpenPlan::V4l2ThenGeneric) <==> backend
            == ResolvedInputBackend::AutoDevice,
        plan is Err <==> backend == ResolvedInputBackend::LibcameraDevice || backend
            == ResolvedInputBackend::FfmpegRtsp,
        name is Ok <==> codec is H264,
        name matches Ok(text) ==> text@ == "h264"@,
{
}

/// Times are read exactly: what a time base or a rate says, cut to nanoseconds.
pub proof fn times_are_read_exactly(
    ticks: i64,
    time_base: Rational,
    rate: Rational,
    at: Option<Duration>,
    span: Option<Duration>,
    frame: Option<Duration>,
)
    requires
        call_ensures(duration_from_time_base, (Some(ticks), time_base), at),
        call_ensures(duration_from_packet, (ticks, time_base), span),
        call_ensures(frame_duration_from_rate, (rate,), frame),
    ensures
        at matches Some(at) ==> ticks >= 0 && at@ * time_base.denominator <= (ticks
            * time_base.numerator) * 1_000_000_000 < (at@ + 1) * time_base.denominator,
        ticks > 0 ==> config::nanos_of(span) == config::nanos_of(at),
        ticks <= 0 ==> span is None,
        frame matches Some(frame) ==> frame@ * rate.numerator <= 1_000_000_000 * rate.denominator
            < (frame@ + 1) * rate.numerator,
{
    ticks_are_counted_exactly(ticks as int, time_base);
    fractions_share_the_second(rate);
}

} // verus!
