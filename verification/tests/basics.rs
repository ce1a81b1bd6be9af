//! Texts, units, times and maps.

use std::str::FromStr;

use caml::deque::deque_of;
use caml::metrics::{CopyEvent, NoopMetricsExporter};
use caml::overlay::{expand_overlay_template, overlay_variables_for_pipeline};
use caml::text;
use caml::time::Duration;
use caml::units::parse_duration;
use caml::{Bitrate, ByteSize, StringMap};

#[test]
fn white_space_is_what_unicode_says() {
    for code in 0..=0x10FFFFu32 {
        if let Some(c) = char::from_u32(code) {
            assert_eq!(text::char_is_whitespace(c), c.is_whitespace(), "{:x}", code);
        }
    }
}

#[test]
fn texts_are_handled_as_in_the_standard_library() {
    let samples = ["", " ", "a", "  H264\t", "\u{a0}x\u{3000}", "mock", "a mock b", "\u{c4}b"];
    for sample in samples {
        assert_eq!(text::trim(sample), sample.trim());
        assert_eq!(text::to_ascii_lowercase(sample), sample.to_ascii_lowercase());
        assert_eq!(text::to_ascii_uppercase(sample), sample.to_ascii_uppercase());
        assert_eq!(text::contains(sample, "mock"), sample.contains("mock"));
        assert_eq!(text::starts_with(sample, " "), sample.starts_with(' '));
        assert_eq!(text::strip_suffix(sample, "4\t"), sample.strip_suffix("4\t"));
        assert!(text::same(sample, &sample.to_string()));
        assert!(!text::same(sample, "other"));
        assert_eq!(text::string_of(&text::chars_of(sample)), sample);
    }
    for number in ["", "0", "+7", "-1", "007", "4294967295", "4294967296", "1 ", "x"] {
        let expected = number.parse::<u32>().ok().map(u64::from);
        assert_eq!(text::parse_unsigned(number, u32::MAX as u64), expected, "{}", number);
    }
    for number in [0, 9, 10, 12345, u64::MAX] {
        assert_eq!(text::decimal_string(number), number.to_string());
        assert_eq!(text::parse_unsigned(&number.to_string(), u64::MAX), Some(number));
    }
    for number in [0, -1, i64::MIN, i64::MAX] {
        assert_eq!(text::signed_decimal_string(number), number.to_string());
    }
}

#[test]
fn sizes_read_as_they_are_written() {
    let bytes = |input: &str| ByteSize::from_str(input).map(|size| size.as_bytes());
    assert_eq!(bytes("512MB"), Ok(512_000_000));
    assert_eq!(bytes(" 64 kib "), Ok(65_536));
    assert_eq!(bytes("3GiB"), Ok(3_221_225_472));
    assert_eq!(bytes("1kb"), Ok(1_000));
    assert_eq!(bytes("2MiB"), Ok(2_097_152));
    assert_eq!(bytes("1GB"), Ok(1_000_000_000));
    assert_eq!(bytes("7b"), Ok(7));
    assert!(bytes("").unwrap_err().contains("cannot be empty"));
    assert!(bytes("12").unwrap_err().contains("unit suffix"));
    assert!(bytes("MB").unwrap_err().contains("'' is not a valid integer"));
    assert!(bytes("1XB").unwrap_err().contains("Unsupported unit 'XB'"));
    assert!(bytes("99999999999GB").unwrap_err().contains("exceeds supported range"));
    let size = ByteSize(u64::MAX);
    assert_eq!(<ByteSize as FromStr>::from_str(&size.to_string()), Ok(size));
}

#[test]
fn bitrates_read_as_they_are_written() {
    let bits = |input: &str| Bitrate::from_str(input).map(|rate| rate.as_bits_per_second());
    assert_eq!(bits("512k"), Ok(512_000));
    assert_eq!(bits("4 Mbps"), Ok(4_000_000));
    assert_eq!(bits("1G"), Ok(1_000_000_000));
    assert_eq!(bits("9bps"), Ok(9));
    assert!(bits(" ").unwrap_err().contains("cannot be empty"));
    assert!(bits("512").unwrap_err().contains("unit suffix"));
    assert!(bits("512elephants").unwrap_err().contains("Unsupported unit 'elephants'"));
    assert!(bits("99999999999999g").unwrap_err().contains("exceeds supported range"));
    let rate = Bitrate(12_345);
    assert_eq!(<Bitrate as FromStr>::from_str(&rate.to_string()), Ok(rate));
}

#[test]
fn durations_read_as_they_are_written() {
    assert_eq!(parse_duration("250ms"), Ok(Duration::from_millis(250)));
    assert_eq!(parse_duration(" 10s "), Ok(Duration::from_secs(10)));
    assert_eq!(parse_duration("2m"), Ok(Duration::from_secs(120)));
    assert!(parse_duration("").unwrap_err().contains("cannot be empty"));
    assert!(parse_duration("ten seconds").unwrap_err().contains("not a valid second value"));
    assert!(parse_duration("xms").unwrap_err().contains("not a valid millisecond value"));
    assert!(parse_duration("xm").unwrap_err().contains("not a valid minute value"));
    assert!(parse_duration("5h").unwrap_err().contains("Expected a suffix"));
    assert!(parse_duration("999999999999999999m").unwrap_err().contains("exceeds"));
}

#[test]
fn durations_are_written_as_in_the_standard_library() {
    for nanos in [0, 1, 999, 1_500, 25_000_000, 1_250_000_000, 60_000_000_000] {
        let expected = format!("{:?}", std::time::Duration::from_nanos(nanos));
        assert_eq!(Duration::from_nanos(nanos).to_human_form(), expected);
    }
    let span = Duration::from_millis(2_345);
    assert_eq!(span.as_secs(), 2);
    assert_eq!(span.subsec_nanos(), 345_000_000);
    assert_eq!(span.as_millis(), 2_345);
    assert!(Duration::zero().is_zero());
    assert_eq!(Duration::from_secs(1).saturating_sub(span), Duration::zero());
    assert_eq!(span.shorter(Duration::from_secs(2)), Duration::from_secs(2));
    assert!(span.exceeds(&Duration::from_secs(2)));
}

#[test]
fn maps_keep_one_value_for_a_key() {
    let mut map = StringMap::new();
    assert!(map.is_empty());
    for (key, value) in [("b", 1), ("a", 2), ("c", 3), ("b", 4)] {
        map.insert(key.to_string(), value);
    }
    assert_eq!(map.keys(), ["a", "b", "c"]);
    assert_eq!(map.get("b"), Some(&4));
    assert_eq!(map.get("d"), None);
    assert!(map.contains_key("a"));
}

#[test]
fn templates_stand_for_their_values() {
    let mut given = StringMap::new();
    given.insert("site".to_string(), "Dock".to_string());
    given.insert("pipeline_id".to_string(), "not me".to_string());
    let variables = overlay_variables_for_pipeline("cam", &given);
    let expand = |template: &str| expand_overlay_template("cam", template, &variables);
    assert_eq!(expand("{site}/{pipeline_id}/{camera_id}").unwrap(), "Dock/cam/cam");
    assert_eq!(expand("plain").unwrap(), "plain");
    assert!(expand("{nobody}").unwrap_err().to_string().contains("nobody"));
    assert!(expand("{site").is_err());
    assert!(expand("site}").is_err());
}

#[test]
fn queues_keep_the_order_of_lists() {
    assert_eq!(deque_of(vec![1, 2, 3]), [1, 2, 3]);
    assert!(deque_of(Vec::<u8>::new()).is_empty());
}

#[test]
fn copies_are_told_apart() {
    assert_ne!(CopyEvent::FfmpegPacketToPooledBuffer, CopyEvent::WebRtcPacketizerCopy);
    assert_eq!(NoopMetricsExporter::default(), NoopMetricsExporter);
}
