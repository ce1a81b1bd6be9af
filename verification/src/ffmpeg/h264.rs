//! H.264 bit streams: units with length fields ("AVCC") and units behind start codes
//! ("Annex B").

use vstd::prelude::*;

use crate::text;

verus! {

/// The bytes that stand before a unit in a stream with start codes.
pub const H264_START_CODE: [u8; 4] = [0, 0, 0, 1];

/// What a decoder has to know of a stream.
#[derive(Debug, PartialEq, Eq)]
pub struct H264Config {
    /// The number of bytes of a length field.
    pub nalu_length_size: usize,
    /// The parameter sets, each behind a start code.
    pub parameter_sets_annexb: Vec<u8>,
}

// ---------------------------------------------------------------------------
// Start codes
// ---------------------------------------------------------------------------

/// The start code of four bytes.
pub open spec fn start_code() -> Seq<u8> {
    seq![0u8, 0u8, 0u8, 1u8]
}

/// The length of the start code that stands at a position, or 0 where none does.
pub open spec fn code_len_at(p: Seq<u8>, i: int) -> int {
    if i + 4 <= p.len() && p[i] == 0 && p[i + 1] == 0 && p[i + 2] == 0 && p[i + 3] == 1 {
        4
    } else if i + 3 <= p.len() && p[i] == 0 && p[i + 1] == 0 && p[i + 2] == 1 {
        3
    } else {
        0
    }
}

/// Whether a stream begins with a start code.
pub open spec fn is_annex_b(p: Seq<u8>) -> bool {
    code_len_at(p, 0) > 0
}

/// The position of the first start code at or after `from`, or the length.
pub open spec fn first_code(p: Seq<u8>, from: int) -> int
    decreases p.len() - from,
{
    if from >= p.len() {
        p.len() as int
    } else if code_len_at(p, from) > 0 {
        from
    } else {
        first_code(p, from + 1)
    }
}

/// What is found first is a start code, and none stands before it.
pub proof fn first_code_is_the_first(p: Seq<u8>, from: int)
    ensures
        from <= p.len() ==> from <= first_code(p, from),
        first_code(p, from) <= p.len(),
        first_code(p, from) < p.len() ==> from <= first_code(p, from) && code_len_at(
            p,
            first_code(p, from),
        ) > 0,
        forall|i: int| from <= i < first_code(p, from) ==> #[trigger] code_len_at(p, i) == 0,
    decreases p.len() - from,
{
    if from < p.len() && code_len_at(p, from) == 0 {
        first_code_is_the_first(p, from + 1);
    }
}

/// The units of a stream with start codes, from the first start code at or after
/// `from` on: each reaches from behind its code to the next code.
pub open spec fn units_from(p: Seq<u8>, from: int) -> Seq<Seq<u8>>
    decreases p.len() - from,
{
    let start = first_code(p, from);
    if start >= p.len() {
        Seq::empty()
    } else {
        let begin = start + code_len_at(p, start);
        let end = first_code(p, begin);
        proof {
            first_code_is_the_first(p, from);
            first_code_is_the_first(p, begin);
        }
        seq![p.subrange(begin, end)] + units_from(p, end)
    }
}

/// The units of a stream with start codes.
pub open spec fn units_of(p: Seq<u8>) -> Seq<Seq<u8>> {
    units_from(p, 0)
}

/// The type of a unit, which its first byte gives.
pub open spec fn is_of_type(unit: Seq<u8>, unit_type: u8) -> bool {
    unit.len() > 0 && unit[0] % 32 == unit_type
}

/// Whether one of the units is of the given type.
pub open spec fn has_type(units: Seq<Seq<u8>>, unit_type: u8) -> bool {
    exists|k: int| 0 <= k < units.len() && is_of_type(#[trigger] units[k], unit_type)
}

/// The type of a sequence parameter set.
pub const SPS: u8 = 7;

/// The type of a picture parameter set.
pub const PPS: u8 = 8;

/// Whether a stream holds both kinds of parameter sets.
pub open spec fn has_parameter_sets(p: Seq<u8>) -> bool {
    has_type(units_of(p), SPS) && has_type(units_of(p), PPS)
}

/// The units of a list in a row, each behind a start code.
pub open spec fn annex_b(units: Seq<Seq<u8>>) -> Seq<u8>
    decreases units.len(),
{
    if units.len() == 0 {
        Seq::empty()
    } else {
        start_code() + units[0] + annex_b(units.drop_first())
    }
}

// ---------------------------------------------------------------------------
// Length fields
// ---------------------------------------------------------------------------

/// The number that bytes stand for, the most significant first.
pub open spec fn big_endian(bytes: Seq<u8>) -> nat
    decreases bytes.len(),
{
    if bytes.len() == 0 {
        0
    } else {
        big_endian(bytes.drop_last()) * 256 + bytes.last() as nat
    }
}

/// The units of a payload with length fields of `n` bytes, from `at` on; empty units
/// are left out.
pub open spec fn avcc_units(p: Seq<u8>, at: int, n: int) -> Result<Seq<Seq<u8>>, Seq<char>>
    decreases p.len() - at,
{
    if at >= p.len() || n <= 0 {
        Ok(Seq::empty())
    } else if at + n > p.len() {
        Err("AVCC payload ended before a NALU size field"@)
    } else {
        let begin = at + n;
        let end = begin + big_endian(p.subrange(at, begin));
        if end > usize::MAX {
            Err("AVCC NALU length overflowed"@)
        } else if end > p.len() {
            Err("AVCC payload contained a truncated NALU"@)
        } else {
            match avcc_units(p, end, n) {
                Err(message) => Err(message),
                Ok(units) => if end == begin {
                    Ok(units)
                } else {
                    Ok(seq![p.subrange(begin, end)] + units)
                },
            }
        }
    }
}

/// What a payload with length fields is as a stream with start codes.
pub open spec fn avcc_reading(p: Seq<u8>, n: int) -> Result<Seq<u8>, Seq<char>> {
    if !(1 <= n <= 4) {
        Err(
            "invalid AVCC NALU length size "@ + text::decimal(n as nat)
                + "; expected 1-4 bytes"@,
        )
    } else {
        match avcc_units(p, 0, n) {
            Err(message) => Err(message),
            Ok(units) => if units.len() == 0 && p.len() > 0 {
                Err("AVCC payload produced no NAL units"@)
            } else {
                Ok(annex_b(units))
            },
        }
    }
}

/// The unit at `at` in a configuration record, behind a length field of two bytes:
/// where it ends, and what it holds.
pub open spec fn record_unit(data: Seq<u8>, at: int) -> Result<(int, Seq<u8>), Seq<char>> {
    if at + 2 > data.len() {
        Err("AVCC extradata ended before a NAL length field"@)
    } else {
        let end = at + 2 + big_endian(data.subrange(at, at + 2));
        if end > usize::MAX {
            Err("AVCC NAL length overflowed"@)
        } else if end > data.len() {
            Err("AVCC extradata contained a truncated NAL unit"@)
        } else {
            Ok((end, data.subrange(at + 2, end)))
        }
    }
}

/// A number of units in a row in a configuration record: where the last one ends, and
/// what they hold.
pub open spec fn record_units(data: Seq<u8>, at: int, count: nat) -> Result<
    (int, Seq<Seq<u8>>),
    Seq<char>,
>
    decreases count,
{
    if count == 0 {
        Ok((at, Seq::empty()))
    } else {
        match record_unit(data, at) {
            Err(message) => Err(message),
            Ok((next, unit)) => match record_units(data, next, (count - 1) as nat) {
                Err(message) => Err(message),
                Ok((end, units)) => Ok((end, seq![unit] + units)),
            },
        }
    }
}

/// What a configuration record says: the number of bytes of a length field, and the
/// parameter sets. A record may end behind the sequence parameter sets.
pub open spec fn record_reading(data: Seq<u8>) -> Result<(int, Seq<Seq<u8>>), Seq<char>> {
    if data.len() < 7 {
        Err("AVCC extradata is too short to parse"@)
    } else {
        let n = data[4] as int % 4 + 1;
        match record_units(data, 6, data[5] as nat % 32) {
            Err(message) => Err(message),
            Ok((at, sequence_sets)) => if at >= data.len() {
                Ok((n, sequence_sets))
            } else {
                match record_units(data, at + 1, data[at] as nat) {
                    Err(message) => Err(message),
                    Ok((_, picture_sets)) => Ok((n, sequence_sets + picture_sets)),
                }
            },
        }
    }
}

/// What the extra data of a stream says of it: nothing, where there is none or its
/// form is not known.
pub open spec fn config_reading(data: Option<Seq<u8>>) -> Result<
    Option<(int, Seq<u8>)>,
    Seq<char>,
> {
    match data {
        None => Ok(None),
        Some(data) => if data.len() == 0 {
            Ok(None)
        } else if is_annex_b(data) {
            Ok(Some((4int, data)))
        } else if data[0] != 1 {
            Ok(None)
        } else {
            match record_reading(data) {
                Err(message) => Err(message),
                Ok((n, units)) => Ok(Some((n, annex_b(units)))),
            }
        },
    }
}

/// What a configuration holds.
pub open spec fn config_view(config: Option<H264Config>) -> Option<(int, Seq<u8>)> {
    match config {
        None => None,
        Some(config) => Some((config.nalu_length_size as int, config.parameter_sets_annexb@)),
    }
}

/// What a payload is made into: a stream with start codes, in which every key frame
/// has parameter sets if the configuration has any to give.
pub open spec fn normalized(
    payload: Seq<u8>,
    is_keyframe: bool,
    config: Option<(int, Seq<u8>)>,
) -> Result<Seq<u8>, Seq<char>> {
    let stream = if is_annex_b(payload) {
        Ok(payload)
    } else {
        avcc_reading(
            payload,
            match config {
                Some((n, _)) => n,
                None => 4int,
            },
        )
    };
    match stream {
        Err(message) => Err(message),
        Ok(stream) => if is_keyframe && config is Some && !has_parameter_sets(stream) {
            Ok((config->0).1 + stream)
        } else {
            Ok(stream)
        },
    }
}

// ---------------------------------------------------------------------------
// Reading
// ---------------------------------------------------------------------------

/// Appends part of a slice.
fn append_range(output: &mut Vec<u8>, data: &[u8], from: usize, to: usize)
    requires
        from <= to <= data@.len(),
    ensures
        final(output)@ == old(output)@ + data@.subrange(from as int, to as int),
{
    let ghost before = output@;
    let mut i: usize = from;
    while i < to
        invariant
            from <= i <= to <= data@.len(),
            output@ == before + data@.subrange(from as int, i as int),
        decreases to - i,
    {
        output.push(data[i]);
        i += 1;
    }
}

/// Appends a start code.
fn append_start_code(output: &mut Vec<u8>)
    ensures
        final(output)@ == old(output)@ + start_code(),
{
    output.push(0);
    output.push(0);
    output.push(0);
    output.push(1);
}

/// The length of the start code at a position, or 0 where none stands.
fn start_code_length(payload: &[u8], index: usize) -> (r: usize)
    requires
        index <= payload@.len(),
    ensures
        r == code_len_at(payload@, index as int),
{
    let left: usize = payload.len() - index;
    if left >= 4 && payload[index] == 0 && payload[index + 1] == 0 && payload[index + 2] == 0
        && payload[index + 3] == 1 {
        4
    } else if left >= 3 && payload[index] == 0 && payload[index + 1] == 0 && payload[index + 2]
        == 1 {
        3
    } else {
        0
    }
}

/// Whether a payload begins with a start code.
pub fn looks_like_annex_b(payload: &[u8]) -> (r: bool)
    ensures
        r == is_annex_b(payload@),
{
    start_code_length(payload, 0) > 0
}

/// The first start code at or after a position: where it stands, and how long it is.
pub fn find_start_code(payload: &[u8], offset: usize) -> (r: Option<(usize, usize)>)
    ensures
        match r {
            Some((index, length)) => offset <= index < payload@.len() && index == first_code(
                payload@,
                offset as int,
            ) && length == code_len_at(payload@, index as int) && length > 0,
            None => first_code(payload@, offset as int) == payload@.len(),
        },
{
    let mut index: usize = offset;
    while index < payload.len()
        invariant
            offset <= index,
            index <= payload@.len() || index == offset,
            first_code(payload@, offset as int) == first_code(payload@, index as int),
        decreases payload@.len() - index,
    {
        let length: usize = start_code_length(payload, index);
        if length > 0 {
            return Some((index, length));
        }
        index += 1;
    }
    None
}

/// Whether a stream holds a sequence parameter set, and whether it holds a picture
/// parameter set.
pub fn annex_b_parameter_sets(payload: &[u8]) -> (r: (bool, bool))
    ensures
        r.0 == has_type(units_of(payload@), SPS),
        r.1 == has_type(units_of(payload@), PPS),
{
    let ghost p = payload@;
    let ghost all = units_of(p);
    let ghost mut seen: Seq<Seq<u8>> = Seq::empty();
    let mut has_sps = false;
    let mut has_pps = false;
    let mut cursor: usize = 0;
    let size: usize = payload.len();
    let mut found = find_start_code(payload, cursor);
    assert(seen + units_from(p, 0) == all);
    while found.is_some()
        invariant
            p == payload@,
            size == p.len(),
            all == units_of(p),
            cursor <= p.len(),
            all == seen + units_from(p, cursor as int),
            has_sps == has_type(seen, SPS),
            has_pps == has_type(seen, PPS),
            match found {
                Some((index, length)) => cursor <= index < p.len() && index == first_code(
                    p,
                    cursor as int,
                ) && length == code_len_at(p, index as int) && length > 0,
                None => first_code(p, cursor as int) == p.len(),
            },
        decreases p.len() - cursor,
    {
        let (start, code_length) = found.unwrap();
        let begin: usize = start + code_length;
        let next: usize = match find_start_code(payload, begin) {
            Some((offset, _)) => offset,
            None => size,
        };
        let ghost unit = p.subrange(begin as int, next as int);
        let ghost before = seen;
        proof {
            assert(units_from(p, cursor as int) == seq![unit] + units_from(p, next as int));
            seen = seen.push(unit);
            assert(all == seen + units_from(p, next as int));
            lemma_type_of_push(before, unit, SPS);
            lemma_type_of_push(before, unit, PPS);
        }
        if begin < next {
            let byte: u8 = payload[begin];
            let unit_type: u8 = byte & 0x1F;
            assert(unit_type == byte % 32) by (bit_vector)
                requires
                    unit_type == byte & 0x1F,
            ;
            if unit_type == SPS {
                has_sps = true;
            } else if unit_type == PPS {
                has_pps = true;
            }
        }
        cursor = next;
        found = find_start_code(payload, cursor);
    }
    assert(units_from(p, cursor as int) == Seq::<Seq<u8>>::empty());
    assert(seen == all);
    (has_sps, has_pps)
}

proof fn lemma_type_of_push(units: Seq<Seq<u8>>, unit: Seq<u8>, unit_type: u8)
    ensures
        has_type(units.push(unit), unit_type) == (has_type(units, unit_type) || is_of_type(
            unit,
            unit_type,
        )),
{
    let pushed = units.push(unit);
    if has_type(units, unit_type) {
        let k = choose|k: int| 0 <= k < units.len() && is_of_type(#[trigger] units[k], unit_type);
        assert(is_of_type(pushed[k], unit_type));
    }
    if is_of_type(unit, unit_type) {
        assert(is_of_type(pushed[units.len() as int], unit_type));
    }
    if has_type(pushed, unit_type) {
        let k = choose|k: int|
            0 <= k < pushed.len() && is_of_type(#[trigger] pushed[k], unit_type);
        if k < units.len() {
            assert(is_of_type(units[k], unit_type));
        }
    }
}

/// Bytes before others count for 256 to the number of the others.
proof fn lemma_big_endian_push(bytes: Seq<u8>, byte: u8)
    ensures
        big_endian(bytes.push(byte)) == big_endian(bytes) * 256 + byte,
{
    assert(bytes.push(byte).drop_last() == bytes);
}

/// A number of up to four bytes fits into 32 bits.
proof fn lemma_big_endian_bound(bytes: Seq<u8>)
    ensures
        bytes.len() == 0 ==> big_endian(bytes) == 0,
        bytes.len() <= 1 ==> big_endian(bytes) < 0x100,
        bytes.len() <= 2 ==> big_endian(bytes) < 0x1_0000,
        bytes.len() <= 3 ==> big_endian(bytes) < 0x100_0000,
        bytes.len() <= 4 ==> big_endian(bytes) < 0x1_0000_0000,
    decreases bytes.len(),
{
    if bytes.len() > 0 {
        lemma_big_endian_bound(bytes.drop_last());
    }
}

/// Reads a length field of `n` bytes.
fn read_length(data: &[u8], at: usize, n: usize) -> (r: usize)
    requires
        1 <= n <= 4,
        at + n <= data@.len(),
    ensures
        r == big_endian(data@.subrange(at as int, at + n)),
{
    let size: usize = data.len();
    let mut value: usize = 0;
    let mut i: usize = 0;
    while i < n
        invariant
            i <= n <= 4,
            at + n <= size,
            size == data@.len(),
            value == big_endian(data@.subrange(at as int, at + i)),
        decreases n - i,
    {
        proof {
            let read = data@.subrange(at as int, at + i);
            assert(data@.subrange(at as int, at + i + 1) == read.push(data@[at + i]));
            lemma_big_endian_push(read, data@[at + i]);
            lemma_big_endian_bound(read);
        }
        value = value * 256 + data[at + i] as usize;
        i += 1;
    }
    value
}

/// Rewrites a payload with length fields as a stream with start codes.
pub fn avcc_to_annex_b(payload: &[u8], nalu_length_size: usize) -> (r: Result<Vec<u8>, String>)
    ensures
        match r {
            Ok(output) => avcc_reading(payload@, nalu_length_size as int) == Ok::<
                Seq<u8>,
                Seq<char>,
            >(output@),
            Err(message) => avcc_reading(payload@, nalu_length_size as int) == Err::<
                Seq<u8>,
                Seq<char>,
            >(message@),
        },
{
    if nalu_length_size < 1 || nalu_length_size > 4 {
        return Err(
            text::join3(
                "invalid AVCC NALU length size ",
                text::decimal_string(nalu_length_size as u64).as_str(),
                "; expected 1-4 bytes",
            ),
        );
    }
    let ghost p = payload@;
    let ghost n = nalu_length_size as int;
    let ghost mut units: Seq<Seq<u8>> = Seq::empty();
    let mut cursor: usize = 0;
    let mut output: Vec<u8> = Vec::new();
    proof {
        if let Ok(rest) = avcc_units(p, 0, n) {
            assert(units + rest == rest);
        }
    }
    while cursor < payload.len()
        invariant
            cursor <= p.len(),
            p == payload@,
            n == nalu_length_size,
            1 <= n <= 4,
            output@ == annex_b(units),
            match avcc_units(p, cursor as int, n) {
                Ok(rest) => avcc_units(p, 0, n) == Ok::<Seq<Seq<u8>>, Seq<char>>(units + rest),
                Err(message) => avcc_units(p, 0, n) == Err::<Seq<Seq<u8>>, Seq<char>>(message),
            },
        decreases p.len() - cursor,
    {
        if nalu_length_size > payload.len() - cursor {
            return Err("AVCC payload ended before a NALU size field".to_owned());
        }
        let unit_length: usize = read_length(payload, cursor, nalu_length_size);
        let begin: usize = cursor + nalu_length_size;
        let end: usize = match begin.checked_add(unit_length) {
            Some(end) => end,
            None => {
                return Err("AVCC NALU length overflowed".to_owned());
            },
        };
        if end > payload.len() {
            return Err("AVCC payload contained a truncated NALU".to_owned());
        }
        if unit_length > 0 {
            let ghost unit = p.subrange(begin as int, end as int);
            append_start_code(&mut output);
            append_range(&mut output, payload, begin, end);
            proof {
                lemma_annex_b_push(units, unit);
                if let Ok(rest) = avcc_units(p, end as int, n) {
                    assert(units + (seq![unit] + rest) == units.push(unit) + rest);
                }
                units = units.push(unit);
            }
        }
        cursor = end;
    }
    assert(units + Seq::<Seq<u8>>::empty() == units);
    proof {
        lemma_annex_b_len(units);
    }
    if output.len() == 0 && payload.len() > 0 {
        return Err("AVCC payload produced no NAL units".to_owned());
    }
    Ok(output)
}

/// A unit appended to a list is appended to its stream.
proof fn lemma_annex_b_push(units: Seq<Seq<u8>>, unit: Seq<u8>)
    ensures
        annex_b(units.push(unit)) == annex_b(units) + start_code() + unit,
    decreases units.len(),
{
    let pushed = units.push(unit);
    if units.len() == 0 {
        assert(pushed.drop_first() == Seq::<Seq<u8>>::empty());
        assert(annex_b(pushed.drop_first()) == Seq::<u8>::empty());
    } else {
        lemma_annex_b_push(units.drop_first(), unit);
        assert(pushed.drop_first() == units.drop_first().push(unit));
        assert(pushed[0] == units[0]);
    }
}

/// Only an empty list makes an empty stream.
proof fn lemma_annex_b_len(units: Seq<Seq<u8>>)
    ensures
        annex_b(units).len() == 0 <==> units.len() == 0,
{
}

/// The unit at a position in a configuration record: where it ends, and what it holds.
pub fn read_avcc_unit(data: &[u8], cursor: usize) -> (r: Result<(usize, Vec<u8>), String>)
    ensures
        match r {
            Ok((end, unit)) => record_unit(data@, cursor as int) == Ok::<
                (int, Seq<u8>),
                Seq<char>,
            >((end as int, unit@)) && cursor < end <= data@.len(),
            Err(message) => record_unit(data@, cursor as int) == Err::<
                (int, Seq<u8>),
                Seq<char>,
            >(message@),
        },
{
    if cursor > data.len() || data.len() - cursor < 2 {
        return Err("AVCC extradata ended before a NAL length field".to_owned());
    }
    let size: usize = read_length(data, cursor, 2);
    let start: usize = cursor + 2;
    match start.checked_add(size) {
        None => Err("AVCC NAL length overflowed".to_owned()),
        Some(end) => {
            if end > data.len() {
                return Err("AVCC extradata contained a truncated NAL unit".to_owned());
            }
            let mut unit: Vec<u8> = Vec::new();
            append_range(&mut unit, data, start, end);
            assert(unit@ == data@.subrange(start as int, end as int));
            Ok((end, unit))
        },
    }
}

/// Reads a number of units in a row from a configuration record and appends them,
/// each behind a start code; returns where the last one ends.
fn append_record_units(output: &mut Vec<u8>, data: &[u8], cursor: usize, count: usize) -> (r:
    Result<usize, String>)
    requires
        cursor <= data@.len(),
    ensures
        match r {
            Ok(end) => end <= data@.len() && (record_units(data@, cursor as int, count as nat)
                matches Ok((at, units)) && at == end && final(output)@ == old(output)@ + annex_b(
                units,
            )),
            Err(message) => record_units(data@, cursor as int, count as nat) == Err::<
                (int, Seq<Seq<u8>>),
                Seq<char>,
            >(message@),
        },
{
    let ghost before = output@;
    let ghost whole = record_units(data@, cursor as int, count as nat);
    let ghost mut units: Seq<Seq<u8>> = Seq::empty();
    let mut at: usize = cursor;
    let mut left: usize = count;
    proof {
        if let Ok((end, rest)) = whole {
            assert(units + rest == rest);
        }
        assert(before + annex_b(units) == before);
    }
    while left > 0
        invariant
            at <= data@.len(),
            whole == record_units(data@, cursor as int, count as nat),
            output@ == before + annex_b(units),
            match record_units(data@, at as int, left as nat) {
                Ok((end, rest)) => whole == Ok::<(int, Seq<Seq<u8>>), Seq<char>>(
                    (end, units + rest),
                ),
                Err(message) => whole == Err::<(int, Seq<Seq<u8>>), Seq<char>>(message),
            },
        decreases left,
    {
        match read_avcc_unit(data, at) {
            Err(message) => {
                return Err(message);
            },
            Ok((next, unit)) => {
                append_start_code(output);
                append_range(output, unit.as_slice(), 0, unit.len());
                proof {
                    assert(unit@.subrange(0, unit@.len() as int) == unit@);
                    lemma_annex_b_push(units, unit@);
                    assert(output@ == before + annex_b(units.push(unit@)));
                    if let Ok((end, rest)) = record_units(data@, next as int, (left - 1) as nat) {
                        assert(units + (seq![unit@] + rest) == units.push(unit@) + rest);
                    }
                    units = units.push(unit@);
                }
                at = next;
            },
        }
        left -= 1;
    }
    assert(units + Seq::<Seq<u8>>::empty() == units);
    Ok(at)
}

/// Reads a configuration record: the number of bytes of a length field, and the
/// parameter sets, each behind a start code.
pub fn parse_avcc_extradata(extradata: &[u8]) -> (r: Result<(usize, Vec<u8>), String>)
    ensures
        match r {
            Ok((n, sets)) => record_reading(extradata@) matches Ok((size, units)) && size == n
                && sets@ == annex_b(units) && 1 <= n <= 4,
            Err(message) => record_reading(extradata@) == Err::<(int, Seq<Seq<u8>>), Seq<char>>(
                message@,
            ),
        },
{
    if extradata.len() < 7 {
        return Err("AVCC extradata is too short to parse".to_owned());
    }
    let size_byte: u8 = extradata[4];
    let count_byte: u8 = extradata[5];
    assert(size_byte & 0b11 == size_byte % 4) by (bit_vector);
    assert(count_byte & 0b0001_1111 == count_byte % 32) by (bit_vector);
    let nalu_length_size: usize = (size_byte & 0b11) as usize + 1;
    let sps_count: usize = (count_byte & 0b0001_1111) as usize;
    let mut sets: Vec<u8> = Vec::new();
    let at: usize = match append_record_units(&mut sets, extradata, 6, sps_count) {
        Ok(at) => at,
        Err(message) => {
            return Err(message);
        },
    };
    let ghost sequence_sets = record_units(extradata@, 6, sps_count as nat)->Ok_0.1;
    assert(sets@ == annex_b(sequence_sets));
    if at >= extradata.len() {
        return Ok((nalu_length_size, sets));
    }
    let pps_count: usize = extradata[at] as usize;
    match append_record_units(&mut sets, extradata, at + 1, pps_count) {
        Ok(_) => {
            proof {
                lemma_annex_b_concat(
                    sequence_sets,
                    record_units(extradata@, at + 1, pps_count as nat)->Ok_0.1,
                );
            }
            Ok((nalu_length_size, sets))
        },
        Err(message) => Err(message),
    }
}

/// The stream of two lists is the streams of both in a row.
proof fn lemma_annex_b_concat(a: Seq<Seq<u8>>, b: Seq<Seq<u8>>)
    ensures
        annex_b(a + b) == annex_b(a) + annex_b(b),
    decreases a.len(),
{
    if a.len() == 0 {
        assert(a + b == b);
    } else {
        lemma_annex_b_concat(a.drop_first(), b);
        assert((a + b).drop_first() == a.drop_first() + b);
    }
}

/// Reads the extra data of a stream, if it has any.
pub fn extract_h264_config(extradata: Option<&[u8]>) -> (r: Result<Option<H264Config>, String>)
    ensures
        match r {
            Ok(config) => config_reading(
                match extradata {
                    Some(data) => Some(data@),
                    None => None,
                },
            ) == Ok::<Option<(int, Seq<u8>)>, Seq<char>>(config_view(config)),
            Err(message) => config_reading(
                match extradata {
                    Some(data) => Some(data@),
                    None => None,
                },
            ) == Err::<Option<(int, Seq<u8>)>, Seq<char>>(message@),
        },
{
    let data = match extradata {
        Some(data) => data,
        None => {
            return Ok(None);
        },
    };
    if data.len() == 0 {
        return Ok(None);
    }
    if looks_like_annex_b(data) {
        let mut sets: Vec<u8> = Vec::new();
        append_range(&mut sets, data, 0, data.len());
        assert(sets@ == data@);
        return Ok(Some(H264Config { nalu_length_size: 4, parameter_sets_annexb: sets }));
    }
    if data[0] != 1 {
        return Ok(None);
    }
    match parse_avcc_extradata(data) {
        Ok((nalu_length_size, parameter_sets_annexb)) => Ok(
            Some(H264Config { nalu_length_size, parameter_sets_annexb }),
        ),
        Err(message) => Err(message),
    }
}

/// Makes a payload into a stream with start codes, and gives key frames the parameter
/// sets that they lack.
pub fn normalize_h264_payload(
    payload: &[u8],
    is_keyframe: bool,
    config: Option<&H264Config>,
) -> (r: Result<Vec<u8>, String>)
    ensures
        match r {
            Ok(output) => normalized(
                payload@,
                is_keyframe,
                match config {
                    Some(config) => config_view(Some(*config)),
                    None => None,
                },
            ) == Ok::<Seq<u8>, Seq<char>>(output@),
            Err(message) => normalized(
                payload@,
                is_keyframe,
                match config {
                    Some(config) => config_view(Some(*config)),
                    None => None,
                },
            ) == Err::<Seq<u8>, Seq<char>>(message@),
        },
{
    let mut output: Vec<u8> = Vec::new();
    if looks_like_annex_b(payload) {
        append_range(&mut output, payload, 0, payload.len());
        assert(output@ == payload@);
    } else {
        let nalu_length_size: usize = match config {
            Some(config) => config.nalu_length_size,
            None => 4,
        };
        match avcc_to_annex_b(payload, nalu_length_size) {
            Ok(stream) => {
                output = stream;
            },
            Err(message) => {
                return Err(message);
            },
        }
    }
    if is_keyframe {
        if let Some(config) = config {
            let (has_sps, has_pps) = annex_b_parameter_sets(output.as_slice());
            if !has_sps || !has_pps {
                let mut prefixed: Vec<u8> = Vec::new();
                append_range(
                    &mut prefixed,
                    config.parameter_sets_annexb.as_slice(),
                    0,
                    config.parameter_sets_annexb.len(),
                );
                append_range(&mut prefixed, output.as_slice(), 0, output.len());
                assert(prefixed@ == config.parameter_sets_annexb@ + output@);
                output = prefixed;
            }
        }
    }
    Ok(output)
}

// ---------------------------------------------------------------------------
// Laws
// ---------------------------------------------------------------------------

/// A number in `n` bytes, the most significant first.
pub open spec fn length_field(value: nat, n: nat) -> Seq<u8>
    decreases n,
{
    if n == 0 {
        Seq::empty()
    } else {
        length_field(value / 256, (n - 1) as nat).push((value % 256) as u8)
    }
}

/// Whether a number fits into `n` bytes.
pub open spec fn fits(value: nat, n: nat) -> bool
    decreases n,
{
    if n == 0 {
        value == 0
    } else {
        fits(value / 256, (n - 1) as nat)
    }
}

/// The units of a list in a row, each behind a length field of `n` bytes.
pub open spec fn avcc(units: Seq<Seq<u8>>, n: nat) -> Seq<u8>
    decreases units.len(),
{
    if units.len() == 0 {
        Seq::empty()
    } else {
        length_field(units[0].len(), n) + units[0] + avcc(units.drop_first(), n)
    }
}

/// A length field stands for the number it was made of.
pub proof fn length_fields_read_back(value: nat, n: nat)
    requires
        fits(value, n),
    ensures
        length_field(value, n).len() == n,
        big_endian(length_field(value, n)) == value,
    decreases n,
{
    if n > 0 {
        let high = length_field(value / 256, (n - 1) as nat);
        length_fields_read_back(value / 256, (n - 1) as nat);
        lemma_big_endian_push(high, (value % 256) as u8);
    }
}

/// The units of a list that hold anything, in their order.
pub open spec fn filled(units: Seq<Seq<u8>>) -> Seq<Seq<u8>>
    decreases units.len(),
{
    if units.len() == 0 {
        Seq::empty()
    } else if units[0].len() == 0 {
        filled(units.drop_first())
    } else {
        seq![units[0]] + filled(units.drop_first())
    }
}

proof fn lemma_avcc_units_read_back(p: Seq<u8>, at: int, units: Seq<Seq<u8>>, n: nat)
    requires
        n > 0,
        0 <= at <= p.len() <= usize::MAX,
        p.skip(at) == avcc(units, n),
        forall|k: int| 0 <= k < units.len() ==> fits((#[trigger] units[k]).len(), n),
    ensures
        avcc_units(p, at, n as int) == Ok::<Seq<Seq<u8>>, Seq<char>>(filled(units)),
    decreases units.len(),
{
    if units.len() == 0 {
        assert(p.skip(at).len() == 0);
        assert(units == Seq::<Seq<u8>>::empty());
    } else {
        let unit = units[0];
        let rest = units.drop_first();
        let field = length_field(unit.len(), n);
        length_fields_read_back(unit.len(), n);
        let begin = at + n;
        let end = begin + unit.len();
        let here = p.skip(at);
        assert(here.len() == n + unit.len() + avcc(rest, n).len());
        assert(p.subrange(at, begin) == field) by {
            assert(p.subrange(at, begin) == here.take(n as int));
        }
        assert(p.subrange(begin, end) == unit) by {
            assert(p.subrange(begin, end) == here.subrange(n as int, (n + unit.len()) as int));
        }
        assert(p.skip(end) == avcc(rest, n)) by {
            assert(p.skip(end) == here.skip((n + unit.len()) as int));
        }
        assert forall|k: int| 0 <= k < rest.len() implies fits((#[trigger] rest[k]).len(), n) by {
            assert(rest[k] == units[k + 1]);
        }
        lemma_avcc_units_read_back(p, end, rest, n);
    }
}

/// Units behind length fields become the same units behind start codes, in their
/// order; empty ones are left out. There has to be one that is not empty, unless there
/// is none at all.
pub proof fn avcc_becomes_annex_b(units: Seq<Seq<u8>>, n: nat)
    requires
        1 <= n <= 4,
        avcc(units, n).len() <= usize::MAX,
        forall|k: int| 0 <= k < units.len() ==> fits((#[trigger] units[k]).len(), n),
    ensures
        avcc_reading(avcc(units, n), n as int) == (if units.len() > 0 && filled(units).len() == 0 {
            Err::<Seq<u8>, Seq<char>>("AVCC payload produced no NAL units"@)
        } else {
            Ok(annex_b(filled(units)))
        }),
        (forall|k: int| 0 <= k < units.len() ==> (#[trigger] units[k]).len() > 0) ==> filled(units)
            == units,
{
    let p = avcc(units, n);
    assert(p.skip(0) == p);
    lemma_avcc_units_read_back(p, 0, units, n);
    if units.len() > 0 {
        length_fields_read_back(units[0].len(), n);
        assert(p.len() >= n);
    }
    if forall|k: int| 0 <= k < units.len() ==> (#[trigger] units[k]).len() > 0 {
        lemma_filled_units_stay(units);
    }
}

proof fn lemma_filled_units_stay(units: Seq<Seq<u8>>)
    requires
        forall|k: int| 0 <= k < units.len() ==> (#[trigger] units[k]).len() > 0,
    ensures
        filled(units) == units,
    decreases units.len(),
{
    if units.len() > 0 {
        let rest = units.drop_first();
        assert forall|k: int| 0 <= k < rest.len() implies (#[trigger] rest[k]).len() > 0 by {
            assert(rest[k] == units[k + 1]);
        }
        lemma_filled_units_stay(rest);
        assert(seq![units[0]] + rest =~= units);
    } else {
        assert(units =~= Seq::<Seq<u8>>::empty());
    }
}

/// Whether a unit holds bytes that could be taken for a start code.
pub open spec fn holds_code(unit: Seq<u8>) -> bool {
    exists|i: int|
        0 <= i && i + 3 <= unit.len() && #[trigger] unit[i] == 0 && unit[i + 1] == 0 && unit[i + 2]
            == 1
}

/// Whether a unit that stands before `tail` ends where `tail` begins: nothing in it
/// is taken for a start code, and no zero at its end is taken for part of the next.
pub open spec fn ends_before(unit: Seq<u8>, tail: Seq<u8>) -> bool {
    &&& !holds_code(unit)
    &&& tail.len() == 0 || code_len_at(tail, 0) == 4 || (code_len_at(tail, 0) == 3 && (unit.len()
        == 0 || unit.last() != 0))
}

/// The bytes of a stream that goes on with a unit and what stands behind it.
proof fn lemma_byte_of(p: Seq<u8>, from: int, unit: Seq<u8>, tail: Seq<u8>, i: int)
    requires
        0 <= from <= p.len(),
        p.skip(from) == unit + tail,
    ensures
        p.len() == from + unit.len() + tail.len(),
        from <= i < from + unit.len() ==> p[i] == unit[i - from],
        from + unit.len() <= i < p.len() ==> p[i] == tail[i - from - unit.len()],
{
    let here = p.skip(from);
    assert(here.len() == p.len() - from);
    assert((unit + tail).len() == unit.len() + tail.len());
    if from <= i < p.len() {
        assert(p[i] == p.skip(from)[i - from]);
    }
}

/// No start code begins inside a unit that ends before what follows it.
proof fn lemma_no_code_inside(p: Seq<u8>, from: int, unit: Seq<u8>, tail: Seq<u8>, i: int)
    requires
        0 <= from <= i < from + unit.len(),
        from <= p.len(),
        p.skip(from) == unit + tail,
        ends_before(unit, tail),
    ensures
        code_len_at(p, i) == 0,
{
    let end = from + unit.len();
    let k = i - from;
    lemma_byte_of(p, from, unit, tail, i);
    lemma_byte_of(p, from, unit, tail, i + 1);
    lemma_byte_of(p, from, unit, tail, i + 2);
    lemma_byte_of(p, from, unit, tail, i + 3);
    if code_len_at(p, i) == 4 {
        if i + 3 < end {
            assert(unit[k + 1] == 0 && unit[k + 2] == 0 && unit[k + 3] == 1);
            assert(holds_code(unit));
        } else if i + 3 == end {
            assert(tail[0] == 1);
        } else if i + 3 == end + 1 {
            assert(tail[1] == 1);
        } else {
            assert(tail[2] == 1);
            assert(unit.last() == unit[k]);
        }
    } else if code_len_at(p, i) == 3 {
        if i + 2 < end {
            assert(unit[k] == 0 && unit[k + 1] == 0 && unit[k + 2] == 1);
            assert(holds_code(unit));
        } else if i + 2 == end {
            assert(tail[0] == 1);
        } else {
            assert(tail[1] == 1);
        }
    }
}

proof fn lemma_unit_ends(p: Seq<u8>, from: int, unit: Seq<u8>, tail: Seq<u8>)
    requires
        0 <= from <= p.len(),
        p.skip(from) == unit + tail,
        ends_before(unit, tail),
    ensures
        first_code(p, from) == from + unit.len(),
{
    let end = from + unit.len();
    lemma_byte_of(p, from, unit, tail, end);
    first_code_is_the_first(p, from);
    let found = first_code(p, from);
    if found < end {
        lemma_no_code_inside(p, from, unit, tail, found);
    }
    if tail.len() > 0 {
        lemma_byte_of(p, from, unit, tail, end + 1);
        lemma_byte_of(p, from, unit, tail, end + 2);
        lemma_byte_of(p, from, unit, tail, end + 3);
        assert(code_len_at(p, end) > 0);
    }
}

/// The stream of a list that is not empty begins with the long start code.
proof fn lemma_annex_b_begins(units: Seq<Seq<u8>>, tail: Seq<u8>)
    requires
        units.len() > 0,
    ensures
        code_len_at(annex_b(units) + tail, 0) == 4,
        code_len_at(annex_b(units), 0) == 4,
{
    let whole = annex_b(units) + tail;
    assert(annex_b(units).len() >= 4);
    assert(whole[0] == 0 && whole[1] == 0 && whole[2] == 0 && whole[3] == 1);
    assert(annex_b(units)[0] == 0 && annex_b(units)[1] == 0 && annex_b(units)[2] == 0 && annex_b(
        units,
    )[3] == 1);
}

/// Units behind start codes in front of another stream are split off one by one.
proof fn lemma_units_split_off(p: Seq<u8>, from: int, units: Seq<Seq<u8>>, tail: Seq<u8>)
    requires
        0 <= from <= p.len(),
        p.skip(from) == annex_b(units) + tail,
        forall|k: int| 0 <= k < units.len() ==> !holds_code(#[trigger] units[k]),
        units.len() > 0 ==> ends_before(units.last(), tail),
    ensures
        units_from(p, from) == units + units_from(p, from + annex_b(units).len()),
    decreases units.len(),
{
    if units.len() == 0 {
        assert(annex_b(units).len() == 0);
        assert(units + units_from(p, from) == units_from(p, from));
    } else {
        let unit = units[0];
        let rest = units.drop_first();
        let behind = annex_b(rest) + tail;
        let begin = from + 4;
        let end = begin + unit.len();
        lemma_annex_b_begins(units, tail);
        let here = p.skip(from);
        assert(annex_b(units) == start_code() + unit + annex_b(rest));
        assert(here == start_code() + unit + behind);
        assert(code_len_at(p, from) == 4) by {
            assert(p[from] == here[0]);
            assert(p[from + 1] == here[1]);
            assert(p[from + 2] == here[2]);
            assert(p[from + 3] == here[3]);
        }
        assert(first_code(p, from) == from);
        assert(p.skip(begin) == unit + behind) by {
            assert(p.skip(begin) == here.skip(4));
        }
        assert(ends_before(unit, behind)) by {
            if rest.len() > 0 {
                lemma_annex_b_begins(rest, tail);
            } else {
                assert(behind == tail);
                assert(unit == units.last());
            }
        }
        lemma_unit_ends(p, begin, unit, behind);
        assert(p.subrange(begin, end) == unit) by {
            assert(p.subrange(begin, end) == p.skip(begin).take(unit.len() as int));
        }
        assert(p.skip(end) == behind) by {
            assert(p.skip(end) == p.skip(begin).skip(unit.len() as int));
        }
        assert forall|k: int| 0 <= k < rest.len() implies !holds_code(#[trigger] rest[k]) by {
            assert(rest[k] == units[k + 1]);
        }
        if rest.len() > 0 {
            assert(rest.last() == units.last());
        }
        lemma_units_split_off(p, end, rest, tail);
        assert(end + annex_b(rest).len() == from + annex_b(units).len());
        assert(seq![unit] + (rest + units_from(p, from + annex_b(units).len())) == units
            + units_from(p, from + annex_b(units).len()));
    }
}

/// A stream with start codes splits into the units that it was joined of.
pub proof fn annex_b_splits_into_its_units(units: Seq<Seq<u8>>)
    requires
        forall|k: int| 0 <= k < units.len() ==> !holds_code(#[trigger] units[k]),
    ensures
        units_of(annex_b(units)) == units,
{
    let p = annex_b(units);
    assert(p.skip(0) == annex_b(units) + Seq::<u8>::empty());
    lemma_units_split_off(p, 0, units, Seq::empty());
    assert(units_from(p, p.len() as int) == Seq::<Seq<u8>>::empty());
    assert(units + Seq::<Seq<u8>>::empty() == units);
}

/// What a payload reads as, if it reads, is empty or begins with a start code.
proof fn lemma_stream_begins_with_code(payload: Seq<u8>, n: int)
    ensures
        avcc_reading(payload, n) matches Ok(stream) ==> stream.len() == 0 || is_annex_b(stream),
{
    if let Ok(stream) = avcc_reading(payload, n) {
        let units = avcc_units(payload, 0, n)->Ok_0;
        if units.len() > 0 {
            lemma_annex_b_begins(units, Seq::empty());
        }
    }
}

/// A start code stays where it is when more bytes follow, and none comes before it.
proof fn lemma_code_stays(p: Seq<u8>, more: Seq<u8>, i: int)
    requires
        0 <= i < p.len(),
    ensures
        code_len_at(p, i) > 0 ==> code_len_at(p + more, i) == code_len_at(p, i),
        i + 4 <= p.len() ==> code_len_at(p + more, i) == code_len_at(p, i),
{
    let whole = p + more;
    assert(forall|k: int| 0 <= k < p.len() ==> whole[k] == p[k]);
}

/// A unit of some type is there, too, when more bytes follow the stream: it may lose its
/// end, but not its first byte.
proof fn lemma_types_stay(p: Seq<u8>, more: Seq<u8>, from: int, unit_type: u8)
    requires
        0 <= from <= p.len(),
        0 < unit_type < 32,
        has_type(units_from(p, from), unit_type),
    ensures
        has_type(units_from(p + more, from), unit_type),
    decreases p.len() - from,
{
    let whole = p + more;
    let start = first_code(p, from);
    first_code_is_the_first(p, from);
    first_code_is_the_first(whole, from);
    lemma_code_stays(p, more, start);
    assert(first_code(whole, from) == start) by {
        let found = first_code(whole, from);
        if found < start {
            lemma_code_stays(p, more, found);
            assert(code_len_at(p, found) == 0);
        }
        if found > start {
            assert(code_len_at(whole, start) == 0);
        }
    }
    let begin = start + code_len_at(p, start);
    let end = first_code(p, begin);
    let end_in_whole = first_code(whole, begin);
    first_code_is_the_first(p, begin);
    first_code_is_the_first(whole, begin);
    let unit = p.subrange(begin, end);
    let unit_in_whole = whole.subrange(begin, end_in_whole);
    let rest = units_from(p, end);
    let rest_of_whole = units_from(whole, end_in_whole);
    assert(units_from(p, from) == seq![unit] + rest);
    assert(units_from(whole, from) == seq![unit_in_whole] + rest_of_whole);
    let k = choose|k: int|
        0 <= k < units_from(p, from).len() && is_of_type(
            #[trigger] units_from(p, from)[k],
            unit_type,
        );
    if k == 0 {
        assert(whole[begin] == p[begin]);
        assert(unit[0] == p[begin]);
        assert(code_len_at(whole, begin) == 0);
        assert(begin < end_in_whole);
        assert(unit_in_whole[0] == p[begin]);
        assert(is_of_type(units_from(whole, from)[0], unit_type));
    } else {
        assert(is_of_type(rest[k - 1], unit_type));
        assert(has_type(rest, unit_type));
        assert(end < p.len());
        lemma_code_stays(p, more, end);
        assert(end_in_whole == end) by {
            if end_in_whole < end {
                lemma_code_stays(p, more, end_in_whole);
                assert(code_len_at(p, end_in_whole) == 0);
            }
            if end_in_whole > end {
                assert(code_len_at(whole, end) == 0);
            }
        }
        lemma_types_stay(p, more, end, unit_type);
        let j = choose|j: int|
            0 <= j < rest_of_whole.len() && is_of_type(#[trigger] rest_of_whole[j], unit_type);
        assert(units_from(whole, from)[j + 1] == rest_of_whole[j]);
        assert(is_of_type(units_from(whole, from)[j + 1], unit_type));
    }
}

/// A stream with parameter sets has them, too, when any bytes follow it.
pub proof fn parameter_sets_stay_in_front(p: Seq<u8>, more: Seq<u8>)
    requires
        has_parameter_sets(p),
    ensures
        has_parameter_sets(p + more),
{
    lemma_types_stay(p, more, 0, SPS);
    lemma_types_stay(p, more, 0, PPS);
}

/// The units from the long start code at `target` on are among those of the stream.
proof fn lemma_types_behind_a_code(p: Seq<u8>, from: int, target: int, unit_type: u8)
    requires
        0 <= from <= target,
        code_len_at(p, target) == 4,
        has_type(units_from(p, target), unit_type),
    ensures
        has_type(units_from(p, from), unit_type),
    decreases target - from,
{
    let start = first_code(p, from);
    first_code_is_the_first(p, from);
    assert(start <= target) by {
        if start > target {
            assert(code_len_at(p, target) == 0);
        }
    }
    if start == target {
        assert(first_code(p, target) == target);
        assert(units_from(p, from) == units_from(p, target));
    } else {
        let begin = start + code_len_at(p, start);
        assert(begin <= target);
        let end = first_code(p, begin);
        first_code_is_the_first(p, begin);
        assert(end <= target) by {
            if end > target {
                assert(code_len_at(p, target) == 0);
            }
        }
        lemma_types_behind_a_code(p, end, target, unit_type);
        let rest = units_from(p, end);
        let k = choose|k: int| 0 <= k < rest.len() && is_of_type(#[trigger] rest[k], unit_type);
        assert(units_from(p, from) == seq![p.subrange(begin, end)] + rest);
        assert(units_from(p, from)[k + 1] == rest[k]);
        assert(is_of_type(units_from(p, from)[k + 1], unit_type));
    }
}

/// A unit of some type behind a start code is found in the stream, whatever bytes the
/// units hold.
proof fn lemma_types_are_found(p: Seq<u8>, from: int, units: Seq<Seq<u8>>, unit_type: u8)
    requires
        0 <= from <= p.len(),
        p.skip(from) == annex_b(units),
        0 < unit_type < 32,
        has_type(units, unit_type),
    ensures
        has_type(units_from(p, from), unit_type),
    decreases units.len(),
{
    let unit = units[0];
    let rest = units.drop_first();
    let here = p.skip(from);
    let begin = from + 4;
    let next = begin + unit.len();
    assert(annex_b(units) == start_code() + unit + annex_b(rest));
    assert(code_len_at(p, from) == 4) by {
        assert(p[from] == here[0]);
        assert(p[from + 1] == here[1]);
        assert(p[from + 2] == here[2]);
        assert(p[from + 3] == here[3]);
    }
    assert(first_code(p, from) == from);
    let end = first_code(p, begin);
    first_code_is_the_first(p, begin);
    assert(units_from(p, from) == seq![p.subrange(begin, end)] + units_from(p, end));
    if is_of_type(unit, unit_type) {
        assert(p[begin] == here[4]);
        assert(here[4] == unit[0]);
        assert(code_len_at(p, begin) == 0);
        assert(begin < end);
        assert(p.subrange(begin, end)[0] == unit[0]);
        assert(is_of_type(units_from(p, from)[0], unit_type));
    } else {
        let k = choose|k: int| 0 <= k < units.len() && is_of_type(#[trigger] units[k], unit_type);
        assert(rest[k - 1] == units[k]);
        assert(has_type(rest, unit_type));
        assert(p.skip(next) == annex_b(rest)) by {
            assert(p.skip(next) == here.skip((4 + unit.len()) as int));
        }
        lemma_types_are_found(p, next, rest, unit_type);
        assert(code_len_at(p, next) == 4) by {
            lemma_annex_b_begins(rest, Seq::empty());
            assert(p[next] == p.skip(next)[0]);
            assert(p[next + 1] == p.skip(next)[1]);
            assert(p[next + 2] == p.skip(next)[2]);
            assert(p[next + 3] == p.skip(next)[3]);
        }
        lemma_types_behind_a_code(p, from, next, unit_type);
    }
}

/// Parameter sets of both kinds behind start codes are found in the stream, whatever bytes
/// they hold.
pub proof fn joined_parameter_sets_are_found(sets: Seq<Seq<u8>>)
    requires
        has_type(sets, SPS),
        has_type(sets, PPS),
    ensures
        has_parameter_sets(annex_b(sets)),
{
    let p = annex_b(sets);
    assert(p.skip(0) == p);
    lemma_types_are_found(p, 0, sets, SPS);
    lemma_types_are_found(p, 0, sets, PPS);
}

/// A key frame always comes out with parameter sets, if the configuration has them.
pub proof fn keyframes_carry_parameter_sets(payload: Seq<u8>, n: int, sets: Seq<u8>)
    requires
        has_parameter_sets(sets),
    ensures
        normalized(payload, true, Some((n, sets))) matches Ok(output) ==> has_parameter_sets(
            output,
        ),
{
    if let Ok(output) = normalized(payload, true, Some((n, sets))) {
        let stream = if is_annex_b(payload) {
            payload
        } else {
            avcc_reading(payload, n)->Ok_0
        };
        if !has_parameter_sets(stream) {
            assert(output == sets + stream);
            parameter_sets_stay_in_front(sets, stream);
        }
    }
}

/// A frame that carries its parameter sets behind start codes is left as it is.
pub proof fn complete_keyframes_stay(
    payload: Seq<u8>,
    is_keyframe: bool,
    config: Option<(int, Seq<u8>)>,
)
    requires
        is_annex_b(payload),
        has_parameter_sets(payload),
    ensures
        normalized(payload, is_keyframe, config) == Ok::<Seq<u8>, Seq<char>>(payload),
{
}

/// Normalizing a frame a second time changes nothing, if it is no key frame.
pub proof fn normalizing_delta_frames_is_idempotent(
    payload: Seq<u8>,
    config: Option<(int, Seq<u8>)>,
)
    ensures
        normalized(payload, false, config) matches Ok(output) ==> normalized(
            output,
            false,
            config,
        ) == Ok::<Seq<u8>, Seq<char>>(output),
{
    let n = match config {
        Some((n, _)) => n,
        None => 4int,
    };
    lemma_stream_begins_with_code(payload, n);
    if let Ok(output) = normalized(payload, false, config) {
        if output.len() == 0 {
            assert(avcc_units(output, 0, n) == Ok::<Seq<Seq<u8>>, Seq<char>>(Seq::empty()));
            assert(output == annex_b(Seq::empty()));
        }
    }
}

/// Normalizing a key frame a second time changes nothing, if the configuration has the
/// parameter sets, the first of them behind a start code.
pub proof fn normalizing_keyframes_is_idempotent(payload: Seq<u8>, n: int, sets: Seq<u8>)
    requires
        is_annex_b(sets),
        has_parameter_sets(sets),
    ensures
        normalized(payload, true, Some((n, sets))) matches Ok(output) ==> normalized(
            output,
            true,
            Some((n, sets)),
        ) == Ok::<Seq<u8>, Seq<char>>(output),
{
    keyframes_carry_parameter_sets(payload, n, sets);
    lemma_stream_begins_with_code(payload, n);
    if let Ok(output) = normalized(payload, true, Some((n, sets))) {
        let stream = if is_annex_b(payload) {
            payload
        } else {
            avcc_reading(payload, n)->Ok_0
        };
        if has_parameter_sets(stream) {
            assert(stream.len() > 0);
        } else {
            lemma_code_stays(sets, stream, 0);
        }
        assert(is_annex_b(output));
    }
}

/// The parameter sets of a configuration begin with a start code, if there are any.
pub proof fn configurations_begin_with_a_code(data: Option<Seq<u8>>)
    ensures
        config_reading(data) matches Ok(Some((_, sets))) ==> sets.len() == 0 || is_annex_b(sets),
{
    if let Ok(Some((_, sets))) = config_reading(data) {
        let data = data->0;
        if !is_annex_b(data) {
            let units = record_reading(data)->Ok_0.1;
            if units.len() > 0 {
                lemma_annex_b_begins(units, Seq::empty());
            }
        }
    }
}

/// A delta frame that begins with a start code, of three bytes or of four, comes out as it
/// went in, every byte of it.
pub proof fn coded_delta_frames_come_through_whole(
    payload: Seq<u8>,
    config: Option<(int, Seq<u8>)>,
)
    requires
        (payload.len() >= 3 && payload[0] == 0 && payload[1] == 0 && payload[2] == 1) || (
        payload.len() >= 4 && payload[0] == 0 && payload[1] == 0 && payload[2] == 0 && payload[3]
            == 1),
    ensures
        normalized(payload, false, config) == Ok::<Seq<u8>, Seq<char>>(payload),
        normalized(payload, true, None) == Ok::<Seq<u8>, Seq<char>>(payload),
{
}

/// Units behind start codes are joined one by one: a unit more is its bytes more, behind
/// the bytes 0, 0, 0 and 1, and nothing else.
pub proof fn units_are_joined_behind_start_codes(units: Seq<Seq<u8>>, unit: Seq<u8>)
    ensures
        annex_b(Seq::empty()) == Seq::<u8>::empty(),
        annex_b(units.push(unit)) == annex_b(units) + seq![0u8, 0u8, 0u8, 1u8] + unit,
{
    lemma_annex_b_push(units, unit);
}

/// A delta frame of units behind length fields comes out as all of them in their order,
/// each behind a start code. Without a configuration the length fields have four bytes.
pub proof fn length_prefixed_delta_frames_come_through_whole(
    units: Seq<Seq<u8>>,
    n: nat,
    config: Option<(int, Seq<u8>)>,
)
    requires
        1 <= n <= 4,
        match config {
            Some((size, _)) => size == n,
            None => n == 4,
        },
        units.len() > 0,
        forall|k: int| 0 <= k < units.len() ==> 0 < (#[trigger] units[k]).len() && fits(
            units[k].len(),
            n,
        ),
        avcc(units, n).len() <= usize::MAX,
        !(avcc(units, n).len() >= 3 && avcc(units, n)[0] == 0 && avcc(units, n)[1] == 0 && (avcc(
            units,
            n,
        )[2] == 1 || (avcc(units, n).len() >= 4 && avcc(units, n)[2] == 0 && avcc(units, n)[3]
            == 1))),
    ensures
        normalized(avcc(units, n), false, config) == Ok::<Seq<u8>, Seq<char>>(annex_b(units)),
        normalized(avcc(units, n), true, None) == normalized(avcc(units, n), false, None),
{
    avcc_becomes_annex_b(units, n);
    lemma_filled_units_stay(units);
}

/// A key frame comes out whenever the same frame as a delta frame does, and ends with the
/// whole of what that gives: in front of it there is nothing, or the parameter sets of the
/// configuration where the frame brings none of its own.
pub proof fn keyframes_end_with_the_whole_frame(payload: Seq<u8>, config: Option<(int, Seq<u8>)>)
    ensures
        match (normalized(payload, true, config), normalized(payload, false, config)) {
            (Ok(output), Ok(stream)) => match config {
                None => output == stream,
                Some((_, sets)) => if has_parameter_sets(stream) {
                    output == stream
                } else {
                    output == sets + stream
                },
            },
            (Err(refusal), Err(same)) => refusal == same,
            _ => false,
        },
{
}

/// A stream of units has its parameter sets if and only if one of the units begins with a
/// byte whose lower five bits are 7, and one with a byte whose lower five bits are 8.
pub proof fn parameter_sets_are_told_by_their_types(units: Seq<Seq<u8>>)
    requires
        forall|k: int| 0 <= k < units.len() ==> !holds_code(#[trigger] units[k]),
    ensures
        has_parameter_sets(annex_b(units)) <==> (exists|k: int|
            0 <= k < units.len() && (#[trigger] units[k]).len() > 0 && units[k][0] % 32 == 7) && (
        exists|k: int|
            0 <= k < units.len() && (#[trigger] units[k]).len() > 0 && units[k][0] % 32 == 8),
{
    annex_b_splits_into_its_units(units);
    assert forall|k: int| 0 <= k < units.len() implies is_of_type(#[trigger] units[k], 7) == (
    units[k].len() > 0 && units[k][0] % 32 == 7) && is_of_type(units[k], 8) == (units[k].len() > 0
        && units[k][0] % 32 == 8) by {}
}

proof fn lemma_avcc_units_go_on(p: Seq<u8>, at: int, units: Seq<Seq<u8>>, n: nat, tail: Seq<u8>)
    requires
        n > 0,
        0 <= at <= p.len() <= usize::MAX,
        p.skip(at) == avcc(units, n) + tail,
        forall|k: int| 0 <= k < units.len() ==> fits((#[trigger] units[k]).len(), n),
    ensures
        avcc_units(p, p.len() - tail.len(), n as int) is Err ==> avcc_units(p, at, n as int)
            == avcc_units(p, p.len() - tail.len(), n as int),
    decreases units.len(),
{
    if units.len() == 0 {
        assert(p.skip(at) == tail);
    } else {
        let unit = units[0];
        let rest = units.drop_first();
        let field = length_field(unit.len(), n);
        length_fields_read_back(unit.len(), n);
        let begin = at + n;
        let end = begin + unit.len();
        let here = p.skip(at);
        assert(here.len() == n + unit.len() + avcc(rest, n).len() + tail.len());
        assert(p.subrange(at, begin) == field) by {
            assert(p.subrange(at, begin) == here.take(n as int));
        }
        assert(p.skip(end) == avcc(rest, n) + tail) by {
            assert(p.skip(end) == here.skip((n + unit.len()) as int));
        }
        assert forall|k: int| 0 <= k < rest.len() implies fits((#[trigger] rest[k]).len(), n) by {
            assert(rest[k] == units[k + 1]);
        }
        lemma_avcc_units_go_on(p, end, rest, n, tail);
    }
}

/// A payload that breaks off is refused: where a length field is cut short, and where a
/// unit is shorter than its length field says.
pub proof fn broken_off_payloads_are_refused(
    units: Seq<Seq<u8>>,
    n: nat,
    cut_field: Seq<u8>,
    length: nat,
    cut_unit: Seq<u8>,
)
    requires
        1 <= n <= 4,
        forall|k: int| 0 <= k < units.len() ==> fits((#[trigger] units[k]).len(), n),
        0 < cut_field.len() < n,
        fits(length, n),
        cut_unit.len() < length,
        avcc(units, n).len() + n + length <= usize::MAX,
    ensures
        avcc_reading(avcc(units, n) + cut_field, n as int) == Err::<Seq<u8>, Seq<char>>(
            "AVCC payload ended before a NALU size field"@,
        ),
        avcc_reading(avcc(units, n) + (length_field(length, n) + cut_unit), n as int) == Err::<
            Seq<u8>,
            Seq<char>,
        >("AVCC payload contained a truncated NALU"@),
{
    let whole = avcc(units, n);
    let first = whole + cut_field;
    assert(first.skip(0) == first);
    lemma_avcc_units_go_on(first, 0, units, n, cut_field);
    let field = length_field(length, n);
    length_fields_read_back(length, n);
    let tail = field + cut_unit;
    let second = whole + tail;
    assert(second.skip(0) == second);
    let at = whole.len() as int;
    assert(second.subrange(at, at + n) == field);
    assert(avcc_units(second, at, n as int) == Err::<Seq<Seq<u8>>, Seq<char>>(
        "AVCC payload contained a truncated NALU"@,
    ));
    lemma_avcc_units_go_on(second, 0, units, n, tail);
}

/// A configuration record: its version, three bytes on the profile, the length of the
/// length fields, and the sequence and the picture parameter sets, each list behind its
/// count and each set behind two bytes of length.
pub open spec fn configuration_record(
    profile: Seq<u8>,
    n: nat,
    sequence_sets: Seq<Seq<u8>>,
    picture_sets: Seq<Seq<u8>>,
) -> Seq<u8> {
    seq![1u8] + profile + seq![(252 + (n - 1)) as u8, (224 + sequence_sets.len()) as u8] + avcc(
        sequence_sets,
        2,
    ) + seq![picture_sets.len() as u8] + avcc(picture_sets, 2)
}

proof fn lemma_record_units_read_back(
    data: Seq<u8>,
    at: int,
    units: Seq<Seq<u8>>,
    tail: Seq<u8>,
)
    requires
        0 <= at <= data.len() <= usize::MAX,
        data.skip(at) == avcc(units, 2) + tail,
        forall|k: int| 0 <= k < units.len() ==> fits((#[trigger] units[k]).len(), 2),
    ensures
        record_units(data, at, units.len()) == Ok::<(int, Seq<Seq<u8>>), Seq<char>>(
            (data.len() - tail.len(), units),
        ),
    decreases units.len(),
{
    if units.len() == 0 {
        assert(data.skip(at) == tail);
        assert(units == Seq::<Seq<u8>>::empty());
    } else {
        let unit = units[0];
        let rest = units.drop_first();
        let field = length_field(unit.len(), 2);
        length_fields_read_back(unit.len(), 2);
        let here = data.skip(at);
        let end = at + 2 + unit.len();
        assert(here.len() == 2 + unit.len() + avcc(rest, 2).len() + tail.len());
        assert(data.subrange(at, at + 2) == field) by {
            assert(data.subrange(at, at + 2) == here.take(2));
        }
        assert(data.subrange(at + 2, end) == unit) by {
            assert(data.subrange(at + 2, end) == here.subrange(2, (2 + unit.len()) as int));
        }
        assert(data.skip(end) == avcc(rest, 2) + tail) by {
            assert(data.skip(end) == here.skip((2 + unit.len()) as int));
        }
        assert forall|k: int| 0 <= k < rest.len() implies fits((#[trigger] rest[k]).len(), 2) by {
            assert(rest[k] == units[k + 1]);
        }
        lemma_record_units_read_back(data, end, rest, tail);
        assert(seq![unit] + rest == units);
    }
}

/// A configuration record gives the length of the length fields and all the parameter
/// sets in it, the sequence ones first, each behind a start code.
pub proof fn configuration_records_read_back(
    profile: Seq<u8>,
    n: nat,
    sequence_sets: Seq<Seq<u8>>,
    picture_sets: Seq<Seq<u8>>,
)
    requires
        profile.len() == 3,
        1 <= n <= 4,
        sequence_sets.len() < 32,
        picture_sets.len() < 256,
        forall|k: int| 0 <= k < sequence_sets.len() ==> fits((#[trigger] sequence_sets[k]).len(), 2),
        forall|k: int| 0 <= k < picture_sets.len() ==> fits((#[trigger] picture_sets[k]).len(), 2),
        configuration_record(profile, n, sequence_sets, picture_sets).len() <= usize::MAX,
    ensures
        config_reading(Some(configuration_record(profile, n, sequence_sets, picture_sets)))
            == Ok::<Option<(int, Seq<u8>)>, Seq<char>>(
            Some((n as int, annex_b(sequence_sets) + annex_b(picture_sets))),
        ),
{
    let data = configuration_record(profile, n, sequence_sets, picture_sets);
    let head = seq![1u8] + profile + seq![(252 + (n - 1)) as u8, (224 + sequence_sets.len()) as u8];
    let first = avcc(sequence_sets, 2);
    let count = seq![picture_sets.len() as u8];
    let second = avcc(picture_sets, 2);
    assert(data == head + first + count + second);
    lemma_parts_behind(head, first, count, second);
    lemma_record_units_read_back(data, 6, sequence_sets, count + second);
    let at = data.len() - 1 - second.len();
    assert(second == second + Seq::<u8>::empty());
    lemma_record_units_read_back(data, at + 1, picture_sets, Seq::empty());
    lemma_annex_b_concat(sequence_sets, picture_sets);
    assert(head[0] == 1);
    assert(head[4] == (252 + (n - 1)) as u8);
    assert(head[5] == (224 + sequence_sets.len()) as u8);
    assert(data[4] as int % 4 + 1 == n);
    assert(data[5] as nat % 32 == sequence_sets.len());
    assert(data[at] as nat == picture_sets.len());
    assert(!is_annex_b(data));
    assert(record_reading(data) == Ok::<(int, Seq<Seq<u8>>), Seq<char>>(
        (n as int, sequence_sets + picture_sets),
    ));
}

proof fn lemma_parts_behind(head: Seq<u8>, a: Seq<u8>, b: Seq<u8>, c: Seq<u8>)
    requires
        head.len() == 6,
        b.len() == 1,
    ensures
        ({
            let whole = head + a + b + c;
            &&& whole.len() == 7 + a.len() + c.len()
            &&& whole.skip(6) == a + (b + c)
            &&& whole[whole.len() - 1 - c.len()] == b[0]
            &&& whole.skip(whole.len() - c.len()) == c
            &&& forall|i: int| 0 <= i < 6 ==> whole[i] == head[i]
        }),
{
    let whole = head + a + b + c;
    assert(whole.skip(6) =~= a + (b + c));
    assert(whole.skip(whole.len() - c.len()) =~= c);
}

/// Extra data that begins with a start code is the parameter sets themselves; none, empty
/// data, and data of another kind give no configuration.
pub proof fn other_extra_data_is_taken_as_it_is(data: Seq<u8>)
    ensures
        config_reading(None) == Ok::<Option<(int, Seq<u8>)>, Seq<char>>(None),
        data.len() == 0 ==> config_reading(Some(data)) == Ok::<
            Option<(int, Seq<u8>)>,
            Seq<char>,
        >(None),
        data.len() >= 3 && data[0] == 0 && data[1] == 0 && (data[2] == 1 || (data.len() >= 4
            && data[2] == 0 && data[3] == 1)) ==> config_reading(Some(data)) == Ok::<
            Option<(int, Seq<u8>)>,
            Seq<char>,
        >(Some((4int, data))),
        data.len() >= 1 && data[0] > 1 ==> config_reading(Some(data)) == Ok::<
            Option<(int, Seq<u8>)>,
            Seq<char>,
        >(None),
        1 <= data.len() < 7 && data[0] == 1 ==> config_reading(Some(data)) is Err,
{
}

proof fn lemma_first_code_shifts(p: Seq<u8>, by: int, from: int)
    requires
        0 <= by <= from <= p.len(),
    ensures
        first_code(p, from) == first_code(p.skip(by), from - by) + by,
        forall|i: int|
            by <= i <= p.len() ==> #[trigger] code_len_at(p, i) == code_len_at(p.skip(by), i - by),
    decreases p.len() - from,
{
    let tail = p.skip(by);
    assert forall|i: int| by <= i <= p.len() implies #[trigger] code_len_at(p, i) == code_len_at(
        tail,
        i - by,
    ) by {
        assert(forall|k: int| 0 <= k < tail.len() ==> tail[k] == p[k + by]);
    }
    if from < p.len() {
        lemma_first_code_shifts(p, by, from + 1);
        assert(code_len_at(p, from) == code_len_at(tail, from - by));
    }
}

proof fn lemma_units_shift(p: Seq<u8>, by: int, from: int)
    requires
        0 <= by <= from <= p.len(),
    ensures
        units_from(p, from) == units_from(p.skip(by), from - by),
    decreases p.len() - from,
{
    let tail = p.skip(by);
    first_code_is_the_first(p, from);
    lemma_first_code_shifts(p, by, from);
    let start = first_code(p, from);
    if start < p.len() {
        let begin = start + code_len_at(p, start);
        assert(code_len_at(p, start) == code_len_at(tail, start - by));
        first_code_is_the_first(p, begin);
        lemma_first_code_shifts(p, by, begin);
        let end = first_code(p, begin);
        lemma_units_shift(p, by, end);
        assert(p.subrange(begin, end) == tail.subrange(begin - by, end - by));
    }
}

/// A stream splits at every start code, of three bytes or of four: what stands between
/// the first one and the next is the first unit, and the others are those of the rest.
pub proof fn streams_split_at_either_code(code: Seq<u8>, unit: Seq<u8>, tail: Seq<u8>)
    requires
        code == seq![0u8, 0u8, 1u8] || code == seq![0u8, 0u8, 0u8, 1u8],
        !holds_code(unit),
        unit.len() > 0 && unit.last() != 0,
        tail.len() == 0 || (tail.len() >= 3 && tail[0] == 0 && tail[1] == 0 && (tail[2] == 1 || (
        tail.len() >= 4 && tail[2] == 0 && tail[3] == 1))),
    ensures
        units_of(code + unit + tail) == seq![unit] + units_of(tail),
{
    let p = code + unit + tail;
    let begin = code.len() as int;
    let end = begin + unit.len();
    assert(code_len_at(p, 0) == begin);
    assert(first_code(p, 0) == 0);
    assert(p.skip(begin) == unit + tail);
    lemma_unit_ends(p, begin, unit, tail);
    assert(p.subrange(begin, end) == unit);
    assert(p.skip(end) == tail);
    lemma_units_shift(p, end, end);
}

/// All units of a frame come through in their order. A delta frame that begins with a start
/// code comes out as it went in; one of units behind length fields comes out as the same
/// units behind start codes; and a key frame ends with the whole of that.
pub proof fn frames_come_through_whole(
    payload: &[u8],
    config: Option<&H264Config>,
    delta: Result<Vec<u8>, String>,
    key: Result<Vec<u8>, String>,
)
    requires
        call_ensures(normalize_h264_payload, (payload, false, config), delta),
        call_ensures(normalize_h264_payload, (payload, true, config), key),
    ensures
        payload@.len() >= 3 && payload@[0] == 0 && payload@[1] == 0 && (payload@[2] == 1 || (
        payload@.len() >= 4 && payload@[2] == 0 && payload@[3] == 1)) ==> (delta matches Ok(output)
            && output@ == payload@),
        delta is Ok <==> key is Ok,
        match (delta, key) {
            (Ok(stream), Ok(output)) => {
                &&& output@.len() >= stream@.len()
                &&& output@.skip(output@.len() - stream@.len()) == stream@
                &&& match config {
                    None => output@ == stream@,
                    Some(config) => if has_parameter_sets(stream@) {
                        output@ == stream@
                    } else {
                        output@ == config.parameter_sets_annexb@ + stream@
                    },
                }
            },
            _ => true,
        },
{
    let view = match config {
        Some(config) => config_view(Some(*config)),
        None => None,
    };
    keyframes_end_with_the_whole_frame(payload@, view);
    if let Ok(stream) = delta {
        let output = key->Ok_0;
        assert(output@.skip(output@.len() - stream@.len()) == stream@);
    }
}

/// Units behind length fields become the same units behind start codes.
pub proof fn units_change_their_frames(
    payload: &[u8],
    units: Seq<Seq<u8>>,
    n: usize,
    config: Option<&H264Config>,
    delta: Result<Vec<u8>, String>,
    stream: Result<Vec<u8>, String>,
)
    requires
        1 <= n <= 4,
        match config {
            Some(config) => config.nalu_length_size == n,
            None => n == 4,
        },
        units.len() > 0,
        forall|k: int| 0 <= k < units.len() ==> 0 < (#[trigger] units[k]).len() && fits(
            units[k].len(),
            n as nat,
        ),
        payload@ == avcc(units, n as nat),
        payload@.len() <= usize::MAX,
        !(payload@.len() >= 3 && payload@[0] == 0 && payload@[1] == 0 && (payload@[2] == 1 || (
        payload@.len() >= 4 && payload@[2] == 0 && payload@[3] == 1))),
        call_ensures(normalize_h264_payload, (payload, false, config), delta),
        call_ensures(avcc_to_annex_b, (payload, n), stream),
    ensures
        delta matches Ok(output) && output@ == annex_b(units),
        stream matches Ok(output) && output@ == annex_b(units),
{
    let view = match config {
        Some(config) => config_view(Some(*config)),
        None => None,
    };
    length_prefixed_delta_frames_come_through_whole(units, n as nat, view);
    avcc_becomes_annex_b(units, n as nat);
    lemma_filled_units_stay(units);
}

/// A configuration is read out of its record: the length of the length fields and every
/// parameter set in it.
pub proof fn configurations_are_read_out(
    data: &[u8],
    profile: Seq<u8>,
    n: nat,
    sequence_sets: Seq<Seq<u8>>,
    picture_sets: Seq<Seq<u8>>,
    r: Result<Option<H264Config>, String>,
)
    requires
        profile.len() == 3,
        1 <= n <= 4,
        sequence_sets.len() < 32,
        picture_sets.len() < 256,
        forall|k: int| 0 <= k < sequence_sets.len() ==> fits((#[trigger] sequence_sets[k]).len(), 2),
        forall|k: int| 0 <= k < picture_sets.len() ==> fits((#[trigger] picture_sets[k]).len(), 2),
        data@ == configuration_record(profile, n, sequence_sets, picture_sets),
        data@.len() <= usize::MAX,
        call_ensures(extract_h264_config, (Some(data),), r),
    ensures
        r matches Ok(Some(config)) && config.nalu_length_size == n && config.parameter_sets_annexb@
            == annex_b(sequence_sets) + annex_b(picture_sets),
{
    configuration_records_read_back(profile, n, sequence_sets, picture_sets);
}

/// The parameter sets of a stream are found by the types of its units.
pub proof fn parameter_sets_are_found(payload: &[u8], units: Seq<Seq<u8>>, found: (bool, bool))
    requires
        payload@ == annex_b(units),
        forall|k: int| 0 <= k < units.len() ==> !holds_code(#[trigger] units[k]),
        call_ensures(annex_b_parameter_sets, (payload,), found),
    ensures
        found.0 && found.1 <==> (exists|k: int|
            0 <= k < units.len() && (#[trigger] units[k]).len() > 0 && units[k][0] % 32 == 7) && (
        exists|k: int|
            0 <= k < units.len() && (#[trigger] units[k]).len() > 0 && units[k][0] % 32 == 8),
{
    parameter_sets_are_told_by_their_types(units);
}

/// A configuration record may end behind its sequence parameter sets; it gives those.
pub proof fn records_may_lack_picture_sets(
    profile: Seq<u8>,
    n: nat,
    sequence_sets: Seq<Seq<u8>>,
)
    requires
        profile.len() == 3,
        1 <= n <= 4,
        0 < sequence_sets.len() < 32,
        forall|k: int| 0 <= k < sequence_sets.len() ==> fits((#[trigger] sequence_sets[k]).len(), 2),
        avcc(sequence_sets, 2).len() + 6 <= usize::MAX,
    ensures
        config_reading(
            Some(
                seq![1u8] + profile + seq![
                    (252 + (n - 1)) as u8,
                    (224 + sequence_sets.len()) as u8,
                ] + avcc(sequence_sets, 2),
            ),
        ) == Ok::<Option<(int, Seq<u8>)>, Seq<char>>(Some((n as int, annex_b(sequence_sets)))),
{
    let head = seq![1u8] + profile + seq![(252 + (n - 1)) as u8, (224 + sequence_sets.len()) as u8];
    let first = avcc(sequence_sets, 2);
    let data = head + first;
    length_fields_read_back(sequence_sets[0].len(), 2);
    assert(first.len() >= 2);
    assert(data.skip(6) == first + Seq::<u8>::empty());
    lemma_record_units_read_back(data, 6, sequence_sets, Seq::empty());
    assert(head[0] == 1);
    assert(head[4] == (252 + (n - 1)) as u8);
    assert(head[5] == (224 + sequence_sets.len()) as u8);
    assert(data[0] == 1 && data[4] == head[4] && data[5] == head[5]);
    assert(data[4] as int % 4 + 1 == n);
    assert(data[5] as nat % 32 == sequence_sets.len());
    assert(!is_annex_b(data));
    assert(record_reading(data) == Ok::<(int, Seq<Seq<u8>>), Seq<char>>(
        (n as int, sequence_sets),
    ));
}

} // verus!
