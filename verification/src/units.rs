//! Byte sizes, bitrates and durations as they are written in manifests.

use std::str::FromStr;

use vstd::prelude::*;

use crate::text;
use crate::time::Duration;

verus! {

broadcast use crate::time::durations_are_their_length;

/// The position of the first character that is no decimal digit, or the length.
pub open spec fn digit_run(s: Seq<char>) -> nat
    decreases s.len(),
{
    if s.len() > 0 && text::is_digit(s[0]) {
        1 + digit_run(s.drop_first())
    } else {
        0
    }
}

/// The number of bytes that an upper-cased unit stands for.
pub open spec fn byte_unit(unit: Seq<char>) -> Option<u64> {
    if unit == "B"@ {
        Some(1u64)
    } else if unit == "KB"@ {
        Some(1_000u64)
    } else if unit == "MB"@ {
        Some(1_000_000u64)
    } else if unit == "GB"@ {
        Some(1_000_000_000u64)
    } else if unit == "KIB"@ {
        Some(1_024u64)
    } else if unit == "MIB"@ {
        Some(1_048_576u64)
    } else if unit == "GIB"@ {
        Some(1_073_741_824u64)
    } else {
        None
    }
}

/// The number of bits per second that a lower-cased unit stands for.
pub open spec fn bitrate_unit(unit: Seq<char>) -> Option<u64> {
    if unit == "k"@ || unit == "kbps"@ {
        Some(1_000u64)
    } else if unit == "m"@ || unit == "mbps"@ {
        Some(1_000_000u64)
    } else if unit == "g"@ || unit == "gbps"@ {
        Some(1_000_000_000u64)
    } else if unit == "bps"@ {
        Some(1u64)
    } else {
        None
    }
}

/// What a byte size reads as: its number of bytes, or why it does not read.
pub open spec fn byte_size_reading(input: Seq<char>) -> Result<u64, Seq<char>> {
    let t = text::trimmed(input);
    let n = digit_run(t);
    let digits = t.take(n as int);
    let unit = text::trimmed(t.skip(n as int));
    if t.len() == 0 {
        Err("Invalid byte size format. Value cannot be empty."@)
    } else if n == t.len() {
        Err("Invalid byte size format. Expected a unit suffix such as 'MB'."@)
    } else if text::unsigned_value(digits, u64::MAX as nat) is None {
        Err("Invalid byte size format. '"@ + digits + "' is not a valid integer."@)
    } else if byte_unit(text::upper(unit)) is None {
        Err("Invalid byte size format. Unsupported unit '"@ + unit + "'."@)
    } else {
        let value = text::unsigned_value(digits, u64::MAX as nat)->0 * byte_unit(
            text::upper(unit),
        )->0;
        if value <= u64::MAX {
            Ok(value as u64)
        } else {
            Err("Invalid byte size format. Value exceeds supported range."@)
        }
    }
}

/// What a bitrate reads as: its bits per second, or why it does not read.
pub open spec fn bitrate_reading(input: Seq<char>) -> Result<u64, Seq<char>> {
    let t = text::trimmed(input);
    let n = digit_run(t);
    let digits = t.take(n as int);
    let unit = text::trimmed(t.skip(n as int));
    if t.len() == 0 {
        Err("Invalid bitrate format. Value cannot be empty."@)
    } else if n == t.len() {
        Err("Invalid bitrate format. Expected a unit suffix such as 'k' or 'Mbps'."@)
    } else if text::unsigned_value(digits, u64::MAX as nat) is None {
        Err("Invalid bitrate format. '"@ + digits + "' is not a valid integer."@)
    } else if bitrate_unit(text::lower(unit)) is None {
        Err("Invalid bitrate format. Unsupported unit '"@ + unit + "'."@)
    } else {
        let value = text::unsigned_value(digits, u64::MAX as nat)->0 * bitrate_unit(
            text::lower(unit),
        )->0;
        if value <= u64::MAX {
            Ok(value as u64)
        } else {
            Err("Invalid bitrate format. Value exceeds supported range."@)
        }
    }
}

/// What a duration reads as: its length in nanoseconds, or why it does not read.
pub open spec fn duration_reading(input: Seq<char>) -> Result<nat, Seq<char>> {
    let t = text::trimmed(input);
    if t.len() == 0 {
        Err("Invalid duration format. Value cannot be empty."@)
    } else if text::has_suffix(t, "ms"@) {
        match text::unsigned_value(t.take(t.len() - 2), u64::MAX as nat) {
            Some(millis) => Ok(millis * 1_000_000),
            None => Err(
                "Invalid duration format. '"@ + t.take(t.len() - 2)
                    + "' is not a valid millisecond value."@,
            ),
        }
    } else if text::has_suffix(t, "s"@) {
        match text::unsigned_value(t.take(t.len() - 1), u64::MAX as nat) {
            Some(secs) => Ok(secs * 1_000_000_000),
            None => Err(
                "Invalid duration format. '"@ + t.take(t.len() - 1)
                    + "' is not a valid second value."@,
            ),
        }
    } else if text::has_suffix(t, "m"@) {
        match text::unsigned_value(t.take(t.len() - 1), u64::MAX as nat) {
            Some(mins) => if mins * 60 <= u64::MAX {
                Ok(mins * 60_000_000_000)
            } else {
                Err("Invalid duration format. Value exceeds supported range."@)
            },
            None => Err(
                "Invalid duration format. '"@ + t.take(t.len() - 1)
                    + "' is not a valid minute value."@,
            ),
        }
    } else {
        Err("Invalid duration format. Expected a suffix such as '10s' or '250ms'."@)
    }
}

/// The number of digits at the start of a text.
fn leading_digits(s: &str) -> (r: usize)
    ensures
        r == digit_run(s@),
        r <= s@.len(),
{
    let chars = text::chars_of(s);
    let mut i: usize = 0;
    assert(s@.skip(0) == s@);
    while i < chars.len() && '0' <= chars[i] && chars[i] <= '9'
        invariant
            i <= chars.len(),
            chars@ == s@,
            digit_run(s@) == i + digit_run(s@.skip(i as int)),
        decreases chars.len() - i,
    {
        assert(s@.skip(i as int).drop_first() == s@.skip(i + 1));
        i += 1;
    }
    i
}

/// A number of bytes.
#[derive(Debug, Clone, Copy, PartialEq, Eq, PartialOrd, Ord, Hash, Structural)]
pub struct ByteSize(pub u64);

impl ByteSize {
    /// The number of bytes.
    pub fn as_bytes(self) -> (r: u64)
        ensures
            r == self.0,
    {
        self.0
    }

    /// Reads a size such as `256MB` or `64 KiB`.
    pub fn from_str(input: &str) -> (r: Result<Self, String>)
        ensures
            match r {
                Ok(size) => byte_size_reading(input@) == Ok::<u64, Seq<char>>(size.0),
                Err(message) => byte_size_reading(input@) == Err::<u64, Seq<char>>(message@),
            },
    {
        let t = text::trim(input);
        let chars = text::chars_of(t);
        if chars.len() == 0 {
            return Err("Invalid byte size format. Value cannot be empty.".to_owned());
        }
        let n: usize = leading_digits(t);
        if n == chars.len() {
            return Err(
                "Invalid byte size format. Expected a unit suffix such as 'MB'.".to_owned(),
            );
        }
        let digits = t.substring_char(0, n);
        let rest = t.substring_char(n, chars.len());
        assert(digits@ == t@.take(n as int));
        assert(rest@ == t@.skip(n as int));
        let unit = text::trim(rest);
        let value: u64 = match text::parse_unsigned(digits, u64::MAX) {
            Some(value) => value,
            None => {
                return Err(
                    text::join3(
                        "Invalid byte size format. '",
                        digits,
                        "' is not a valid integer.",
                    ),
                );
            },
        };
        let upper = text::to_ascii_uppercase(unit);
        let name = upper.as_str();
        let multiplier: u64 = if text::same(name, "B") {
            1
        } else if text::same(name, "KB") {
            1_000
        } else if text::same(name, "MB") {
            1_000_000
        } else if text::same(name, "GB") {
            1_000_000_000
        } else if text::same(name, "KIB") {
            1_024
        } else if text::same(name, "MIB") {
            1_048_576
        } else if text::same(name, "GIB") {
            1_073_741_824
        } else {
            return Err(
                text::join3("Invalid byte size format. Unsupported unit '", unit, "'."),
            );
        };
        match value.checked_mul(multiplier) {
            Some(bytes) => Ok(ByteSize(bytes)),
            None => Err("Invalid byte size format. Value exceeds supported range.".to_owned()),
        }
    }

    /// Writes the size out in bytes.
    pub fn to_string(&self) -> (r: String)
        ensures
            r@ == text::decimal(self.0 as nat) + "B"@,
    {
        let mut out = text::decimal_string(self.0);
        out.append("B");
        out
    }
}

impl FromStr for ByteSize {
    type Err = String;

    fn from_str(input: &str) -> (r: Result<Self, String>)
        ensures
            match r {
                Ok(size) => byte_size_reading(input@) == Ok::<u64, Seq<char>>(size.0),
                Err(message) => byte_size_reading(input@) == Err::<u64, Seq<char>>(message@),
            },
    {
        ByteSize::from_str(input)
    }
}

/// A number of bits per second.
#[derive(Debug, Clone, Copy, PartialEq, Eq, PartialOrd, Ord, Hash, Structural)]
pub struct Bitrate(pub u64);

impl Bitrate {
    /// The number of bits per second.
    pub fn as_bits_per_second(self) -> (r: u64)
        ensures
            r == self.0,
    {
        self.0
    }

    /// Reads a bitrate such as `900k` or `4 Mbps`.
    pub fn from_str(input: &str) -> (r: Result<Self, String>)
        ensures
            match r {
                Ok(rate) => bitrate_reading(input@) == Ok::<u64, Seq<char>>(rate.0),
                Err(message) => bitrate_reading(input@) == Err::<u64, Seq<char>>(message@),
            },
    {
        let t = text::trim(input);
        let chars = text::chars_of(t);
        if chars.len() == 0 {
            return Err("Invalid bitrate format. Value cannot be empty.".to_owned());
        }
        let n: usize = leading_digits(t);
        if n == chars.len() {
            return Err(
                "Invalid bitrate format. Expected a unit suffix such as 'k' or 'Mbps'.".to_owned(),
            );
        }
        let digits = t.substring_char(0, n);
        let rest = t.substring_char(n, chars.len());
        assert(digits@ == t@.take(n as int));
        assert(rest@ == t@.skip(n as int));
        let unit = text::trim(rest);
        let value: u64 = match text::parse_unsigned(digits, u64::MAX) {
            Some(value) => value,
            None => {
                return Err(
                    text::join3("Invalid bitrate format. '", digits, "' is not a valid integer."),
                );
            },
        };
        let lower = text::to_ascii_lowercase(unit);
        let name = lower.as_str();
        let multiplier: u64 = if text::same(name, "k") || text::same(name, "kbps") {
            1_000
        } else if text::same(name, "m") || text::same(name, "mbps") {
            1_000_000
        } else if text::same(name, "g") || text::same(name, "gbps") {
            1_000_000_000
        } else if text::same(name, "bps") {
            1
        } else {
            return Err(text::join3("Invalid bitrate format. Unsupported unit '", unit, "'."));
        };
        match value.checked_mul(multiplier) {
            Some(bits) => Ok(Bitrate(bits)),
            None => Err("Invalid bitrate format. Value exceeds supported range.".to_owned()),
        }
    }

    /// Writes the bitrate out in bits per second.
    pub fn to_string(&self) -> (r: String)
        ensures
            r@ == text::decimal(self.0 as nat) + "bps"@,
    {
        let mut out = text::decimal_string(self.0);
        out.append("bps");
        out
    }
}

impl FromStr for Bitrate {
    type Err = String;

    fn from_str(input: &str) -> (r: Result<Self, String>)
        ensures
            match r {
                Ok(rate) => bitrate_reading(input@) == Ok::<u64, Seq<char>>(rate.0),
                Err(message) => bitrate_reading(input@) == Err::<u64, Seq<char>>(message@),
            },
    {
        Bitrate::from_str(input)
    }
}

/// Reads a duration such as `10s`, `250ms` or `2m`.
pub fn parse_duration(input: &str) -> (r: Result<Duration, String>)
    ensures
        match r {
            Ok(span) => duration_reading(input@) == Ok::<nat, Seq<char>>(span@),
            Err(message) => duration_reading(input@) == Err::<nat, Seq<char>>(message@),
        },
{
    let t = text::trim(input);
    if t.is_empty() {
        return Err("Invalid duration format. Value cannot be empty.".to_owned());
    }
    proof {
        reveal_strlit("ms");
        reveal_strlit("s");
        reveal_strlit("m");
    }
    if let Some(value) = text::strip_suffix(t, "ms") {
        return match text::parse_unsigned(value, u64::MAX) {
            Some(millis) => Ok(Duration::from_millis(millis)),
            None => Err(
                text::join3(
                    "Invalid duration format. '",
                    value,
                    "' is not a valid millisecond value.",
                ),
            ),
        };
    }
    if let Some(value) = text::strip_suffix(t, "s") {
        return match text::parse_unsigned(value, u64::MAX) {
            Some(secs) => Ok(Duration::from_secs(secs)),
            None => Err(
                text::join3(
                    "Invalid duration format. '",
                    value,
                    "' is not a valid second value.",
                ),
            ),
        };
    }
    if let Some(value) = text::strip_suffix(t, "m") {
        return match text::parse_unsigned(value, u64::MAX) {
            Some(mins) => match mins.checked_mul(60) {
                Some(secs) => Ok(Duration::from_secs(secs)),
                None => Err("Invalid duration format. Value exceeds supported range.".to_owned()),
            },
            None => Err(
                text::join3(
                    "Invalid duration format. '",
                    value,
                    "' is not a valid minute value.",
                ),
            ),
        };
    }
    Err("Invalid duration format. Expected a suffix such as '10s' or '250ms'.".to_owned())
}

// ---------------------------------------------------------------------------
// Laws
// ---------------------------------------------------------------------------

proof fn lemma_digit_run(digits: Seq<char>, rest: Seq<char>)
    requires
        text::all_digits(digits),
        rest.len() == 0 || !text::is_digit(rest[0]),
    ensures
        digit_run(digits + rest) == digits.len(),
    decreases digits.len(),
{
    if digits.len() == 0 {
        assert(digits + rest == rest);
    } else {
        assert((digits + rest)[0] == digits[0]);
        assert((digits + rest).drop_first() == digits.drop_first() + rest);
        assert forall|i: int| 0 <= i < digits.drop_first().len() implies text::is_digit(
            #[trigger] digits.drop_first()[i],
        ) by {
            assert(digits.drop_first()[i] == digits[i + 1]);
        }
        lemma_digit_run(digits.drop_first(), rest);
    }
}

/// A number and a unit come apart again.
proof fn lemma_number_and_unit(n: nat, unit: Seq<char>)
    requires
        unit.len() > 0,
        !text::is_digit(unit[0]),
        !text::is_whitespace(unit[0]),
        !text::is_whitespace(unit.last()),
    ensures
        text::trimmed(text::decimal(n) + unit) == text::decimal(n) + unit,
        digit_run(text::decimal(n) + unit) == text::decimal(n).len(),
        (text::decimal(n) + unit).take(text::decimal(n).len() as int) == text::decimal(n),
        (text::decimal(n) + unit).skip(text::decimal(n).len() as int) == unit,
        text::trimmed(unit) == unit,
        text::unsigned_value(text::decimal(n), u64::MAX as nat) == (if n <= u64::MAX {
            Some(n)
        } else {
            None
        }),
        text::decimal(n).len() > 0,
{
    text::decimals_read_back(n);
    let digits = text::decimal(n);
    let s = digits + unit;
    assert(text::is_digit(digits[0]));
    assert(s[0] == digits[0]);
    assert(s.last() == unit.last());
    text::trimming_leaves_inner_text(s);
    text::trimming_leaves_inner_text(unit);
    lemma_digit_run(digits, unit);
    assert(s.take(digits.len() as int) == digits);
    assert(s.skip(digits.len() as int) == unit);
}

/// A size that is written as a number and a unit, in any case of letters, reads as the
/// number times the unit, unless that is too large.
pub proof fn sizes_read_as_written(n: u64, unit: Seq<char>)
    requires
        byte_unit(text::upper(unit)) is Some,
    ensures
        byte_size_reading(text::decimal(n as nat) + unit) == (if n * byte_unit(
            text::upper(unit),
        )->0 <= u64::MAX {
            Ok::<u64, Seq<char>>((n * byte_unit(text::upper(unit))->0) as u64)
        } else {
            Err("Invalid byte size format. Value exceeds supported range."@)
        }),
{
    reveal_strlit("B");
    reveal_strlit("KB");
    reveal_strlit("MB");
    reveal_strlit("GB");
    reveal_strlit("KIB");
    reveal_strlit("MIB");
    reveal_strlit("GIB");
    let upper = text::upper(unit);
    assert(upper.len() == unit.len());
    assert(upper.len() > 0);
    assert(upper[0] == text::upper_char(unit[0]));
    assert(upper.last() == text::upper_char(unit.last()));
    assert(upper[0] == 'B' || upper[0] == 'K' || upper[0] == 'M' || upper[0] == 'G');
    assert(upper.last() == 'B');
    lemma_number_and_unit(n as nat, unit);
}

/// A size that is written out reads as the same size.
pub proof fn sizes_read_back(size: ByteSize)
    ensures
        byte_size_reading(text::decimal(size.0 as nat) + "B"@) == Ok::<u64, Seq<char>>(size.0),
{
    reveal_strlit("B");
    assert(text::upper("B"@) =~= "B"@);
    sizes_read_as_written(size.0, "B"@);
    let one = byte_unit(text::upper("B"@))->0;
    assert(size.0 * one == size.0) by (nonlinear_arith)
        requires
            one == 1,
    ;
}

/// A bitrate that is written as a number and a unit, in any case of letters, reads as
/// the number times the unit, unless that is too large.
pub proof fn bitrates_read_as_written(n: u64, unit: Seq<char>)
    requires
        bitrate_unit(text::lower(unit)) is Some,
    ensures
        bitrate_reading(text::decimal(n as nat) + unit) == (if n * bitrate_unit(
            text::lower(unit),
        )->0 <= u64::MAX {
            Ok::<u64, Seq<char>>((n * bitrate_unit(text::lower(unit))->0) as u64)
        } else {
            Err("Invalid bitrate format. Value exceeds supported range."@)
        }),
{
    reveal_strlit("k");
    reveal_strlit("kbps");
    reveal_strlit("m");
    reveal_strlit("mbps");
    reveal_strlit("g");
    reveal_strlit("gbps");
    reveal_strlit("bps");
    let lower = text::lower(unit);
    assert(lower.len() == unit.len());
    assert(lower.len() > 0);
    assert(lower[0] == text::lower_char(unit[0]));
    assert(lower.last() == text::lower_char(unit.last()));
    assert(lower[0] == 'k' || lower[0] == 'm' || lower[0] == 'g' || lower[0] == 'b');
    assert(lower.last() == 'k' || lower.last() == 'm' || lower.last() == 'g' || lower.last()
        == 's');
    lemma_number_and_unit(n as nat, unit);
}

/// A bitrate that is written out reads as the same bitrate.
pub proof fn bitrates_read_back(rate: Bitrate)
    ensures
        bitrate_reading(text::decimal(rate.0 as nat) + "bps"@) == Ok::<u64, Seq<char>>(rate.0),
{
    reveal_strlit("k");
    reveal_strlit("kbps");
    reveal_strlit("m");
    reveal_strlit("mbps");
    reveal_strlit("g");
    reveal_strlit("gbps");
    reveal_strlit("bps");
    assert(text::lower("bps"@) =~= "bps"@);
    assert("bps"@[0] != "k"@[0] && "bps"@[0] != "m"@[0] && "bps"@[0] != "g"@[0]);
    assert("bps"@[0] != "kbps"@[0] && "bps"@[0] != "mbps"@[0] && "bps"@[0] != "gbps"@[0]);
    bitrates_read_as_written(rate.0, "bps"@);
    let one = bitrate_unit(text::lower("bps"@))->0;
    assert(rate.0 * one == rate.0) by (nonlinear_arith)
        requires
            one == 1,
    ;
}

/// A duration that is written as a number of milliseconds, seconds or minutes reads as
/// that much, unless it is too large.
pub proof fn durations_read_as_written(n: u64)
    ensures
        duration_reading(text::decimal(n as nat) + "ms"@) == Ok::<nat, Seq<char>>(
            n as nat * 1_000_000,
        ),
        duration_reading(text::decimal(n as nat) + "s"@) == Ok::<nat, Seq<char>>(
            n as nat * 1_000_000_000,
        ),
        duration_reading(text::decimal(n as nat) + "m"@) == (if n * 60 <= u64::MAX {
            Ok::<nat, Seq<char>>(n as nat * 60_000_000_000)
        } else {
            Err("Invalid duration format. Value exceeds supported range."@)
        }),
{
    reveal_strlit("ms");
    reveal_strlit("s");
    reveal_strlit("m");
    lemma_number_and_unit(n as nat, "ms"@);
    lemma_number_and_unit(n as nat, "s"@);
    lemma_number_and_unit(n as nat, "m"@);
    text::decimals_read_back(n as nat);
    let digits = text::decimal(n as nat);
    assert(text::is_digit(digits.last()));
    let millis = digits + "ms"@;
    let secs = digits + "s"@;
    let mins = digits + "m"@;
    assert(millis.take(millis.len() - 2) == digits);
    assert(secs.take(secs.len() - 1) == digits);
    assert(mins.take(mins.len() - 1) == digits);
    assert(text::has_suffix(millis, "ms"@));
    assert(secs[secs.len() - 2] == digits.last());
    assert(!text::has_suffix(secs, "ms"@)) by {
        if text::has_suffix(secs, "ms"@) {
            assert(secs.skip(secs.len() - 2)[0] == secs[secs.len() - 2]);
        }
    }
    assert(text::has_suffix(secs, "s"@));
    assert(mins.last() == 'm');
    assert(!text::has_suffix(mins, "ms"@)) by {
        if text::has_suffix(mins, "ms"@) {
            assert(mins.skip(mins.len() - 2)[1] == mins.last());
        }
    }
    assert(!text::has_suffix(mins, "s"@)) by {
        if text::has_suffix(mins, "s"@) {
            assert(mins.skip(mins.len() - 1)[0] == mins.last());
        }
    }
    assert(text::has_suffix(mins, "m"@));
}

/// Whether a reading is a number, or is refused where that is too large to be counted.
pub open spec fn counts_as(reading: Result<u64, Seq<char>>, exact: int) -> bool {
    if exact <= u64::MAX {
        reading matches Ok(value) && value == exact
    } else {
        reading is Err
    }
}

proof fn lemma_byte_units(unit: Seq<char>)
    ensures
        unit == "B"@ ==> byte_unit(unit) == Some(1u64),
        unit == "KB"@ ==> byte_unit(unit) == Some(1_000u64),
        unit == "MB"@ ==> byte_unit(unit) == Some(1_000_000u64),
        unit == "GB"@ ==> byte_unit(unit) == Some(1_000_000_000u64),
        unit == "KIB"@ ==> byte_unit(unit) == Some(1_024u64),
        unit == "MIB"@ ==> byte_unit(unit) == Some(1_048_576u64),
        unit == "GIB"@ ==> byte_unit(unit) == Some(1_073_741_824u64),
{
    reveal_strlit("B");
    reveal_strlit("KB");
    reveal_strlit("MB");
    reveal_strlit("GB");
    reveal_strlit("KIB");
    reveal_strlit("MIB");
    reveal_strlit("GIB");
    assert("B"@.len() == 1 && "KB"@.len() == 2 && "MB"@.len() == 2 && "GB"@.len() == 2);
    assert("KIB"@.len() == 3 && "MIB"@.len() == 3 && "GIB"@.len() == 3);
    assert("KB"@[0] == 'K' && "MB"@[0] == 'M' && "GB"@[0] == 'G');
    assert("KIB"@[0] == 'K' && "MIB"@[0] == 'M' && "GIB"@[0] == 'G');
}

/// A number of bytes counts in its unit, in any case of letters: a kilobyte is a thousand
/// bytes and a kibibyte 1024, and every larger unit as many of the one below it.
pub proof fn sizes_count_in_their_units(n: u64, unit: Seq<char>)
    ensures
        ({
            let reading = byte_size_reading(text::decimal(n as nat) + unit);
            &&& text::upper(unit) == "B"@ ==> counts_as(reading, n as int)
            &&& text::upper(unit) == "KB"@ ==> counts_as(reading, 1000 * n)
            &&& text::upper(unit) == "MB"@ ==> counts_as(reading, 1000 * (1000 * n))
            &&& text::upper(unit) == "GB"@ ==> counts_as(reading, 1000 * (1000 * (1000 * n)))
            &&& text::upper(unit) == "KIB"@ ==> counts_as(reading, 1024 * n)
            &&& text::upper(unit) == "MIB"@ ==> counts_as(reading, 1024 * (1024 * n))
            &&& text::upper(unit) == "GIB"@ ==> counts_as(reading, 1024 * (1024 * (1024 * n)))
        }),
{
    lemma_byte_units(text::upper(unit));
    if byte_unit(text::upper(unit)) is Some {
        sizes_read_as_written(n, unit);
    }
}

proof fn lemma_bitrate_units(unit: Seq<char>)
    ensures
        unit == "bps"@ ==> bitrate_unit(unit) == Some(1u64),
        unit == "k"@ || unit == "kbps"@ ==> bitrate_unit(unit) == Some(1_000u64),
        unit == "m"@ || unit == "mbps"@ ==> bitrate_unit(unit) == Some(1_000_000u64),
        unit == "g"@ || unit == "gbps"@ ==> bitrate_unit(unit) == Some(1_000_000_000u64),
{
    reveal_strlit("k");
    reveal_strlit("kbps");
    reveal_strlit("m");
    reveal_strlit("mbps");
    reveal_strlit("g");
    reveal_strlit("gbps");
    reveal_strlit("bps");
    assert("k"@[0] == 'k' && "m"@[0] == 'm' && "g"@[0] == 'g' && "bps"@[0] == 'b');
    assert("kbps"@[0] == 'k' && "mbps"@[0] == 'm' && "gbps"@[0] == 'g');
}

/// A bitrate counts in its unit, in any case of letters and with or without `bps` behind
/// the prefix; every prefix stands for a thousand of the one below it.
pub proof fn bitrates_count_in_their_units(n: u64, unit: Seq<char>)
    ensures
        ({
            let reading = bitrate_reading(text::decimal(n as nat) + unit);
            let name = text::lower(unit);
            &&& name == "bps"@ ==> counts_as(reading, n as int)
            &&& name == "k"@ || name == "kbps"@ ==> counts_as(reading, 1000 * n)
            &&& name == "m"@ || name == "mbps"@ ==> counts_as(reading, 1000 * (1000 * n))
            &&& name == "g"@ || name == "gbps"@ ==> counts_as(reading, 1000 * (1000 * (1000 * n)))
        }),
{
    lemma_bitrate_units(text::lower(unit));
    if bitrate_unit(text::lower(unit)) is Some {
        bitrates_read_as_written(n, unit);
    }
}

/// A number with any other word behind it is no size and no bitrate, and neither is a
/// number without a unit or a unit without a number.
pub proof fn other_units_are_refused(n: nat, unit: Seq<char>)
    requires
        unit.len() > 0,
        !text::is_digit(unit[0]),
        !text::is_whitespace(unit[0]),
        !text::is_whitespace(unit.last()),
    ensures
        ({
            let name = text::upper(unit);
            name != "B"@ && name != "KB"@ && name != "MB"@ && name != "GB"@ && name != "KIB"@
                && name != "MIB"@ && name != "GIB"@ ==> byte_size_reading(
                text::decimal(n) + unit,
            ) is Err
        }),
        ({
            let name = text::lower(unit);
            name != "bps"@ && name != "k"@ && name != "kbps"@ && name != "m"@ && name != "mbps"@
                && name != "g"@ && name != "gbps"@ ==> bitrate_reading(
                text::decimal(n) + unit,
            ) is Err
        }),
        byte_size_reading(text::decimal(n)) is Err,
        bitrate_reading(text::decimal(n)) is Err,
        byte_size_reading(unit) is Err,
        bitrate_reading(unit) is Err,
        byte_size_reading(Seq::empty()) is Err,
        bitrate_reading(Seq::empty()) is Err,
        duration_reading(Seq::empty()) is Err,
{
    lemma_number_and_unit(n, unit);
    let digits = text::decimal(n);
    text::decimals_read_back(n);
    assert(text::is_digit(digits[0]) && text::is_digit(digits.last()));
    text::trimming_leaves_inner_text(digits);
    lemma_digit_run(digits, Seq::empty());
    assert(digits + Seq::<char>::empty() == digits);
    assert(digit_run(unit) == 0);
    assert(unit.take(0) == Seq::<char>::empty());
    assert(text::trimmed(Seq::empty()) == Seq::<char>::empty());
}

/// White space around a size or a bitrate, and between its number and its unit, does not
/// count.
pub proof fn white_space_in_sizes_does_not_count(
    n: nat,
    unit: Seq<char>,
    front: Seq<char>,
    middle: Seq<char>,
    back: Seq<char>,
)
    requires
        unit.len() > 0,
        !text::is_digit(unit[0]),
        !text::is_whitespace(unit[0]),
        !text::is_whitespace(unit.last()),
        text::all_white(front),
        text::all_white(middle),
        text::all_white(back),
    ensures
        byte_size_reading(front + (text::decimal(n) + middle + unit) + back) == byte_size_reading(
            text::decimal(n) + unit,
        ),
        bitrate_reading(front + (text::decimal(n) + middle + unit) + back) == bitrate_reading(
            text::decimal(n) + unit,
        ),
{
    lemma_number_and_unit(n, unit);
    let digits = text::decimal(n);
    text::decimals_read_back(n);
    assert(text::is_digit(digits[0]));
    let inner = digits + middle + unit;
    assert(inner[0] == digits[0]);
    assert(inner.last() == unit.last());
    text::trimming_takes_white_space_off(front, inner, back);
    let behind = middle + unit;
    assert(behind[0] == (if middle.len() > 0 {
        middle[0]
    } else {
        unit[0]
    }));
    assert(!text::is_digit(behind[0])) by {
        if middle.len() > 0 {
            assert(text::is_whitespace(middle[0]));
        }
    }
    lemma_digit_run(digits, behind);
    assert(inner == digits + behind);
    assert(inner.take(digits.len() as int) == digits);
    assert(inner.skip(digits.len() as int) == behind);
    text::trimming_takes_white_space_off(middle, unit, Seq::empty());
    assert(middle + unit + Seq::<char>::empty() == behind);
}

/// White space around a duration does not count, and a number without a unit, or with a
/// letter behind it that is no unit, is none.
pub proof fn durations_need_their_unit(n: u64, front: Seq<char>, unit: Seq<char>, back: Seq<char>)
    requires
        text::all_white(front),
        text::all_white(back),
        unit == "ms"@ || unit == "s"@ || unit == "m"@,
    ensures
        duration_reading(front + (text::decimal(n as nat) + unit) + back) == duration_reading(
            text::decimal(n as nat) + unit,
        ),
        duration_reading(text::decimal(n as nat)) is Err,
        forall|other: char|
            33 <= other as u32 <= 126 && other != 's' && other != 'm' ==> #[trigger]
                duration_reading(text::decimal(n as nat).push(other)) is Err,
{
    reveal_strlit("ms");
    reveal_strlit("s");
    reveal_strlit("m");
    lemma_number_and_unit(n as nat, unit);
    let digits = text::decimal(n as nat);
    text::decimals_read_back(n as nat);
    assert(text::is_digit(digits[0]) && text::is_digit(digits.last()));
    let inner = digits + unit;
    assert(inner[0] == digits[0]);
    assert(inner.last() == unit.last());
    text::trimming_takes_white_space_off(front, inner, back);
    text::trimming_leaves_inner_text(digits);
    lemma_no_duration(digits);
    assert forall|other: char|
        33 <= other as u32 <= 126 && other != 's' && other != 'm' implies #[trigger]
        duration_reading(digits.push(other)) is Err by {
        let s = digits.push(other);
        assert(s[0] == digits[0]);
        text::trimming_leaves_inner_text(s);
        lemma_no_duration(s);
    }
}

proof fn lemma_no_duration(s: Seq<char>)
    requires
        s.len() > 0,
        s.last() != 's' && s.last() != 'm',
        text::trimmed(s) == s,
    ensures
        duration_reading(s) is Err,
{
    reveal_strlit("ms");
    reveal_strlit("s");
    reveal_strlit("m");
    if text::has_suffix(s, "ms"@) {
        assert(s.subrange(s.len() - 2, s.len() as int)[1] == s.last());
    }
    if text::has_suffix(s, "s"@) {
        assert(s.subrange(s.len() - 1, s.len() as int)[0] == s.last());
    }
    if text::has_suffix(s, "m"@) {
        assert(s.subrange(s.len() - 1, s.len() as int)[0] == s.last());
    }
}

/// A size or a bitrate that is read is the number that stands in front of its unit, times
/// the unit; what is written reads as it was.
pub proof fn units_are_read_and_written(
    n: u64,
    megabytes: &str,
    mebibytes: &str,
    megabits: &str,
    size: Result<ByteSize, String>,
    binary_size: Result<ByteSize, String>,
    rate: Result<Bitrate, String>,
)
    requires
        n <= 1_000_000_000,
        megabytes@ == text::decimal(n as nat) + "MB"@,
        mebibytes@ == text::decimal(n as nat) + "MiB"@,
        megabits@ == text::decimal(n as nat) + "Mbps"@,
        call_ensures(ByteSize::from_str, (megabytes,), size),
        call_ensures(ByteSize::from_str, (mebibytes,), binary_size),
        call_ensures(Bitrate::from_str, (megabits,), rate),
    ensures
        size matches Ok(size) && size.0 == 1_000_000 * n,
        binary_size matches Ok(size) && size.0 == 1024 * (1024 * n),
        rate matches Ok(rate) && rate.0 == 1_000_000 * n,
{
    reveal_strlit("MB");
    reveal_strlit("MiB");
    reveal_strlit("MIB");
    reveal_strlit("Mbps");
    reveal_strlit("mbps");
    assert(text::upper("MB"@) =~= "MB"@);
    assert(text::upper("MiB"@) =~= "MIB"@);
    assert(text::lower("Mbps"@) =~= "mbps"@);
    sizes_count_in_their_units(n, "MB"@);
    sizes_count_in_their_units(n, "MiB"@);
    bitrates_count_in_their_units(n, "Mbps"@);
}

/// A duration that is read is as many of its units as it says.
pub proof fn durations_are_read(
    n: u64,
    millis: &str,
    secs: &str,
    mins: &str,
    short: Result<Duration, String>,
    middle: Result<Duration, String>,
    long: Result<Duration, String>,
)
    requires
        millis@ == text::decimal(n as nat) + "ms"@,
        secs@ == text::decimal(n as nat) + "s"@,
        mins@ == text::decimal(n as nat) + "m"@,
        n * 60 <= u64::MAX,
        call_ensures(parse_duration, (millis,), short),
        call_ensures(parse_duration, (secs,), middle),
        call_ensures(parse_duration, (mins,), long),
    ensures
        short matches Ok(span) && span@ == n * 1_000_000,
        middle matches Ok(span) && span@ == n * 1_000_000_000,
        long matches Ok(span) && span@ == 60 * (n * 1_000_000_000),
{
    durations_read_as_written(n);
}

} // verus!
