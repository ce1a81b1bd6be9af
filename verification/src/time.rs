//! Spans of time, counted in nanoseconds.

use vstd::prelude::*;

verus! {

/// The longest span: `u64::MAX` seconds and 999,999,999 nanoseconds.
pub const MAX_NANOS: u128 = 18_446_744_073_709_551_615_999_999_999;

pub const NANOS_PER_SEC: u64 = 1_000_000_000;

pub const NANOS_PER_MILLI: u64 = 1_000_000;

/// A span of time with nanosecond resolution. Its view is its length in
/// nanoseconds.
#[derive(Debug, Clone, Copy, PartialEq, Eq, PartialOrd, Ord, Hash, Structural)]
pub struct Duration {
    nanos: u128,
}

impl View for Duration {
    type V = nat;

    closed spec fn view(&self) -> nat {
        self.nanos as nat
    }
}

/// Two spans of the same length are the same span.
pub broadcast proof fn durations_are_their_length(a: Duration, b: Duration)
    ensures
        #![trigger a@, b@]
        a@ == b@ ==> a == b,
{
}

/// How `std::time::Duration` writes itself for debugging, given its whole seconds and
/// the nanoseconds beyond them.
pub uninterp spec fn debug_form(secs: u64, subsec_nanos: u32) -> Seq<char>;

/// Writes a span the way the `Debug` impl of `std::time::Duration` does, which depends
/// on the length of the span alone.
#[verifier::external_body]
fn std_debug_form(secs: u64, subsec_nanos: u32) -> (r: String)
    requires
        subsec_nanos < 1_000_000_000,
    ensures
        r@ == debug_form(secs, subsec_nanos),
{
    format!("{:?}", std::time::Duration::new(secs, subsec_nanos))
}

/// How a span is written for people, such as `25ms`.
pub open spec fn human_form(nanos: nat) -> Seq<char> {
    debug_form(
        (nanos / NANOS_PER_SEC as nat) as u64,
        (nanos % NANOS_PER_SEC as nat) as u32,
    )
}

impl Duration {
    #[verifier::type_invariant]
    spec fn in_range(self) -> bool {
        self.nanos <= MAX_NANOS
    }

    /// The empty span.
    pub fn zero() -> (r: Self)
        ensures
            r@ == 0,
    {
        Duration { nanos: 0 }
    }

    /// A span of whole seconds.
    pub fn from_secs(secs: u64) -> (r: Self)
        ensures
            r@ == secs as nat * NANOS_PER_SEC as nat,
    {
        Duration { nanos: secs as u128 * 1_000_000_000 }
    }

    /// A span of whole milliseconds.
    pub fn from_millis(millis: u64) -> (r: Self)
        ensures
            r@ == millis as nat * NANOS_PER_MILLI as nat,
    {
        Duration { nanos: millis as u128 * 1_000_000 }
    }

    /// A span of whole nanoseconds.
    pub fn from_nanos(nanos: u64) -> (r: Self)
        ensures
            r@ == nanos as nat,
    {
        Duration { nanos: nanos as u128 }
    }

    /// A span of whole nanoseconds, cut off at the longest span.
    pub fn saturating_from_nanos(nanos: u128) -> (r: Self)
        ensures
            r@ == (if nanos <= MAX_NANOS { nanos } else { MAX_NANOS }) as nat,
    {
        Duration { nanos: if nanos <= MAX_NANOS { nanos } else { MAX_NANOS } }
    }

    /// The length in nanoseconds.
    pub fn as_nanos(&self) -> (r: u128)
        ensures
            r == self@,
            r <= MAX_NANOS,
    {
        proof {
            use_type_invariant(self);
        }
        self.nanos
    }

    /// The number of whole seconds in the span.
    pub fn as_secs(&self) -> (r: u64)
        ensures
            r == self@ / NANOS_PER_SEC as nat,
    {
        proof {
            use_type_invariant(self);
        }
        (self.nanos / NANOS_PER_SEC as u128) as u64
    }

    /// The nanoseconds beyond the last whole second.
    pub fn subsec_nanos(&self) -> (r: u32)
        ensures
            r == self@ % NANOS_PER_SEC as nat,
            r < NANOS_PER_SEC,
    {
        (self.nanos % NANOS_PER_SEC as u128) as u32
    }

    /// The number of whole milliseconds in the span.
    pub fn as_millis(&self) -> (r: u128)
        ensures
            r == self@ / NANOS_PER_MILLI as nat,
    {
        self.nanos / NANOS_PER_MILLI as u128
    }

    /// Writes the span for people, such as `25ms`.
    pub fn to_human_form(&self) -> (r: String)
        ensures
            r@ == human_form(self@),
    {
        std_debug_form(self.as_secs(), self.subsec_nanos())
    }

    /// Whether the span is empty.
    pub fn is_zero(&self) -> (r: bool)
        ensures
            r == (self@ == 0),
    {
        self.nanos == 0
    }

    /// What is left of the span after `other` is taken off, or nothing.
    pub fn saturating_sub(self, other: Duration) -> (r: Self)
        ensures
            r@ == (if self@ >= other@ { (self@ - other@) as nat } else { 0 }),
    {
        proof {
            use_type_invariant(&self);
        }
        Duration { nanos: if self.nanos >= other.nanos { self.nanos - other.nanos } else { 0 } }
    }

    /// The shorter of two spans.
    pub fn shorter(self, other: Duration) -> (r: Self)
        ensures
            r@ == (if self@ <= other@ { self@ } else { other@ }),
    {
        if self.nanos <= other.nanos {
            self
        } else {
            other
        }
    }

    /// Whether this span is longer than another.
    pub fn exceeds(&self, other: &Duration) -> (r: bool)
        ensures
            r == (self@ > other@),
    {
        self.nanos > other.nanos
    }
}

/// A span is written by its whole seconds and the nanoseconds beyond them.
pub proof fn spans_are_written_by_their_seconds(secs: u64, nanos: u32)
    requires
        nanos < 1_000_000_000,
    ensures
        human_form((secs * 1_000_000_000 + nanos) as nat) == debug_form(secs, nanos),
{
}

} // verus!
