//! Points on the timeline.

use vstd::prelude::*;

verus! {

/// Nanoseconds in one second.
pub const NANOS_PER_SECOND: i128 = 1_000_000_000;

/// An absolute instant: a count of nanoseconds since 1970-01-01T00:00:00Z.
#[derive(Clone, Copy, Debug, PartialEq, Eq, Structural)]
pub struct Instant {
    pub unix_nanos: i128,
}

impl View for Instant {
    type V = int;

    /// The instant as a count of nanoseconds since the Unix epoch.
    open spec fn view(&self) -> int {
        self.unix_nanos as int
    }
}

impl Instant {
    /// The instant `nanos` nanoseconds after the Unix epoch.
    pub fn from_unix_nanos(nanos: i128) -> (t: Instant)
        ensures
            t@ == nanos,
    {
        Instant { unix_nanos: nanos }
    }

    /// The instant `seconds` seconds after the Unix epoch.
    pub fn from_unix_seconds(seconds: i64) -> (t: Instant)
        ensures
            t@ == seconds * NANOS_PER_SECOND,
    {
        Instant { unix_nanos: seconds as i128 * NANOS_PER_SECOND }
    }

    /// Whether `self` is at or before `other`.
    pub fn is_at_or_before(&self, other: &Instant) -> (b: bool)
        ensures
            b == (self@ <= other@),
    {
        self.unix_nanos <= other.unix_nanos
    }
}

} // verus!
