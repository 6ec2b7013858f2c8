//! Spans of time, counted in nanoseconds.

use vstd::prelude::*;

verus! {

/// Nanoseconds in a second.
pub const NANOS_PER_SEC: u64 = 1_000_000_000;

/// Nanoseconds in a millisecond.
pub const NANOS_PER_MILLI: u64 = 1_000_000;

/// A span of time: `secs` seconds and `nanos` nanoseconds.
#[derive(Debug, Clone, Copy)]
pub struct Duration {
    pub secs: u64,
    pub nanos: u32,
}

impl View for Duration {
    type V = nat;

    /// The length of the span in nanoseconds.
    open spec fn view(&self) -> nat {
        (self.secs * NANOS_PER_SEC + self.nanos) as nat
    }
}

impl Duration {
    /// A span of `secs` seconds.
    pub fn from_secs(secs: u64) -> (span: Duration)
        ensures
            span@ == secs * NANOS_PER_SEC,
    {
        Duration { secs, nanos: 0 }
    }

    /// A span of `millis` milliseconds.
    pub fn from_millis(millis: u64) -> (span: Duration)
        ensures
            span@ == millis * NANOS_PER_MILLI,
    {
        let rest: u64 = (millis % 1000) * NANOS_PER_MILLI;
        Duration { secs: millis / 1000, nanos: rest as u32 }
    }

    /// The length of the span in nanoseconds.
    pub fn as_nanos(&self) -> (nanos: u128)
        ensures
            nanos == self@,
    {
        let whole: u128 = (self.secs as u128) * 1_000_000_000u128;
        whole + (self.nanos as u128)
    }

    /// The number of whole milliseconds in the span.
    pub fn as_millis(&self) -> (millis: u128)
        ensures
            millis == self@ / (NANOS_PER_MILLI as nat),
    {
        self.as_nanos() / (NANOS_PER_MILLI as u128)
    }

    /// The longer of two spans.
    pub fn longer(self, other: Duration) -> (span: Duration)
        ensures
            span@ == if self@ >= other@ { self@ } else { other@ },
            span == self || span == other,
    {
        if self.as_nanos() >= other.as_nanos() {
            self
        } else {
            other
        }
    }
}

} // verus!
