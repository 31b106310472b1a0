//! Points in time as the aggregator compares them.

use vstd::prelude::*;

verus! {

/// A point in time on the UTC time line: whole seconds since the Unix epoch
/// and the nanoseconds into that second. During a leap second `nanos` runs
/// from 1_000_000_000 up to 1_999_999_999 while `secs` stays on the second
/// before it, so the pair orders as time does.
#[derive(Clone, Copy, Debug, PartialEq, Eq, Structural)]
pub struct Timestamp {
    pub secs: i64,
    pub nanos: u32,
}

impl Timestamp {
    /// Whether `self` lies strictly earlier on the time line than `other`.
    pub open spec fn earlier_than(self, other: Timestamp) -> bool {
        self.secs < other.secs || (self.secs == other.secs && self.nanos < other.nanos)
    }

    /// The point in time `nanos` nanoseconds after the `secs`-th second
    /// since the epoch.
    pub fn new(secs: i64, nanos: u32) -> (t: Timestamp)
        ensures
            t.secs == secs,
            t.nanos == nanos,
    {
        Timestamp { secs, nanos }
    }

    /// Strict comparison on the time line.
    pub fn is_before(&self, other: &Timestamp) -> (b: bool)
        ensures
            b == self.earlier_than(*other),
    {
        self.secs < other.secs || (self.secs == other.secs && self.nanos < other.nanos)
    }
}

} // verus!
