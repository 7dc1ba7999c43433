//! Spans of time.

use vstd::prelude::*;

verus! {

/// A span of time: whole seconds and the nanoseconds that are left over.
#[derive(Debug, Clone, Copy, PartialEq, Eq, Structural)]
pub struct Duration {
    pub secs: u64,
    pub nanos: u32,
}

impl Duration {
    /// Less than a second is left over.
    pub open spec fn wf(self) -> bool {
        self.nanos < 1_000_000_000
    }

    /// The span is made of whole milliseconds, no more of them than fit in 64 bits.
    pub open spec fn whole_millis(self) -> bool {
        self.wf() && self.nanos % 1_000_000 == 0 && self.millis() <= u64::MAX
    }

    /// The number of whole milliseconds.
    pub open spec fn millis(self) -> nat {
        self.secs as nat * 1000 + self.nanos as nat / 1_000_000
    }

    /// The number of milliseconds is the largest that the span still covers, counted in nanoseconds.
    pub proof fn millis_are_the_most_covered(self)
        ensures
            self.wf() <==> self.nanos < 1_000_000_000,
            self.millis() * 1_000_000 <= self.secs * 1_000_000_000 + self.nanos,
            self.secs * 1_000_000_000 + self.nanos < (self.millis() + 1) * 1_000_000,
            self.whole_millis() ==> self.millis() * 1_000_000 == self.secs * 1_000_000_000
                + self.nanos,
    {
        let (q, r) = (self.nanos / 1_000_000, self.nanos % 1_000_000);
        assert(self.nanos == q * 1_000_000 + r);
    }

    /// The empty span.
    pub fn zero() -> (r: Duration)
        ensures
            r == (Duration { secs: 0, nanos: 0 }),
            r.wf(),
    {
        Duration { secs: 0, nanos: 0 }
    }

    /// A span of the given number of milliseconds.
    pub fn from_millis(millis: u64) -> (r: Duration)
        ensures
            r.secs == millis / 1000,
            r.nanos == (millis % 1000) * 1_000_000,
            r.wf(),
            r.millis() == millis,
    {
        let left: u64 = millis % 1000;
        Duration { secs: millis / 1000, nanos: (left * 1_000_000) as u32 }
    }

    /// The number of whole milliseconds.
    pub fn as_millis(&self) -> (r: u128)
        ensures
            r == self.millis(),
    {
        self.secs as u128 * 1000 + (self.nanos / 1_000_000) as u128
    }

    /// The number of whole seconds.
    pub fn as_secs(&self) -> (r: u64)
        ensures
            r == self.secs,
    {
        self.secs
    }
}

} // verus!
