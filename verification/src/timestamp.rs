//! Points in time and time spans, as plain second/nanosecond counts.

use vstd::prelude::*;

verus! {

/// Nanoseconds in one second.
pub const NANOS_PER_SEC: u32 = 1_000_000_000;

/// A point in time: whole seconds since the Unix epoch plus a sub-second
/// nanosecond part.
#[derive(Clone, Copy, PartialEq, Eq, Structural, Debug)]
pub struct Timestamp {
    pub secs: u64,
    pub nanos: u32,
}

impl Timestamp {
    /// The nanosecond part stays below one second.
    pub open spec fn well_formed(self) -> bool {
        self.nanos < NANOS_PER_SEC
    }

    /// Total nanoseconds since the epoch, as a mathematical integer.
    pub open spec fn as_nanos(self) -> int {
        self.secs as int * NANOS_PER_SEC as int + self.nanos as int
    }

    pub open spec fn spec_le(self, other: Timestamp) -> bool {
        self.as_nanos() <= other.as_nanos()
    }

    pub fn new(secs: u64, nanos: u32) -> (r: Timestamp)
        requires
            nanos < NANOS_PER_SEC,
        ensures
            r == (Timestamp { secs, nanos }),
            r.well_formed(),
    {
        Timestamp { secs, nanos }
    }

    /// Whether `self` is no later than `other`.
    pub fn le(&self, other: &Timestamp) -> (r: bool)
        requires
            self.well_formed(),
            other.well_formed(),
        ensures
            r == self.spec_le(*other),
    {
        proof {
            lemma_nanos_order(*self, *other);
        }
        if self.secs != other.secs {
            self.secs < other.secs
        } else {
            self.nanos <= other.nanos
        }
    }

    /// The span from `self` to the later point `stop`, as whole seconds and
    /// a nanosecond remainder.
    pub fn duration_until(&self, stop: &Timestamp) -> (r: (u64, u32))
        requires
            self.well_formed(),
            stop.well_formed(),
            self.spec_le(*stop),
        ensures
            r.1 < NANOS_PER_SEC,
            r.0 as int * NANOS_PER_SEC as int + r.1 as int == stop.as_nanos() - self.as_nanos(),
    {
        proof {
            lemma_nanos_order(*self, *stop);
        }
        if stop.nanos >= self.nanos {
            (stop.secs - self.secs, stop.nanos - self.nanos)
        } else {
            (stop.secs - self.secs - 1, (stop.nanos + NANOS_PER_SEC) - self.nanos)
        }
    }
}

/// Lexicographic comparison of (secs, nanos) agrees with comparison of the
/// total nanosecond counts, for well-formed timestamps.
proof fn lemma_nanos_order(a: Timestamp, b: Timestamp)
    requires
        a.well_formed(),
        b.well_formed(),
    ensures
        a.spec_le(b) <==> (a.secs < b.secs || (a.secs == b.secs && a.nanos <= b.nanos)),
{
    if a.secs < b.secs {
        assert(a.as_nanos() <= b.as_nanos()) by (nonlinear_arith)
            requires
                a.secs < b.secs,
                a.nanos < NANOS_PER_SEC,
                b.nanos < NANOS_PER_SEC,
                a.as_nanos() == a.secs as int * NANOS_PER_SEC as int + a.nanos as int,
                b.as_nanos() == b.secs as int * NANOS_PER_SEC as int + b.nanos as int,
        ;
    }
    if b.secs < a.secs {
        assert(b.as_nanos() < a.as_nanos()) by (nonlinear_arith)
            requires
                b.secs < a.secs,
                a.nanos < NANOS_PER_SEC,
                b.nanos < NANOS_PER_SEC,
                a.as_nanos() == a.secs as int * NANOS_PER_SEC as int + a.nanos as int,
                b.as_nanos() == b.secs as int * NANOS_PER_SEC as int + b.nanos as int,
        ;
    }
}

} // verus!
