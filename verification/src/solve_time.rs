//! A non-negative duration with nanosecond resolution, stored as whole
//! seconds plus a sub-second nanosecond count.

use vstd::prelude::*;

verus! {

/// One billion: the number of nanoseconds in a second.
pub const NANOS_PER_SEC: u32 = 1_000_000_000;

/// The measured duration of one solve.
///
/// Well-formed values keep `nanos` strictly below one second.
#[derive(Debug, Clone, Copy, PartialEq, Eq, Structural)]
pub struct SolveTime {
    pub secs: u64,
    pub nanos: u32,
}

impl SolveTime {
    /// The whole value in nanoseconds, as a single mathematical integer.
    pub open spec fn total_nanos(self) -> int {
        self.secs * 1_000_000_000 + self.nanos
    }

    /// The sub-second part stays below one second.
    pub open spec fn wf(self) -> bool {
        self.nanos < 1_000_000_000
    }

    /// Builds a duration from whole seconds and a sub-second nanosecond part.
    pub fn new(secs: u64, nanos: u32) -> (r: SolveTime)
        requires
            nanos < 1_000_000_000,
        ensures
            r.secs == secs,
            r.nanos == nanos,
            r.wf(),
    {
        SolveTime { secs, nanos }
    }

    /// The zero duration.
    pub fn zero() -> (r: SolveTime)
        ensures
            r.total_nanos() == 0,
            r.wf(),
    {
        SolveTime { secs: 0, nanos: 0 }
    }

    /// Builds a duration from a number of milliseconds.
    pub fn from_millis(millis: u64) -> (r: SolveTime)
        ensures
            r.total_nanos() == millis * 1_000_000,
            r.wf(),
    {
        let secs = millis / 1000;
        let rem = millis % 1000;
        SolveTime { secs, nanos: (rem as u32) * 1_000_000 }
    }
}

} // verus!
