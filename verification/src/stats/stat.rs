//! One recorded solve.

use vstd::prelude::*;

use crate::solve_time::SolveTime;

verus! {

/// The mathematical content of a [`Stat`].
pub ghost struct StatV {
    pub secs: u64,
    pub nanos: u32,
    pub scramble: Seq<char>,
    pub comment: Seq<char>,
    pub datetime: Seq<char>,
}

impl StatV {
    /// The sub-second part of the time stays below one second.
    pub open spec fn wf(self) -> bool {
        self.nanos < 1_000_000_000
    }

    /// The whole duration in nanoseconds.
    pub open spec fn total_nanos(self) -> int {
        self.secs * 1_000_000_000 + self.nanos
    }
}

/// Stat struct containing information about one solve: its duration, the
/// scramble it was solved from, a free-form comment and the wall-clock
/// time it was recorded at, kept as `YYYY-MM-DD HH:MM:SS`.
#[derive(Debug, Clone)]
pub struct Stat {
    pub time: SolveTime,
    pub scramble: String,
    pub comment: String,
    pub datetime: String,
}

impl View for Stat {
    type V = StatV;

    open spec fn view(&self) -> StatV {
        StatV {
            secs: self.time.secs,
            nanos: self.time.nanos,
            scramble: self.scramble@,
            comment: self.comment@,
            datetime: self.datetime@,
        }
    }
}

/// Relies on chrono's `Local::now` and `DateTime::format`: the result is
/// the current local wall-clock time rendered as `YYYY-MM-DD HH:MM:SS`.
/// Nothing is promised of it: it depends on the clock.
#[verifier::external_body]
fn now_datetime() -> String {
    chrono::Local::now().format("%Y-%m-%d %H:%M:%S").to_string()
}

impl Stat {
    /// Creates a new [`Stat`] for a solve that just finished: the recorded
    /// wall-clock time is the present moment.
    pub fn new(time: SolveTime, scramble: String, comment: String) -> (r: Stat)
        ensures
            r.time == time,
            r@.secs == time.secs,
            r@.nanos == time.nanos,
            r@.scramble == scramble@,
            r@.comment == comment@,
    {
        Stat { time, scramble, comment, datetime: now_datetime() }
    }

    /// Rebuilds a [`Stat`] from persisted fields, wall-clock time included.
    pub fn from_parts(time: SolveTime, scramble: String, comment: String, datetime: String) -> (r:
        Stat)
        ensures
            r@ == (StatV {
                secs: time.secs,
                nanos: time.nanos,
                scramble: scramble@,
                comment: comment@,
                datetime: datetime@,
            }),
    {
        Stat { time, scramble, comment, datetime }
    }
}

} // verus!
