//! Optional timing records. No command lines, environment or application data are recorded.
use vstd::prelude::*;
use vstd::string::*;
use crate::error::{Error, Result, invalid};

verus! {

/// The largest timing file, in bytes.
pub const FILE_LIMIT: u64 = 33554432;

/// How many ticks of one hundred nanoseconds lie between 1601 and 1970.
pub const EPOCH_TICKS: u64 = 116444736000000000;

/// One timed stage.
#[derive(Debug)]
pub struct Record {
    pub host_pid: u32,
    pub stage: &'static str,
    pub key: String,
    pub start_filetime: u64,
    pub end_filetime: u64,
    pub elapsed_us: u64,
    pub dropped_total: u64,
}

/// Seconds since 1970, from what the clock says; a clock before 1970 is refused.
pub fn now(since_epoch: Option<u64>) -> (r: Result<u64>)
    ensures
        r == (match since_epoch {
            Some(seconds) => Ok(seconds),
            None => invalid("SYSTEM_CLOCK_INVALID"),
        }),
{
    match since_epoch {
        Some(seconds) => Ok(seconds),
        None => Err(Error::Invalid("SYSTEM_CLOCK_INVALID")),
    }
}

/// The time in ticks of one hundred nanoseconds since 1601, from the nanoseconds since 1970; zero
/// for a clock before 1970.
pub fn timestamp(nanos: Option<u128>) -> (r: u64)
    requires
        nanos matches Some(n) ==> n / 100 + EPOCH_TICKS <= u64::MAX,
    ensures
        r == (match nanos {
            Some(n) => (n / 100 + EPOCH_TICKS) as u64,
            None => 0,
        }),
{
    match nanos {
        Some(n) => (n / 100) as u64 + EPOCH_TICKS,
        None => 0,
    }
}

/// A timed stage that is under way: where it began on the wall clock and on the steady clock.
#[derive(Debug)]
pub struct Span {
    pub stage: &'static str,
    pub key: String,
    pub wall: u64,
    pub started_us: u64,
}

impl Span {
    /// Begin a stage.
    pub fn new(stage: &'static str, key: String, wall: u64, started_us: u64) -> (r: Span)
        ensures
            r == (Span { stage, key, wall, started_us }),
    {
        Span { stage, key, wall, started_us }
    }

    /// The record of the stage that ends now. The steady clock does not run backwards.
    pub fn finish(self, host_pid: u32, wall: u64, now_us: u64, dropped_total: u64) -> (r: Record)
        requires
            self.started_us <= now_us,
        ensures
            r == (Record {
                host_pid,
                stage: self.stage,
                key: self.key,
                start_filetime: self.wall,
                end_filetime: wall,
                elapsed_us: (now_us - self.started_us) as u64,
                dropped_total,
            }),
    {
        Record {
            host_pid,
            stage: self.stage,
            key: self.key,
            start_filetime: self.wall,
            end_filetime: wall,
            elapsed_us: now_us - self.started_us,
            dropped_total,
        }
    }
}

/// What the wall clock and the steady clock say at one moment.
#[derive(Clone, Copy, Debug, PartialEq, Eq, Structural)]
pub struct Clocks {
    pub wall: u64,
    pub steady_us: u64,
}

/// The record of a stage that ends as soon as it has begun: the clocks are read once for its beginning and once
/// more for its end.
pub fn mark(
    stage: &'static str,
    key: String,
    host_pid: u32,
    start: Clocks,
    end: Clocks,
    dropped_total: u64,
) -> (r: Record)
    requires
        start.steady_us <= end.steady_us,
    ensures
        r == (Record {
            host_pid,
            stage,
            key,
            start_filetime: start.wall,
            end_filetime: end.wall,
            elapsed_us: (end.steady_us - start.steady_us) as u64,
            dropped_total,
        }),
{
    Span::new(stage, key, start.wall, start.steady_us).finish(
        host_pid,
        end.wall,
        end.steady_us,
        dropped_total,
    )
}

/// How much of the timing file is used.
#[derive(Clone, Copy, Debug, PartialEq, Eq, Structural)]
pub struct Budget {
    pub size: u64,
}

impl Budget {
    /// Writing starts only while the file is below its limit.
    pub open spec fn wf(self) -> bool {
        self.size <= FILE_LIMIT
    }

    /// Begin to write to a file of this size, if it has room.
    pub fn open(size: u64) -> (r: Option<Budget>)
        ensures
            r == (if size < FILE_LIMIT {
                Some(Budget { size })
            } else {
                None
            }),
    {
        if size < FILE_LIMIT {
            Some(Budget { size })
        } else {
            None
        }
    }

    /// Take room for a line of this length with its line end. Once there is no room, writing ends.
    pub fn take(&mut self, line: u64) -> (r: bool)
        requires
            old(self).wf(),
        ensures
            r == (old(self).size + line + 1 <= FILE_LIMIT),
            final(self).size == (if r {
                (old(self).size + line + 1) as u64
            } else {
                old(self).size
            }),
            final(self).wf(),
    {
        if line >= FILE_LIMIT || self.size + line + 1 > FILE_LIMIT {
            return false;
        }
        self.size = self.size + line + 1;
        true
    }
}

/// The number of records that were dropped once one more was offered; `sent` says that the writer
/// took it.
pub fn dropped(total: u64, sent: bool) -> (r: u64)
    ensures
        r == (if sent {
            total as int
        } else {
            (total + 1) % 0x1_0000_0000_0000_0000
        }),
{
    if sent {
        total
    } else {
        total.wrapping_add(1)
    }
}

} // verus!
