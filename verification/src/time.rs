//! Time values, and their user-space forms `timespec` and `timeval`.
use vstd::prelude::*;
use crate::errno::SysError;
use crate::time_stat::{NANOS_PER_MICROS, NANOS_PER_SEC};

verus! {

/// A span of time: whole seconds and the nanoseconds past them.
#[derive(Debug, Clone, Copy, PartialEq, Eq, Structural)]
pub struct TimeValue {
    secs: u64,
    nanos: u32,
}

/// The number of nanoseconds in a span of time.
pub open spec fn total_nanos(secs: int, nanos: int) -> int {
    secs * NANOS_PER_SEC + nanos
}

impl TimeValue {
    pub closed spec fn spec_secs(&self) -> u64 {
        self.secs
    }

    pub closed spec fn spec_nanos(&self) -> u32 {
        self.nanos
    }

    /// The span of `secs` seconds and `nanos` nanoseconds, whole seconds
    /// carried out of `nanos`.
    pub closed spec fn normalized(secs: int, nanos: int) -> TimeValue {
        TimeValue {
            secs: (secs + nanos / (NANOS_PER_SEC as int)) as u64,
            nanos: (nanos % (NANOS_PER_SEC as int)) as u32,
        }
    }

    /// The nanoseconds past the whole seconds are fewer than a second.
    pub closed spec fn wf(&self) -> bool {
        self.nanos < NANOS_PER_SEC
    }

    /// The span of `secs` seconds and `nanos` nanoseconds, whole seconds
    /// carried out of `nanos`.
    pub fn new(secs: u64, nanos: u32) -> (t: Self)
        requires
            secs + (nanos as int) / (NANOS_PER_SEC as int) <= u64::MAX,
        ensures
            t.wf(),
            t == TimeValue::normalized(secs as int, nanos as int),
            t.spec_secs() == secs + (nanos as int) / (NANOS_PER_SEC as int),
            t.spec_nanos() == (nanos as int) % (NANOS_PER_SEC as int),
            total_nanos(t.spec_secs() as int, t.spec_nanos() as int) == total_nanos(secs as int, nanos as int),
    {
        let extra = (nanos as u64) / (NANOS_PER_SEC as u64);
        TimeValue { secs: secs + extra, nanos: nanos % (NANOS_PER_SEC as u32) }
    }

    /// The whole seconds.
    pub fn as_secs(&self) -> (s: u64)
        ensures
            s == self.spec_secs(),
    {
        self.secs
    }

    /// The nanoseconds past the whole seconds.
    pub fn subsec_nanos(&self) -> (n: u32)
        ensures
            n == self.spec_nanos(),
    {
        self.nanos
    }

    /// The whole microseconds past the whole seconds.
    pub fn subsec_micros(&self) -> (n: u32)
        ensures
            n == (self.spec_nanos() as int) / (NANOS_PER_MICROS as int),
    {
        self.nanos / (NANOS_PER_MICROS as u32)
    }
}

/// A time as `struct timespec`: seconds and nanoseconds.
#[derive(Debug, Clone, Copy, PartialEq, Eq, Structural)]
pub struct Timespec {
    pub tv_sec: i64,
    pub tv_nsec: i64,
}

/// A time as `struct timeval`: seconds and microseconds.
#[derive(Debug, Clone, Copy, PartialEq, Eq, Structural)]
pub struct Timeval {
    pub tv_sec: i64,
    pub tv_usec: i64,
}

impl Timespec {
    /// The `timespec` of a time value; seconds beyond `i64::MAX` wrap as a
    /// cast does.
    pub fn from_time_value(tv: TimeValue) -> (ts: Self)
        ensures
            ts.tv_sec == tv.spec_secs() as i64,
            ts.tv_nsec == tv.spec_nanos(),
    {
        Timespec { tv_sec: tv.as_secs() as i64, tv_nsec: tv.subsec_nanos() as i64 }
    }

    /// The time value of a `timespec`: its fields are taken as `u64` and
    /// `u32` as a cast does, and whole seconds carried out of the
    /// nanoseconds.
    pub fn to_time_value(self) -> (tv: TimeValue)
        requires
            (self.tv_sec as u64) + ((self.tv_nsec as u32) as int) / (NANOS_PER_SEC as int) <= u64::MAX,
        ensures
            tv.wf(),
            tv == TimeValue::normalized((self.tv_sec as u64) as int, (self.tv_nsec as u32) as int),
            tv.spec_secs() == (self.tv_sec as u64) + ((self.tv_nsec as u32) as int) / (NANOS_PER_SEC as int),
            tv.spec_nanos() == ((self.tv_nsec as u32) as int) % (NANOS_PER_SEC as int),
    {
        TimeValue::new(self.tv_sec as u64, self.tv_nsec as u32)
    }
}

impl Timeval {
    /// The `timeval` of a time value: whole microseconds; seconds beyond
    /// `i64::MAX` wrap as a cast does.
    pub fn from_time_value(tv: TimeValue) -> (t: Self)
        ensures
            t.tv_sec == tv.spec_secs() as i64,
            t.tv_usec == (tv.spec_nanos() as int) / (NANOS_PER_MICROS as int),
    {
        Timeval { tv_sec: tv.as_secs() as i64, tv_usec: tv.subsec_micros() as i64 }
    }

    /// The time value of a `timeval`: its fields are taken as `u64` and `u32`
    /// as a cast does, the microseconds made nanoseconds and whole seconds
    /// carried out of them.
    pub fn to_time_value(self) -> (tv: TimeValue)
        requires
            (self.tv_usec as u32) * 1000 <= u32::MAX,
            (self.tv_sec as u64) + ((self.tv_usec as u32) * 1000) / (NANOS_PER_SEC as int) <= u64::MAX,
        ensures
            tv.wf(),
            tv == TimeValue::normalized((self.tv_sec as u64) as int, (self.tv_usec as u32) * 1000),
            tv.spec_secs() == (self.tv_sec as u64) + ((self.tv_usec as u32) * 1000) / (NANOS_PER_SEC as int),
            tv.spec_nanos() == ((self.tv_usec as u32) * 1000) % (NANOS_PER_SEC as int),
    {
        TimeValue::new(self.tv_sec as u64, self.tv_usec as u32 * 1000)
    }
}

/// A time value whose seconds fit in `i64` comes back unchanged from its
/// `timespec`.
pub proof fn lemma_timespec_roundtrip(tv: TimeValue)
    requires
        tv.wf(),
        tv.spec_secs() <= i64::MAX,
    ensures
        TimeValue::normalized(((tv.spec_secs() as i64) as u64) as int, ((tv.spec_nanos() as i64) as u32) as int)
            == tv,
{
}

/// A time value whose seconds fit in `i64` comes back from its `timeval`
/// cut to whole microseconds.
pub proof fn lemma_timeval_roundtrip(tv: TimeValue)
    requires
        tv.wf(),
        tv.spec_secs() <= i64::MAX,
    ensures
        ({
            let usec = (((tv.spec_nanos() as int) / (NANOS_PER_MICROS as int)) as i64) as u32;
            &&& usec * 1000 <= u32::MAX
            &&& TimeValue::normalized(((tv.spec_secs() as i64) as u64) as int, usec * 1000) == TimeValue::normalized(
                tv.spec_secs() as int,
                tv.spec_nanos() - (tv.spec_nanos() as int) % (NANOS_PER_MICROS as int),
            )
            &&& TimeValue::normalized(tv.spec_secs() as int, tv.spec_nanos() - (tv.spec_nanos() as int) % (
            NANOS_PER_MICROS as int)).spec_secs() == tv.spec_secs()
        }),
{
}

/// Which clock `clock_gettime` reads.
#[derive(Debug, Clone, Copy, PartialEq, Eq, Structural)]
pub enum ClockSource {
    /// The wall clock.
    Realtime,
    /// The time since boot.
    Monotonic,
}

/// The real-time clock's id.
pub const CLOCK_REALTIME: u32 = 0;

/// The monotonic clock's id.
pub const CLOCK_MONOTONIC: u32 = 1;

/// The clock that `clock_gettime` reads for `clock_id`; `EINVAL` for a clock
/// that is not supported.
pub fn clock_source(clock_id: i32) -> (r: Result<ClockSource, SysError>)
    ensures
        clock_id as u32 == CLOCK_REALTIME ==> r == Ok::<ClockSource, SysError>(ClockSource::Realtime),
        clock_id as u32 == CLOCK_MONOTONIC ==> r == Ok::<ClockSource, SysError>(ClockSource::Monotonic),
        clock_id as u32 != CLOCK_REALTIME && clock_id as u32 != CLOCK_MONOTONIC ==> r == Err::<
            ClockSource,
            SysError,
        >(SysError::EINVAL),
{
    let id = clock_id as u32;
    if id == CLOCK_REALTIME {
        Ok(ClockSource::Realtime)
    } else if id == CLOCK_MONOTONIC {
        Ok(ClockSource::Monotonic)
    } else {
        Err(SysError::EINVAL)
    }
}

/// The uptime `sysinfo` reports: whole seconds since boot.
pub fn uptime_secs(monotonic_nanos: u64) -> (s: isize)
    requires
        (monotonic_nanos as int) / (NANOS_PER_SEC as int) <= isize::MAX,
    ensures
        s == (monotonic_nanos as int) / (NANOS_PER_SEC as int),
{
    (monotonic_nanos / (NANOS_PER_SEC as u64)) as isize
}

} // verus!
