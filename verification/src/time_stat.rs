use vstd::prelude::*;

verus! {

/// Nanoseconds in a second.
pub const NANOS_PER_SEC: usize = 1_000_000_000;

/// Nanoseconds in a microsecond.
pub const NANOS_PER_MICROS: usize = 1_000;

/// The kind of interval timer a task has set.
#[derive(Debug, Clone, Copy, PartialEq, Eq, Structural)]
pub enum TimerType {
    /// No timer is set.
    NONE,
    /// Counts real time.
    REAL,
    /// Counts time spent in user mode.
    VIRTUAL,
    /// Counts time spent in user and kernel mode.
    PROF,
}

/// The timer type that a number names, `NONE` for any other number.
pub open spec fn timer_type_of(code: i32) -> TimerType {
    if code == 0 {
        TimerType::REAL
    } else if code == 1 {
        TimerType::VIRTUAL
    } else if code == 2 {
        TimerType::PROF
    } else {
        TimerType::NONE
    }
}

impl TimerType {
    /// The number of this timer type.
    pub fn code(&self) -> (c: i32)
        ensures
            timer_type_of(c) == *self,
            *self == TimerType::NONE <==> c == -1,
    {
        match self {
            TimerType::NONE => -1,
            TimerType::REAL => 0,
            TimerType::VIRTUAL => 1,
            TimerType::PROF => 2,
        }
    }

    /// The timer type named by the low 32 bits of `num`, read as a signed
    /// number.
    pub fn from_usize(num: usize) -> (t: TimerType)
        ensures
            t == timer_type_of(num as i32),
    {
        let code = num as i32;
        if code == 0 {
            TimerType::REAL
        } else if code == 1 {
            TimerType::VIRTUAL
        } else if code == 2 {
            TimerType::PROF
        } else {
            TimerType::NONE
        }
    }
}

/// Time accounting of a task: the time it spent in user and kernel mode, the
/// last time it switched mode, and its interval timer.
pub struct TimeStat {
    utime_ns: usize,
    stime_ns: usize,
    user_timestamp: usize,
    kernel_timestamp: usize,
    timer_type: TimerType,
    timer_interval_ns: usize,
    timer_remained_ns: usize,
}

/// What remains of a timer after `delta` nanoseconds: a stopped timer stays
/// stopped, and a timer is only counted down while more than `delta` remains.
pub open spec fn remained_after(remained: usize, delta: int) -> usize {
    if remained == 0 {
        0
    } else if remained > delta {
        (remained - delta) as usize
    } else {
        remained
    }
}

impl TimeStat {
    pub closed spec fn utime(&self) -> usize {
        self.utime_ns
    }

    pub closed spec fn stime(&self) -> usize {
        self.stime_ns
    }

    pub closed spec fn user_ts(&self) -> usize {
        self.user_timestamp
    }

    pub closed spec fn kernel_ts(&self) -> usize {
        self.kernel_timestamp
    }

    pub closed spec fn timer(&self) -> TimerType {
        self.timer_type
    }

    pub closed spec fn interval(&self) -> usize {
        self.timer_interval_ns
    }

    pub closed spec fn remained(&self) -> usize {
        self.timer_remained_ns
    }

    /// A record with no time spent and no timer set.
    pub fn new() -> (s: Self)
        ensures
            s.utime() == 0,
            s.stime() == 0,
            s.user_ts() == 0,
            s.kernel_ts() == 0,
            s.timer() == TimerType::NONE,
            s.interval() == 0,
            s.remained() == 0,
    {
        Self {
            utime_ns: 0,
            stime_ns: 0,
            user_timestamp: 0,
            kernel_timestamp: 0,
            timer_type: TimerType::NONE,
            timer_interval_ns: 0,
            timer_remained_ns: 0,
        }
    }

    /// The time spent in user mode and in kernel mode, in nanoseconds.
    pub fn output(&self) -> (r: (usize, usize))
        ensures
            r == (self.utime(), self.stime()),
    {
        (self.utime_ns, self.stime_ns)
    }

    /// When the task last switched into the kernel or onto the processor: the
    /// mark from which the next stretch of time is counted.
    pub fn kernel_timestamp(&self) -> (t: usize)
        ensures
            t == self.kernel_ts(),
    {
        self.kernel_timestamp
    }

    /// When the task last entered user mode: the mark from which its next
    /// stretch of user time is counted.
    pub fn user_timestamp(&self) -> (t: usize)
        ensures
            t == self.user_ts(),
    {
        self.user_timestamp
    }

    /// Forgets the time spent so far, counting from `current_timestamp`.
    pub fn reset(&mut self, current_timestamp: usize)
        ensures
            final(self).utime() == 0,
            final(self).stime() == 0,
            final(self).user_ts() == 0,
            final(self).kernel_ts() == current_timestamp,
            final(self).timer() == old(self).timer(),
            final(self).interval() == old(self).interval(),
            final(self).remained() == old(self).remained(),
    {
        self.utime_ns = 0;
        self.stime_ns = 0;
        self.user_timestamp = 0;
        self.kernel_timestamp = current_timestamp;
    }

    /// Counts `delta` nanoseconds down from the timer.
    pub fn update_timer(&mut self, delta: usize)
        ensures
            final(self).remained() == remained_after(old(self).remained(), delta as int),
            final(self).utime() == old(self).utime(),
            final(self).stime() == old(self).stime(),
            final(self).user_ts() == old(self).user_ts(),
            final(self).kernel_ts() == old(self).kernel_ts(),
            final(self).timer() == old(self).timer(),
            final(self).interval() == old(self).interval(),
    {
        if self.timer_remained_ns == 0 {
            return;
        }
        if self.timer_remained_ns > delta {
            self.timer_remained_ns -= delta;
        }
    }

    /// Entering the kernel at `current_timestamp`: the time since the task
    /// entered user mode is user time, and any set timer runs down by it.
    pub fn switch_into_kernel_mode(&mut self, current_timestamp: usize)
        requires
            current_timestamp >= old(self).user_ts(),
            old(self).utime() + (current_timestamp - old(self).user_ts()) <= usize::MAX,
        ensures
            ({
                let delta = current_timestamp - old(self).user_ts();
                &&& final(self).utime() == old(self).utime() + delta
                &&& final(self).stime() == old(self).stime()
                &&& final(self).kernel_ts() == current_timestamp
                &&& final(self).user_ts() == old(self).user_ts()
                &&& final(self).remained() == if old(self).timer() != TimerType::NONE {
                    remained_after(old(self).remained(), delta)
                } else {
                    old(self).remained()
                }
            }),
            final(self).timer() == old(self).timer(),
            final(self).interval() == old(self).interval(),
    {
        let now_time_ns = current_timestamp;
        let delta = now_time_ns - self.user_timestamp;
        self.utime_ns += delta;
        self.kernel_timestamp = now_time_ns;
        if self.timer_type != TimerType::NONE {
            self.update_timer(delta);
        }
    }

    /// Leaving the kernel at `current_timestamp`: the time since the last
    /// mark is kernel time, and a real-time or profiling timer runs down by
    /// it.
    pub fn switch_into_user_mode(&mut self, current_timestamp: usize)
        requires
            current_timestamp >= old(self).kernel_ts(),
            old(self).stime() + (current_timestamp - old(self).kernel_ts()) <= usize::MAX,
        ensures
            ({
                let delta = current_timestamp - old(self).kernel_ts();
                &&& final(self).stime() == old(self).stime() + delta
                &&& final(self).utime() == old(self).utime()
                &&& final(self).user_ts() == current_timestamp
                &&& final(self).kernel_ts() == old(self).kernel_ts()
                &&& final(self).remained() == if old(self).timer() == TimerType::REAL || old(self).timer()
                    == TimerType::PROF {
                    remained_after(old(self).remained(), delta)
                } else {
                    old(self).remained()
                }
            }),
            final(self).timer() == old(self).timer(),
            final(self).interval() == old(self).interval(),
    {
        let now_time_ns = current_timestamp;
        let delta = now_time_ns - self.kernel_timestamp;
        self.stime_ns += delta;
        self.user_timestamp = now_time_ns;
        if self.timer_type == TimerType::REAL || self.timer_type == TimerType::PROF {
            self.update_timer(delta);
        }
    }

    /// The task leaves the processor at `current_timestamp`: the time since
    /// the last mark is kernel time, and a real-time or profiling timer runs
    /// down by it.
    pub fn switch_from_old_task(&mut self, current_timestamp: usize)
        requires
            current_timestamp >= old(self).kernel_ts(),
            old(self).stime() + (current_timestamp - old(self).kernel_ts()) <= usize::MAX,
        ensures
            ({
                let delta = current_timestamp - old(self).kernel_ts();
                &&& final(self).stime() == old(self).stime() + delta
                &&& final(self).utime() == old(self).utime()
                &&& final(self).kernel_ts() == current_timestamp
                &&& final(self).user_ts() == old(self).user_ts()
                &&& final(self).remained() == if old(self).timer() == TimerType::REAL || old(self).timer()
                    == TimerType::PROF {
                    remained_after(old(self).remained(), delta)
                } else {
                    old(self).remained()
                }
            }),
            final(self).timer() == old(self).timer(),
            final(self).interval() == old(self).interval(),
    {
        let now_time_ns = current_timestamp;
        let delta = now_time_ns - self.kernel_timestamp;
        self.stime_ns += delta;
        self.kernel_timestamp = now_time_ns;
        if self.timer_type == TimerType::REAL || self.timer_type == TimerType::PROF {
            self.update_timer(delta);
        }
    }

    /// The task takes the processor again at `current_timestamp`: the time
    /// it was away is counted by no clock, but a real-time timer runs down by it.
    pub fn switch_to_new_task(&mut self, current_timestamp: usize)
        requires
            current_timestamp >= old(self).kernel_ts(),
        ensures
            ({
                let delta = current_timestamp - old(self).kernel_ts();
                &&& final(self).stime() == old(self).stime()
                &&& final(self).utime() == old(self).utime()
                &&& final(self).kernel_ts() == current_timestamp
                &&& final(self).user_ts() == old(self).user_ts()
                &&& final(self).remained() == if old(self).timer() == TimerType::REAL {
                    remained_after(old(self).remained(), delta)
                } else {
                    old(self).remained()
                }
            }),
            final(self).timer() == old(self).timer(),
            final(self).interval() == old(self).interval(),
    {
        let now_time_ns = current_timestamp;
        let delta = now_time_ns - self.kernel_timestamp;
        self.kernel_timestamp = now_time_ns;
        if self.timer_type == TimerType::REAL {
            self.update_timer(delta);
        }
    }

    /// Sets the interval timer; tells whether a timer is now set.
    pub fn set_timer(&mut self, timer_interval_ns: usize, timer_remained_ns: usize, timer_type: usize) -> (set: bool)
        ensures
            final(self).timer() == timer_type_of(timer_type as i32),
            final(self).interval() == timer_interval_ns,
            final(self).remained() == timer_remained_ns,
            set == (final(self).timer() != TimerType::NONE),
            final(self).utime() == old(self).utime(),
            final(self).stime() == old(self).stime(),
            final(self).user_ts() == old(self).user_ts(),
            final(self).kernel_ts() == old(self).kernel_ts(),
    {
        self.timer_type = TimerType::from_usize(timer_type);
        self.timer_interval_ns = timer_interval_ns;
        self.timer_remained_ns = timer_remained_ns;
        self.timer_type != TimerType::NONE
    }
}

impl Default for TimeStat {
    fn default() -> (s: Self)
        ensures
            s.utime() == 0,
            s.stime() == 0,
            s.user_ts() == 0,
            s.kernel_ts() == 0,
            s.timer() == TimerType::NONE,
            s.interval() == 0,
            s.remained() == 0,
    {
        Self::new()
    }
}

/// The time a task spent in user mode and in kernel mode, each in whole
/// seconds and in whole microseconds: `(user s, user us, kernel s, kernel us)`.
pub fn time_stat_output(stat: &TimeStat) -> (r: (usize, usize, usize, usize))
    ensures
        r.0 == stat.utime() / NANOS_PER_SEC,
        r.1 == stat.utime() / NANOS_PER_MICROS,
        r.2 == stat.stime() / NANOS_PER_SEC,
        r.3 == stat.stime() / NANOS_PER_MICROS,
{
    let (utime_ns, stime_ns) = stat.output();
    (utime_ns / NANOS_PER_SEC, utime_ns / NANOS_PER_MICROS, stime_ns / NANOS_PER_SEC, stime_ns / NANOS_PER_MICROS)
}

/// The times that `times(2)` reports, in microseconds.
#[derive(Debug, Clone, Copy, PartialEq, Eq, Structural)]
pub struct Tms {
    /// user time
    pub tms_utime: usize,
    /// system time
    pub tms_stime: usize,
    /// user time of children
    pub tms_cutime: usize,
    /// system time of children
    pub tms_cstime: usize,
}

/// The record `times(2)` writes for a task: its own user and kernel time,
/// and the user and kernel time of its children (`children_utime_ns`,
/// `children_stime_ns`), all in microseconds.
pub fn times_record(stat: &TimeStat, children_utime_ns: usize, children_stime_ns: usize) -> (t: Tms)
    ensures
        t.tms_utime == stat.utime() / NANOS_PER_MICROS,
        t.tms_stime == stat.stime() / NANOS_PER_MICROS,
        t.tms_cutime == children_utime_ns / NANOS_PER_MICROS,
        t.tms_cstime == children_stime_ns / NANOS_PER_MICROS,
{
    let (_, utime_us, _, stime_us) = time_stat_output(stat);
    Tms {
        tms_utime: utime_us,
        tms_stime: stime_us,
        tms_cutime: children_utime_ns / NANOS_PER_MICROS,
        tms_cstime: children_stime_ns / NANOS_PER_MICROS,
    }
}

} // verus!

verus! {

/// A timer only runs down: what remains after any time is never more than
/// before, and a stopped timer stays stopped.
pub proof fn lemma_timer_never_grows(remained: usize, delta: int)
    requires
        delta >= 0,
    ensures
        remained_after(remained, delta) <= remained,
        remained == 0 ==> remained_after(remained, delta) == 0,
{
}

} // verus!
