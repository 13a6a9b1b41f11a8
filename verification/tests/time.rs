use starry::errno::SysError;
use starry::time::{clock_source, uptime_secs, ClockSource, TimeValue, Timespec, Timeval};
use starry::time_stat::{time_stat_output, times_record, TimeStat, TimerType, Tms};

#[test]
fn time_value_carries_whole_seconds() {
    let t = TimeValue::new(5, 2_500_000_000);
    assert_eq!((t.as_secs(), t.subsec_nanos()), (7, 500_000_000));
    assert_eq!(t.subsec_micros(), 500_000);
}

#[test]
fn timespec_roundtrip() {
    let t = TimeValue::new(1_700_000_000, 123_456_789);
    let ts = Timespec::from_time_value(t);
    assert_eq!(ts, Timespec { tv_sec: 1_700_000_000, tv_nsec: 123_456_789 });
    assert_eq!(ts.to_time_value(), t);
}

#[test]
fn timeval_roundtrip_cuts_to_micros() {
    let t = TimeValue::new(3, 123_456_789);
    let tv = Timeval::from_time_value(t);
    assert_eq!(tv, Timeval { tv_sec: 3, tv_usec: 123_456 });
    assert_eq!(tv.to_time_value(), TimeValue::new(3, 123_456_000));
}

#[test]
fn timespec_with_big_nanos_carries() {
    let ts = Timespec { tv_sec: 1, tv_nsec: 1_500_000_000 };
    assert_eq!(ts.to_time_value(), TimeValue::new(2, 500_000_000));
}

#[test]
fn clocks() {
    assert_eq!(clock_source(0), Ok(ClockSource::Realtime));
    assert_eq!(clock_source(1), Ok(ClockSource::Monotonic));
    assert_eq!(clock_source(2), Err(SysError::EINVAL));
    assert_eq!(clock_source(-1), Err(SysError::EINVAL));
    assert_eq!(uptime_secs(3_999_999_999), 3);
}

#[test]
fn timer_type_numbers() {
    assert_eq!(TimerType::from_usize(0), TimerType::REAL);
    assert_eq!(TimerType::from_usize(1), TimerType::VIRTUAL);
    assert_eq!(TimerType::from_usize(2), TimerType::PROF);
    assert_eq!(TimerType::from_usize(3), TimerType::NONE);
    assert_eq!(TimerType::from_usize(usize::MAX), TimerType::NONE);
    assert_eq!(TimerType::from_usize(1 << 32), TimerType::REAL);
    assert_eq!(TimerType::NONE.code(), -1);
    assert_eq!(TimerType::PROF.code(), 2);
}

#[test]
fn time_accounting() {
    let mut s = TimeStat::new();
    assert_eq!(s.output(), (0, 0));
    s.reset(100);
    assert_eq!(s.kernel_timestamp(), 100);
    // In the kernel from 100 to 400, in user mode from 400 to 650.
    s.switch_into_user_mode(400);
    assert_eq!(s.output(), (0, 300));
    assert_eq!(s.user_timestamp(), 400);
    s.switch_into_kernel_mode(650);
    assert_eq!(s.output(), (250, 300));
    assert_eq!(s.kernel_timestamp(), 650);
    s.switch_from_old_task(700);
    assert_eq!(s.output(), (250, 350));
    // The time away from the processor counts for neither.
    s.switch_to_new_task(900);
    assert_eq!(s.output(), (250, 350));
    s.switch_into_user_mode(1000);
    assert_eq!(s.output(), (250, 450));
    s.reset(1000);
    assert_eq!(s.output(), (0, 0));
}

#[test]
fn user_time_is_only_the_time_in_user_mode() {
    let mut s = TimeStat::new();
    s.reset(0);
    s.switch_into_user_mode(10);
    s.switch_into_kernel_mode(30);
    assert_eq!(s.output(), (20, 10));
    s.switch_into_user_mode(40);
    assert_eq!(s.output(), (20, 20));
    s.switch_into_kernel_mode(45);
    s.switch_into_user_mode(100);
    // User and kernel time together are all the time since the reset.
    assert_eq!(s.output(), (25, 75));
    assert_eq!(s.output().0 + s.output().1, 100);
}

#[test]
fn set_timer_reports_whether_set() {
    let mut s = TimeStat::default();
    assert!(s.set_timer(10, 20, 0));
    assert!(!s.set_timer(10, 20, 7));
    s.update_timer(5);
}

#[test]
fn output_in_seconds_and_micros() {
    let mut s = TimeStat::new();
    s.switch_into_kernel_mode(2_500_000_000);
    s.switch_into_user_mode(2_500_000_000 + 1_000_000);
    // From time 0 user time is counted up to 2.5 s, kernel time from 2.5 s on.
    assert_eq!(time_stat_output(&s), (2, 2_500_000, 0, 1_000));
    assert_eq!(times_record(&s, 0, 0), Tms { tms_utime: 2_500_000, tms_stime: 1_000, tms_cutime: 0, tms_cstime: 0 });
    assert_eq!(
        times_record(&s, 7_000_999, 3_000),
        Tms { tms_utime: 2_500_000, tms_stime: 1_000, tms_cutime: 7_000, tms_cstime: 3 }
    );
}
