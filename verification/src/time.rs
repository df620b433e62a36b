use vstd::prelude::*;

verus! {

/// Nanoseconds per second.
pub const NANOS_PER_SEC: u32 = 1_000_000_000;

/// An absolute instant or a span of time: whole seconds plus a nanosecond
/// remainder below one second.
#[derive(Debug, Clone, Copy, PartialEq, Eq, Structural)]
pub struct TimeValue {
    /// Whole seconds.
    pub secs: u64,
    /// Nanoseconds below one second.
    pub nanos: u32,
}

impl TimeValue {
    /// Whether the nanosecond part is in its carry-free range.
    pub open spec fn wf(self) -> bool {
        self.nanos < NANOS_PER_SEC
    }

    /// The value as a total count of nanoseconds.
    pub open spec fn spec_total_nanos(self) -> int {
        self.secs * NANOS_PER_SEC + self.nanos
    }

    /// Creates a time value from seconds and nanoseconds.
    pub fn new(secs: u64, nanos: u32) -> (r: TimeValue)
        requires
            nanos < NANOS_PER_SEC,
        ensures
            r == (TimeValue { secs, nanos }),
            r.wf(),
    {
        TimeValue { secs, nanos }
    }

    /// Whole seconds.
    pub fn as_secs(&self) -> (r: u64)
        ensures
            r == self.secs,
    {
        self.secs
    }

    /// Nanoseconds below one second.
    pub fn subsec_nanos(&self) -> (r: u32)
        ensures
            r == self.nanos,
    {
        self.nanos
    }

    /// Microseconds below one second (the nanosecond remainder, truncated).
    pub fn subsec_micros(&self) -> (r: u32)
        ensures
            r == self.nanos / 1000,
    {
        self.nanos / 1000
    }

    /// The difference `self - other`, or `None` when `other` is larger.
    pub fn checked_sub(&self, other: &TimeValue) -> (r: Option<TimeValue>)
        requires
            self.wf(),
            other.wf(),
        ensures
            match r {
                Some(d) => d.wf() && self.spec_total_nanos() - other.spec_total_nanos()
                    == d.spec_total_nanos(),
                None => self.spec_total_nanos() < other.spec_total_nanos(),
            },
    {
        if self.secs > other.secs || (self.secs == other.secs && self.nanos >= other.nanos) {
            if self.nanos >= other.nanos {
                Some(TimeValue { secs: self.secs - other.secs, nanos: self.nanos - other.nanos })
            } else {
                Some(
                    TimeValue {
                        secs: self.secs - other.secs - 1,
                        nanos: (NANOS_PER_SEC - other.nanos) + self.nanos,
                    },
                )
            }
        } else {
            proof {
                assert(self.spec_total_nanos() < other.spec_total_nanos()) by (nonlinear_arith)
                    requires
                        self.wf(),
                        other.wf(),
                        self.secs < other.secs || (self.secs == other.secs && self.nanos
                            < other.nanos),
                        self.spec_total_nanos() == self.secs * NANOS_PER_SEC + self.nanos,
                        other.spec_total_nanos() == other.secs * NANOS_PER_SEC + other.nanos,
                        NANOS_PER_SEC == 1_000_000_000,
                ;
            }
            None
        }
    }
}

/// Seconds plus nanoseconds, as the kernel timespec ABI carries them.
#[derive(Debug, Clone, Copy, PartialEq, Eq, Structural)]
pub struct TimeSpec {
    /// Whole seconds.
    pub tv_sec: i64,
    /// Nanoseconds below one second (or a per-field sentinel in timestamp
    /// update calls).
    pub tv_nsec: i64,
}

/// Seconds plus microseconds, as the kernel timeval ABI carries them.
#[derive(Debug, Clone, Copy, PartialEq, Eq, Structural)]
pub struct TimeVal {
    /// Whole seconds.
    pub tv_sec: i64,
    /// Microseconds below one second.
    pub tv_usec: i64,
}

/// A conversion pair between an ABI time record and [`TimeValue`].
pub trait TimeValueLike: Sized {
    /// Whether this record holds in-range, non-negative fields.
    spec fn time_wf(self) -> bool;

    /// The [`TimeValue`] this record stands for.
    spec fn spec_time_value(self) -> TimeValue;

    /// The record that a time value converts to, truncated to the record's
    /// resolution.
    spec fn spec_from(tv: TimeValue) -> Self;

    /// Converts from `TimeValue`.
    fn from_time_value(tv: TimeValue) -> (r: Self)
        requires
            tv.wf(),
            tv.secs <= i64::MAX as u64,
        ensures
            r.time_wf(),
            r == Self::spec_from(tv),
    ;

    /// Converts to `TimeValue`.
    fn to_time_value(self) -> (r: TimeValue)
        requires
            self.time_wf(),
        ensures
            r == self.spec_time_value(),
    ;
}

impl TimeValueLike for TimeValue {
    open spec fn time_wf(self) -> bool {
        self.wf()
    }

    open spec fn spec_time_value(self) -> TimeValue {
        self
    }

    open spec fn spec_from(tv: TimeValue) -> Self {
        tv
    }

    fn from_time_value(tv: TimeValue) -> (r: Self) {
        tv
    }

    fn to_time_value(self) -> (r: TimeValue) {
        self
    }
}

impl TimeValueLike for TimeSpec {
    open spec fn time_wf(self) -> bool {
        0 <= self.tv_sec && 0 <= self.tv_nsec < NANOS_PER_SEC
    }

    open spec fn spec_time_value(self) -> TimeValue {
        TimeValue { secs: self.tv_sec as u64, nanos: self.tv_nsec as u32 }
    }

    open spec fn spec_from(tv: TimeValue) -> Self {
        TimeSpec { tv_sec: tv.secs as i64, tv_nsec: tv.nanos as i64 }
    }

    fn from_time_value(tv: TimeValue) -> (r: Self) {
        TimeSpec { tv_sec: tv.secs as i64, tv_nsec: tv.nanos as i64 }
    }

    fn to_time_value(self) -> (r: TimeValue) {
        TimeValue { secs: self.tv_sec as u64, nanos: self.tv_nsec as u32 }
    }
}

impl TimeValueLike for TimeVal {
    open spec fn time_wf(self) -> bool {
        0 <= self.tv_sec && 0 <= self.tv_usec < 1_000_000
    }

    open spec fn spec_time_value(self) -> TimeValue {
        TimeValue { secs: self.tv_sec as u64, nanos: (self.tv_usec * 1000) as u32 }
    }

    open spec fn spec_from(tv: TimeValue) -> Self {
        TimeVal { tv_sec: tv.secs as i64, tv_usec: (tv.nanos / 1000) as i64 }
    }

    fn from_time_value(tv: TimeValue) -> (r: Self) {
        TimeVal { tv_sec: tv.secs as i64, tv_usec: (tv.nanos / 1000) as i64 }
    }

    fn to_time_value(self) -> (r: TimeValue) {
        TimeValue { secs: self.tv_sec as u64, nanos: (self.tv_usec as u32) * 1000 }
    }
}

/// Converts a timespec record to a time value.
pub fn timespec_to_timevalue(ts: TimeSpec) -> (r: TimeValue)
    requires
        ts.time_wf(),
    ensures
        r == ts.spec_time_value(),
{
    ts.to_time_value()
}

/// Converts a time value to a timespec record.
pub fn timevalue_to_timespec(tv: TimeValue) -> (r: TimeSpec)
    requires
        tv.wf(),
        tv.secs <= i64::MAX as u64,
    ensures
        r.time_wf(),
        r.tv_sec == tv.secs as i64,
        r.tv_nsec == tv.nanos as i64,
{
    TimeSpec::from_time_value(tv)
}

/// Converts a timeval record to a time value.
pub fn timeval_to_timevalue(tv: TimeVal) -> (r: TimeValue)
    requires
        tv.time_wf(),
    ensures
        r == tv.spec_time_value(),
{
    tv.to_time_value()
}

/// Converts a time value to a timeval record, truncating to whole
/// microseconds.
pub fn timevalue_to_timeval(tv: TimeValue) -> (r: TimeVal)
    requires
        tv.wf(),
        tv.secs <= i64::MAX as u64,
    ensures
        r.time_wf(),
        r.tv_sec == tv.secs as i64,
        r.tv_usec == tv.nanos / 1000,
{
    TimeVal { tv_sec: tv.secs as i64, tv_usec: (tv.nanos / 1000) as i64 }
}

/// Process and children execution times, in microseconds.
#[derive(Debug, Clone, Copy, PartialEq, Eq, Structural)]
pub struct Tms {
    /// Process user mode execution time in microseconds
    pub tms_utime: usize,
    /// Process kernel mode execution time in microseconds
    pub tms_stime: usize,
    /// Sum of child processes' user mode execution time in microseconds
    pub tms_cutime: usize,
    /// Sum of child processes' kernel mode execution time in microseconds
    pub tms_cstime: usize,
}

/// The remainder that a sleep that was asked for `requested` and actually
/// lasted `actual` still owes, or `None` when the request was fully served.
///
/// A sleep request is rejected as invalid when its fields are negative or its
/// nanosecond part reaches one second.
pub fn nanosleep_remaining(requested: TimeSpec, actual: TimeValue) -> (r: Result<
    Option<TimeValue>,
    crate::errno::LinuxError,
>)
    requires
        actual.wf(),
    ensures
        match r {
            Ok(rem) => requested.time_wf() && (match rem {
                Some(d) => d.wf() && requested.spec_time_value().spec_total_nanos()
                    - actual.spec_total_nanos() == d.spec_total_nanos(),
                None => requested.spec_time_value().spec_total_nanos()
                    < actual.spec_total_nanos(),
            }),
            Err(e) => e == crate::errno::LinuxError::EINVAL && !requested.time_wf(),
        },
{
    if requested.tv_nsec < 0 || requested.tv_nsec > 999_999_999 || requested.tv_sec < 0 {
        return Err(crate::errno::LinuxError::EINVAL);
    }
    let dur = timespec_to_timevalue(requested);
    Ok(dur.checked_sub(&actual))
}

} // verus!
