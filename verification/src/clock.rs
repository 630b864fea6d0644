//! Time. Instants are nanoseconds on a monotonic clock, durations are nanoseconds, and wall
//! clock times are nanoseconds since the Unix epoch.

use vstd::prelude::*;

verus! {

/// A point on the monotonic clock, in nanoseconds since the clock's origin.
pub type Instant = u128;

/// A span of time, in nanoseconds.
pub type Duration = u128;

/// A wall clock time, in nanoseconds since the Unix epoch; negative before it.
pub type SystemTime = i128;

pub const NANOS_PER_SEC: u128 = 1_000_000_000;

pub const NANOS_PER_MILLI: u128 = 1_000_000;

/// No clock reads beyond this and no duration is longer: it is the longest span that a standard
/// duration holds.
pub const LAST_INSTANT: u128 = 18_446_744_073_709_551_615_999_999_999;

/// `n` seconds.
pub fn secs(n: u64) -> (d: Duration)
    ensures
        d == n * NANOS_PER_SEC,
        d <= LAST_INSTANT,
{
    n as u128 * NANOS_PER_SEC
}

/// `n` milliseconds.
pub fn millis(n: u64) -> (d: Duration)
    ensures
        d == n * NANOS_PER_MILLI,
        d <= LAST_INSTANT,
{
    n as u128 * NANOS_PER_MILLI
}

/// Time from `earlier` to `later`, zero where `later` is not later.
pub open spec fn elapsed(earlier: Instant, later: Instant) -> int {
    if later >= earlier {
        later - earlier
    } else {
        0
    }
}

/// Time from `earlier` to `later`, zero where `later` is not later.
pub fn since(earlier: Instant, later: Instant) -> (d: Duration)
    ensures
        d == elapsed(earlier, later),
{
    if later >= earlier {
        later - earlier
    } else {
        0
    }
}

/// Whole seconds since the Unix epoch, zero for a time before it.
pub open spec fn unix_secs(t: SystemTime) -> int {
    if t < 0 {
        0
    } else {
        t as int / 1_000_000_000
    }
}

/// A reading of both clocks.
#[derive(Clone, Copy)]
pub struct Moment {
    pub instant: Instant,
    pub system: SystemTime,
}

impl Moment {
    /// Readings that leave room for the longest expiry.
    pub open spec fn in_range(self) -> bool {
        &&& self.instant <= LAST_INSTANT
        &&& -LAST_INSTANT <= self.system <= LAST_INSTANT - crate::types::MAX_EXPIRY
    }

    /// Whether the readings leave room for the longest expiry.
    pub fn is_in_range(&self) -> (r: bool)
        ensures
            r == self.in_range(),
    {
        self.instant <= LAST_INSTANT && -18_446_744_073_709_551_615_999_999_999 <= self.system
            && self.system <= 18_446_744_073_709_551_615_999_999_999 - 3_153_600_000_000_000_000
    }

    /// Whole seconds since the Unix epoch.
    pub open spec fn unix(self) -> int {
        unix_secs(self.system)
    }

    /// Whole seconds since the Unix epoch.
    pub fn unix_now(&self) -> (s: u64)
        requires
            self.in_range(),
        ensures
            s == self.unix(),
    {
        if self.system < 0 {
            0
        } else {
            (self.system / 1_000_000_000) as u64
        }
    }
}

/// A source of instants.
pub trait Clock {
    /// The clock can be read.
    spec fn ready(&self) -> bool;

    /// `t` is a reading that the clock may give.
    spec fn may_read(&self, t: Instant) -> bool;

    fn now(&self) -> (t: Instant)
        requires
            self.ready(),
        ensures
            self.may_read(t),
    ;
}

/// A function that returns instants is a clock.
impl<F: Fn() -> Instant> Clock for F {
    open spec fn ready(&self) -> bool {
        call_requires(*self, ())
    }

    open spec fn may_read(&self, t: Instant) -> bool {
        call_ensures(*self, (), t)
    }

    fn now(&self) -> (t: Instant) {
        self()
    }
}

/// `std::time::Instant`, a reading of the system's monotonic clock.
#[verifier::external_type_specification]
#[verifier::external_body]
pub struct ExInstant(std::time::Instant);

/// The system's monotonic clock, read from the moment the value was made.
pub struct SystemClock {
    origin: std::time::Instant,
}

/// `std::time::Instant::now` reads the monotonic clock. Nothing is claimed of the reading.
#[verifier::external_body]
fn clock_reading() -> std::time::Instant {
    std::time::Instant::now()
}

/// `std::time::Instant::elapsed` and `Duration::as_nanos`: the time since `origin` in
/// nanoseconds. A standard duration has at most 2^64 - 1 whole seconds.
#[verifier::external_body]
fn nanos_since(origin: &std::time::Instant) -> (n: u128)
    ensures
        n <= LAST_INSTANT,
{
    origin.elapsed().as_nanos()
}

impl SystemClock {
    pub fn start() -> SystemClock {
        SystemClock { origin: clock_reading() }
    }
}

impl Clock for SystemClock {
    open spec fn ready(&self) -> bool {
        true
    }

    open spec fn may_read(&self, t: Instant) -> bool {
        t <= LAST_INSTANT
    }

    fn now(&self) -> (t: Instant) {
        nanos_since(&self.origin)
    }
}

} // verus!
