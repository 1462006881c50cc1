//! The two clocks a schedule is evaluated against: wall-clock time for cron
//! schedules and monotonic time for intervals.

use std::time::Instant;
use vstd::prelude::*;

verus! {

/// `std::time::Instant`, a point on the monotonic clock. Nothing is known
/// of what it holds.
#[verifier::external_type_specification]
#[verifier::external_body]
pub struct ExInstant(std::time::Instant);

/// One reading of both clocks: whole seconds since the Unix epoch, and
/// nanoseconds of monotonic time since the clock was started.
#[derive(Clone, Copy, Debug)]
pub struct Reading {
    pub unix_secs: i64,
    pub monotonic_nanos: u128,
}

/// A source of readings. Its monotonic time counts from the moment it was
/// started.
pub struct Clock {
    origin: Instant,
}

/// Calls `std::time::Instant::now`. The result depends on when it is
/// called, so nothing is stated of it.
#[verifier::external_body]
fn instant_now() -> Instant {
    Instant::now()
}

/// Calls `std::time::Instant::elapsed` on `origin` and gives the duration
/// in nanoseconds. The result depends on when it is called, so nothing is
/// stated of it.
#[verifier::external_body]
fn nanos_since(origin: &Instant) -> u128 {
    origin.elapsed().as_nanos()
}

/// Hands the system time to `chrono`, through its
/// `From<SystemTime> for DateTime<Utc>`, and gives the `timestamp` of the
/// date: the whole seconds since the Unix epoch, sub-second precision
/// dropped, and below zero where the system clock reads a time before the
/// epoch. The result depends on when it is called, so nothing is stated of
/// it.
#[verifier::external_body]
fn unix_now() -> i64 {
    chrono::DateTime::<chrono::Utc>::from(std::time::SystemTime::now()).timestamp()
}

impl Clock {
    /// A clock whose monotonic time starts now.
    pub fn start() -> Clock {
        Clock { origin: instant_now() }
    }

    /// The present reading of both clocks.
    pub fn now(&self) -> Reading {
        Reading { unix_secs: unix_now(), monotonic_nanos: nanos_since(&self.origin) }
    }
}

} // verus!
