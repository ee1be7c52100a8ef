//! Wall-clock time since the UNIX epoch, as plain integers.

use std::time::{Duration, SystemTime, SystemTimeError, UNIX_EPOCH};
use vstd::prelude::*;

verus! {

#[verifier::external_type_specification]
#[verifier::external_body]
pub struct ExSystemTime(SystemTime);

#[verifier::external_type_specification]
#[verifier::external_body]
pub struct ExSystemTimeError(SystemTimeError);

/// Number of nanoseconds in one second.
pub const NANOS_PER_SEC: u32 = 1_000_000_000;

/// A point in time, counted from the UNIX epoch.
#[derive(Clone, Copy, Debug, PartialEq, Eq)]
pub struct UnixTime {
    /// Whole seconds since the epoch.
    pub secs: u64,
    /// Nanoseconds past `secs`, below one second.
    pub subsec_nanos: u32,
}

impl UnixTime {
    pub open spec fn wf(self) -> bool {
        self.subsec_nanos < NANOS_PER_SEC
    }

    /// The time as a number of nanoseconds since the epoch.
    pub open spec fn spec_total_nanos(self) -> int {
        self.secs * NANOS_PER_SEC + self.subsec_nanos
    }

    /// The epoch itself; `Duration::default()` is zero.
    pub fn epoch() -> (t: UnixTime)
        ensures
            t.secs == 0,
            t.subsec_nanos == 0,
            t.wf(),
    {
        UnixTime { secs: 0, subsec_nanos: 0 }
    }

    /// Total nanoseconds since the epoch.
    pub fn total_nanos(&self) -> (n: u128)
        requires
            self.wf(),
        ensures
            n == self.spec_total_nanos(),
    {
        assert(self.secs * 1_000_000_000 <= 18_446_744_073_709_551_615 * 1_000_000_000)
            by (nonlinear_arith);
        self.secs as u128 * 1_000_000_000u128 + self.subsec_nanos as u128
    }

    /// Whole milliseconds past the second.
    pub fn subsec_millis(&self) -> (m: u32)
        requires
            self.wf(),
        ensures
            m == self.subsec_nanos / 1_000_000,
            m < 1000,
    {
        self.subsec_nanos / 1_000_000
    }
}

/// Calls `SystemTime::now`. The result is whatever the system clock reads;
/// nothing is promised of it.
#[verifier::external_body]
fn system_time_now() -> SystemTime {
    SystemTime::now()
}

/// Calls `SystemTime::duration_since` with `UNIX_EPOCH`: the time elapsed
/// since the epoch, or an error when the clock reads earlier than the epoch.
/// Nothing is promised of either.
#[verifier::external_body]
fn duration_since_epoch(t: &SystemTime) -> Result<Duration, SystemTimeError> {
    t.duration_since(UNIX_EPOCH)
}

/// Calls `Duration::as_secs`: the whole seconds of the duration.
#[verifier::external_body]
fn duration_as_secs(d: &Duration) -> u64 {
    d.as_secs()
}

/// Calls `Duration::subsec_nanos`, which the documentation promises is less
/// than one second's worth of nanoseconds.
#[verifier::external_body]
fn duration_subsec_nanos(d: &Duration) -> (n: u32)
    ensures
        n < NANOS_PER_SEC,
{
    d.subsec_nanos()
}

/// The time at which the clock reads `elapsed` after the epoch, given as
/// whole seconds and the nanoseconds past them; `None`, a clock that reads
/// earlier than the epoch, counts as the epoch itself.
pub fn unix_time_of(elapsed: Option<(u64, u32)>) -> (t: UnixTime)
    requires
        elapsed matches Some((_, n)) ==> n < NANOS_PER_SEC,
    ensures
        t.wf(),
        match elapsed {
            Some((s, n)) => t.secs == s && t.subsec_nanos == n,
            None => t.secs == 0 && t.subsec_nanos == 0,
        },
{
    match elapsed {
        Some((secs, subsec_nanos)) => UnixTime { secs, subsec_nanos },
        None => UnixTime::epoch(),
    }
}

/// The current time since the UNIX epoch, as `unix_time_of` gives it for
/// what the system clock reads.
pub fn unix_time_now() -> (t: UnixTime)
    ensures
        t.wf(),
{
    let now = system_time_now();
    let elapsed = match duration_since_epoch(&now) {
        Ok(d) => Some((duration_as_secs(&d), duration_subsec_nanos(&d))),
        Err(_) => None,
    };
    unix_time_of(elapsed)
}

} // verus!
