//! Instants as plain values, and the one place that reads the system clock.

use vstd::prelude::*;

verus! {

/// Nanoseconds in a second.
pub const NANOS_PER_SEC: i128 = 1_000_000_000;

/// Unix second of the earliest date-time chrono represents (year -262143, January 1st).
pub const MIN_TIMESTAMP: i64 = -8_334_601_315_200;

/// Unix second of the latest date-time chrono represents (year 262142, December 31st, 23:59:59).
pub const MAX_TIMESTAMP: i64 = 8_210_266_876_799;

/// Largest number of whole seconds that a chrono `TimeDelta` built from seconds may hold
/// (`i64::MAX` milliseconds, rounded down to seconds).
pub const MAX_DELTA_SECS: i64 = 9_223_372_036_854_775;

/// An instant: whole seconds since the Unix epoch and the nanoseconds past that second.
#[derive(Clone, Copy, Debug, PartialEq, Eq)]
pub struct Stamp {
    pub secs: i64,
    pub nanos: u32,
}

impl Stamp {
    /// The instant lies in chrono's date-time range and is not a leap second.
    pub open spec fn valid(self) -> bool {
        &&& MIN_TIMESTAMP <= self.secs <= MAX_TIMESTAMP
        &&& self.nanos < 1_000_000_000
    }

    /// Nanoseconds since the Unix epoch.
    pub open spec fn total_nanos(self) -> int {
        self.secs * 1_000_000_000 + self.nanos
    }

    /// Nanoseconds since the Unix epoch, computed.
    pub fn nanos_since_epoch(&self) -> (n: i128)
        requires
            self.valid(),
        ensures
            n == self.total_nanos(),
            MIN_TIMESTAMP * 1_000_000_000 <= n < MAX_TIMESTAMP * 1_000_000_000 + 1_000_000_000,
    {
        (self.secs as i128) * NANOS_PER_SEC + (self.nanos as i128)
    }
}

/// What the system clock gave when a reading failed: nothing (it reads before the Unix
/// epoch), or seconds and nanoseconds since the epoch that chrono cannot represent. Only a
/// failed reading of the clock makes one: its field is private to this module.
#[derive(Clone, Copy, Debug, PartialEq, Eq)]
pub struct FailedReading {
    since_epoch: Option<(u64, u32)>,
}

impl FailedReading {
    /// The raw reading that failed (`None`: the clock reads before the epoch).
    pub closed spec fn raw(self) -> Option<(u64, u32)> {
        self.since_epoch
    }
}

/// Why the current time could not be had.
#[derive(Clone, Copy, Debug, PartialEq, Eq)]
pub enum ClockError {
    /// The system clock reads before 1970, or past the date-times chrono represents; the
    /// failed reading comes with it.
    Unreadable(FailedReading),
}

#[verifier::external_type_specification]
#[verifier::external_body]
pub struct ExSystemTime(std::time::SystemTime);

/// Reads the system clock through `std::time::SystemTime::now`. Which instant comes back,
/// and whether two readings are ordered, is not stated.
#[verifier::external_body]
fn system_time_now() -> std::time::SystemTime {
    std::time::SystemTime::now()
}

/// The time elapsed from the Unix epoch to `t`, through `SystemTime::duration_since`
/// (`UNIX_EPOCH` as the earlier instant), in whole seconds and the nanoseconds past them;
/// `None` when `t` lies before the epoch (the error that `duration_since` documents). std
/// documents the sub-second part of a `Duration` as below 10^9. How the result depends on
/// `t` is not stated: `SystemTime` is opaque here.
#[verifier::external_body]
fn since_unix_epoch(t: std::time::SystemTime) -> (r: Option<(u64, u32)>)
    ensures
        r matches Some((secs, nanos)) ==> nanos < 1_000_000_000,
{
    match t.duration_since(std::time::UNIX_EPOCH) {
        Ok(d) => Some((d.as_secs(), d.subsec_nanos())),
        Err(_) => None,
    }
}

/// The instant `secs` seconds and `nanos` nanoseconds after the Unix epoch, through
/// `chrono::DateTime::<Utc>::from_timestamp`, read back with `timestamp` and
/// `timestamp_subsec_nanos`. chrono's source returns `None` exactly when the day lies
/// outside its date range (years -262143 to 262142), and otherwise a value that reads back
/// as the same seconds and nanoseconds (sub-second parts below 10^9 are never leap seconds).
#[verifier::external_body]
fn utc_from_timestamp(secs: i64, nanos: u32) -> (r: Option<Stamp>)
    requires
        nanos < 1_000_000_000,
    ensures
        r is Some <==> MIN_TIMESTAMP <= secs <= MAX_TIMESTAMP,
        r matches Some(s) ==> s == (Stamp { secs, nanos }),
{
    match chrono::DateTime::from_timestamp(secs, nanos) {
        Some(t) => Some(Stamp { secs: t.timestamp(), nanos: t.timestamp_subsec_nanos() }),
        None => None,
    }
}

/// An instant read from the clock. Only reading the clock makes one: its field is private
/// to this module, so a function that holds a reading got it from the clock.
#[derive(Clone, Copy, Debug, PartialEq, Eq)]
pub struct Reading {
    at: Stamp,
}

impl Reading {
    /// The instant read.
    pub closed spec fn at(self) -> Stamp {
        self.at
    }

    /// The instant read, computed.
    pub fn instant(&self) -> (s: Stamp)
        ensures
            s == self.at(),
    {
        self.at
    }
}

/// Reads the clock as chrono's `Utc::now` does: the system clock's seconds since the epoch
/// (taken as a signed number of seconds) and nanoseconds, when that reading exists and is a
/// date-time chrono represents; otherwise an error holding the failed reading (where
/// `Utc::now` panics). This is the only maker of a `Reading` and of a `ClockError`, so a
/// function that passes one on does so because the clock was read, successfully or not.
/// Which instant comes back is not stated.
pub fn read_clock() -> (r: Result<Reading, ClockError>)
    ensures
        r matches Ok(reading) ==> reading.at().valid(),
        r matches Err(ClockError::Unreadable(f)) ==> (f.raw() matches Some((secs, nanos)) ==> {
            &&& nanos < 1_000_000_000
            &&& !(MIN_TIMESTAMP <= (#[verifier::truncate] (secs as i64)) <= MAX_TIMESTAMP)
        }),
{
    match since_unix_epoch(system_time_now()) {
        Some((secs, nanos)) => {
            let signed = #[verifier::truncate] (secs as i64);
            match utc_from_timestamp(signed, nanos) {
                Some(now) => Ok(Reading { at: now }),
                None => Err(ClockError::Unreadable(FailedReading { since_epoch: Some((secs, nanos)) })),
            }
        },
        None => Err(ClockError::Unreadable(FailedReading { since_epoch: None })),
    }
}

/// The current instant, read from the clock (see `read_clock`).
pub fn clock_now() -> (r: Result<Stamp, ClockError>)
    ensures
        r matches Ok(now) ==> now.valid(),
        r matches Err(ClockError::Unreadable(f)) ==> (f.raw() matches Some((secs, nanos)) ==> {
            &&& nanos < 1_000_000_000
            &&& !(MIN_TIMESTAMP <= (#[verifier::truncate] (secs as i64)) <= MAX_TIMESTAMP)
        }),
{
    match read_clock() {
        Ok(reading) => Ok(reading.instant()),
        Err(e) => Err(e),
    }
}

} // verus!
