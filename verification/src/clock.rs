//! The time of day.

use vstd::prelude::*;

verus! {

/// An instant: the whole seconds since the Unix epoch, and the nanoseconds since the last of them.
pub struct Instant {
    pub seconds: i64,
    pub nanos: u32,
}

/// The seconds since the Unix epoch that a calendar date of `chrono` can stand for: those of the
/// years -262143 to 262142.
pub open spec fn is_timestamp(seconds: int) -> bool {
    -8334601228800 <= seconds <= 8210266876799
}

impl Instant {
    /// An instant at or after the Unix epoch that has a calendar date.
    pub open spec fn is_now(self) -> bool {
        self.seconds >= 0 && is_timestamp(self.seconds as int) && self.nanos < 1_000_000_000
    }
}

/// `chrono::Utc::now` gives an instant at or after the Unix epoch, with a calendar date.
#[verifier::external_body]
pub(crate) fn utc_now() -> (now: Instant)
    ensures
        now.is_now(),
{
    let now = chrono::Utc::now();
    Instant { seconds: now.timestamp(), nanos: now.timestamp_subsec_nanos() }
}

/// `chrono::DateTime::from_timestamp` gives a date for the seconds of the years that `chrono` knows.
#[verifier::external_body]
pub(crate) fn has_date(seconds: i64) -> (r: bool)
    ensures
        r == is_timestamp(seconds as int),
{
    chrono::DateTime::<chrono::Utc>::from_timestamp(seconds, 0).is_some()
}

/// The seconds since the Unix epoch.
pub fn current_unix_seconds() -> (seconds: i64)
    ensures
        seconds >= 0,
        is_timestamp(seconds as int),
{
    utc_now().seconds
}

/// `std::time::SystemTime::duration_since` gives the seconds since the Unix epoch, unless the clock
/// stands before it. The result rests on the clock alone.
#[verifier::external_body]
fn seconds_since_epoch() -> (seconds: Option<u64>) {
    let since_epoch = std::time::SystemTime::now().duration_since(std::time::UNIX_EPOCH);
    since_epoch.ok().map(|since_epoch| since_epoch.as_secs())
}

/// The seconds that are told where the clock gives `since_epoch`: zero where it stands before the Unix
/// epoch.
fn seconds_or_zero(since_epoch: Option<u64>) -> (seconds: u64)
    ensures
        seconds == match since_epoch {
            Some(seconds) => seconds,
            None => 0,
        },
{
    match since_epoch {
        Some(seconds) => seconds,
        None => 0,
    }
}

/// The seconds since the Unix epoch, zero where the clock stands before it. The result rests on the
/// clock alone.
pub(crate) fn now_unix_seconds() -> (seconds: u64) {
    seconds_or_zero(seconds_since_epoch())
}

} // verus!
