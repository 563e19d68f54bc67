//! Reading the system clock.

use vstd::prelude::*;

use std::time::{Duration, SystemTime, SystemTimeError};

use crate::snapshot::{is_stamp_of, stamp_at, stamp_is_of_its_second, utc_text};

verus! {

/// `std::time::SystemTime`, a reading of the system clock.
#[verifier::external_type_specification]
#[verifier::external_body]
pub struct ExSystemTime(SystemTime);

/// `std::time::SystemTimeError`, the error of a clock that reads too early.
#[verifier::external_type_specification]
#[verifier::external_body]
pub struct ExSystemTimeError(SystemTimeError);

/// `SystemTime::now`: reads the clock. Nothing is claimed of the reading.
pub assume_specification[ SystemTime::now ]() -> SystemTime;

/// `Duration::as_secs`: whole seconds. Nothing is claimed of the number but that
/// this function gives it.
pub assume_specification[ Duration::as_secs ](d: &Duration) -> u64;

/// `SystemTime::duration_since` against `SystemTime::UNIX_EPOCH`. Nothing is
/// claimed of the result, which is an error for a reading before the epoch.
#[verifier::external_body]
fn since_epoch(t: SystemTime) -> Result<Duration, SystemTimeError> {
    t.duration_since(SystemTime::UNIX_EPOCH)
}

/// Whether `elapsed` is what the time from the Unix epoch to the reading `t` can
/// come out as.
pub closed spec fn is_elapsed(t: SystemTime, elapsed: Result<Duration, SystemTimeError>) -> bool {
    call_ensures(since_epoch, (t,), elapsed)
}

/// The `Display` text of a `SystemTimeError`. Nothing is claimed of the text but
/// that this function gives it.
#[verifier::external_body]
fn error_text(e: SystemTimeError) -> String {
    e.to_string()
}

/// Whether `cause` is the text of `e`.
pub closed spec fn is_cause(e: SystemTimeError, cause: String) -> bool {
    call_ensures(error_text, (e,), cause)
}

/// Unix epoch seconds; `Err` with the reason for a clock before the Unix epoch.
pub type Reading = Result<u64, String>;

/// Whether `r` is the whole seconds of `elapsed`, as `Duration::as_secs` gives
/// them, or the text of its error.
pub open spec fn is_seconds_of(elapsed: Result<Duration, SystemTimeError>, r: Reading) -> bool {
    match (elapsed, r) {
        (Ok(d), Ok(secs)) => call_ensures(Duration::as_secs, (&d,), secs),
        (Err(e), Err(cause)) => is_cause(e, cause),
        _ => false,
    }
}

/// Whether `r` is the Unix epoch seconds of a reading that `SystemTime::now` can
/// give, or the reason why there are none.
pub open spec fn is_reading(r: Reading) -> bool {
    exists|t: SystemTime, elapsed: Result<Duration, SystemTimeError>|
        {
            &&& call_ensures(SystemTime::now, (), t)
            &&& #[trigger] is_elapsed(t, elapsed)
            &&& is_seconds_of(elapsed, r)
        }
}

/// Returns the whole seconds of what has passed since the Unix epoch, or the
/// reason where the clock was before it.
pub fn whole_seconds(elapsed: Result<Duration, SystemTimeError>) -> (r: Reading)
    ensures
        is_seconds_of(elapsed, r),
{
    // Called as values, which relates the results to the calls.
    let as_secs = Duration::as_secs;
    let text = error_text;
    match elapsed {
        Ok(d) => Ok(as_secs(&d)),
        Err(e) => Err(text(e)),
    }
}

/// Returns the current time as Unix epoch seconds, or the reason where the system
/// clock is before the Unix epoch.
pub fn current_unix_ts() -> (r: Reading)
    ensures
        is_reading(r),
{
    // Called as values, which relates the results to the calls.
    let now = SystemTime::now;
    let since = since_epoch;
    let t = now();
    let elapsed = since(t);
    assert(is_elapsed(t, elapsed));
    whole_seconds(elapsed)
}

/// Returns a copy of a reading.
pub(crate) fn same_reading(r: &Reading) -> (copy: Reading)
    ensures
        copy == *r,
{
    match r {
        Ok(secs) => Ok(*secs),
        Err(cause) => Err(cause.clone()),
    }
}

/// One reading of the clock, in the two forms that a backup needs.
#[derive(Debug)]
pub struct Clock {
    /// Unix epoch seconds; `Err` with the reason for a clock before the Unix epoch.
    pub now: Reading,
    /// The same time as `YYYYMMDD_HHMMSS` in UTC; empty where the calendar does not
    /// hold it.
    pub stamp: String,
}

impl Clock {
    /// Whether both forms are of one reading that the clock can give.
    pub open spec fn is_read(self) -> bool {
        is_reading(self.now) && is_stamp_of(self.now, self.stamp@)
    }

    /// Reads the clock.
    pub fn read() -> (r: Clock)
        ensures
            r.is_read(),
    {
        let now = current_unix_ts();
        let stamp = stamp_at(&now);
        Clock { now, stamp }
    }
}

/// Seconds are what `Duration::as_secs` gives of the time since the epoch, and a
/// cause is the text of the error; neither stands for the other.
pub proof fn seconds_are_of_the_elapsed_time(elapsed: Result<Duration, SystemTimeError>, r: Reading)
    requires
        is_seconds_of(elapsed, r),
    ensures
        elapsed is Ok <==> r is Ok,
        elapsed matches Ok(d) ==> call_ensures(Duration::as_secs, (&d,), r->Ok_0),
        elapsed matches Err(e) ==> is_cause(e, r->Err_0),
{
}

/// Both forms of a reading tell the same second.
pub proof fn clock_tells_one_time(c: Clock)
    requires
        c.is_read(),
    ensures
        is_reading(c.now),
        c.now matches Ok(secs) ==> (secs <= 8_210_266_876_799 ==> c.stamp@ == utc_text(
            secs as i64,
            "%Y%m%d_%H%M%S"@,
        )),
{
    stamp_is_of_its_second(c.now, c.stamp@);
}

} // verus!
