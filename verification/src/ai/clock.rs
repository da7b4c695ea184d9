//! The wall clock, and the deadline that a search is held to.

use std::time::{Duration, SystemTime, SystemTimeError};
use vstd::prelude::*;

verus! {

/// `std::time::SystemTime`, a reading of the system clock: nothing of what
/// it holds is seen here.
#[verifier::external_type_specification]
#[verifier::external_body]
pub struct ExSystemTime(SystemTime);

/// `std::time::SystemTimeError`, the failure of `SystemTime::elapsed`:
/// nothing of what it holds is seen here.
#[verifier::external_type_specification]
#[verifier::external_body]
pub struct ExSystemTimeError(SystemTimeError);

/// `SystemTime::now` reads the system clock. Nothing is claimed of the time
/// it returns.
pub assume_specification[ SystemTime::now ]() -> (r: SystemTime);

/// `SystemTime::elapsed` says how much time has passed since `t`, or fails
/// where the system clock has been set back behind `t`. Nothing is claimed
/// of which it is.
pub assume_specification[ SystemTime::elapsed ](t: &SystemTime) -> (r: Result<
    Duration,
    SystemTimeError,
>);

/// `Duration::as_millis` gives a duration in whole milliseconds. Nothing is
/// claimed of the number.
pub assume_specification[ Duration::as_millis ](d: &Duration) -> (r: u128);

/// Why a search gave no answer.
#[derive(Debug, Copy, Clone, PartialEq, Eq, Structural)]
pub enum SearchError {
    /// The system clock could not be read.
    ClockUnavailable,
}

/// Whether a limit of `time_limit` milliseconds is used up once `passed`
/// milliseconds have gone by.
pub open spec fn spec_used_up(passed: u128, time_limit: u128) -> bool {
    passed >= time_limit
}

/// Whether a limit of `time_limit` milliseconds is used up once `passed`
/// milliseconds have gone by.
pub fn used_up(passed: u128, time_limit: u128) -> (r: bool)
    ensures
        r == spec_used_up(passed, time_limit),
{
    passed >= time_limit
}

/// What asking the clock about a limit of `time_limit` milliseconds may
/// give: whether the limit is used up by the milliseconds that the clock
/// says have passed, whatever their number; or that the clock could not be
/// read.
pub open spec fn reads_as(r: Result<bool, SearchError>, time_limit: u128) -> bool {
    match r {
        Ok(e) => exists|passed: u128| e == #[trigger] spec_used_up(passed, time_limit),
        Err(e) => e == SearchError::ClockUnavailable,
    }
}

/// Whether `time_limit` milliseconds have passed since `now`: the time that
/// the clock says has passed since then, in whole milliseconds, is held
/// against the limit. What the clock says is not known here, and it may
/// fail to be read.
pub fn check_time_limit(time_limit: u128, now: &SystemTime) -> (r: Result<bool, SearchError>)
    ensures
        reads_as(r, time_limit),
{
    match now.elapsed() {
        Ok(passed) => {
            let millis = passed.as_millis();
            let e = used_up(millis, time_limit);
            assert(e == spec_used_up(millis, time_limit));
            Ok(e)
        },
        Err(_) => Err(SearchError::ClockUnavailable),
    }
}

/// When a search has to stop.
pub enum Deadline {
    /// Never: the clock is not looked at.
    Never,
    /// `limit` milliseconds after `start`.
    After { start: SystemTime, limit: u128 },
}

impl Deadline {
    /// The deadline `limit` milliseconds from now.
    pub fn after(limit: u128) -> (r: Deadline)
        ensures
            r is After,
            r->limit == limit,
    {
        Deadline::After { start: SystemTime::now(), limit }
    }

    /// Whether the deadline has passed: never where there is none, and
    /// otherwise what asking the clock about its limit gives.
    pub fn expired(&self) -> (r: Result<bool, SearchError>)
        ensures
            self is Never ==> r == Ok::<bool, SearchError>(false),
            self is After ==> reads_as(r, self->limit),
    {
        match self {
            Deadline::Never => Ok(false),
            Deadline::After { start, limit } => check_time_limit(*limit, start),
        }
    }
}

} // verus!
