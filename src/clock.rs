//! Wall-clock time and calendar arithmetic on Unix timestamps.
use vstd::prelude::*;
use crate::fixed::div_floor;

verus! {

/// Seconds in a day.
pub const SECS_PER_DAY: i64 = 86_400;

/// Relies on chrono's `Utc::now` and `DateTime::timestamp`: the current time
/// as whole seconds since the Unix epoch. `Utc::now` builds it from the
/// system clock's non-negative offset from the epoch (and panics on a clock
/// set before 1970), so the value is never negative.
#[verifier::external_body]
pub(crate) fn now_unix_seconds() -> (r: i64)
    ensures
        r >= 0,
{
    chrono::Utc::now().timestamp()
}

/// The hour of the day (UTC) of the instant `ts`.
pub open spec fn hour_of(ts: int) -> int {
    (ts % 86_400) / 3_600
}

/// Whole days elapsed from `from` to `to`, truncated toward zero.
pub open spec fn whole_days(from: int, to: int) -> int {
    let d = to - from;
    if d >= 0 {
        d / 86_400
    } else {
        -((-d) / 86_400)
    }
}

/// `hour_of` on machine integers.
pub fn hour_of_day(ts: i64) -> (r: u8)
    ensures
        r == hour_of(ts as int),
        r < 24,
{
    let d = div_floor(ts as i128, 86_400);
    let secs = ts as i128 - d * 86_400;
    assert(secs == (ts as int) % 86_400);
    (secs / 3_600) as u8
}

/// `whole_days` on machine integers.
pub fn days_between(from: i64, to: i64) -> (r: i64)
    ensures
        r == whole_days(from as int, to as int),
{
    let d: i128 = to as i128 - from as i128;
    if d >= 0 {
        (d / 86_400) as i64
    } else {
        (-((-d) / 86_400)) as i64
    }
}

} // verus!
