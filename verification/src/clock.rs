//! The wall clock, behind the chrono crate: the current instant and the
//! local time zone's offset. Everything read here depends on the machine,
//! so the contracts state only what holds of every reading; the alignment
//! and labelling logic takes the readings as plain values and is verified.

use vstd::prelude::*;

use crate::scheduler::MAX_INTERVAL_MINUTES;
use crate::scheduler::TickInput;
use crate::scheduler::seconds_until_next_boundary;

verus! {

/// Relies on `chrono::Local::now`, `DateTime::timestamp` and the
/// `Timelike` minute and second accessors: the current epoch second and
/// the local wall-clock minute and second, both below 60. chrono's
/// datetimes span roughly 262000 years around the epoch, which bounds the
/// timestamp; which instant comes back depends on the machine's clock, so
/// nothing more is promised.
#[verifier::external_body]
pub fn local_clock_now() -> (r: (i64, u32, u32))
    ensures
        -9_000_000_000_000 < r.0 < 9_000_000_000_000,
        r.1 < 60,
        r.2 < 60,
{
    let now = chrono::Local::now();
    (chrono::DateTime::timestamp(&now), chrono::Timelike::minute(&now), chrono::Timelike::second(
        &now,
    ))
}

/// Relies on `chrono::DateTime::from_timestamp`, `with_timezone` to
/// `chrono::Local` and `FixedOffset::local_minus_utc`: the local offset
/// from UTC at the given instant, strictly within a day, and `None` only
/// outside chrono's representable range. The offset depends on the
/// machine's time zone, so nothing more is promised.
#[verifier::external_body]
pub fn local_utc_offset_seconds(ts: i64) -> (r: Option<i32>)
    ensures
        r matches Some(o) ==> -86400 < o < 86400,
{
    chrono::DateTime::from_timestamp(ts, 0).map(
        |dt| dt.with_timezone(&chrono::Local).offset().local_minus_utc(),
    )
}

/// The seconds to sleep from now until the first clock-aligned boundary of
/// the interval: at most one full interval, read from the machine's clock.
pub fn initial_delay_seconds(interval_minutes: u64) -> (r: u64)
    requires
        1 <= interval_minutes <= MAX_INTERVAL_MINUTES,
    ensures
        r < interval_minutes * 60,
{
    let now = local_clock_now();
    seconds_until_next_boundary(interval_minutes, now.1, now.2)
}

/// Gathers a tick's input from the machine's clock and the given idle
/// measurement and settings reads. The result satisfies the machine bounds
/// that handling a tick needs, whatever well-formed interval the scheduler
/// currently runs.
pub fn tick_input_now(
    idle_milliseconds: u64,
    idle_threshold_minutes: u32,
    notification_enabled: bool,
    notification_sound: String,
) -> (r: TickInput)
    ensures
        forall|m: u64| 1 <= m <= MAX_INTERVAL_MINUTES ==> r.valid(m),
        r.idle_milliseconds == idle_milliseconds,
        r.idle_threshold_minutes == idle_threshold_minutes,
        r.notification_enabled == notification_enabled,
        r.notification_sound@ == notification_sound@,
{
    let now = local_clock_now();
    let offset: i32 = match local_utc_offset_seconds(now.0) {
        Some(o) => o,
        None => 0,
    };
    TickInput {
        now: now.0,
        utc_offset_seconds: offset,
        idle_milliseconds,
        idle_threshold_minutes,
        notification_enabled,
        notification_sound,
    }
}

} // verus!
