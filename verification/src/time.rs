use vstd::prelude::*;

verus! {

/// An instant: whole seconds since the Unix epoch (1970-01-01T00:00:00Z) and the
/// nanoseconds past that second.
pub struct Timestamp {
    pub secs: i64,
    pub nanos: u32,
}

/// Seconds in an hour.
pub const SECS_PER_HOUR: i64 = 3600;

/// Nanoseconds in a second.
pub const NANOS_PER_SEC: u32 = 1_000_000_000;

/// The first second of chrono's calendar, -262143-01-01T00:00:00Z.
pub const EARLIEST_SECS: i64 = -8_334_601_315_200;

/// The last second of chrono's calendar, +262142-12-31T23:59:59Z.
pub const LATEST_SECS: i64 = 8_210_266_876_799;

/// A second that chrono's calendar holds.
pub open spec fn on_calendar(secs: int) -> bool {
    EARLIEST_SECS <= secs <= LATEST_SECS
}

/// `now` is an ordinary instant (no leap second) on chrono's calendar, and so is the
/// instant `hours` hours later.
pub open spec fn hours_fit(now: Timestamp, hours: int) -> bool {
    &&& now.nanos < NANOS_PER_SEC
    &&& on_calendar(now.secs as int)
    &&& on_calendar(now.secs + hours * SECS_PER_HOUR)
}

/// The instant `hours` hours after `now`, computed by chrono:
/// `DateTime::<Utc>::from_timestamp` makes a date of `now`, `checked_add_signed` adds
/// `TimeDelta::hours(hours)`, and `timestamp` / `timestamp_subsec_nanos` read the result
/// back. Claimed: a result is `now` moved by exactly that many hours, with the same
/// nanoseconds; and a result comes whenever both instants lie on chrono's calendar,
/// years -262143 to 262142. Instants with a leap-second fraction are not passed in.
#[verifier::external_body]
pub(crate) fn chrono_add_hours(now: &Timestamp, hours: i32) -> (r: Option<Timestamp>)
    requires
        now.nanos < NANOS_PER_SEC,
    ensures
        r matches Some(t) ==> t.secs == now.secs + hours * SECS_PER_HOUR && t.nanos == now.nanos,
        hours_fit(*now, hours as int) ==> r is Some,
{
    match chrono::DateTime::<chrono::Utc>::from_timestamp(now.secs, now.nanos) {
        Some(start) => match start.checked_add_signed(chrono::TimeDelta::hours(hours as i64)) {
            Some(later) => Some(
                Timestamp { secs: later.timestamp(), nanos: later.timestamp_subsec_nanos() },
            ),
            None => None,
        },
        None => None,
    }
}

/// Whether `now` and the instant `hours` hours later both lie on chrono's calendar,
/// `now` being an ordinary instant.
pub fn fits_hours(now: &Timestamp, hours: i32) -> (b: bool)
    ensures
        b == hours_fit(*now, hours as int),
{
    if now.nanos >= NANOS_PER_SEC || now.secs < EARLIEST_SECS || now.secs > LATEST_SECS {
        return false;
    }
    let later: i64 = now.secs + (hours as i64) * SECS_PER_HOUR;
    EARLIEST_SECS <= later && later <= LATEST_SECS
}

/// Hours can be added to `now` exactly when `now` is an ordinary instant and both it and
/// the result lie between -262143-01-01T00:00:00Z and +262142-12-31T23:59:59Z.
pub proof fn lemma_hours_fit_bounds(now: Timestamp, hours: int)
    ensures
        hours_fit(now, hours) <==> (now.nanos < 1_000_000_000 && -8_334_601_315_200 <= now.secs
            <= 8_210_266_876_799 && -8_334_601_315_200 <= now.secs + hours * 3600
            <= 8_210_266_876_799),
{
}

} // verus!
