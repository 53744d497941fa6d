//! Time zones: what a zone's clocks show at a point in time, and when they
//! first show a given time.

use chrono::TimeZone;
use vstd::prelude::*;

use crate::calendar;

verus! {

/// Whether seconds counted from 1970 lie within the calendar, two days from
/// either end: an offset from UTC is less than a day.
pub open spec fn clear_of_the_ends(secs: int) -> bool {
    (calendar::MIN_DAY + 2) * 86_400 <= secs < (calendar::MAX_DAY - 1) * 86_400
}

/// A time zone.
pub trait Zone {
    /// What the zone's clocks show at `secs` seconds since 1970 UTC, in seconds
    /// since 1970 on those clocks.
    fn wall_secs(&self, secs: i64) -> (wall: i64)
        requires
            clear_of_the_ends(secs as int),
        ensures
            -86_400 < wall - secs < 86_400,
    ;

    /// The first point in time, in seconds since 1970 UTC, at which the zone's
    /// clocks show `wall`; none if they skip it.
    fn earliest(&self, wall: i64) -> (secs: Option<i64>)
        requires
            clear_of_the_ends(wall as int),
        ensures
            secs matches Some(s) ==> -86_400 < s - wall < 86_400,
    ;
}

/// Coordinated universal time.
pub struct UtcZone;

impl Zone for UtcZone {
    fn wall_secs(&self, secs: i64) -> (wall: i64)
        ensures
            wall == secs,
    {
        secs
    }

    fn earliest(&self, wall: i64) -> (secs: Option<i64>)
        ensures
            secs == Some(wall),
    {
        Some(wall)
    }
}

/// The time zone of the machine this runs on.
pub struct LocalZone;

impl Zone for LocalZone {
    fn wall_secs(&self, secs: i64) -> (wall: i64) {
        local_wall_secs(secs)
    }

    fn earliest(&self, wall: i64) -> (secs: Option<i64>) {
        local_earliest(wall)
    }
}

/// `chrono::DateTime::with_timezone` into `chrono::Local`, as `naive_local`:
/// the machine's wall-clock time at a point in time. Which offset from UTC
/// that is depends on the machine; every offset chrono has is less than a day.
#[verifier::external_body]
fn local_wall_secs(secs: i64) -> (wall: i64)
    requires
        clear_of_the_ends(secs as int),
    ensures
        -86_400 < wall - secs < 86_400,
{
    let utc = chrono::DateTime::from_timestamp(secs, 0).expect("a time within the calendar");
    utc.with_timezone(&chrono::Local).naive_local().and_utc().timestamp()
}

/// `chrono::Local.from_local_datetime`, as `LocalResult::earliest`: the first
/// point in time at which the machine's clocks show `wall`, if they ever do.
/// It depends on the machine's zone; every offset chrono has is less than a day.
#[verifier::external_body]
fn local_earliest(wall: i64) -> (secs: Option<i64>)
    requires
        clear_of_the_ends(wall as int),
    ensures
        secs matches Some(s) ==> -86_400 < s - wall < 86_400,
{
    let shown = chrono::DateTime::from_timestamp(wall, 0).expect("a time within the calendar");
    chrono::Local.from_local_datetime(&shown.naive_utc()).earliest().map(|t| t.timestamp())
}

} // verus!
