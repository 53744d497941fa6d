//! Schedules: intervals and cron expressions.

use pastor::schedule::describe_duration;
use pastor::schedule::parse_field;
use pastor::schedule::parse_num;
use pastor::schedule::CronExpr;
use pastor::schedule::Schedule;
use pastor::time::parse_duration;
use pastor::time::Duration;
use pastor::time::Timestamp;
use pastor::zone::UtcZone;
use pastor::zone::Zone;

fn utc(s: &str) -> Timestamp {
    Timestamp::at_secs(chrono::DateTime::parse_from_rfc3339(s).unwrap().timestamp())
}

#[test]
fn every_is_last_plus_interval() {
    let s = Schedule::from_fields(Some("5m"), None).unwrap();
    assert_eq!(s, Schedule::Every(Duration::from_secs(300)));
    assert_eq!(
        s.next_after(utc("2026-09-24T10:00:00Z")),
        Some(utc("2026-09-24T10:05:00Z"))
    );
    assert_eq!(s.describe(), "every 5m");
    assert_eq!(
        Schedule::from_fields(Some("1d"), None).unwrap().describe(),
        "every 1d"
    );
}

#[test]
fn exactly_one_of_every_and_cron() {
    assert!(Schedule::from_fields(None, None).unwrap_err().contains("every or cron"));
    assert!(
        Schedule::from_fields(Some("5m"), Some("* * * * *"))
            .unwrap_err()
            .contains("not both")
    );
    assert!(Schedule::from_fields(Some("0s"), None).unwrap_err().contains("zero"));
    assert!(Schedule::from_fields(Some("soon"), None).is_err());
}

// 2026-09-26 is a Saturday, 2026-09-28 a Monday.
#[test]
fn weekday_office_hours() {
    let c = CronExpr::parse("*/5 9-18 * * 1-5").unwrap();
    assert_eq!(
        c.next_after_in(&UtcZone, utc("2026-09-26T10:03:00Z")),
        Some(utc("2026-09-28T09:00:00Z")),
        "Saturday rolls to Monday morning"
    );
    assert_eq!(
        c.next_after_in(&UtcZone, utc("2026-09-28T09:00:00Z")),
        Some(utc("2026-09-28T09:05:00Z")),
        "strictly after: a run at 09:00 is not due again at 09:00"
    );
    assert_eq!(
        c.next_after_in(&UtcZone, utc("2026-09-28T18:57:30Z")),
        Some(utc("2026-09-29T09:00:00Z"))
    );
    assert_eq!(Schedule::Cron(c).describe(), "cron */5 9-18 * * 1-5");
}

#[test]
fn leap_day_is_found_across_years() {
    let c = CronExpr::parse("0 0 29 2 *").unwrap();
    assert_eq!(
        c.next_after_in(&UtcZone, utc("2026-03-01T00:00:00Z")),
        Some(utc("2028-02-29T00:00:00Z"))
    );
}

/// 2100 has no leap day, so eight years pass between two.
#[test]
fn leap_day_is_found_across_a_century() {
    let c = CronExpr::parse("0 0 29 2 *").unwrap();
    assert_eq!(
        c.next_after_in(&UtcZone, utc("2097-01-01T00:00:00Z")),
        Some(utc("2104-02-29T00:00:00Z"))
    );
    assert_eq!(
        c.next_after_in(&UtcZone, utc("2096-02-29T00:00:00Z")),
        Some(utc("2104-02-29T00:00:00Z"))
    );
    // On a Sunday, which a stepped star asks for: every 28 years, and 40 over 2100.
    let c = CronExpr::parse("0 0 29 2 */7").unwrap();
    assert_eq!(
        c.next_after_in(&UtcZone, utc("2026-01-01T00:00:00Z")),
        Some(utc("2032-02-29T00:00:00Z"))
    );
    assert_eq!(
        c.next_after_in(&UtcZone, utc("2032-02-29T00:00:00Z")),
        Some(utc("2060-02-29T00:00:00Z"))
    );
    assert_eq!(
        c.next_after_in(&UtcZone, utc("2088-02-29T00:00:00Z")),
        Some(utc("2128-02-29T00:00:00Z"))
    );
    let never = CronExpr::parse("0 0 30 2 *").unwrap();
    assert_eq!(never.next_after_in(&UtcZone, utc("2026-01-01T00:00:00Z")), None);
}

/// A day field that begins with a star is no choice of its own: both fields have to
/// match.
#[test]
fn a_starred_day_field_is_matched_with_the_other() {
    // Odd days, on any weekday.
    let c = CronExpr::parse("0 0 */2 * *").unwrap();
    assert_eq!(
        c.next_after_in(&UtcZone, utc("2026-09-25T12:00:00Z")),
        Some(utc("2026-09-27T00:00:00Z")),
        "the 26th is even"
    );
    // Odd days that are Mondays; the 28th of September 2026 is a Monday.
    let c = CronExpr::parse("0 0 */2 * 1").unwrap();
    assert_eq!(
        c.next_after_in(&UtcZone, utc("2026-09-25T12:00:00Z")),
        Some(utc("2026-10-05T00:00:00Z"))
    );
    // The first of a month on every other weekday: Sunday, Tuesday, Thursday, Saturday.
    let c = CronExpr::parse("0 0 1 * */2").unwrap();
    assert_eq!(
        c.next_after_in(&UtcZone, utc("2026-10-01T00:00:00Z")),
        Some(utc("2026-11-01T00:00:00Z"))
    );
}

#[test]
fn a_list_allows_what_its_parts_allow() {
    let (list, _) = parse_field("1,3-4", 0, 6).unwrap();
    let (one, _) = parse_field("1", 0, 6).unwrap();
    let (two, _) = parse_field("3-4", 0, 6).unwrap();
    for v in 0..7 {
        assert_eq!(list[v], one[v] || two[v], "{v}");
    }
    let sunday = CronExpr::parse("0 0 * * 0").unwrap();
    let seven = CronExpr::parse("0 0 * * 7").unwrap();
    let week = utc("2026-09-21T00:00:00Z").nanos;
    for day in 0..14 {
        let from = Timestamp {
            nanos: week + day * 86_400_000_000_000,
        };
        assert_eq!(
            sunday.next_after_in(&UtcZone, from),
            seven.next_after_in(&UtcZone, from)
        );
    }
}

/// Vixie semantics: with both day-of-month and day-of-week restricted, a
/// day matches either.
#[test]
fn day_of_month_or_day_of_week_when_both_are_set() {
    let c = CronExpr::parse("0 12 1 * 1").unwrap();
    assert_eq!(
        c.next_after_in(&UtcZone, utc("2026-09-24T13:00:00Z")),
        Some(utc("2026-09-28T12:00:00Z")),
        "the Monday comes before the 1st"
    );
    assert_eq!(
        c.next_after_in(&UtcZone, utc("2026-09-28T12:00:00Z")),
        Some(utc("2026-10-01T12:00:00Z")),
        "then the 1st, a Thursday"
    );
}

#[test]
fn seven_is_sunday_and_lists_and_steps_parse() {
    let c = CronExpr::parse("0 0 * * 7").unwrap();
    assert_eq!(
        c.next_after_in(&UtcZone, utc("2026-09-24T01:00:00Z")),
        Some(utc("2026-09-27T00:00:00Z"))
    );
    let c = CronExpr::parse("15,45 8-10/2 * 1,6 *").unwrap();
    assert_eq!(
        c.next_after_in(&UtcZone, utc("2026-09-24T01:00:00Z")),
        Some(utc("2027-01-01T08:15:00Z"))
    );
    assert_eq!(
        c.next_after_in(&UtcZone, utc("2027-01-01T08:15:00Z")),
        Some(utc("2027-01-01T08:45:00Z"))
    );
    assert_eq!(
        c.next_after_in(&UtcZone, utc("2027-01-01T08:45:00Z")),
        Some(utc("2027-01-01T10:15:00Z"))
    );
}

#[test]
fn rejects_malformed_expressions() {
    for bad in [
        "60 * * * *",
        "* 24 * * *",
        "* * 32 * *",
        "* * * 13 *",
        "* * * * 8",
        "* * * *",
        "* * * * * *",
        "*/0 * * * *",
        "5-1 * * * *",
        "a * * * *",
        "",
    ] {
        assert!(CronExpr::parse(bad).is_err(), "{bad:?} should not parse");
    }
}

#[test]
fn describes_durations_in_their_largest_whole_unit() {
    assert_eq!(describe_duration(Duration::from_secs(45)), "45s");
    assert_eq!(describe_duration(Duration::from_secs(300)), "5m");
    assert_eq!(describe_duration(Duration::from_secs(7200)), "2h");
    assert_eq!(describe_duration(Duration::from_secs(90)), "90s");
    assert_eq!(describe_duration(Duration::from_secs(172800)), "2d");
}

/// What a table shows for an interval reads back as the interval.
#[test]
fn a_described_duration_parses_to_itself() {
    for secs in [1, 59, 60, 90, 3599, 3600, 5400, 86_400, 172_800, 604_800] {
        let d = Duration::from_secs(secs);
        assert_eq!(parse_duration(&describe_duration(d)), Ok(d), "{secs}");
    }
}

/// The message names the part that is wrong, quoted as a Rust string.
#[test]
fn a_bad_number_is_quoted() {
    assert_eq!(parse_num("7", 0, 59), Ok(7));
    assert_eq!(parse_num("59", 0, 59), Ok(59));
    assert_eq!(parse_num("+05", 0, 59), Ok(5), "as numbers are read");
    assert_eq!(
        parse_num("60", 0, 59),
        Err("\"60\": must be between 0 and 59".to_string())
    );
    assert_eq!(
        parse_num("0", 1, 12),
        Err("\"0\": must be between 1 and 12".to_string())
    );
    assert!(parse_num("a\nb", 0, 59).unwrap_err().contains("a\\nb"));
    assert!(parse_num("", 0, 59).is_err());
}

#[test]
fn a_field_says_which_values_match_and_whether_it_is_restricted() {
    let (set, open) = parse_field("*", 0, 6).unwrap();
    assert_eq!(set.iter().filter(|b| **b).count(), 7);
    assert!(open);
    let (set, open) = parse_field("1-5/2,6", 0, 6).unwrap();
    let on: Vec<usize> = (0..set.len()).filter(|i| set[*i]).collect();
    assert_eq!(on, vec![1, 3, 5, 6]);
    assert!(!open);
}

/// An expression that never fires is never due.
#[test]
fn the_thirtieth_of_february_never_comes() {
    let c = CronExpr::parse("0 0 30 2 *").unwrap();
    assert_eq!(c.next_after_in(&UtcZone, utc("2026-03-01T00:00:00Z")), None);
}

/// Clocks that go from 02:00 to 03:00 at the second 7200 and back from 03:00 to
/// 02:00 at the second 86400.
struct OneSummer;

impl Zone for OneSummer {
    fn wall_secs(&self, secs: i64) -> i64 {
        if (7200..86_400).contains(&secs) { secs + 3600 } else { secs }
    }

    fn earliest(&self, wall: i64) -> Option<i64> {
        if (7200..10_800).contains(&wall) {
            None
        } else if (10_800..90_000).contains(&wall) {
            Some(wall - 3600)
        } else {
            Some(wall)
        }
    }
}

/// A minute the clocks skip is passed over; one they show twice fires once, at
/// its first occurrence.
#[test]
fn a_skipped_minute_is_passed_over_and_a_repeated_one_fires_once() {
    let at = Timestamp::at_secs;
    let c = CronExpr::parse("30 2 * * *").unwrap();
    // 1970-01-01T02:30 is skipped; the next is 02:30 on the 2nd.
    assert_eq!(c.next_after_in(&OneSummer, at(0)), Some(at(86_400 + 9000)));
    let c = CronExpr::parse("30 0 * * *").unwrap();
    // 00:30 on the 2nd is shown at 84600 and again at 88200.
    assert_eq!(c.next_after_in(&OneSummer, at(82_000)), Some(at(84_600)));
    assert_eq!(c.next_after_in(&OneSummer, at(84_600)), Some(at(172_800 + 1800)));
}

/// The machine's own zone is asked through chrono: whatever the zone, the next
/// minute is no more than a minute ahead, on a whole minute.
#[test]
fn every_minute_in_the_local_zone_is_within_a_minute() {
    let s = Schedule::Cron(CronExpr::parse("* * * * *").unwrap());
    let after = utc("2026-09-24T10:00:30Z");
    assert_eq!(s.next_after(after), Some(utc("2026-09-24T10:01:00Z")));
}

#[test]
fn durations_parse_with_a_unit() {
    assert_eq!(parse_duration("45s"), Ok(Duration::from_secs(45)));
    assert_eq!(parse_duration("5m"), Ok(Duration::from_secs(300)));
    assert_eq!(parse_duration("2h"), Ok(Duration::from_secs(7200)));
    assert_eq!(parse_duration("1d"), Ok(Duration::from_secs(86_400)));
    for bad in ["", "5", "m", "5x", "-5m", "99999999999999999999s"] {
        assert!(parse_duration(bad).is_err(), "{bad:?}");
    }
}
