//! When a job is due. `every` is a plain interval; `cron` is 5-field cron in the
//! head's local time, matched by a small walker: the subset it takes (numbers,
//! `*`, ranges, lists, steps) fits in a page.

use vstd::prelude::*;
use vstd::string::*;

use crate::calendar;
use crate::digits;
use crate::text;
use crate::time;
use crate::time::Duration;
use crate::time::Timestamp;
use crate::zone::LocalZone;
use crate::zone::UtcZone;
use crate::zone::Zone;

verus! {

/// When a job runs: at an interval, or at the times of a cron expression.
#[derive(Debug, PartialEq, Eq)]
pub enum Schedule {
    Every(Duration),
    Cron(CronExpr),
}

impl Clone for Schedule {
    fn clone(&self) -> (r: Schedule)
        ensures
            r.same_as(*self),
    {
        match self {
            Schedule::Every(d) => Schedule::Every(*d),
            Schedule::Cron(c) => Schedule::Cron(c.clone()),
        }
    }
}

/// A length of time in its largest whole unit.
pub open spec fn duration_text(secs: nat) -> Seq<char> {
    if secs > 0 && secs % 86400 == 0 {
        digits::decimal(secs / 86400).push('d')
    } else if secs > 0 && secs % 3600 == 0 {
        digits::decimal(secs / 3600).push('h')
    } else if secs > 0 && secs % 60 == 0 {
        digits::decimal(secs / 60).push('m')
    } else {
        digits::decimal(secs).push('s')
    }
}

/// `300s` reads better as `5m` in a table; whole units only, else seconds.
pub fn describe_duration(d: Duration) -> (r: String)
    requires
        d.valid(),
    ensures
        r@ == duration_text(d.secs()),
{
    let s = d.as_secs();
    let (n, unit) = if s > 0 && s % 86400 == 0 {
        (s / 86400, 'd')
    } else if s > 0 && s % 3600 == 0 {
        (s / 3600, 'h')
    } else if s > 0 && s % 60 == 0 {
        (s / 60, 'm')
    } else {
        (s, 's')
    };
    let mut r = digits::print_number(n);
    r.push(unit);
    r
}

/// A described length of time reads back as the seconds it describes.
pub proof fn described_duration_reads_back(secs: nat)
    requires
        secs <= u64::MAX,
    ensures
        time::duration_secs(duration_text(secs)) == Some(secs),
{
    let (n, unit) = if secs > 0 && secs % 86400 == 0 {
        (secs / 86400, 'd')
    } else if secs > 0 && secs % 3600 == 0 {
        (secs / 3600, 'h')
    } else if secs > 0 && secs % 60 == 0 {
        (secs / 60, 'm')
    } else {
        (secs, 's')
    };
    digits::decimal_reads_back(n);
    assert(duration_text(secs) == digits::decimal(n).push(unit));
    assert(duration_text(secs).drop_last() =~= digits::decimal(n));
    let each = time::unit_secs(unit)->0;
    assert(n * each == secs) by {
        if unit == 'd' {
            assert(each == 86400);
        } else if unit == 'h' {
            assert(each == 3600);
        } else if unit == 'm' {
            assert(each == 60);
        } else {
            assert(each == 1);
        }
    }
}

/// Why the `every` and `cron` fields of a job make no schedule, if they do not.
pub open spec fn schedule_error(every: Option<Seq<char>>, cron: Option<Seq<char>>) -> Option<Seq<char>> {
    match (every, cron) {
        (Some(e), None) => match time::duration_secs(e) {
            None => Some("every: "@ + time::duration_error(e)),
            Some(secs) => if secs == 0 {
                Some("every: must not be zero"@)
            } else {
                None
            },
        },
        (None, Some(c)) => cron_error(c),
        (Some(_), Some(_)) => Some("set either every or cron, not both"@),
        (None, None) => Some("set every or cron"@),
    }
}

impl Schedule {
    /// Two schedules that say the same.
    pub open spec fn same_as(self, other: Schedule) -> bool {
        match (self, other) {
            (Schedule::Every(a), Schedule::Every(b)) => a == b,
            (Schedule::Cron(a), Schedule::Cron(b)) => a@ == b@,
            _ => false,
        }
    }

    /// The schedule that valid `every` and `cron` fields stand for.
    pub open spec fn stands_for(self, every: Option<Seq<char>>, cron: Option<Seq<char>>) -> bool {
        match self {
            Schedule::Every(d) => every matches Some(e) && time::duration_secs(e) matches Some(secs)
                && d.nanos == secs * time::NANOS_PER_SEC,
            Schedule::Cron(c) => cron matches Some(e) && cron_means(e, c@),
        }
    }

    /// From a job file's `every` / `cron` fields: exactly one must be set.
    pub fn from_fields(every: Option<&str>, cron: Option<&str>) -> (r: Result<Schedule, String>)
        ensures
            match (r, schedule_error(text::opt_str(every), text::opt_str(cron))) {
                (Ok(s), None) => s.stands_for(text::opt_str(every), text::opt_str(cron)),
                (Err(e), Some(m)) => e@ == m,
                _ => false,
            },
            r matches Ok(Schedule::Every(d)) ==> d.valid() && d.nanos > 0,
    {
        match (every, cron) {
            (Some(e), None) => match time::parse_duration(e) {
                Ok(d) => if d.is_zero() {
                    Err("every: must not be zero".to_owned())
                } else {
                    assert(d.nanos / time::NANOS_PER_SEC as u128 == time::duration_secs(e@)->0);
                    Ok(Schedule::Every(d))
                },
                Err(err) => {
                    let mut m = "every: ".to_owned();
                    m.append(err.as_str());
                    Err(m)
                },
            },
            (None, Some(c)) => match CronExpr::parse(c) {
                Ok(c) => Ok(Schedule::Cron(c)),
                Err(e) => Err(e),
            },
            (Some(_), Some(_)) => Err("set either every or cron, not both".to_owned()),
            (None, None) => Err("set every or cron".to_owned()),
        }
    }

    /// How a table shows the schedule.
    pub open spec fn described(self) -> Seq<char> {
        match self {
            Schedule::Every(d) => "every "@ + duration_text(d.secs()),
            Schedule::Cron(c) => "cron "@ + c@.source,
        }
    }

    /// How a table shows the schedule.
    pub fn describe(&self) -> (r: String)
        requires
            self matches Schedule::Every(d) ==> d.valid(),
        ensures
            r@ == self.described(),
    {
        match self {
            Schedule::Every(d) => {
                let mut r = "every ".to_owned();
                let t = describe_duration(*d);
                r.append(t.as_str());
                r
            },
            Schedule::Cron(c) => {
                let mut r = "cron ".to_owned();
                r.append(c.source.as_str());
                r
            },
        }
    }

    /// Whether a next time can be told from `last` within the calendar.
    pub open spec fn room_after(self, last: Timestamp) -> bool {
        match self {
            Schedule::Every(d) => last.valid() && (d.nanos <= time::MAX_DELTA_NANOS ==> time::in_time(
                last.nanos + d.nanos,
            )),
            Schedule::Cron(_) => room_to_walk(last),
        }
    }

    /// `at` is the first point in time strictly after `last` at which a run is
    /// due.
    pub open spec fn next_after_is(self, last: Timestamp, at: Option<Timestamp>) -> bool {
        match self {
            Schedule::Every(d) => if d.nanos <= time::MAX_DELTA_NANOS {
                at matches Some(t) && t.nanos == last.nanos + d.nanos
            } else {
                at is None
            },
            Schedule::Cron(c) => exists|wall: i64|
                #![trigger call_ensures(LocalZone::wall_secs, (&LocalZone, last.secs() as i64), wall)]
                call_ensures(LocalZone::wall_secs, (&LocalZone, last.secs() as i64), wall)
                    && next_due(c@, &LocalZone, last, wall as int / 60 + 1, at),
        }
    }

    /// The first instant strictly after `last` at which a run is due. Cron is
    /// evaluated in the head's local time zone and converted back.
    pub fn next_after(&self, last: Timestamp) -> (r: Option<Timestamp>)
        requires
            self.room_after(last),
        ensures
            self.next_after_is(last, r),
            self is Every && self->Every_0.nanos == 0 || (r matches Some(t) ==> t.nanos > last.nanos),
    {
        match self {
            Schedule::Every(d) => if d.nanos <= time::MAX_DELTA_NANOS {
                Some(Timestamp { nanos: last.nanos + d.nanos as i128 })
            } else {
                None
            },
            Schedule::Cron(c) => c.next_after(last),
        }
    }
}

/// In universal time a cron expression is due at the first minute strictly
/// after `after` at which it fires, and no earlier; none is due within the
/// window only if none fires in it.
pub proof fn cron_in_utc_is_the_first_minute_after(
    c: CronView,
    after: Timestamp,
    at: Option<Timestamp>,
)
    requires
        room_to_walk(after),
        next_due(c, &UtcZone, after, after.secs() / 60 + 1, at),
    ensures
        ({
            let first = after.secs() / 60 + 1;
            match at {
                Some(t) => {
                    let m = t.secs() / 60;
                    &&& t.nanos == m * 60 * time::NANOS_PER_SEC
                    &&& t.nanos > after.nanos
                    &&& c.fires(m)
                    &&& forall|k: int| k * 60 * time::NANOS_PER_SEC > after.nanos && k < m ==> !#[trigger] c.fires(k)
                },
                None => forall|k: int| first <= k < first + WINDOW_MINUTES ==> !#[trigger] c.fires(k),
            }
        }),
{
    let first = after.secs() / 60 + 1;
    assert forall|k: int|
        first <= k < first + WINDOW_MINUTES && #[trigger] passed_over(&UtcZone, k, after) implies false by {
        let secs = choose|secs: Option<i64>| #[trigger]
            zone_answers(&UtcZone, k, secs) && !comes_after(secs, after);
        assert(secs == Some((k * 60) as i64));
    }
    if let Some(t) = at {
        let (m, secs) = choose|m: int, secs: i64|
            {
                &&& first <= m < first + WINDOW_MINUTES
                &&& #[trigger] c.fires(m)
                &&& #[trigger] zone_answers(&UtcZone, m, Some(secs))
                &&& t.nanos == secs * time::NANOS_PER_SEC
                &&& t.nanos > after.nanos
                &&& none_due(c, &UtcZone, after, first, m)
            };
        assert(secs == (m * 60) as i64);
        assert(secs == m * 60);
        assert(t.secs() / 60 == m);
        assert forall|k: int| k * 60 * time::NANOS_PER_SEC > after.nanos && k < m implies !#[trigger] c.fires(k) by {
            assert(k >= first);
        }
    }
}

/// A date of a kind that an expression allows comes within the window after any minute.
proof fn lemma_fires_within(c: CronView, first: int, m: int, d: int, w: int, of_day: int) -> (k: int)
    requires
        calendar::valid_date(2000, m, d),
        0 <= w < 7,
        0 <= of_day < 1440,
        c.month[m],
        c.day_allowed(d, w),
        c.hour[of_day / 60],
        c.minute[of_day % 60],
    ensures
        first <= k < first + WINDOW_MINUTES,
        c.fires(k),
{
    let y = calendar::every_date_comes_round(first / 1440, m, d, w);
    let day = calendar::day_number(y, m, d);
    let k = day * 1440 + of_day;
    vstd::arithmetic::div_mod::lemma_fundamental_div_mod_converse(k, 1440, day, of_day);
    assert(is_date_of(day, y, m, d));
    k
}

/// In universal time an expression that ever fires always has a next time: the window
/// covers the sparsest.
pub proof fn an_expression_that_fires_has_a_next_time(
    c: CronView,
    minute: int,
    after: Timestamp,
    at: Option<Timestamp>,
)
    requires
        c.fires(minute),
        room_to_walk(after),
        next_due(c, &UtcZone, after, after.secs() / 60 + 1, at),
    ensures
        at is Some,
{
    let day = minute / 1440;
    let (y, m, d) = choose|y: int, m: int, d: int|
        {
            &&& #[trigger] is_date_of(day, y, m, d)
            &&& c.month[m]
            &&& c.day_allowed(d, calendar::weekday(day))
        };
    assert(c.hour[minute % 1440 / 60] && c.minute[minute % 1440 % 60]);
    let k = lemma_fires_within(
        c,
        after.secs() / 60 + 1,
        m,
        d,
        calendar::weekday(day),
        minute % 1440,
    );
    cron_in_utc_is_the_first_minute_after(c, after, at);
}

/// In universal time an expression that allows 29 February, on whatever day of the week,
/// always has a next time, also across a century without one.
pub proof fn the_leap_day_is_always_found(
    c: CronView,
    weekday: int,
    hour: int,
    minute: int,
    after: Timestamp,
    at: Option<Timestamp>,
)
    requires
        0 <= weekday < 7,
        0 <= hour < 24,
        0 <= minute < 60,
        c.month[2],
        c.day_allowed(29, weekday),
        c.hour[hour],
        c.minute[minute],
        room_to_walk(after),
        next_due(c, &UtcZone, after, after.secs() / 60 + 1, at),
    ensures
        at is Some,
{
    let k = lemma_fires_within(
        c,
        after.secs() / 60 + 1,
        2,
        29,
        weekday,
        hour * 60 + minute,
    );
    cron_in_utc_is_the_first_minute_after(c, after, at);
}

/// Two lists of weekday numbers name the same days, where 0 and 7 are one.
pub open spec fn same_weekdays(a: Seq<char>, b: Seq<char>) -> bool {
    let pa = text::pieces(a, ',');
    let pb = text::pieces(b, ',');
    pa.len() == pb.len() && forall|i: int|
        0 <= i < pa.len() ==> (#[trigger] number_in(pa[i], 0, 7) matches Ok(n) && number_in(
            pb[i],
            0,
            7,
        ) == Ok::<nat, Seq<char>>(
            if n == 7 {
                0
            } else {
                n
            },
        ))
}

/// A part that is a plain number allows that number alone.
proof fn lemma_plain_part(part: Seq<char>, min: nat, max: nat)
    requires
        number_in(part, min, max) is Ok,
    ensures
        ({
            let n = number_in(part, min, max)->Ok_0;
            part_of(part, min, max) == Ok::<Stride, Seq<char>>(Stride { lo: n, hi: n, step: 1 })
        }),
        part.len() > 0,
        part[0] != '*',
{
    reveal_strlit("*");
    let d = if part.len() > 0 && part[0] == '+' {
        part.skip(1)
    } else {
        part
    };
    assert forall|i: int| 0 <= i < part.len() implies digits::is_digit(#[trigger] part[i]) || part[i]
        == '+' by {
        if part[0] == '+' && i > 0 {
            assert(d[i - 1] == part[i]);
        } else {
            assert(i == 0 && part[0] == '+' || d[i] == part[i]);
        }
    }
    assert(!part.contains('/'));
    assert(!part.contains('-'));
    assert(part != "*"@) by {
        if part == "*"@ {
            assert(part[0] == '*');
        }
    }
}

/// The first piece of a text begins as the text does.
proof fn lemma_first_piece(s: Seq<char>, c: char)
    requires
        s.len() > 0,
        s[0] != c,
    ensures
        text::pieces(s, c).len() > 0,
        text::pieces(s, c)[0].len() > 0,
        text::pieces(s, c)[0][0] == s[0],
    decreases s.len(),
{
    let t = s.drop_last();
    text::lemma_split_len(t, text::at_char(c));
    if t.len() > 0 {
        lemma_first_piece(t, c);
    } else {
        assert(text::pieces(t, c) =~= seq![Seq::<char>::empty()]);
        assert(s.last() == s[0]);
    }
}

/// Sunday is 0 or 7: an expression that writes 0 for 7 among its weekdays allows the same
/// minutes, and is due at the same times in every zone.
pub proof fn zero_and_seven_are_one_day<Z: Zone>(
    x: Seq<char>,
    y: Seq<char>,
    c: CronView,
    d: CronView,
    zone: &Z,
    after: Timestamp,
    first: int,
    at: Option<Timestamp>,
)
    requires
        cron_error(x) is None,
        cron_error(y) is None,
        cron_means(x, c),
        cron_means(y, d),
        forall|i: int| 0 <= i < 4 ==> #[trigger] text::words(x)[i] == text::words(y)[i],
        same_weekdays(text::words(x)[4], text::words(y)[4]),
    ensures
        d == (CronView { source: d.source, ..c }),
        forall|minute: int| #[trigger] c.fires(minute) == d.fires(minute),
        next_due(c, zone, after, first, at) == next_due(d, zone, after, first, at),
{
    let f = text::words(x)[4];
    let g = text::words(y)[4];
    let pf = text::pieces(f, ',');
    let pg = text::pieces(g, ',');
    assert(text::words(x)[0] == text::words(y)[0]);
    assert(text::words(x)[1] == text::words(y)[1]);
    assert(text::words(x)[2] == text::words(y)[2]);
    assert(text::words(x)[3] == text::words(y)[3]);
    assert forall|v: int| 0 <= v < 7 implies #[trigger] c.dow[v] == d.dow[v] by {
        lemma_weekday_tables(f, g, v);
    }
    assert(c.dow =~= d.dow);
    assert(c.minute =~= d.minute);
    assert(c.hour =~= d.hour);
    assert(c.dom =~= d.dom);
    assert(c.month =~= d.month);
    assert(!unrestricted(f)) by {
        if unrestricted(f) {
            lemma_first_piece(f, ',');
            assert(number_in(pf[0], 0, 7) is Ok);
            lemma_plain_part(pf[0], 0, 7);
        }
    }
    assert(!unrestricted(g)) by {
        if unrestricted(g) {
            lemma_first_piece(g, ',');
            assert(number_in(pf[0], 0, 7) is Ok);
            lemma_plain_part(pg[0], 0, 7);
        }
    }
    assert(d =~= (CronView { source: d.source, ..c }));
    assert forall|minute: int| #[trigger] c.fires(minute) == d.fires(minute) by {
        lemma_fires_alike(c, d, minute);
        lemma_fires_alike(d, c, minute);
    }
    lemma_due_alike(c, d, zone, after, first, at);
    lemma_due_alike(d, c, zone, after, first, at);
}

/// What two lists of the same weekdays allow.
proof fn lemma_weekday_tables(f: Seq<char>, g: Seq<char>, v: int)
    requires
        same_weekdays(f, g),
        0 <= v < 7,
    ensures
        (field_allows(f, 0, 7, v) || (v == 0 && field_allows(f, 0, 7, 7))) == (field_allows(
            g,
            0,
            7,
            v,
        ) || (v == 0 && field_allows(g, 0, 7, 7))),
{
    let pf = text::pieces(f, ',');
    let pg = text::pieces(g, ',');
    assert forall|i: int| 0 <= i < pf.len() implies #[trigger] part_of(pf[i], 0, 7) == Ok::<
        Stride,
        Seq<char>,
    >(
        Stride {
            lo: number_in(pf[i], 0, 7)->Ok_0,
            hi: number_in(pf[i], 0, 7)->Ok_0,
            step: 1,
        },
    ) && number_in(pf[i], 0, 7) is Ok by {
        assert(number_in(pf[i], 0, 7) is Ok);
        lemma_plain_part(pf[i], 0, 7);
    }
    assert forall|i: int| 0 <= i < pg.len() implies #[trigger] part_of(pg[i], 0, 7) == Ok::<
        Stride,
        Seq<char>,
    >(
        Stride {
            lo: number_in(pg[i], 0, 7)->Ok_0,
            hi: number_in(pg[i], 0, 7)->Ok_0,
            step: 1,
        },
    ) && number_in(pg[i], 0, 7) is Ok by {
        assert(number_in(pf[i], 0, 7) is Ok);
        lemma_plain_part(pg[i], 0, 7);
    }
    if field_allows(f, 0, 7, v) {
        let i = choose|i: int|
            0 <= i < pf.len() && (#[trigger] part_of(pf[i], 0, 7) matches Ok(s) && s.meets(v));
        assert(number_in(pf[i], 0, 7)->Ok_0 == v);
        assert(part_of(pg[i], 0, 7)->Ok_0.meets(v));
    }
    if v == 0 && field_allows(f, 0, 7, 7) {
        let i = choose|i: int|
            0 <= i < pf.len() && (#[trigger] part_of(pf[i], 0, 7) matches Ok(s) && s.meets(7));
        assert(number_in(pf[i], 0, 7)->Ok_0 == 7);
        assert(part_of(pg[i], 0, 7)->Ok_0.meets(0));
    }
    if field_allows(g, 0, 7, v) {
        let i = choose|i: int|
            0 <= i < pg.len() && (#[trigger] part_of(pg[i], 0, 7) matches Ok(s) && s.meets(v));
        assert(number_in(pg[i], 0, 7)->Ok_0 == v);
        let n = number_in(pf[i], 0, 7)->Ok_0;
        assert(part_of(pf[i], 0, 7)->Ok_0.meets(n as int));
    }
    if field_allows(g, 0, 7, 7) {
        let i = choose|i: int|
            0 <= i < pg.len() && (#[trigger] part_of(pg[i], 0, 7) matches Ok(s) && s.meets(7));
        assert(number_in(pg[i], 0, 7)->Ok_0 == 7);
        assert(number_in(pf[i], 0, 7) is Ok);
    }
}

/// Expressions that allow the same fire at the same minutes.
proof fn lemma_fires_alike(c: CronView, d: CronView, minute: int)
    requires
        d == (CronView { source: d.source, ..c }),
    ensures
        c.fires(minute) ==> d.fires(minute),
{
    if c.fires(minute) {
        let day = minute / 1440;
        let of_day = minute % 1440;
        let (y, m, n) = choose|y: int, m: int, n: int|
            {
                &&& #[trigger] is_date_of(day, y, m, n)
                &&& c.month[m]
                &&& c.day_allowed(n, calendar::weekday(day))
                &&& c.hour[of_day / 60]
                &&& c.minute[of_day % 60]
            };
        assert(is_date_of(day, y, m, n) && d.month[m] && d.day_allowed(n, calendar::weekday(day)));
    }
}

/// Expressions that fire at the same minutes are due at the same times.
proof fn lemma_due_alike<Z: Zone>(
    c: CronView,
    d: CronView,
    zone: &Z,
    after: Timestamp,
    first: int,
    at: Option<Timestamp>,
)
    requires
        forall|minute: int| #[trigger] c.fires(minute) == d.fires(minute),
    ensures
        next_due(c, zone, after, first, at) ==> next_due(d, zone, after, first, at),
{
    if next_due(c, zone, after, first, at) {
        assert forall|from: int, to: int| #[trigger]
            none_due(c, zone, after, from, to) implies none_due(d, zone, after, from, to) by {
            assert forall|k: int| from <= k < to && #[trigger] d.fires(k) implies passed_over(
                zone,
                k,
                after,
            ) by {
                assert(c.fires(k));
            }
        }
        if let Some(t) = at {
            let (m, secs) = choose|m: int, secs: i64|
                {
                    &&& first <= m < first + WINDOW_MINUTES
                    &&& #[trigger] c.fires(m)
                    &&& #[trigger] zone_answers(zone, m, Some(secs))
                    &&& t.nanos == secs * time::NANOS_PER_SEC
                    &&& t.nanos > after.nanos
                    &&& none_due(c, zone, after, first, m)
                };
            assert(d.fires(m));
            assert(none_due(d, zone, after, first, m));
        }
    }
}

/// The pieces of two texts with a separator between them are those of the one and then
/// those of the other.
proof fn lemma_pieces_joined(a: Seq<char>, b: Seq<char>, c: char)
    ensures
        text::pieces(a + seq![c] + b, c) == text::pieces(a, c) + text::pieces(b, c),
    decreases b.len(),
{
    let whole = a + seq![c] + b;
    let sep = text::at_char(c);
    if b.len() == 0 {
        assert(whole.drop_last() =~= a);
        assert(whole.last() == c);
        assert(text::pieces(b, c) =~= seq![Seq::<char>::empty()]);
        assert(text::pieces(whole, c) =~= text::pieces(a, c) + text::pieces(b, c));
    } else {
        let t = b.drop_last();
        lemma_pieces_joined(a, t, c);
        text::lemma_split_len(t, sep);
        assert(whole.drop_last() =~= a + seq![c] + t);
        assert(whole.last() == b.last());
        assert(text::pieces(whole, c) =~= text::pieces(a, c) + text::pieces(b, c));
    }
}

/// A list is right exactly if both its halves are.
proof fn lemma_errors_joined(p: Seq<Seq<char>>, q: Seq<Seq<char>>, min: nat, max: nat)
    ensures
        parts_error(p + q, min, max) is None <==> parts_error(p, min, max) is None && parts_error(
            q,
            min,
            max,
        ) is None,
    decreases q.len(),
{
    if q.len() == 0 {
        assert(p + q =~= p);
    } else {
        lemma_errors_joined(p, q.drop_last(), min, max);
        assert((p + q).drop_last() =~= p + q.drop_last());
        assert((p + q).last() == q.last());
    }
}

/// A list meets what one of its halves meets.
proof fn lemma_meet_joined(p: Seq<Seq<char>>, q: Seq<Seq<char>>, min: nat, max: nat, v: int)
    ensures
        parts_meet(p + q, min, max, v) == (parts_meet(p, min, max, v) || parts_meet(q, min, max, v)),
    decreases q.len(),
{
    if q.len() == 0 {
        assert(p + q =~= p);
    } else {
        let t = q.drop_last();
        lemma_meet_joined(p, t, min, max, v);
        lemma_parts_meet_push(p + t, q.last(), min, max, v);
        lemma_parts_meet_push(t, q.last(), min, max, v);
        assert((p + t).push(q.last()) =~= p + q);
        assert(t.push(q.last()) =~= q);
    }
}

/// A comma list allows what one of its halves allows, whichever comes first.
pub proof fn a_list_allows_what_either_half_allows(a: Seq<char>, b: Seq<char>, min: nat, max: nat)
    requires
        field_error(a, min, max) is None,
        field_error(b, min, max) is None,
    ensures
        field_error(a + seq![','] + b, min, max) is None,
        field_error(b + seq![','] + a, min, max) is None,
        forall|v: int|
            #![trigger field_allows(a + seq![','] + b, min, max, v)]
            field_allows(a + seq![','] + b, min, max, v) == (field_allows(a, min, max, v)
                || field_allows(b, min, max, v)),
        forall|v: int|
            #![trigger field_allows(b + seq![','] + a, min, max, v)]
            field_allows(b + seq![','] + a, min, max, v) == field_allows(
                a + seq![','] + b,
                min,
                max,
                v,
            ),
{
    let p = text::pieces(a, ',');
    let q = text::pieces(b, ',');
    lemma_pieces_joined(a, b, ',');
    lemma_pieces_joined(b, a, ',');
    lemma_errors_joined(p, q, min, max);
    lemma_errors_joined(q, p, min, max);
    assert forall|v: int|
        #![trigger field_allows(a + seq![','] + b, min, max, v)]
        field_allows(a + seq![','] + b, min, max, v) == (field_allows(a, min, max, v)
            || field_allows(b, min, max, v)) by {
        lemma_meet_joined(p, q, min, max, v);
    }
    assert forall|v: int|
        #![trigger field_allows(b + seq![','] + a, min, max, v)]
        field_allows(b + seq![','] + a, min, max, v) == field_allows(
            a + seq![','] + b,
            min,
            max,
            v,
        ) by {
        lemma_meet_joined(p, q, min, max, v);
        lemma_meet_joined(q, p, min, max, v);
    }
}

/// The bounds of a field, as its error messages name them.
pub open spec fn bounds_text(min: nat, max: nat) -> Seq<char> {
    digits::decimal(min) + " and "@ + digits::decimal(max)
}

/// A number of a field, or what is wrong with it.
pub open spec fn number_in(s: Seq<char>, min: nat, max: nat) -> Result<nat, Seq<char>> {
    match digits::unsigned_value(s, u32::MAX as nat) {
        None => Err(
            text::debug_text(s) + ": expected a number between "@ + bounds_text(min, max),
        ),
        Some(n) => if n < min || n > max {
            Err(text::debug_text(s) + ": must be between "@ + bounds_text(min, max))
        } else {
            Ok(n)
        },
    }
}

/// The numbers from `lo` to `hi` that lie a whole number of steps past `lo`.
pub struct Stride {
    pub lo: nat,
    pub hi: nat,
    pub step: nat,
}

impl Stride {
    /// Whether the stride meets `v`.
    pub open spec fn meets(self, v: int) -> bool {
        self.lo <= v <= self.hi && (v - self.lo) % (self.step as int) == 0
    }
}

/// The step of a part: what stands after its `/`, where it has one.
pub open spec fn step_of(part: Seq<char>) -> Result<Option<nat>, Seq<char>> {
    match text::split_once(part, '/') {
        None => Ok(None),
        Some((_, s)) => match digits::unsigned_value(s, u32::MAX as nat) {
            None => Err(text::debug_text(part) + ": bad step"@),
            Some(n) => if n == 0 {
                Err(text::debug_text(part) + ": step must be at least 1"@)
            } else {
                Ok(Some(n))
            },
        },
    }
}

/// The range of a part: what stands before its `/`, or all of it.
pub open spec fn range_of(part: Seq<char>) -> Seq<char> {
    match text::split_once(part, '/') {
        None => part,
        Some((r, _)) => r,
    }
}

/// The first and last number of a range; a single number with a step runs to
/// the end of the field.
pub open spec fn ends_of(range: Seq<char>, stepped: bool, min: nat, max: nat) -> Result<
    (nat, nat),
    Seq<char>,
> {
    if range == "*"@ {
        Ok((min, max))
    } else {
        match text::split_once(range, '-') {
            Some((a, b)) => match (number_in(a, min, max), number_in(b, min, max)) {
                (Err(e), _) => Err(e),
                (Ok(_), Err(e)) => Err(e),
                (Ok(lo), Ok(hi)) => Ok((lo, hi)),
            },
            None => match number_in(range, min, max) {
                Err(e) => Err(e),
                Ok(n) => Ok(
                    (
                        n,
                        if stepped {
                            max
                        } else {
                            n
                        },
                    ),
                ),
            },
        }
    }
}

/// One part of a field's comma list: `*`, `n`, `a-b`, each with or without a
/// `/step`.
pub open spec fn part_of(part: Seq<char>, min: nat, max: nat) -> Result<Stride, Seq<char>> {
    match step_of(part) {
        Err(e) => Err(e),
        Ok(step) => match ends_of(range_of(part), step is Some, min, max) {
            Err(e) => Err(e),
            Ok((lo, hi)) => if lo > hi {
                Err(text::debug_text(part) + ": range runs backwards"@)
            } else {
                Ok(
                    Stride {
                        lo,
                        hi,
                        step: match step {
                            Some(s) => s,
                            None => 1,
                        },
                    },
                )
            },
        },
    }
}

/// What is wrong with the first part of the list that is wrong.
pub open spec fn parts_error(parts: Seq<Seq<char>>, min: nat, max: nat) -> Option<Seq<char>>
    decreases parts.len(),
{
    if parts.len() == 0 {
        None
    } else {
        match parts_error(parts.drop_last(), min, max) {
            Some(e) => Some(e),
            None => match part_of(parts.last(), min, max) {
                Err(e) => Some(e),
                Ok(_) => None,
            },
        }
    }
}

/// Whether one of the parts meets `v`.
pub open spec fn parts_meet(parts: Seq<Seq<char>>, min: nat, max: nat, v: int) -> bool {
    exists|i: int|
        0 <= i < parts.len() && (#[trigger] part_of(parts[i], min, max) matches Ok(stride)
            && stride.meets(v))
}

/// What is wrong with a field of bounds `min..=max`, if anything is.
pub open spec fn field_error(field: Seq<char>, min: nat, max: nat) -> Option<Seq<char>> {
    if field.len() == 0 {
        Some("field is empty"@)
    } else {
        parts_error(text::pieces(field, ','), min, max)
    }
}

/// Whether a field of bounds `min..=max` allows `v`.
pub open spec fn field_allows(field: Seq<char>, min: nat, max: nat, v: int) -> bool {
    parts_meet(text::pieces(field, ','), min, max, v)
}

/// Whether a field is unrestricted: it begins with `*`.
pub open spec fn unrestricted(field: Seq<char>) -> bool {
    field.len() > 0 && field[0] == '*'
}

fn bounds_message(s: &str, what: &str, min: u32, max: u32) -> (e: String)
    ensures
        e@ == text::debug_text(s@) + what@ + bounds_text(min as nat, max as nat),
{
    let mut e = text::debug_quoted(s);
    e.append(what);
    let lo = digits::print_number(min as u64);
    e.append(lo.as_str());
    e.append(" and ");
    let hi = digits::print_number(max as u64);
    e.append(hi.as_str());
    assert(e@ =~= text::debug_text(s@) + what@ + bounds_text(min as nat, max as nat));
    e
}

/// A number of a field, within its bounds.
pub fn parse_num(s: &str, min: u32, max: u32) -> (r: Result<u32, String>)
    ensures
        match (r, number_in(s@, min as nat, max as nat)) {
            (Ok(n), Ok(m)) => n == m,
            (Err(e), Err(m)) => e@ == m,
            _ => false,
        },
{
    match digits::read_unsigned(s, u32::MAX as u64) {
        None => Err(bounds_message(s, ": expected a number between ", min, max)),
        Some(n) => if n < min as u64 || n > max as u64 {
            Err(bounds_message(s, ": must be between ", min, max))
        } else {
            Ok(n as u32)
        },
    }
}

fn part_message(part: &str, what: &str) -> (e: String)
    ensures
        e@ == text::debug_text(part@) + what@,
{
    let mut e = text::debug_quoted(part);
    e.append(what);
    e
}

/// The numbers of one part: first, last and step.
fn parse_part(part: &str, min: u32, max: u32) -> (r: Result<(u32, u32, u32), String>)
    ensures
        match (r, part_of(part@, min as nat, max as nat)) {
            (Ok((lo, hi, step)), Ok(stride)) => {
                &&& lo == stride.lo
                &&& hi == stride.hi
                &&& step == stride.step
            },
            (Err(e), Err(m)) => e@ == m,
            _ => false,
        },
{
    let (range, step) = match text::cut_once(part, '/') {
        Some((r, s)) => match digits::read_unsigned(s.as_str(), u32::MAX as u64) {
            None => {
                return Err(part_message(part, ": bad step"));
            },
            Some(n) => {
                if n == 0 {
                    return Err(part_message(part, ": step must be at least 1"));
                }
                (r, Some(n as u32))
            },
        },
        None => (part.to_owned(), None),
    };
    let ends = if text::same_text(range.as_str(), "*") {
        (min, max)
    } else {
        match text::cut_once(range.as_str(), '-') {
            Some((a, b)) => {
                let lo = match parse_num(a.as_str(), min, max) {
                    Ok(n) => n,
                    Err(e) => {
                        return Err(e);
                    },
                };
                match parse_num(b.as_str(), min, max) {
                    Ok(n) => (lo, n),
                    Err(e) => {
                        return Err(e);
                    },
                }
            },
            None => match parse_num(range.as_str(), min, max) {
                Ok(n) => (
                    n,
                    if step.is_some() {
                        max
                    } else {
                        n
                    },
                ),
                Err(e) => {
                    return Err(e);
                },
            },
        }
    };
    if ends.0 > ends.1 {
        return Err(part_message(part, ": range runs backwards"));
    }
    let by: u32 = match step {
        Some(s) => s,
        None => 1,
    };
    Ok((ends.0, ends.1, by))
}

/// One field into a membership table over `0..=max`, plus whether it was
/// unrestricted (`*` or `*/n`), which the day-matching rule needs.
pub fn parse_field(field: &str, min: u32, max: u32) -> (r: Result<(Vec<bool>, bool), String>)
    requires
        max < u32::MAX,
    ensures
        match (r, field_error(field@, min as nat, max as nat)) {
            (Ok((set, any)), None) => {
                &&& set@.len() == max + 1
                &&& forall|v: int|
                    0 <= v <= max ==> #[trigger] set@[v] == field_allows(
                        field@,
                        min as nat,
                        max as nat,
                        v,
                    )
                &&& any == unrestricted(field@)
            },
            (Err(e), Some(m)) => e@ == m,
            _ => false,
        },
{
    if field.is_empty() {
        return Err("field is empty".to_owned());
    }
    let mut set: Vec<bool> = Vec::new();
    let mut n: u32 = 0;
    while n <= max
        invariant
            n <= max + 1,
            max < u32::MAX,
            set@.len() == n,
            forall|v: int| 0 <= v < n ==> !#[trigger] set@[v],
        decreases max + 1 - n,
    {
        set.push(false);
        n = n + 1;
    }
    let chars = text::chars_of(field);
    let any = chars[0] == '*';
    let parts = text::split_at_char(field, ',');
    let ghost all = text::texts(parts@);
    let mut i: usize = 0;
    while i < parts.len()
        invariant
            i <= parts.len(),
            max < u32::MAX,
            all == text::texts(parts@),
            set@.len() == max + 1,
            parts_error(all.take(i as int), min as nat, max as nat) is None,
            forall|v: int|
                0 <= v <= max ==> #[trigger] set@[v] == parts_meet(
                    all.take(i as int),
                    min as nat,
                    max as nat,
                    v,
                ),
            all == text::pieces(field@, ','),
            field@.len() > 0,
        decreases parts.len() - i,
    {
        proof {
            assert(all.take(i + 1).drop_last() =~= all.take(i as int));
            assert(all.take(i + 1).last() == parts@[i as int]@);
        }
        match parse_part(parts[i].as_str(), min, max) {
            Err(e) => {
                proof {
                    lemma_first_error(all, i + 1, min as nat, max as nat);
                }
                return Err(e);
            },
            Ok((lo, hi, step)) => {
                let ghost stride = Stride { lo: lo as nat, hi: hi as nat, step: step as nat };
                let ghost before = set@;
                proof {
                    lemma_part_within(parts@[i as int]@, min as nat, max as nat);
                }
                mark(&mut set, lo, hi, step);
                proof {
                    assert(all.take(i + 1)[i as int] == parts@[i as int]@);
                    assert forall|v: int| 0 <= v <= max implies #[trigger] set@[v] == parts_meet(
                        all.take(i + 1),
                        min as nat,
                        max as nat,
                        v,
                    ) by {
                        lemma_parts_meet_push(all.take(i as int), parts@[i as int]@, min as nat, max as nat, v);
                        assert(all.take(i as int).push(parts@[i as int]@) =~= all.take(i + 1));
                        assert(before[v] == parts_meet(all.take(i as int), min as nat, max as nat, v));
                    }
                }
            },
        }
        i = i + 1;
    }
    proof {
        assert(all.take(parts@.len() as int) =~= all);
    }
    Ok((set, any))
}

/// The first wrong part is what is wrong with the whole list.
proof fn lemma_first_error(parts: Seq<Seq<char>>, i: int, min: nat, max: nat)
    requires
        0 <= i <= parts.len(),
        parts_error(parts.take(i), min, max) is Some,
    ensures
        parts_error(parts, min, max) == parts_error(parts.take(i), min, max),
    decreases parts.len() - i,
{
    if i < parts.len() {
        assert(parts.take(i + 1).drop_last() =~= parts.take(i));
        lemma_first_error(parts, i + 1, min, max);
    } else {
        assert(parts.take(i) =~= parts);
    }
}

/// A part that is right stays within the field's bounds.
proof fn lemma_part_within(part: Seq<char>, min: nat, max: nat)
    ensures
        part_of(part, min, max) matches Ok(s) ==> s.lo <= s.hi <= max && s.step > 0,
{
}

/// One more part adds what it meets.
proof fn lemma_parts_meet_push(parts: Seq<Seq<char>>, part: Seq<char>, min: nat, max: nat, v: int)
    ensures
        parts_meet(parts.push(part), min, max, v) == (parts_meet(parts, min, max, v) || (part_of(
            part,
            min,
            max,
        ) matches Ok(s) && s.meets(v))),
{
    let more = parts.push(part);
    if parts_meet(parts, min, max, v) {
        let i = choose|i: int|
            0 <= i < parts.len() && (#[trigger] part_of(parts[i], min, max) matches Ok(stride)
                && stride.meets(v));
        assert(more[i] == parts[i]);
        assert(parts_meet(more, min, max, v));
    }
    if part_of(part, min, max) matches Ok(s) && s.meets(v) {
        assert(more[parts.len() as int] == part);
        assert(parts_meet(more, min, max, v));
    }
    if parts_meet(more, min, max, v) {
        let i = choose|i: int|
            0 <= i < more.len() && (#[trigger] part_of(more[i], min, max) matches Ok(stride)
                && stride.meets(v));
        if i < parts.len() {
            assert(more[i] == parts[i]);
        }
    }
}

/// Set every entry the stride meets.
fn mark(set: &mut Vec<bool>, lo: u32, hi: u32, step: u32)
    requires
        step > 0,
        lo <= hi,
        hi < old(set)@.len(),
    ensures
        final(set)@.len() == old(set)@.len(),
        forall|v: int|
            0 <= v < old(set)@.len() ==> #[trigger] final(set)@[v] == (old(set)@[v] || (Stride {
                lo: lo as nat,
                hi: hi as nat,
                step: step as nat,
            }).meets(v)),
{
    let ghost before = set@;
    let ghost stride = Stride { lo: lo as nat, hi: hi as nat, step: step as nat };
    let mut v: u64 = lo as u64;
    assert(0int % (step as int) == 0);
    while v <= hi as u64
        invariant
            step > 0,
            lo <= v,
            hi < set@.len(),
            set@.len() == before.len(),
            v <= hi + step,
            (v - lo) % (step as int) == 0,
            stride == (Stride { lo: lo as nat, hi: hi as nat, step: step as nat }),
            forall|k: int|
                0 <= k < before.len() ==> #[trigger] set@[k] == (before[k] || (k < v && stride.meets(
                    k,
                ))),
        decreases hi + step - v,
    {
        set.set(v as usize, true);
        proof {
            let q = step as int;
            let a = v - lo;
            assert forall|k: int| v < k < v + q implies !stride.meets(k) by {
                let j = k - v;
                assert((a + j) % q == j) by {
                    vstd::arithmetic::div_mod::lemma_mod_adds(a, j, q);
                    vstd::arithmetic::div_mod::lemma_small_mod(j as nat, q as nat);
                    vstd::arithmetic::div_mod::lemma_mod_bound(a + j, q);
                }
                assert(k - lo == a + j);
            }
            assert((a + q) % q == 0) by {
                vstd::arithmetic::div_mod::lemma_mod_add_multiples_vanish(a, q);
            }
            assert(stride.meets(v as int));
        }
        v = v + step as u64;
    }
}

/// `minute hour day-of-month month day-of-week`. Each field: `*`, `n`, `a-b`,
/// `a-b/s`, `*/s`, or a comma list of those. Sunday is 0 or 7. Names are not
/// accepted. Day matching follows Vixie cron: if both day fields are restricted
/// a day matches when either does; if one begins with `*`, a day has to match both.
#[derive(Debug, PartialEq, Eq)]
pub struct CronExpr {
    source: String,
    minute: Vec<bool>,
    hour: Vec<bool>,
    dom: Vec<bool>,
    month: Vec<bool>,
    dow: Vec<bool>,
    dom_any: bool,
    dow_any: bool,
}

/// What a cron expression allows: for each field, whether each number is in it.
#[verifier::ext_equal]
pub struct CronView {
    pub source: Seq<char>,
    pub minute: Seq<bool>,
    pub hour: Seq<bool>,
    pub dom: Seq<bool>,
    pub month: Seq<bool>,
    pub dow: Seq<bool>,
    pub dom_any: bool,
    pub dow_any: bool,
}

fn copy_table(v: &Vec<bool>) -> (r: Vec<bool>)
    ensures
        r@ == v@,
{
    let r = v.clone();
    assert(r@ =~= v@);
    r
}

impl Clone for CronExpr {
    fn clone(&self) -> (r: CronExpr)
        ensures
            r@ == self@,
    {
        proof {
            use_type_invariant(self);
        }
        CronExpr {
            source: self.source.clone(),
            minute: copy_table(&self.minute),
            hour: copy_table(&self.hour),
            dom: copy_table(&self.dom),
            month: copy_table(&self.month),
            dow: copy_table(&self.dow),
            dom_any: self.dom_any,
            dow_any: self.dow_any,
        }
    }
}

impl View for CronExpr {
    type V = CronView;

    closed spec fn view(&self) -> CronView {
        CronView {
            source: self.source@,
            minute: self.minute@,
            hour: self.hour@,
            dom: self.dom@,
            month: self.month@,
            dow: self.dow@,
            dom_any: self.dom_any,
            dow_any: self.dow_any,
        }
    }
}

impl CronView {
    /// Whether a day of the month that is this day of the week may fire: with a day
    /// field that begins with `*` both have to match, else either.
    pub open spec fn day_allowed(self, d: int, weekday: int) -> bool {
        if self.dom_any || self.dow_any {
            self.dom[d] && self.dow[weekday]
        } else {
            self.dom[d] || self.dow[weekday]
        }
    }

    /// Whether the expression fires at a wall-clock minute, counted from
    /// 1970-01-01T00:00 on that clock.
    pub open spec fn fires(self, minute: int) -> bool {
        let day = minute / 1440;
        let of_day = minute % 1440;
        exists|y: int, m: int, d: int|
            {
                &&& #[trigger] is_date_of(day, y, m, d)
                &&& self.month[m]
                &&& self.day_allowed(d, calendar::weekday(day))
                &&& self.hour[of_day / 60]
                &&& self.minute[of_day % 60]
            }
    }
}

/// `y-m-d` is the date of the day.
pub open spec fn is_date_of(day: int, y: int, m: int, d: int) -> bool {
    calendar::valid_date(y, m, d) && calendar::day_number(y, m, d) == day
}

/// The fields of a cron expression: what its errors call each, and its bounds.
pub open spec fn cron_field(i: int) -> (Seq<char>, nat, nat) {
    if i == 0 {
        ("cron minute "@, 0, 59)
    } else if i == 1 {
        ("cron hour "@, 0, 23)
    } else if i == 2 {
        ("cron day "@, 1, 31)
    } else if i == 3 {
        ("cron month "@, 1, 12)
    } else {
        ("cron weekday "@, 0, 7)
    }
}

/// What is wrong with one of the five fields, under its name.
pub open spec fn named_error(fields: Seq<Seq<char>>, i: int) -> Option<Seq<char>> {
    let f = cron_field(i);
    match field_error(fields[i], f.1, f.2) {
        Some(e) => Some(f.0 + e),
        None => None,
    }
}

/// What is wrong with a cron expression, if anything is: the number of its
/// fields, or the first field that is wrong.
pub open spec fn cron_error(expr: Seq<char>) -> Option<Seq<char>> {
    let fields = text::words(expr);
    if fields.len() != 5 {
        Some(
            "cron "@ + text::debug_text(expr)
                + ": expected 5 fields (minute hour day month weekday), got "@ + digits::decimal(
                fields.len(),
            ),
        )
    } else if named_error(fields, 0) is Some {
        named_error(fields, 0)
    } else if named_error(fields, 1) is Some {
        named_error(fields, 1)
    } else if named_error(fields, 2) is Some {
        named_error(fields, 2)
    } else if named_error(fields, 3) is Some {
        named_error(fields, 3)
    } else {
        named_error(fields, 4)
    }
}

/// The table lists, from 0 on, which numbers up to `last` the field allows.
pub open spec fn tabulates(table: Seq<bool>, field: Seq<char>, min: nat, max: nat) -> bool {
    table.len() == max + 1 && forall|v: int|
        0 <= v <= max ==> #[trigger] table[v] == field_allows(field, min, max, v)
}

/// The weekday table: like the field over `0..=7`, with 7 read as Sunday.
pub open spec fn tabulates_weekdays(table: Seq<bool>, field: Seq<char>) -> bool {
    table.len() == 7 && forall|v: int|
        0 <= v < 7 ==> #[trigger] table[v] == (field_allows(field, 0, 7, v) || (v == 0
            && field_allows(field, 0, 7, 7)))
}

/// What a cron expression without an error means.
pub open spec fn cron_means(expr: Seq<char>, c: CronView) -> bool {
    let fields = text::words(expr);
    &&& c.source == text::joined(fields, " "@)
    &&& tabulates(c.minute, fields[0], 0, 59)
    &&& tabulates(c.hour, fields[1], 0, 23)
    &&& tabulates(c.dom, fields[2], 1, 31)
    &&& tabulates(c.month, fields[3], 1, 12)
    &&& tabulates_weekdays(c.dow, fields[4])
    &&& c.dom_any == unrestricted(fields[2])
    &&& c.dow_any == unrestricted(fields[4])
}

/// Parse a field of the expression under the name its errors carry.
fn named_field(field: &str, name: &str, min: u32, max: u32) -> (r: Result<(Vec<bool>, bool), String>)
    requires
        max < 100,
    ensures
        match (r, field_error(field@, min as nat, max as nat)) {
            (Ok((set, any)), None) => tabulates(set@, field@, min as nat, max as nat) && any
                == unrestricted(field@),
            (Err(e), Some(m)) => e@ == name@ + m,
            _ => false,
        },
{
    match parse_field(field, min, max) {
        Ok(r) => Ok(r),
        Err(e) => {
            let mut m = name.to_owned();
            m.append(e.as_str());
            Err(m)
        },
    }
}

impl CronExpr {
    #[verifier::type_invariant]
    spec fn tables_are_whole(self) -> bool {
        &&& self.minute@.len() == 60
        &&& self.hour@.len() == 24
        &&& self.dom@.len() == 32
        &&& self.month@.len() == 13
        &&& self.dow@.len() == 7
    }

    /// Read a cron expression.
    pub fn parse(text: &str) -> (r: Result<CronExpr, String>)
        ensures
            match (r, cron_error(text@)) {
                (Ok(c), None) => cron_means(text@, c@),
                (Err(e), Some(m)) => e@ == m,
                _ => false,
            },
    {
        let fields = text::split_words(text);
        if fields.len() != 5 {
            let mut e = "cron ".to_owned();
            let q = text::debug_quoted(text);
            e.append(q.as_str());
            e.append(": expected 5 fields (minute hour day month weekday), got ");
            let n = digits::print_number(fields.len() as u64);
            e.append(n.as_str());
            assert(text::texts(fields@).len() == fields@.len());
            return Err(e);
        }
        let ghost all = text::texts(fields@);
        assert(all[0] == fields@[0]@ && all[1] == fields@[1]@ && all[2] == fields@[2]@ && all[3]
            == fields@[3]@ && all[4] == fields@[4]@);
        let (minute, _) = match named_field(fields[0].as_str(), "cron minute ", 0, 59) {
            Ok(f) => f,
            Err(e) => {
                return Err(e);
            },
        };
        let (hour, _) = match named_field(fields[1].as_str(), "cron hour ", 0, 23) {
            Ok(f) => f,
            Err(e) => {
                return Err(e);
            },
        };
        let (dom, dom_any) = match named_field(fields[2].as_str(), "cron day ", 1, 31) {
            Ok(f) => f,
            Err(e) => {
                return Err(e);
            },
        };
        let (month, _) = match named_field(fields[3].as_str(), "cron month ", 1, 12) {
            Ok(f) => f,
            Err(e) => {
                return Err(e);
            },
        };
        let (mut dow, dow_any) = match named_field(fields[4].as_str(), "cron weekday ", 0, 7) {
            Ok(f) => f,
            Err(e) => {
                return Err(e);
            },
        };
        let ghost eight = dow@;
        if dow[7] {
            dow.set(0, true);
        }
        dow.truncate(7);
        proof {
            assert(eight[7] == field_allows(all[4], 0, 7, 7));
            assert forall|v: int| 0 <= v < 7 implies #[trigger] dow@[v] == (field_allows(
                all[4],
                0,
                7,
                v,
            ) || (v == 0 && field_allows(all[4], 0, 7, 7))) by {
                assert(eight[v] == field_allows(all[4], 0, 7, v));
            }
        }
        let source = text::join(&fields, " ");
        Ok(CronExpr { source, minute, hour, dom, month, dow, dom_any, dow_any })
    }
}

/// How far ahead the walk looks, in minutes. Forty-one years cover the sparsest
/// 5-field expression (29 February on one day of the week).
pub const WINDOW_MINUTES: i64 = 21_608_640;

/// The zone may answer `secs` when asked for the first point in time at which
/// its clocks show the minute.
pub open spec fn zone_answers<Z: Zone>(zone: &Z, minute: int, secs: Option<i64>) -> bool {
    call_ensures(Z::earliest, (zone, (minute * 60) as i64), secs)
}

/// A point in time, in whole seconds, that lies after `after`.
pub open spec fn comes_after(secs: Option<i64>, after: Timestamp) -> bool {
    secs matches Some(s) && s * time::NANOS_PER_SEC > after.nanos
}

/// The minute is passed over: the zone's clocks skip it, or they first showed
/// it no later than `after`.
pub open spec fn passed_over<Z: Zone>(zone: &Z, minute: int, after: Timestamp) -> bool {
    exists|secs: Option<i64>| #[trigger]
        zone_answers(zone, minute, secs) && !comes_after(secs, after)
}

/// No minute from `from` up to `to` is one to run at.
pub open spec fn none_due<Z: Zone>(
    c: CronView,
    zone: &Z,
    after: Timestamp,
    from: int,
    to: int,
) -> bool {
    forall|k: int| from <= k < to && #[trigger] c.fires(k) ==> passed_over(zone, k, after)
}

/// `at` is when the expression is next due after `after`, `first` being the
/// first whole minute on the zone's clocks: the first minute that fires and
/// that the clocks first show after `after`, within the window.
pub open spec fn next_due<Z: Zone>(
    c: CronView,
    zone: &Z,
    after: Timestamp,
    first: int,
    at: Option<Timestamp>,
) -> bool {
    match at {
        Some(t) => exists|m: int, secs: i64|
            {
                &&& first <= m < first + WINDOW_MINUTES
                &&& #[trigger] c.fires(m)
                &&& #[trigger] zone_answers(zone, m, Some(secs))
                &&& t.nanos == secs * time::NANOS_PER_SEC
                &&& t.nanos > after.nanos
                &&& none_due(c, zone, after, first, m)
            },
        None => none_due(c, zone, after, first, first + WINDOW_MINUTES),
    }
}

/// Whether the walk from a point in time stays within the calendar.
pub open spec fn room_to_walk(after: Timestamp) -> bool {
    (calendar::MIN_DAY + 4) * 86_400 <= after.secs() < (calendar::MAX_DAY - 15_046) * 86_400
}

/// A day whose month does not fire has no minute that does; nor has any other
/// day of that month.
proof fn lemma_skip_month(c: CronView, day: int, y: int, m: int, d: int, from: int, to: int)
    requires
        is_date_of(day, y, m, d),
        !c.month[m],
        from / 1440 == day,
        to == calendar::day_number(calendar::next_month(y, m).0, calendar::next_month(y, m).1, 1)
            * 1440,
    ensures
        from < to,
        to <= from + 31 * 1440,
        forall|k: int| from <= k < to ==> !#[trigger] c.fires(k),
{
    calendar::next_month_follows(y, m);
    assert forall|k: int| from <= k < to implies !#[trigger] c.fires(k) by {
        let kday = k / 1440;
        if c.fires(k) {
            let (y2, m2, d2) = choose|y2: int, m2: int, d2: int|
                {
                    &&& #[trigger] is_date_of(kday, y2, m2, d2)
                    &&& c.month[m2]
                };
            let d3 = kday - calendar::day_number(y, m, 1) + 1;
            assert(calendar::valid_date(y, m, d3));
            assert(calendar::day_number(y, m, d3) == kday);
            calendar::dates_are_unique(y, m, d3, y2, m2, d2);
        }
    }
}

/// A day that does not fire has no minute that does.
proof fn lemma_skip_day(c: CronView, day: int, y: int, m: int, d: int, from: int, to: int)
    requires
        is_date_of(day, y, m, d),
        !c.day_allowed(d, calendar::weekday(day)),
        from / 1440 == day,
        to == (day + 1) * 1440,
    ensures
        from < to,
        to <= from + 1440,
        forall|k: int| from <= k < to ==> !#[trigger] c.fires(k),
{
    assert forall|k: int| from <= k < to implies !#[trigger] c.fires(k) by {
        assert(k / 1440 == day);
        if c.fires(k) {
            let (y2, m2, d2) = choose|y2: int, m2: int, d2: int|
                {
                    &&& #[trigger] is_date_of(day, y2, m2, d2)
                    &&& c.day_allowed(d2, calendar::weekday(day))
                };
            calendar::dates_are_unique(y, m, d, y2, m2, d2);
        }
    }
}

/// The hour of the day is the hour since 1970, counted modulo the day.
proof fn lemma_hour_of(x: int)
    ensures
        x % 1440 / 60 == (x / 60) % 24,
{
    let h = x / 60;
    let r = x % 60;
    let of_day = 60 * (h % 24) + r;
    assert(x == 1440 * (h / 24) + of_day);
    vstd::arithmetic::div_mod::lemma_fundamental_div_mod_converse(x, 1440, h / 24, of_day);
    vstd::arithmetic::div_mod::lemma_fundamental_div_mod_converse(of_day, 60, h % 24, r);
}

/// An hour that does not fire has no minute that does.
proof fn lemma_skip_hour(c: CronView, from: int, to: int)
    requires
        !c.hour[from % 1440 / 60],
        to == from - from % 60 + 60,
    ensures
        from < to,
        to <= from + 60,
        forall|k: int| from <= k < to ==> !#[trigger] c.fires(k),
{
    assert forall|k: int| from <= k < to implies !#[trigger] c.fires(k) by {
        assert(k / 60 == from / 60);
        lemma_hour_of(k);
        lemma_hour_of(from);
    }
}

impl CronExpr {
    /// When the expression is next due in the machine's own time zone.
    pub fn next_after(&self, after: Timestamp) -> (r: Option<Timestamp>)
        requires
            room_to_walk(after),
        ensures
            exists|wall: i64|
                #![trigger call_ensures(LocalZone::wall_secs, (&LocalZone, after.secs() as i64), wall)]
                call_ensures(LocalZone::wall_secs, (&LocalZone, after.secs() as i64), wall)
                    && next_due(self@, &LocalZone, after, wall as int / 60 + 1, r),
            r matches Some(t) ==> t.nanos > after.nanos,
    {
        self.next_after_in(&LocalZone, after)
    }

    /// Walk forward in the zone's wall-clock time, one unit at a time, skipping
    /// whole months, days and hours that cannot match, so a once-a-year
    /// expression is found in a few thousand steps rather than half a million.
    /// A wall-clock minute that does not exist (spring forward) is skipped; an
    /// ambiguous one (fall back) fires at its first occurrence, and not at all
    /// once that has passed.
    pub fn next_after_in<Z: Zone>(&self, zone: &Z, after: Timestamp) -> (r: Option<Timestamp>)
        requires
            room_to_walk(after),
        ensures
            exists|wall: i64|
                #![trigger call_ensures(Z::wall_secs, (zone, after.secs() as i64), wall)]
                call_ensures(Z::wall_secs, (zone, after.secs() as i64), wall) && next_due(
                    self@,
                    zone,
                    after,
                    wall as int / 60 + 1,
                    r,
                ),
            r matches Some(t) ==> t.nanos > after.nanos,
    {
        let wall = zone.wall_secs(after.floor_secs());
        let first: i64 = time::floor_div(wall as i128, 60) as i64 + 1;
        let r = self.walk(zone, after, first);
        assert(call_ensures(Z::wall_secs, (zone, after.secs() as i64), wall));
        r
    }

    #[verifier::rlimit(60)]
    #[verifier::spinoff_prover]
    fn walk<Z: Zone>(&self, zone: &Z, after: Timestamp, first: i64) -> (r: Option<Timestamp>)
        requires
            room_to_walk(after),
            -2 * 1440 < first - after.secs() / 60 < 2 * 1440,
        ensures
            next_due(self@, zone, after, first as int, r),
            r matches Some(t) ==> t.nanos > after.nanos,
    {
        proof {
            use_type_invariant(self);
        }
        let limit: i64 = first + WINDOW_MINUTES;
        let mut t: i64 = first;
        while t < limit
            invariant
                room_to_walk(after),
                -2 * 1440 < first - after.secs() / 60 < 2 * 1440,
                limit == first + WINDOW_MINUTES,
                first <= t < limit + 31 * 1440,
                self.tables_are_whole(),
                none_due(self@, zone, after, first as int, t as int),
            decreases limit + 31 * 1440 - t,
        {
            let day: i32 = time::floor_div(t as i128, 1440) as i32;
            let of_day: i64 = t - day as i64 * 1440;
            assert(of_day == t as int % 1440);
            let (y, m, d) = calendar::date_of(day);
            assert(is_date_of(day as int, y as int, m as int, d as int));
            if !self.month[m as usize] {
                proof {
                    calendar::next_month_follows(y as int, m as int);
                    calendar::lemma_years_in_calendar(y as int, m as int, d as int);
                }
                let next = start_of_next_month(y, m);
                let to: i64 = next as i64 * 1440;
                proof {
                    lemma_skip_month(self@, day as int, y as int, m as int, d as int, t as int, to as int);
                }
                t = to;
                continue ;
            }
            if !self.day_matches(day, d) {
                let to: i64 = (day as i64 + 1) * 1440;
                proof {
                    lemma_skip_day(self@, day as int, y as int, m as int, d as int, t as int, to as int);
                }
                t = to;
                continue ;
            }
            let hour: i64 = of_day / 60;
            let minute: i64 = of_day % 60;
            if !self.hour[hour as usize] {
                proof {
                    lemma_skip_hour(self@, t as int, t - minute + 60);
                }
                t = t - minute + 60;
                continue ;
            }
            if !self.minute[minute as usize] {
                assert(!self@.fires(t as int));
                t = t + 1;
                continue ;
            }
            assert(self@.fires(t as int));
            let secs = zone.earliest(t * 60);
            assert(zone_answers(zone, t as int, secs));
            if let Some(s) = secs {
                let at = Timestamp::at_secs(s);
                if at.nanos > after.nanos {
                    return Some(at);
                }
            }
            assert(!comes_after(secs, after));
            assert(passed_over(zone, t as int, after));
            t = t + 1;
        }
        None
    }

    fn day_matches(&self, day: i32, d: u32) -> (b: bool)
        requires
            calendar::in_calendar(day as int),
            1 <= d <= 31,
        ensures
            b == self@.day_allowed(d as int, calendar::weekday(day as int)),
    {
        proof {
            use_type_invariant(self);
        }
        let dom = self.dom[d as usize];
        let dow = self.dow[calendar::weekday_of(day) as usize];
        if self.dom_any || self.dow_any {
            dom && dow
        } else {
            dom || dow
        }
    }
}

/// The day on which the month after `y-m` begins.
fn start_of_next_month(y: i32, m: u32) -> (r: i32)
    requires
        1 <= m <= 12,
        calendar::in_calendar(
            calendar::day_number(
                calendar::next_month(y as int, m as int).0,
                calendar::next_month(y as int, m as int).1,
                1,
            ),
        ),
        y < 300_000,
    ensures
        r == calendar::day_number(
            calendar::next_month(y as int, m as int).0,
            calendar::next_month(y as int, m as int).1,
            1,
        ),
{
    if m == 12 {
        calendar::day_of(y + 1, 1, 1)
    } else {
        calendar::day_of(y, m + 1, 1)
    }
}

// ---------------------------------------------------------------------------
// What the parts of a field stand for

/// A text without the separator is its only piece.
proof fn lemma_one_piece(s: Seq<char>, c: char)
    requires
        !s.contains(c),
    ensures
        text::pieces(s, c) == seq![s],
{
    let none = Seq::<char>::empty();
    text::lemma_split_goes_on(none, s, text::at_char(c));
    assert(none + s =~= s);
    assert(text::pieces(none, c) =~= seq![none]);
    assert(text::pieces(s, c) =~= seq![s]);
}

/// Where a text is cut whose first part does not hold the character.
proof fn lemma_cut_once(a: Seq<char>, b: Seq<char>, c: char)
    requires
        !a.contains(c),
    ensures
        text::split_once(a + seq![c] + b, c) == Some((a, b)),
{
    let s = a + seq![c] + b;
    text::lemma_first_of(s, c);
    assert(s[a.len() as int] == c);
    assert(s.contains(c));
    let n = text::first_of(s, c);
    if n < a.len() {
        assert(a[n] == s[n]);
        assert(a.contains(c));
    }
    assert(n == a.len());
    assert(s.take(n) =~= a);
    assert(s.skip(n + 1) =~= b);
}

/// A number in decimal is that number to a field whose bounds hold it, and holds none of
/// the signs of a field.
proof fn lemma_decimal_in(n: nat, min: nat, max: nat)
    requires
        n <= u32::MAX,
    ensures
        digits::unsigned_value(digits::decimal(n), u32::MAX as nat) == Some(n),
        min <= n <= max ==> number_in(digits::decimal(n), min, max) == Ok::<nat, Seq<char>>(n),
        !(min <= n <= max) ==> number_in(digits::decimal(n), min, max) is Err,
        digits::decimal(n).len() > 0,
        forall|c: char| #[trigger] digits::decimal(n).contains(c) ==> digits::is_digit(c),
{
    digits::decimal_reads_back(n);
    let d = digits::decimal(n);
    assert(digits::is_digit(d[0]));
    assert forall|c: char| #[trigger] d.contains(c) implies digits::is_digit(c) by {
        let i = choose|i: int| 0 <= i < d.len() && d[i] == c;
        assert(digits::is_digit(d[i]));
    }
}

/// What holds of a field of one part.
proof fn lemma_one_part(field: Seq<char>, min: nat, max: nat)
    requires
        field.len() > 0,
        !field.contains(','),
    ensures
        field_error(field, min, max) == (match part_of(field, min, max) {
            Err(e) => Some(e),
            Ok(_) => None,
        }),
        forall|v: int| #[trigger]
            field_allows(field, min, max, v) == (part_of(field, min, max) matches Ok(s) && s.meets(v)),
{
    lemma_one_piece(field, ',');
    let p = text::pieces(field, ',');
    assert(p.drop_last() =~= Seq::<Seq<char>>::empty());
    assert(p.last() == field);
    assert(parts_error(p.drop_last(), min, max) is None);
    assert forall|v: int| #[trigger]
        field_allows(field, min, max, v) == (part_of(field, min, max) matches Ok(s) && s.meets(v)) by {
        if part_of(field, min, max) matches Ok(s) && s.meets(v) {
            assert(part_of(p[0], min, max) is Ok);
        }
    }
}

/// `a-b`.
pub open spec fn range_text(a: nat, b: nat) -> Seq<char> {
    digits::decimal(a) + seq!['-'] + digits::decimal(b)
}

/// The range before a step, and the step.
pub open spec fn stepped_text(range: Seq<char>, step: nat) -> Seq<char> {
    range + seq!['/'] + digits::decimal(step)
}

/// What a range holds.
proof fn lemma_range_text(a: nat, b: nat, min: nat, max: nat)
    requires
        a <= u32::MAX,
        b <= u32::MAX,
    ensures
        range_text(a, b).len() > 0,
        range_text(a, b) != "*"@,
        !range_text(a, b).contains(','),
        !range_text(a, b).contains('/'),
        text::split_once(range_text(a, b), '-') == Some((digits::decimal(a), digits::decimal(b))),
{
    reveal_strlit("*");
    lemma_decimal_in(a, min, max);
    lemma_decimal_in(b, min, max);
    let r = range_text(a, b);
    let da = digits::decimal(a);
    let db = digits::decimal(b);
    assert(da.contains(da[0]));
    assert(r[0] == da[0]);
    assert forall|i: int| 0 <= i < r.len() implies r[i] == '-' || digits::is_digit(r[i]) by {
        if i < da.len() {
            assert(da.contains(da[i]) && r[i] == da[i]);
        } else if i > da.len() {
            assert(db.contains(db[i - da.len() - 1]) && r[i] == db[i - da.len() - 1]);
        }
    }
    assert(!da.contains('-'));
    lemma_cut_once(da, db, '-');
}

/// What a text with a step behind it comes to.
proof fn lemma_stepped(range: Seq<char>, step: nat, min: nat, max: nat)
    requires
        !range.contains('/'),
        !range.contains(','),
        step <= u32::MAX,
    ensures
        stepped_text(range, step).len() > 0,
        !stepped_text(range, step).contains(','),
        range_of(stepped_text(range, step)) == range,
        step > 0 ==> step_of(stepped_text(range, step)) == Ok::<Option<nat>, Seq<char>>(Some(step)),
        step == 0 ==> step_of(stepped_text(range, step)) is Err,
{
    lemma_decimal_in(step, min, max);
    let d = digits::decimal(step);
    let f = stepped_text(range, step);
    lemma_cut_once(range, d, '/');
    assert forall|i: int| 0 <= i < f.len() implies f[i] != ',' by {
        if i < range.len() {
            assert(f[i] == range[i]);
            assert(range.contains(range[i]));
        } else if i > range.len() {
            assert(d.contains(d[i - range.len() - 1]) && f[i] == d[i - range.len() - 1]);
        }
    }
}

/// `a-b` is every number from `a` to `b`, both of them too; it is refused if it runs
/// backwards or leaves the bounds of its field.
pub proof fn a_range_allows_all_its_numbers(a: nat, b: nat, min: nat, max: nat)
    requires
        a <= u32::MAX,
        b <= u32::MAX,
    ensures
        field_error(range_text(a, b), min, max) is None <==> min <= a <= b <= max,
        min <= a <= b <= max ==> forall|v: int| #[trigger]
            field_allows(range_text(a, b), min, max, v) <==> a <= v <= b,
        min <= b < a <= max ==> field_error(range_text(a, b), min, max) == Some(
            text::debug_text(range_text(a, b)) + ": range runs backwards"@,
        ),
{
    let f = range_text(a, b);
    lemma_decimal_in(a, min, max);
    lemma_decimal_in(b, min, max);
    lemma_range_text(a, b, min, max);
    lemma_one_part(f, min, max);
}

/// `a-b/s` is `a` and every `s`-th number after it, up to `b`. With a step of 1 it is
/// `a-b`, and a step of 0 is refused.
pub proof fn a_stepped_range_allows_every_nth(a: nat, b: nat, s: nat, min: nat, max: nat)
    requires
        min <= a <= b <= max <= u32::MAX,
        s <= u32::MAX,
    ensures
        field_error(stepped_text(range_text(a, b), s), min, max) is None <==> s > 0,
        s > 0 ==> forall|v: int| #[trigger]
            field_allows(stepped_text(range_text(a, b), s), min, max, v) <==> a <= v <= b && (v - a)
                % (s as int) == 0,
        forall|v: int| #[trigger]
            field_allows(stepped_text(range_text(a, b), 1), min, max, v) <==> field_allows(
                range_text(a, b),
                min,
                max,
                v,
            ),
{
    a_range_allows_all_its_numbers(a, b, min, max);
    lemma_decimal_in(a, min, max);
    lemma_decimal_in(b, min, max);
    lemma_range_text(a, b, min, max);
    lemma_stepped(range_text(a, b), s, min, max);
    lemma_one_part(stepped_text(range_text(a, b), s), min, max);
    lemma_stepped(range_text(a, b), 1, min, max);
    lemma_one_part(stepped_text(range_text(a, b), 1), min, max);
}

/// A number alone is that number; with a step it is itself and every `s`-th number after
/// it, up to the last of the field. One out of bounds is refused.
pub proof fn a_number_allows_itself(n: nat, s: nat, min: nat, max: nat)
    requires
        n <= u32::MAX,
        0 < s <= u32::MAX,
    ensures
        field_error(digits::decimal(n), min, max) is None <==> min <= n <= max,
        field_error(stepped_text(digits::decimal(n), s), min, max) is None <==> min <= n <= max,
        min <= n <= max ==> forall|v: int| #[trigger]
            field_allows(digits::decimal(n), min, max, v) <==> v == n,
        min <= n <= max ==> forall|v: int| #[trigger]
            field_allows(stepped_text(digits::decimal(n), s), min, max, v) <==> n <= v <= max && (v
                - n) % (s as int) == 0,
{
    reveal_strlit("*");
    let d = digits::decimal(n);
    lemma_decimal_in(n, min, max);
    assert(d.contains(d[0]));
    assert(!d.contains('/') && !d.contains(',') && !d.contains('-'));
    lemma_one_part(d, min, max);
    lemma_stepped(d, s, min, max);
    lemma_one_part(stepped_text(d, s), min, max);
}

/// `*` is every number of the field, and `*/s` the first and every `s`-th after it.
pub proof fn a_star_allows_the_whole_field(s: nat, min: nat, max: nat)
    requires
        min <= max,
        0 < s <= u32::MAX,
    ensures
        field_error("*"@, min, max) is None,
        field_error(stepped_text("*"@, s), min, max) is None,
        forall|v: int| #[trigger] field_allows("*"@, min, max, v) <==> min <= v <= max,
        forall|v: int| #[trigger]
            field_allows(stepped_text("*"@, s), min, max, v) <==> min <= v <= max && (v - min) % (
            s as int) == 0,
        unrestricted("*"@),
        unrestricted(stepped_text("*"@, s)),
{
    reveal_strlit("*");
    let star = "*"@;
    assert(star.len() == 1 && star[0] == '*');
    assert(!star.contains('/') && !star.contains(',') && !star.contains('-'));
    lemma_one_part(star, min, max);
    lemma_stepped(star, s, min, max);
    lemma_one_part(stepped_text(star, s), min, max);
    assert(stepped_text(star, s)[0] == '*');
}

/// Reading a field: it is refused exactly if it has an error, and else its table says of
/// each number up to the last whether the field allows it.
pub proof fn a_read_field_says_what_it_allows(
    field: &str,
    min: u32,
    max: u32,
    r: Result<(Vec<bool>, bool), String>,
    a: nat,
    b: nat,
    v: int,
)
    requires
        call_ensures(parse_field, (field, min, max), r),
        min <= a <= b <= max < 100,
        field@ == range_text(a, b),
        0 <= v <= max,
    ensures
        r matches Ok((table, any)) && table@.len() == max + 1 && !any && (table@[v] <==> a <= v <= b),
{
    a_range_allows_all_its_numbers(a, b, min as nat, max as nat);
    lemma_decimal_in(a, min as nat, max as nat);
    assert(digits::decimal(a).contains(digits::decimal(a)[0]));
    assert(range_text(a, b)[0] == digits::decimal(a)[0]);
}

// ---------------------------------------------------------------------------
// What an expression stands for

/// An expression fires at a minute of a date exactly if its minute, its hour, its month
/// and its day are allowed. Where both day fields are restricted, the day of the month or
/// the day of the week is enough; where one of them begins with `*`, both are needed.
/// Sunday is 0 and 7.
pub proof fn an_expression_fires_when_its_fields_allow(
    expr: &str,
    c: CronExpr,
    y: int,
    m: int,
    d: int,
    hour: int,
    minute: int,
)
    requires
        call_ensures(CronExpr::parse, (expr,), Ok(c)),
        calendar::valid_date(y, m, d),
        0 <= hour < 24,
        0 <= minute < 60,
    ensures
        text::words(expr@).len() == 5,
        ({
            let f = text::words(expr@);
            let w = calendar::weekday(calendar::day_number(y, m, d));
            let by_date = field_allows(f[2], 1, 31, d);
            let by_week = field_allows(f[4], 0, 7, w) || (w == 0 && field_allows(f[4], 0, 7, 7));
            let starred = f[2][0] == '*' || f[4][0] == '*';
            c@.fires(calendar::day_number(y, m, d) * 1440 + hour * 60 + minute) <==> {
                &&& field_allows(f[0], 0, 59, minute)
                &&& field_allows(f[1], 0, 23, hour)
                &&& field_allows(f[3], 1, 12, m)
                &&& if starred {
                    by_date && by_week
                } else {
                    by_date || by_week
                }
            }
        }),
{
    let f = text::words(expr@);
    let day = calendar::day_number(y, m, d);
    let at = day * 1440 + hour * 60 + minute;
    let of_day = hour * 60 + minute;
    assert(cron_error(expr@) is None);
    assert(named_error(f, 0) is None && named_error(f, 1) is None && named_error(f, 2) is None
        && named_error(f, 3) is None && named_error(f, 4) is None);
    assert(f[2].len() > 0 && f[4].len() > 0);
    vstd::arithmetic::div_mod::lemma_fundamental_div_mod_converse(at, 1440, day, of_day);
    vstd::arithmetic::div_mod::lemma_fundamental_div_mod_converse(of_day, 60, hour, minute);
    assert(is_date_of(day, y, m, d));
    let w = calendar::weekday(day);
    assert(c@.month[m] == field_allows(f[3], 1, 12, m));
    assert(c@.dom[d] == field_allows(f[2], 1, 31, d));
    assert(c@.hour[hour] == field_allows(f[1], 0, 23, hour));
    assert(c@.minute[minute] == field_allows(f[0], 0, 59, minute));
    assert(c@.dow[w] == (field_allows(f[4], 0, 7, w) || (w == 0 && field_allows(f[4], 0, 7, 7))));
    if c@.fires(at) {
        let (y2, m2, d2) = choose|y2: int, m2: int, d2: int|
            {
                &&& #[trigger] is_date_of(at / 1440, y2, m2, d2)
                &&& c@.month[m2]
                &&& c@.day_allowed(d2, calendar::weekday(at / 1440))
                &&& c@.hour[at % 1440 / 60]
                &&& c@.minute[at % 1440 % 60]
            };
        calendar::dates_are_unique(y, m, d, y2, m2, d2);
    }
}

/// An expression is read exactly if it has five fields and none of them has an error.
pub proof fn an_expression_has_five_right_fields(expr: &str, r: Result<CronExpr, String>)
    requires
        call_ensures(CronExpr::parse, (expr,), r),
    ensures
        ({
            let f = text::words(expr@);
            r is Ok <==> f.len() == 5 && field_error(f[0], 0, 59) is None && field_error(f[1], 0, 23) is None
                && field_error(f[2], 1, 31) is None && field_error(f[3], 1, 12) is None
                && field_error(f[4], 0, 7) is None
        }),
{
}

/// In universal time an expression is next due at the start of the first minute after the
/// given time at which it fires.
pub proof fn the_next_time_in_utc_is_the_first_that_fires(
    c: CronExpr,
    after: Timestamp,
    at: Option<Timestamp>,
    minute: int,
)
    requires
        room_to_walk(after),
        call_ensures(CronExpr::next_after_in::<UtcZone>, (&c, &UtcZone, after), at),
    ensures
        at matches Some(t) ==> {
            &&& t.nanos > after.nanos
            &&& t.nanos % 60_000_000_000 == 0
            &&& c@.fires(t.nanos as int / 60_000_000_000)
            &&& after.nanos < minute * 60_000_000_000 < t.nanos ==> !c@.fires(minute)
        },
        at is None ==> !c@.fires(minute),
{
    let wall = choose|wall: i64|
        #![trigger call_ensures(UtcZone::wall_secs, (&UtcZone, after.secs() as i64), wall)]
        call_ensures(UtcZone::wall_secs, (&UtcZone, after.secs() as i64), wall) && next_due(
            c@,
            &UtcZone,
            after,
            wall as int / 60 + 1,
            at,
        );
    assert(wall == after.secs());
    cron_in_utc_is_the_first_minute_after(c@, after, at);
    if c@.fires(minute) {
        an_expression_that_fires_has_a_next_time(c@, minute, after, at);
    }
    if let Some(t) = at {
        let m = t.secs() / 60;
        assert(t.nanos == m * 60_000_000_000);
        vstd::arithmetic::div_mod::lemma_fundamental_div_mod_converse(
            t.nanos as int,
            60_000_000_000,
            m,
            0,
        );
        if after.nanos < minute * 60_000_000_000 < t.nanos {
            assert(minute * 60 * time::NANOS_PER_SEC > after.nanos);
            assert(minute < m);
        }
    }
}

/// In any zone an expression is due at a time its clocks answer for a minute at which it
/// fires, after the given time; an earlier minute that fires, counted from the given
/// one, is one the clocks skip or first showed no later than that.
pub proof fn no_earlier_minute_is_left_out<Z: Zone>(
    c: CronExpr,
    zone: &Z,
    after: Timestamp,
    at: Timestamp,
)
    requires
        call_ensures(CronExpr::next_after_in::<Z>, (&c, zone, after), Some(at)),
    ensures
        at.nanos > after.nanos,
        exists|wall: i64, m: int, secs: i64|
            #![trigger call_ensures(Z::wall_secs, (zone, after.secs() as i64), wall), call_ensures(Z::earliest, (zone, (m * 60) as i64), Some(secs))]
            {
                &&& call_ensures(Z::wall_secs, (zone, after.secs() as i64), wall)
                &&& call_ensures(Z::earliest, (zone, (m * 60) as i64), Some(secs))
                &&& m * 60 > wall
                &&& c@.fires(m)
                &&& at.nanos == secs * 1_000_000_000
                &&& forall|k: int|
                    wall < k * 60 && k < m && #[trigger] c@.fires(k) ==> exists|s: Option<i64>| #[trigger]
                        call_ensures(Z::earliest, (zone, (k * 60) as i64), s) && (s matches Some(x)
                            ==> x * 1_000_000_000 <= after.nanos)
            },
{
    let wall = choose|wall: i64|
        #![trigger call_ensures(Z::wall_secs, (zone, after.secs() as i64), wall)]
        call_ensures(Z::wall_secs, (zone, after.secs() as i64), wall) && next_due(
            c@,
            zone,
            after,
            wall as int / 60 + 1,
            Some(at),
        );
    let first = wall as int / 60 + 1;
    let (m, secs) = choose|m: int, secs: i64|
        {
            &&& first <= m < first + WINDOW_MINUTES
            &&& #[trigger] c@.fires(m)
            &&& #[trigger] zone_answers(zone, m, Some(secs))
            &&& at.nanos == secs * time::NANOS_PER_SEC
            &&& at.nanos > after.nanos
            &&& none_due(c@, zone, after, first, m)
        };
    assert(call_ensures(Z::earliest, (zone, (m * 60) as i64), Some(secs)));
    assert forall|k: int| wall < k * 60 && k < m && #[trigger] c@.fires(k) implies exists|s: Option<i64>| #[trigger]
        call_ensures(Z::earliest, (zone, (k * 60) as i64), s) && (s matches Some(x) ==> x * 1_000_000_000
            <= after.nanos) by {
        assert(first <= k);
        assert(passed_over(zone, k, after));
        let s = choose|s: Option<i64>| #[trigger] zone_answers(zone, k, s) && !comes_after(s, after);
        assert(call_ensures(Z::earliest, (zone, (k * 60) as i64), s));
    }
}

/// A job says `every` or `cron`, and exactly one of them; an interval has a length.
pub proof fn a_schedule_is_an_interval_or_an_expression(
    every: Option<&str>,
    cron: Option<&str>,
    r: Result<Schedule, String>,
)
    requires
        call_ensures(Schedule::from_fields, (every, cron), r),
    ensures
        every is Some && cron is Some ==> r is Err,
        every is None && cron is None ==> r is Err,
        every is Some && cron is None ==> {
            let secs = time::duration_secs(every->0@);
            &&& r is Ok <==> secs is Some && secs->0 > 0
            &&& r matches Ok(s) ==> (s matches Schedule::Every(d) && d.nanos == secs->0
                * 1_000_000_000)
        },
        every is None && cron is Some ==> {
            &&& r is Ok <==> cron_error(cron->0@) is None
            &&& r matches Ok(s) ==> s is Cron
        },
{
}

/// An interval's next time is the interval after the last, to the nanosecond.
pub proof fn an_interval_comes_round(d: Duration, last: Timestamp, r: Option<Timestamp>)
    requires
        call_ensures(Schedule::next_after, (&Schedule::Every(d), last), r),
        d.nanos <= time::MAX_DELTA_NANOS,
    ensures
        r matches Some(t) && t.nanos == last.nanos + d.nanos,
{
}

} // verus!
