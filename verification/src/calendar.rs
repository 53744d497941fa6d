//! The proleptic Gregorian calendar, counted in days from 1970-01-01.

use chrono::Datelike;
use vstd::prelude::*;

verus! {

/// Whether the year has a 29 February.
pub open spec fn leap(y: int) -> bool {
    y % 4 == 0 && (y % 100 != 0 || y % 400 == 0)
}

/// How many days the month of the year has.
pub open spec fn days_in_month(y: int, m: int) -> int {
    if m == 2 {
        if leap(y) {
            29
        } else {
            28
        }
    } else if m == 4 || m == 6 || m == 9 || m == 11 {
        30
    } else {
        31
    }
}

/// The days of the year before the month begins.
pub open spec fn days_before_month(y: int, m: int) -> int
    decreases m,
{
    if m <= 1 {
        0
    } else {
        days_before_month(y, m - 1) + days_in_month(y, m - 1)
    }
}

/// The day on which the year begins: 365 days a year, and one more for every
/// leap year between.
pub open spec fn year_start(y: int) -> int {
    365 * (y - 1970) + (y - 1) / 4 - (y - 1) / 100 + (y - 1) / 400 - 477
}

/// The number of the day `y-m-d`.
pub open spec fn day_number(y: int, m: int, d: int) -> int {
    year_start(y) + days_before_month(y, m) + d - 1
}

/// Whether `y-m-d` is a date.
pub open spec fn valid_date(y: int, m: int, d: int) -> bool {
    1 <= m <= 12 && 1 <= d <= days_in_month(y, m)
}

/// The day of the week, Sunday being 0: day 0 was a Thursday.
pub open spec fn weekday(day: int) -> int {
    (day + 4) % 7
}

/// The year and month after this month.
pub open spec fn next_month(y: int, m: int) -> (int, int) {
    if m == 12 {
        (y + 1, 1)
    } else {
        (y, m + 1)
    }
}

/// The first day chrono has: -262143-01-01.
pub const MIN_DAY: i32 = -96_465_292;

/// The last day chrono has: 262142-12-31.
pub const MAX_DAY: i32 = 95_026_236;

/// Whether chrono has the day.
pub open spec fn in_calendar(day: int) -> bool {
    MIN_DAY <= day <= MAX_DAY
}

/// `chrono::NaiveDate::from_epoch_days`, read through `year`, `month` and
/// `day`: the date of the day, in the proleptic Gregorian calendar, with
/// 1970-01-01 as day 0. Every day of the calendar's range has one.
#[verifier::external_body]
pub(crate) fn date_of(day: i32) -> (r: (i32, u32, u32))
    requires
        in_calendar(day as int),
    ensures
        valid_date(r.0 as int, r.1 as int, r.2 as int),
        day_number(r.0 as int, r.1 as int, r.2 as int) == day,
{
    let d = chrono::NaiveDate::from_epoch_days(day).expect("a day within the calendar");
    (d.year(), d.month(), d.day())
}

/// `chrono::NaiveDate::weekday`, as `Weekday::num_days_from_sunday`: the day
/// of the week of a day, Sunday being 0.
#[verifier::external_body]
pub(crate) fn weekday_of(day: i32) -> (r: u32)
    requires
        in_calendar(day as int),
    ensures
        r == weekday(day as int),
{
    let d = chrono::NaiveDate::from_epoch_days(day).expect("a day within the calendar");
    d.weekday().num_days_from_sunday()
}

/// `chrono::NaiveDate::from_ymd_opt`, as `to_epoch_days`: the number of the
/// day of a date within the calendar's range.
#[verifier::external_body]
pub(crate) fn day_of(y: i32, m: u32, d: u32) -> (r: i32)
    requires
        valid_date(y as int, m as int, d as int),
        in_calendar(day_number(y as int, m as int, d as int)),
    ensures
        r == day_number(y as int, m as int, d as int),
{
    chrono::NaiveDate::from_ymd_opt(y, m, d).expect("a date within the calendar").to_epoch_days()
}

/// A year is 365 days long, or 366 if it is a leap year.
pub proof fn year_length(y: int)
    ensures
        year_start(y + 1) == year_start(y) + 365 + if leap(y) {
            1int
        } else {
            0
        },
{
    assert(y / 4 == (y - 1) / 4 + if y % 4 == 0 { 1int } else { 0 });
    assert(y / 100 == (y - 1) / 100 + if y % 100 == 0 { 1int } else { 0 });
    assert(y / 400 == (y - 1) / 400 + if y % 400 == 0 { 1int } else { 0 });
    assert(y % 100 == 0 ==> y % 4 == 0);
    assert(y % 400 == 0 ==> y % 100 == 0);
}

/// The months of a year fill it.
pub proof fn months_fill_the_year(y: int)
    ensures
        days_before_month(y, 12) + days_in_month(y, 12) == year_start(y + 1) - year_start(y),
{
    year_length(y);
    reveal_with_fuel(days_before_month, 12);
}

/// Later months begin later within the year.
proof fn lemma_months_grow(y: int, a: int, b: int)
    requires
        1 <= a < b,
    ensures
        days_before_month(y, a) + days_in_month(y, a) <= days_before_month(y, b),
    decreases b,
{
    if a < b - 1 {
        lemma_months_grow(y, a, b - 1);
    }
}

/// Every day of a date lies within its year.
proof fn lemma_day_within_year(y: int, m: int, d: int)
    requires
        valid_date(y, m, d),
    ensures
        year_start(y) <= day_number(y, m, d) < year_start(y + 1),
{
    months_fill_the_year(y);
    if m < 12 {
        lemma_months_grow(y, m, 12);
    }
    if m > 1 {
        lemma_months_grow(y, 1, m);
    }
}

/// Later years begin later.
proof fn lemma_years_grow(a: int, b: int)
    requires
        a <= b,
    ensures
        year_start(a) <= year_start(b),
    decreases b - a,
{
    if a < b {
        lemma_years_grow(a, b - 1);
        year_length(b - 1);
    }
}

/// A day has one date: two dates with one number are the same date.
pub proof fn dates_are_unique(y: int, m: int, d: int, y2: int, m2: int, d2: int)
    requires
        valid_date(y, m, d),
        valid_date(y2, m2, d2),
        day_number(y, m, d) == day_number(y2, m2, d2),
    ensures
        y == y2,
        m == m2,
        d == d2,
{
    lemma_day_within_year(y, m, d);
    lemma_day_within_year(y2, m2, d2);
    if y < y2 {
        lemma_years_grow(y + 1, y2);
    } else if y2 < y {
        lemma_years_grow(y2 + 1, y);
    }
    if m < m2 {
        lemma_months_grow(y, m, m2);
    } else if m2 < m {
        lemma_months_grow(y, m2, m);
    }
}

/// The month after a month begins on the day after its last day.
pub proof fn next_month_follows(y: int, m: int)
    requires
        1 <= m <= 12,
    ensures
        ({
            let n = next_month(y, m);
            day_number(n.0, n.1, 1) == day_number(y, m, 1) + days_in_month(y, m)
        }),
{
    if m == 12 {
        months_fill_the_year(y);
    }
}

/// The years of the calendar are bounded.
pub(crate) proof fn lemma_years_in_calendar(y: int, m: int, d: int)
    requires
        valid_date(y, m, d),
        in_calendar(day_number(y, m, d)),
    ensures
        -300_000 < y < 300_000,
{
    lemma_day_within_year(y, m, d);
    if y >= 300_000 {
        lemma_years_grow(300_000, y);
    }
    if y <= -300_000 {
        lemma_years_grow(y + 1, -299_999);
    }
}

/// Every day lies in one year.
proof fn lemma_year_of(day: int) -> (y: int)
    ensures
        year_start(y) <= day < year_start(y + 1),
    decreases
            if day < 0 {
                -day
            } else {
                day
            },
{
    if day == 0 {
        1970
    } else if day > 0 {
        let y = lemma_year_of(day - 1);
        year_length(y + 1);
        if day < year_start(y + 1) {
            y
        } else {
            y + 1
        }
    } else {
        let y = lemma_year_of(day + 1);
        year_length(y - 1);
        if day >= year_start(y) {
            y
        } else {
            y - 1
        }
    }
}

/// Some years are no longer than that many leap years.
proof fn lemma_years_bounded(a: int, b: int)
    requires
        a <= b,
    ensures
        year_start(b) <= year_start(a) + 366 * (b - a),
    decreases b - a,
{
    if a < b {
        lemma_years_bounded(a, b - 1);
        year_length(b - 1);
    }
}

/// The days before a month depend on the year only through 29 February.
proof fn lemma_days_before_month(y: int, m: int)
    requires
        1 <= m <= 12,
    ensures
        days_before_month(y, m) == days_before_month(1, m) + if m > 2 && leap(y) {
            1int
        } else {
            0
        },
{
    reveal_with_fuel(days_before_month, 12);
}

/// The days that `4 * p` years have beyond whole weeks and a fixed number.
spec fn beyond_weeks(p: int) -> int {
    5 * p - p / 25 + p / 100
}

/// Five is prime to seven: some multiple of it, up to the seventh, reaches any day of
/// the week.
proof fn lemma_fives_reach(x: int, w: int) -> (u: int)
    requires
        0 <= w < 7,
    ensures
        1 <= u <= 7,
        (5 * u + x) % 7 == w,
{
    let z = (w - x) % 7;
    let t = (w - x) / 7;
    let (u, e) = if z == 0 {
        (7int, 5int)
    } else if z == 1 {
        (3, 2)
    } else if z == 2 {
        (6, 4)
    } else if z == 3 {
        (2, 1)
    } else if z == 4 {
        (5, 3)
    } else if z == 5 {
        (1, 0)
    } else {
        (4, 2)
    };
    assert(5 * u == 7 * e + z);
    assert(5 * u + x == 7 * (e - t) + w);
    vstd::arithmetic::div_mod::lemma_fundamental_div_mod_converse(5 * u + x, 7, e - t, w);
    u
}

/// What lies beyond whole weeks, counted from the century and its quarter.
proof fn lemma_beyond_weeks(h: int, g: int, c: int)
    requires
        0 <= g < 4,
        0 <= c < 25,
    ensures
        beyond_weeks(100 * h + 25 * g + c) == 5 * (100 * h + 25 * g + c) - 3 * h - g,
        (100 * h + 25 * g + c) % 25 == c,
        (100 * h + 25 * g + c) % 100 == 25 * g + c,
{
    let p = 100 * h + 25 * g + c;
    vstd::arithmetic::div_mod::lemma_fundamental_div_mod_converse(p, 25, 4 * h + g, c);
    vstd::arithmetic::div_mod::lemma_fundamental_div_mod_converse(p, 100, h, 25 * g + c);
}

/// Among ten steps of four years every day of the week comes up, also without the one
/// step that would end in a year without a 29 February.
proof fn lemma_weekdays_come_up(p: int, base: int, w: int) -> (j: int)
    requires
        0 <= w < 7,
    ensures
        1 <= j <= 10,
        (beyond_weeks(p + j) + base) % 7 == w,
        (p + j) % 25 == 24 ==> (p + j) % 100 == 99,
{
    let h = p / 100;
    let g = (p % 100) / 25;
    let r = (p % 100) % 25;
    assert(p == 100 * h + 25 * g + r);
    let start = 5 * p - 3 * h - g + base;
    let u = lemma_fives_reach(start, w);
    // The last step before a quarter of a century ends in a year without a 29 February,
    // unless a whole fourth century is full; what comes after it is a day short.
    let s = if g == 3 {
        100
    } else {
        24 - r
    };
    let j = if u < s {
        u
    } else {
        u + 3
    };
    if r + j < 25 {
        lemma_beyond_weeks(h, g, r + j);
    } else if g < 3 {
        lemma_beyond_weeks(h, g + 1, r + j - 25);
    } else {
        lemma_beyond_weeks(h + 1, 0, r + j - 25);
    }
    if j == u {
        assert(beyond_weeks(p + j) + base == 5 * u + start);
    } else {
        assert(beyond_weeks(p + j) + base == 5 * u + start + 14);
    }
    j
}

/// The day numbers of the dates of every fourth year.
proof fn lemma_fourth_year(n: int, m: int, d: int)
    requires
        1 <= m <= 12,
    ensures
        ({
            let k = days_before_month(1, m) + d - 1;
            day_number(4 * n, m, d) == if m > 2 {
                1456 * n + beyond_weeks(n) - 719_162 - 365 + k
            } else {
                1456 * (n - 1) + beyond_weeks(n - 1) + 365 * (4 - 1970) - 477 + k
            }
        }),
{
    let y = 4 * n;
    lemma_days_before_month(y, m);
    year_length(y);
    assert((y + 1 - 1) / 4 == n);
    assert((y + 1 - 1) / 100 == n / 25);
    assert((y + 1 - 1) / 400 == n / 100);
    assert((y - 1) / 4 == n - 1);
    assert((y - 1) / 100 == (n - 1) / 25);
    assert((y - 1) / 400 == (n - 1) / 100);
}

/// Which fourth years have a 29 February.
proof fn lemma_fourth_leap(n: int)
    requires
        (n - 1) % 25 == 24 ==> (n - 1) % 100 == 99,
    ensures
        leap(4 * n),
{
    assert(4 * n % 4 == 0);
    assert(4 * n % 100 == 0 ==> (n - 1) % 25 == 24);
    assert((n - 1) % 100 == 99 ==> 4 * n % 400 == 0);
}

/// Every date that any year has comes round on every day of the week, and the next time
/// within forty-one years: 29 February takes the longest.
pub proof fn every_date_comes_round(day: int, m: int, d: int, w: int) -> (y: int)
    requires
        valid_date(2000, m, d),
        0 <= w < 7,
    ensures
        valid_date(y, m, d),
        weekday(day_number(y, m, d)) == w,
        day < day_number(y, m, d) < day + 41 * 366,
{
    let y0 = lemma_year_of(day);
    let q = y0 / 4;
    let k = days_before_month(1, m) + d - 1;
    let (p, base) = if m > 2 {
        (q, 0 - 719_162 - 365 + k + 4)
    } else {
        (q - 1, 365 * (4 - 1970) - 477 + k + 4)
    };
    let j = lemma_weekdays_come_up(p, base, w);
    let n = q + j;
    let y = 4 * n;
    lemma_fourth_year(n, m, d);
    let x = beyond_weeks(p + j) + base;
    assert(day_number(y, m, d) + 4 == 1456 * (p + j) + x);
    assert((1456 * (p + j) + x) % 7 == x % 7) by {
        vstd::arithmetic::div_mod::lemma_mod_multiples_vanish(208 * (p + j), x, 7);
        assert(7 * (208 * (p + j)) == 1456 * (p + j));
    }
    if m == 2 {
        lemma_fourth_leap(n);
    }
    lemma_day_within_year(y, m, d);
    lemma_years_grow(y0 + 1, y);
    lemma_years_bounded(y0, y + 1);
    y
}

} // verus!
