//! Spans of time and points in time, both counted in nanoseconds.

use vstd::prelude::*;
use vstd::string::*;

use crate::calendar;
use crate::digits;
use crate::text;

verus! {

/// Nanoseconds in a second.
pub const NANOS_PER_SEC: u64 = 1_000_000_000;

/// A span of time.
#[derive(Debug, Clone, Copy, PartialEq, Eq, PartialOrd, Ord, Structural)]
pub struct Duration {
    pub nanos: u128,
}

impl Duration {
    /// A span of whole seconds.
    pub fn from_secs(secs: u64) -> (d: Duration)
        ensures
            d.nanos == secs * NANOS_PER_SEC,
            d.secs() == secs,
            d.valid(),
    {
        assert(secs * NANOS_PER_SEC <= 0xffff_ffff_ffff_ffff * NANOS_PER_SEC);
        Duration { nanos: secs as u128 * NANOS_PER_SEC as u128 }
    }

    /// A span of whole milliseconds.
    pub fn from_millis(millis: u64) -> (d: Duration)
        ensures
            d.nanos == millis * 1_000_000,
            d.valid(),
    {
        let d = Duration { nanos: millis as u128 * 1_000_000 };
        assert(d.nanos / 1_000_000_000 <= d.nanos / 1_000_000);
        d
    }

    /// Whether the span's seconds fit the 64 bits they are counted in.
    pub open spec fn valid(self) -> bool {
        self.secs() <= u64::MAX
    }

    /// The whole seconds of the span.
    pub fn as_secs(&self) -> (s: u64)
        requires
            self.valid(),
        ensures
            s == self.secs(),
    {
        (self.nanos / 1_000_000_000) as u64
    }

    /// The whole seconds of the span.
    pub open spec fn secs(self) -> nat {
        (self.nanos / 1_000_000_000) as nat
    }

    /// Whether the span has no length.
    pub fn is_zero(&self) -> (b: bool)
        ensures
            b == (self.nanos == 0),
    {
        self.nanos == 0
    }

    /// The shorter of twice the span and `most`.
    pub fn doubled(self, most: Duration) -> (d: Duration)
        ensures
            d.nanos == if 2 * self.nanos < most.nanos {
                2 * self.nanos
            } else {
                most.nanos as int
            },
    {
        if self.nanos <= most.nanos / 2 && self.nanos * 2 < most.nanos {
            Duration { nanos: self.nanos * 2 }
        } else {
            most
        }
    }
}

/// The longest span chrono takes: `i64::MAX` milliseconds.
pub const MAX_DELTA_NANOS: u128 = 9_223_372_036_854_775_807_000_000;

/// Nanoseconds in a day.
pub const NANOS_PER_DAY: i128 = 86_400_000_000_000;

/// A point in time, counted from 1970-01-01T00:00:00 UTC.
#[derive(Debug, Clone, Copy, PartialEq, Eq, PartialOrd, Ord, Structural)]
pub struct Timestamp {
    pub nanos: i128,
}

/// Whether the nanoseconds since 1970 name a point within the calendar.
pub open spec fn in_time(nanos: int) -> bool {
    calendar::MIN_DAY * NANOS_PER_DAY <= nanos < (calendar::MAX_DAY + 1) * NANOS_PER_DAY
}

impl Timestamp {
    /// Whether the point lies within the calendar.
    pub open spec fn valid(self) -> bool {
        in_time(self.nanos as int)
    }

    /// The whole seconds since 1970, rounded down.
    pub open spec fn secs(self) -> int {
        self.nanos as int / 1_000_000_000
    }

    /// The point in time of a count of seconds.
    pub fn at_secs(secs: i64) -> (t: Timestamp)
        ensures
            t.nanos == secs * NANOS_PER_SEC,
            t.secs() == secs,
    {
        assert(-0x8000_0000_0000_0000 * NANOS_PER_SEC <= secs * NANOS_PER_SEC <= 0x7fff_ffff_ffff_ffff
            * NANOS_PER_SEC);
        let nanos: i128 = secs as i128 * 1_000_000_000;
        assert(nanos as int / 1_000_000_000 == secs);
        Timestamp { nanos }
    }

    /// The whole seconds since 1970, rounded down.
    pub fn floor_secs(&self) -> (s: i64)
        requires
            self.valid(),
        ensures
            s == self.secs(),
    {
        let q: i128 = floor_div(self.nanos, 1_000_000_000);
        assert(calendar::MIN_DAY * NANOS_PER_DAY / 1_000_000_000 == calendar::MIN_DAY * 86_400);
        assert((calendar::MAX_DAY + 1) * NANOS_PER_DAY / 1_000_000_000 == (calendar::MAX_DAY + 1) * 86_400);
        q as i64
    }
}

/// `a / b` rounded down.
pub fn floor_div(a: i128, b: i128) -> (q: i128)
    requires
        b > 0,
    ensures
        q == a as int / b as int,
{
    proof {
        let x = a as int;
        let y = b as int;
        assert(i128::MIN <= x / y <= i128::MAX) by (nonlinear_arith)
            requires
                i128::MIN <= x <= i128::MAX,
                y > 0,
        ;
    }
    match a.checked_div_euclid(b) {
        Some(q) => q,
        None => 0,
    }
}

/// What a length of time written as a number and a unit means in seconds: `s`,
/// `m`, `h` or `d` after one or more digits.
pub open spec fn duration_secs(s: Seq<char>) -> Option<nat> {
    if s.len() < 2 || !digits::all_digits(s.drop_last()) {
        None
    } else {
        match unit_secs(s.last()) {
            Some(unit) => if digits::digits_value(s.drop_last()) * unit <= u64::MAX {
                Some(digits::digits_value(s.drop_last()) * unit)
            } else {
                None
            },
            None => None,
        }
    }
}

/// The seconds in a unit of time.
pub open spec fn unit_secs(c: char) -> Option<nat> {
    if c == 's' {
        Some(1)
    } else if c == 'm' {
        Some(60)
    } else if c == 'h' {
        Some(3600)
    } else if c == 'd' {
        Some(86400)
    } else {
        None
    }
}

/// What is wrong with a text that is no length of time.
pub open spec fn duration_error(s: Seq<char>) -> Seq<char> {
    text::debug_text(s) + ": expected a number and a unit (s, m, h or d)"@
}

/// Read a length of time: `90s`, `5m`, `2h`, `1d`.
pub fn parse_duration(text: &str) -> (r: Result<Duration, String>)
    ensures
        match (r, duration_secs(text@)) {
            (Ok(d), Some(secs)) => d.nanos == secs * NANOS_PER_SEC,
            (Err(e), None) => e@ == duration_error(text@),
            _ => false,
        },
{
    match duration_of(text) {
        Some(secs) => Ok(Duration::from_secs(secs)),
        None => {
            let mut e = text::debug_quoted(text);
            e.append(": expected a number and a unit (s, m, h or d)");
            Err(e)
        },
    }
}

fn duration_of(text: &str) -> (r: Option<u64>)
    ensures
        match (r, duration_secs(text@)) {
            (Some(n), Some(secs)) => n == secs,
            (None, None) => true,
            _ => false,
        },
{
    let mut v = text::chars_of(text);
    if v.len() < 2 {
        return None;
    }
    let last = v.pop();
    assert(v@ =~= text@.drop_last());
    let unit: u64 = match last {
        Some('s') => 1,
        Some('m') => 60,
        Some('h') => 3600,
        Some('d') => 86400,
        _ => {
            return None;
        },
    };
    assert(v@.skip(0) =~= v@);
    let n = match digits::read_digits(&v, 0, u64::MAX) {
        Some(n) => n,
        None => {
            proof {
                let d = digits::digits_value(v@);
                assert(d * unit >= d) by (nonlinear_arith)
                    requires
                        unit >= 1,
                        d >= 0,
                ;
            }
            return None;
        },
    };
    n.checked_mul(unit)
}

/// A number and `s`, `m`, `h` or `d` is that many seconds, minutes, hours or days, if that
/// is not too long to count in seconds.
pub proof fn what_a_length_of_time_means(text: &str, n: nat, unit: char, r: Result<Duration, String>)
    requires
        call_ensures(parse_duration, (text,), r),
        text@ == digits::decimal(n).push(unit),
    ensures
        unit == 's' && n <= u64::MAX ==> (r matches Ok(d) && d.nanos == n * 1_000_000_000),
        unit == 'm' && n * 60 <= u64::MAX ==> (r matches Ok(d) && d.nanos == n * 60_000_000_000),
        unit == 'h' && n * 3600 <= u64::MAX ==> (r matches Ok(d) && d.nanos == n * 3_600_000_000_000),
        unit == 'd' && n * 86400 <= u64::MAX ==> (r matches Ok(d) && d.nanos == n
            * 86_400_000_000_000),
        unit != 's' && unit != 'm' && unit != 'h' && unit != 'd' ==> r is Err,
{
    digits::decimal_reads_back(n);
    assert(text@.drop_last() =~= digits::decimal(n));
    assert(text@.last() == unit);
    if unit == 's' {
        let each = unit_secs(unit)->0;
        assert(n * each == n) by (nonlinear_arith)
            requires
                each == 1,
        ;
    }
}

/// Nothing else is a length of time: there is a digit, and only digits before the unit.
pub proof fn what_is_no_length_of_time(text: &str, r: Result<Duration, String>)
    requires
        call_ensures(parse_duration, (text,), r),
        text@.len() < 2 || exists|i: int|
            0 <= i < text@.len() - 1 && !('0' <= #[trigger] text@[i] <= '9'),
    ensures
        r is Err,
{
    if text@.len() >= 2 {
        let i = choose|i: int| 0 <= i < text@.len() - 1 && !('0' <= #[trigger] text@[i] <= '9');
        assert(text@.drop_last()[i] == text@[i]);
        assert(!digits::is_digit(text@.drop_last()[i]));
    }
}

} // verus!
