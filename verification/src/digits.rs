//! Numbers written in decimal: printing them and reading them back.

use vstd::prelude::*;
use vstd::string::*;

use crate::text;

verus! {

/// The digit `d` as a character.
pub open spec fn digit_char(d: nat) -> char {
    (48 + d) as char
}

/// Whether the character is one of `0` to `9`.
pub open spec fn is_digit(c: char) -> bool {
    '0' <= c <= '9'
}

/// The value of a digit character.
pub open spec fn digit_value(c: char) -> nat {
    (c as nat - 48) as nat
}

/// `n` in decimal, without leading zeros.
pub open spec fn decimal(n: nat) -> Seq<char>
    decreases n,
{
    if n < 10 {
        seq![digit_char(n)]
    } else {
        decimal(n / 10).push(digit_char(n % 10))
    }
}

/// `n` in decimal, with a minus sign where it is negative.
pub open spec fn signed_decimal(n: int) -> Seq<char> {
    if n < 0 {
        seq!['-'] + decimal((-n) as nat)
    } else {
        decimal(n as nat)
    }
}

/// Whether every character is a digit.
pub open spec fn all_digits(s: Seq<char>) -> bool {
    forall|i: int| 0 <= i < s.len() ==> is_digit(#[trigger] s[i])
}

/// The number a run of digits stands for; none stand for zero.
pub open spec fn digits_value(s: Seq<char>) -> nat
    decreases s.len(),
{
    if s.len() == 0 {
        0
    } else {
        digits_value(s.drop_last()) * 10 + digit_value(s.last())
    }
}

/// What reading an unsigned number of at most `max` gives: one or more digits,
/// after a `+` or nothing.
pub open spec fn unsigned_value(s: Seq<char>, max: nat) -> Option<nat> {
    let d = if s.len() > 0 && s[0] == '+' {
        s.skip(1)
    } else {
        s
    };
    if d.len() > 0 && all_digits(d) && digits_value(d) <= max {
        Some(digits_value(d))
    } else {
        None
    }
}

/// A printed number reads back as itself: its digits are digits, there is at
/// least one, and they stand for the number.
pub proof fn decimal_reads_back(n: nat)
    ensures
        decimal(n).len() > 0,
        all_digits(decimal(n)),
        digits_value(decimal(n)) == n,
        n > 0 ==> decimal(n)[0] != '0',
    decreases n,
{
    reveal_with_fuel(digits_value, 2);
    if n < 10 {
        assert(decimal(n).drop_last() =~= Seq::<char>::empty());
    } else {
        decimal_reads_back(n / 10);
        let front = decimal(n / 10);
        assert(decimal(n).drop_last() =~= front);
        assert(decimal(n)[0] == front[0]);
        assert forall|i: int| 0 <= i < decimal(n).len() implies is_digit(#[trigger] decimal(n)[i]) by {
            if i < front.len() {
                assert(decimal(n)[i] == front[i]);
            }
        }
    }
}

/// Two numbers with one decimal form are one number.
pub proof fn decimal_is_injective(a: nat, b: nat)
    requires
        decimal(a) == decimal(b),
    ensures
        a == b,
{
    decimal_reads_back(a);
    decimal_reads_back(b);
}

/// Digits without a leading zero are the decimal form of their value.
pub proof fn canonical_digits(s: Seq<char>)
    requires
        s.len() > 0,
        all_digits(s),
        s[0] != '0',
    ensures
        digits_value(s) > 0,
        decimal(digits_value(s)) == s,
    decreases s.len(),
{
    reveal_with_fuel(digits_value, 2);
    let front = s.drop_last();
    let d = digit_value(s.last());
    assert(is_digit(s.last()));
    assert(digit_char(d) == s.last());
    if front.len() == 0 {
        assert(digits_value(front) == 0);
        assert(seq![s.last()] =~= s);
    } else {
        assert forall|i: int| 0 <= i < front.len() implies is_digit(#[trigger] front[i]) by {
            assert(front[i] == s[i]);
        }
        canonical_digits(front);
        let n = digits_value(s);
        assert(n == digits_value(front) * 10 + d);
        assert(n / 10 == digits_value(front));
        assert(n % 10 == d);
        assert(front.push(s.last()) =~= s);
    }
}

/// More digits never make the number smaller.
pub proof fn lemma_digits_grow(s: Seq<char>, i: int)
    requires
        0 <= i <= s.len(),
    ensures
        digits_value(s.take(i)) <= digits_value(s),
    decreases s.len() - i,
{
    if i < s.len() {
        lemma_digits_grow(s, i + 1);
        assert(s.take(i + 1).drop_last() =~= s.take(i));
    } else {
        assert(s.take(i) =~= s);
    }
}

/// `n` in decimal, as `{}` prints it.
pub fn print_number(n: u64) -> (r: String)
    ensures
        r@ == decimal(n as nat),
    decreases n,
{
    if n < 10 {
        let mut s = String::new();
        s.push((48u8 + n as u8) as char);
        assert(s@ =~= decimal(n as nat));
        s
    } else {
        let mut s = print_number(n / 10);
        s.push((48u8 + (n % 10) as u8) as char);
        s
    }
}

/// `n` in decimal with its sign, as `{}` prints it.
pub fn print_signed(n: i64) -> (r: String)
    ensures
        r@ == signed_decimal(n as int),
{
    if n < 0 {
        let mut s = String::new();
        s.push('-');
        let magnitude: u64 = if n == i64::MIN {
            0x8000_0000_0000_0000u64
        } else {
            (-n) as u64
        };
        let d = print_number(magnitude);
        s.append(d.as_str());
        assert(s@ =~= signed_decimal(n as int));
        s
    } else {
        print_number(n as u64)
    }
}

/// The value of a run of digits, where it is one and is at most `max`.
pub fn read_digits(v: &Vec<char>, from: usize, max: u64) -> (r: Option<u64>)
    requires
        from <= v.len(),
    ensures
        ({
            let d = v@.skip(from as int);
            match r {
                Some(n) => all_digits(d) && digits_value(d) == n && n <= max,
                None => !all_digits(d) || digits_value(d) > max,
            }
        }),
{
    let ghost d = v@.skip(from as int);
    let mut n: u64 = 0;
    let mut i: usize = from;
    assert(d.take(0) =~= Seq::<char>::empty());
    while i < v.len()
        invariant
            from <= i <= v.len(),
            d == v@.skip(from as int),
            n <= max,
            n == digits_value(d.take(i - from)),
            forall|k: int| 0 <= k < i - from ==> is_digit(#[trigger] d[k]),
        decreases v.len() - i,
    {
        let c = v[i];
        assert(d[i - from] == c);
        if c < '0' || c > '9' {
            return None;
        }
        let x: u64 = c as u64 - 48;
        proof {
            assert(d.take(i + 1 - from).drop_last() =~= d.take(i - from));
            assert(d.take(i + 1 - from).last() == c);
            lemma_digits_grow(d, i + 1 - from);
        }
        if x > max || n > (max - x) / 10 {
            assert(n * 10 + x > max);
            return None;
        }
        n = n * 10 + x;
        i = i + 1;
    }
    assert(d.take(d.len() as int) =~= d);
    Some(n)
}

/// `str::parse` of an unsigned number of at most `max`.
pub fn read_unsigned(s: &str, max: u64) -> (r: Option<u64>)
    ensures
        match (r, unsigned_value(s@, max as nat)) {
            (Some(n), Some(m)) => n == m,
            (None, None) => true,
            _ => false,
        },
{
    let v = text::chars_of(s);
    let from: usize = if v.len() > 0 && v[0] == '+' {
        1
    } else {
        0
    };
    assert(from == 0 ==> v@.skip(0) =~= v@);
    if v.len() == from {
        return None;
    }
    read_digits(&v, from, max)
}

/// A number that is printed is read back as itself, where it is not too large.
pub proof fn a_printed_number_is_read_back(n: u64, s: String, t: &str, max: u64, r: Option<u64>)
    requires
        call_ensures(print_number, (n,), s),
        t@ == s@,
        call_ensures(read_unsigned, (t, max), r),
    ensures
        n <= max ==> r == Some(n),
        n > max ==> r is None,
        n > 0 ==> s@[0] != '0',
{
    decimal_reads_back(n as nat);
    if n == 0 {
        assert(decimal(0)[0] == '0');
    }
}

/// A signed number is its digits, with a minus before them if it is below zero.
pub proof fn a_negative_number_has_a_minus(n: i64, s: String)
    requires
        call_ensures(print_signed, (n,), s),
    ensures
        n >= 0 ==> all_digits(s@) && digits_value(s@) == n,
        n < 0 ==> s@[0] == '-' && all_digits(s@.skip(1)) && digits_value(s@.skip(1)) == -n,
{
    if n < 0 {
        decimal_reads_back((-n) as nat);
        assert(s@.skip(1) =~= decimal((-n) as nat));
    } else {
        decimal_reads_back(n as nat);
    }
}

} // verus!
