//! The names of run logs, and their order in time.

use vstd::prelude::*;
use vstd::string::*;

use crate::digits;
use crate::text;

verus! {

/// The name of the log of a run: its stamp, and a suffix if other runs of the same
/// millisecond came first.
pub open spec fn log_called(stamp: Seq<char>, n: nat) -> Seq<char> {
    stamp + (if n == 0 {
        ""@
    } else {
        "-"@ + digits::decimal(n)
    }) + ".log"@
}

/// The number of digits the text ends in.
pub open spec fn end_digits(s: Seq<char>) -> nat
    decreases s.len(),
{
    if s.len() > 0 && digits::is_digit(s.last()) {
        end_digits(s.drop_last()) + 1
    } else {
        0
    }
}

/// A name without `.log`.
pub open spec fn stem_of(name: Seq<char>) -> Seq<char> {
    match text::without_end(name, ".log"@) {
        Some(stem) => stem,
        None => name,
    }
}

/// The name has a suffix: digits behind a dash, and something before it.
pub open spec fn has_suffix(stem: Seq<char>) -> bool {
    let n = end_digits(stem) as int;
    0 < n < stem.len() && stem[stem.len() - n - 1] == '-'
}

/// The stamp in a name.
pub open spec fn stamp_of(stem: Seq<char>) -> Seq<char> {
    if has_suffix(stem) {
        stem.take(stem.len() - end_digits(stem) - 1)
    } else {
        stem
    }
}

/// The digits of the suffix of a name, if it has one.
pub open spec fn suffix_of(stem: Seq<char>) -> Seq<char> {
    if has_suffix(stem) {
        stem.skip(stem.len() - end_digits(stem))
    } else {
        seq![]
    }
}

/// As numbers without leading zeros, the first digits are the smaller ones.
pub open spec fn smaller(a: Seq<char>, b: Seq<char>) -> bool {
    a.len() < b.len() || a.len() == b.len() && text::before(a, b)
}

/// The log is the older one: its stamp is earlier, or it came first in one millisecond.
pub open spec fn older(a: Seq<char>, b: Seq<char>) -> bool {
    let x = stem_of(a);
    let y = stem_of(b);
    text::before(stamp_of(x), stamp_of(y)) || stamp_of(x) == stamp_of(y) && smaller(
        suffix_of(x),
        suffix_of(y),
    )
}

/// No log is older than one that stands before it.
pub open spec fn by_age(v: Seq<Seq<char>>) -> bool {
    forall|i: int, j: int| 0 <= i < j < v.len() ==> !older(#[trigger] v[j], #[trigger] v[i])
}

/// Of two logs at most one is older, and age carries over.
proof fn lemma_older(a: Seq<char>, b: Seq<char>, c: Seq<char>)
    ensures
        !(older(a, b) && older(b, a)),
        older(a, b) && older(b, c) ==> older(a, c),
{
    let (x, y, z) = (stamp_of(stem_of(a)), stamp_of(stem_of(b)), stamp_of(stem_of(c)));
    let (p, q, r) = (suffix_of(stem_of(a)), suffix_of(stem_of(b)), suffix_of(stem_of(c)));
    text::texts_are_ordered(x, y);
    text::texts_are_ordered(p, q);
    if text::before(x, y) && text::before(y, z) {
        text::the_order_of_texts_carries_over(x, y, z);
    }
    if text::before(p, q) && text::before(q, r) {
        text::the_order_of_texts_carries_over(p, q, r);
    }
}

/// The logs stay in order when one is put where those before it are no younger and the
/// next is.
proof fn lemma_by_age_after_insert(v: Seq<Seq<char>>, i: int, t: Seq<char>)
    requires
        by_age(v),
        0 <= i <= v.len(),
        forall|k: int| 0 <= k < i ==> !older(t, #[trigger] v[k]),
        i < v.len() ==> older(t, v[i]),
    ensures
        by_age(v.insert(i, t)),
{
    let new = v.insert(i, t);
    assert forall|a: int, b: int| 0 <= a < b < new.len() implies !older(
        #[trigger] new[b],
        #[trigger] new[a],
    ) by {
        if a == i {
            assert(new[b] == v[b - 1]);
            lemma_older(v[b - 1], t, v[i]);
            lemma_older(t, v[i], t);
            if b - 1 > i {
                assert(!older(v[b - 1], v[i]));
            }
        } else if b == i {
            assert(new[a] == v[a]);
        } else {
            assert(new[a] == v[if a < i {
                a
            } else {
                a - 1
            }]);
            assert(new[b] == v[if b < i {
                b
            } else {
                b - 1
            }]);
        }
    }
}

fn count_end_digits(v: &Vec<char>) -> (n: usize)
    ensures
        n == end_digits(v@),
        n <= v@.len(),
{
    let mut n: usize = 0;
    assert(v@.take(v@.len() as int) =~= v@);
    while n < v.len() && '0' <= v[v.len() - 1 - n] && v[v.len() - 1 - n] <= '9'
        invariant
            n <= v@.len(),
            end_digits(v@) == n + end_digits(v@.take(v@.len() - n)),
        decreases v@.len() - n,
    {
        proof {
            let t = v@.take(v@.len() - n);
            assert(t.last() == v@[v@.len() - 1 - n]);
            assert(t.drop_last() =~= v@.take(v@.len() - n - 1));
        }
        n = n + 1;
    }
    proof {
        let t = v@.take(v@.len() - n);
        if t.len() > 0 {
            assert(t.last() == v@[v@.len() - 1 - n]);
        }
    }
    n
}

/// The stamp and the suffix in a log's name.
fn parts(name: &str) -> (r: (String, String))
    ensures
        r.0@ == stamp_of(stem_of(name@)),
        r.1@ == suffix_of(stem_of(name@)),
{
    let stem = match text::strip_end(name, ".log") {
        Some(s) => s,
        None => name.to_owned(),
    };
    let v = text::chars_of(stem.as_str());
    let n: usize = count_end_digits(&v);
    if n > 0 && n < v.len() && v[v.len() - n - 1] == '-' {
        let stamp = text::slice_of(&v, 0, v.len() - n - 1);
        let suffix = text::slice_of(&v, v.len() - n, v.len());
        assert(stamp@ =~= stem@.take(stem@.len() - n - 1));
        assert(suffix@ =~= stem@.skip(stem@.len() - n));
        (stamp, suffix)
    } else {
        let none = String::new();
        assert(none@ =~= seq![]);
        (stem, none)
    }
}

fn is_older(a: &str, b: &str) -> (r: bool)
    ensures
        r == older(a@, b@),
{
    let x = parts(a);
    let y = parts(b);
    if text::comes_before(x.0.as_str(), y.0.as_str()) {
        return true;
    }
    if !text::same_text(x.0.as_str(), y.0.as_str()) {
        return false;
    }
    let m: usize = x.1.as_str().unicode_len();
    let n: usize = y.1.as_str().unicode_len();
    m < n || (m == n && text::comes_before(x.1.as_str(), y.1.as_str()))
}

/// The logs, the oldest first.
pub fn sort_by_age(v: Vec<String>) -> (r: Vec<String>)
    ensures
        by_age(text::texts(r@)),
        r@.to_multiset() == v@.to_multiset(),
{
    broadcast use {vstd::multiset::group_multiset_axioms, vstd::seq_lib::group_to_multiset_ensures};

    let ghost all = v@;
    let mut rest = v;
    let mut out: Vec<String> = Vec::new();
    proof {
        assert(out@.to_multiset().add(rest@.to_multiset()) =~= all.to_multiset());
    }
    while rest.len() > 0
        invariant
            by_age(text::texts(out@)),
            out@.to_multiset().add(rest@.to_multiset()) == all.to_multiset(),
        decreases rest@.len(),
    {
        let ghost before_rest = rest@;
        let ghost before_out = out@;
        let s = match rest.pop() {
            Some(s) => s,
            None => vstd::pervasive::unreached(),
        };
        let mut i: usize = 0;
        while i < out.len() && !is_older(s.as_str(), out[i].as_str())
            invariant
                i <= out@.len(),
                forall|k: int| 0 <= k < i ==> !older(s@, #[trigger] text::texts(out@)[k]),
            decreases out@.len() - i,
        {
            assert(text::texts(out@)[i as int] == out@[i as int]@);
            i = i + 1;
        }
        proof {
            lemma_by_age_after_insert(text::texts(out@), i as int, s@);
            assert(text::texts(out@.insert(i as int, s)) =~= text::texts(out@).insert(
                i as int,
                s@,
            ));
            text::lemma_insert_adds_one(out@, i as int, s);
        }
        out.insert(i, s);
        proof {
            assert(out@ == before_out.insert(i as int, s));
            text::lemma_insert_adds_one(rest@, rest@.len() as int, s);
            assert(before_rest =~= rest@.insert(rest@.len() as int, s));
            assert(out@.to_multiset().add(rest@.to_multiset()) =~= before_out.to_multiset().add(
                before_rest.to_multiset(),
            ));
        }
    }
    proof {
        assert(rest@ =~= seq![]);
        assert(out@.to_multiset().add(rest@.to_multiset()) =~= out@.to_multiset());
    }
    out
}

// ---------------------------------------------------------------------------
// Names sort by time

proof fn lemma_end_digits(p: Seq<char>, d: Seq<char>)
    requires
        end_digits(p) == 0,
        digits::all_digits(d),
    ensures
        end_digits(p + d) == d.len(),
    decreases d.len(),
{
    if d.len() == 0 {
        assert(p + d =~= p);
    } else {
        assert((p + d).drop_last() =~= p + d.drop_last());
        assert((p + d).last() == d.last());
        assert forall|i: int| 0 <= i < d.drop_last().len() implies digits::is_digit(
            #[trigger] d.drop_last()[i],
        ) by {
            assert(d.drop_last()[i] == d[i]);
        }
        assert(digits::is_digit(d[d.len() - 1]));
        lemma_end_digits(p, d.drop_last());
    }
}

/// Texts of one length keep their order whatever is put behind them.
proof fn lemma_before_push(a: Seq<char>, b: Seq<char>, x: char, y: char)
    requires
        a.len() == b.len(),
    ensures
        text::before(a, b) ==> text::before(a.push(x), b.push(y)),
        a == b && x < y ==> text::before(a.push(x), b.push(y)),
    decreases a.len(),
{
    reveal_with_fuel(text::before, 2);
    if a.len() > 0 {
        assert(a.push(x).skip(1) =~= a.skip(1).push(x));
        assert(b.push(y).skip(1) =~= b.skip(1).push(y));
        assert(a.push(x)[0] == a[0]);
        assert(b.push(y)[0] == b[0]);
        lemma_before_push(a.skip(1), b.skip(1), x, y);
    } else {
        assert(a.push(x)[0] == x);
        assert(b.push(y)[0] == y);
    }
}

proof fn lemma_smaller_decimal(m: nat, n: nat)
    requires
        m < n,
    ensures
        smaller(digits::decimal(m), digits::decimal(n)),
    decreases n,
{
    reveal_with_fuel(digits::decimal, 2);
    if n < 10 {
        let e = Seq::<char>::empty();
        lemma_before_push(e, e, digits::digit_char(m), digits::digit_char(n));
        assert(digits::decimal(m) =~= e.push(digits::digit_char(m)));
        assert(digits::decimal(n) =~= e.push(digits::digit_char(n)));
    } else if m < 10 {
        digits::decimal_reads_back(n / 10);
    } else {
        let a = digits::decimal(m / 10);
        let b = digits::decimal(n / 10);
        if m / 10 < n / 10 {
            lemma_smaller_decimal(m / 10, n / 10);
            if a.len() == b.len() {
                lemma_before_push(a, b, digits::digit_char(m % 10), digits::digit_char(n % 10));
            }
        } else {
            assert(m / 10 == n / 10);
            lemma_before_push(a, b, digits::digit_char(m % 10), digits::digit_char(n % 10));
        }
    }
}

/// A stamp and the suffix behind it can be told from the name.
proof fn lemma_parts(stamp: Seq<char>, n: nat)
    requires
        stamp.len() > 0,
        end_digits(stamp) == 0,
    ensures
        stamp_of(stem_of(log_called(stamp, n))) == stamp,
        suffix_of(stem_of(log_called(stamp, n))) == if n == 0 {
            Seq::<char>::empty()
        } else {
            digits::decimal(n)
        },
{
    reveal_strlit("");
    reveal_strlit("-");
    reveal_strlit(".log");
    let name = log_called(stamp, n);
    let d = digits::decimal(n);
    let stem = if n == 0 {
        stamp
    } else {
        stamp + "-"@ + d
    };
    assert(name =~= stem + ".log"@);
    assert(name.skip(name.len() - 4) =~= ".log"@);
    assert(name.take(name.len() - 4) =~= stem);
    assert(stem_of(name) == stem);
    if n > 0 {
        digits::decimal_reads_back(n);
        assert((stamp + "-"@).last() == '-');
        lemma_end_digits(stamp + "-"@, d);
        assert(stem[stem.len() - d.len() - 1] == '-');
        assert(stem.take(stem.len() - d.len() - 1) =~= stamp);
        assert(stem.skip(stem.len() - d.len()) =~= d);
    }
}

/// Names sort by time: a log is older than another if its stamp is earlier, or if it was
/// the earlier one of the same millisecond. A stamp ends in no digit.
pub proof fn names_sort_by_time(a: Seq<char>, m: nat, b: Seq<char>, n: nat)
    requires
        a.len() > 0,
        b.len() > 0,
        end_digits(a) == 0,
        end_digits(b) == 0,
    ensures
        older(log_called(a, m), log_called(b, n)) <==> text::before(a, b) || a == b && m < n,
{
    lemma_parts(a, m);
    lemma_parts(b, n);
    text::texts_are_ordered(a, b);
    digits::decimal_reads_back(m);
    digits::decimal_reads_back(n);
    if a == b && m > 0 && n > 0 {
        let (p, q) = (digits::decimal(m), digits::decimal(n));
        text::texts_are_ordered(p, q);
        if m < n {
            lemma_smaller_decimal(m, n);
        } else if n < m {
            lemma_smaller_decimal(n, m);
        }
    }
}

/// Of two logs in the list the one of the earlier stamp comes first, and of one
/// millisecond the one that was made first. None is lost, and none is new.
pub proof fn older_logs_come_first(
    v: Vec<String>,
    r: Vec<String>,
    i: int,
    j: int,
    a: Seq<char>,
    m: nat,
    b: Seq<char>,
    n: nat,
)
    requires
        call_ensures(sort_by_age, (v,), r),
        0 <= i < r@.len(),
        0 <= j < r@.len(),
        a.len() > 0 && end_digits(a) == 0,
        b.len() > 0 && end_digits(b) == 0,
        r@[i]@ == log_called(a, m),
        r@[j]@ == log_called(b, n),
        text::before(a, b) || a == b && m < n,
    ensures
        i < j,
        r@.to_multiset() == v@.to_multiset(),
{
    names_sort_by_time(a, m, b, n);
    let t = text::texts(r@);
    assert(t.len() == r@.len());
    assert(t[i] == r@[i]@ && t[j] == r@[j]@);
    lemma_older(t[i], t[j], t[i]);
}

} // verus!
