//! Text as sequences of characters: the few string operations the rest of the
//! library needs, each tied to a plain statement over `Seq<char>`.

use vstd::prelude::*;
use vstd::string::*;

verus! {

/// The texts of a list of strings.
pub open spec fn texts(v: Seq<String>) -> Seq<Seq<char>> {
    Seq::new(v.len(), |i: int| v[i]@)
}

/// The text of an optional string.
pub open spec fn opt_text(o: Option<String>) -> Option<Seq<char>> {
    match o {
        Some(s) => Some(s@),
        None => None,
    }
}

/// The text of an optional borrowed string.
pub open spec fn opt_str(o: Option<&str>) -> Option<Seq<char>> {
    match o {
        Some(s) => Some(s@),
        None => None,
    }
}

/// `String::push` appends the character to the end of the string.
pub assume_specification[ String::push ](s: &mut String, c: char)
    ensures
        final(s)@ == old(s)@.push(c),
;

/// `char::is_whitespace`: the characters with Unicode's `White_Space`
/// property, which are these and no others.
pub assume_specification[ char::is_whitespace ](c: char) -> (b: bool)
    ensures
        b == white_space(c),
;

/// `char::is_control`: the characters of Unicode's general category `Cc`, the
/// two ranges of control codes.
pub assume_specification[ char::is_control ](c: char) -> (b: bool)
    ensures
        b == control(c),
;

/// Unicode's `White_Space` property.
pub open spec fn white_space(c: char) -> bool {
    ||| '\u{9}' <= c <= '\u{d}'
    ||| c == '\u{20}'
    ||| c == '\u{85}'
    ||| c == '\u{a0}'
    ||| c == '\u{1680}'
    ||| '\u{2000}' <= c <= '\u{200a}'
    ||| c == '\u{2028}'
    ||| c == '\u{2029}'
    ||| c == '\u{202f}'
    ||| c == '\u{205f}'
    ||| c == '\u{3000}'
}

/// Unicode's general category `Cc`.
pub open spec fn control(c: char) -> bool {
    c <= '\u{1f}' || '\u{7f}' <= c <= '\u{9f}'
}

/// What `{:?}` writes for a string: the text in double quotes, with whatever
/// std's `Debug` escapes escaped.
pub uninterp spec fn debug_text(s: Seq<char>) -> Seq<char>;

/// `format!("{:?}")` of a string, through `<str as Debug>::fmt`. The result
/// depends on the text alone; which characters it escapes is std's affair and
/// is not said here.
#[verifier::external_body]
pub(crate) fn debug_quoted(s: &str) -> (r: String)
    ensures
        r@ == debug_text(s@),
{
    format!("{:?}", s)
}

/// The characters of a string.
pub fn chars_of(s: &str) -> (v: Vec<char>)
    ensures
        v@ == s@,
{
    let mut v: Vec<char> = Vec::new();
    for c in it: s.chars()
        invariant
            v@ == it.seq().take(it.index()),
            it.seq() == s@,
    {
        v.push(c);
    }
    v
}

/// The characters from `from` on, up to and not counting `to`.
pub fn slice_of(v: &Vec<char>, from: usize, to: usize) -> (s: String)
    requires
        from <= to <= v.len(),
    ensures
        s@ == v@.subrange(from as int, to as int),
{
    let mut s = String::new();
    let mut i: usize = from;
    while i < to
        invariant
            from <= i <= to <= v.len(),
            s@ == v@.subrange(from as int, i as int),
        decreases to - i,
    {
        s.push(v[i]);
        i = i + 1;
        assert(v@.subrange(from as int, i as int) == v@.subrange(from as int, i - 1).push(v@[i - 1]));
    }
    s
}

/// Whether two texts are the same.
pub fn same_text(a: &str, b: &str) -> (r: bool)
    ensures
        r == (a@ == b@),
{
    let x = chars_of(a);
    let y = chars_of(b);
    if x.len() != y.len() {
        return false;
    }
    let mut i: usize = 0;
    while i < x.len()
        invariant
            i <= x.len(),
            x.len() == y.len(),
            x@ == a@,
            y@ == b@,
            forall|k: int| 0 <= k < i ==> x@[k] == y@[k],
        decreases x.len() - i,
    {
        if x[i] != y[i] {
            return false;
        }
        i = i + 1;
    }
    assert(x@ =~= y@);
    true
}

/// Whether `s` begins with `prefix`.
pub fn starts_with(s: &str, prefix: &str) -> (r: bool)
    ensures
        r == prefix@.is_prefix_of(s@),
{
    let x = chars_of(s);
    let y = chars_of(prefix);
    if y.len() > x.len() {
        return false;
    }
    let mut i: usize = 0;
    while i < y.len()
        invariant
            i <= y.len() <= x.len(),
            x@ == s@,
            y@ == prefix@,
            forall|k: int| 0 <= k < i ==> x@[k] == y@[k],
        decreases y.len() - i,
    {
        if x[i] != y[i] {
            return false;
        }
        i = i + 1;
    }
    assert(y@ =~= x@.subrange(0, y@.len() as int));
    true
}

/// `s` holds `needle` from position `at` on.
pub open spec fn occurs_at(s: Seq<char>, needle: Seq<char>, at: int) -> bool {
    0 <= at && at + needle.len() <= s.len() && s.subrange(at, at + needle.len()) == needle
}

/// `s` holds `needle` somewhere.
pub open spec fn holds_text(s: Seq<char>, needle: Seq<char>) -> bool {
    exists|at: int| occurs_at(s, needle, at)
}

/// Whether `needle` occurs in `s`.
pub fn contains_text(s: &str, needle: &str) -> (r: bool)
    ensures
        r == holds_text(s@, needle@),
{
    let x = chars_of(s);
    let y = chars_of(needle);
    if y.len() > x.len() {
        return false;
    }
    let last: usize = x.len() - y.len();
    let mut at: usize = 0;
    while at <= last
        invariant
            at <= last + 1,
            last + y.len() == x.len(),
            x@ == s@,
            y@ == needle@,
            forall|k: int| 0 <= k < at ==> !occurs_at(x@, y@, k),
        decreases last + 1 - at,
    {
        let mut i: usize = 0;
        while i < y.len() && x[at + i] == y[i]
            invariant
                i <= y.len(),
                at <= last,
                last + y.len() == x.len(),
                forall|k: int| 0 <= k < i ==> x@[at + k] == y@[k],
            decreases y.len() - i,
        {
            i = i + 1;
        }
        if i == y.len() {
            assert(x@.subrange(at as int, at + y@.len()) =~= y@);
            assert(occurs_at(s@, needle@, at as int));
            return true;
        }
        assert(x@.subrange(at as int, at + y@.len())[i as int] == x@[at + i]);
        at = at + 1;
    }
    false
}

/// Whether the character occurs in the text.
pub fn contains_char(s: &str, c: char) -> (r: bool)
    ensures
        r == s@.contains(c),
{
    let x = chars_of(s);
    let mut i: usize = 0;
    while i < x.len()
        invariant
            i <= x.len(),
            x@ == s@,
            forall|k: int| 0 <= k < i ==> x@[k] != c,
        decreases x.len() - i,
    {
        if x[i] == c {
            assert(s@[i as int] == c);
            return true;
        }
        i = i + 1;
    }
    false
}

/// Where the character first occurs, or the length of the text.
pub open spec fn first_of(s: Seq<char>, c: char) -> int
    decreases s.len(),
{
    if s.len() == 0 {
        0
    } else if first_of(s.drop_last(), c) < s.len() - 1 {
        first_of(s.drop_last(), c)
    } else if s.last() == c {
        s.len() - 1
    } else {
        s.len() as int
    }
}

/// `first_of` is the first position that holds `c`.
pub proof fn lemma_first_of(s: Seq<char>, c: char)
    ensures
        0 <= first_of(s, c) <= s.len(),
        first_of(s, c) < s.len() ==> s[first_of(s, c)] == c,
        forall|k: int| 0 <= k < first_of(s, c) ==> s[k] != c,
        first_of(s, c) == s.len() <==> !s.contains(c),
    decreases s.len(),
{
    if s.len() > 0 {
        lemma_first_of(s.drop_last(), c);
        assert forall|k: int| 0 <= k < first_of(s, c) implies s[k] != c by {
            if k < s.len() - 1 {
                assert(s.drop_last()[k] == s[k]);
            }
        }
        if first_of(s, c) < s.len() {
            assert(s.contains(c));
        }
    }
}

/// Where the character first occurs in the characters, or their number.
pub fn position(v: &Vec<char>, c: char) -> (i: usize)
    ensures
        i == first_of(v@, c),
{
    let mut i: usize = 0;
    while i < v.len() && v[i] != c
        invariant
            i <= v.len(),
            forall|k: int| 0 <= k < i ==> v@[k] != c,
        decreases v.len() - i,
    {
        i = i + 1;
    }
    proof {
        lemma_first_of(v@, c);
        if i < v@.len() {
            assert(v@.contains(v@[i as int]));
        }
    }
    i
}

/// The text cut at the first `c`: what stands before it and after it.
pub open spec fn split_once(s: Seq<char>, c: char) -> Option<(Seq<char>, Seq<char>)> {
    if s.contains(c) {
        Some((s.take(first_of(s, c)), s.skip(first_of(s, c) + 1)))
    } else {
        None
    }
}

/// `str::split_once` for a single character.
pub fn cut_once(s: &str, c: char) -> (r: Option<(String, String)>)
    ensures
        match (r, split_once(s@, c)) {
            (Some(p), Some(q)) => p.0@ == q.0 && p.1@ == q.1,
            (None, None) => true,
            _ => false,
        },
{
    let v = chars_of(s);
    let i = position(&v, c);
    proof {
        lemma_first_of(v@, c);
    }
    if i == v.len() {
        return None;
    }
    let a = slice_of(&v, 0, i);
    let b = slice_of(&v, i + 1, v.len());
    assert(a@ =~= s@.take(first_of(s@, c)));
    assert(b@ =~= s@.skip(first_of(s@, c) + 1));
    Some((a, b))
}

/// The pieces of the text between separators, empty ones included; never none.
pub open spec fn split(s: Seq<char>, sep: spec_fn(char) -> bool) -> Seq<Seq<char>>
    decreases s.len(),
{
    if s.len() == 0 {
        seq![Seq::<char>::empty()]
    } else {
        let before = split(s.drop_last(), sep);
        if sep(s.last()) {
            before.push(Seq::<char>::empty())
        } else {
            before.update(before.len() - 1, before.last().push(s.last()))
        }
    }
}

/// The members that are not empty, in order.
pub open spec fn non_empty(v: Seq<Seq<char>>) -> Seq<Seq<char>>
    decreases v.len(),
{
    if v.len() == 0 {
        v
    } else if v.last().len() == 0 {
        non_empty(v.drop_last())
    } else {
        non_empty(v.drop_last()).push(v.last())
    }
}

/// Separation at one character.
pub open spec fn at_char(c: char) -> spec_fn(char) -> bool {
    |x: char| x == c
}

/// Separation at white space.
pub open spec fn at_space() -> spec_fn(char) -> bool {
    |x: char| white_space(x)
}

/// The pieces of the text between occurrences of `c`.
pub open spec fn pieces(s: Seq<char>, c: char) -> Seq<Seq<char>> {
    split(s, at_char(c))
}

/// The runs of characters between white space.
pub open spec fn words(s: Seq<char>) -> Seq<Seq<char>> {
    non_empty(split(s, at_space()))
}

/// There is always at least one piece.
pub proof fn lemma_split_len(s: Seq<char>, sep: spec_fn(char) -> bool)
    ensures
        split(s, sep).len() > 0,
    decreases s.len(),
{
    if s.len() > 0 {
        lemma_split_len(s.drop_last(), sep);
    }
}

/// `str::split` at a single character.
pub fn split_at_char(s: &str, c: char) -> (r: Vec<String>)
    ensures
        texts(r@) == pieces(s@, c),
{
    let v = chars_of(s);
    let mut out: Vec<String> = Vec::new();
    let mut cur = String::new();
    let mut i: usize = 0;
    let ghost sep = at_char(c);
    assert(texts(out@).push(cur@) =~= split(v@.take(0), sep));
    while i < v.len()
        invariant
            i <= v.len(),
            v@ == s@,
            sep == at_char(c),
            texts(out@).push(cur@) == split(v@.take(i as int), sep),
        decreases v.len() - i,
    {
        let x = v[i];
        let ghost before = texts(out@).push(cur@);
        assert(v@.take(i + 1).drop_last() =~= v@.take(i as int));
        assert(v@.take(i + 1).last() == x);
        if x == c {
            out.push(cur);
            cur = String::new();
            assert(texts(out@) =~= before);
        } else {
            cur.push(x);
            assert(texts(out@).push(cur@) =~= before.update(before.len() - 1, before.last().push(x)));
        }
        i = i + 1;
    }
    assert(v@.take(v.len() as int) =~= v@);
    let ghost all = texts(out@).push(cur@);
    out.push(cur);
    assert(texts(out@) =~= all);
    out
}

/// `str::split_whitespace`.
pub fn split_words(s: &str) -> (r: Vec<String>)
    ensures
        texts(r@) == words(s@),
{
    let v = chars_of(s);
    let mut out: Vec<String> = Vec::new();
    let mut cur = String::new();
    let mut empty = true;
    let mut i: usize = 0;
    let ghost sep = at_space();
    let ghost mut done: Seq<Seq<char>> = Seq::empty();
    assert(done.push(cur@) =~= split(v@.take(0), sep));
    assert(texts(out@) =~= non_empty(done));
    while i < v.len()
        invariant
            i <= v.len(),
            v@ == s@,
            sep == at_space(),
            empty == (cur@.len() == 0),
            done.push(cur@) == split(v@.take(i as int), sep),
            texts(out@) == non_empty(done),
        decreases v.len() - i,
    {
        let x = v[i];
        let ghost before = done.push(cur@);
        assert(v@.take(i + 1).drop_last() =~= v@.take(i as int));
        assert(v@.take(i + 1).last() == x);
        if x.is_whitespace() {
            assert(before.drop_last() =~= done);
            proof {
                done = before;
            }
            let ghost kept = texts(out@);
            if !empty {
                let ghost word = cur@;
                out.push(cur);
                assert(texts(out@) =~= kept.push(word));
            }
            cur = String::new();
            empty = true;
        } else {
            cur.push(x);
            empty = false;
            assert(done.push(cur@) =~= before.update(before.len() - 1, before.last().push(x)));
        }
        i = i + 1;
    }
    assert(v@.take(v.len() as int) =~= v@);
    let ghost all = done.push(cur@);
    assert(all.drop_last() =~= done);
    if !empty {
        let ghost kept = texts(out@);
        let ghost word = cur@;
        out.push(cur);
        assert(texts(out@) =~= kept.push(word));
    }
    out
}

/// The texts one after another, with `sep` between them.
pub open spec fn joined(v: Seq<Seq<char>>, sep: Seq<char>) -> Seq<char>
    decreases v.len(),
{
    if v.len() == 0 {
        Seq::empty()
    } else if v.len() == 1 {
        v[0]
    } else {
        joined(v.drop_last(), sep) + sep + v.last()
    }
}

/// `[String]::join`.
pub fn join(v: &Vec<String>, sep: &str) -> (s: String)
    ensures
        s@ == joined(texts(v@), sep@),
{
    let mut s = String::new();
    let mut i: usize = 0;
    let ghost all = texts(v@);
    assert(joined(all.take(0), sep@) =~= Seq::<char>::empty());
    while i < v.len()
        invariant
            i <= v.len(),
            all == texts(v@),
            s@ == joined(all.take(i as int), sep@),
        decreases v.len() - i,
    {
        assert(all.take(i + 1).drop_last() =~= all.take(i as int));
        assert(all.take(i + 1).last() == v@[i as int]@);
        if i > 0 {
            s.append(sep);
        }
        s.append(v[i].as_str());
        assert(s@ =~= joined(all.take(i + 1), sep@));
        i = i + 1;
    }
    assert(all.take(v@.len() as int) =~= all);
    s
}

/// A copy of a list of strings.
pub fn copy_texts(v: &Vec<String>) -> (r: Vec<String>)
    ensures
        texts(r@) == texts(v@),
{
    let mut r: Vec<String> = Vec::new();
    let mut i: usize = 0;
    while i < v.len()
        invariant
            i <= v@.len(),
            r@.len() == i,
            forall|k: int| 0 <= k < i ==> (#[trigger] r@[k])@ == v@[k]@,
        decreases v@.len() - i,
    {
        r.push(v[i].clone());
        i = i + 1;
    }
    assert(texts(r@) =~= texts(v@));
    r
}

/// The path of a name in a directory, as `Path::join` gives it for one that is relative.
pub open spec fn path_join(dir: Seq<char>, name: Seq<char>) -> Seq<char> {
    if dir.len() == 0 || dir.last() == '/' {
        dir + name
    } else {
        dir + "/"@ + name
    }
}

/// The path of a name in a directory, as `Path::join` gives it for one that is relative.
pub fn join_path(dir: &str, name: &str) -> (r: String)
    ensures
        r@ == path_join(dir@, name@),
{
    let mut s = dir.to_owned();
    let n: usize = dir.unicode_len();
    if n > 0 && dir.get_char(n - 1) != '/' {
        s.append("/");
    }
    s.append(name);
    s
}

// ---------------------------------------------------------------------------
// The order of texts

/// `a` comes before `b`, character by character.
pub open spec fn before(a: Seq<char>, b: Seq<char>) -> bool
    decreases a.len(),
{
    if b.len() == 0 {
        false
    } else if a.len() == 0 {
        true
    } else if a[0] == b[0] {
        before(a.skip(1), b.skip(1))
    } else {
        a[0] < b[0]
    }
}

/// Of two texts one comes before the other, or they are the same.
pub proof fn texts_are_ordered(a: Seq<char>, b: Seq<char>)
    ensures
        before(a, b) || before(b, a) || a == b,
        !(before(a, b) && before(b, a)),
        a == b ==> !before(a, b),
    decreases a.len(),
{
    if a.len() > 0 && b.len() > 0 && a[0] == b[0] {
        texts_are_ordered(a.skip(1), b.skip(1));
        if a.skip(1) == b.skip(1) {
            assert(a =~= seq![a[0]] + a.skip(1));
            assert(b =~= seq![b[0]] + b.skip(1));
        }
    } else if a.len() == 0 && b.len() == 0 {
        assert(a =~= b);
    }
}

/// What comes before what comes before a text comes before the text.
pub proof fn the_order_of_texts_carries_over(a: Seq<char>, b: Seq<char>, c: Seq<char>)
    requires
        before(a, b),
        before(b, c),
    ensures
        before(a, c),
    decreases a.len(),
{
    if a.len() > 0 && a[0] == b[0] && b[0] == c[0] {
        the_order_of_texts_carries_over(a.skip(1), b.skip(1), c.skip(1));
    }
}

/// Whether `a` comes before `b`, character by character.
pub fn comes_before(a: &str, b: &str) -> (r: bool)
    ensures
        r == before(a@, b@),
{
    let x = chars_of(a);
    let y = chars_of(b);
    let mut i: usize = 0;
    assert(x@.skip(0) =~= x@);
    assert(y@.skip(0) =~= y@);
    while i < x.len() && i < y.len() && x[i] == y[i]
        invariant
            i <= x@.len(),
            i <= y@.len(),
            before(x@, y@) == before(x@.skip(i as int), y@.skip(i as int)),
        decreases x@.len() - i,
    {
        assert(x@.skip(i as int).skip(1) =~= x@.skip(i + 1));
        assert(y@.skip(i as int).skip(1) =~= y@.skip(i + 1));
        i = i + 1;
    }
    if i >= y.len() {
        false
    } else if i >= x.len() {
        true
    } else {
        x[i] < y[i]
    }
}

// ---------------------------------------------------------------------------
// Trimming

/// What is trimmed from the ends of a text.
#[derive(Debug, Clone, Copy, PartialEq, Eq, Structural)]
pub enum Trim {
    Space,
    Char(char),
}

impl Trim {
    /// The character is trimmed.
    pub open spec fn hits(self, c: char) -> bool {
        match self {
            Trim::Space => white_space(c),
            Trim::Char(x) => c == x,
        }
    }

    fn takes(self, c: char) -> (b: bool)
        ensures
            b == self.hits(c),
    {
        match self {
            Trim::Space => c.is_whitespace(),
            Trim::Char(x) => c == x,
        }
    }
}

/// The text without what is trimmed from its start.
pub open spec fn trim_start(s: Seq<char>, what: Trim) -> Seq<char>
    decreases s.len(),
{
    if s.len() > 0 && what.hits(s[0]) {
        trim_start(s.skip(1), what)
    } else {
        s
    }
}

/// The text without what is trimmed from its end.
pub open spec fn trim_end(s: Seq<char>, what: Trim) -> Seq<char>
    decreases s.len(),
{
    if s.len() > 0 && what.hits(s.last()) {
        trim_end(s.drop_last(), what)
    } else {
        s
    }
}

fn end_of(v: &Vec<char>, from: usize, what: Trim) -> (to: usize)
    requires
        from <= v@.len(),
    ensures
        from <= to <= v@.len(),
        v@.subrange(from as int, to as int) == trim_end(v@.skip(from as int), what),
{
    let mut to: usize = v.len();
    assert(v@.subrange(from as int, to as int) =~= v@.skip(from as int));
    while to > from && what.takes(v[to - 1])
        invariant
            from <= to <= v@.len(),
            trim_end(v@.subrange(from as int, to as int), what) == trim_end(
                v@.skip(from as int),
                what,
            ),
        decreases to - from,
    {
        assert(v@.subrange(from as int, to as int).drop_last() =~= v@.subrange(
            from as int,
            to - 1,
        ));
        to = to - 1;
    }
    to
}

fn start_of(v: &Vec<char>, what: Trim) -> (from: usize)
    ensures
        from <= v@.len(),
        v@.skip(from as int) == trim_start(v@, what),
{
    let mut from: usize = 0;
    assert(v@.skip(0) =~= v@);
    while from < v.len() && what.takes(v[from])
        invariant
            from <= v@.len(),
            trim_start(v@.skip(from as int), what) == trim_start(v@, what),
        decreases v@.len() - from,
    {
        assert(v@.skip(from as int).skip(1) =~= v@.skip(from + 1));
        from = from + 1;
    }
    from
}

/// `str::trim` and `str::trim_matches`: the text without what is trimmed from both
/// its ends.
pub fn trimmed(s: &str, what: Trim) -> (r: String)
    ensures
        r@ == trim_end(trim_start(s@, what), what),
{
    let v = chars_of(s);
    let from = start_of(&v, what);
    let to = end_of(&v, from, what);
    slice_of(&v, from, to)
}

/// `str::trim_end_matches`: the text without what is trimmed from its end.
pub fn trimmed_end(s: &str, what: Trim) -> (r: String)
    ensures
        r@ == trim_end(s@, what),
{
    let v = chars_of(s);
    assert(v@.skip(0) =~= v@);
    let to = end_of(&v, 0, what);
    slice_of(&v, 0, to)
}

/// What the text has before a given end, if it has that end.
pub open spec fn without_end(s: Seq<char>, end: Seq<char>) -> Option<Seq<char>> {
    if end.len() <= s.len() && s.skip(s.len() - end.len()) == end {
        Some(s.take(s.len() - end.len()))
    } else {
        None
    }
}

/// `str::strip_suffix`.
pub fn strip_end(s: &str, end: &str) -> (r: Option<String>)
    ensures
        opt_text(r) == without_end(s@, end@),
{
    let v = chars_of(s);
    let n: usize = end.unicode_len();
    if v.len() < n {
        return None;
    }
    let k: usize = v.len() - n;
    let tail = slice_of(&v, k, v.len());
    assert(tail@ =~= s@.skip(k as int));
    if same_text(tail.as_str(), end) {
        let head = slice_of(&v, 0, k);
        assert(head@ =~= s@.take(k as int));
        Some(head)
    } else {
        None
    }
}

/// A text without separators goes on where the last piece ended.
pub proof fn lemma_split_goes_on(s: Seq<char>, t: Seq<char>, sep: spec_fn(char) -> bool)
    requires
        forall|i: int| 0 <= i < t.len() ==> !sep(#[trigger] t[i]),
    ensures
        split(s + t, sep) == split(s, sep).update(
            split(s, sep).len() - 1,
            split(s, sep).last() + t,
        ),
    decreases t.len(),
{
    lemma_split_len(s, sep);
    let before = split(s, sep);
    if t.len() == 0 {
        assert(s + t =~= s);
        assert(before.last() + t =~= before.last());
        assert(before.update(before.len() - 1, before.last()) =~= before);
    } else {
        lemma_split_goes_on(s, t.drop_last(), sep);
        assert((s + t).drop_last() =~= s + t.drop_last());
        assert((s + t).last() == t.last());
        assert((before.last() + t.drop_last()).push(t.last()) =~= before.last() + t);
        assert(split(s + t, sep) =~= before.update(before.len() - 1, before.last() + t));
    }
}

// ---------------------------------------------------------------------------
// Sorting and replacing

/// No text comes before one that stands before it.
pub open spec fn sorted(v: Seq<Seq<char>>) -> bool {
    forall|i: int, j: int| 0 <= i < j < v.len() ==> !before(#[trigger] v[j], #[trigger] v[i])
}

/// Each text comes before those that stand behind it, so none is there twice.
pub open spec fn ascending(v: Seq<Seq<char>>) -> bool {
    forall|i: int, j: int| 0 <= i < j < v.len() ==> before(#[trigger] v[i], #[trigger] v[j])
}

/// The texts stay in order when one is put where those before it come no later and
/// the next comes later.
pub proof fn lemma_sorted_after_insert(v: Seq<Seq<char>>, i: int, t: Seq<char>)
    requires
        sorted(v),
        0 <= i <= v.len(),
        forall|k: int| 0 <= k < i ==> !before(t, #[trigger] v[k]),
        i < v.len() ==> before(t, v[i]),
    ensures
        sorted(v.insert(i, t)),
{
    let new = v.insert(i, t);
    assert forall|a: int, b: int| 0 <= a < b < new.len() implies !before(
        #[trigger] new[b],
        #[trigger] new[a],
    ) by {
        if a == i {
            if before(v[b - 1], t) {
                the_order_of_texts_carries_over(v[b - 1], t, v[i]);
                if b - 1 > i {
                    assert(!before(v[b - 1], v[i]));
                } else {
                    texts_are_ordered(t, v[i]);
                }
            }
        } else if b != i {
            let x = if a < i {
                a
            } else {
                a - 1
            };
            let y = if b < i {
                b
            } else {
                b - 1
            };
            assert(!before(v[y], v[x]));
        }
    }
}

/// Putting something into a list puts it among the list's members.
pub proof fn lemma_insert_adds_one<A>(s: Seq<A>, i: int, a: A)
    requires
        0 <= i <= s.len(),
    ensures
        s.insert(i, a).to_multiset() == s.to_multiset().insert(a),
{
    broadcast use {vstd::multiset::group_multiset_axioms, vstd::seq_lib::group_to_multiset_ensures};

    let t = s.insert(i, a);
    assert(t.remove(i) =~= s);
    assert(t[i] == a);
    assert(t.contains(a));
    assert(t.remove(i).to_multiset() == t.to_multiset().remove(a));
    assert(t.to_multiset() =~= s.to_multiset().insert(a));
}

/// The text with each occurrence of `from` replaced, from the start on.
pub open spec fn replace(s: Seq<char>, from: Seq<char>, to: Seq<char>) -> Seq<char>
    decreases s.len(),
{
    if from.len() == 0 || s.len() < from.len() {
        s
    } else if s.take(from.len() as int) == from {
        to + replace(s.skip(from.len() as int), from, to)
    } else {
        seq![s[0]] + replace(s.skip(1), from, to)
    }
}

/// `str::replace` of a text that is not empty.
pub fn replaced(s: &str, from: &str, to: &str) -> (r: String)
    ensures
        r@ == replace(s@, from@, to@),
{
    let v = chars_of(s);
    let n: usize = from.unicode_len();
    if n == 0 {
        return s.to_owned();
    }
    let mut out = String::new();
    let mut i: usize = 0;
    assert(v@.skip(0) =~= v@);
    assert(out@ + replace(v@.skip(0), from@, to@) =~= replace(s@, from@, to@));
    while i < v.len() && v.len() - i >= n
        invariant
            n == from@.len(),
            n > 0,
            v@ == s@,
            i <= v@.len(),
            out@ + replace(v@.skip(i as int), from@, to@) == replace(s@, from@, to@),
        decreases v@.len() - i,
    {
        let ghost done = out@;
        let ghost rest = v@.skip(i as int);
        let piece = slice_of(&v, i, i + n);
        assert(piece@ =~= rest.take(n as int));
        if same_text(piece.as_str(), from) {
            out.append(to);
            assert(rest.skip(n as int) =~= v@.skip(i + n));
            assert(out@ + replace(v@.skip(i + n), from@, to@) =~= done + replace(
                rest,
                from@,
                to@,
            ));
            i = i + n;
        } else {
            out.push(v[i]);
            assert(rest.skip(1) =~= v@.skip(i + 1));
            assert(out@ + replace(v@.skip(i + 1), from@, to@) =~= done + replace(rest, from@, to@));
            i = i + 1;
        }
    }
    let tail = slice_of(&v, i, v.len());
    assert(tail@ =~= v@.skip(i as int));
    out.append(tail.as_str());
    out
}

// ---------------------------------------------------------------------------
// Lines

/// The line without a carriage return at its end.
pub open spec fn without_return(line: Seq<char>) -> Seq<char> {
    if line.len() > 0 && line.last() == '\r' {
        line.drop_last()
    } else {
        line
    }
}

/// The lines of the text: what stands before each line feed, without the carriage
/// return before it, and what stands after the last.
pub open spec fn lines(s: Seq<char>) -> Seq<Seq<char>> {
    let parts = pieces(s, '\n');
    let full = Seq::new((parts.len() - 1) as nat, |i: int| without_return(parts[i]));
    if parts.last().len() == 0 {
        full
    } else {
        full.push(parts.last())
    }
}

fn strip_return(line: &str) -> (r: String)
    ensures
        r@ == without_return(line@),
{
    let v = chars_of(line);
    let n: usize = v.len();
    if n > 0 && v[n - 1] == '\r' {
        let r = slice_of(&v, 0, n - 1);
        assert(r@ =~= line@.drop_last());
        r
    } else {
        line.to_owned()
    }
}

/// `str::lines`.
pub fn split_lines(s: &str) -> (r: Vec<String>)
    ensures
        texts(r@) == lines(s@),
{
    let parts = split_at_char(s, '\n');
    let ghost ps = pieces(s@, '\n');
    proof {
        lemma_split_len(s@, at_char('\n'));
        assert(ps.len() == parts@.len());
    }
    let n: usize = parts.len() - 1;
    let mut out: Vec<String> = Vec::new();
    let mut i: usize = 0;
    while i < n
        invariant
            ps == texts(parts@),
            n == parts@.len() - 1,
            i <= n,
            out@.len() == i,
            forall|k: int| 0 <= k < i ==> (#[trigger] out@[k])@ == without_return(ps[k]),
        decreases n - i,
    {
        assert(ps[i as int] == parts@[i as int]@);
        out.push(strip_return(parts[i].as_str()));
        i = i + 1;
    }
    assert(ps.last() == parts@[n as int]@);
    let ghost full = Seq::new((ps.len() - 1) as nat, |i: int| without_return(ps[i]));
    assert(texts(out@) =~= full);
    if parts[n].as_str().unicode_len() > 0 {
        out.push(parts[n].clone());
        assert(texts(out@) =~= full.push(ps.last()));
    }
    out
}

/// A text that does not hold what is to be replaced stays as it is.
pub proof fn nothing_to_replace_leaves_the_text(s: Seq<char>, from: Seq<char>, to: Seq<char>)
    requires
        !holds_text(s, from),
    ensures
        replace(s, from, to) == s,
    decreases s.len(),
{
    if from.len() > 0 && s.len() >= from.len() {
        if s.take(from.len() as int) == from {
            assert(s.subrange(0, from.len() as int) =~= s.take(from.len() as int));
            assert(occurs_at(s, from, 0));
        }
        let rest = s.skip(1);
        assert(!holds_text(rest, from)) by {
            if holds_text(rest, from) {
                let at = choose|at: int| occurs_at(rest, from, at);
                assert(s.subrange(at + 1, at + 1 + from.len()) =~= rest.subrange(at, at + from.len()));
                assert(occurs_at(s, from, at + 1));
            }
        }
        nothing_to_replace_leaves_the_text(rest, from, to);
        assert(seq![s[0]] + rest =~= s);
    }
}

/// A start of the result without the mark that replacements begin with is a start of the
/// text.
proof fn lemma_start_of_replaced(s: Seq<char>, from: Seq<char>, to: Seq<char>, mark: char, n: int)
    requires
        to.len() > 0,
        to[0] == mark,
        0 <= n <= replace(s, from, to).len(),
        !replace(s, from, to).take(n).contains(mark),
    ensures
        n <= s.len(),
        s.take(n) == replace(s, from, to).take(n),
    decreases n,
{
    let r = replace(s, from, to);
    if n > 0 && from.len() > 0 && s.len() >= from.len() {
        assert(r.take(n)[0] == r[0]);
        if s.take(from.len() as int) == from {
            assert(r[0] == mark);
            assert(r.take(n).contains(mark));
        } else {
            let rest = replace(s.skip(1), from, to);
            assert(r =~= seq![s[0]] + rest);
            assert(rest.take(n - 1) =~= r.take(n).skip(1));
            assert(!rest.take(n - 1).contains(mark)) by {
                if rest.take(n - 1).contains(mark) {
                    let part = rest.take(n - 1);
                    let i = choose|i: int| 0 <= i < part.len() && part[i] == mark;
                    assert(r.take(n)[i + 1] == mark);
                }
            }
            lemma_start_of_replaced(s.skip(1), from, to, mark, n - 1);
            assert(s.take(n) =~= seq![s[0]] + s.skip(1).take(n - 1));
            assert(r.take(n) =~= seq![s[0]] + rest.take(n - 1));
        }
    } else if n > 0 {
        assert(r == s);
    }
}

/// A text in brackets that stands in for another brings in no word but what is within the
/// brackets: a word without brackets that it does not hold is in the result only if it was
/// in the text. What was replaced is not in the result.
pub proof fn what_was_replaced_is_gone(s: Seq<char>, from: Seq<char>, to: Seq<char>, word: Seq<char>)
    requires
        from.len() > 0,
        word.len() > 0,
        !word.contains('['),
        !word.contains(']'),
        to.len() > 0,
        to[0] == '[',
        to.last() == ']',
        !holds_text(to, word),
        holds_text(replace(s, from, to), word),
    ensures
        holds_text(s, word),
        word != from,
    decreases s.len(),
{
    let r = replace(s, from, to);
    let n = word.len() as int;
    let at = choose|at: int| occurs_at(r, word, at);
    if s.len() < from.len() {
        assert(occurs_at(s, word, at));
        if word == from {
            assert(at + n <= s.len());
        }
    } else if s.take(from.len() as int) == from {
        let rest = s.skip(from.len() as int);
        let after = replace(rest, from, to);
        let m = to.len() as int;
        if at >= m {
            assert(after.subrange(at - m, at - m + n) =~= r.subrange(at, at + n));
            assert(occurs_at(after, word, at - m));
            what_was_replaced_is_gone(rest, from, to, word);
            let k = choose|k: int| occurs_at(rest, word, k);
            assert(s.subrange(k + from.len(), k + from.len() + n) =~= rest.subrange(k, k + n));
            assert(occurs_at(s, word, k + from.len()));
        } else if at + n <= m {
            assert(to.subrange(at, at + n) =~= r.subrange(at, at + n));
            assert(occurs_at(to, word, at));
        } else {
            assert(r[m - 1] == ']');
            assert(r.subrange(at, at + n)[m - 1 - at] == ']');
            assert(word[m - 1 - at] == ']');
            assert(word.contains(']'));
        }
    } else {
        let rest = s.skip(1);
        let after = replace(rest, from, to);
        if at >= 1 {
            assert(after.subrange(at - 1, at - 1 + n) =~= r.subrange(at, at + n));
            assert(occurs_at(after, word, at - 1));
            what_was_replaced_is_gone(rest, from, to, word);
            let k = choose|k: int| occurs_at(rest, word, k);
            assert(s.subrange(k + 1, k + 1 + n) =~= rest.subrange(k, k + n));
            assert(occurs_at(s, word, k + 1));
        } else {
            assert(r.take(n) =~= r.subrange(0, n));
            lemma_start_of_replaced(s, from, to, '[', n);
            assert(s.subrange(0, n) =~= s.take(n));
            assert(occurs_at(s, word, 0));
        }
    }
}

// ---------------------------------------------------------------------------
// What cutting and trimming leave

proof fn lemma_pieces(s: Seq<char>, c: char)
    ensures
        pieces(s, c).len() > 0,
        joined(pieces(s, c), seq![c]) == s,
        forall|i: int| 0 <= i < pieces(s, c).len() ==> !(#[trigger] pieces(s, c)[i]).contains(c),
    decreases s.len(),
{
    let all = pieces(s, c);
    if s.len() == 0 {
        assert(joined(all, seq![c]) =~= s);
    } else {
        let first = pieces(s.drop_last(), c);
        lemma_pieces(s.drop_last(), c);
        let x = s.last();
        if x == c {
            assert(all.drop_last() =~= first);
            assert(joined(all, seq![c]) =~= s);
        } else {
            let last = first.last().push(x);
            assert(all.drop_last() =~= first.drop_last());
            assert(all.last() == last);
            assert(joined(all, seq![c]) =~= joined(first, seq![c]).push(x));
            assert(joined(all, seq![c]) =~= s);
            assert forall|i: int| 0 <= i < all.len() implies !(#[trigger] all[i]).contains(c) by {
                if i < all.len() - 1 {
                    assert(all[i] == first[i]);
                } else if last.contains(c) {
                    let k = last.index_of(c);
                    assert(first.last()[k] == c);
                    assert(!first[first.len() - 1].contains(c));
                }
            }
        }
    }
}

/// Cutting a text at a character loses nothing: put together with that character, the
/// pieces are the text again, and none of them holds it.
pub proof fn pieces_join_to_the_text(s: &str, c: char, r: Vec<String>)
    requires
        call_ensures(split_at_char, (s, c), r),
    ensures
        joined(texts(r@), seq![c]) == s@,
        forall|i: int| 0 <= i < r@.len() ==> !(#[trigger] r@[i])@.contains(c),
        r@.len() > 0,
{
    lemma_pieces(s@, c);
    assert(texts(r@).len() == r@.len());
    assert forall|i: int| 0 <= i < r@.len() implies !(#[trigger] r@[i])@.contains(c) by {
        assert(texts(r@)[i] == r@[i]@);
    }
}

/// A trimmed text is a stretch of the text that neither begins nor ends with what is
/// trimmed, and what was around it is all trimmed.
pub proof fn what_trimming_leaves(s: Seq<char>, what: Trim) -> (cut: (int, int))
    ensures
        0 <= cut.0 <= cut.1 <= s.len(),
        trim_end(trim_start(s, what), what) == s.subrange(cut.0, cut.1),
        forall|i: int| 0 <= i < s.len() && !(cut.0 <= i < cut.1) ==> what.hits(#[trigger] s[i]),
        cut.0 < cut.1 ==> !what.hits(s[cut.0]) && !what.hits(s[cut.1 - 1]),
{
    let a = lemma_trim_start(s, what);
    let t = trim_start(s, what);
    let b = lemma_trim_end(t, what);
    assert(t.take(b) =~= s.subrange(a, a + b));
    assert forall|i: int| 0 <= i < s.len() && !(a <= i < a + b) implies what.hits(#[trigger] s[i]) by {
        if i >= a + b {
            assert(t[i - a] == s[i]);
        }
    }
    if b > 0 {
        assert(t[0] == s[a]);
        assert(t[b - 1] == s[a + b - 1]);
    }
    (a, a + b)
}

proof fn lemma_trim_start(s: Seq<char>, what: Trim) -> (a: int)
    ensures
        0 <= a <= s.len(),
        trim_start(s, what) == s.skip(a),
        forall|i: int| 0 <= i < a ==> what.hits(#[trigger] s[i]),
        a < s.len() ==> !what.hits(s[a]),
    decreases s.len(),
{
    if s.len() > 0 && what.hits(s[0]) {
        let n = lemma_trim_start(s.skip(1), what);
        assert(s.skip(1).skip(n) =~= s.skip(n + 1));
        assert forall|i: int| 0 <= i < n + 1 implies what.hits(#[trigger] s[i]) by {
            if i > 0 {
                assert(s.skip(1)[i - 1] == s[i]);
            }
        }
        n + 1
    } else {
        assert(s.skip(0) =~= s);
        0
    }
}

proof fn lemma_trim_end(s: Seq<char>, what: Trim) -> (b: int)
    ensures
        0 <= b <= s.len(),
        trim_end(s, what) == s.take(b),
        forall|i: int| b <= i < s.len() ==> what.hits(#[trigger] s[i]),
        b > 0 ==> !what.hits(s[b - 1]),
    decreases s.len(),
{
    if s.len() > 0 && what.hits(s.last()) {
        let n = lemma_trim_end(s.drop_last(), what);
        assert(s.drop_last().take(n) =~= s.take(n));
        assert forall|i: int| n <= i < s.len() implies what.hits(#[trigger] s[i]) by {
            if i < s.len() - 1 {
                assert(s.drop_last()[i] == s[i]);
            }
        }
        n
    } else {
        assert(s.take(s.len() as int) =~= s);
        s.len() as int
    }
}

/// The first character that differs decides which text comes first, and a text comes
/// before what it is the beginning of.
pub proof fn the_first_difference_orders_texts(a: Seq<char>, b: Seq<char>, n: int)
    requires
        0 <= n <= a.len(),
        n <= b.len(),
        a.take(n) == b.take(n),
    ensures
        n < a.len() && n < b.len() && a[n] != b[n] ==> before(a, b) == (a[n] < b[n]),
        n == a.len() ==> before(a, b) == (a.len() < b.len()),
    decreases n,
{
    if n > 0 {
        assert(a.take(n)[0] == a[0] && b.take(n)[0] == b[0]);
        assert(a.skip(1).take(n - 1) =~= a.take(n).skip(1));
        assert(b.skip(1).take(n - 1) =~= b.take(n).skip(1));
        the_first_difference_orders_texts(a.skip(1), b.skip(1), n - 1);
    }
}

/// A text is cut at the first such character: nothing is lost, and what stands before the
/// cut holds none.
pub proof fn a_text_is_cut_at_the_first(s: &str, c: char, r: Option<(String, String)>)
    requires
        call_ensures(cut_once, (s, c), r),
    ensures
        r is Some <==> s@.contains(c),
        r matches Some(p) ==> p.0@ + seq![c] + p.1@ == s@ && !p.0@.contains(c),
{
    lemma_first_of(s@, c);
    if let Some(p) = r {
        let n = first_of(s@, c);
        assert(p.0@ + seq![c] + p.1@ =~= s@);
        if p.0@.contains(c) {
            let k = p.0@.index_of(c);
            assert(s@[k] == c);
        }
    }
}

/// No word is empty, and none holds white space.
pub proof fn words_hold_no_white_space(s: Seq<char>, i: int, k: int)
    requires
        0 <= i < words(s).len(),
        0 <= k < words(s)[i].len(),
    ensures
        !white_space(words(s)[i][k]),
{
    lemma_words_stand_between(s);
    let parts = split(s, at_space());
    lemma_non_empty(parts, words(s)[i]);
    assert(words(s).contains(words(s)[i]));
    let j = choose|j: int| 0 <= j < parts.len() && parts[j] == words(s)[i];
    assert(!white_space(parts[j][k]));
}

proof fn lemma_words_stand_between(s: Seq<char>)
    ensures
        split(s, at_space()).len() > 0,
        forall|j: int, k: int|
            0 <= j < split(s, at_space()).len() && 0 <= k < split(s, at_space())[j].len()
                ==> !white_space(#[trigger] split(s, at_space())[j][k]),
    decreases s.len(),
{
    if s.len() > 0 {
        lemma_words_stand_between(s.drop_last());
        let all = split(s, at_space());
        let first = split(s.drop_last(), at_space());
        assert forall|j: int, k: int| 0 <= j < all.len() && 0 <= k < all[j].len() implies !white_space(
            #[trigger] all[j][k],
        ) by {
            if j < first.len() && k < first[j].len() {
                assert(all[j][k] == first[j][k]);
            }
        }
    }
}

proof fn lemma_non_empty(v: Seq<Seq<char>>, x: Seq<char>)
    ensures
        non_empty(v).contains(x) <==> v.contains(x) && x.len() > 0,
    decreases v.len(),
{
    let all = non_empty(v);
    if v.len() > 0 {
        let rest = v.drop_last();
        let first = non_empty(rest);
        lemma_non_empty(rest, x);
        if all.contains(x) {
            let k = all.index_of(x);
            if k < first.len() {
                assert(first[k] == x);
                let i = rest.index_of(x);
                assert(v[i] == x);
            } else {
                assert(v[v.len() - 1] == x);
            }
        }
        if v.contains(x) && x.len() > 0 {
            let i = v.index_of(x);
            if i < rest.len() {
                assert(rest[i] == x);
                let k = first.index_of(x);
                assert(all[k] == x);
            } else {
                assert(all[all.len() - 1] == x);
            }
        }
    }
}

} // verus!
