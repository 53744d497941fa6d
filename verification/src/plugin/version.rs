//! Versions of pastor and of its plugins.

use vstd::prelude::*;
use vstd::string::*;

use crate::digits;
use crate::text;
use crate::text::Trim;

verus! {

/// `major.minor.patch`, numbers only: enough to compare `min_pastor_version`.
/// Pre-release suffixes are rejected rather than half-understood.
#[derive(Debug, Clone, Copy, PartialEq, Eq, PartialOrd, Ord, Structural)]
pub struct Version(pub u64, pub u64, pub u64);

/// The version a text stands for.
pub open spec fn version_of(s: Seq<char>) -> Option<Version> {
    let parts = text::pieces(text::trim_end(text::trim_start(s, Trim::Space), Trim::Space), '.');
    if parts.len() != 3 {
        None
    } else {
        match (
            digits::unsigned_value(parts[0], u64::MAX as nat),
            digits::unsigned_value(parts[1], u64::MAX as nat),
            digits::unsigned_value(parts[2], u64::MAX as nat),
        ) {
            (Some(a), Some(b), Some(c)) => Some(Version(a as u64, b as u64, c as u64)),
            _ => None,
        }
    }
}

/// What is said of a text that is no version.
pub open spec fn no_version(s: Seq<char>) -> Seq<char> {
    text::debug_text(s) + " is not major.minor.patch"@
}

impl Version {
    /// Read a version.
    pub fn parse(s: &str) -> (r: Result<Version, String>)
        ensures
            match (r, version_of(s@)) {
                (Ok(v), Some(w)) => v == w,
                (Err(e), None) => e@ == no_version(s@),
                _ => false,
            },
    {
        let trimmed = text::trimmed(s, Trim::Space);
        let parts = text::split_at_char(trimmed.as_str(), '.');
        let ghost ts = text::texts(parts@);
        assert(ts.len() == parts@.len());
        if parts.len() == 3 {
            assert(parts@[0]@ == ts[0] && parts@[1]@ == ts[1] && parts@[2]@ == ts[2]);
            if let Some(a) = digits::read_unsigned(parts[0].as_str(), u64::MAX) {
                if let Some(b) = digits::read_unsigned(parts[1].as_str(), u64::MAX) {
                    if let Some(c) = digits::read_unsigned(parts[2].as_str(), u64::MAX) {
                        return Ok(Version(a, b, c));
                    }
                }
            }
        }
        let mut e = text::debug_quoted(s);
        e.append(" is not major.minor.patch");
        Err(e)
    }

    /// How the version is written.
    pub open spec fn text(self) -> Seq<char> {
        digits::decimal(self.0 as nat) + "."@ + digits::decimal(self.1 as nat) + "."@
            + digits::decimal(self.2 as nat)
    }

    /// How the version is written.
    pub fn print(&self) -> (r: String)
        ensures
            r@ == self.text(),
    {
        let mut s = digits::print_number(self.0);
        s.append(".");
        s.append(digits::print_number(self.1).as_str());
        s.append(".");
        s.append(digits::print_number(self.2).as_str());
        s
    }

    /// The version is older than the other: its numbers decide, the first first.
    pub open spec fn older(self, other: Version) -> bool {
        ||| self.0 < other.0
        ||| self.0 == other.0 && self.1 < other.1
        ||| self.0 == other.0 && self.1 == other.1 && self.2 < other.2
    }

    /// Whether the version is older than the other.
    pub fn is_older(&self, other: &Version) -> (b: bool)
        ensures
            b == self.older(*other),
    {
        self.0 < other.0 || (self.0 == other.0 && (self.1 < other.1 || (self.1 == other.1 && self.2
            < other.2)))
    }
}

/// Of two versions one is older, or they are the same.
pub proof fn versions_are_ordered(a: Version, b: Version)
    ensures
        a.older(b) || b.older(a) || a == b,
        !(a.older(b) && b.older(a)),
        !a.older(a),
{
}

/// A version that is written down reads back as itself.
pub proof fn a_version_reads_back(v: Version)
    ensures
        version_of(v.text()) == Some(v),
{
    let a = digits::decimal(v.0 as nat);
    let b = digits::decimal(v.1 as nat);
    let c = digits::decimal(v.2 as nat);
    digits::decimal_reads_back(v.0 as nat);
    digits::decimal_reads_back(v.1 as nat);
    digits::decimal_reads_back(v.2 as nat);
    reveal_strlit(".");
    let s = v.text();
    assert(s =~= a.push('.') + b + seq!['.'] + c);
    lemma_digits_are_plain(a);
    lemma_digits_are_plain(b);
    lemma_digits_are_plain(c);
    assert(s[0] == a[0]);
    assert(s.last() == c.last());
    let sep = text::at_char('.');
    let e = Seq::<char>::empty();
    text::lemma_split_goes_on(e, a, sep);
    assert(e + a =~= a);
    assert(text::split(a, sep) =~= seq![a]);
    assert(a.push('.').drop_last() =~= a);
    assert(text::split(a.push('.'), sep) =~= seq![a, e]);
    text::lemma_split_goes_on(a.push('.'), b, sep);
    assert(text::split(a.push('.') + b, sep) =~= seq![a, b]);
    let ab = a.push('.') + b;
    assert(ab.push('.').drop_last() =~= ab);
    assert(text::split(ab.push('.'), sep) =~= seq![a, b, e]);
    text::lemma_split_goes_on(ab.push('.'), c, sep);
    assert(ab.push('.') + c =~= s);
    assert(text::split(s, sep) =~= seq![a, b, c]);
}

proof fn lemma_digits_are_plain(d: Seq<char>)
    requires
        digits::all_digits(d),
        d.len() > 0,
    ensures
        forall|i: int| 0 <= i < d.len() ==> #[trigger] d[i] != '.' && !text::white_space(d[i]) && d[i]
            != '+',
{
}

/// pastor's own version.
pub const PASTOR_VERSION: &'static str = "0.4.0";

/// The text up to the first `-` or `+`.
pub open spec fn release_part(v: Seq<char>) -> Seq<char> {
    let dash = text::first_of(v, '-');
    let plus = text::first_of(v, '+');
    v.take(
        if dash < plus {
            dash
        } else {
            plus
        },
    )
}

/// A version as `min_pastor_version` compares it: the release it leads up to,
/// without a pre-release or build suffix. A release candidate (`0.4.0-rc.1`) has
/// that release's features, so it counts as `0.4.0`.
pub fn crate_version(v: &str) -> (r: Version)
    requires
        version_of(release_part(v@)) is Some,
    ensures
        Some(r) == version_of(release_part(v@)),
{
    let cs = text::chars_of(v);
    let dash = text::position(&cs, '-');
    let plus = text::position(&cs, '+');
    proof {
        text::lemma_first_of(v@, '-');
        text::lemma_first_of(v@, '+');
    }
    let to: usize = if dash < plus {
        dash
    } else {
        plus
    };
    let release = text::slice_of(&cs, 0, to);
    assert(release@ =~= release_part(v@));
    match Version::parse(release.as_str()) {
        Ok(r) => r,
        Err(_) => vstd::pervasive::unreached(),
    }
}

/// pastor's own version, as `min_pastor_version` compares it.
pub fn pastor_version() -> (r: Version)
    ensures
        r == Version(0, 4, 0),
{
    proof {
        reveal_strlit("0.4.0");
        reveal_strlit(".");
        a_version_reads_back(Version(0, 4, 0));
        let s = "0.4.0"@;
        reveal_with_fuel(digits::decimal, 2);
        assert(s =~= Version(0, 4, 0).text());
        text::lemma_first_of(s, '-');
        text::lemma_first_of(s, '+');
        assert(!s.contains('-'));
        assert(!s.contains('+'));
        assert(release_part(s) =~= s);
    }
    crate_version(PASTOR_VERSION)
}

/// What is written of a version is read as that version, and a release candidate or a
/// build counts as the release it leads up to, whatever its suffix says.
pub proof fn a_suffix_does_not_change_the_version(v: &Version, w: String, s: &str, suffix: Seq<char>, r: Version)
    requires
        call_ensures(Version::print, (v,), w),
        suffix.len() > 0 ==> suffix[0] == '-' || suffix[0] == '+',
        s@ == w@ + suffix,
        call_ensures(crate_version, (s,), r),
    ensures
        r == *v,
{
    a_version_reads_back(*v);
    let t = v.text();
    reveal_strlit(".");
    digits::decimal_reads_back(v.0 as nat);
    digits::decimal_reads_back(v.1 as nat);
    digits::decimal_reads_back(v.2 as nat);
    assert(forall|i: int| 0 <= i < t.len() ==> #[trigger] t[i] == '.' || digits::is_digit(t[i]));
    text::lemma_first_of(s@, '-');
    text::lemma_first_of(s@, '+');
    assert forall|i: int| 0 <= i < t.len() implies #[trigger] s@[i] != '-' && s@[i] != '+' by {
        assert(s@[i] == t[i]);
    }
    if suffix.len() > 0 {
        assert(s@[t.len() as int] == suffix[0]);
    } else {
        assert(s@ =~= t);
    }
    assert(release_part(s@) =~= t);
}

/// Which of two versions is older is what their numbers say: the first that differs
/// decides.
pub proof fn the_first_number_that_differs_decides(a: &Version, b: &Version, r: bool)
    requires
        call_ensures(Version::is_older, (a, b), r),
    ensures
        a.0 != b.0 ==> r == (a.0 < b.0),
        a.0 == b.0 && a.1 != b.1 ==> r == (a.1 < b.1),
        a.0 == b.0 && a.1 == b.1 ==> r == (a.2 < b.2),
{
}

} // verus!
