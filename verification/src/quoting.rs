//! Writing a text so that another program reads it as one word.

use vstd::prelude::*;
use vstd::string::*;

use crate::digits;
use crate::text;

verus! {

// ---------------------------------------------------------------------------
// For a shell

/// The character needs no quotes in a shell.
pub open spec fn plain_in_shell(c: char) -> bool {
    ||| 'a' <= c <= 'z'
    ||| 'A' <= c <= 'Z'
    ||| digits::is_digit(c)
    ||| c == '-'
    ||| c == '_'
    ||| c == '.'
    ||| c == '/'
    ||| c == ':'
    ||| c == '@'
}

/// The text needs no quotes in a shell.
pub open spec fn plain_word(s: Seq<char>) -> bool {
    s.len() > 0 && forall|i: int| 0 <= i < s.len() ==> plain_in_shell(#[trigger] s[i])
}

/// The text between single quotes: a quote of its own ends them, stands there
/// escaped, and starts them again.
pub open spec fn shell_body(s: Seq<char>) -> Seq<char>
    decreases s.len(),
{
    if s.len() == 0 {
        seq![]
    } else if s.last() == '\'' {
        shell_body(s.drop_last()) + seq!['\'', '\\', '\'', '\'']
    } else {
        shell_body(s.drop_last()).push(s.last())
    }
}

/// The text as one word of a shell.
pub open spec fn shell_word(s: Seq<char>) -> Seq<char> {
    if plain_word(s) {
        s
    } else {
        seq!['\''] + shell_body(s) + seq!['\'']
    }
}

/// Quote a text for a shell.
pub fn shell_quote(s: &str) -> (r: String)
    ensures
        r@ == shell_word(s@),
{
    let v = text::chars_of(s);
    let mut plain = v.len() > 0;
    let mut out = String::new();
    out.push('\'');
    let mut i: usize = 0;
    assert(out@ =~= seq!['\''] + shell_body(v@.take(0)));
    while i < v.len()
        invariant
            i <= v@.len(),
            v@ == s@,
            out@ == seq!['\''] + shell_body(v@.take(i as int)),
            plain == (v@.len() > 0 && forall|k: int|
                0 <= k < i ==> plain_in_shell(#[trigger] v@[k])),
        decreases v@.len() - i,
    {
        let c = v[i];
        proof {
            assert(v@.take(i + 1).drop_last() =~= v@.take(i as int));
            assert(v@.take(i + 1).last() == c);
        }
        if !(('a' <= c && c <= 'z') || ('A' <= c && c <= 'Z') || ('0' <= c && c <= '9') || c == '-'
            || c == '_' || c == '.' || c == '/' || c == ':' || c == '@') {
            plain = false;
            assert(!plain_in_shell(v@[i as int]));
        }
        if c == '\'' {
            out.push('\'');
            out.push('\\');
            out.push('\'');
            out.push('\'');
        } else {
            out.push(c);
        }
        assert(out@ =~= seq!['\''] + shell_body(v@.take(i + 1)));
        i = i + 1;
    }
    assert(v@.take(i as int) =~= v@);
    if plain {
        return s.to_owned();
    }
    out.push('\'');
    assert(out@ =~= shell_word(s@));
    out
}

/// How far a shell is into a word.
pub enum ShellMode {
    Bare,
    /// After a backslash.
    Escaped,
    /// Between single quotes.
    Quoted,
}

/// What a shell has read of a word: how far it is, the text so far, and whether
/// some character meant anything but itself.
pub struct ShellRead {
    pub mode: ShellMode,
    pub text: Seq<char>,
    pub special: bool,
}

/// What a POSIX shell reads, one character after another: single quotes keep all
/// that stands between them, a backslash keeps the next character, and outside them
/// only plain characters mean nothing but themselves.
pub open spec fn shell_reads(w: Seq<char>) -> ShellRead
    decreases w.len(),
{
    if w.len() == 0 {
        ShellRead { mode: ShellMode::Bare, text: seq![], special: false }
    } else {
        let r = shell_reads(w.drop_last());
        let c = w.last();
        match r.mode {
            ShellMode::Quoted => if c == '\'' {
                ShellRead { mode: ShellMode::Bare, ..r }
            } else {
                ShellRead { text: r.text.push(c), ..r }
            },
            ShellMode::Escaped => ShellRead { mode: ShellMode::Bare, text: r.text.push(c), ..r },
            ShellMode::Bare => if c == '\'' {
                ShellRead { mode: ShellMode::Quoted, ..r }
            } else if c == '\\' {
                ShellRead { mode: ShellMode::Escaped, ..r }
            } else if plain_in_shell(c) {
                ShellRead { text: r.text.push(c), ..r }
            } else {
                ShellRead { special: true, ..r }
            },
        }
    }
}

/// A shell reads a quoted text as that text and nothing else: no character of it
/// means anything to the shell.
pub proof fn a_shell_reads_back_what_was_quoted(s: Seq<char>)
    ensures
        shell_word(s).len() > 0,
        shell_reads(shell_word(s)) == (ShellRead {
            mode: ShellMode::Bare,
            text: s,
            special: false,
        }),
{
    if plain_word(s) {
        lemma_plain_word_reads_back(s);
    } else {
        lemma_shell_body_reads_back(s);
        let w = seq!['\''] + shell_body(s);
        assert(shell_word(s).drop_last() =~= w);
        assert(shell_word(s).last() == '\'');
    }
}

proof fn lemma_plain_word_reads_back(s: Seq<char>)
    requires
        forall|i: int| 0 <= i < s.len() ==> plain_in_shell(#[trigger] s[i]),
    ensures
        shell_reads(s) == (ShellRead { mode: ShellMode::Bare, text: s, special: false }),
    decreases s.len(),
{
    if s.len() > 0 {
        lemma_plain_word_reads_back(s.drop_last());
        assert(plain_in_shell(s.last()));
        assert(s.drop_last().push(s.last()) =~= s);
    } else {
        assert(s =~= seq![]);
    }
}

proof fn lemma_shell_body_reads_back(s: Seq<char>)
    ensures
        shell_reads(seq!['\''] + shell_body(s)) == (ShellRead {
            mode: ShellMode::Quoted,
            text: s,
            special: false,
        }),
    decreases s.len(),
{
    let open = seq!['\''];
    if s.len() == 0 {
        let w = open + shell_body(s);
        assert(w =~= open);
        assert(shell_reads(w.drop_last()).mode is Bare);
        assert(s =~= seq![]);
    } else {
        lemma_shell_body_reads_back(s.drop_last());
        let w = open + shell_body(s.drop_last());
        assert(s.drop_last().push(s.last()) =~= s);
        if s.last() == '\'' {
            let w1 = w.push('\'');
            let w2 = w1.push('\\');
            let w3 = w2.push('\'');
            let w4 = w3.push('\'');
            assert(open + shell_body(s) =~= w4);
            assert(w1.drop_last() =~= w);
            assert(shell_reads(w1).mode is Bare);
            assert(w2.drop_last() =~= w1);
            assert(shell_reads(w2).mode is Escaped);
            assert(w3.drop_last() =~= w2);
            assert(shell_reads(w3).text == s);
            assert(w4.drop_last() =~= w3);
        } else {
            assert((open + shell_body(s)).drop_last() =~= w);
            assert((open + shell_body(s)).last() == s.last());
        }
    }
}

// ---------------------------------------------------------------------------
// For a unit file

/// The character makes a word of a unit file need quotes.
pub open spec fn needs_quotes(c: char) -> bool {
    text::white_space(c) || c == '"' || c == '\\' || c == '\''
}

/// The text with `%` doubled.
pub open spec fn percent_doubled(s: Seq<char>) -> Seq<char>
    decreases s.len(),
{
    if s.len() == 0 {
        seq![]
    } else if s.last() == '%' {
        percent_doubled(s.drop_last()) + seq!['%', '%']
    } else {
        percent_doubled(s.drop_last()).push(s.last())
    }
}

/// The text with `%` doubled and a backslash before each backslash and double quote.
pub open spec fn unit_body(s: Seq<char>) -> Seq<char>
    decreases s.len(),
{
    if s.len() == 0 {
        seq![]
    } else if s.last() == '%' {
        unit_body(s.drop_last()) + seq!['%', '%']
    } else if s.last() == '\\' || s.last() == '"' {
        unit_body(s.drop_last()) + seq!['\\', s.last()]
    } else {
        unit_body(s.drop_last()).push(s.last())
    }
}

/// The text as a word of a unit file.
pub open spec fn unit_word(s: Seq<char>) -> Seq<char> {
    if exists|i: int| 0 <= i < s.len() && needs_quotes(#[trigger] s[i]) {
        seq!['"'] + unit_body(s) + seq!['"']
    } else {
        percent_doubled(s)
    }
}

/// A unit-file word: `%` doubled so systemd does not expand it as a
/// specifier, double-quoted when it has whitespace, quotes or backslashes.
pub fn quote(s: &str) -> (r: String)
    ensures
        r@ == unit_word(s@),
{
    let v = text::chars_of(s);
    let mut awkward = false;
    let mut bare = String::new();
    let mut out = String::new();
    out.push('"');
    let mut i: usize = 0;
    assert(bare@ =~= percent_doubled(v@.take(0)));
    assert(out@ =~= seq!['"'] + unit_body(v@.take(0)));
    while i < v.len()
        invariant
            i <= v@.len(),
            v@ == s@,
            bare@ == percent_doubled(v@.take(i as int)),
            out@ == seq!['"'] + unit_body(v@.take(i as int)),
            awkward == exists|k: int| 0 <= k < i && needs_quotes(#[trigger] v@[k]),
        decreases v@.len() - i,
    {
        let c = v[i];
        proof {
            assert(v@.take(i + 1).drop_last() =~= v@.take(i as int));
            assert(v@.take(i + 1).last() == c);
        }
        if c.is_whitespace() || c == '"' || c == '\\' || c == '\'' {
            assert(needs_quotes(v@[i as int]));
            awkward = true;
        }
        if c == '%' {
            bare.push('%');
            bare.push('%');
            out.push('%');
            out.push('%');
        } else {
            bare.push(c);
            if c == '\\' || c == '"' {
                out.push('\\');
            }
            out.push(c);
        }
        assert(bare@ =~= percent_doubled(v@.take(i + 1)));
        assert(out@ =~= seq!['"'] + unit_body(v@.take(i + 1)));
        i = i + 1;
    }
    assert(v@.take(i as int) =~= v@);
    if awkward {
        out.push('"');
        assert(out@ =~= unit_word(s@));
        out
    } else {
        bare
    }
}

/// What has been read of a word of a unit file.
pub struct UnitRead {
    /// Between double quotes.
    pub quoted: bool,
    /// After a backslash.
    pub escaped: bool,
    /// After a `%` that may be the first of two.
    pub percent: bool,
    pub text: Seq<char>,
    /// The word ended, or a specifier was expanded.
    pub broken: bool,
}

/// What systemd reads, one character after another: double quotes around the word,
/// a backslash before a character, `%%` for a percent sign.
pub open spec fn unit_reads(w: Seq<char>) -> UnitRead
    decreases w.len(),
{
    if w.len() == 0 {
        UnitRead { quoted: false, escaped: false, percent: false, text: seq![], broken: false }
    } else {
        let r = unit_reads(w.drop_last());
        let c = w.last();
        if r.percent {
            if c == '%' {
                UnitRead { percent: false, text: r.text.push('%'), ..r }
            } else {
                UnitRead { broken: true, ..r }
            }
        } else if r.escaped {
            UnitRead { escaped: false, text: r.text.push(c), ..r }
        } else if c == '%' {
            UnitRead { percent: true, ..r }
        } else if c == '\\' {
            UnitRead { escaped: true, ..r }
        } else if c == '"' {
            UnitRead { quoted: !r.quoted, ..r }
        } else if !r.quoted && (text::white_space(c) || c == '\'') {
            UnitRead { broken: true, ..r }
        } else {
            UnitRead { text: r.text.push(c), ..r }
        }
    }
}

/// systemd reads a quoted text as that text, in one word and with no specifier
/// expanded.
pub proof fn systemd_reads_back_what_was_quoted(s: Seq<char>)
    ensures
        unit_reads(unit_word(s)) == (UnitRead {
            quoted: false,
            escaped: false,
            percent: false,
            text: s,
            broken: false,
        }),
{
    if exists|i: int| 0 <= i < s.len() && needs_quotes(#[trigger] s[i]) {
        lemma_unit_body_reads_back(s);
        assert(unit_word(s).drop_last() =~= seq!['"'] + unit_body(s));
        assert(unit_word(s).last() == '"');
    } else {
        lemma_percent_reads_back(s);
    }
}

proof fn lemma_percent_reads_back(s: Seq<char>)
    requires
        forall|i: int| 0 <= i < s.len() ==> !needs_quotes(#[trigger] s[i]),
    ensures
        unit_reads(percent_doubled(s)) == (UnitRead {
            quoted: false,
            escaped: false,
            percent: false,
            text: s,
            broken: false,
        }),
    decreases s.len(),
{
    if s.len() == 0 {
        assert(s =~= seq![]);
    } else {
        assert(!needs_quotes(s.last()));
        lemma_percent_reads_back(s.drop_last());
        let w = percent_doubled(s.drop_last());
        assert(s.drop_last().push(s.last()) =~= s);
        if s.last() == '%' {
            let w1 = w.push('%');
            let w2 = w1.push('%');
            assert(percent_doubled(s) =~= w2);
            assert(w1.drop_last() =~= w);
            assert(unit_reads(w1).percent);
            assert(w2.drop_last() =~= w1);
        } else {
            assert(percent_doubled(s).drop_last() =~= w);
            assert(percent_doubled(s).last() == s.last());
        }
    }
}

proof fn lemma_unit_body_reads_back(s: Seq<char>)
    ensures
        unit_reads(seq!['"'] + unit_body(s)) == (UnitRead {
            quoted: true,
            escaped: false,
            percent: false,
            text: s,
            broken: false,
        }),
    decreases s.len(),
{
    let open = seq!['"'];
    if s.len() == 0 {
        let w = open + unit_body(s);
        assert(w =~= open);
        assert(!unit_reads(w.drop_last()).quoted);
        assert(s =~= seq![]);
    } else {
        lemma_unit_body_reads_back(s.drop_last());
        let w = open + unit_body(s.drop_last());
        assert(s.drop_last().push(s.last()) =~= s);
        if s.last() == '%' {
            let w1 = w.push('%');
            let w2 = w1.push('%');
            assert(open + unit_body(s) =~= w2);
            assert(w1.drop_last() =~= w);
            assert(unit_reads(w1).percent);
            assert(w2.drop_last() =~= w1);
        } else if s.last() == '\\' || s.last() == '"' {
            let w1 = w.push('\\');
            let w2 = w1.push(s.last());
            assert(open + unit_body(s) =~= w2);
            assert(w1.drop_last() =~= w);
            assert(unit_reads(w1).escaped);
            assert(w2.drop_last() =~= w1);
        } else {
            assert((open + unit_body(s)).drop_last() =~= w);
            assert((open + unit_body(s)).last() == s.last());
        }
    }
}

} // verus!
