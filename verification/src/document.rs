//! TOML documents, as toml reads them.

use vstd::prelude::*;
use vstd::string::*;

use crate::text;

verus! {

/// A TOML value, from the crate `toml`.
#[verifier::external_type_specification]
#[verifier::external_body]
pub struct ExTomlValue(toml::Value);

/// What a TOML value holds. A table's entries are in the order of their keys.
pub enum Toml {
    Text(Seq<char>),
    Flag(bool),
    List(Seq<Toml>),
    Table(Seq<(Seq<char>, Toml)>),
    /// A number or a date.
    Other,
}

/// What a `toml::Value` holds.
pub uninterp spec fn toml_value(v: toml::Value) -> Toml;

/// What `toml::from_str` reads a text as, or the words of its error.
pub uninterp spec fn toml_document(text: Seq<char>) -> Result<Toml, Seq<char>>;

/// `toml::from_str` into a `toml::Value`, and the error's `to_string`. Both depend
/// on the text alone; what TOML's grammar makes of a text is not said here.
#[verifier::external_body]
pub(crate) fn read_document(text: &str) -> (r: Result<toml::Value, String>)
    ensures
        match (r, toml_document(text@)) {
            (Ok(v), Ok(t)) => toml_value(v) == t,
            (Err(e), Err(m)) => e@ == m,
            _ => false,
        },
{
    toml::from_str::<toml::Value>(text).map_err(|e| e.to_string())
}

/// A TOML value opened by one level.
pub enum Node<'a> {
    Text(&'a String),
    Flag(bool),
    List(Vec<&'a toml::Value>),
    Table(Vec<(&'a String, &'a toml::Value)>),
    Other,
}

/// The entries of a table, each with its key.
pub open spec fn entries(es: Seq<(&String, &toml::Value)>) -> Seq<(Seq<char>, Toml)> {
    Seq::new(es.len(), |i: int| (es[i].0@, toml_value(*es[i].1)))
}

/// The members of a list.
pub open spec fn members(vs: Seq<&toml::Value>) -> Seq<Toml> {
    Seq::new(vs.len(), |i: int| toml_value(*vs[i]))
}

/// The keys come in strict order, so each but once.
pub open spec fn keys_in_order(es: Seq<(Seq<char>, Toml)>) -> bool {
    forall|i: int, j: int|
        0 <= i < j < es.len() ==> text::before((#[trigger] es[i]).0, (#[trigger] es[j]).0)
}

/// The variant of a `toml::Value` and what it holds. `toml::Table` without its
/// feature `preserve_order` is a `BTreeMap` by key: its iterator gives each key
/// once, in the order of strings.
#[verifier::external_body]
pub(crate) fn open<'a>(v: &'a toml::Value) -> (r: Node<'a>)
    ensures
        match (r, toml_value(*v)) {
            (Node::Text(s), Toml::Text(t)) => s@ == t,
            (Node::Flag(b), Toml::Flag(c)) => b == c,
            (Node::List(l), Toml::List(t)) => members(l@) == t,
            (Node::Table(e), Toml::Table(t)) => entries(e@) == t && keys_in_order(t),
            (Node::Other, Toml::Other) => true,
            _ => false,
        },
{
    match v {
        toml::Value::String(s) => Node::Text(s),
        toml::Value::Boolean(b) => Node::Flag(*b),
        toml::Value::Array(a) => Node::List(a.iter().collect()),
        toml::Value::Table(t) => Node::Table(t.iter().collect()),
        _ => Node::Other,
    }
}

// ---------------------------------------------------------------------------
// The fields of a table

/// The value under a key.
pub open spec fn field(es: Seq<(Seq<char>, Toml)>, name: Seq<char>) -> Option<Toml>
    decreases es.len(),
{
    if es.len() == 0 {
        None
    } else if es.last().0 == name {
        Some(es.last().1)
    } else {
        field(es.drop_last(), name)
    }
}

/// What is wrong, and where.
pub open spec fn located(at: Seq<char>, what: Seq<char>) -> Seq<char> {
    if at.len() == 0 {
        what
    } else {
        at + ": "@ + what
    }
}

/// What is said of a field of the wrong kind.
pub open spec fn wrong_kind(at: Seq<char>, name: Seq<char>, kind: Seq<char>) -> Seq<char> {
    located(at, "field `"@ + name + "` must be "@ + kind)
}

/// What is said of a field that is not there.
pub open spec fn missing(at: Seq<char>, name: Seq<char>) -> Seq<char> {
    located(at, "missing field `"@ + name + "`"@)
}

/// The text under a key, if there is one.
pub open spec fn text_at(es: Seq<(Seq<char>, Toml)>, at: Seq<char>, name: Seq<char>) -> Result<
    Option<Seq<char>>,
    Seq<char>,
> {
    match field(es, name) {
        None => Ok(None),
        Some(Toml::Text(t)) => Ok(Some(t)),
        Some(_) => Err(wrong_kind(at, name, "a string"@)),
    }
}

/// The text under a key that must be there.
pub open spec fn need_text(es: Seq<(Seq<char>, Toml)>, at: Seq<char>, name: Seq<char>) -> Result<
    Seq<char>,
    Seq<char>,
> {
    match text_at(es, at, name) {
        Ok(Some(t)) => Ok(t),
        Ok(None) => Err(missing(at, name)),
        Err(e) => Err(e),
    }
}

/// The flag under a key; off if it is not there.
pub open spec fn flag_at(es: Seq<(Seq<char>, Toml)>, at: Seq<char>, name: Seq<char>) -> Result<
    bool,
    Seq<char>,
> {
    match field(es, name) {
        None => Ok(false),
        Some(Toml::Flag(b)) => Ok(b),
        Some(_) => Err(wrong_kind(at, name, "a boolean"@)),
    }
}

/// The texts of a list, if it holds nothing else.
pub open spec fn all_texts(l: Seq<Toml>) -> Option<Seq<Seq<char>>>
    decreases l.len(),
{
    if l.len() == 0 {
        Some(seq![])
    } else {
        match (all_texts(l.drop_last()), l.last()) {
            (Some(ts), Toml::Text(t)) => Some(ts.push(t)),
            _ => None,
        }
    }
}

/// The list of texts under a key that must be there.
pub open spec fn need_texts(es: Seq<(Seq<char>, Toml)>, at: Seq<char>, name: Seq<char>) -> Result<
    Seq<Seq<char>>,
    Seq<char>,
> {
    match field(es, name) {
        None => Err(missing(at, name)),
        Some(Toml::List(l)) => match all_texts(l) {
            Some(ts) => Ok(ts),
            None => Err(wrong_kind(at, name, "a list of strings"@)),
        },
        Some(_) => Err(wrong_kind(at, name, "a list of strings"@)),
    }
}

/// The fields of a table.
pub struct Fields<'a> {
    pub list: Vec<(&'a String, &'a toml::Value)>,
}

fn at_place(at: &str, what: String) -> (r: String)
    ensures
        r@ == located(at@, what@),
{
    if at.unicode_len() == 0 {
        what
    } else {
        let mut s = at.to_owned();
        s.append(": ");
        s.append(what.as_str());
        s
    }
}

pub(crate) fn say_wrong_kind(at: &str, name: &str, kind: &str) -> (r: String)
    ensures
        r@ == wrong_kind(at@, name@, kind@),
{
    let mut s = "field `".to_owned();
    s.append(name);
    s.append("` must be ");
    s.append(kind);
    at_place(at, s)
}

pub(crate) fn say_missing(at: &str, name: &str) -> (r: String)
    ensures
        r@ == missing(at@, name@),
{
    let mut s = "missing field `".to_owned();
    s.append(name);
    s.append("`");
    at_place(at, s)
}

/// What is said of a key that means nothing here.
pub open spec fn unknown(at: Seq<char>, name: Seq<char>) -> Seq<char> {
    located(at, "unknown field `"@ + name + "`"@)
}

pub(crate) fn say_unknown(at: &str, name: &str) -> (r: String)
    ensures
        r@ == unknown(at@, name@),
{
    let mut s = "unknown field `".to_owned();
    s.append(name);
    s.append("`");
    at_place(at, s)
}

impl<'a> Fields<'a> {
    pub open spec fn view(&self) -> Seq<(Seq<char>, Toml)> {
        entries(self.list@)
    }

    pub(crate) fn find(&self, name: &str) -> (r: Option<&'a toml::Value>)
        ensures
            match (r, field(self@, name@)) {
                (Some(v), Some(t)) => toml_value(*v) == t,
                (None, None) => true,
                _ => false,
            },
    {
        let mut i: usize = self.list.len();
        assert(self@.take(i as int) =~= self@);
        while i > 0
            invariant
                i <= self.list@.len(),
                field(self@, name@) == field(self@.take(i as int), name@),
            decreases i,
        {
            assert(self@.take(i as int).drop_last() =~= self@.take(i - 1));
            assert(self@.take(i as int).last() == self@[i - 1]);
            i = i - 1;
            if text::same_text(self.list[i].0.as_str(), name) {
                return Some(self.list[i].1);
            }
        }
        None
    }

    pub(crate) fn text(&self, at: &str, name: &str) -> (r: Result<Option<String>, String>)
        ensures
            match (r, text_at(self@, at@, name@)) {
                (Ok(o), Ok(t)) => text::opt_text(o) == t,
                (Err(e), Err(m)) => e@ == m,
                _ => false,
            },
    {
        match self.find(name) {
            None => Ok(None),
            Some(v) => match open(v) {
                Node::Text(s) => Ok(Some(s.clone())),
                _ => Err(say_wrong_kind(at, name, "a string")),
            },
        }
    }

    pub(crate) fn needed_text(&self, at: &str, name: &str) -> (r: Result<String, String>)
        ensures
            match (r, need_text(self@, at@, name@)) {
                (Ok(o), Ok(t)) => o@ == t,
                (Err(e), Err(m)) => e@ == m,
                _ => false,
            },
    {
        match self.text(at, name) {
            Ok(Some(s)) => Ok(s),
            Ok(None) => Err(say_missing(at, name)),
            Err(e) => Err(e),
        }
    }

    pub(crate) fn flag(&self, at: &str, name: &str) -> (r: Result<bool, String>)
        ensures
            match (r, flag_at(self@, at@, name@)) {
                (Ok(b), Ok(c)) => b == c,
                (Err(e), Err(m)) => e@ == m,
                _ => false,
            },
    {
        match self.find(name) {
            None => Ok(false),
            Some(v) => match open(v) {
                Node::Flag(b) => Ok(b),
                _ => Err(say_wrong_kind(at, name, "a boolean")),
            },
        }
    }

    pub(crate) fn needed_texts(&self, at: &str, name: &str) -> (r: Result<Vec<String>, String>)
        ensures
            match (r, need_texts(self@, at@, name@)) {
                (Ok(v), Ok(ts)) => text::texts(v@) == ts,
                (Err(e), Err(m)) => e@ == m,
                _ => false,
            },
    {
        let l = match self.find(name) {
            None => {
                return Err(say_missing(at, name));
            },
            Some(v) => match open(v) {
                Node::List(l) => l,
                _ => {
                    return Err(say_wrong_kind(at, name, "a list of strings"));
                },
            },
        };
        match texts_of(&l) {
            Some(ts) => Ok(ts),
            None => Err(say_wrong_kind(at, name, "a list of strings")),
        }
    }
}

fn texts_of(l: &Vec<&toml::Value>) -> (r: Option<Vec<String>>)
    ensures
        match (r, all_texts(members(l@))) {
            (Some(v), Some(ts)) => text::texts(v@) == ts,
            (None, None) => true,
            _ => false,
        },
{
    let mut out: Vec<String> = Vec::new();
    let mut i: usize = 0;
    let ghost all = members(l@);
    assert(text::texts(out@) =~= seq![]);
    while i < l.len()
        invariant
            i <= l@.len(),
            all == members(l@),
            all_texts(all.take(i as int)) == Some(text::texts(out@)),
        decreases l@.len() - i,
    {
        proof {
            assert(all.take(i + 1).drop_last() =~= all.take(i as int));
            assert(all.take(i + 1).last() == all[i as int]);
        }
        match open(l[i]) {
            Node::Text(s) => {
                let ghost before = out@;
                out.push(s.clone());
                assert(text::texts(out@) =~= text::texts(before).push(s@));
            },
            _ => {
                proof {
                    lemma_one_bad_spoils_all(all, i + 1);
                }
                return None;
            },
        }
        i = i + 1;
    }
    assert(all.take(i as int) =~= all);
    Some(out)
}

proof fn lemma_one_bad_spoils_all(l: Seq<Toml>, n: int)
    requires
        0 <= n <= l.len(),
        all_texts(l.take(n)) is None,
    ensures
        all_texts(l) is None,
    decreases l.len() - n,
{
    if n == l.len() {
        assert(l.take(n) =~= l);
    } else {
        assert(l.take(n + 1).drop_last() =~= l.take(n));
        lemma_one_bad_spoils_all(l, n + 1);
    }
}

} // verus!
