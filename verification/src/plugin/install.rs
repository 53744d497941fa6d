//! Putting plugins in place and taking them away.

use vstd::prelude::*;
use vstd::string::*;

use crate::digits;
use crate::plugin::manifest;
use crate::text;
use crate::text::Trim;

verus! {

/// Where `owner/repo` is cloned from, unless something else is said.
pub const DEFAULT_GIT_BASE: &'static str = "https://github.com";

/// `owner/repo[/subdir]`, resolved against a git base.
#[derive(Debug, PartialEq, Eq)]
pub struct InstallSource {
    pub url: String,
    pub subdir: Option<String>,
}

/// A character of an owner's or repository's name.
pub open spec fn name_char(c: char) -> bool {
    ||| 'a' <= c <= 'z'
    ||| 'A' <= c <= 'Z'
    ||| digits::is_digit(c)
    ||| c == '-'
    ||| c == '_'
    ||| c == '.'
}

/// The name of an owner or a repository.
pub open spec fn good_segment(s: Seq<char>) -> bool {
    &&& s != "."@
    &&& s != ".."@
    &&& forall|i: int| 0 <= i < s.len() ==> name_char(#[trigger] s[i])
}

/// The path leads nowhere out of the directory it starts in.
pub open spec fn stays_inside(sub: Seq<char>) -> bool {
    let parts = text::pieces(sub, '/');
    &&& !(sub.len() > 0 && sub[0] == '/')
    &&& parts[0] != "."@
    &&& forall|i: int| 0 <= i < parts.len() ==> #[trigger] parts[i] != ".."@
}

/// What is said of a text that names no source.
pub open spec fn no_source(spec_text: Seq<char>) -> Seq<char> {
    text::debug_text(spec_text) + " is not owner/repo or owner/repo/subdir"@
}

/// The owner, the repository and the path in it, each as far as it is there.
pub open spec fn split_source(s: Seq<char>) -> (Seq<char>, Option<Seq<char>>, Option<Seq<char>>) {
    match text::split_once(s, '/') {
        None => (s, None, None),
        Some((owner, rest)) => match text::split_once(rest, '/') {
            None => (owner, Some(rest), None),
            Some((repo, sub)) => (owner, Some(repo), Some(sub)),
        },
    }
}

/// The repository's name without the ending it is given anyway.
pub open spec fn bare_repo(repo: Seq<char>) -> Seq<char> {
    match text::without_end(repo, ".git"@) {
        Some(r) => r,
        None => repo,
    }
}

/// Where the repository is.
pub open spec fn url_of(base: Seq<char>, owner: Seq<char>, repo: Seq<char>) -> Seq<char> {
    text::trim_end(base, Trim::Char('/')) + "/"@ + owner + "/"@ + bare_repo(repo) + ".git"@
}

/// The source that a text names, as its URL and the path in it; or what is wrong
/// with the text.
pub open spec fn source_of(spec_text: Seq<char>, base: Seq<char>) -> Result<
    (Seq<char>, Option<Seq<char>>),
    Seq<char>,
> {
    let s = text::trim_end(text::trim_start(spec_text, Trim::Char('/')), Trim::Char('/'));
    match split_source(s) {
        (owner, Some(repo), sub) => if owner.len() == 0 || repo.len() == 0 || !good_segment(owner)
            || !good_segment(repo) {
            Err(no_source(spec_text))
        } else if sub is Some && !stays_inside(sub->0) {
            Err(text::debug_text(spec_text) + ": subdir must stay inside the repo"@)
        } else {
            Ok((url_of(base, owner, repo), sub))
        },
        _ => Err(no_source(spec_text)),
    }
}

fn is_segment(s: &str) -> (b: bool)
    ensures
        b == good_segment(s@),
{
    if text::same_text(s, ".") || text::same_text(s, "..") {
        return false;
    }
    let v = text::chars_of(s);
    let mut i: usize = 0;
    while i < v.len()
        invariant
            i <= v@.len(),
            v@ == s@,
            forall|k: int| 0 <= k < i ==> name_char(#[trigger] v@[k]),
        decreases v@.len() - i,
    {
        let c = v[i];
        if !(('a' <= c && c <= 'z') || ('A' <= c && c <= 'Z') || ('0' <= c && c <= '9') || c == '-'
            || c == '_' || c == '.') {
            assert(!name_char(s@[i as int]));
            return false;
        }
        i = i + 1;
    }
    true
}

fn is_inside(sub: &str) -> (b: bool)
    ensures
        b == stays_inside(sub@),
{
    if sub.unicode_len() > 0 && sub.get_char(0) == '/' {
        return false;
    }
    let parts = text::split_at_char(sub, '/');
    let ghost ts = text::texts(parts@);
    proof {
        text::lemma_split_len(sub@, text::at_char('/'));
        assert(ts.len() == parts@.len());
        assert(ts[0] == parts@[0]@);
    }
    if text::same_text(parts[0].as_str(), ".") {
        return false;
    }
    let mut i: usize = 0;
    while i < parts.len()
        invariant
            i <= parts@.len(),
            ts == text::texts(parts@),
            ts == text::pieces(sub@, '/'),
            forall|k: int| 0 <= k < i ==> #[trigger] ts[k] != ".."@,
        decreases parts@.len() - i,
    {
        assert(ts[i as int] == parts@[i as int]@);
        if text::same_text(parts[i].as_str(), "..") {
            return false;
        }
        i = i + 1;
    }
    true
}

fn say_no_source(spec_text: &str) -> (r: String)
    ensures
        r@ == no_source(spec_text@),
{
    let mut e = text::debug_quoted(spec_text);
    e.append(" is not owner/repo or owner/repo/subdir");
    e
}

impl InstallSource {
    /// The source that `owner/repo` or `owner/repo/subdir` names.
    pub fn parse(spec_text: &str, base: &str) -> (r: Result<InstallSource, String>)
        ensures
            match (r, source_of(spec_text@, base@)) {
                (Ok(s), Ok((url, sub))) => s.url@ == url && text::opt_text(s.subdir) == sub,
                (Err(e), Err(m)) => e@ == m,
                _ => false,
            },
    {
        let s = text::trimmed(spec_text, Trim::Char('/'));
        let (owner, rest) = match text::cut_once(s.as_str(), '/') {
            Some(p) => p,
            None => {
                return Err(say_no_source(spec_text));
            },
        };
        let (repo, sub) = match text::cut_once(rest.as_str(), '/') {
            Some((repo, sub)) => (repo, Some(sub)),
            None => (rest, None),
        };
        if owner.as_str().unicode_len() == 0 || repo.as_str().unicode_len() == 0 || !is_segment(
            owner.as_str(),
        ) || !is_segment(repo.as_str()) {
            return Err(say_no_source(spec_text));
        }
        if let Some(p) = &sub {
            if !is_inside(p.as_str()) {
                let mut e = text::debug_quoted(spec_text);
                e.append(": subdir must stay inside the repo");
                return Err(e);
            }
        }
        let bare = match text::strip_end(repo.as_str(), ".git") {
            Some(b) => b,
            None => repo,
        };
        let mut url = text::trimmed_end(base, Trim::Char('/'));
        url.append("/");
        url.append(owner.as_str());
        url.append("/");
        url.append(bare.as_str());
        url.append(".git");
        Ok(InstallSource { url, subdir: sub })
    }
}

/// What is installed from a source stays inside its repository: no part of the path
/// climbs out of it.
pub proof fn an_install_stays_inside_its_repo(spec_text: Seq<char>, base: Seq<char>, i: int)
    requires
        source_of(spec_text, base) is Ok,
        source_of(spec_text, base)->Ok_0.1 is Some,
        0 <= i < text::pieces(source_of(spec_text, base)->Ok_0.1->0, '/').len(),
    ensures
        text::pieces(source_of(spec_text, base)->Ok_0.1->0, '/')[i] != ".."@,
        source_of(spec_text, base)->Ok_0.1->0.len() > 0 ==> source_of(
            spec_text,
            base,
        )->Ok_0.1->0[0] != '/',
{
}

/// How a plugin came to be where it is.
#[derive(Debug, Clone, Copy, PartialEq, Eq, Structural)]
pub enum Kind {
    Linked,
    Managed,
}

/// What is found where a plugin of that id would be.
#[derive(Debug)]
pub enum Found {
    Nothing,
    Link,
    /// Anything else.
    Directory,
    /// It cannot be told.
    Failed(String),
}

/// What is wrong with an id that is to be removed, if anything: it is no id, or no
/// plugin has it.
pub open spec fn kind_error(id: Seq<char>, root: Seq<char>, path: Seq<char>, found: Found) -> Option<
    Seq<char>,
> {
    if !manifest::good_id(id) {
        Some(manifest::bad_id(id))
    } else {
        match found {
            Found::Nothing => Some("no plugin "@ + text::debug_text(id) + " in "@ + root),
            Found::Failed(e) => Some(path + ": "@ + e@),
            _ => None,
        }
    }
}

/// How the plugin came to be where it is, or why there is none. `root` is the
/// plugins directory and `path` the plugin's place in it.
pub fn kind_of(id: &str, root: &str, path: &str, found: Found) -> (r: Result<Kind, String>)
    ensures
        match (r, kind_error(id@, root@, path@, found)) {
            (Err(e), Some(m)) => e@ == m,
            (Ok(k), None) => k == if found is Link {
                Kind::Linked
            } else {
                Kind::Managed
            },
            _ => false,
        },
{
    manifest::check_id(id)?;
    match found {
        Found::Nothing => {
            let mut e = "no plugin ".to_owned();
            e.append(text::debug_quoted(id).as_str());
            e.append(" in ");
            e.append(root);
            Err(e)
        },
        Found::Failed(why) => {
            let mut e = path.to_owned();
            e.append(": ");
            e.append(why.as_str());
            Err(e)
        },
        Found::Link => Ok(Kind::Linked),
        Found::Directory => Ok(Kind::Managed),
    }
}

/// Whether a managed checkout may be deleted. A linked plugin is refused: its
/// directory is the user's, and `unlink` is the command that leaves it alone.
pub fn uninstall(id: &str, kind: Kind) -> (r: Result<(), String>)
    ensures
        match (kind, r) {
            (Kind::Managed, Ok(_)) => true,
            (Kind::Linked, Err(e)) => e@ == "plugin "@ + text::debug_text(id@)
                + " is linked; use `pastor plugin unlink "@ + id@ + "`"@,
            _ => false,
        },
{
    match kind {
        Kind::Managed => Ok(()),
        Kind::Linked => {
            let mut e = "plugin ".to_owned();
            e.append(text::debug_quoted(id).as_str());
            e.append(" is linked; use `pastor plugin unlink ");
            e.append(id);
            e.append("`");
            Err(e)
        },
    }
}

/// Whether a link may be removed; the linked directory is untouched.
pub fn unlink(id: &str, kind: Kind) -> (r: Result<(), String>)
    ensures
        match (kind, r) {
            (Kind::Linked, Ok(_)) => true,
            (Kind::Managed, Err(e)) => e@ == "plugin "@ + text::debug_text(id@)
                + " is installed, not linked; use `pastor plugin uninstall "@ + id@ + "`"@,
            _ => false,
        },
{
    match kind {
        Kind::Linked => Ok(()),
        Kind::Managed => {
            let mut e = "plugin ".to_owned();
            e.append(text::debug_quoted(id).as_str());
            e.append(" is installed, not linked; use `pastor plugin uninstall ");
            e.append(id);
            e.append("`");
            Err(e)
        },
    }
}

/// What git is asked to do.
#[derive(Debug)]
pub struct GitCall {
    pub args: Vec<String>,
}

/// The texts of the calls.
pub open spec fn call_texts(v: Seq<GitCall>) -> Seq<Seq<Seq<char>>> {
    Seq::new(v.len(), |i: int| text::texts(v[i].args@))
}

fn git_call(args: Vec<String>) -> (r: GitCall)
    ensures
        text::texts(r.args@) == text::texts(args@),
{
    GitCall { args }
}

/// How git fetches the source: shallow, unless an arbitrary commit is to be checked
/// out, which a shallow clone cannot do.
pub fn clone_calls(url: &str, checkout: &str, git_ref: Option<&str>) -> (r: Vec<GitCall>)
    ensures
        call_texts(r@) == match git_ref {
            Some(c) => seq![
                seq!["clone"@, "--quiet"@, url@, checkout@],
                seq!["-C"@, checkout@, "checkout"@, "--quiet"@, c@],
            ],
            None => seq![seq!["clone"@, "--quiet"@, "--depth"@, "1"@, url@, checkout@]],
        },
{
    let mut r: Vec<GitCall> = Vec::new();
    let mut first: Vec<String> = Vec::new();
    first.push("clone".to_owned());
    first.push("--quiet".to_owned());
    match git_ref {
        Some(c) => {
            first.push(url.to_owned());
            first.push(checkout.to_owned());
            let mut second: Vec<String> = Vec::new();
            second.push("-C".to_owned());
            second.push(checkout.to_owned());
            second.push("checkout".to_owned());
            second.push("--quiet".to_owned());
            second.push(c.to_owned());
            assert(text::texts(first@) =~= seq!["clone"@, "--quiet"@, url@, checkout@]);
            assert(text::texts(second@) =~= seq!["-C"@, checkout@, "checkout"@, "--quiet"@, c@]);
            r.push(git_call(first));
            r.push(git_call(second));
            assert(call_texts(r@) =~= seq![
                seq!["clone"@, "--quiet"@, url@, checkout@],
                seq!["-C"@, checkout@, "checkout"@, "--quiet"@, c@],
            ]);
        },
        None => {
            first.push("--depth".to_owned());
            first.push("1".to_owned());
            first.push(url.to_owned());
            first.push(checkout.to_owned());
            assert(text::texts(first@) =~= seq![
                "clone"@,
                "--quiet"@,
                "--depth"@,
                "1"@,
                url@,
                checkout@,
            ]);
            r.push(git_call(first));
            assert(call_texts(r@) =~= seq![
                seq!["clone"@, "--quiet"@, "--depth"@, "1"@, url@, checkout@],
            ]);
        },
    }
    r
}

/// Whether the plugin may go where it belongs: nothing is there yet, and whoever is
/// asked agrees. Nothing is asked where it could not go anyway; otherwise `confirm` is
/// asked, once.
pub fn may_place<C: FnOnce() -> bool>(id: &str, target: &str, taken: bool, confirm: C) -> (r: Result<
    (),
    String,
>)
    requires
        !taken ==> call_requires(confirm, ()),
    ensures
        if taken {
            r matches Err(e) && e@ == "plugin "@ + text::debug_text(id@) + " is already in "@
                + target@ + "; uninstall or unlink it first"@
        } else {
            match r {
                Ok(_) => call_ensures(confirm, (), true),
                Err(e) => call_ensures(confirm, (), false) && e@ == "install of "@
                    + text::debug_text(id@) + " cancelled"@,
            }
        },
{
    if taken {
        let mut e = "plugin ".to_owned();
        e.append(text::debug_quoted(id).as_str());
        e.append(" is already in ");
        e.append(target);
        e.append("; uninstall or unlink it first");
        return Err(e);
    }
    if confirm() {
        Ok(())
    } else {
        let mut e = "install of ".to_owned();
        e.append(text::debug_quoted(id).as_str());
        e.append(" cancelled");
        Err(e)
    }
}

/// The answer means yes.
pub fn is_yes(answer: &str) -> (b: bool)
    ensures
        b == ({
            let t = text::trim_end(text::trim_start(answer@, Trim::Space), Trim::Space);
            t == "y"@ || t == "Y"@ || t == "yes"@
        }),
{
    let t = text::trimmed(answer, Trim::Space);
    text::same_text(t.as_str(), "y") || text::same_text(t.as_str(), "Y") || text::same_text(
        t.as_str(),
        "yes",
    )
}

/// The directory `dir` is `root` or lies under it. Both are absolute paths without
/// links, `.` or `..`.
pub open spec fn lies_in(root: Seq<char>, dir: Seq<char>) -> bool {
    dir == root || (root.is_prefix_of(dir) && dir.len() > root.len() && dir[root.len() as int]
        == '/')
}

/// The directory of a clone that is installed. `root` is where the clone really is, and
/// `resolved` where the subdirectory that was asked for really leads: one that is not
/// there, or that a link takes out of the clone, is refused, since the install would
/// move someone else's directory.
pub fn install_dir(subdir: &Option<String>, root: &str, resolved: Result<String, String>) -> (r: Result<
    String,
    String,
>)
    ensures
        match *subdir {
            None => r matches Ok(d) && d@ == root@,
            Some(s) => match resolved {
                Err(e) => r matches Err(m) && m@ == "subdir "@ + s@
                    + " is not in the repository: "@ + e@,
                Ok(dir) => if lies_in(root@, dir@) {
                    r == Ok::<String, String>(dir)
                } else {
                    r matches Err(m) && m@ == "subdir "@ + s@ + " resolves to "@ + dir@
                        + ", outside the repository; refusing to install it"@
                },
            },
        },
{
    let s = match subdir {
        None => {
            return Ok(root.to_owned());
        },
        Some(s) => s,
    };
    match resolved {
        Err(e) => {
            let mut m = "subdir ".to_owned();
            m.append(s.as_str());
            m.append(" is not in the repository: ");
            m.append(e.as_str());
            Err(m)
        },
        Ok(dir) => {
            if text::same_text(dir.as_str(), root) {
                return Ok(dir);
            }
            let d = text::chars_of(dir.as_str());
            let n = root.unicode_len();
            if text::starts_with(dir.as_str(), root) && n < d.len() && d[n] == '/' {
                return Ok(dir);
            }
            let mut m = "subdir ".to_owned();
            m.append(s.as_str());
            m.append(" resolves to ");
            m.append(dir.as_str());
            m.append(", outside the repository; refusing to install it");
            Err(m)
        },
    }
}

/// `owner/repo` is fetched from under the base, with `.git` at its end whether or not it
/// was written; what stands behind the repository is the path in it.
pub proof fn where_a_plugin_is_fetched_from(
    spec_text: &str,
    base: &str,
    owner: Seq<char>,
    repo: Seq<char>,
    r: Result<InstallSource, String>,
)
    requires
        call_ensures(InstallSource::parse, (spec_text, base), r),
        owner.len() > 0 && repo.len() > 0,
        forall|i: int| 0 <= i < owner.len() ==> name_char(#[trigger] owner[i]),
        forall|i: int| 0 <= i < repo.len() ==> name_char(#[trigger] repo[i]),
        owner != "."@ && owner != ".."@ && repo != "."@ && repo != ".."@,
        spec_text@ == owner + seq!['/'] + repo,
        base@.len() > 0 && base@.last() != '/',
        repo.len() < 4 || repo.skip(repo.len() - 4) != ".git"@,
    ensures
        r matches Ok(s) && s.url@ == base@ + "/"@ + owner + "/"@ + repo + ".git"@ && s.subdir is None,
{
    reveal_strlit(".git");
    let s = owner + seq!['/'] + repo;
    assert(name_char(owner[0]));
    assert(name_char(repo[repo.len() - 1]));
    assert(s[0] == owner[0]);
    assert(s.last() == repo[repo.len() - 1]);
    assert(text::trim_start(s, Trim::Char('/')) == s);
    assert(text::trim_end(s, Trim::Char('/')) == s);
    assert(!owner.contains('/')) by {
        if owner.contains('/') {
            let i = choose|i: int| 0 <= i < owner.len() && owner[i] == '/';
            assert(name_char(owner[i]));
        }
    }
    assert(!repo.contains('/')) by {
        if repo.contains('/') {
            let i = choose|i: int| 0 <= i < repo.len() && repo[i] == '/';
            assert(name_char(repo[i]));
        }
    }
    text::lemma_first_of(s, '/');
    let n = text::first_of(s, '/');
    assert(s[owner.len() as int] == '/');
    assert(s.contains('/'));
    assert(n == owner.len()) by {
        if n < owner.len() {
            assert(owner[n] == s[n]);
            assert(owner.contains('/'));
        }
    }
    assert(s.take(n) =~= owner);
    assert(s.skip(n + 1) =~= repo);
    assert(text::trim_end(base@, Trim::Char('/')) == base@);
}

/// A text without a slash between two names is no source.
pub proof fn a_source_needs_an_owner_and_a_repository(
    spec_text: &str,
    base: &str,
    r: Result<InstallSource, String>,
)
    requires
        call_ensures(InstallSource::parse, (spec_text, base), r),
        !spec_text@.contains('/'),
    ensures
        r is Err,
{
    let s = spec_text@;
    if s.len() > 0 {
        assert(s.contains(s[0]));
        assert(s.contains(s.last()));
    }
}

/// Linked plugins are unlinked and installed ones uninstalled, and neither the other way.
pub proof fn a_plugin_goes_the_way_it_came(
    id: &str,
    root: &str,
    path: &str,
    found: Found,
    kind: Result<Kind, String>,
    k: Kind,
    uninstalled: Result<(), String>,
    unlinked: Result<(), String>,
)
    requires
        call_ensures(kind_of, (id, root, path, found), kind),
        call_ensures(uninstall, (id, k), uninstalled),
        call_ensures(unlink, (id, k), unlinked),
    ensures
        uninstalled is Ok <==> k is Managed,
        unlinked is Ok <==> k is Linked,
        kind is Ok <==> manifest::good_id(id@) && (found is Link || found is Directory),
        kind matches Ok(x) ==> (x is Linked <==> found is Link),
{
}

/// A clone is shallow unless a commit is asked for, which is then checked out in it.
pub proof fn how_a_source_is_cloned(url: &str, checkout: &str, commit: &str, whole: Vec<GitCall>, shallow: Vec<GitCall>)
    requires
        call_ensures(clone_calls, (url, checkout, Some(commit)), whole),
        call_ensures(clone_calls, (url, checkout, None), shallow),
    ensures
        shallow@.len() == 1 && whole@.len() == 2,
        call_texts(shallow@)[0].contains("--depth"@),
        call_texts(shallow@)[0][4] == url@ && call_texts(shallow@)[0].last() == checkout@,
        call_texts(whole@)[0][2] == url@ && call_texts(whole@)[0].last() == checkout@,
        call_texts(whole@)[1][1] == checkout@ && call_texts(whole@)[1].last() == commit@,
{
    assert(call_texts(shallow@).len() == shallow@.len());
    assert(call_texts(whole@).len() == whole@.len());
    assert(call_texts(shallow@)[0][2] == "--depth"@);
}

/// The directory of an install is the clone, or a directory in it.
pub proof fn an_install_comes_from_its_clone(subdir: &Option<String>, root: &str, resolved: Result<
    String,
    String,
>, r: Result<String, String>)
    requires
        call_ensures(install_dir, (subdir, root, resolved), r),
    ensures
        subdir is None ==> (r matches Ok(d) && d@ == root@),
        subdir is Some && resolved is Err ==> r is Err,
        r matches Ok(d) ==> d@ == root@ || (d@.len() > root@.len() && d@.take(root@.len() as int)
            == root@ && d@[root@.len() as int] == '/'),
        subdir is Some && (resolved matches Ok(d) && (d@ == root@ || (d@.len() > root@.len()
            && d@.take(root@.len() as int) == root@ && d@[root@.len() as int] == '/'))) ==> r
            == resolved,
{
    if let Ok(d) = resolved {
        if root@.is_prefix_of(d@) {
            assert(d@.take(root@.len() as int) =~= root@);
        }
        if d@.len() > root@.len() && d@.take(root@.len() as int) == root@ {
            assert(root@.is_prefix_of(d@));
        }
    }
}

/// An owner and a repository are named with plain characters, and neither is a step in a
/// path; a directory of the repository is one below it.
pub proof fn a_source_has_plain_names(
    spec_text: &str,
    base: &str,
    owner: Seq<char>,
    repo: Seq<char>,
    sub: Option<Seq<char>>,
    r: Result<InstallSource, String>,
)
    requires
        call_ensures(InstallSource::parse, (spec_text, base), r),
        owner.len() > 0 && !owner.contains('/'),
        repo.len() > 0 && !repo.contains('/'),
        sub matches Some(p) ==> p.len() > 0 && p.last() != '/',
        spec_text@ == owner + seq!['/'] + repo + (if sub is Some {
            seq!['/'] + sub->0
        } else {
            seq![]
        }),
        r is Ok,
    ensures
        forall|i: int| 0 <= i < owner.len() ==> plain(#[trigger] owner[i]),
        forall|i: int| 0 <= i < repo.len() ==> plain(#[trigger] repo[i]),
        owner != "."@ && owner != ".."@ && repo != "."@ && repo != ".."@,
        text::opt_text(r->Ok_0.subdir) == sub,
        sub matches Some(p) ==> p[0] != '/' && forall|i: int|
            0 <= i < text::pieces(p, '/').len() ==> #[trigger] text::pieces(p, '/')[i] != ".."@,
{
    let s = spec_text@;
    assert(s[0] == owner[0]);
    assert(owner.contains(owner[0]));
    assert(repo.contains(repo.last()));
    assert(s.last() != '/') by {
        if sub is Some {
            assert(s.last() == sub->0.last());
        } else {
            assert(s.last() == repo.last());
        }
    }
    assert(text::trim_start(s, Trim::Char('/')) == s);
    assert(text::trim_end(s, Trim::Char('/')) == s);
    let rest = repo + (if sub is Some {
        seq!['/'] + sub->0
    } else {
        seq![]
    });
    assert(s =~= owner + seq!['/'] + rest);
    lemma_cut(owner, rest);
    if sub is Some {
        assert(rest =~= repo + seq!['/'] + sub->0);
        lemma_cut(repo, sub->0);
    } else {
        assert(rest =~= repo);
    }
    assert(good_segment(owner) && good_segment(repo));
    assert forall|i: int| 0 <= i < owner.len() implies plain(#[trigger] owner[i]) by {
        assert(name_char(owner[i]));
    }
    assert forall|i: int| 0 <= i < repo.len() implies plain(#[trigger] repo[i]) by {
        assert(name_char(repo[i]));
    }
}

/// A letter, a digit, or one of `-`, `_` and `.`.
pub open spec fn plain(c: char) -> bool {
    'a' <= c <= 'z' || 'A' <= c <= 'Z' || '0' <= c <= '9' || c == '-' || c == '_' || c == '.'
}

proof fn lemma_cut(a: Seq<char>, b: Seq<char>)
    requires
        !a.contains('/'),
    ensures
        text::split_once(a + seq!['/'] + b, '/') == Some((a, b)),
{
    let s = a + seq!['/'] + b;
    text::lemma_first_of(s, '/');
    let n = text::first_of(s, '/');
    assert(s[a.len() as int] == '/');
    assert(s.contains('/'));
    assert(n == a.len()) by {
        if n < a.len() {
            assert(a[n] == s[n]);
            assert(a.contains('/'));
        }
    }
    assert(s.take(n) =~= a);
    assert(s.skip(n + 1) =~= b);
}

} // verus!
