//! The plugins that are there: finding them, what their commands get, and which
//! connectors they provide.

use vstd::prelude::*;
use vstd::string::*;

use crate::json;
use crate::plugin::file;
use crate::plugin::file::SecretDecl;
use crate::plugin::manifest;
use crate::plugin::manifest::Manifest;
use crate::plugin::version::Version;
use crate::scheduler::jobs::SourceUse;
use crate::text;

verus! {

/// A plugin.
#[derive(Debug)]
pub struct Plugin {
    pub id: String,
    /// The directory commands run in: the link's target for a linked plugin.
    pub dir: String,
    pub linked: bool,
    pub manifest: Manifest,
}

/// A plugin, or why what is there is none.
#[derive(Debug)]
pub enum Discovered {
    Valid(Plugin),
    Invalid { id: String, dir: String, linked: bool, error: String },
}

impl Plugin {
    /// The manifest's names are in strict order.
    pub open spec fn in_order(self) -> bool {
        self.manifest@.in_order()
    }
}

impl Discovered {
    /// The names of a plugin's manifest are in strict order.
    pub open spec fn in_order(self) -> bool {
        self matches Discovered::Valid(p) ==> p.in_order()
    }

    /// The plugin's id.
    pub open spec fn called(self) -> Seq<char> {
        match self {
            Discovered::Valid(p) => p.id@,
            Discovered::Invalid { id, .. } => id@,
        }
    }

    /// The plugin's id.
    pub fn id(&self) -> (r: &str)
        ensures
            r@ == self.called(),
    {
        match self {
            Discovered::Valid(p) => p.id.as_str(),
            Discovered::Invalid { id, .. } => id.as_str(),
        }
    }
}

// ---------------------------------------------------------------------------
// Finding them

/// Where the manifest of a directory is.
pub open spec fn manifest_at(dir: Seq<char>) -> Seq<char> {
    text::path_join(dir, manifest::MANIFEST_FILE@)
}

/// Where the manifest of a directory is.
pub fn manifest_path(dir: &str) -> (r: String)
    ensures
        r@ == manifest_at(dir@),
{
    text::join_path(dir, manifest::MANIFEST_FILE)
}

/// The manifest that a file holds, or what is said of it. If `id` is there, it must
/// be the manifest's.
pub open spec fn loads(
    r: Result<Manifest, String>,
    dir: Seq<char>,
    read: Result<String, String>,
    id: Option<Seq<char>>,
) -> bool {
    match read {
        Err(e) => r matches Err(m) && m@ == manifest_at(dir) + ": "@ + e@,
        Ok(t) => match manifest::parsed(t@, Version(0, 4, 0)) {
            Err(e) => r matches Err(m) && m@ == manifest_at(dir) + ": "@ + e,
            Ok(w) => if id is Some && w.id != id->0 {
                r matches Err(m) && m@ == manifest_at(dir) + ": id "@ + text::debug_text(w.id)
                    + " does not match the directory name "@ + text::debug_text(id->0)
            } else {
                r matches Ok(m) && m@ == w && m@.in_order()
            },
        },
    }
}

/// Validate the manifest read in `dir`, which must declare `id`: the directory
/// name is the id pastor, jobs and hooks know the plugin by.
pub fn load_manifest(dir: &str, read: Result<String, String>, id: Option<&str>) -> (r: Result<
    Manifest,
    String,
>)
    ensures
        loads(r, dir@, read, text::opt_str(id)),
{
    let mut e = manifest_path(dir);
    let found = match read {
        Ok(t) => Manifest::parse(t.as_str()),
        Err(why) => Err(why),
    };
    match found {
        Err(why) => {
            e.append(": ");
            e.append(why.as_str());
            Err(e)
        },
        Ok(m) => {
            if let Some(id) = id {
                if !text::same_text(m.id.as_str(), id) {
                    e.append(": id ");
                    e.append(text::debug_quoted(m.id.as_str()).as_str());
                    e.append(" does not match the directory name ");
                    e.append(text::debug_quoted(id).as_str());
                    return Err(e);
                }
            }
            Ok(m)
        },
    }
}

/// What is known of an entry of the plugins directory.
#[derive(Debug)]
pub struct DirEntry {
    /// Its name, if it is text.
    pub name: Option<String>,
    pub path: String,
    /// It is a symbolic link.
    pub linked: bool,
    /// Where a link leads, or why it leads nowhere.
    pub target: Result<String, String>,
    /// It is a directory.
    pub is_dir: bool,
    /// The manifest's text in the directory, or why it could not be read.
    pub manifest: Result<String, String>,
}

/// The directory that an entry stands for, if it stands for one.
pub open spec fn entry_dir(e: DirEntry) -> Option<String> {
    if e.linked {
        match e.target {
            Ok(d) => Some(d),
            Err(_) => None,
        }
    } else if e.is_dir {
        Some(e.path)
    } else {
        None
    }
}

/// The entry is passed over: pastor's own scratch, or no directory.
pub open spec fn passed_over(e: DirEntry) -> bool {
    ||| e.name is None
    ||| e.name->0@.len() > 0 && e.name->0@[0] == '.'
    ||| !e.linked && !e.is_dir
}

/// What is found of an entry.
pub open spec fn finds(e: DirEntry, r: Option<Discovered>) -> bool {
    if passed_over(e) {
        r is None
    } else {
        let id = e.name->0;
        match entry_dir(e) {
            None => r matches Some(Discovered::Invalid { id: i, dir, linked, error }) && i == id
                && dir == e.path && linked && error@ == "link target is gone: "@ + e.target->Err_0@,
            Some(d) => {
                if !manifest::good_id(id@) {
                    r matches Some(Discovered::Invalid { id: i, dir, linked, error }) && i == id
                        && dir == d && linked == e.linked && error@ == manifest::bad_id(id@)
                } else {
                    exists|m: Result<Manifest, String>| #[trigger]
                        loads(m, d@, e.manifest, Some(id@)) && match m {
                            Ok(m) => r == Some(
                                Discovered::Valid(
                                    (Plugin { id, dir: d, linked: e.linked, manifest: m }),
                                ),
                            ),
                            Err(error) => r == Some(
                                Discovered::Invalid { id, dir: d, linked: e.linked, error },
                            ),
                        }
                }
            },
        }
    }
}

/// What is found of an entry of the plugins directory: a plugin, or why it is none.
/// Entries starting with `.` are pastor's own scratch (an install in progress) and
/// skipped, and so is what is no directory.
pub fn discover_entry(e: DirEntry) -> (r: Option<Discovered>)
    ensures
        finds(e, r),
{
    let id = match e.name {
        Some(n) => n,
        None => {
            return None;
        },
    };
    if id.as_str().unicode_len() > 0 && id.as_str().get_char(0) == '.' {
        return None;
    }
    let dir = if e.linked {
        match e.target {
            Ok(d) => d,
            Err(why) => {
                let mut error = "link target is gone: ".to_owned();
                error.append(why.as_str());
                return Some(Discovered::Invalid { id, dir: e.path, linked: true, error });
            },
        }
    } else if e.is_dir {
        e.path
    } else {
        return None;
    };
    if let Err(error) = manifest::check_id(id.as_str()) {
        return Some(Discovered::Invalid { id, dir, linked: e.linked, error });
    }
    let loaded = load_manifest(dir.as_str(), e.manifest, Some(id.as_str()));
    assert(loads(loaded, dir@, e.manifest, Some(id@)));
    match loaded {
        Ok(manifest) => Some(Discovered::Valid(Plugin { id, dir, linked: e.linked, manifest })),
        Err(error) => Some(Discovered::Invalid { id, dir, linked: e.linked, error }),
    }
}

/// A valid plugin's manifest declares the name of its directory.
pub proof fn a_plugin_is_what_its_directory_says(e: DirEntry, p: Plugin)
    requires
        finds(e, Some(Discovered::Valid(p))),
    ensures
        e.name == Some(p.id),
        p.manifest.id@ == p.id@,
        manifest::good_id(p.id@),
        p.linked == e.linked,
        p.in_order(),
{
}

/// The ids, in order.
pub open spec fn ids(v: Seq<Discovered>) -> Seq<Seq<char>> {
    Seq::new(v.len(), |i: int| v[i].called())
}

/// What was found, in the order of the ids.
pub fn sort_discovered(v: Vec<Discovered>) -> (r: Vec<Discovered>)
    ensures
        text::sorted(ids(r@)),
        r@.to_multiset() == v@.to_multiset(),
{
    broadcast use {vstd::multiset::group_multiset_axioms, vstd::seq_lib::group_to_multiset_ensures};

    let ghost all = v@;
    let mut rest = v;
    let mut out: Vec<Discovered> = Vec::new();
    proof {
        assert(out@.to_multiset().add(rest@.to_multiset()) =~= all.to_multiset());
    }
    while rest.len() > 0
        invariant
            text::sorted(ids(out@)),
            out@.to_multiset().add(rest@.to_multiset()) == all.to_multiset(),
        decreases rest@.len(),
    {
        let ghost before_rest = rest@;
        let ghost before_out = out@;
        let d = match rest.pop() {
            Some(d) => d,
            None => vstd::pervasive::unreached(),
        };
        let mut i: usize = 0;
        while i < out.len() && !text::comes_before(d.id(), out[i].id())
            invariant
                i <= out@.len(),
                forall|k: int| 0 <= k < i ==> !text::before(d.called(), #[trigger] ids(out@)[k]),
            decreases out@.len() - i,
        {
            assert(ids(out@)[i as int] == out@[i as int].called());
            i = i + 1;
        }
        proof {
            text::lemma_sorted_after_insert(ids(out@), i as int, d.called());
            assert(ids(out@.insert(i as int, d)) =~= ids(out@).insert(i as int, d.called()));
            text::lemma_insert_adds_one(out@, i as int, d);
        }
        out.insert(i, d);
        proof {
            assert(out@ == before_out.insert(i as int, d));
            text::lemma_insert_adds_one(rest@, rest@.len() as int, d);
            assert(before_rest =~= rest@.insert(rest@.len() as int, d));
            assert(out@.to_multiset().add(rest@.to_multiset()) =~= before_out.to_multiset().add(
                before_rest.to_multiset(),
            ));
        }
    }
    proof {
        assert(rest@ =~= seq![]);
        assert(out@.to_multiset().add(rest@.to_multiset()) =~= out@.to_multiset());
    }
    out
}

/// What was found of the entries, in order.
pub open spec fn all_found(each: Seq<Option<Discovered>>) -> Seq<Discovered>
    decreases each.len(),
{
    if each.len() == 0 {
        seq![]
    } else {
        match each.last() {
            Some(d) => all_found(each.drop_last()).push(d),
            None => all_found(each.drop_last()),
        }
    }
}

/// What was found, in the order of the ids.
pub open spec fn found_in_order(each: Seq<Option<Discovered>>, r: Seq<Discovered>) -> bool {
    text::sorted(ids(r)) && r.to_multiset() == all_found(each).to_multiset()
}

/// What is found in the plugins directory, in the order of the ids: the plugins, and
/// what stands there and is none, with its reason.
pub fn discover(entries: Vec<DirEntry>) -> (r: Vec<Discovered>)
    ensures
        exists|each: Seq<Option<Discovered>>|
            {
                &&& each.len() == entries@.len()
                &&& forall|i: int| 0 <= i < each.len() ==> finds(entries@[i], #[trigger] each[i])
                &&& #[trigger] found_in_order(each, r@)
            },
        forall|i: int| 0 <= i < r@.len() ==> (#[trigger] r@[i]).in_order(),
{
    let ghost all = entries@;
    let ghost mut each: Seq<Option<Discovered>> = seq![];
    let mut rest = entries;
    let mut found: Vec<Discovered> = Vec::new();
    assert(found@ =~= all_found(each));
    while rest.len() > 0
        invariant
            each.len() + rest@.len() == all.len(),
            rest@ == all.skip(each.len() as int),
            forall|i: int| 0 <= i < each.len() ==> finds(all[i], #[trigger] each[i]),
            found@ == all_found(each),
            forall|i: int| 0 <= i < found@.len() ==> (#[trigger] found@[i]).in_order(),
        decreases rest@.len(),
    {
        let ghost before = rest@;
        let e = rest.remove(0);
        assert(e == all[each.len() as int]);
        let d = discover_entry(e);
        proof {
            assert(each.push(d).drop_last() =~= each);
            each = each.push(d);
            assert(rest@ =~= before.skip(1));
            assert(rest@ =~= all.skip(each.len() as int));
        }
        if let Some(d) = d {
            found.push(d);
        }
    }
    let ghost unsorted = found@;
    let r = sort_discovered(found);
    assert(found_in_order(each, r@));
    proof {
        assert forall|i: int| 0 <= i < r@.len() implies (#[trigger] r@[i]).in_order() by {
            vstd::seq_lib::to_multiset_contains(r@, r@[i]);
            vstd::seq_lib::to_multiset_contains(unsorted, r@[i]);
            assert(r@.contains(r@[i]));
        }
    }
    r
}

// ---------------------------------------------------------------------------
// What their commands get

/// One of the secrets has this name.
pub open spec fn declared(secrets: Seq<SecretDecl>, name: Seq<char>) -> bool {
    exists|i: int| 0 <= i < secrets.len() && (#[trigger] secrets[i]).name@ == name
}

fn is_declared(secrets: &Vec<SecretDecl>, name: &str) -> (b: bool)
    ensures
        b == declared(secrets@, name@),
{
    let mut i: usize = 0;
    while i < secrets.len()
        invariant
            i <= secrets@.len(),
            forall|k: int| 0 <= k < i ==> (#[trigger] secrets@[k]).name@ != name@,
        decreases secrets@.len() - i,
    {
        if text::same_text(secrets[i].name.as_str(), name) {
            assert(secrets@[i as int].name@ == name@);
            return true;
        }
        i = i + 1;
    }
    false
}

/// The value runs over more than one line.
pub open spec fn has_line_break(value: Seq<char>) -> bool {
    value.contains('\n') || value.contains('\r')
}

/// The first declared secret whose value runs over more than one line.
pub open spec fn broken_secret(secrets: Seq<SecretDecl>, env: Seq<(String, String)>) -> Option<
    Seq<char>,
>
    decreases env.len(),
{
    if env.len() == 0 {
        None
    } else {
        match broken_secret(secrets, env.drop_last()) {
            Some(n) => Some(n),
            None => if declared(secrets, env.last().0@) && has_line_break(env.last().1@) {
                Some(env.last().0@)
            } else {
                None
            },
        }
    }
}

proof fn lemma_broken_secret_stays(secrets: Seq<SecretDecl>, env: Seq<(String, String)>, n: int)
    requires
        0 <= n <= env.len(),
        broken_secret(secrets, env.take(n)) is Some,
    ensures
        broken_secret(secrets, env) == broken_secret(secrets, env.take(n)),
    decreases env.len() - n,
{
    if n == env.len() {
        assert(env.take(n) =~= env);
    } else {
        assert(env.take(n + 1).drop_last() =~= env.take(n));
        lemma_broken_secret_stays(secrets, env, n + 1);
    }
}

/// No declared secret of an accepted `.env` runs over more than one line.
pub proof fn an_accepted_secret_is_one_line(
    secrets: Seq<SecretDecl>,
    env: Seq<(String, String)>,
    i: int,
)
    requires
        broken_secret(secrets, env) is None,
        0 <= i < env.len(),
        declared(secrets, env[i].0@),
    ensures
        !has_line_break(env[i].1@),
    decreases env.len(),
{
    if i < env.len() - 1 {
        an_accepted_secret_is_one_line(secrets, env.drop_last(), i);
    }
}

/// The environment sets the variable to something.
pub open spec fn is_set(env: Seq<(String, String)>, name: Seq<char>) -> bool {
    exists|i: int|
        0 <= i < env.len() && (#[trigger] env[i]).0@ == name && env[i].1@.len() > 0
}

/// The names of the secrets that the environment does not set, in order.
pub open spec fn unset(secrets: Seq<SecretDecl>, env: Seq<(String, String)>) -> Seq<Seq<char>>
    decreases secrets.len(),
{
    if secrets.len() == 0 {
        seq![]
    } else {
        let first = unset(secrets.drop_last(), env);
        if is_set(env, secrets.last().name@) {
            first
        } else {
            first.push(secrets.last().name@)
        }
    }
}

/// The secrets named as missing come in strict order, and they are the declared ones
/// that the environment does not set.
pub proof fn missing_secrets_are_named_in_order(
    secrets: Seq<SecretDecl>,
    env: Seq<(String, String)>,
)
    requires
        text::ascending(file::secret_names(file::secret_views(secrets))),
    ensures
        text::ascending(unset(secrets, env)),
        forall|n: Seq<char>| #[trigger]
            unset(secrets, env).contains(n) <==> declared(secrets, n) && !is_set(env, n),
    decreases secrets.len(),
{
    let names = unset(secrets, env);
    if secrets.len() > 0 {
        let rest = secrets.drop_last();
        let last = secrets.last();
        let first = unset(rest, env);
        let all = file::secret_names(file::secret_views(secrets));
        assert forall|i: int, j: int| 0 <= i < j < rest.len() implies text::before(
            #[trigger] file::secret_names(file::secret_views(rest))[i],
            #[trigger] file::secret_names(file::secret_views(rest))[j],
        ) by {
            assert(text::before(all[i], all[j]));
        }
        missing_secrets_are_named_in_order(rest, env);
        assert forall|n: Seq<char>| declared(rest, n) implies #[trigger] declared(secrets, n)
            && text::before(n, last.name@) by {
            let i = choose|i: int| 0 <= i < rest.len() && (#[trigger] rest[i]).name@ == n;
            assert(secrets[i] == rest[i]);
            assert(text::before(all[i], all[secrets.len() - 1]));
        }
        assert forall|n: Seq<char>| declared(secrets, n) implies #[trigger] declared(rest, n) || n
            == last.name@ by {
            let i = choose|i: int| 0 <= i < secrets.len() && (#[trigger] secrets[i]).name@ == n;
            if i < rest.len() {
                assert(rest[i] == secrets[i]);
            }
        }
        assert(secrets[secrets.len() - 1] == last);
        assert(declared(secrets, last.name@));
        assert forall|i: int, j: int| 0 <= i < j < names.len() implies text::before(
            #[trigger] names[i],
            #[trigger] names[j],
        ) by {
            assert(names[i] == first[i]);
            if j < first.len() {
                assert(names[j] == first[j]);
            } else {
                assert(first.contains(first[i]));
                assert(declared(rest, first[i]));
                assert(declared(secrets, first[i]));
            }
        }
        assert forall|n: Seq<char>| #[trigger] names.contains(n) <==> declared(secrets, n)
            && !is_set(env, n) by {
            if names.contains(n) {
                let i = choose|i: int| 0 <= i < names.len() && names[i] == n;
                if i < first.len() {
                    assert(first[i] == n);
                    assert(first.contains(n));
                    assert(declared(rest, n));
                }
            }
            if declared(secrets, n) && !is_set(env, n) {
                if declared(rest, n) {
                    assert(first.contains(n));
                    let i = choose|i: int| 0 <= i < first.len() && first[i] == n;
                    assert(names[i] == n);
                } else {
                    assert(names[names.len() - 1] == n);
                }
            }
        }
    }
}

fn sets(env: &Vec<(String, String)>, name: &str) -> (b: bool)
    ensures
        b == is_set(env@, name@),
{
    let mut i: usize = 0;
    while i < env.len()
        invariant
            i <= env@.len(),
            forall|k: int|
                0 <= k < i ==> !((#[trigger] env@[k]).0@ == name@ && env@[k].1@.len() > 0),
        decreases env@.len() - i,
    {
        if text::same_text(env[i].0.as_str(), name) && env[i].1.as_str().unicode_len() > 0 {
            assert(env@[i as int].0@ == name@);
            return true;
        }
        i = i + 1;
    }
    false
}

/// The names and values of an environment.
pub open spec fn env_texts(env: Seq<(String, String)>) -> Seq<(Seq<char>, Seq<char>)> {
    Seq::new(env.len(), |i: int| (env[i].0@, env[i].1@))
}

/// What a command of the plugin gets besides its `.env`.
pub open spec fn own_env(
    id: Seq<char>,
    job: Option<Seq<char>>,
    config_dir: Seq<char>,
    state_dir: Seq<char>,
    plugin_state_dir: Seq<char>,
) -> Seq<(Seq<char>, Seq<char>)> {
    seq![("PASTOR_PLUGIN_ID"@, id)] + (match job {
        Some(j) => seq![("PASTOR_JOB"@, j)],
        None => seq![],
    }) + seq![
        ("PASTOR_CONFIG_DIR"@, config_dir),
        ("PASTOR_STATE_DIR"@, state_dir),
        ("PASTOR_PLUGIN_STATE_DIR"@, plugin_state_dir),
    ]
}

fn push_var(env: &mut Vec<(String, String)>, name: &str, value: &str)
    ensures
        env_texts(final(env)@) == env_texts(old(env)@).push((name@, value@)),
{
    let ghost before = env@;
    env.push((name.to_owned(), value.to_owned()));
    assert(env_texts(env@) =~= env_texts(before).push((name@, value@)));
}

impl Plugin {
    /// The plugin's `.env` as read from `file`, if it may be loaded into its
    /// commands. A declared secret with a line break is refused: output is redacted
    /// one line at a time, so no line would ever contain the whole value and it
    /// would reach the logs in pieces.
    pub fn env(&self, file: &str, read: Vec<(String, String)>) -> (r: Result<
        Vec<(String, String)>,
        String,
    >)
        ensures
            match (r, broken_secret(self.manifest.secrets@, read@)) {
                (Ok(env), None) => env == read,
                (Err(e), Some(name)) => e@ == file@ + ": secret "@ + name
                    + " contains a line break; it could not be redacted from output line by line"@,
                _ => false,
            },
    {
        let mut i: usize = 0;
        while i < read.len()
            invariant
                i <= read@.len(),
                broken_secret(self.manifest.secrets@, read@.take(i as int)) is None,
            decreases read@.len() - i,
        {
            proof {
                assert(read@.take(i + 1).drop_last() =~= read@.take(i as int));
                assert(read@.take(i + 1).last() == read@[i as int]);
            }
            let value = read[i].1.as_str();
            if is_declared(&self.manifest.secrets, read[i].0.as_str()) && (text::contains_char(
                value,
                '\n',
            ) || text::contains_char(value, '\r')) {
                proof {
                    lemma_broken_secret_stays(self.manifest.secrets@, read@, i + 1);
                }
                let mut e = file.to_owned();
                e.append(": secret ");
                e.append(read[i].0.as_str());
                e.append(
                    " contains a line break; it could not be redacted from output line by line",
                );
                return Err(e);
            }
            i = i + 1;
        }
        assert(read@.take(i as int) =~= read@);
        Ok(read)
    }

    /// Declared secrets the `.env` does not set, or sets empty.
    pub fn missing_secrets(&self, env: &Vec<(String, String)>) -> (r: Vec<String>)
        requires
            self.in_order(),
        ensures
            text::texts(r@) == unset(self.manifest.secrets@, env@),
            text::ascending(text::texts(r@)),
    {
        let secrets = &self.manifest.secrets;
        let mut r: Vec<String> = Vec::new();
        let mut i: usize = 0;
        assert(text::texts(r@) =~= seq![]);
        while i < secrets.len()
            invariant
                i <= secrets@.len(),
                text::texts(r@) == unset(secrets@.take(i as int), env@),
            decreases secrets@.len() - i,
        {
            proof {
                assert(secrets@.take(i + 1).drop_last() =~= secrets@.take(i as int));
                assert(secrets@.take(i + 1).last() == secrets@[i as int]);
            }
            if !sets(env, secrets[i].name.as_str()) {
                let ghost before = r@;
                r.push(secrets[i].name.clone());
                assert(text::texts(r@) =~= text::texts(before).push(secrets@[i as int].name@));
            }
            i = i + 1;
        }
        assert(secrets@.take(i as int) =~= secrets@);
        proof {
            missing_secrets_are_named_in_order(secrets@, env@);
        }
        r
    }

    /// What hides the plugin's secrets in what its commands print.
    pub fn redactor(&self, env: &Vec<(String, String)>) -> (r: Redactor)
        ensures
            env_texts(r.secrets@) == hidden(self.manifest.secrets@, env@),
    {
        Redactor::new(&self.manifest.secrets, env)
    }

    /// Whose scratch directory a command gets: the job's, or the plugin's own
    /// without a job.
    pub fn scope(&self, job: Option<&str>) -> (r: String)
        ensures
            r@ == match job {
                Some(j) => j@,
                None => "@"@ + self.id@,
            },
    {
        match job {
            Some(j) => j.to_owned(),
            None => {
                let mut s = "@".to_owned();
                s.append(self.id.as_str());
                s
            },
        }
    }

    /// The environment every command of this plugin gets, connector or hook:
    /// its `.env`, then `PASTOR_PLUGIN_ID`, `PASTOR_JOB` (when there is a
    /// job), `PASTOR_CONFIG_DIR`, `PASTOR_STATE_DIR` and
    /// `PASTOR_PLUGIN_STATE_DIR`, the job's scratch dir. Plus the redactor for what
    /// the command prints.
    pub fn command_env(
        &self,
        dotenv: Vec<(String, String)>,
        job: Option<&str>,
        config_dir: &str,
        state_dir: &str,
        plugin_state_dir: &str,
    ) -> (r: (Vec<(String, String)>, Redactor))
        ensures
            env_texts(r.0@) == env_texts(dotenv@) + own_env(
                self.id@,
                text::opt_str(job),
                config_dir@,
                state_dir@,
                plugin_state_dir@,
            ),
            env_texts(r.1.secrets@) == hidden(self.manifest.secrets@, dotenv@),
    {
        let redactor = self.redactor(&dotenv);
        let ghost given = env_texts(dotenv@);
        let mut env = dotenv;
        push_var(&mut env, "PASTOR_PLUGIN_ID", self.id.as_str());
        if let Some(j) = job {
            push_var(&mut env, "PASTOR_JOB", j);
        }
        push_var(&mut env, "PASTOR_CONFIG_DIR", config_dir);
        push_var(&mut env, "PASTOR_STATE_DIR", state_dir);
        push_var(&mut env, "PASTOR_PLUGIN_STATE_DIR", plugin_state_dir);
        assert(env_texts(env@) =~= given + own_env(
            self.id@,
            text::opt_str(job),
            config_dir@,
            state_dir@,
            plugin_state_dir@,
        ));
        (env, redactor)
    }
}

/// The declared secrets that the environment sets, with their values, in order.
pub open spec fn hidden(secrets: Seq<SecretDecl>, env: Seq<(String, String)>) -> Seq<
    (Seq<char>, Seq<char>),
>
    decreases env.len(),
{
    if env.len() == 0 {
        seq![]
    } else {
        let first = hidden(secrets, env.drop_last());
        if declared(secrets, env.last().0@) && env.last().1@.len() > 0 {
            first.push((env.last().0@, env.last().1@))
        } else {
            first
        }
    }
}

/// What stands in for a secret.
pub open spec fn stand_in(name: Seq<char>) -> Seq<char> {
    "[redacted:"@ + name + "]"@
}

/// The text with the values of the secrets replaced, one secret after another.
pub open spec fn redacted(secrets: Seq<(Seq<char>, Seq<char>)>, s: Seq<char>) -> Seq<char>
    decreases secrets.len(),
{
    if secrets.len() == 0 {
        s
    } else {
        text::replace(
            redacted(secrets.drop_last(), s),
            secrets.last().1,
            stand_in(secrets.last().0),
        )
    }
}

/// Hides the values of secrets in a text.
#[derive(Debug)]
pub struct Redactor {
    /// The names and values of the secrets.
    pub secrets: Vec<(String, String)>,
}

impl Redactor {
    /// For the declared secrets that the environment sets.
    pub fn new(secrets: &Vec<SecretDecl>, env: &Vec<(String, String)>) -> (r: Redactor)
        ensures
            env_texts(r.secrets@) == hidden(secrets@, env@),
    {
        let mut out: Vec<(String, String)> = Vec::new();
        let mut i: usize = 0;
        assert(env_texts(out@) =~= seq![]);
        while i < env.len()
            invariant
                i <= env@.len(),
                env_texts(out@) == hidden(secrets@, env@.take(i as int)),
            decreases env@.len() - i,
        {
            proof {
                assert(env@.take(i + 1).drop_last() =~= env@.take(i as int));
                assert(env@.take(i + 1).last() == env@[i as int]);
            }
            if is_declared(secrets, env[i].0.as_str()) && env[i].1.as_str().unicode_len() > 0 {
                push_var(&mut out, env[i].0.as_str(), env[i].1.as_str());
            }
            i = i + 1;
        }
        assert(env@.take(i as int) =~= env@);
        Redactor { secrets: out }
    }

    /// The text without the secrets.
    pub fn redact(&self, s: &str) -> (r: String)
        ensures
            r@ == redacted(env_texts(self.secrets@), s@),
    {
        let ghost all = env_texts(self.secrets@);
        let mut out = s.to_owned();
        let mut i: usize = 0;
        while i < self.secrets.len()
            invariant
                i <= self.secrets@.len(),
                all == env_texts(self.secrets@),
                out@ == redacted(all.take(i as int), s@),
            decreases self.secrets@.len() - i,
        {
            proof {
                assert(all.take(i + 1).drop_last() =~= all.take(i as int));
                assert(all.take(i + 1).last() == all[i as int]);
            }
            let mut name = "[redacted:".to_owned();
            name.append(self.secrets[i].0.as_str());
            name.append("]");
            out = text::replaced(out.as_str(), self.secrets[i].1.as_str(), name.as_str());
            i = i + 1;
        }
        assert(all.take(i as int) =~= all);
        out
    }
}

// ---------------------------------------------------------------------------
// Which connectors they provide

/// The built-in connectors plus every valid plugin that has a connector, read once
/// from the plugins dir. Plugins change only by command, so a daemon rebuilds this
/// on reload rather than watching the directory.
#[derive(Debug)]
pub struct PluginCatalog {
    pub plugins: Vec<Plugin>,
    /// The id, and why it is unusable, so a job naming it says so.
    pub invalid: Vec<(String, String)>,
}

/// The last of the plugins with the id.
pub open spec fn plugin_of(plugins: Seq<Plugin>, id: Seq<char>) -> Option<Plugin>
    decreases plugins.len(),
{
    if plugins.len() == 0 {
        None
    } else if plugins.last().id@ == id {
        Some(plugins.last())
    } else {
        plugin_of(plugins.drop_last(), id)
    }
}

/// Why the id is unusable: the last reason given.
pub open spec fn why_invalid(invalid: Seq<(String, String)>, id: Seq<char>) -> Option<String>
    decreases invalid.len(),
{
    if invalid.len() == 0 {
        None
    } else if invalid.last().0@ == id {
        Some(invalid.last().1)
    } else {
        why_invalid(invalid.drop_last(), id)
    }
}

/// The valid plugins, in order.
pub open spec fn valid_of(found: Seq<Discovered>) -> Seq<Plugin>
    decreases found.len(),
{
    if found.len() == 0 {
        seq![]
    } else {
        match found.last() {
            Discovered::Valid(p) => valid_of(found.drop_last()).push(p),
            _ => valid_of(found.drop_last()),
        }
    }
}

/// What is invalid, and why, in order.
pub open spec fn invalid_of(found: Seq<Discovered>) -> Seq<(String, String)>
    decreases found.len(),
{
    if found.len() == 0 {
        seq![]
    } else {
        match found.last() {
            Discovered::Invalid { id, error, .. } => invalid_of(found.drop_last()).push((id, error)),
            _ => invalid_of(found.drop_last()),
        }
    }
}

/// Where a job's source comes from.
#[derive(Debug)]
pub enum SourceFrom {
    /// The connector needs no plugin.
    Builtin,
    /// The plugin's connector, one source for each plugin and job.
    Plugin { id: String, job: Option<String> },
    /// There is none.
    Nowhere,
}

/// A source handed out: the plugin's id and the job's name.
#[derive(Debug)]
pub struct SourceKey {
    pub id: String,
    pub job: Option<String>,
}

/// The source is still in use. One without a job always is.
pub open spec fn in_use(key: SourceKey, keep: Seq<SourceUse>) -> bool {
    match key.job {
        None => true,
        Some(job) => exists|i: int|
            0 <= i < keep.len() && (#[trigger] keep[i]).connector@ == key.id@ && keep[i].job@
                == job@,
    }
}

impl PluginCatalog {
    /// The names of every plugin's manifest are in strict order.
    pub open spec fn in_order(&self) -> bool {
        forall|i: int| 0 <= i < self.plugins@.len() ==> (#[trigger] self.plugins@[i]).in_order()
    }

    /// The catalog of what was found.
    pub fn load(found: Vec<Discovered>) -> (r: PluginCatalog)
        requires
            forall|i: int| 0 <= i < found@.len() ==> (#[trigger] found@[i]).in_order(),
        ensures
            r.in_order(),
            r.plugins@ == valid_of(found@),
            r.invalid@ == invalid_of(found@),
    {
        let ghost all = found@;
        let mut rest = found;
        let mut plugins: Vec<Plugin> = Vec::new();
        let mut invalid: Vec<(String, String)> = Vec::new();
        let n: usize = rest.len();
        proof {
            assert(all.take(0) =~= seq![]);
            assert(plugins@ =~= valid_of(all.take(0)));
            assert(invalid@ =~= invalid_of(all.take(0)));
            assert(rest@ =~= all.skip(0));
        }
        while rest.len() > 0
            invariant
                rest@.len() <= n,
                n == all.len(),
                rest@ == all.skip(n - rest@.len()),
                plugins@ == valid_of(all.take(n - rest@.len())),
                invalid@ == invalid_of(all.take(n - rest@.len())),
                forall|i: int| 0 <= i < all.len() ==> (#[trigger] all[i]).in_order(),
                forall|i: int| 0 <= i < plugins@.len() ==> (#[trigger] plugins@[i]).in_order(),
            decreases rest@.len(),
        {
            let ghost i = n - rest@.len();
            let d = rest.remove(0);
            proof {
                assert(d == all[i]);
                assert(rest@ =~= all.skip(i + 1));
                assert(all.take(i + 1).drop_last() =~= all.take(i));
                assert(all.take(i + 1).last() == all[i]);
            }
            match d {
                Discovered::Valid(p) => {
                    plugins.push(p);
                },
                Discovered::Invalid { id, error, .. } => {
                    invalid.push((id, error));
                },
            }
        }
        assert(all.take(n as int) =~= all);
        PluginCatalog { plugins, invalid }
    }

    /// The plugin with the id, if it is valid.
    pub fn plugin(&self, id: &str) -> (r: Option<&Plugin>)
        ensures
            match (r, plugin_of(self.plugins@, id@)) {
                (Some(p), Some(q)) => *p == q,
                (None, None) => true,
                _ => false,
            },
            self.in_order() ==> (r matches Some(p) ==> p.in_order()),
    {
        let mut i: usize = self.plugins.len();
        assert(self.plugins@.take(i as int) =~= self.plugins@);
        while i > 0
            invariant
                i <= self.plugins@.len(),
                plugin_of(self.plugins@, id@) == plugin_of(self.plugins@.take(i as int), id@),
            decreases i,
        {
            assert(self.plugins@.take(i as int).drop_last() =~= self.plugins@.take(i - 1));
            assert(self.plugins@.take(i as int).last() == self.plugins@[i - 1]);
            i = i - 1;
            if text::same_text(self.plugins[i].id.as_str(), id) {
                return Some(&self.plugins[i]);
            }
        }
        None
    }

    fn reason(&self, id: &str) -> (r: Option<&String>)
        ensures
            match (r, why_invalid(self.invalid@, id@)) {
                (Some(p), Some(q)) => *p == q,
                (None, None) => true,
                _ => false,
            },
    {
        let mut i: usize = self.invalid.len();
        assert(self.invalid@.take(i as int) =~= self.invalid@);
        while i > 0
            invariant
                i <= self.invalid@.len(),
                why_invalid(self.invalid@, id@) == why_invalid(self.invalid@.take(i as int), id@),
            decreases i,
        {
            assert(self.invalid@.take(i as int).drop_last() =~= self.invalid@.take(i - 1));
            assert(self.invalid@.take(i as int).last() == self.invalid@[i - 1]);
            i = i - 1;
            if text::same_text(self.invalid[i].0.as_str(), id) {
                return Some(&self.invalid[i].1);
            }
        }
        None
    }

    /// Where the source of a connector comes from. `PASTOR_JOB`, the run log and
    /// the scratch dir are the job's.
    pub fn source_keyed(&self, id: &str, job: Option<&str>) -> (r: SourceFrom)
        ensures
            if manifest::builtin(id@) {
                r is Builtin
            } else {
                match plugin_of(self.plugins@, id@) {
                    Some(p) if p.manifest.connector is Some => r matches SourceFrom::Plugin {
                        id: i,
                        job: j,
                    } && i@ == id@ && text::opt_text(j) == text::opt_str(job),
                    _ => r is Nowhere,
                }
            },
    {
        if manifest::is_builtin(id) {
            return SourceFrom::Builtin;
        }
        match self.plugin(id) {
            Some(p) => if p.manifest.connector.is_some() {
                let job = match job {
                    Some(j) => Some(j.to_owned()),
                    None => None,
                };
                SourceFrom::Plugin { id: id.to_owned(), job }
            } else {
                SourceFrom::Nowhere
            },
            None => SourceFrom::Nowhere,
        }
    }

    /// The id concerns no plugin, known or invalid.
    pub open spec fn leaves(&self, id: Seq<char>) -> bool {
        manifest::builtin(id) || (plugin_of(self.plugins@, id) is None && why_invalid(
            self.invalid@,
            id,
        ) is None)
    }

    /// What is answered about a connector with a config.
    pub open spec fn answers<B: Fn(&str, &serde_json::Value) -> Result<(), String>>(
        self,
        id: &str,
        config: &serde_json::Value,
        builtins: &B,
        r: Result<(), String>,
    ) -> bool {
        if manifest::builtin(id@) {
            call_ensures(*builtins, (id, config), r)
        } else {
            match (plugin_of(self.plugins@, id@), why_invalid(self.invalid@, id@)) {
                (Some(p), _) => match (
                    r,
                    manifest::config_error(p.manifest@, json::json_value(*config)),
                ) {
                    (Ok(_), None) => true,
                    (Err(e), Some(m)) => e@ == m,
                    _ => false,
                },
                (None, Some(why)) => r matches Err(e) && e@ == "plugin "@ + text::debug_text(id@)
                    + " is invalid: "@ + why@,
                (None, None) => call_ensures(*builtins, (id, config), r),
            }
        }
    }

    /// Whether a job may use a connector with a config; if not, why. What concerns
    /// no plugin is answered by `builtins`.
    pub fn check<B: Fn(&str, &serde_json::Value) -> Result<(), String>>(
        &self,
        id: &str,
        config: &serde_json::Value,
        builtins: &B,
    ) -> (r: Result<(), String>)
        requires
            self.in_order(),
            self.leaves(id@) ==> call_requires(*builtins, (id, config)),
        ensures
            self.answers(id, config, builtins, r),
    {
        if manifest::is_builtin(id) {
            return builtins(id, config);
        }
        if let Some(p) = self.plugin(id) {
            return p.manifest.check_config(config);
        }
        if let Some(why) = self.reason(id) {
            let mut e = "plugin ".to_owned();
            e.append(text::debug_quoted(id).as_str());
            e.append(" is invalid: ");
            e.append(why.as_str());
            return Err(e);
        }
        builtins(id, config)
    }
}

/// Whether a source handed out is still in use, when only these are.
pub fn retain_job(key: &SourceKey, keep: &Vec<SourceUse>) -> (b: bool)
    ensures
        b == in_use(*key, keep@),
{
    let job = match &key.job {
        Some(j) => j,
        None => {
            return true;
        },
    };
    let mut i: usize = 0;
    while i < keep.len()
        invariant
            i <= keep@.len(),
            key.job == Some(*job),
            forall|k: int|
                0 <= k < i ==> !((#[trigger] keep@[k]).connector@ == key.id@ && keep@[k].job@
                    == job@),
        decreases keep@.len() - i,
    {
        if text::same_text(keep[i].connector.as_str(), key.id.as_str()) && text::same_text(
            keep[i].job.as_str(),
            job.as_str(),
        ) {
            assert(keep@[i as int].connector@ == key.id@);
            return true;
        }
        i = i + 1;
    }
    false
}

/// What is hidden are the values that the environment gives the declared secrets: every
/// one that is not empty, and no other.
pub proof fn every_declared_secret_is_hidden(
    secrets: Seq<SecretDecl>,
    env: Seq<(String, String)>,
    name: Seq<char>,
    value: Seq<char>,
)
    ensures
        hidden(secrets, env).contains((name, value)) <==> value.len() > 0 && (exists|k: int|
            0 <= k < secrets.len() && (#[trigger] secrets[k]).name@ == name) && exists|i: int|
            0 <= i < env.len() && (#[trigger] env[i]).0@ == name && env[i].1@ == value,
    decreases env.len(),
{
    let all = hidden(secrets, env);
    if env.len() > 0 {
        let rest = env.drop_last();
        let first = hidden(secrets, rest);
        every_declared_secret_is_hidden(secrets, rest, name, value);
        let n = env.len() - 1;
        if all.contains((name, value)) {
            let k = choose|k: int| 0 <= k < all.len() && all[k] == (name, value);
            if k < first.len() {
                assert(first[k] == (name, value));
                assert(first.contains((name, value)));
                let i = choose|i: int|
                    0 <= i < rest.len() && (#[trigger] rest[i]).0@ == name && rest[i].1@ == value;
                assert(env[i] == rest[i]);
            } else {
                assert(env[n].0@ == name);
                assert(declared(secrets, name));
            }
        }
        if value.len() > 0 && (exists|k: int| 0 <= k < secrets.len() && (#[trigger] secrets[k]).name@ == name)
            && exists|i: int| 0 <= i < env.len() && (#[trigger] env[i]).0@ == name && env[i].1@ == value {
            let i = choose|i: int|
                0 <= i < env.len() && (#[trigger] env[i]).0@ == name && env[i].1@ == value;
            assert(declared(secrets, name));
            if i < n {
                assert(rest[i] == env[i]);
                assert(first.contains((name, value)));
                let k = choose|k: int| 0 <= k < first.len() && first[k] == (name, value);
                assert(all[k] == first[k]);
            } else {
                assert(all[all.len() - 1] == (name, value));
            }
        }
    }
}

/// A secret's value is in no text that was redacted, as long as it has no brackets and is
/// not part of what stands in for a secret.
pub proof fn no_secret_is_left_in_a_text(redactor: Redactor, s: &str, r: String, i: int)
    requires
        call_ensures(Redactor::redact, (&redactor, s), r),
        0 <= i < redactor.secrets@.len(),
        redactor.secrets@[i].1@.len() > 0,
        !redactor.secrets@[i].1@.contains('['),
        !redactor.secrets@[i].1@.contains(']'),
        forall|k: int|
            0 <= k < redactor.secrets@.len() ==> !text::holds_text(
                "[redacted:"@ + (#[trigger] redactor.secrets@[k]).0@ + "]"@,
                redactor.secrets@[i].1@,
            ),
        forall|k: int| 0 <= k < redactor.secrets@.len() ==> (#[trigger] redactor.secrets@[k]).1@.len() > 0,
    ensures
        !text::holds_text(r@, redactor.secrets@[i].1@),
{
    let all = env_texts(redactor.secrets@);
    assert forall|k: int| 0 <= k < all.len() implies !text::holds_text(
        stand_in((#[trigger] all[k]).0),
        all[i].1,
    ) && all[k].1.len() > 0 by {
        assert(all[k].0 == redactor.secrets@[k].0@);
        assert(redactor.secrets@[k].1@.len() > 0);
    }
    lemma_redacted(all, s@, i);
}

proof fn lemma_redacted(secrets: Seq<(Seq<char>, Seq<char>)>, s: Seq<char>, i: int)
    requires
        0 <= i < secrets.len(),
        !secrets[i].1.contains('['),
        !secrets[i].1.contains(']'),
        forall|k: int|
            0 <= k < secrets.len() ==> !text::holds_text(
                stand_in((#[trigger] secrets[k]).0),
                secrets[i].1,
            ) && secrets[k].1.len() > 0,
    ensures
        !text::holds_text(redacted(secrets, s), secrets[i].1),
    decreases secrets.len(),
{
    reveal_strlit("[redacted:");
    reveal_strlit("]");
    let rest = secrets.drop_last();
    let last = secrets.last();
    let before = redacted(rest, s);
    let to = stand_in(last.0);
    assert(to[0] == '[');
    assert(to.last() == ']');
    assert(secrets[secrets.len() - 1] == last);
    if i < rest.len() {
        assert forall|k: int| 0 <= k < rest.len() implies !text::holds_text(
            stand_in((#[trigger] rest[k]).0),
            rest[i].1,
        ) && rest[k].1.len() > 0 by {
            assert(rest[k] == secrets[k]);
        }
        lemma_redacted(rest, s, i);
    }
    if text::holds_text(redacted(secrets, s), secrets[i].1) {
        text::what_was_replaced_is_gone(before, last.1, to, secrets[i].1);
    }
}

/// A text that holds no secret's value is not changed.
pub proof fn a_text_without_secrets_stays(redactor: Redactor, s: &str, r: String)
    requires
        call_ensures(Redactor::redact, (&redactor, s), r),
        forall|k: int|
            0 <= k < redactor.secrets@.len() ==> !text::holds_text(
                s@,
                (#[trigger] redactor.secrets@[k]).1@,
            ),
    ensures
        r@ == s@,
{
    let all = env_texts(redactor.secrets@);
    assert forall|k: int| 0 <= k < all.len() implies !text::holds_text(s@, (#[trigger] all[k]).1) by {
        assert(all[k].1 == redactor.secrets@[k].1@);
    }
    lemma_not_redacted(all, s@);
}

proof fn lemma_not_redacted(secrets: Seq<(Seq<char>, Seq<char>)>, s: Seq<char>)
    requires
        forall|k: int| 0 <= k < secrets.len() ==> !text::holds_text(s, (#[trigger] secrets[k]).1),
    ensures
        redacted(secrets, s) == s,
    decreases secrets.len(),
{
    if secrets.len() > 0 {
        let rest = secrets.drop_last();
        assert forall|k: int| 0 <= k < rest.len() implies !text::holds_text(s, (#[trigger] rest[k]).1) by {
            assert(rest[k] == secrets[k]);
        }
        lemma_not_redacted(rest, s);
        assert(secrets[secrets.len() - 1] == secrets.last());
        text::nothing_to_replace_leaves_the_text(s, secrets.last().1, stand_in(secrets.last().0));
    }
}

/// The plugin of an id is one that has it, and there is none only if none has it.
pub proof fn a_plugin_is_found_by_its_id(plugins: Seq<Plugin>, id: Seq<char>)
    ensures
        match plugin_of(plugins, id) {
            Some(p) => p.id@ == id && plugins.contains(p),
            None => forall|k: int| 0 <= k < plugins.len() ==> (#[trigger] plugins[k]).id@ != id,
        },
    decreases plugins.len(),
{
    if plugins.len() > 0 {
        let rest = plugins.drop_last();
        a_plugin_is_found_by_its_id(rest, id);
        if plugins.last().id@ == id {
            assert(plugins[plugins.len() - 1] == plugins.last());
        } else if let Some(p) = plugin_of(rest, id) {
            let k = choose|k: int| 0 <= k < rest.len() && rest[k] == p;
            assert(plugins[k] == p);
        } else {
            assert forall|k: int| 0 <= k < plugins.len() implies (#[trigger] plugins[k]).id@ != id by {
                if k < rest.len() {
                    assert(rest[k] == plugins[k]);
                }
            }
        }
    }
}

/// The catalog holds every valid plugin that was found, and the reason for each other.
pub proof fn the_catalog_holds_what_was_found(found: Seq<Discovered>, k: int)
    requires
        0 <= k < found.len(),
    ensures
        found[k] matches Discovered::Valid(p) ==> valid_of(found).contains(p),
        found[k] matches Discovered::Invalid { id, error, .. } ==> invalid_of(found).contains(
            (id, error),
        ),
    decreases found.len(),
{
    let plugins = valid_of(found);
    let invalid = invalid_of(found);
    if k < found.len() - 1 {
        let rest = found.drop_last();
        assert(rest[k] == found[k]);
        the_catalog_holds_what_was_found(rest, k);
        if let Discovered::Valid(p) = found[k] {
            let i = choose|i: int| 0 <= i < valid_of(rest).len() && valid_of(rest)[i] == p;
            assert(plugins[i] == p);
        }
        if let Discovered::Invalid { id, error, .. } = found[k] {
            let i = choose|i: int| 0 <= i < invalid_of(rest).len() && invalid_of(rest)[i] == (id, error);
            assert(invalid[i] == (id, error));
        }
    } else {
        if let Discovered::Valid(p) = found[k] {
            assert(plugins[plugins.len() - 1] == p);
        }
        if let Discovered::Invalid { id, error, .. } = found[k] {
            assert(invalid[invalid.len() - 1] == (id, error));
        }
    }
}

/// Where a source comes from: the clock is built in; a plugin with a connector gives one
/// to each job; anything else gives none.
pub proof fn where_a_source_comes_from(
    catalog: PluginCatalog,
    id: &str,
    job: Option<&str>,
    r: SourceFrom,
)
    requires
        call_ensures(PluginCatalog::source_keyed, (&catalog, id, job), r),
    ensures
        r is Builtin <==> id@ == "clock"@,
        r is Plugin ==> exists|k: int|
            0 <= k < catalog.plugins@.len() && (#[trigger] catalog.plugins@[k]).id@ == id@
                && catalog.plugins@[k].manifest.connector is Some,
        r matches SourceFrom::Plugin { id: i, job: j } ==> i@ == id@ && text::opt_text(j)
            == text::opt_str(job),
        id@ != "clock"@ && (forall|k: int|
            0 <= k < catalog.plugins@.len() ==> (#[trigger] catalog.plugins@[k]).id@ != id@)
            ==> r is Nowhere,
        id@ != "clock"@ && (exists|k: int|
            0 <= k < catalog.plugins@.len() && (#[trigger] catalog.plugins@[k]).id@ == id@) && (
        forall|k: int|
            0 <= k < catalog.plugins@.len() && (#[trigger] catalog.plugins@[k]).id@ == id@
                ==> catalog.plugins@[k].manifest.connector is Some) ==> r is Plugin,
{
    a_plugin_is_found_by_its_id(catalog.plugins@, id@);
    if let Some(p) = plugin_of(catalog.plugins@, id@) {
        let k = choose|k: int| 0 <= k < catalog.plugins@.len() && catalog.plugins@[k] == p;
        assert(catalog.plugins@[k].id@ == id@);
    }
}

/// A source stays in use while a job of its name uses its connector; one without a job
/// always does.
pub proof fn when_a_source_stays_in_use(key: &SourceKey, keep: &Vec<SourceUse>, b: bool)
    requires
        call_ensures(retain_job, (key, keep), b),
    ensures
        b <==> key.job is None || exists|i: int|
            0 <= i < keep@.len() && (#[trigger] keep@[i]).connector@ == key.id@ && keep@[i].job@
                == key.job->0@,
{
}

/// A command gets its plugin's `.env` and, behind it and so above it, what pastor sets:
/// the plugin, the job if there is one, and the directories.
pub proof fn a_command_gets_its_environment(
    plugin: Plugin,
    dotenv: Vec<(String, String)>,
    job: Option<&str>,
    config_dir: &str,
    state_dir: &str,
    plugin_state_dir: &str,
    r: (Vec<(String, String)>, Redactor),
    i: int,
)
    requires
        call_ensures(
            Plugin::command_env,
            (&plugin, dotenv, job, config_dir, state_dir, plugin_state_dir),
            r,
        ),
        0 <= i < dotenv@.len(),
    ensures
        env_texts(r.0@)[i] == (dotenv@[i].0@, dotenv@[i].1@),
        r.0@.len() == dotenv@.len() + (if job is Some {
            5int
        } else {
            4
        }),
        env_texts(r.0@)[dotenv@.len() as int] == ("PASTOR_PLUGIN_ID"@, plugin.id@),
        job is Some ==> env_texts(r.0@)[dotenv@.len() as int + 1] == ("PASTOR_JOB"@, job->0@),
        env_texts(r.0@).last() == ("PASTOR_PLUGIN_STATE_DIR"@, plugin_state_dir@),
        env_texts(r.0@)[r.0@.len() - 2] == ("PASTOR_STATE_DIR"@, state_dir@),
        env_texts(r.0@)[r.0@.len() - 3] == ("PASTOR_CONFIG_DIR"@, config_dir@),
{
    assert(env_texts(dotenv@)[i] == (dotenv@[i].0@, dotenv@[i].1@));
    assert(env_texts(r.0@).len() == r.0@.len());
}

/// What stands in the plugins directory is a plugin exactly if it is a directory, or a
/// link to one, under a name that may be an id, and its manifest reads well and says that
/// id. Names that begin with a dot, and files, are passed over.
pub proof fn what_is_found_in_the_plugins_directory(e: DirEntry, r: Option<Discovered>)
    requires
        call_ensures(discover_entry, (e,), r),
    ensures
        e.name is None ==> r is None,
        (e.name matches Some(n) && n@.len() > 0 && n@[0] == '.') ==> r is None,
        !e.linked && !e.is_dir ==> r is None,
        r matches Some(Discovered::Valid(p)) ==> {
            &&& Some(p.id) == e.name && p.linked == e.linked && manifest::good_id(p.id@)
            &&& p.manifest@.id == p.id@
            &&& e.manifest is Ok
            &&& !e.linked ==> p.dir == e.path
            &&& e.linked ==> e.target == Ok::<String, String>(p.dir)
        },
        r matches Some(Discovered::Invalid { id, linked, .. }) ==> Some(id) == e.name && linked
            == e.linked,
        (e.name matches Some(n) && n@.len() > 0 && n@[0] != '.') && (e.linked || e.is_dir) ==> r is Some,
{
}

/// Everything that stands in the plugins directory under a name that counts is listed
/// under that name, in the order of the names, and nothing else is.
pub proof fn what_stands_in_the_directory_is_listed(entries: Vec<DirEntry>, r: Vec<Discovered>, i: int)
    requires
        call_ensures(discover, (entries,), r),
        0 <= i < entries@.len(),
        entries@[i].name matches Some(n) && n@.len() > 0 && n@[0] != '.',
        entries@[i].linked || entries@[i].is_dir,
    ensures
        exists|j: int| 0 <= j < r@.len() && Some((#[trigger] r@[j]).called()) == text::opt_text(
            entries@[i].name,
        ),
        r@.len() <= entries@.len(),
        forall|a: int, b: int|
            0 <= a < b < r@.len() ==> !text::before(
                (#[trigger] r@[b]).called(),
                (#[trigger] r@[a]).called(),
            ),
{
    broadcast use {vstd::multiset::group_multiset_axioms, vstd::seq_lib::group_to_multiset_ensures};

    let each = choose|each: Seq<Option<Discovered>>|
        {
            &&& each.len() == entries@.len()
            &&& forall|i: int| 0 <= i < each.len() ==> finds(entries@[i], #[trigger] each[i])
            &&& #[trigger] found_in_order(each, r@)
        };
    assert(finds(entries@[i], each[i]));
    assert(each[i] is Some);
    lemma_all_found(each, i);
    let d = each[i]->0;
    assert(all_found(each).to_multiset().count(d) > 0);
    assert(r@.contains(d));
    let j = r@.index_of(d);
    assert(Some(r@[j].called()) == text::opt_text(entries@[i].name));
    assert(r@.len() == r@.to_multiset().len());
    assert(all_found(each).len() == all_found(each).to_multiset().len());
    assert forall|a: int, b: int| 0 <= a < b < r@.len() implies !text::before(
        (#[trigger] r@[b]).called(),
        (#[trigger] r@[a]).called(),
    ) by {
        assert(ids(r@)[a] == r@[a].called() && ids(r@)[b] == r@[b].called());
    }
}

proof fn lemma_all_found(each: Seq<Option<Discovered>>, i: int)
    ensures
        all_found(each).len() <= each.len(),
        0 <= i < each.len() && each[i] is Some ==> all_found(each).contains(each[i]->0),
    decreases each.len(),
{
    if each.len() > 0 {
        let rest = each.drop_last();
        lemma_all_found(rest, i);
        let all = all_found(each);
        if 0 <= i < rest.len() && each[i] is Some {
            let d = each[i]->0;
            assert(rest[i] == each[i]);
            let k = all_found(rest).index_of(d);
            assert(all[k] == d);
        } else if i == rest.len() && each[i] is Some {
            assert(all[all.len() - 1] == each[i]->0);
        }
    }
}

} // verus!
