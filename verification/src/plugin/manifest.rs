//! `pastor-plugin.toml`: what survives validation. Validation happens at
//! discovery, so `plugin list` can show a broken plugin with its reason and a job
//! naming it is `invalid` instead of failing at run time.

use vstd::prelude::*;
use vstd::string::*;

use crate::digits;
use crate::document;
use crate::json;
use crate::json::Json;
use crate::plugin::file;
use crate::plugin::file::ConfigDecl;
use crate::plugin::file::ConnectorFile;
use crate::plugin::file::HookFile;
use crate::plugin::file::ManifestFile;
use crate::plugin::file::Mode;
use crate::plugin::file::SecretDecl;
use crate::plugin::version;
use crate::plugin::version::Version;
use crate::text;
use crate::time;
use crate::time::Duration;

verus! {

/// The manifest's file in a plugin's directory.
pub const MANIFEST_FILE: &'static str = "pastor-plugin.toml";

/// The seconds that a connector or hook gets that says nothing.
pub const DEFAULT_TIMEOUT_SECS: u64 = 60;

/// A connector, as it is run.
#[derive(Debug)]
pub struct ConnectorSpec {
    pub mode: Mode,
    pub command: Vec<String>,
    /// Bound on one poll run. A stream is not bounded by it.
    pub timeout: Duration,
    /// In the order of their names.
    pub config: Vec<ConfigDecl>,
}

/// What a `ConnectorSpec` says.
#[verifier::ext_equal]
pub struct ConnectorSpecView {
    pub mode: Mode,
    pub command: Seq<Seq<char>>,
    pub timeout: Duration,
    pub config: Seq<file::ConfigView>,
}

impl ConnectorSpec {
    /// What it says.
    pub open spec fn view(&self) -> ConnectorSpecView {
        ConnectorSpecView {
            mode: self.mode,
            command: text::texts(self.command@),
            timeout: self.timeout,
            config: file::config_views(self.config@),
        }
    }
}

/// A hook, as it is run.
#[derive(Debug)]
pub struct Hook {
    pub on: Vec<String>,
    pub only_own: bool,
    pub command: Vec<String>,
    pub timeout: Duration,
}

/// What a `Hook` says.
#[verifier::ext_equal]
pub struct HookSpecView {
    pub on: Seq<Seq<char>>,
    pub only_own: bool,
    pub command: Seq<Seq<char>>,
    pub timeout: Duration,
}

impl Hook {
    /// What it says.
    pub open spec fn view(&self) -> HookSpecView {
        HookSpecView {
            on: text::texts(self.on@),
            only_own: self.only_own,
            command: text::texts(self.command@),
            timeout: self.timeout,
        }
    }
}

/// The hooks, as they say.
pub open spec fn hook_spec_views(v: Seq<Hook>) -> Seq<HookSpecView> {
    Seq::new(v.len(), |i: int| v[i]@)
}

/// A plugin's manifest.
#[derive(Debug)]
pub struct Manifest {
    pub id: String,
    pub name: String,
    pub version: Version,
    pub min_pastor_version: Option<Version>,
    pub description: Option<String>,
    pub connector: Option<ConnectorSpec>,
    /// In the order of their names.
    pub secrets: Vec<SecretDecl>,
    pub events: Vec<Hook>,
}

/// What a `Manifest` says.
#[verifier::ext_equal]
pub struct ManifestView {
    pub id: Seq<char>,
    pub name: Seq<char>,
    pub version: Version,
    pub min_pastor_version: Option<Version>,
    pub description: Option<Seq<char>>,
    pub connector: Option<ConnectorSpecView>,
    pub secrets: Seq<file::SecretView>,
    pub events: Seq<HookSpecView>,
}

impl ManifestView {
    /// The config keys and the secrets come in strict order of their names.
    pub open spec fn in_order(self) -> bool {
        &&& text::ascending(file::secret_names(self.secrets))
        &&& self.connector matches Some(c) ==> text::ascending(file::config_names(c.config))
    }
}

impl Manifest {
    /// What it says.
    pub open spec fn view(&self) -> ManifestView {
        ManifestView {
            id: self.id@,
            name: self.name@,
            version: self.version,
            min_pastor_version: self.min_pastor_version,
            description: text::opt_text(self.description),
            connector: match self.connector {
                Some(c) => Some(c@),
                None => None,
            },
            secrets: file::secret_views(self.secrets@),
            events: hook_spec_views(self.events@),
        }
    }
}

// ---------------------------------------------------------------------------
// Single values

/// A lower-case letter of ASCII.
pub open spec fn lower(c: char) -> bool {
    'a' <= c <= 'z'
}

/// A character that may begin a plugin's id.
pub open spec fn id_start(c: char) -> bool {
    lower(c) || digits::is_digit(c)
}

/// A character that may stand in a plugin's id.
pub open spec fn id_part(c: char) -> bool {
    id_start(c) || c == '_' || c == '.' || c == '-'
}

/// The id is one a plugin may have.
pub open spec fn good_id(id: Seq<char>) -> bool {
    &&& 0 < id.len() <= 64
    &&& id_start(id[0])
    &&& forall|i: int| 0 <= i < id.len() ==> id_part(#[trigger] id[i])
}

/// What is said of an id that a plugin may not have.
pub open spec fn bad_id(id: Seq<char>) -> Seq<char> {
    "id "@ + text::debug_text(id) + " must match [a-z0-9][a-z0-9_.-]{0,63}"@
}

fn starts_id(c: char) -> (b: bool)
    ensures
        b == id_start(c),
{
    ('a' <= c && c <= 'z') || ('0' <= c && c <= '9')
}

/// Plugin ids are directory names under the data dir and appear in env vars
/// and `plugin` commands, so they get the job names' safe alphabet.
pub fn check_id(id: &str) -> (r: Result<(), String>)
    ensures
        match r {
            Ok(_) => good_id(id@),
            Err(e) => !good_id(id@) && e@ == bad_id(id@),
        },
{
    let v = text::chars_of(id);
    let mut ok = v.len() > 0 && v.len() <= 64 && starts_id(v[0]);
    let mut i: usize = 0;
    while i < v.len() && ok
        invariant
            i <= v@.len(),
            v@ == id@,
            ok ==> 0 < v@.len() <= 64 && id_start(v@[0]) && forall|k: int|
                0 <= k < i ==> id_part(#[trigger] v@[k]),
            !ok ==> !good_id(id@),
        decreases v@.len() - i,
    {
        let c = v[i];
        if !(starts_id(c) || c == '_' || c == '.' || c == '-') {
            assert(!id_part(id@[i as int]));
            ok = false;
        }
        i = i + 1;
    }
    if ok {
        return Ok(());
    }
    let mut e = "id ".to_owned();
    e.append(text::debug_quoted(id).as_str());
    e.append(" must match [a-z0-9][a-z0-9_.-]{0,63}");
    Err(e)
}

/// A plugin's id names one directory and nothing above it.
pub proof fn a_plugin_id_is_a_plain_name(id: Seq<char>, i: int)
    requires
        good_id(id),
        0 <= i < id.len(),
    ensures
        id[i] != '/',
        id[i] != '\\',
        !text::control(id[i]),
        id[0] != '.',
        id[0] != '-',
{
}

/// The command names a program.
pub open spec fn good_command(argv: Seq<Seq<char>>) -> bool {
    argv.len() > 0 && argv[0].len() > 0
}

/// What is said of a command that names no program.
pub open spec fn bad_command(field: Seq<char>) -> Seq<char> {
    field + ": needs a program, as an argv array"@
}

/// A command must name a program.
pub fn check_command(field: &str, argv: &Vec<String>) -> (r: Result<(), String>)
    ensures
        match r {
            Ok(_) => good_command(text::texts(argv@)),
            Err(e) => !good_command(text::texts(argv@)) && e@ == bad_command(field@),
        },
{
    assert(text::texts(argv@).len() == argv@.len());
    if argv.len() > 0 && argv[0].as_str().unicode_len() > 0 {
        return Ok(());
    }
    let mut e = field.to_owned();
    e.append(": needs a program, as an argv array");
    Err(e)
}

/// A character that may begin the name of an environment variable.
pub open spec fn env_start(c: char) -> bool {
    'A' <= c <= 'Z' || c == '_'
}

/// The text names an environment variable.
pub open spec fn good_env_name(name: Seq<char>) -> bool {
    &&& name.len() > 0
    &&& env_start(name[0])
    &&& forall|i: int|
        0 <= i < name.len() ==> env_start(#[trigger] name[i]) || digits::is_digit(name[i])
}

/// A secret is named like an environment variable.
pub fn check_env_name(name: &str) -> (r: Result<(), String>)
    ensures
        match r {
            Ok(_) => good_env_name(name@),
            Err(e) => !good_env_name(name@) && e@
                == "must be an environment variable name, [A-Z_][A-Z0-9_]*"@,
        },
{
    let v = text::chars_of(name);
    let mut ok = v.len() > 0 && (('A' <= v[0] && v[0] <= 'Z') || v[0] == '_');
    let mut i: usize = 0;
    while i < v.len() && ok
        invariant
            i <= v@.len(),
            v@ == name@,
            ok ==> 0 < v@.len() && env_start(v@[0]) && forall|k: int|
                0 <= k < i ==> env_start(#[trigger] v@[k]) || digits::is_digit(v@[k]),
            !ok ==> !good_env_name(name@),
        decreases v@.len() - i,
    {
        let c = v[i];
        if !(('A' <= c && c <= 'Z') || c == '_' || ('0' <= c && c <= '9')) {
            assert(!env_start(name@[i as int]) && !digits::is_digit(name@[i as int]));
            ok = false;
        }
        i = i + 1;
    }
    if ok {
        Ok(())
    } else {
        Err("must be an environment variable name, [A-Z_][A-Z0-9_]*".to_owned())
    }
}

/// A word of an event type.
pub open spec fn event_word(w: Seq<char>) -> bool {
    w.len() > 0 && forall|i: int|
        0 <= i < w.len() ==> lower(#[trigger] w[i]) || digits::is_digit(w[i]) || w[i] == '_'
}

/// `task.done`, `machine.lost`: two dot-separated lowercase words.
pub open spec fn good_event(kind: Seq<char>) -> bool {
    match text::split_once(kind, '.') {
        Some((a, b)) => event_word(a) && event_word(b),
        None => false,
    }
}

/// What is said of a text that is no event type.
pub open spec fn bad_event(kind: Seq<char>) -> Seq<char> {
    text::debug_text(kind) + " is not an event type like \"task.done\""@
}

fn is_event_word(w: &str) -> (b: bool)
    ensures
        b == event_word(w@),
{
    let v = text::chars_of(w);
    let mut i: usize = 0;
    while i < v.len()
        invariant
            i <= v@.len(),
            v@ == w@,
            forall|k: int|
                0 <= k < i ==> lower(#[trigger] v@[k]) || digits::is_digit(v@[k]) || v@[k] == '_',
        decreases v@.len() - i,
    {
        let c = v[i];
        if !(('a' <= c && c <= 'z') || ('0' <= c && c <= '9') || c == '_') {
            assert(!lower(w@[i as int]));
            return false;
        }
        i = i + 1;
    }
    v.len() > 0
}

/// `task.done`, `machine.lost`: two dot-separated lowercase words. The set of
/// types belongs to the events log, so it is not closed here.
pub fn check_event_type(kind: &str) -> (r: Result<(), String>)
    ensures
        match r {
            Ok(_) => good_event(kind@),
            Err(e) => !good_event(kind@) && e@ == bad_event(kind@),
        },
{
    if let Some((a, b)) = text::cut_once(kind, '.') {
        if is_event_word(a.as_str()) && is_event_word(b.as_str()) {
            return Ok(());
        }
    }
    let mut e = text::debug_quoted(kind);
    e.append(" is not an event type like \"task.done\"");
    Err(e)
}

/// The time a command gets, or what is wrong with it.
pub open spec fn timeout_of(field: Seq<char>, v: Option<Seq<char>>) -> Result<Duration, Seq<char>> {
    match v {
        None => Ok(Duration { nanos: (DEFAULT_TIMEOUT_SECS * time::NANOS_PER_SEC) as u128 }),
        Some(s) => match time::duration_secs(s) {
            None => Err(field + ": "@ + time::duration_error(s)),
            Some(secs) => if secs == 0 {
                Err(field + ": must not be zero"@)
            } else {
                Ok(Duration { nanos: (secs * time::NANOS_PER_SEC) as u128 })
            },
        },
    }
}

/// The time a command gets: the default, or what the file says and is not zero.
pub fn timeout_or_default(field: &str, v: &Option<String>) -> (r: Result<Duration, String>)
    ensures
        match (r, timeout_of(field@, text::opt_text(*v))) {
            (Ok(d), Ok(e)) => d == e,
            (Err(e), Err(m)) => e@ == m,
            _ => false,
        },
{
    let s = match v {
        None => {
            return Ok(Duration::from_secs(DEFAULT_TIMEOUT_SECS));
        },
        Some(s) => s,
    };
    match time::parse_duration(s.as_str()) {
        Err(why) => {
            let mut e = field.to_owned();
            e.append(": ");
            e.append(why.as_str());
            Err(e)
        },
        Ok(d) => if d.is_zero() {
            let mut e = field.to_owned();
            e.append(": must not be zero");
            Err(e)
        } else {
            Ok(d)
        },
    }
}

// ---------------------------------------------------------------------------
// The manifest

/// The connectors that need no plugin.
pub open spec fn builtin(id: Seq<char>) -> bool {
    id == "clock"@
}

/// Whether the connector needs no plugin.
pub fn is_builtin(id: &str) -> (b: bool)
    ensures
        b == builtin(id@),
{
    text::same_text(id, "clock")
}

/// The connector as it is run, or what is wrong with it.
pub open spec fn connector_spec(c: file::ConnectorView) -> Result<ConnectorSpecView, Seq<char>> {
    if !good_command(c.command) {
        Err(bad_command("connector.command"@))
    } else {
        match timeout_of("connector.timeout"@, c.timeout) {
            Err(e) => Err(e),
            Ok(timeout) => Ok(
                ConnectorSpecView { mode: c.mode, command: c.command, timeout, config: c.config },
            ),
        }
    }
}

/// The first of the secrets that is not named like an environment variable.
pub open spec fn secrets_error(secrets: Seq<file::SecretView>) -> Option<Seq<char>>
    decreases secrets.len(),
{
    if secrets.len() == 0 {
        None
    } else {
        match secrets_error(secrets.drop_last()) {
            Some(e) => Some(e),
            None => if good_env_name(secrets.last().name) {
                None
            } else {
                Some(
                    "secrets."@ + secrets.last().name + ": "@
                        + "must be an environment variable name, [A-Z_][A-Z0-9_]*"@,
                )
            },
        }
    }
}

/// The first of the texts that is no event type.
pub open spec fn first_bad_event(on: Seq<Seq<char>>) -> Option<Seq<char>>
    decreases on.len(),
{
    if on.len() == 0 {
        None
    } else {
        match first_bad_event(on.drop_last()) {
            Some(k) => Some(k),
            None => if good_event(on.last()) {
                None
            } else {
                Some(on.last())
            },
        }
    }
}

/// The hook as it is run, or what is wrong with it.
pub open spec fn hook_spec(i: nat, h: file::HookView) -> Result<HookSpecView, Seq<char>> {
    if h.on.len() == 0 {
        Err(file::hook_at(i) + ".on: needs at least one event type"@)
    } else {
        match first_bad_event(h.on) {
            Some(k) => Err(file::hook_at(i) + ".on: "@ + bad_event(k)),
            None => if !good_command(h.command) {
                Err(bad_command(file::hook_at(i) + ".command"@))
            } else {
                match timeout_of(file::hook_at(i) + ".timeout"@, h.timeout) {
                    Err(e) => Err(e),
                    Ok(timeout) => Ok(
                        HookSpecView {
                            on: h.on,
                            only_own: h.only_own,
                            command: h.command,
                            timeout,
                        },
                    ),
                }
            },
        }
    }
}

/// The hooks as they are run, or the first thing wrong with them.
pub open spec fn hook_specs(hs: Seq<file::HookView>) -> Result<Seq<HookSpecView>, Seq<char>>
    decreases hs.len(),
{
    if hs.len() == 0 {
        Ok(seq![])
    } else {
        match hook_specs(hs.drop_last()) {
            Err(e) => Err(e),
            Ok(first) => match hook_spec((hs.len() - 1) as nat, hs.last()) {
                Err(e) => Err(e),
                Ok(h) => Ok(first.push(h)),
            },
        }
    }
}

/// What is wrong with the file's id and versions, if anything.
pub open spec fn head_error(f: file::FileView, pastor: Version) -> Option<Seq<char>> {
    if !good_id(f.id) {
        Some(bad_id(f.id))
    } else if builtin(f.id) {
        Some("id "@ + text::debug_text(f.id) + " is reserved for the built-in connector"@)
    } else if version::version_of(f.version) is None {
        Some("version: "@ + version::no_version(f.version))
    } else {
        match f.min_pastor_version {
            None => None,
            Some(m) => match version::version_of(m) {
                None => Some("min_pastor_version: "@ + version::no_version(m)),
                Some(min) => if pastor.older(min) {
                    Some("needs pastor "@ + min.text() + " or later; this is "@ + pastor.text())
                } else {
                    None
                },
            },
        }
    }
}

/// The connector of the file as it is run, if it has one.
pub open spec fn connector_part(c: Option<file::ConnectorView>) -> Result<
    Option<ConnectorSpecView>,
    Seq<char>,
> {
    match c {
        None => Ok(None),
        Some(c) => match connector_spec(c) {
            Err(e) => Err(e),
            Ok(s) => Ok(Some(s)),
        },
    }
}

/// The least pastor the file asks for.
pub open spec fn min_version(f: file::FileView) -> Option<Version> {
    match f.min_pastor_version {
        None => None,
        Some(m) => version::version_of(m),
    }
}

/// The manifest the file makes for a pastor, or the first thing wrong with it.
pub open spec fn manifest_of(f: file::FileView, pastor: Version) -> Result<ManifestView, Seq<char>> {
    match head_error(f, pastor) {
        Some(e) => Err(e),
        None => match connector_part(f.connector) {
            Err(e) => Err(e),
            Ok(connector) => match secrets_error(f.secrets) {
                Some(e) => Err(e),
                None => match hook_specs(f.events) {
                    Err(e) => Err(e),
                    Ok(events) => if connector is None && events.len() == 0 {
                        Err("a plugin must provide a [connector], [[events]] hooks, or both"@)
                    } else {
                        Ok(
                            ManifestView {
                                id: f.id,
                                name: match f.name {
                                    Some(n) => n,
                                    None => f.id,
                                },
                                version: version::version_of(f.version)->0,
                                min_pastor_version: min_version(f),
                                description: f.description,
                                connector,
                                secrets: f.secrets,
                                events,
                            },
                        )
                    },
                },
            },
        },
    }
}

fn prefixed(a: &str, b: &str) -> (r: String)
    ensures
        r@ == a@ + b@,
{
    let mut s = a.to_owned();
    s.append(b);
    s
}

fn check_head(f: &ManifestFile, pastor: &Version) -> (r: Result<(Version, Option<Version>), String>)
    ensures
        match (r, head_error(f@, *pastor)) {
            (Err(e), Some(m)) => e@ == m,
            (Ok((v, min)), None) => Some(v) == version::version_of(f@.version) && min
                == min_version(f@),
            _ => false,
        },
{
    check_id(f.id.as_str())?;
    if is_builtin(f.id.as_str()) {
        let mut e = "id ".to_owned();
        e.append(text::debug_quoted(f.id.as_str()).as_str());
        e.append(" is reserved for the built-in connector");
        return Err(e);
    }
    let v = match Version::parse(f.version.as_str()) {
        Ok(v) => v,
        Err(e) => {
            return Err(prefixed("version: ", e.as_str()));
        },
    };
    let m = match &f.min_pastor_version {
        None => {
            return Ok((v, None));
        },
        Some(m) => m,
    };
    match Version::parse(m.as_str()) {
        Err(e) => Err(prefixed("min_pastor_version: ", e.as_str())),
        Ok(min) => if pastor.is_older(&min) {
            let mut e = "needs pastor ".to_owned();
            e.append(min.print().as_str());
            e.append(" or later; this is ");
            e.append(pastor.print().as_str());
            Err(e)
        } else {
            Ok((v, Some(min)))
        },
    }
}

fn check_connector(c: ConnectorFile) -> (r: Result<ConnectorSpec, String>)
    ensures
        match (r, connector_spec(c@)) {
            (Ok(s), Ok(w)) => s@ == w,
            (Err(e), Err(m)) => e@ == m,
            _ => false,
        },
{
    check_command("connector.command", &c.command)?;
    let timeout = timeout_or_default("connector.timeout", &c.timeout)?;
    Ok(ConnectorSpec { mode: c.mode, command: c.command, timeout, config: c.config })
}

fn check_secrets(secrets: &Vec<SecretDecl>) -> (r: Result<(), String>)
    ensures
        match (r, secrets_error(file::secret_views(secrets@))) {
            (Ok(_), None) => true,
            (Err(e), Some(m)) => e@ == m,
            _ => false,
        },
{
    let ghost all = file::secret_views(secrets@);
    let mut i: usize = 0;
    while i < secrets.len()
        invariant
            i <= secrets@.len(),
            all == file::secret_views(secrets@),
            secrets_error(all.take(i as int)) is None,
        decreases secrets@.len() - i,
    {
        proof {
            assert(all.take(i + 1).drop_last() =~= all.take(i as int));
            assert(all.take(i + 1).last() == all[i as int]);
        }
        if let Err(why) = check_env_name(secrets[i].name.as_str()) {
            proof {
                lemma_secrets_error_stays(all, i + 1);
            }
            let mut e = "secrets.".to_owned();
            e.append(secrets[i].name.as_str());
            e.append(": ");
            e.append(why.as_str());
            return Err(e);
        }
        i = i + 1;
    }
    assert(all.take(i as int) =~= all);
    Ok(())
}

proof fn lemma_secrets_error_stays(secrets: Seq<file::SecretView>, n: int)
    requires
        0 <= n <= secrets.len(),
        secrets_error(secrets.take(n)) is Some,
    ensures
        secrets_error(secrets) == secrets_error(secrets.take(n)),
    decreases secrets.len() - n,
{
    if n == secrets.len() {
        assert(secrets.take(n) =~= secrets);
    } else {
        assert(secrets.take(n + 1).drop_last() =~= secrets.take(n));
        lemma_secrets_error_stays(secrets, n + 1);
    }
}

fn check_events(at: &str, on: &Vec<String>) -> (r: Result<(), String>)
    ensures
        match (r, first_bad_event(text::texts(on@))) {
            (Ok(_), None) => true,
            (Err(e), Some(k)) => e@ == at@ + ".on: "@ + bad_event(k),
            _ => false,
        },
{
    let ghost all = text::texts(on@);
    let mut i: usize = 0;
    while i < on.len()
        invariant
            i <= on@.len(),
            all == text::texts(on@),
            first_bad_event(all.take(i as int)) is None,
        decreases on@.len() - i,
    {
        proof {
            assert(all.take(i + 1).drop_last() =~= all.take(i as int));
            assert(all.take(i + 1).last() == all[i as int]);
        }
        if let Err(why) = check_event_type(on[i].as_str()) {
            proof {
                lemma_first_bad_event_stays(all, i + 1);
            }
            let mut e = at.to_owned();
            e.append(".on: ");
            e.append(why.as_str());
            return Err(e);
        }
        i = i + 1;
    }
    assert(all.take(i as int) =~= all);
    Ok(())
}

proof fn lemma_first_bad_event_stays(on: Seq<Seq<char>>, n: int)
    requires
        0 <= n <= on.len(),
        first_bad_event(on.take(n)) is Some,
    ensures
        first_bad_event(on) == first_bad_event(on.take(n)),
    decreases on.len() - n,
{
    if n == on.len() {
        assert(on.take(n) =~= on);
    } else {
        assert(on.take(n + 1).drop_last() =~= on.take(n));
        lemma_first_bad_event_stays(on, n + 1);
    }
}

fn check_hook(i: usize, h: HookFile) -> (r: Result<Hook, String>)
    ensures
        match (r, hook_spec(i as nat, h@)) {
            (Ok(s), Ok(w)) => s@ == w,
            (Err(e), Err(m)) => e@ == m,
            _ => false,
        },
{
    let at = file::place_of_hook(i);
    assert(text::texts(h.on@).len() == h.on@.len());
    if h.on.len() == 0 {
        return Err(prefixed(at.as_str(), ".on: needs at least one event type"));
    }
    check_events(at.as_str(), &h.on)?;
    check_command(prefixed(at.as_str(), ".command").as_str(), &h.command)?;
    let timeout = timeout_or_default(prefixed(at.as_str(), ".timeout").as_str(), &h.timeout)?;
    Ok(Hook { on: h.on, only_own: h.only_own, command: h.command, timeout })
}

fn check_hooks(hooks: Vec<HookFile>) -> (r: Result<Vec<Hook>, String>)
    ensures
        match (r, hook_specs(file::hook_views(hooks@))) {
            (Ok(s), Ok(w)) => hook_spec_views(s@) == w,
            (Err(e), Err(m)) => e@ == m,
            _ => false,
        },
{
    let ghost all = file::hook_views(hooks@);
    let ghost given = hooks@;
    let mut rest = hooks;
    let mut out: Vec<Hook> = Vec::new();
    let n: usize = rest.len();
    assert(hook_spec_views(out@) =~= seq![]);
    assert(all.take(0) =~= seq![]);
    while rest.len() > 0
        invariant
            rest@.len() <= n,
            n == given.len(),
            given == hooks@,
            all == file::hook_views(given),
            rest@ == given.skip(n - rest@.len()),
            hook_specs(all.take(n - rest@.len())) == Ok::<Seq<HookSpecView>, Seq<char>>(
                hook_spec_views(out@),
            ),
            out@.len() == n - rest@.len(),
        decreases rest@.len(),
    {
        let i: usize = out.len();
        let h = rest.remove(0);
        proof {
            assert(h == given[i as int]);
            assert(rest@ =~= given.skip(i + 1));
            assert(all.take(i + 1).drop_last() =~= all.take(i as int));
            assert(all.take(i + 1).last() == all[i as int]);
        }
        match check_hook(i, h) {
            Ok(s) => {
                let ghost before = out@;
                out.push(s);
                assert(hook_spec_views(out@) =~= hook_spec_views(before).push(s@));
            },
            Err(e) => {
                proof {
                    lemma_hook_specs_fail(all, i + 1);
                }
                return Err(e);
            },
        }
    }
    assert(all.take(n as int) =~= all);
    Ok(out)
}

proof fn lemma_hook_specs_fail(hs: Seq<file::HookView>, n: int)
    requires
        0 <= n <= hs.len(),
        hook_specs(hs.take(n)) is Err,
    ensures
        hook_specs(hs) == hook_specs(hs.take(n)),
    decreases hs.len() - n,
{
    if n == hs.len() {
        assert(hs.take(n) =~= hs);
    } else {
        assert(hs.take(n + 1).drop_last() =~= hs.take(n));
        lemma_hook_specs_fail(hs, n + 1);
    }
}

/// The manifest a text makes for a pastor, or what is wrong with it.
pub open spec fn parsed(text: Seq<char>, pastor: Version) -> Result<ManifestView, Seq<char>> {
    match document::toml_document(text) {
        Err(e) => Err(e),
        Ok(t) => match file::file_of(t) {
            Err(e) => Err(e),
            Ok(f) => manifest_of(f, pastor),
        },
    }
}

impl Manifest {
    /// Parse and validate against the running pastor's version.
    pub fn parse(text: &str) -> (r: Result<Manifest, String>)
        ensures
            match (r, parsed(text@, Version(0, 4, 0))) {
                (Ok(m), Ok(w)) => m@ == w && m@.in_order(),
                (Err(e), Err(m)) => e@ == m,
                _ => false,
            },
    {
        Manifest::parse_for(text, &version::pastor_version())
    }

    /// Parse and validate against a pastor's version.
    pub fn parse_for(text: &str, pastor: &Version) -> (r: Result<Manifest, String>)
        ensures
            match (r, parsed(text@, *pastor)) {
                (Ok(m), Ok(w)) => m@ == w && m@.in_order(),
                (Err(e), Err(m)) => e@ == m,
                _ => false,
            },
    {
        let doc = document::read_document(text)?;
        let f = file::read_file(&doc)?;
        Manifest::from_file(f, pastor)
    }

    /// Validate what the file says against a pastor's version. A built-in id is
    /// refused: the catalog resolves it to the built-in, so a plugin by that name
    /// could never run.
    pub fn from_file(f: ManifestFile, pastor: &Version) -> (r: Result<Manifest, String>)
        requires
            f@.in_order(),
        ensures
            match (r, manifest_of(f@, *pastor)) {
                (Ok(m), Ok(w)) => m@ == w && m@.in_order(),
                (Err(e), Err(m)) => e@ == m,
                _ => false,
            },
    {
        let (version, min_pastor_version) = check_head(&f, pastor)?;
        let connector = match f.connector {
            None => None,
            Some(c) => Some(check_connector(c)?),
        };
        check_secrets(&f.secrets)?;
        let events = check_hooks(f.events)?;
        assert(hook_spec_views(events@).len() == events@.len());
        if connector.is_none() && events.len() == 0 {
            return Err("a plugin must provide a [connector], [[events]] hooks, or both".to_owned());
        }
        let name = match f.name {
            Some(n) => n,
            None => f.id.clone(),
        };
        Ok(
            Manifest {
                id: f.id,
                name,
                version,
                min_pastor_version,
                description: f.description,
                connector,
                secrets: f.secrets,
                events,
            },
        )
    }
}

/// Every manifest has a plain id that no built-in has, provides something, runs
/// only commands that name a program and end in time, and does not ask for a later
/// pastor.
pub proof fn a_manifest_is_usable(f: file::FileView, pastor: Version, m: ManifestView)
    requires
        manifest_of(f, pastor) == Ok::<ManifestView, Seq<char>>(m),
    ensures
        good_id(m.id) && !builtin(m.id),
        m.connector is Some || m.events.len() > 0,
        m.connector matches Some(c) ==> good_command(c.command) && c.timeout.nanos > 0,
        forall|i: int|
            0 <= i < m.events.len() ==> (#[trigger] m.events[i]).on.len() > 0 && good_command(
                m.events[i].command,
            ) && m.events[i].timeout.nanos > 0,
        m.min_pastor_version matches Some(min) ==> !pastor.older(min),
{
    lemma_hooks_are_usable(f.events);
}

proof fn lemma_hooks_are_usable(hs: Seq<file::HookView>)
    ensures
        hook_specs(hs) matches Ok(v) ==> v.len() == hs.len() && forall|i: int|
            0 <= i < v.len() ==> (#[trigger] v[i]).on.len() > 0 && good_command(v[i].command)
                && v[i].timeout.nanos > 0,
    decreases hs.len(),
{
    if hs.len() > 0 {
        lemma_hooks_are_usable(hs.drop_last());
    }
}

// ---------------------------------------------------------------------------
// A job's config

/// The config has something other than null under the key.
pub open spec fn sets(config: Json, key: Seq<char>) -> bool {
    config matches Json::Object(m) && m.dom().contains(key) && !(m[key] is Null)
}

/// The keys that are required and not set, in order.
pub open spec fn lacking(decls: Seq<file::ConfigView>, config: Json) -> Seq<Seq<char>>
    decreases decls.len(),
{
    if decls.len() == 0 {
        seq![]
    } else {
        let first = lacking(decls.drop_last(), config);
        if decls.last().required && !sets(config, decls.last().name) {
            first.push(decls.last().name)
        } else {
            first
        }
    }
}

/// What is wrong with a job's config for the plugin, if anything.
pub open spec fn config_error(m: ManifestView, config: Json) -> Option<Seq<char>> {
    match m.connector {
        None => Some(
            "plugin "@ + text::debug_text(m.id)
                + " has no connector (it only provides event hooks)"@,
        ),
        Some(c) => if lacking(c.config, config).len() == 0 {
            None
        } else {
            Some(
                "plugin "@ + text::debug_text(m.id) + " requires connector."@ + text::joined(
                    lacking(c.config, config),
                    ", connector."@,
                ),
            )
        },
    }
}

impl Manifest {
    /// Err(reason) when a job's `[connector]` table (minus `use`) lacks a key
    /// the manifest marks `required`. Keys it does not declare are passed
    /// through untouched: the manifest has no schema beyond `required`.
    pub fn check_config(&self, config: &serde_json::Value) -> (r: Result<(), String>)
        requires
            self@.in_order(),
        ensures
            match (r, config_error(self@, json::json_value(*config))) {
                (Ok(_), None) => true,
                (Err(e), Some(m)) => e@ == m,
                _ => false,
            },
            r is Err && self@.connector is Some ==> text::ascending(
                lacking(self@.connector->0.config, json::json_value(*config)),
            ),
    {
        let mut e = "plugin ".to_owned();
        e.append(text::debug_quoted(self.id.as_str()).as_str());
        let c = match &self.connector {
            Some(c) => c,
            None => {
                e.append(" has no connector (it only provides event hooks)");
                return Err(e);
            },
        };
        let mut missing: Vec<String> = Vec::new();
        let ghost all = file::config_views(c.config@);
        let ghost j = json::json_value(*config);
        let mut i: usize = 0;
        assert(text::texts(missing@) =~= seq![]);
        while i < c.config.len()
            invariant
                i <= c.config@.len(),
                all == file::config_views(c.config@),
                j == json::json_value(*config),
                text::texts(missing@) == lacking(all.take(i as int), j),
            decreases c.config@.len() - i,
        {
            proof {
                assert(all.take(i + 1).drop_last() =~= all.take(i as int));
                assert(all.take(i + 1).last() == all[i as int]);
            }
            let d = &c.config[i];
            if d.required {
                let set = match json::get(config, d.name.as_str()) {
                    Some(v) => !json::is_null(v),
                    None => false,
                };
                if !set {
                    let ghost before = missing@;
                    missing.push(d.name.clone());
                    assert(text::texts(missing@) =~= text::texts(before).push(d.name@));
                }
            }
            i = i + 1;
        }
        assert(all.take(i as int) =~= all);
        assert(text::texts(missing@).len() == missing@.len());
        if missing.len() == 0 {
            return Ok(());
        }
        proof {
            missing_keys_are_named_in_order(self@, j);
        }
        e.append(" requires connector.");
        e.append(text::join(&missing, ", connector.").as_str());
        Err(e)
    }
}

/// The keys named as missing come in strict order, and they are the required ones
/// that the config does not set.
pub proof fn missing_keys_are_named_in_order(m: ManifestView, config: Json)
    requires
        m.in_order(),
        m.connector is Some,
    ensures
        text::ascending(lacking(m.connector->0.config, config)),
        forall|k: Seq<char>| #[trigger]
            lacking(m.connector->0.config, config).contains(k) <==> !sets(config, k) && requires_key(
                m.connector->0.config,
                k,
            ),
{
    lemma_lacking_in_order(m.connector->0.config, config);
}

/// One of the declarations requires the key.
pub open spec fn requires_key(decls: Seq<file::ConfigView>, key: Seq<char>) -> bool {
    exists|i: int| 0 <= i < decls.len() && (#[trigger] decls[i]).required && decls[i].name == key
}

proof fn lemma_lacking_in_order(decls: Seq<file::ConfigView>, config: Json)
    requires
        text::ascending(file::config_names(decls)),
    ensures
        text::ascending(lacking(decls, config)),
        forall|k: Seq<char>| #[trigger]
            lacking(decls, config).contains(k) <==> !sets(config, k) && requires_key(decls, k),
    decreases decls.len(),
{
    let names = lacking(decls, config);
    if decls.len() > 0 {
        let rest = decls.drop_last();
        let last = decls.last();
        let first = lacking(rest, config);
        let all = file::config_names(decls);
        assert forall|i: int, j: int| 0 <= i < j < rest.len() implies text::before(
            #[trigger] file::config_names(rest)[i],
            #[trigger] file::config_names(rest)[j],
        ) by {
            assert(text::before(all[i], all[j]));
        }
        lemma_lacking_in_order(rest, config);
        assert forall|k: Seq<char>| requires_key(rest, k) implies #[trigger] requires_key(decls, k)
            && text::before(k, last.name) by {
            let i = choose|i: int|
                0 <= i < rest.len() && (#[trigger] rest[i]).required && rest[i].name == k;
            assert(decls[i] == rest[i]);
            assert(text::before(all[i], all[decls.len() - 1]));
        }
        assert forall|k: Seq<char>| requires_key(decls, k) implies #[trigger] requires_key(rest, k)
            || (last.required && k == last.name) by {
            let i = choose|i: int|
                0 <= i < decls.len() && (#[trigger] decls[i]).required && decls[i].name == k;
            if i < rest.len() {
                assert(rest[i] == decls[i]);
            }
        }
        if last.required {
            assert(decls[decls.len() - 1] == last);
            assert(requires_key(decls, last.name));
        }
        assert forall|i: int, j: int| 0 <= i < j < names.len() implies text::before(
            #[trigger] names[i],
            #[trigger] names[j],
        ) by {
            assert(names[i] == first[i]);
            if j < first.len() {
                assert(names[j] == first[j]);
            } else {
                assert(first.contains(first[i]));
                assert(requires_key(rest, first[i]));
                assert(requires_key(decls, first[i]));
            }
        }
        assert forall|k: Seq<char>| #[trigger] names.contains(k) <==> !sets(config, k)
            && requires_key(decls, k) by {
            if names.contains(k) {
                let i = choose|i: int| 0 <= i < names.len() && names[i] == k;
                if i < first.len() {
                    assert(first[i] == k);
                    assert(first.contains(k));
                    assert(requires_key(rest, k));
                }
            }
            if !sets(config, k) && requires_key(decls, k) {
                if requires_key(rest, k) {
                    assert(first.contains(k));
                    let i = choose|i: int| 0 <= i < first.len() && first[i] == k;
                    assert(names[i] == k);
                } else {
                    assert(names[names.len() - 1] == k);
                }
            }
        }
    }
}

/// A config that sets every required key is accepted, whatever else it holds.
pub proof fn a_config_needs_only_the_required_keys(m: ManifestView, config: Json)
    requires
        m.connector is Some,
        forall|i: int|
            0 <= i < m.connector->0.config.len() && (#[trigger] m.connector->0.config[i]).required
                ==> sets(config, m.connector->0.config[i].name),
    ensures
        config_error(m, config) is None,
{
    lemma_nothing_lacking(m.connector->0.config, config);
}

proof fn lemma_nothing_lacking(decls: Seq<file::ConfigView>, config: Json)
    requires
        forall|i: int|
            0 <= i < decls.len() && (#[trigger] decls[i]).required ==> sets(config, decls[i].name),
    ensures
        lacking(decls, config).len() == 0,
    decreases decls.len(),
{
    if decls.len() > 0 {
        assert forall|i: int| 0 <= i < decls.len() - 1 && (
        #[trigger] decls.drop_last()[i]).required implies sets(config, decls.drop_last()[i].name) by {
            assert(decls.drop_last()[i] == decls[i]);
        }
        lemma_nothing_lacking(decls.drop_last(), config);
    }
}

/// An id is one to 64 characters, each a lower-case letter, a digit, `_`, `.` or `-`, and
/// begins with a letter or a digit.
pub proof fn what_a_plugin_may_be_called(id: &str, r: Result<(), String>)
    requires
        call_ensures(check_id, (id,), r),
    ensures
        r is Ok <==> 1 <= id@.len() <= 64 && id@[0] != '_' && id@[0] != '.' && id@[0] != '-'
            && forall|i: int|
            0 <= i < id@.len() ==> 'a' <= #[trigger] id@[i] <= 'z' || '0' <= id@[i] <= '9' || id@[i]
                == '_' || id@[i] == '.' || id@[i] == '-',
{
    if r is Ok {
        assert forall|i: int| 0 <= i < id@.len() implies 'a' <= #[trigger] id@[i] <= 'z' || '0'
            <= id@[i] <= '9' || id@[i] == '_' || id@[i] == '.' || id@[i] == '-' by {
            assert(id_part(id@[i]));
        }
    } else if 1 <= id@.len() <= 64 && id@[0] != '_' && id@[0] != '.' && id@[0] != '-' && forall|i: int|
        0 <= i < id@.len() ==> 'a' <= #[trigger] id@[i] <= 'z' || '0' <= id@[i] <= '9' || id@[i] == '_'
            || id@[i] == '.' || id@[i] == '-' {
        assert(id_start(id@[0]));
        assert(good_id(id@));
    }
}

/// A secret's name is one or more upper-case letters, digits and `_`, and begins with no
/// digit; a command is a program that has a name, and its arguments.
pub proof fn what_a_secret_and_a_command_may_be(
    name: &str,
    r: Result<(), String>,
    field: &str,
    argv: &Vec<String>,
    c: Result<(), String>,
)
    requires
        call_ensures(check_env_name, (name,), r),
        call_ensures(check_command, (field, argv), c),
    ensures
        r is Ok <==> name@.len() > 0 && !('0' <= name@[0] <= '9') && forall|i: int|
            0 <= i < name@.len() ==> 'A' <= #[trigger] name@[i] <= 'Z' || '0' <= name@[i] <= '9'
                || name@[i] == '_',
        c is Ok <==> argv@.len() > 0 && argv@[0]@.len() > 0,
{
    if r is Ok {
        assert forall|i: int| 0 <= i < name@.len() implies 'A' <= #[trigger] name@[i] <= 'Z' || '0'
            <= name@[i] <= '9' || name@[i] == '_' by {
            assert(env_start(name@[i]) || digits::is_digit(name@[i]));
        }
    } else if name@.len() > 0 && !('0' <= name@[0] <= '9') && forall|i: int|
        0 <= i < name@.len() ==> 'A' <= #[trigger] name@[i] <= 'Z' || '0' <= name@[i] <= '9' || name@[i]
            == '_' {
        assert(env_start(name@[0]));
        assert(good_env_name(name@));
    }
}

/// An event type is two words of lower-case letters, digits and `_`, with one dot between.
pub proof fn what_an_event_type_is(kind: &str, r: Result<(), String>)
    requires
        call_ensures(check_event_type, (kind,), r),
    ensures
        r is Ok <==> exists|n: int|
            #![trigger kind@[n]]
            {
                &&& 0 < n < kind@.len() - 1
                &&& kind@[n] == '.'
                &&& forall|i: int|
                    0 <= i < kind@.len() && i != n ==> 'a' <= #[trigger] kind@[i] <= 'z' || '0'
                        <= kind@[i] <= '9' || kind@[i] == '_'
            },
{
    let k = kind@;
    text::lemma_first_of(k, '.');
    let n = text::first_of(k, '.');
    if r is Ok {
        let a = k.take(n);
        let b = k.skip(n + 1);
        assert(n < k.len());
        assert(event_word(a) && event_word(b));
        assert forall|i: int| 0 <= i < k.len() && i != n implies 'a' <= #[trigger] k[i] <= 'z' || '0'
            <= k[i] <= '9' || k[i] == '_' by {
            if i < n {
                assert(a[i] == k[i]);
            } else {
                assert(b[i - n - 1] == k[i]);
            }
        }
        assert(k[n] == '.');
    }
    if exists|n: int|
        #![trigger k[n]]
        {
            &&& 0 < n < k.len() - 1
            &&& k[n] == '.'
            &&& forall|i: int|
                0 <= i < k.len() && i != n ==> 'a' <= #[trigger] k[i] <= 'z' || '0' <= k[i] <= '9'
                    || k[i] == '_'
        } {
        let m = choose|n: int|
            #![trigger k[n]]
            {
                &&& 0 < n < k.len() - 1
                &&& k[n] == '.'
                &&& forall|i: int|
                    0 <= i < k.len() && i != n ==> 'a' <= #[trigger] k[i] <= 'z' || '0' <= k[i] <= '9'
                        || k[i] == '_'
            };
        assert(k.contains('.'));
        assert(n == m) by {
            if n < m {
                assert(k[n] == '.');
            }
        }
        let a = k.take(n);
        let b = k.skip(n + 1);
        assert forall|i: int| 0 <= i < a.len() implies lower(#[trigger] a[i]) || digits::is_digit(a[i])
            || a[i] == '_' by {
            assert(a[i] == k[i]);
        }
        assert forall|i: int| 0 <= i < b.len() implies lower(#[trigger] b[i]) || digits::is_digit(b[i])
            || b[i] == '_' by {
            assert(b[i] == k[i + n + 1]);
        }
        assert(good_event(k));
    }
}

/// A command that says nothing gets a minute; one that says a time gets that, if it is
/// one and is not zero.
pub proof fn a_command_gets_its_time(field: &str, v: &Option<String>, r: Result<Duration, String>)
    requires
        call_ensures(timeout_or_default, (field, v), r),
    ensures
        v is None ==> (r matches Ok(d) && d.nanos == 60_000_000_000),
        v matches Some(s) ==> {
            let secs = time::duration_secs(s@);
            &&& r is Ok <==> secs is Some && secs->0 > 0
            &&& r matches Ok(d) ==> d.nanos == secs->0 * 1_000_000_000
        },
{
    if let Some(s) = *v {
        if let Some(secs) = time::duration_secs(s@) {
            assert(secs <= u64::MAX);
            assert(secs * time::NANOS_PER_SEC <= u128::MAX);
        }
    }
}

/// What a manifest takes from its file, if the file is right: the id, the name or else
/// the id, the description, the secrets, and the connector and hooks with their commands
/// as they stand.
pub proof fn a_manifest_says_what_its_file_says(f: file::FileView, pastor: Version, m: ManifestView)
    requires
        manifest_of(f, pastor) == Ok::<ManifestView, Seq<char>>(m),
    ensures
        m.id == f.id,
        m.name == (if f.name is Some {
            f.name->0
        } else {
            f.id
        }),
        Some(m.version) == version::version_of(f.version),
        m.description == f.description,
        m.secrets == f.secrets,
        m.connector is Some <==> f.connector is Some,
        m.connector matches Some(c) ==> c.command == f.connector->0.command && c.mode
            == f.connector->0.mode && c.config == f.connector->0.config && (
        f.connector->0.timeout is None ==> c.timeout.nanos == 60_000_000_000),
        m.events.len() == f.events.len(),
        forall|i: int|
            0 <= i < m.events.len() ==> (#[trigger] m.events[i]).on == f.events[i].on
                && m.events[i].command == f.events[i].command && m.events[i].only_own
                == f.events[i].only_own,
{
    lemma_hooks_say(f.events);
}

proof fn lemma_hooks_say(hs: Seq<file::HookView>)
    ensures
        hook_specs(hs) matches Ok(v) ==> v.len() == hs.len() && forall|i: int|
            0 <= i < v.len() ==> (#[trigger] v[i]).on == hs[i].on && v[i].command == hs[i].command
                && v[i].only_own == hs[i].only_own,
    decreases hs.len(),
{
    if hs.len() > 0 {
        lemma_hooks_say(hs.drop_last());
        if let Ok(v) = hook_specs(hs) {
            let first = hook_specs(hs.drop_last())->Ok_0;
            assert forall|i: int| 0 <= i < v.len() implies (#[trigger] v[i]).on == hs[i].on
                && v[i].command == hs[i].command && v[i].only_own == hs[i].only_own by {
                if i < first.len() {
                    assert(v[i] == first[i]);
                    assert(hs.drop_last()[i] == hs[i]);
                }
            }
        }
    }
}

/// A manifest is refused for its id, for the name of the built-in connector, for versions
/// that are none, for a pastor that is too old, for a connector without a program, and
/// for having nothing to offer.
pub proof fn what_a_manifest_is_refused_for(f: file::FileView, pastor: Version)
    requires
        manifest_of(f, pastor) is Ok,
    ensures
        good_id(f.id),
        f.id != "clock"@,
        version::version_of(f.version) is Some,
        f.min_pastor_version matches Some(min) ==> (version::version_of(min) matches Some(v)
            && !pastor.older(v)),
        f.connector matches Some(c) ==> c.command.len() > 0 && c.command[0].len() > 0,
        f.connector is Some || f.events.len() > 0,
        forall|i: int|
            0 <= i < f.events.len() ==> (#[trigger] f.events[i]).on.len() > 0
                && f.events[i].command.len() > 0,
        forall|i: int| 0 <= i < f.secrets.len() ==> good_env_name((#[trigger] f.secrets[i]).name),
{
    lemma_hooks_say(f.events);
    lemma_hooks_are_usable(f.events);
    lemma_secret_names(f.secrets);
    let m = manifest_of(f, pastor)->Ok_0;
    assert forall|i: int| 0 <= i < f.events.len() implies (#[trigger] f.events[i]).on.len() > 0
        && f.events[i].command.len() > 0 by {
        assert(m.events[i].on.len() > 0);
    }
}

proof fn lemma_secret_names(secrets: Seq<file::SecretView>)
    requires
        secrets_error(secrets) is None,
    ensures
        forall|i: int| 0 <= i < secrets.len() ==> good_env_name((#[trigger] secrets[i]).name),
    decreases secrets.len(),
{
    if secrets.len() > 0 {
        lemma_secret_names(secrets.drop_last());
        assert forall|i: int| 0 <= i < secrets.len() implies good_env_name(
            (#[trigger] secrets[i]).name,
        ) by {
            if i < secrets.len() - 1 {
                assert(secrets.drop_last()[i] == secrets[i]);
            }
        }
    }
}

/// A config is refused exactly if the plugin has no connector, or a key that it requires
/// is not set to anything but null.
pub proof fn a_config_without_a_required_key_is_refused(
    m: Manifest,
    config: &serde_json::Value,
    r: Result<(), String>,
)
    requires
        m@.in_order(),
        call_ensures(Manifest::check_config, (&m, config), r),
    ensures
        m.connector is None ==> r is Err,
        m.connector is Some ==> (r is Err <==> exists|i: int|
            0 <= i < m@.connector->0.config.len() && (#[trigger] m@.connector->0.config[i]).required
                && !(json::json_value(*config) matches Json::Object(o) && o.dom().contains(
                m@.connector->0.config[i].name,
            ) && !(o[m@.connector->0.config[i].name] is Null))),
{
    if m.connector is Some {
        let c = json::json_value(*config);
        let decls = m@.connector->0.config;
        missing_keys_are_named_in_order(m@, c);
        if r is Err {
            let missing = lacking(decls, c);
            assert(missing.contains(missing[0]));
            let i = choose|i: int|
                0 <= i < decls.len() && (#[trigger] decls[i]).required && decls[i].name == missing[0];
            assert(decls[i].required && !sets(c, decls[i].name));
        } else {
            assert forall|i: int| 0 <= i < decls.len() && (#[trigger] decls[i]).required implies sets(
                c,
                decls[i].name,
            ) by {
                if !sets(c, decls[i].name) {
                    assert(requires_key(decls, decls[i].name));
                    assert(lacking(decls, c).contains(decls[i].name));
                }
            }
        }
    }
}

} // verus!
