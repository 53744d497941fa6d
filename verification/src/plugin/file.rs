//! The shape of `pastor-plugin.toml`, before its values are judged.

use vstd::prelude::*;
use vstd::string::*;

use crate::digits;
use crate::document;
use crate::document::Fields;
use crate::document::Node;
use crate::document::Toml;
use crate::text;

verus! {

/// How a connector runs.
#[derive(Debug, Clone, Copy, PartialEq, Eq, Structural)]
pub enum Mode {
    /// Run once per job run, exit when done.
    Poll,
    /// Started once, kept alive, items accepted at any time.
    Stream,
}

impl Mode {
    /// The mode's name.
    pub open spec fn text(self) -> Seq<char> {
        match self {
            Mode::Poll => "poll"@,
            Mode::Stream => "stream"@,
        }
    }

    /// The mode's name.
    pub fn name(&self) -> (r: &'static str)
        ensures
            r@ == self.text(),
    {
        match self {
            Mode::Poll => "poll",
            Mode::Stream => "stream",
        }
    }
}

impl Default for Mode {
    fn default() -> (r: Mode)
        ensures
            r is Poll,
    {
        Mode::Poll
    }
}

/// The whole schema language: `required` and `description`.
#[derive(Debug)]
pub struct ConfigDecl {
    pub name: String,
    pub required: bool,
    pub description: Option<String>,
}

/// What a `ConfigDecl` says.
pub struct ConfigView {
    pub name: Seq<char>,
    pub required: bool,
    pub description: Option<Seq<char>>,
}

impl ConfigDecl {
    /// What it says.
    pub open spec fn view(&self) -> ConfigView {
        ConfigView {
            name: self.name@,
            required: self.required,
            description: text::opt_text(self.description),
        }
    }
}

/// A secret that a plugin needs.
#[derive(Debug)]
pub struct SecretDecl {
    pub name: String,
    pub description: Option<String>,
}

/// What a `SecretDecl` says.
pub struct SecretView {
    pub name: Seq<char>,
    pub description: Option<Seq<char>>,
}

impl SecretDecl {
    /// What it says.
    pub open spec fn view(&self) -> SecretView {
        SecretView { name: self.name@, description: text::opt_text(self.description) }
    }
}

/// `[connector]` as the file has it.
#[derive(Debug)]
pub struct ConnectorFile {
    pub mode: Mode,
    pub command: Vec<String>,
    pub timeout: Option<String>,
    /// In the order of their names.
    pub config: Vec<ConfigDecl>,
}

/// What a `ConnectorFile` says.
#[verifier::ext_equal]
pub struct ConnectorView {
    pub mode: Mode,
    pub command: Seq<Seq<char>>,
    pub timeout: Option<Seq<char>>,
    pub config: Seq<ConfigView>,
}

/// The declarations, as they say.
pub open spec fn config_views(v: Seq<ConfigDecl>) -> Seq<ConfigView> {
    Seq::new(v.len(), |i: int| v[i]@)
}

/// The secrets, as they say.
pub open spec fn secret_views(v: Seq<SecretDecl>) -> Seq<SecretView> {
    Seq::new(v.len(), |i: int| v[i]@)
}

/// The names of the declarations.
pub open spec fn config_names(v: Seq<ConfigView>) -> Seq<Seq<char>> {
    Seq::new(v.len(), |i: int| v[i].name)
}

/// The names of the secrets.
pub open spec fn secret_names(v: Seq<SecretView>) -> Seq<Seq<char>> {
    Seq::new(v.len(), |i: int| v[i].name)
}

impl ConnectorFile {
    /// What it says.
    pub open spec fn view(&self) -> ConnectorView {
        ConnectorView {
            mode: self.mode,
            command: text::texts(self.command@),
            timeout: text::opt_text(self.timeout),
            config: config_views(self.config@),
        }
    }
}

/// One of `[[events]]` as the file has it.
#[derive(Debug)]
pub struct HookFile {
    pub on: Vec<String>,
    pub only_own: bool,
    pub command: Vec<String>,
    pub timeout: Option<String>,
}

/// What a `HookFile` says.
#[verifier::ext_equal]
pub struct HookView {
    pub on: Seq<Seq<char>>,
    pub only_own: bool,
    pub command: Seq<Seq<char>>,
    pub timeout: Option<Seq<char>>,
}

impl HookFile {
    /// What it says.
    pub open spec fn view(&self) -> HookView {
        HookView {
            on: text::texts(self.on@),
            only_own: self.only_own,
            command: text::texts(self.command@),
            timeout: text::opt_text(self.timeout),
        }
    }
}

/// The hooks, as they say.
pub open spec fn hook_views(v: Seq<HookFile>) -> Seq<HookView> {
    Seq::new(v.len(), |i: int| v[i]@)
}

/// The file.
#[derive(Debug)]
pub struct ManifestFile {
    pub id: String,
    pub name: Option<String>,
    pub version: String,
    pub min_pastor_version: Option<String>,
    pub description: Option<String>,
    pub connector: Option<ConnectorFile>,
    /// In the order of their names.
    pub secrets: Vec<SecretDecl>,
    pub events: Vec<HookFile>,
}

/// What a `ManifestFile` says.
#[verifier::ext_equal]
pub struct FileView {
    pub id: Seq<char>,
    pub name: Option<Seq<char>>,
    pub version: Seq<char>,
    pub min_pastor_version: Option<Seq<char>>,
    pub description: Option<Seq<char>>,
    pub connector: Option<ConnectorView>,
    pub secrets: Seq<SecretView>,
    pub events: Seq<HookView>,
}

impl FileView {
    /// The config keys and the secrets come in strict order of their names.
    pub open spec fn in_order(self) -> bool {
        &&& text::ascending(secret_names(self.secrets))
        &&& self.connector matches Some(c) ==> text::ascending(config_names(c.config))
    }
}

impl ManifestFile {
    /// What it says.
    pub open spec fn view(&self) -> FileView {
        FileView {
            id: self.id@,
            name: text::opt_text(self.name),
            version: self.version@,
            min_pastor_version: text::opt_text(self.min_pastor_version),
            description: text::opt_text(self.description),
            connector: match self.connector {
                Some(c) => Some(c@),
                None => None,
            },
            secrets: secret_views(self.secrets@),
            events: hook_views(self.events@),
        }
    }
}

// ---------------------------------------------------------------------------
// Which fields a table may have

/// A kind of table in the file.
#[derive(Debug, Clone, Copy, PartialEq, Eq, Structural)]
pub enum Part {
    Manifest,
    Connector,
    Hook,
    Config,
    Secret,
}

impl Part {
    /// The table may have this field.
    pub open spec fn knows(self, key: Seq<char>) -> bool {
        match self {
            Part::Manifest => key == "id"@ || key == "name"@ || key == "version"@ || key
                == "min_pastor_version"@ || key == "description"@ || key == "connector"@ || key
                == "secrets"@ || key == "events"@,
            Part::Connector => key == "mode"@ || key == "command"@ || key == "timeout"@ || key
                == "config"@,
            Part::Hook => key == "on"@ || key == "only_own"@ || key == "command"@ || key
                == "timeout"@,
            Part::Config => key == "required"@ || key == "description"@,
            Part::Secret => key == "description"@,
        }
    }

    fn has(self, key: &str) -> (b: bool)
        ensures
            b == self.knows(key@),
    {
        match self {
            Part::Manifest => text::same_text(key, "id") || text::same_text(key, "name")
                || text::same_text(key, "version") || text::same_text(key, "min_pastor_version")
                || text::same_text(key, "description") || text::same_text(key, "connector")
                || text::same_text(key, "secrets") || text::same_text(key, "events"),
            Part::Connector => text::same_text(key, "mode") || text::same_text(key, "command")
                || text::same_text(key, "timeout") || text::same_text(key, "config"),
            Part::Hook => text::same_text(key, "on") || text::same_text(key, "only_own")
                || text::same_text(key, "command") || text::same_text(key, "timeout"),
            Part::Config => text::same_text(key, "required") || text::same_text(key, "description"),
            Part::Secret => text::same_text(key, "description"),
        }
    }
}

/// The first field that the table may not have.
pub open spec fn first_unknown(part: Part, es: Seq<(Seq<char>, Toml)>) -> Option<Seq<char>>
    decreases es.len(),
{
    if es.len() == 0 {
        None
    } else {
        match first_unknown(part, es.drop_last()) {
            Some(k) => Some(k),
            None => if part.knows(es.last().0) {
                None
            } else {
                Some(es.last().0)
            },
        }
    }
}

proof fn lemma_first_unknown_stays(part: Part, es: Seq<(Seq<char>, Toml)>, n: int)
    requires
        0 <= n <= es.len(),
        first_unknown(part, es.take(n)) is Some,
    ensures
        first_unknown(part, es) == first_unknown(part, es.take(n)),
    decreases es.len() - n,
{
    if n == es.len() {
        assert(es.take(n) =~= es);
    } else {
        assert(es.take(n + 1).drop_last() =~= es.take(n));
        lemma_first_unknown_stays(part, es, n + 1);
    }
}

/// The fields of a table of its kind, or what is wrong with it.
pub open spec fn fields_of(part: Part, at: Seq<char>, t: Toml) -> Result<
    Seq<(Seq<char>, Toml)>,
    Seq<char>,
> {
    match t {
        Toml::Table(es) => match first_unknown(part, es) {
            Some(k) => Err(document::unknown(at, k)),
            None => Ok(es),
        },
        _ => Err(document::located(at, "must be a table"@)),
    }
}

fn fields<'a>(part: Part, at: &str, v: &'a toml::Value) -> (r: Result<Fields<'a>, String>)
    ensures
        match (r, fields_of(part, at@, document::toml_value(*v))) {
            (Ok(f), Ok(es)) => f@ == es,
            (Err(e), Err(m)) => e@ == m,
            _ => false,
        },
{
    let list = match document::open(v) {
        Node::Table(list) => list,
        _ => {
            return Err(say_no_table(at));
        },
    };
    let f = Fields { list };
    let mut i: usize = 0;
    while i < f.list.len()
        invariant
            i <= f.list@.len(),
            document::toml_value(*v) == Toml::Table(f@),
            first_unknown(part, f@.take(i as int)) is None,
        decreases f.list@.len() - i,
    {
        proof {
            assert(f@.take(i + 1).drop_last() =~= f@.take(i as int));
            assert(f@.take(i + 1).last() == f@[i as int]);
        }
        if !part.has(f.list[i].0.as_str()) {
            proof {
                lemma_first_unknown_stays(part, f@, i + 1);
            }
            return Err(document::say_unknown(at, f.list[i].0.as_str()));
        }
        i = i + 1;
    }
    assert(f@.take(i as int) =~= f@);
    Ok(f)
}

fn say_no_table(at: &str) -> (r: String)
    ensures
        r@ == document::located(at@, "must be a table"@),
{
    if at.unicode_len() == 0 {
        "must be a table".to_owned()
    } else {
        let mut s = at.to_owned();
        s.append(": ");
        s.append("must be a table");
        s
    }
}

// ---------------------------------------------------------------------------
// The tables

/// Where an entry of a table stands.
pub open spec fn under(at: Seq<char>, key: Seq<char>) -> Seq<char> {
    at + "."@ + key
}

/// A declaration of a config key.
pub open spec fn config_of(at: Seq<char>, key: Seq<char>, t: Toml) -> Result<ConfigView, Seq<char>> {
    match fields_of(Part::Config, under(at, key), t) {
        Err(e) => Err(e),
        Ok(es) => match (
            document::flag_at(es, under(at, key), "required"@),
            document::text_at(es, under(at, key), "description"@),
        ) {
            (Err(e), _) => Err(e),
            (_, Err(e)) => Err(e),
            (Ok(required), Ok(description)) => Ok(ConfigView { name: key, required, description }),
        },
    }
}

/// The declarations of a connector's config keys.
pub open spec fn configs_of(at: Seq<char>, es: Seq<(Seq<char>, Toml)>) -> Result<
    Seq<ConfigView>,
    Seq<char>,
>
    decreases es.len(),
{
    if es.len() == 0 {
        Ok(seq![])
    } else {
        match configs_of(at, es.drop_last()) {
            Err(e) => Err(e),
            Ok(first) => match config_of(at, es.last().0, es.last().1) {
                Err(e) => Err(e),
                Ok(c) => Ok(first.push(c)),
            },
        }
    }
}

/// A declaration of a secret.
pub open spec fn secret_of(at: Seq<char>, key: Seq<char>, t: Toml) -> Result<SecretView, Seq<char>> {
    match fields_of(Part::Secret, under(at, key), t) {
        Err(e) => Err(e),
        Ok(es) => match document::text_at(es, under(at, key), "description"@) {
            Err(e) => Err(e),
            Ok(description) => Ok(SecretView { name: key, description }),
        },
    }
}

/// The declarations of secrets.
pub open spec fn secrets_of(at: Seq<char>, es: Seq<(Seq<char>, Toml)>) -> Result<
    Seq<SecretView>,
    Seq<char>,
>
    decreases es.len(),
{
    if es.len() == 0 {
        Ok(seq![])
    } else {
        match secrets_of(at, es.drop_last()) {
            Err(e) => Err(e),
            Ok(first) => match secret_of(at, es.last().0, es.last().1) {
                Err(e) => Err(e),
                Ok(s) => Ok(first.push(s)),
            },
        }
    }
}

/// The mode under `mode`; `poll` if it is not there.
pub open spec fn mode_of(es: Seq<(Seq<char>, Toml)>) -> Result<Mode, Seq<char>> {
    match document::text_at(es, "connector"@, "mode"@) {
        Err(e) => Err(e),
        Ok(None) => Ok(Mode::Poll),
        Ok(Some(m)) => if m == "poll"@ {
            Ok(Mode::Poll)
        } else if m == "stream"@ {
            Ok(Mode::Stream)
        } else {
            Err("connector.mode: unknown mode `"@ + m + "`, expected `poll` or `stream`"@)
        },
    }
}

/// A table of tables under a key: its entries, or none if it is not there.
pub open spec fn tables_under(
    es: Seq<(Seq<char>, Toml)>,
    at: Seq<char>,
    name: Seq<char>,
) -> Result<Seq<(Seq<char>, Toml)>, Seq<char>> {
    match document::field(es, name) {
        None => Ok(seq![]),
        Some(Toml::Table(inner)) => Ok(inner),
        Some(_) => Err(document::wrong_kind(at, name, "a table"@)),
    }
}

/// `[connector]`.
pub open spec fn connector_of(t: Toml) -> Result<ConnectorView, Seq<char>> {
    match fields_of(Part::Connector, "connector"@, t) {
        Err(e) => Err(e),
        Ok(es) => match mode_of(es) {
            Err(e) => Err(e),
            Ok(mode) => match document::need_texts(es, "connector"@, "command"@) {
                Err(e) => Err(e),
                Ok(command) => match document::text_at(es, "connector"@, "timeout"@) {
                    Err(e) => Err(e),
                    Ok(timeout) => match tables_under(es, "connector"@, "config"@) {
                        Err(e) => Err(e),
                        Ok(inner) => match configs_of("connector.config"@, inner) {
                            Err(e) => Err(e),
                            Ok(config) => Ok(ConnectorView { mode, command, timeout, config }),
                        },
                    },
                },
            },
        },
    }
}

/// Where a hook stands.
pub open spec fn hook_at(i: nat) -> Seq<char> {
    "events["@ + digits::decimal(i) + "]"@
}

/// One of `[[events]]`.
pub open spec fn hook_of(i: nat, t: Toml) -> Result<HookView, Seq<char>> {
    match fields_of(Part::Hook, hook_at(i), t) {
        Err(e) => Err(e),
        Ok(es) => match document::need_texts(es, hook_at(i), "on"@) {
            Err(e) => Err(e),
            Ok(on) => match document::flag_at(es, hook_at(i), "only_own"@) {
                Err(e) => Err(e),
                Ok(only_own) => match document::need_texts(es, hook_at(i), "command"@) {
                    Err(e) => Err(e),
                    Ok(command) => match document::text_at(es, hook_at(i), "timeout"@) {
                        Err(e) => Err(e),
                        Ok(timeout) => Ok(HookView { on, only_own, command, timeout }),
                    },
                },
            },
        },
    }
}

/// `[[events]]`.
pub open spec fn hooks_of(l: Seq<Toml>) -> Result<Seq<HookView>, Seq<char>>
    decreases l.len(),
{
    if l.len() == 0 {
        Ok(seq![])
    } else {
        match hooks_of(l.drop_last()) {
            Err(e) => Err(e),
            Ok(first) => match hook_of((l.len() - 1) as nat, l.last()) {
                Err(e) => Err(e),
                Ok(h) => Ok(first.push(h)),
            },
        }
    }
}

/// The list under `events`; none if it is not there.
pub open spec fn events_under(es: Seq<(Seq<char>, Toml)>) -> Result<Seq<Toml>, Seq<char>> {
    match document::field(es, "events"@) {
        None => Ok(seq![]),
        Some(Toml::List(l)) => Ok(l),
        Some(_) => Err(document::wrong_kind(""@, "events"@, "a list of tables"@)),
    }
}

/// What `[connector]` says, if it is there.
pub open spec fn connector_under(es: Seq<(Seq<char>, Toml)>) -> Result<
    Option<ConnectorView>,
    Seq<char>,
> {
    match document::field(es, "connector"@) {
        None => Ok(None),
        Some(t) => match connector_of(t) {
            Err(e) => Err(e),
            Ok(c) => Ok(Some(c)),
        },
    }
}

/// What the file says, or the first thing wrong with its shape.
pub open spec fn file_of(t: Toml) -> Result<FileView, Seq<char>> {
    match fields_of(Part::Manifest, ""@, t) {
        Err(e) => Err(e),
        Ok(es) => match document::need_text(es, ""@, "id"@) {
            Err(e) => Err(e),
            Ok(id) => match document::text_at(es, ""@, "name"@) {
                Err(e) => Err(e),
                Ok(name) => match document::need_text(es, ""@, "version"@) {
                    Err(e) => Err(e),
                    Ok(version) => match document::text_at(es, ""@, "min_pastor_version"@) {
                        Err(e) => Err(e),
                        Ok(min_pastor_version) => match document::text_at(
                            es,
                            ""@,
                            "description"@,
                        ) {
                            Err(e) => Err(e),
                            Ok(description) => match connector_under(es) {
                                Err(e) => Err(e),
                                Ok(connector) => match tables_under(es, ""@, "secrets"@) {
                                    Err(e) => Err(e),
                                    Ok(inner) => match secrets_of("secrets"@, inner) {
                                        Err(e) => Err(e),
                                        Ok(secrets) => match events_under(es) {
                                            Err(e) => Err(e),
                                            Ok(l) => match hooks_of(l) {
                                                Err(e) => Err(e),
                                                Ok(events) => Ok(
                                                    FileView {
                                                        id,
                                                        name,
                                                        version,
                                                        min_pastor_version,
                                                        description,
                                                        connector,
                                                        secrets,
                                                        events,
                                                    },
                                                ),
                                            },
                                        },
                                    },
                                },
                            },
                        },
                    },
                },
            },
        },
    }
}

// ---------------------------------------------------------------------------
// Reading them

fn join_under(at: &str, key: &str) -> (r: String)
    ensures
        r@ == under(at@, key@),
{
    let mut s = at.to_owned();
    s.append(".");
    s.append(key);
    s
}

fn read_config(at: &str, key: &String, v: &toml::Value) -> (r: Result<ConfigDecl, String>)
    ensures
        match (r, config_of(at@, key@, document::toml_value(*v))) {
            (Ok(c), Ok(w)) => c@ == w,
            (Err(e), Err(m)) => e@ == m,
            _ => false,
        },
{
    let place = join_under(at, key.as_str());
    let f = fields(Part::Config, place.as_str(), v)?;
    let required = f.flag(place.as_str(), "required")?;
    let description = f.text(place.as_str(), "description")?;
    Ok(ConfigDecl { name: key.clone(), required, description })
}

fn read_configs<'a>(at: &str, f: &Fields<'a>) -> (r: Result<Vec<ConfigDecl>, String>)
    ensures
        match (r, configs_of(at@, f@)) {
            (Ok(c), Ok(w)) => config_views(c@) == w,
            (Err(e), Err(m)) => e@ == m,
            _ => false,
        },
{
    let mut out: Vec<ConfigDecl> = Vec::new();
    let mut i: usize = 0;
    assert(config_views(out@) =~= seq![]);
    while i < f.list.len()
        invariant
            i <= f.list@.len(),
            configs_of(at@, f@.take(i as int)) == Ok::<Seq<ConfigView>, Seq<char>>(
                config_views(out@),
            ),
        decreases f.list@.len() - i,
    {
        proof {
            assert(f@.take(i + 1).drop_last() =~= f@.take(i as int));
            assert(f@.take(i + 1).last() == f@[i as int]);
        }
        match read_config(at, f.list[i].0, f.list[i].1) {
            Ok(c) => {
                let ghost before = out@;
                out.push(c);
                assert(config_views(out@) =~= config_views(before).push(c@));
            },
            Err(e) => {
                proof {
                    lemma_configs_fail(at@, f@, i + 1);
                }
                return Err(e);
            },
        }
        i = i + 1;
    }
    assert(f@.take(i as int) =~= f@);
    Ok(out)
}

proof fn lemma_configs_fail(at: Seq<char>, es: Seq<(Seq<char>, Toml)>, n: int)
    requires
        0 <= n <= es.len(),
        configs_of(at, es.take(n)) is Err,
    ensures
        configs_of(at, es) == configs_of(at, es.take(n)),
    decreases es.len() - n,
{
    if n == es.len() {
        assert(es.take(n) =~= es);
    } else {
        assert(es.take(n + 1).drop_last() =~= es.take(n));
        lemma_configs_fail(at, es, n + 1);
    }
}

/// The declarations have the names of the entries.
proof fn lemma_configs_keep_names(at: Seq<char>, es: Seq<(Seq<char>, Toml)>)
    requires
        document::keys_in_order(es),
    ensures
        configs_of(at, es) matches Ok(v) ==> v.len() == es.len() && (forall|i: int|
            0 <= i < v.len() ==> (#[trigger] v[i]).name == es[i].0) && text::ascending(
            config_names(v),
        ),
    decreases es.len(),
{
    if es.len() > 0 {
        lemma_configs_keep_names(at, es.drop_last());
        if let Ok(v) = configs_of(at, es) {
            assert forall|i: int| 0 <= i < v.len() implies (#[trigger] v[i]).name == es[i].0 by {
                if i < es.len() - 1 {
                    assert(es.drop_last()[i] == es[i]);
                }
            }
        }
    }
}

fn read_secret(at: &str, key: &String, v: &toml::Value) -> (r: Result<SecretDecl, String>)
    ensures
        match (r, secret_of(at@, key@, document::toml_value(*v))) {
            (Ok(c), Ok(w)) => c@ == w,
            (Err(e), Err(m)) => e@ == m,
            _ => false,
        },
{
    let place = join_under(at, key.as_str());
    let f = fields(Part::Secret, place.as_str(), v)?;
    let description = f.text(place.as_str(), "description")?;
    Ok(SecretDecl { name: key.clone(), description })
}

fn read_secrets<'a>(at: &str, f: &Fields<'a>) -> (r: Result<Vec<SecretDecl>, String>)
    ensures
        match (r, secrets_of(at@, f@)) {
            (Ok(c), Ok(w)) => secret_views(c@) == w,
            (Err(e), Err(m)) => e@ == m,
            _ => false,
        },
{
    let mut out: Vec<SecretDecl> = Vec::new();
    let mut i: usize = 0;
    assert(secret_views(out@) =~= seq![]);
    while i < f.list.len()
        invariant
            i <= f.list@.len(),
            secrets_of(at@, f@.take(i as int)) == Ok::<Seq<SecretView>, Seq<char>>(
                secret_views(out@),
            ),
        decreases f.list@.len() - i,
    {
        proof {
            assert(f@.take(i + 1).drop_last() =~= f@.take(i as int));
            assert(f@.take(i + 1).last() == f@[i as int]);
        }
        match read_secret(at, f.list[i].0, f.list[i].1) {
            Ok(c) => {
                let ghost before = out@;
                out.push(c);
                assert(secret_views(out@) =~= secret_views(before).push(c@));
            },
            Err(e) => {
                proof {
                    lemma_secrets_fail(at@, f@, i + 1);
                }
                return Err(e);
            },
        }
        i = i + 1;
    }
    assert(f@.take(i as int) =~= f@);
    Ok(out)
}

proof fn lemma_secrets_fail(at: Seq<char>, es: Seq<(Seq<char>, Toml)>, n: int)
    requires
        0 <= n <= es.len(),
        secrets_of(at, es.take(n)) is Err,
    ensures
        secrets_of(at, es) == secrets_of(at, es.take(n)),
    decreases es.len() - n,
{
    if n == es.len() {
        assert(es.take(n) =~= es);
    } else {
        assert(es.take(n + 1).drop_last() =~= es.take(n));
        lemma_secrets_fail(at, es, n + 1);
    }
}

/// The declarations have the names of the entries.
proof fn lemma_secrets_keep_names(at: Seq<char>, es: Seq<(Seq<char>, Toml)>)
    requires
        document::keys_in_order(es),
    ensures
        secrets_of(at, es) matches Ok(v) ==> v.len() == es.len() && (forall|i: int|
            0 <= i < v.len() ==> (#[trigger] v[i]).name == es[i].0) && text::ascending(
            secret_names(v),
        ),
    decreases es.len(),
{
    if es.len() > 0 {
        lemma_secrets_keep_names(at, es.drop_last());
        if let Ok(v) = secrets_of(at, es) {
            assert forall|i: int| 0 <= i < v.len() implies (#[trigger] v[i]).name == es[i].0 by {
                if i < es.len() - 1 {
                    assert(es.drop_last()[i] == es[i]);
                }
            }
        }
    }
}

fn read_mode<'a>(f: &Fields<'a>) -> (r: Result<Mode, String>)
    ensures
        match (r, mode_of(f@)) {
            (Ok(c), Ok(w)) => c == w,
            (Err(e), Err(m)) => e@ == m,
            _ => false,
        },
{
    match f.text("connector", "mode") {
        Err(e) => Err(e),
        Ok(None) => Ok(Mode::Poll),
        Ok(Some(m)) => if text::same_text(m.as_str(), "poll") {
            Ok(Mode::Poll)
        } else if text::same_text(m.as_str(), "stream") {
            Ok(Mode::Stream)
        } else {
            let mut s = "connector.mode: unknown mode `".to_owned();
            s.append(m.as_str());
            s.append("`, expected `poll` or `stream`");
            Err(s)
        },
    }
}

fn inner_tables<'a>(f: &Fields<'a>, at: &str, name: &str) -> (r: Result<Fields<'a>, String>)
    ensures
        match (r, tables_under(f@, at@, name@)) {
            (Ok(g), Ok(es)) => g@ == es && document::keys_in_order(es),
            (Err(e), Err(m)) => e@ == m,
            _ => false,
        },
{
    match f.find(name) {
        None => {
            let g = Fields { list: Vec::new() };
            assert(g@ =~= seq![]);
            Ok(g)
        },
        Some(v) => match document::open(v) {
            Node::Table(list) => Ok(Fields { list }),
            _ => Err(document::say_wrong_kind(at, name, "a table")),
        },
    }
}

fn read_connector(v: &toml::Value) -> (r: Result<ConnectorFile, String>)
    ensures
        match (r, connector_of(document::toml_value(*v))) {
            (Ok(c), Ok(w)) => c@ == w && text::ascending(config_names(w.config)),
            (Err(e), Err(m)) => e@ == m,
            _ => false,
        },
{
    let f = fields(Part::Connector, "connector", v)?;
    let mode = read_mode(&f)?;
    let command = f.needed_texts("connector", "command")?;
    let timeout = f.text("connector", "timeout")?;
    let inner = inner_tables(&f, "connector", "config")?;
    let config = read_configs("connector.config", &inner)?;
    proof {
        lemma_configs_keep_names("connector.config"@, inner@);
    }
    Ok(ConnectorFile { mode, command, timeout, config })
}

pub(crate) fn place_of_hook(i: usize) -> (r: String)
    ensures
        r@ == hook_at(i as nat),
{
    let mut s = "events[".to_owned();
    s.append(digits::print_number(i as u64).as_str());
    s.append("]");
    s
}

fn read_hook(i: usize, v: &toml::Value) -> (r: Result<HookFile, String>)
    ensures
        match (r, hook_of(i as nat, document::toml_value(*v))) {
            (Ok(c), Ok(w)) => c@ == w,
            (Err(e), Err(m)) => e@ == m,
            _ => false,
        },
{
    let place = place_of_hook(i);
    let f = fields(Part::Hook, place.as_str(), v)?;
    let on = f.needed_texts(place.as_str(), "on")?;
    let only_own = f.flag(place.as_str(), "only_own")?;
    let command = f.needed_texts(place.as_str(), "command")?;
    let timeout = f.text(place.as_str(), "timeout")?;
    Ok(HookFile { on, only_own, command, timeout })
}

fn read_hooks(l: &Vec<&toml::Value>) -> (r: Result<Vec<HookFile>, String>)
    ensures
        match (r, hooks_of(document::members(l@))) {
            (Ok(c), Ok(w)) => hook_views(c@) == w,
            (Err(e), Err(m)) => e@ == m,
            _ => false,
        },
{
    let mut out: Vec<HookFile> = Vec::new();
    let mut i: usize = 0;
    let ghost all = document::members(l@);
    assert(hook_views(out@) =~= seq![]);
    while i < l.len()
        invariant
            i <= l@.len(),
            all == document::members(l@),
            hooks_of(all.take(i as int)) == Ok::<Seq<HookView>, Seq<char>>(hook_views(out@)),
        decreases l@.len() - i,
    {
        proof {
            assert(all.take(i + 1).drop_last() =~= all.take(i as int));
            assert(all.take(i + 1).last() == all[i as int]);
        }
        match read_hook(i, l[i]) {
            Ok(c) => {
                let ghost before = out@;
                out.push(c);
                assert(hook_views(out@) =~= hook_views(before).push(c@));
            },
            Err(e) => {
                proof {
                    lemma_hooks_fail(all, i + 1);
                }
                return Err(e);
            },
        }
        i = i + 1;
    }
    assert(all.take(i as int) =~= all);
    Ok(out)
}

proof fn lemma_hooks_fail(l: Seq<Toml>, n: int)
    requires
        0 <= n <= l.len(),
        hooks_of(l.take(n)) is Err,
    ensures
        hooks_of(l) == hooks_of(l.take(n)),
    decreases l.len() - n,
{
    if n == l.len() {
        assert(l.take(n) =~= l);
    } else {
        assert(l.take(n + 1).drop_last() =~= l.take(n));
        lemma_hooks_fail(l, n + 1);
    }
}

/// Read the file's fields from a TOML document.
pub(crate) fn read_file(v: &toml::Value) -> (r: Result<ManifestFile, String>)
    ensures
        match (r, file_of(document::toml_value(*v))) {
            (Ok(c), Ok(w)) => c@ == w && w.in_order(),
            (Err(e), Err(m)) => e@ == m,
            _ => false,
        },
{
    let f = fields(Part::Manifest, "", v)?;
    let id = f.needed_text("", "id")?;
    let name = f.text("", "name")?;
    let version = f.needed_text("", "version")?;
    let min_pastor_version = f.text("", "min_pastor_version")?;
    let description = f.text("", "description")?;
    let connector = match f.find("connector") {
        None => None,
        Some(c) => Some(read_connector(c)?),
    };
    let inner = inner_tables(&f, "", "secrets")?;
    let secrets = read_secrets("secrets", &inner)?;
    proof {
        lemma_secrets_keep_names("secrets"@, inner@);
    }
    let events = match f.find("events") {
        None => {
            let none: Vec<HookFile> = Vec::new();
            assert(hook_views(none@) =~= seq![]);
            none
        },
        Some(e) => match document::open(e) {
            Node::List(l) => read_hooks(&l)?,
            _ => {
                return Err(document::say_wrong_kind("", "events", "a list of tables"));
            },
        },
    };
    Ok(
        ManifestFile {
            id,
            name,
            version,
            min_pastor_version,
            description,
            connector,
            secrets,
            events,
        },
    )
}

} // verus!
