//! `pastor plugin ...`: what is shown of plugins, and running one by hand.

use vstd::prelude::*;
use vstd::string::*;

use crate::digits;
use crate::plugin::catalog;
use crate::plugin::catalog::Discovered;
use crate::plugin::catalog::PluginCatalog;
use crate::plugin::file;
use crate::plugin::file::Mode;
use crate::plugin::manifest;
use crate::plugin::manifest::Hook;
use crate::plugin::manifest::Manifest;
use crate::scheduler::jobs::Loaded;
use crate::scheduler::run::RunInput;
use crate::scheduler::run::RunOutput;
use crate::text;
use crate::time;
use crate::time::Duration;
use crate::time::Timestamp;

verus! {

// ---------------------------------------------------------------------------
// What a plugin will run

/// What is said of the hooks.
pub open spec fn hooks_text(hooks: Seq<manifest::HookSpecView>) -> Seq<char>
    decreases hooks.len(),
{
    if hooks.len() == 0 {
        seq![]
    } else {
        hooks_text(hooks.drop_last()) + "  hook on "@ + text::joined(hooks.last().on, ", "@) + ": "@
            + text::joined(hooks.last().command, " "@) + "\n"@
    }
}

/// The names of the secrets.
pub open spec fn secret_names(secrets: Seq<file::SecretView>) -> Seq<Seq<char>> {
    Seq::new(secrets.len(), |i: int| secrets[i].name)
}

/// What the plugin will run.
pub open spec fn described(m: manifest::ManifestView) -> Seq<char> {
    m.id + " "@ + m.version.text() + " ("@ + m.name + ")\n"@ + (match m.description {
        Some(d) => "  "@ + d + "\n"@,
        None => ""@,
    }) + (match m.connector {
        Some(c) => "  connector ("@ + c.mode.text() + "): "@ + text::joined(c.command, " "@) + "\n"@,
        None => ""@,
    }) + hooks_text(m.events) + (if m.secrets.len() == 0 {
        ""@
    } else {
        "  secrets: "@ + text::joined(secret_names(m.secrets), ", "@) + "\n"@
    })
}

fn describe_hooks(hooks: &Vec<Hook>) -> (r: String)
    ensures
        r@ == hooks_text(manifest::hook_spec_views(hooks@)),
{
    let ghost all = manifest::hook_spec_views(hooks@);
    let mut out = String::new();
    let mut i: usize = 0;
    assert(out@ =~= hooks_text(all.take(0)));
    while i < hooks.len()
        invariant
            i <= hooks@.len(),
            all == manifest::hook_spec_views(hooks@),
            out@ == hooks_text(all.take(i as int)),
        decreases hooks@.len() - i,
    {
        proof {
            assert(all.take(i + 1).drop_last() =~= all.take(i as int));
            assert(all.take(i + 1).last() == all[i as int]);
        }
        out.append("  hook on ");
        out.append(text::join(&hooks[i].on, ", ").as_str());
        out.append(": ");
        out.append(text::join(&hooks[i].command, " ").as_str());
        out.append("\n");
        i = i + 1;
    }
    assert(all.take(i as int) =~= all);
    out
}

/// What the plugin will run, shown before install asks.
pub fn describe(m: &Manifest) -> (r: String)
    ensures
        r@ == described(m@),
{
    let mut out = m.id.clone();
    out.append(" ");
    out.append(m.version.print().as_str());
    out.append(" (");
    out.append(m.name.as_str());
    out.append(")\n");
    let ghost mut said = out@;
    if let Some(d) = &m.description {
        out.append("  ");
        out.append(d.as_str());
        out.append("\n");
    }
    proof {
        reveal_strlit("");
        let part = match m@.description {
            Some(d) => "  "@ + d + "\n"@,
            None => ""@,
        };
        assert(out@ =~= said + part);
        said = out@;
    }
    if let Some(c) = &m.connector {
        out.append("  connector (");
        out.append(c.mode.name());
        out.append("): ");
        out.append(text::join(&c.command, " ").as_str());
        out.append("\n");
    }
    proof {
        let part = match m@.connector {
            Some(c) => "  connector ("@ + c.mode.text() + "): "@ + text::joined(c.command, " "@)
                + "\n"@,
            None => ""@,
        };
        assert(out@ =~= said + part);
    }
    out.append(describe_hooks(&m.events).as_str());
    proof {
        said = out@;
        assert(m@.secrets.len() == m.secrets@.len());
    }
    if m.secrets.len() > 0 {
        let mut names: Vec<String> = Vec::new();
        let mut i: usize = 0;
        while i < m.secrets.len()
            invariant
                i <= m.secrets@.len(),
                names@.len() == i,
                forall|k: int| 0 <= k < i ==> (#[trigger] names@[k])@ == m.secrets@[k].name@,
            decreases m.secrets@.len() - i,
        {
            names.push(m.secrets[i].name.clone());
            i = i + 1;
        }
        assert(text::texts(names@) =~= secret_names(m@.secrets));
        out.append("  secrets: ");
        out.append(text::join(&names, ", ").as_str());
        out.append("\n");
    }
    proof {
        let part = if m@.secrets.len() == 0 {
            ""@
        } else {
            "  secrets: "@ + text::joined(secret_names(m@.secrets), ", "@) + "\n"@
        };
        assert(out@ =~= said + part);
    }
    out
}

// ---------------------------------------------------------------------------
// The list of plugins

/// One plugin, as `plugin list` shows it.
#[derive(Debug)]
pub struct PluginRow {
    pub id: String,
    pub version: Option<String>,
    /// `poll`, `stream`, or none.
    pub connector: Option<String>,
    pub hooks: usize,
    pub linked: bool,
    pub dir: String,
    pub missing_secrets: Vec<String>,
    /// Why the plugin is unusable: a bad manifest, or an unreadable `.env`.
    pub error: Option<String>,
}

/// What is shown of a plugin whose `.env` was read, or could not be.
pub open spec fn row_is(r: PluginRow, d: Discovered, env: Result<Vec<(String, String)>, String>) -> bool {
    match d {
        Discovered::Valid(p) => {
            &&& r.id == p.id
            &&& text::opt_text(r.version) == Some(p.manifest.version.text())
            &&& text::opt_text(r.connector) == match p.manifest.connector {
                Some(c) => Some(c.mode.text()),
                None => None,
            }
            &&& r.hooks == p.manifest.events@.len()
            &&& r.linked == p.linked
            &&& r.dir == p.dir
            &&& match env {
                Ok(e) => text::texts(r.missing_secrets@) == catalog::unset(
                    p.manifest.secrets@,
                    e@,
                ) && r.error is None,
                Err(why) => r.missing_secrets@.len() == 0 && r.error == Some(why),
            }
        },
        Discovered::Invalid { id, dir, linked, error } => {
            &&& r.id == id
            &&& r.version is None
            &&& r.connector is None
            &&& r.hooks == 0
            &&& r.linked == linked
            &&& r.dir == dir
            &&& r.missing_secrets@.len() == 0
            &&& r.error == Some(error)
        },
    }
}

/// What is shown of a plugin whose `.env` was read, or could not be.
pub fn list_row(d: Discovered, env: Result<Vec<(String, String)>, String>) -> (r: PluginRow)
    requires
        d.in_order(),
    ensures
        row_is(r, d, env),
{
    match d {
        Discovered::Valid(p) => {
            let (missing_secrets, error) = match env {
                Ok(e) => (p.missing_secrets(&e), None),
                Err(why) => (Vec::new(), Some(why)),
            };
            let version = Some(p.manifest.version.print());
            let connector = match &p.manifest.connector {
                Some(c) => Some(c.mode.name().to_owned()),
                None => None,
            };
            PluginRow {
                id: p.id,
                version,
                connector,
                hooks: p.manifest.events.len(),
                linked: p.linked,
                dir: p.dir,
                missing_secrets,
                error,
            }
        },
        Discovered::Invalid { id, dir, linked, error } => PluginRow {
            id,
            version: None,
            connector: None,
            hooks: 0,
            linked,
            dir,
            missing_secrets: Vec::new(),
            error: Some(error),
        },
    }
}

/// What is shown of the plugins that were found, each with what reading its `.env`
/// came to.
pub fn list_rows(found: Vec<(Discovered, Result<Vec<(String, String)>, String>)>) -> (r: Vec<PluginRow>)
    requires
        forall|i: int| 0 <= i < found@.len() ==> (#[trigger] found@[i]).0.in_order(),
    ensures
        r@.len() == found@.len(),
        forall|i: int| 0 <= i < r@.len() ==> row_is(#[trigger] r@[i], found@[i].0, found@[i].1),
{
    let ghost all = found@;
    let mut rest = found;
    let mut out: Vec<PluginRow> = Vec::new();
    assert(rest@ =~= all.skip(0));
    while rest.len() > 0
        invariant
            all == found@,
            forall|i: int| 0 <= i < all.len() ==> (#[trigger] all[i]).0.in_order(),
            out@.len() + rest@.len() == all.len(),
            rest@ == all.skip(out@.len() as int),
            forall|i: int| 0 <= i < out@.len() ==> row_is(#[trigger] out@[i], all[i].0, all[i].1),
        decreases rest@.len(),
    {
        let ghost n = out@.len() as int;
        let (d, env) = rest.remove(0);
        assert((d, env) == all[n]);
        assert(rest@ =~= all.skip(n + 1));
        out.push(list_row(d, env));
    }
    out
}

/// How usable the plugin is.
pub open spec fn row_status(r: PluginRow) -> Seq<char> {
    match r.error {
        Some(e) => "invalid: "@ + e@,
        None => if r.missing_secrets@.len() == 0 {
            "ok"@
        } else {
            "missing secrets: "@ + text::joined(text::texts(r.missing_secrets@), ", "@)
        },
    }
}

/// The text, or a dash if there is none.
pub open spec fn or_dash(o: Option<String>) -> Seq<char> {
    match o {
        Some(s) => s@,
        None => "-"@,
    }
}

/// The cells of a row.
pub open spec fn row_cells(r: PluginRow) -> Seq<Seq<char>> {
    seq![
        r.id@,
        or_dash(r.version),
        or_dash(r.connector),
        digits::decimal(r.hooks as nat),
        if r.linked {
            "linked"@
        } else {
            "installed"@
        },
        row_status(r),
    ]
}

fn dashed(o: &Option<String>) -> (r: String)
    ensures
        r@ == or_dash(*o),
{
    match o {
        Some(s) => s.clone(),
        None => "-".to_owned(),
    }
}

fn status(r: &PluginRow) -> (s: String)
    ensures
        s@ == row_status(*r),
{
    match &r.error {
        Some(e) => {
            let mut s = "invalid: ".to_owned();
            s.append(e.as_str());
            s
        },
        None => if r.missing_secrets.len() == 0 {
            "ok".to_owned()
        } else {
            let mut s = "missing secrets: ".to_owned();
            s.append(text::join(&r.missing_secrets, ", ").as_str());
            s
        },
    }
}

/// The cells of the table, under `ID`, `VERSION`, `CONNECTOR`, `HOOKS`, `SOURCE` and
/// `STATUS`.
pub fn table(rows: &Vec<PluginRow>) -> (r: Vec<Vec<String>>)
    ensures
        r@.len() == rows@.len(),
        forall|i: int| 0 <= i < r@.len() ==> text::texts((#[trigger] r@[i])@) == row_cells(rows@[i]),
{
    let mut out: Vec<Vec<String>> = Vec::new();
    let mut i: usize = 0;
    while i < rows.len()
        invariant
            i <= rows@.len(),
            out@.len() == i,
            forall|k: int|
                0 <= k < i ==> text::texts((#[trigger] out@[k])@) == row_cells(rows@[k]),
        decreases rows@.len() - i,
    {
        let r = &rows[i];
        let mut cells: Vec<String> = Vec::new();
        cells.push(r.id.clone());
        cells.push(dashed(&r.version));
        cells.push(dashed(&r.connector));
        cells.push(digits::print_number(r.hooks as u64));
        cells.push(
            if r.linked {
                "linked".to_owned()
            } else {
                "installed".to_owned()
            },
        );
        cells.push(status(r));
        assert(text::texts(cells@) =~= row_cells(rows@[i as int]));
        out.push(cells);
        i = i + 1;
    }
    out
}

// ---------------------------------------------------------------------------
// Telling the daemon

/// What came of asking a daemon to read its plugins again.
#[derive(Debug)]
pub enum Reloaded {
    NotRunning,
    /// One is there but does not answer.
    Unresponsive,
    Done,
    /// It answered with an error, or the question failed.
    Failed(String),
}

/// What to tell the user about the reload: nothing when no daemon runs, a
/// warning when one is there but did not answer or did not reload.
pub fn reload_note(r: &Reloaded) -> (s: Option<String>)
    ensures
        text::opt_text(s) == match *r {
            Reloaded::NotRunning => None,
            Reloaded::Unresponsive => Some(
                "pastor serve is not responding, so it did not reload; run `pastor reload` once it answers"@,
            ),
            Reloaded::Done => Some("pastor serve reloaded its plugins and jobs"@),
            Reloaded::Failed(e) => Some(
                "pastor serve did not reload ("@ + e@ + "); run `pastor reload`"@,
            ),
        },
{
    match r {
        Reloaded::NotRunning => None,
        Reloaded::Unresponsive => Some(
            "pastor serve is not responding, so it did not reload; run `pastor reload` once it answers".to_owned(),
        ),
        Reloaded::Done => Some("pastor serve reloaded its plugins and jobs".to_owned()),
        Reloaded::Failed(e) => {
            let mut s = "pastor serve did not reload (".to_owned();
            s.append(e.as_str());
            s.append("); run `pastor reload`");
            Some(s)
        },
    }
}

// ---------------------------------------------------------------------------
// Running a connector once

/// A connector that is to run once.
#[derive(Debug)]
pub struct RunOnce {
    pub input: RunInput,
    pub mode: Mode,
    pub timeout: Duration,
}

/// The plugin cannot be run: `why` is what the catalog says of it, if it says
/// anything.
pub open spec fn not_runnable(id: Seq<char>, why: Result<(), String>) -> Seq<char> {
    match why {
        Err(e) => e@,
        Ok(_) => text::debug_text(id) + " is built in, not a plugin"@,
    }
}

/// The config and the backfill of the job a run is for, or why it cannot be for it.
/// Without a job file the config is empty.
pub open spec fn job_config(id: Seq<char>, job_name: Seq<char>, job: Option<Loaded>) -> Result<
    (Seq<char>, Duration),
    Seq<char>,
> {
    match job {
        None => Ok(("{}"@, Duration { nanos: 0 })),
        Some(Loaded::Valid(j)) => if j.connector@ == id {
            Ok((j.connector_config@, j.backfill))
        } else {
            Err(
                "job "@ + text::debug_text(job_name) + " uses connector "@ + text::debug_text(
                    j.connector@,
                ) + ", not "@ + text::debug_text(id),
            )
        },
        Some(Loaded::Invalid { error, .. }) => Err(
            "job "@ + text::debug_text(job_name) + " is invalid: "@ + error@,
        ),
    }
}

/// How far back a run looks, or what is wrong with it.
pub open spec fn looks_back(since: Option<Seq<char>>, backfill: Duration) -> Result<int, Seq<char>> {
    let back = match since {
        Some(s) => match time::duration_secs(s) {
            Some(secs) => Ok((secs * time::NANOS_PER_SEC) as int),
            None => Err("--since: "@ + time::duration_error(s)),
        },
        None => Ok(backfill.nanos as int),
    };
    match back {
        Err(e) => Err(e),
        Ok(n) => if n <= time::MAX_DELTA_NANOS {
            Ok(n)
        } else {
            Err("--since: Source duration value is out of range for the target type"@)
        },
    }
}

/// What a run by hand comes to once its plugin and connector are there.
pub open spec fn run_is(
    r: Result<RunOnce, String>,
    c: manifest::ConnectorSpec,
    id: Seq<char>,
    job_name: Seq<char>,
    job: Option<Loaded>,
    since: Option<Seq<char>>,
    now: Timestamp,
) -> bool {
    match job_config(id, job_name, job) {
        Err(e) => r matches Err(m) && m@ == e,
        Ok((config, backfill)) => match looks_back(since, backfill) {
            Err(e) => r matches Err(m) && m@ == e,
            Ok(n) => r matches Ok(o) && o.input.config@ == config && o.input.cursor is None
                && o.input.now == now && o.input.since.nanos == now.nanos - n && o.mode == c.mode
                && o.timeout == c.timeout,
        },
    }
}

fn config_for(id: &str, job_name: &str, job: Option<Loaded>) -> (r: Result<
    (String, Duration),
    String,
>)
    ensures
        match (r, job_config(id@, job_name@, job)) {
            (Ok((c, d)), Ok((t, e))) => c@ == t && d == e,
            (Err(e), Err(m)) => e@ == m,
            _ => false,
        },
{
    match job {
        None => Ok(("{}".to_owned(), Duration { nanos: 0 })),
        Some(Loaded::Valid(j)) => {
            if text::same_text(j.connector.as_str(), id) {
                return Ok((j.connector_config, j.backfill));
            }
            let mut e = "job ".to_owned();
            e.append(text::debug_quoted(job_name).as_str());
            e.append(" uses connector ");
            e.append(text::debug_quoted(j.connector.as_str()).as_str());
            e.append(", not ");
            e.append(text::debug_quoted(id).as_str());
            Err(e)
        },
        Some(Loaded::Invalid { error, .. }) => {
            let mut e = "job ".to_owned();
            e.append(text::debug_quoted(job_name).as_str());
            e.append(" is invalid: ");
            e.append(error.as_str());
            Err(e)
        },
    }
}

/// `plugin run`: the job's config if its file exists (and names this plugin),
/// `{}` otherwise; no cursor; nothing written but the run log. `job` is the job's file
/// as it was read, if there is one.
pub fn run_once<B: Fn(&str, &serde_json::Value) -> Result<(), String>>(
    catalog: &PluginCatalog,
    builtins: &B,
    empty: &serde_json::Value,
    id: &str,
    job_name: &str,
    job: Option<Loaded>,
    since: Option<&str>,
    now: Timestamp,
) -> (r: Result<RunOnce, String>)
    requires
        catalog.in_order(),
        catalog::plugin_of(catalog.plugins@, id@) is None && catalog.leaves(id@) ==> call_requires(
            *builtins,
            (id, empty),
        ),
        now.valid(),
        job_config(id@, job_name@, job) matches Ok((_, backfill)) ==> (looks_back(
            text::opt_str(since),
            backfill,
        ) matches Ok(n) ==> time::in_time(now.nanos - n)),
    ensures
        match catalog::plugin_of(catalog.plugins@, id@) {
            None => exists|why: Result<(), String>| #[trigger]
                catalog.answers(id, empty, builtins, why) && (r matches Err(m) && m@
                    == not_runnable(id@, why)),
            Some(p) => match p.manifest.connector {
                None => r matches Err(m) && m@ == "plugin "@ + text::debug_text(id@)
                    + " has no connector (it only provides event hooks)"@,
                Some(c) => run_is(r, c, id@, job_name@, job, text::opt_str(since), now),
            },
        },
{
    let p = match catalog.plugin(id) {
        Some(p) => p,
        None => {
            // Let the catalog explain: invalid, hooks only, or absent.
            let why = catalog.check(id, empty, builtins);
            assert(catalog.answers(id, empty, builtins, why));
            return Err(
                match why {
                    Err(e) => e,
                    Ok(_) => {
                        let mut s = text::debug_quoted(id);
                        s.append(" is built in, not a plugin");
                        s
                    },
                },
            );
        },
    };
    let c = match &p.manifest.connector {
        Some(c) => c,
        None => {
            let mut e = "plugin ".to_owned();
            e.append(text::debug_quoted(id).as_str());
            e.append(" has no connector (it only provides event hooks)");
            return Err(e);
        },
    };
    let (config, backfill) = config_for(id, job_name, job)?;
    let back = match since {
        Some(s) => match time::parse_duration(s) {
            Ok(d) => d,
            Err(why) => {
                let mut e = "--since: ".to_owned();
                e.append(why.as_str());
                return Err(e);
            },
        },
        None => backfill,
    };
    if back.nanos > time::MAX_DELTA_NANOS {
        return Err(
            "--since: Source duration value is out of range for the target type".to_owned(),
        );
    }
    let since_at = Timestamp { nanos: now.nanos - back.nanos as i128 };
    Ok(
        RunOnce {
            input: RunInput { config, cursor: None, since: since_at, now },
            mode: c.mode,
            timeout: c.timeout,
        },
    )
}

/// What a stream handed out, first at once and then after its time. A failure in the
/// end counts only if there is nothing to show; otherwise it is logged.
pub fn merge_stream(first: RunOutput, more: Result<RunOutput, String>) -> (r: Result<
    RunOutput,
    String,
>)
    ensures
        match more {
            Ok(m) => r matches Ok(out) && out.items@ == first.items@ + m.items@ && out.cursor
                == match m.cursor {
                Some(c) => Some(c),
                None => first.cursor,
            } && out.logs@ == first.logs@ + m.logs@,
            Err(e) => if first.items@.len() == 0 {
                r == Err::<RunOutput, String>(e)
            } else {
                r matches Ok(out) && out.items == first.items && out.cursor == first.cursor
                    && text::texts(out.logs@) == text::texts(first.logs@).push("warn: "@ + e@)
            },
        },
{
    match more {
        Ok(m) => {
            let mut items = first.items;
            let mut rest = m.items;
            items.append(&mut rest);
            let mut logs = first.logs;
            let mut said = m.logs;
            logs.append(&mut said);
            let cursor = match m.cursor {
                Some(c) => Some(c),
                None => first.cursor,
            };
            Ok(RunOutput { items, cursor, logs })
        },
        Err(e) => if first.items.len() == 0 {
            Err(e)
        } else {
            let mut w = "warn: ".to_owned();
            w.append(e.as_str());
            let mut logs = first.logs;
            let ghost before = logs@;
            logs.push(w);
            assert(text::texts(logs@) =~= text::texts(before).push(w@));
            Ok(RunOutput { logs, ..first })
        },
    }
}

/// What is said at the end of a run by hand.
pub fn run_summary(items: usize, cursor: &Option<String>) -> (r: String)
    ensures
        r@ == digits::decimal(items as nat) + " items, cursor "@ + (match *cursor {
            Some(c) => c@,
            None => "unchanged"@,
        }),
{
    let mut s = digits::print_number(items as u64);
    s.append(" items, cursor ");
    match cursor {
        Some(c) => s.append(c.as_str()),
        None => s.append("unchanged"),
    }
    s
}

/// A plugin's row says what its manifest says, which of its secrets are not set, and why
/// its `.env` cannot be read; an entry that is no plugin has a row with the reason.
pub proof fn what_a_row_says_of_a_plugin(
    d: Discovered,
    env: Result<Vec<(String, String)>, String>,
    r: PluginRow,
)
    requires
        d.in_order(),
        call_ensures(list_row, (d, env), r),
    ensures
        d matches Discovered::Valid(p) ==> {
            &&& r.id == p.id && r.dir == p.dir && r.linked == p.linked
            &&& r.hooks == p.manifest.events@.len()
            &&& r.connector is Some <==> p.manifest.connector is Some
            &&& env matches Err(e) ==> r.error == Some(e)
            &&& env is Ok ==> r.error is None
            &&& env matches Ok(e) ==> forall|k: Seq<char>| #[trigger]
                text::texts(r.missing_secrets@).contains(k) <==> (exists|i: int|
                    0 <= i < p.manifest.secrets@.len() && (#[trigger] p.manifest.secrets@[i]).name@ == k)
                    && !catalog::is_set(e@, k)
        },
        d matches Discovered::Invalid { id, error, .. } ==> r.id == id && r.error == Some(error),
{
    if let Discovered::Valid(p) = d {
        if let Ok(e) = env {
            catalog::missing_secrets_are_named_in_order(p.manifest.secrets@, e@);
            assert forall|k: Seq<char>| #[trigger] text::texts(r.missing_secrets@).contains(k) <==> (
            exists|i: int|
                0 <= i < p.manifest.secrets@.len() && (#[trigger] p.manifest.secrets@[i]).name@ == k)
                && !catalog::is_set(e@, k) by {
                assert(catalog::declared(p.manifest.secrets@, k) <==> exists|i: int|
                    0 <= i < p.manifest.secrets@.len() && (#[trigger] p.manifest.secrets@[i]).name@ == k);
            }
        }
    }
}

/// What a stream handed out before it failed is not lost; a failure counts only where
/// there was nothing. What came later follows what came first, and a later cursor counts.
pub proof fn a_stream_keeps_what_it_handed_out(
    first: RunOutput,
    more: Result<RunOutput, String>,
    r: Result<RunOutput, String>,
)
    requires
        call_ensures(merge_stream, (first, more), r),
    ensures
        r is Err <==> more is Err && first.items@.len() == 0,
        r matches Ok(out) ==> out.items@.len() >= first.items@.len() && out.items@.take(
            first.items@.len() as int,
        ) == first.items@,
        more matches Ok(m) ==> (r matches Ok(out) && out.items@.len() == first.items@.len()
            + m.items@.len() && out.items@.skip(first.items@.len() as int) == m.items@ && out.cursor
            == (if m.cursor is Some {
            m.cursor
        } else {
            first.cursor
        })),
        more is Err && first.items@.len() > 0 ==> (r matches Ok(out) && out.cursor == first.cursor
            && out.logs@.len() == first.logs@.len() + 1),
{
    if let Ok(out) = r {
        assert(out.items@.take(first.items@.len() as int) =~= first.items@);
        if let Ok(m) = more {
            assert(out.items@.skip(first.items@.len() as int) =~= m.items@);
        } else {
            assert(text::texts(out.logs@).len() == out.logs@.len());
            assert(text::texts(first.logs@).len() == first.logs@.len());
        }
    }
}

/// A run by hand is for a plugin's connector and a job that uses it: it looks back as far
/// as it is told, or as the job's backfill says, and from no cursor.
pub proof fn a_run_by_hand_looks_back_as_told<B: Fn(&str, &serde_json::Value) -> Result<(), String>>(
    catalog: &PluginCatalog,
    builtins: &B,
    empty: &serde_json::Value,
    id: &str,
    job_name: &str,
    job: Option<Loaded>,
    since: Option<&str>,
    now: Timestamp,
    o: RunOnce,
)
    requires
        call_ensures(
            run_once::<B>,
            (catalog, builtins, empty, id, job_name, job, since, now),
            Ok(o),
        ),
    ensures
        exists|k: int|
            0 <= k < catalog.plugins@.len() && (#[trigger] catalog.plugins@[k]).id@ == id@
                && catalog.plugins@[k].manifest.connector is Some,
        o.input.cursor is None && o.input.now == now,
        job matches Some(j) ==> (j matches Loaded::Valid(x) && x.connector@ == id@ && o.input.config@
            == x.connector_config@),
        since matches Some(s) ==> (time::duration_secs(s@) matches Some(secs)
            && o.input.since.nanos == now.nanos - secs * 1_000_000_000),
        since is None ==> o.input.since.nanos == now.nanos - (if job is Some {
            job->0->Valid_0.backfill.nanos as int
        } else {
            0
        }),
{
    catalog::a_plugin_is_found_by_its_id(catalog.plugins@, id@);
    if let Some(p) = catalog::plugin_of(catalog.plugins@, id@) {
        let k = choose|k: int| 0 <= k < catalog.plugins@.len() && catalog.plugins@[k] == p;
        assert(catalog.plugins@[k].id@ == id@);
    }
}

} // verus!
