//! Plugins: finding them, running them, and what is shown of them.

use std::sync::Arc;

use pastor::plugin::catalog::discover_entry;
use pastor::plugin::catalog::manifest_path;
use pastor::plugin::catalog::retain_job;
use pastor::plugin::catalog::sort_discovered;
use pastor::plugin::catalog::DirEntry;
use pastor::plugin::catalog::Discovered;
use pastor::plugin::catalog::Plugin;
use pastor::plugin::catalog::PluginCatalog;
use pastor::plugin::catalog::Redactor;
use pastor::plugin::catalog::SourceFrom;
use pastor::plugin::catalog::SourceKey;
use pastor::plugin::exec::exit_of;
use pastor::plugin::exec::log_name;
use pastor::plugin::exec::program;
use pastor::plugin::exec::prune;
use pastor::plugin::exec::push_tail;
use pastor::plugin::exec::spawn_failed;
use pastor::plugin::exec::stderr_line;
use pastor::plugin::exec::Exit;
use pastor::plugin::exec::Finished;
use pastor::plugin::exec::LogLine;
use pastor::plugin::exec::RunLog;
use pastor::plugin::exec::Waited;
use pastor::plugin::file::Mode;
use pastor::plugin::file::SecretDecl;
use pastor::plugin::list::describe;
use pastor::plugin::list::list_row;
use pastor::plugin::list::list_rows;
use pastor::plugin::list::merge_stream;
use pastor::plugin::list::reload_note;
use pastor::plugin::list::run_once;
use pastor::plugin::list::run_summary;
use pastor::plugin::list::table;
use pastor::plugin::list::Reloaded;
use pastor::plugin::sources::Handed;
use pastor::plugin::sources::Sources;
use pastor::scheduler::item::Item;
use pastor::scheduler::jobs::Loaded;
use pastor::scheduler::jobs::SourceUse;
use pastor::scheduler::run::RunOutput;
use pastor::time::Duration;
use pastor::time::Timestamp;

fn json(text: &str) -> serde_json::Value {
    serde_json::from_str(text).unwrap()
}

fn manifest(id: &str, more: &str) -> String {
    format!("id = \"{id}\"\nversion = \"0.1.0\"\n[connector]\ncommand = [\"x\"]\n{more}")
}

/// A directory of that name under the plugins directory.
fn entry(name: &str, id: &str, more: &str) -> DirEntry {
    DirEntry {
        name: Some(name.into()),
        path: format!("/d/plugins/{name}"),
        linked: false,
        target: Err(String::new()),
        is_dir: true,
        manifest: Ok(manifest(id, more)),
    }
}

fn plugin(name: &str, more: &str) -> Plugin {
    match discover_entry(entry(name, name, more)) {
        Some(Discovered::Valid(p)) => p,
        other => panic!("{other:?}"),
    }
}

fn vars(env: &[(&str, &str)]) -> Vec<(String, String)> {
    env.iter().map(|(n, v)| (n.to_string(), v.to_string())).collect()
}

#[test]
fn discovers_managed_linked_and_broken_plugins() {
    let entries = vec![
        entry("mismatch", "other", ""),
        entry("alpha", "alpha", ""),
        entry(".install-1", "x", ""),
        DirEntry {
            is_dir: false,
            ..entry("stray-file", "x", "")
        },
        DirEntry {
            linked: true,
            target: Ok("/dev/beta".into()),
            ..entry("beta", "beta", "")
        },
        DirEntry {
            linked: true,
            target: Err("No such file or directory".into()),
            ..entry("dangling", "x", "")
        },
    ];
    let found = sort_discovered(entries.into_iter().filter_map(discover_entry).collect());
    let ids: Vec<&str> = found.iter().map(Discovered::id).collect();
    assert_eq!(ids, vec!["alpha", "beta", "dangling", "mismatch"]);
    let Discovered::Valid(alpha) = &found[0] else {
        panic!("{:?}", found[0])
    };
    assert!(!alpha.linked);
    let Discovered::Valid(beta) = &found[1] else {
        panic!("{:?}", found[1])
    };
    assert!(beta.linked);
    assert_eq!(beta.dir, "/dev/beta");
    let Discovered::Invalid { error, .. } = &found[2] else {
        panic!()
    };
    assert!(error.contains("link target is gone"), "{error}");
    let Discovered::Invalid { error, .. } = &found[3] else {
        panic!()
    };
    assert!(error.contains("does not match the directory name"), "{error}");
}

/// A directory whose name is no id, or that has no manifest, is shown as broken.
#[test]
fn a_directory_that_is_no_plugin_says_why() {
    let bad = discover_entry(entry("Bad Name", "x", "")).unwrap();
    assert!(matches!(bad, Discovered::Invalid { .. }), "{bad:?}");
    let missing = DirEntry {
        manifest: Err("No such file".into()),
        ..entry("empty", "x", "")
    };
    match discover_entry(missing).unwrap() {
        Discovered::Invalid { id, error, .. } => {
            assert_eq!(id, "empty");
            assert!(error.contains("No such file"), "{error}");
        }
        other => panic!("{other:?}"),
    }
    assert_eq!(manifest_path("/d/a"), "/d/a/pastor-plugin.toml");
    assert_eq!(manifest_path("/d/a/"), "/d/a/pastor-plugin.toml");
    assert_eq!(manifest_path(""), "pastor-plugin.toml");
}

fn builtins(id: &str, _: &serde_json::Value) -> Result<(), String> {
    if id == "clock" {
        Ok(())
    } else {
        Err(format!("connector {id:?} is not available"))
    }
}

fn catalog() -> PluginCatalog {
    let hooks = DirEntry {
        manifest: Ok(
            "id = \"ntfy\"\nversion = \"0.1.0\"\n[[events]]\non = [\"task.done\"]\ncommand = [\"x\"]\n"
                .into(),
        ),
        ..entry("ntfy", "ntfy", "")
    };
    let entries = vec![
        entry("slack", "slack", "[connector.config.channel]\nrequired = true\n"),
        entry("clock", "clock", ""),
        entry("broken", "nope", ""),
        hooks,
    ];
    PluginCatalog::load(entries.into_iter().filter_map(discover_entry).collect())
}

#[test]
fn the_catalog_checks_config_and_reuses_sources() {
    let cat = catalog();
    let cfg = json("{\"channel\": \"C1\"}");
    let empty = json("{}");
    assert!(cat.check("slack", &cfg, &builtins).is_ok());
    let err = cat.check("slack", &empty, &builtins).unwrap_err();
    assert!(err.contains("requires connector.channel"), "{err}");
    assert!(cat.check("clock", &empty, &builtins).is_ok());
    assert!(matches!(cat.source_keyed("clock", None), SourceFrom::Builtin));
    let err = cat.check("broken", &cfg, &builtins).unwrap_err();
    assert!(err.contains("is invalid") && err.contains("does not match"), "{err}");
    let err = cat.check("ntfy", &cfg, &builtins).unwrap_err();
    assert!(err.contains("no connector"), "{err}");
    assert!(matches!(cat.source_keyed("ntfy", None), SourceFrom::Nowhere));
    let err = cat.check("asana", &cfg, &builtins).unwrap_err();
    assert!(err.contains("not available"), "{err}");

    match cat.source_keyed("slack", Some("j1")) {
        SourceFrom::Plugin { id, job } => {
            assert_eq!((id.as_str(), job.as_deref()), ("slack", Some("j1")));
        }
        other => panic!("{other:?}"),
    }

    let made = |id: &str, job: Option<&str>| Arc::new(format!("{id} {job:?}"));
    let mut sources: Sources<Arc<String>> = Sources::new();
    let source_for = |s: &mut Sources<Arc<String>>, id: &str, job: Option<&str>| {
        match s.source(&cat, id, job, &made) {
            Handed::At(n) => s.held[n].source.clone(),
            other => panic!("{other:?}"),
        }
    };
    let a = source_for(&mut sources, "slack", Some("j1"));
    let b = source_for(&mut sources, "slack", Some("j1"));
    let c = source_for(&mut sources, "slack", Some("j2"));
    let d = source_for(&mut sources, "slack", None);
    assert!(Arc::ptr_eq(&a, &b), "one source per (plugin, job)");
    assert!(!Arc::ptr_eq(&a, &c));
    assert_eq!(a.as_str(), "slack Some(\"j1\")");
    assert_eq!(sources.source(&cat, "clock", Some("j1"), &made), Handed::Builtin);
    assert_eq!(sources.source(&cat, "ntfy", Some("j1"), &made), Handed::Nowhere);
    assert_eq!(sources.held.len(), 3);

    // Only the jobs the scheduler still has keep their sources.
    let keep = vec![SourceUse {
        connector: "slack".into(),
        job: "j1".into(),
    }];
    let source = |job: Option<&str>| SourceKey {
        id: "slack".into(),
        job: job.map(|j| j.to_string()),
    };
    assert!(retain_job(&source(Some("j1")), &keep));
    assert!(!retain_job(&source(Some("j2")), &keep));
    assert!(retain_job(&source(None), &keep), "a source of no job stays");
    sources.retain_jobs(&keep);
    assert_eq!(sources.held.len(), 2);
    assert!(Arc::ptr_eq(&a, &source_for(&mut sources, "slack", Some("j1"))));
    assert!(!Arc::ptr_eq(&c, &source_for(&mut sources, "slack", Some("j2"))));
    assert!(Arc::ptr_eq(&d, &source_for(&mut sources, "slack", None)));
    assert!(cat.plugin("slack").is_some() && cat.plugin("broken").is_none());
}

#[test]
fn missing_secrets_and_redaction_follow_the_manifest() {
    let p = plugin("slack", "[secrets.TOKEN]\n[secrets.SIGNING]\n");
    assert!(p.env("/c/env", vec![]).unwrap().is_empty());
    assert_eq!(p.missing_secrets(&vec![]), vec!["SIGNING", "TOKEN"]);
    let read = vars(&[("TOKEN", "xoxb-9999"), ("SIGNING", ""), ("OTHER", "abcdef")]);
    let env = p.env("/c/env", read).unwrap();
    assert_eq!(p.missing_secrets(&env), vec!["SIGNING"]);
    assert_eq!(
        p.redactor(&env).redact("xoxb-9999 abcdef"),
        "[redacted:TOKEN] abcdef"
    );
}

/// Output is redacted a line at a time, so a secret with a line break in
/// it could never match and would reach the logs whole. Such a `.env` is
/// refused when it is loaded; an undeclared multiline setting is fine.
#[test]
fn a_multiline_declared_secret_is_refused_at_load() {
    let p = plugin("slack", "[secrets.TOKEN]\n");
    for value in ["part-one\npart-two", "part-one\rpart-two"] {
        let err = p.env("/c/env", vars(&[("TOKEN", value)])).unwrap_err();
        assert!(err.contains("TOKEN") && err.contains("line break"), "{value}: {err}");
    }
    let read = vars(&[("TOKEN", "xoxb-9999"), ("NOTE", "a\nb")]);
    let env = p.env("/c/env", read).unwrap();
    assert_eq!(p.redactor(&env).redact("auth xoxb-9999"), "auth [redacted:TOKEN]");
}

/// A command's environment is its `.env`, then pastor's own variables.
#[test]
fn a_command_gets_its_env_and_pastors() {
    let p = plugin("slack", "[secrets.TOKEN]\n");
    let (env, redactor) = p.command_env(vars(&[("TOKEN", "t0")]), Some("j"), "/c", "/s", "/s/p");
    assert_eq!(
        env,
        vars(&[
            ("TOKEN", "t0"),
            ("PASTOR_PLUGIN_ID", "slack"),
            ("PASTOR_JOB", "j"),
            ("PASTOR_CONFIG_DIR", "/c"),
            ("PASTOR_STATE_DIR", "/s"),
            ("PASTOR_PLUGIN_STATE_DIR", "/s/p"),
        ])
    );
    assert_eq!(redactor.redact("t0!"), "[redacted:TOKEN]!");
    let (env, _) = p.command_env(vec![], None, "/c", "/s", "/s/p");
    assert!(env.iter().all(|(n, _)| n != "PASTOR_JOB"));
    assert_eq!(p.scope(Some("j")), "j");
    assert_eq!(p.scope(None), "@slack");
}

// ---------------------------------------------------------------------------
// Running

fn hides(name: &str, value: &str) -> Redactor {
    let secrets = vec![SecretDecl {
        name: name.into(),
        description: None,
    }];
    Redactor::new(&secrets, &vars(&[(name, value)]))
}

#[test]
fn the_log_is_redacted_capped_and_pruned() {
    let mut log = RunLog::create_with(hides("TOKEN", "s3cr3t"), 40);
    let mut body = String::new();
    for line in [
        "token is s3cr3t",
        "0123456789012345678901234567890",
        "never written",
    ] {
        match log.line(line) {
            LogLine::Line(s) | LogLine::Marker(s) => {
                body.push_str(&s);
                body.push('\n');
            }
            LogLine::Nothing => {}
        }
    }
    assert_eq!(
        body,
        "token is [redacted:TOKEN]\n[pastor: log truncated at 40 bytes]\n"
    );
    let names: Vec<String> = ["3.log", "1.log", "notes", "2.log", "1-1.log", ".log", "4.log"]
        .iter()
        .map(|n| n.to_string())
        .collect();
    assert_eq!(
        prune(&names, 3),
        vec!["1.log", "1-1.log"],
        "only the newest three are kept"
    );
    assert!(prune(&names, 20).is_empty());
}

/// Of the logs of one millisecond the first is the oldest, and the tenth is younger than
/// the second.
#[test]
fn logs_of_one_millisecond_are_pruned_in_order() {
    let stamp = "20260924T120000.000Z";
    let names: Vec<String> = (0..12).rev().map(|n| log_name(stamp, n)).collect();
    let gone = prune(&names, 2);
    let expected: Vec<String> = (0..10).map(|n| log_name(stamp, n)).collect();
    assert_eq!(gone, expected);
    let later = log_name("20260924T120000.001Z", 0);
    assert_eq!(prune(&vec![later.clone(), log_name(stamp, 3)], 1), vec![log_name(stamp, 3)]);
    assert_eq!(prune(&vec![later.clone()], 0), vec![later]);
}

#[test]
fn a_taken_log_name_gets_the_next_suffix() {
    assert_eq!(log_name("20260924T100000.000Z", 0), "20260924T100000.000Z.log");
    assert_eq!(log_name("20260924T100000.000Z", 2), "20260924T100000.000Z-2.log");
}

/// A line that does not fit exactly is the last; one that does is not. Bytes count,
/// not characters.
#[test]
fn the_bound_of_a_log_is_in_bytes() {
    let mut log = RunLog::create_with(Redactor { secrets: vec![] }, 8);
    assert!(matches!(log.line("äöü"), LogLine::Line(_)), "seven bytes");
    assert_eq!(log.written, 7);
    assert!(matches!(log.line(""), LogLine::Line(_)));
    assert!(matches!(log.line(""), LogLine::Marker(_)));
    assert!(matches!(log.line("x"), LogLine::Nothing));
    let mut log = RunLog::create(Redactor { secrets: vec![] });
    assert_eq!(log.max, 262_144);
    log.write_failed();
    assert!(matches!(log.line("x"), LogLine::Nothing));
    assert_eq!(log.redact("x"), "x");
}

#[test]
fn how_a_command_ended_is_told() {
    assert!(Exit::Code(0).success());
    assert!(!Exit::Code(3).success());
    assert_eq!(Exit::Code(-3).describe(), "exit -3");
    assert_eq!(Exit::of_status(Some(3), None).describe(), "exit 3");
    assert_eq!(Exit::of_status(None, Some(9)).describe(), "killed by signal 9");
    assert_eq!(Exit::of_status(None, None).describe(), "exit -1");
    assert_eq!(
        Exit::TimedOut(Duration::from_secs(60)).last_line(),
        "[pastor: timed out after 60s]"
    );
    assert_eq!(
        spawn_failed("./x", "not found").describe(),
        "could not start: ./x: not found"
    );
    let mut tail = Vec::new();
    for i in 0..7 {
        push_tail(&mut tail, format!("line {i}"));
    }
    assert_eq!(tail.len(), 5);
    assert_eq!(tail[0], "line 2");
    let finished = Finished {
        exit: Exit::Code(3),
        stderr_tail: tail,
    };
    assert_eq!(finished.reason(), "exit 3: line 6");
}

#[test]
fn what_waiting_for_a_command_came_to() {
    let ended = Waited::Ended {
        code: Some(0),
        signal: None,
    };
    assert!(exit_of(ended).success());
    assert_eq!(
        exit_of(Waited::Failed("no child".into())).describe(),
        "could not start: wait: no child"
    );
    assert_eq!(
        exit_of(Waited::TimedOut(Duration::from_secs(5))).describe(),
        "timed out after 5s"
    );
}

/// The log and the last lines both have stderr without the secrets.
#[test]
fn stderr_is_redacted_in_both_places() {
    let mut log = RunLog::create(hides("TOKEN", "s3cr3t"));
    let mut tail = Vec::new();
    let line = stderr_line(&mut log, &mut tail, "bad s3cr3t");
    assert!(matches!(line, LogLine::Line(s) if s == "bad [redacted:TOKEN]"));
    assert_eq!(tail, vec!["bad [redacted:TOKEN]"]);
}

#[test]
fn a_relative_program_is_the_plugins() {
    let argv = |p: &str| vec![p.to_string(), "arg".to_string()];
    assert_eq!(program(&argv("./poll"), "/d/a").unwrap(), "/d/a/./poll");
    assert_eq!(program(&argv("bash"), "/d/a").unwrap(), "bash");
    assert_eq!(program(&argv("/bin/sh"), "/d/a").unwrap(), "/bin/sh");
    assert_eq!(
        program(&vec![], "/d/a").unwrap_err().describe(),
        "could not start: empty command"
    );
}

// ---------------------------------------------------------------------------
// What is shown

#[test]
fn a_plugin_is_described_before_it_is_installed() {
    let p = plugin("slack", "[[events]]\non = [\"task.done\", \"task.failed\"]\ncommand = [\"bash\", \"r.sh\"]\n");
    let shown = describe(&p.manifest);
    assert!(shown.starts_with("slack 0.1.0 (slack)\n"), "{shown}");
    assert!(shown.contains("  connector (poll): x\n"), "{shown}");
    assert!(shown.contains("  hook on task.done, task.failed: bash r.sh\n"), "{shown}");
}

#[test]
fn the_list_shows_what_is_missing() {
    let good = Discovered::Valid(plugin("slack", "[secrets.TOKEN]\n"));
    let row = list_row(good, Ok(vec![]));
    assert_eq!(row.version.as_deref(), Some("0.1.0"));
    assert_eq!(row.connector.as_deref(), Some("poll"));
    assert_eq!(row.missing_secrets, vec!["TOKEN"]);
    let bad = Discovered::Invalid {
        id: "b".into(),
        dir: "/d/b".into(),
        linked: true,
        error: "broken".into(),
    };
    let rows = list_rows(vec![
        (Discovered::Valid(plugin("slack", "[secrets.TOKEN]\n")), Ok(vec![])),
        (bad, Ok(vec![])),
        (Discovered::Valid(plugin("ok", "")), Ok(vec![])),
        (Discovered::Valid(plugin("env", "")), Err("unreadable".into())),
    ]);
    let cells = table(&rows);
    assert_eq!(cells.len(), 4);
    assert_eq!(cells[0][0], "slack");
    assert_eq!(cells[0].last().unwrap(), "missing secrets: TOKEN");
    assert!(cells[1].last().unwrap().contains("broken"));
    assert_eq!(cells[2].last().unwrap(), "ok");
    assert!(cells[3].last().unwrap().contains("unreadable"));
}

#[test]
fn a_reload_is_told_of_where_there_is_a_daemon() {
    assert_eq!(reload_note(&Reloaded::NotRunning), None);
    assert_eq!(
        reload_note(&Reloaded::Done).as_deref(),
        Some("pastor serve reloaded its plugins and jobs")
    );
    assert!(reload_note(&Reloaded::Unresponsive).unwrap().contains("not responding"));
    assert!(reload_note(&Reloaded::Failed("boom".into())).unwrap().contains("(boom)"));
}

#[test]
fn a_connector_runs_once_by_hand() {
    let cat = catalog();
    let empty = json("{}");
    let now = Timestamp::at_secs(1_790_000_000);
    let run = |id: &str, job: Option<Loaded>, since: Option<&str>| {
        run_once(&cat, &builtins, &empty, id, "j", job, since, now)
    };
    let once = run("slack", None, Some("5m")).unwrap();
    assert_eq!(once.input.config, "{}");
    assert_eq!(once.input.since, Timestamp::at_secs(1_790_000_000 - 300));
    assert!(once.input.cursor.is_none());
    assert_eq!(once.mode, Mode::Poll);
    assert_eq!(once.timeout, Duration::from_secs(60));
    assert!(run("slack", None, Some("soon")).unwrap_err().starts_with("--since: "));
    assert!(run("ntfy", None, None).unwrap_err().contains("no connector"));
    assert!(run("clock", None, None).unwrap_err().contains("is built in, not a plugin"));
    assert!(run("asana", None, None).unwrap_err().contains("not available"));
    let broken = Loaded::Invalid {
        name: "j".into(),
        error: "expected `]`".into(),
    };
    assert_eq!(
        run("slack", Some(broken), None).unwrap_err(),
        "job \"j\" is invalid: expected `]`"
    );
}

#[test]
fn what_a_stream_handed_out_is_put_together() {
    let out = |keys: &[&str], cursor: Option<&str>| RunOutput {
        items: keys
            .iter()
            .map(|k| Item {
                key: k.to_string(),
                repo: None,
                branch: None,
            })
            .collect(),
        cursor: cursor.map(|c| c.to_string()),
        logs: keys.iter().map(|k| format!("log {k}")).collect(),
    };
    let both = merge_stream(out(&["a"], Some("1")), Ok(out(&["b"], None))).unwrap();
    assert_eq!(both.items.len(), 2);
    assert_eq!(both.items[1].key, "b");
    assert_eq!(both.cursor.as_deref(), Some("1"));
    assert_eq!(both.logs, vec!["log a", "log b"]);
    let kept = merge_stream(out(&["a"], None), Err("eof".into())).unwrap();
    assert_eq!(kept.items.len(), 1);
    assert_eq!(kept.logs, vec!["log a", "warn: eof"]);
    assert_eq!(merge_stream(out(&[], None), Err("eof".into())).unwrap_err(), "eof");
    assert_eq!(run_summary(2, &None), "2 items, cursor unchanged");
    assert_eq!(run_summary(0, &Some("c".into())), "0 items, cursor c");
}
