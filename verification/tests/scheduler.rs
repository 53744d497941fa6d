//! Jobs: their runs, when they are due, and the tick.

use std::cell::RefCell;
use std::collections::HashSet;

use pastor::schedule::CronExpr;
use pastor::schedule::Schedule;
use pastor::scheduler::due::due_of;
use pastor::scheduler::due::Due;
use pastor::scheduler::files::fingerprint;
use pastor::scheduler::files::FileMark;
use pastor::scheduler::files::JobFiles;
use pastor::scheduler::files::Reread;
use pastor::scheduler::item::check_item_paths;
use pastor::scheduler::item::path_value_problem;
use pastor::scheduler::item::render_task;
use pastor::scheduler::item::Item;
use pastor::scheduler::item::Placeholder;
use pastor::scheduler::item::Places;
use pastor::scheduler::item::Rendered;
use pastor::scheduler::item::TaskTexts;
use pastor::scheduler::jobs::Loaded;
use pastor::scheduler::jobs::Scheduler;
use pastor::scheduler::report::backoff_for;
use pastor::scheduler::report::first_line;
use pastor::scheduler::report::JobRunReport;
use pastor::scheduler::report::RunOutcome;
use pastor::scheduler::run::job_state;
use pastor::scheduler::run::run_input;
use pastor::scheduler::run::run_job;
use pastor::scheduler::run::Job;
use pastor::scheduler::run::JobState;
use pastor::scheduler::run::RunAsk;
use pastor::scheduler::run::RunEnd;
use pastor::scheduler::run::RunEvent;
use pastor::scheduler::run::RunNext;
use pastor::scheduler::run::RunOutput;
use pastor::scheduler::tick::collected;
use pastor::scheduler::tick::dispatch_follows;
use pastor::scheduler::tick::warn_long_queued;
use pastor::scheduler::tick::PassStep;
use pastor::scheduler::tick::QueuedTask;
use pastor::scheduler::tick::QueuedWhy;
use pastor::scheduler::tick::Slot;
use pastor::task::DispatchSpec;
use pastor::task::Place;
use pastor::task::Words;
use pastor::time::Duration;
use pastor::time::Timestamp;

/// An ordinary time of day.
const NOW: i64 = 1_790_000_000;

fn at(secs: i64) -> Timestamp {
    Timestamp::at_secs(NOW + secs)
}

fn job(name: &str) -> Job {
    Job {
        name: name.into(),
        schedule: Schedule::Every(Duration::from_secs(60)),
        enabled: true,
        connector: "scripted".into(),
        connector_config: "{\"channel\":\"C1\"}".into(),
        prompt: "{{ job.name }}: {{ item.title }} ({{ task.id }})".into(),
        max_tasks_per_run: 5,
        backfill: Duration::from_secs(600),
        spec: DispatchSpec {
            agent: "codex".into(),
            agent_args: Words::End,
            repo: Some("/srv/{{ job.name }}".into()),
            worktree: true,
            branch: Some("pastor/{{ item.key }}".into()),
            machine: None,
            tags: Words::End,
            timeout_secs: 60,
            checkout: None,
            place: Place::Own,
        },
    }
}

fn takes(path: &str, value: &str) -> Option<Places> {
    Some(Places {
        found: Ok(vec![Placeholder {
            path: path.into(),
            value: Ok(value.into()),
        }]),
    })
}

/// An item of a job whose branch takes the item's key.
fn item(key: &str) -> Item {
    Item {
        key: key.into(),
        repo: takes("job.name", "j"),
        branch: takes("item.key", key),
    }
}

fn items(keys: &[&str]) -> RunOutput {
    RunOutput {
        items: keys.iter().map(|k| item(k)).collect(),
        cursor: None,
        logs: vec!["scripted ran".into()],
    }
}

/// A template with its placeholders filled in from what is known by their paths.
fn fill(text: &str, known: &[(&str, String)]) -> Result<Rendered, String> {
    let mut out = Rendered {
        text: String::new(),
        missing: vec![],
    };
    let mut rest = text;
    while let Some((before, after)) = rest.split_once("{{") {
        let (path, more) = after.split_once("}}").ok_or("unclosed placeholder")?;
        out.text.push_str(before);
        match known.iter().find(|k| k.0 == path.trim()) {
            Some(k) => out.text.push_str(&k.1),
            None => out.missing.push(path.trim().to_string()),
        }
        rest = more;
    }
    out.text.push_str(rest);
    Ok(out)
}

/// A task as the store keeps it.
struct Made {
    id: i64,
    job: String,
    key: String,
    prompt: String,
    spec: DispatchSpec,
}

/// The store, as far as a run asks it.
#[derive(Default)]
struct FakeStore {
    seen: RefCell<Vec<(String, String)>>,
    tasks: RefCell<Vec<Made>>,
    state: RefCell<Option<JobState>>,
}

impl FakeStore {
    fn is_seen(&self, job: &str, key: &str) -> bool {
        self.seen.borrow().iter().any(|s| s.0 == job && s.1 == key)
    }

    fn insert(&self, j: &Job, item: &Item) -> Result<i64, String> {
        let id = self.tasks.borrow().len() as i64 + 1;
        let known = [
            ("item.key", item.key.clone()),
            ("item.title", format!("title of {}", item.key)),
            ("job.name", j.name.clone()),
            ("task.id", format!("t-{id}")),
        ];
        let texts = TaskTexts {
            prompt: fill(&j.prompt, &known),
            repo: j.spec.repo.as_deref().map(|r| fill(r, &known)),
            branch: j.spec.branch.as_deref().map(|b| fill(b, &known)),
        };
        let t = render_task(item, &j.spec, texts)?;
        self.seen.borrow_mut().push((j.name.clone(), item.key.clone()));
        self.tasks.borrow_mut().push(Made {
            id,
            job: j.name.clone(),
            key: item.key.clone(),
            prompt: t.prompt,
            spec: t.spec,
        });
        Ok(id)
    }

    fn run(&self, j: &Job, output: Result<RunOutput, String>, now: Timestamp, dry: bool) -> RunEnd {
        let state = job_state(j, Ok(self.state.borrow_mut().take())).unwrap();
        let before = copy(&state);
        let mut next = run_job(j, state, output, now, dry);
        let end = loop {
            match next {
                RunNext::End(end) => break end,
                RunNext::Ask(run, ask) => {
                    let ev = match ask {
                        RunAsk::Seen(key) => RunEvent::Seen(Ok(self.is_seen(&j.name, &key))),
                        RunAsk::Insert(i) => {
                            RunEvent::Inserted(self.insert(j, &run.output.items[i]))
                        }
                    };
                    next = run.step(ev);
                }
            }
        };
        *self.state.borrow_mut() = match &end.save {
            Some(s) => Some(copy(s)),
            None => Some(before),
        };
        end
    }

    fn saved(&self) -> JobState {
        copy(self.state.borrow().as_ref().unwrap())
    }
}

fn copy(s: &JobState) -> JobState {
    JobState {
        name: s.name.clone(),
        cursor: s.cursor.clone(),
        last_run_at: s.last_run_at,
        last_ok_at: s.last_ok_at,
        last_result: s.last_result.clone(),
        last_error: s.last_error.clone(),
        failures: s.failures,
        backoff_until: s.backoff_until,
    }
}

fn never_ran(name: &str) -> JobState {
    job_state(&job(name), Ok(None)).unwrap()
}

#[test]
fn creates_one_task_per_new_item_with_rendered_templates() {
    let store = FakeStore::default();
    let now = at(0);
    let first = run_input(&job("j"), &never_ran("j"), now);
    assert_eq!(first.since, at(-600));
    assert!(first.cursor.is_none());
    assert_eq!(first.config, "{\"channel\":\"C1\"}");

    let mut out = items(&["k1", "k2"]);
    out.cursor = Some("c1".into());
    let end = store.run(&job("j"), Ok(out), now, false);
    let report = end.report;
    assert_eq!(report.outcome, RunOutcome::Ran);
    assert_eq!(end.queued, vec![1, 2], "one event per created task");
    assert!(!end.job_failed);
    assert_eq!(report.items, 2);
    assert_eq!(report.created, vec!["t-1", "t-2"]);
    assert_eq!(report.skipped_seen, 0);
    assert_eq!(report.deferred, 0);
    assert!(report.error.is_none());
    {
        let tasks = store.tasks.borrow();
        assert_eq!(tasks.len(), 2);
        let t1 = tasks.iter().find(|t| t.id == 1).unwrap();
        assert_eq!(t1.job, "j");
        assert_eq!(t1.prompt, "j: title of k1 (t-1)");
        assert_eq!(t1.spec.repo.as_deref(), Some("/srv/j"));
        assert_eq!(t1.spec.branch.as_deref(), Some("pastor/k1"));
        assert!(t1.spec.worktree);
        assert_eq!(t1.key, "k1");
    }
    assert!(store.is_seen("j", "k1") && store.is_seen("j", "k2"));

    let state = store.saved();
    assert_eq!(state.cursor.as_deref(), Some("c1"));
    assert_eq!(state.failures, 0);
    assert_eq!(state.last_result.as_deref(), Some("ok: 2 items, 2 tasks"));
    assert!(state.last_run_at.is_some() && state.last_ok_at.is_some());

    // Second run: since = last ok run, cursor = the persisted one.
    let again = run_input(&job("j"), &state, at(60));
    assert_eq!(again.since, state.last_ok_at.unwrap());
    assert_eq!(again.cursor.as_deref(), Some("c1"));
}

#[test]
fn seen_keys_and_in_run_duplicates_create_one_task() {
    let store = FakeStore::default();
    store.run(&job("j"), Ok(items(&["k1"])), at(0), false);
    let end = store.run(&job("j"), Ok(items(&["k1", "k1", "k2", "k2"])), at(1), false);
    assert_eq!(end.report.items, 4);
    assert_eq!(
        end.report.created,
        vec!["t-2"],
        "k2 once; k1 was seen, repeats collapse"
    );
    assert_eq!(end.report.skipped_seen, 1);
    assert_eq!(store.tasks.borrow().len(), 2);
    // Seen is per job: another job sees k1 as new.
    *store.state.borrow_mut() = None;
    let end = store.run(&job("other"), Ok(items(&["k1"])), at(2), false);
    assert_eq!(end.report.created.len(), 1);
}

#[test]
fn max_tasks_per_run_defers_the_rest_unseen() {
    let store = FakeStore::default();
    let mut j = job("j");
    j.max_tasks_per_run = 2;
    let keys = ["k1", "k2", "k3", "k4"];
    let end = store.run(&j, Ok(items(&keys)), at(0), false);
    assert_eq!(end.report.created, vec!["t-1", "t-2"]);
    assert_eq!(end.report.deferred, 2);
    assert!(!store.is_seen("j", "k3"), "deferred items stay unseen");
    let end = store.run(&j, Ok(items(&keys)), at(1), false);
    assert_eq!(end.report.created, vec!["t-3", "t-4"]);
    assert_eq!(end.report.skipped_seen, 2);
    assert_eq!(end.report.deferred, 0);
}

#[test]
fn a_capped_run_keeps_the_old_cursor_and_since() {
    let store = FakeStore::default();
    let t0 = at(-3600);
    *store.state.borrow_mut() = Some(JobState {
        last_run_at: Some(t0),
        last_ok_at: Some(t0),
        cursor: Some("old".into()),
        ..never_ran("j")
    });
    let mut j = job("j");
    j.max_tasks_per_run = 2;
    let out = || {
        let mut out = items(&["k1", "k2", "k3", "k4"]);
        out.cursor = Some("new".into());
        out
    };
    let t1 = at(0);
    let end = store.run(&j, Ok(out()), t1, false);
    assert_eq!(end.report.deferred, 2);
    assert_eq!(end.report.created, vec!["t-1", "t-2"]);
    assert!(!end.ack);
    assert!(store.is_seen("j", "k1") && store.is_seen("j", "k2"));
    assert!(!store.is_seen("j", "k3") && !store.is_seen("j", "k4"));
    let s = store.saved();
    assert_eq!(
        s.cursor.as_deref(),
        Some("old"),
        "a cursor past deferred items would lose them"
    );
    assert_eq!(s.last_ok_at, Some(t0), "since must still cover them");
    assert_eq!(s.last_run_at, Some(t1), "the schedule still advances");

    // The next run is asked from the old cursor and picks the rest up;
    // with nothing deferred, the new cursor is kept.
    let t2 = at(60);
    let input = run_input(&j, &s, t2);
    assert_eq!(input.cursor.as_deref(), Some("old"));
    assert_eq!(input.since, t0);
    let end = store.run(&j, Ok(out()), t2, false);
    assert_eq!(end.report.created, vec!["t-3", "t-4"]);
    assert_eq!(end.report.deferred, 0);
    let s = store.saved();
    assert_eq!(s.cursor.as_deref(), Some("new"));
    assert_eq!(s.last_ok_at, Some(t2));
}

#[test]
fn a_failed_insert_keeps_the_old_cursor() {
    let store = FakeStore::default();
    let mut j = job("j");
    j.prompt = "{{ unclosed".into();
    let mut out = items(&["k1"]);
    out.cursor = Some("new".into());
    let t1 = at(0);
    let end = store.run(&j, Ok(out), t1, false);
    assert!(end.report.error.is_some(), "{:?}", end.report);
    let s = store.saved();
    assert!(s.cursor.is_none(), "{s:?}");
    assert!(s.last_ok_at.is_none());
    assert_eq!(s.last_run_at, Some(t1));
}

#[test]
fn a_failed_insert_fails_the_run_without_backing_off() {
    let store = FakeStore::default();
    let mut j = job("j");
    j.prompt = "{{ unclosed".into();
    let t1 = at(0);
    let end = store.run(&j, Ok(items(&["k1"])), t1, false);
    assert_eq!(end.report.outcome, RunOutcome::Failed, "{:?}", end.report);
    let s = store.saved();
    assert!(s.last_error.as_deref().unwrap().contains("k1"), "{s:?}");
    assert!(s.last_result.as_deref().unwrap().starts_with("failed"), "{s:?}");
    assert_eq!(s.failures, 0, "an insert failure is not a connector failure");
    assert!(s.backoff_until.is_none());
    assert!(!end.job_failed, "job.failed is for connector failures");
    assert_eq!(
        due_of(&j, Some(&s), None, at(30)),
        Due::At(at(60)),
        "the next run is due on schedule"
    );
}

#[test]
fn missing_item_field_renders_empty_and_warns() {
    let store = FakeStore::default();
    let mut j = job("j");
    j.prompt = "[{{ item.title }}] {{ item.author }}!".into();
    let end = store.run(&j, Ok(items(&["k1"])), at(0), false);
    assert_eq!(end.report.created, vec!["t-1"]);
    assert_eq!(store.tasks.borrow()[0].prompt, "[title of k1] !");
    assert!(store.is_seen("j", "k1"));
}

/// A rendered task keeps what its spec carries, and tells which placeholders of which
/// field had no value.
#[test]
fn a_rendered_task_carries_its_spec() {
    let rendered = |text: &str, missing: &[&str]| Rendered {
        text: text.into(),
        missing: missing.iter().map(|m| m.to_string()).collect(),
    };
    let texts = TaskTexts {
        prompt: Ok(rendered("[title of k1] !", &["item.author"])),
        repo: Some(Ok(rendered("/srv/j", &[]))),
        branch: Some(Ok(rendered("pastor/k1", &["item.x"]))),
    };
    let mut spec = job("j").spec;
    spec.agent_args = Words::of(vec!["--verbose".into(), "-x".into()]);
    spec.tags = Words::of(vec!["gpu".into()]);
    let t = render_task(&item("k1"), &spec, texts).unwrap();
    assert_eq!(t.prompt, "[title of k1] !");
    assert_eq!(t.spec.repo.as_deref(), Some("/srv/j"));
    assert_eq!(t.spec.branch.as_deref(), Some("pastor/k1"));
    assert!(t.spec.worktree);
    assert_eq!(t.spec.agent_args.list(), vec!["--verbose", "-x"]);
    assert_eq!(t.spec.tags.list(), vec!["gpu"]);
    assert_eq!(t.missing, vec!["prompt: item.author", "branch: item.x"]);
}

#[test]
fn a_failing_connector_backs_off_keeps_cursor_and_emits_job_failed() {
    let store = FakeStore::default();
    let mut out = items(&["k1"]);
    out.cursor = Some("c1".into());
    let t0 = at(0);
    let end = store.run(&job("j"), Ok(out), t0, false);
    assert_eq!(end.queued.len(), 1);
    assert!(end.ack);

    let boom = || Err("boom: 503 from upstream".to_string());
    let t1 = at(60);
    let end = store.run(&job("j"), boom(), t1, false);
    assert_eq!(end.report.outcome, RunOutcome::Failed);
    assert!(end.report.error.as_deref().unwrap().contains("boom"));
    let s = store.saved();
    assert_eq!(s.failures, 1);
    assert_eq!(s.backoff_until, Some(at(120)));
    assert_eq!(s.cursor.as_deref(), Some("c1"), "cursor kept on failure");
    assert_eq!(s.last_ok_at, Some(t0), "since stays at the last success");
    assert_eq!(s.last_run_at, Some(t1));
    assert!(s.last_error.as_deref().unwrap().contains("boom"));
    assert!(s.last_result.as_deref().unwrap().starts_with("failed"));
    assert!(end.job_failed && end.queued.is_empty());
    assert_eq!(store.tasks.borrow().len(), 1, "no task is added");
    assert_eq!(store.seen.borrow().len(), 1);

    let t2 = at(180);
    store.run(&job("j"), boom(), t2, false);
    let s = store.saved();
    assert_eq!(s.failures, 2);
    assert_eq!(s.backoff_until, Some(at(180 + 120)));

    store.run(&job("j"), Ok(items(&[])), at(480), false);
    let s = store.saved();
    assert_eq!(s.failures, 0);
    assert!(s.backoff_until.is_none() && s.last_error.is_none());
}

/// An item that could not be inserted is still unseen; if the cursor
/// moved past it anyway, a connector that resumes from the cursor would
/// never emit it again. The cursor and `since` hold until a run inserts
/// everything it meant to.
#[test]
fn a_failed_insert_keeps_the_cursor_and_since() {
    let store = FakeStore::default();
    let t0 = at(-3600);
    *store.state.borrow_mut() = Some(JobState {
        cursor: Some("c-old".into()),
        last_ok_at: Some(t0),
        ..never_ran("j")
    });
    let out = || {
        let mut out = items(&["k1"]);
        out.cursor = Some("c-new".into());
        out
    };
    let mut j = job("j");
    j.prompt = "{{ unclosed".into();
    let now = at(0);
    let end = store.run(&j, Ok(out()), now, false);
    assert!(end.report.created.is_empty());
    assert!(end.report.error.as_deref().unwrap().contains("k1"));
    let st = store.saved();
    assert_eq!(st.cursor.as_deref(), Some("c-old"), "cursor held");
    assert_eq!(st.last_ok_at, Some(t0), "since held");
    assert_eq!(st.last_run_at, Some(now));
    assert!(st.last_result.as_deref().unwrap().starts_with("failed"), "{st:?}");
    assert!(!store.is_seen("j", "k1"));

    // The next run inserts it; now the cursor moves.
    let end = store.run(&job("j"), Ok(out()), now, false);
    assert_eq!(end.report.created.len(), 1);
    let st = store.saved();
    assert_eq!(st.cursor.as_deref(), Some("c-new"));
    assert_eq!(st.last_ok_at, Some(now));
}

/// Item fields come from outside (a Slack message, an issue title). Put
/// into `repo` or `branch` they must not climb directories, pose as an
/// option, or smuggle control characters to the machine.
#[test]
fn render_task_rejects_unsafe_item_values_in_repo_and_branch() {
    let with = |repo: &str, key: &str| Item {
        key: key.into(),
        repo: takes("item.repo", repo),
        branch: takes("item.key", key),
    };
    let texts = |repo: &str, key: &str| {
        let rendered = |text: String| Rendered {
            text,
            missing: vec![],
        };
        TaskTexts {
            prompt: Ok(rendered("p".into())),
            repo: Some(Ok(rendered(format!("~/work/{repo}")))),
            branch: Some(Ok(rendered(format!("pastor/{key}")))),
        }
    };
    let spec = job("j").spec;
    let (repo, key) = ("api_v2-x", "1727000123.000200");
    let t = render_task(&with(repo, key), &spec, texts(repo, key)).unwrap();
    assert_eq!(t.spec.repo.as_deref(), Some("~/work/api_v2-x"));
    assert_eq!(t.spec.branch.as_deref(), Some("pastor/1727000123.000200"));
    for (field, value) in [
        ("repo", "../../etc"),
        ("repo", "a/b"),
        ("repo", "a\\b"),
        ("repo", ".."),
        ("key", "-oProxyCommand=x"),
        ("key", "x\ny"),
        ("key", "bell\u{7}"),
    ] {
        let (r, k) = if field == "repo" { (value, key) } else { (repo, value) };
        let err = render_task(&with(r, k), &spec, texts(r, k)).unwrap_err();
        let target = if field == "repo" { "repo" } else { "branch" };
        assert!(
            err.contains(target) && err.contains(&format!("item.{field}")),
            "{value:?}: {err}"
        );
    }
    // The prompt is free text: anything goes there.
    let mut free = texts(repo, key);
    free.prompt = Ok(Rendered {
        text: "../../etc\n-rf".into(),
        missing: vec![],
    });
    assert!(render_task(&with(repo, key), &spec, free).is_ok());
}

/// A rejected item creates no task and is reported, but it is the item's
/// fault, not a transient failure: the run still counts and the cursor
/// moves, so one bad message cannot stall the job forever.
#[test]
fn an_unsafe_item_is_skipped_and_reported_without_holding_the_cursor() {
    let store = FakeStore::default();
    let mut out = items(&["../evil", "good"]);
    out.cursor = Some("c-1".into());
    let end = store.run(&job("j"), Ok(out), at(0), false);
    assert_eq!(end.report.created.len(), 1);
    let err = end.report.error.as_deref().unwrap();
    assert!(err.contains("../evil") && err.contains("rejected"), "{err}");
    assert_eq!(store.saved().cursor.as_deref(), Some("c-1"));
    assert_eq!(store.tasks.borrow().len(), 1);
}

#[test]
fn dry_run_writes_nothing() {
    let store = FakeStore::default();
    let end = store.run(&job("j"), Ok(items(&["k1", "k2"])), at(0), true);
    assert_eq!(end.report.outcome, RunOutcome::DryRun);
    assert_eq!(
        end.report.created,
        vec!["k1", "k2"],
        "keys, since no task ids exist"
    );
    assert!(store.tasks.borrow().is_empty());
    assert!(!store.is_seen("j", "k1"));
    assert!(end.save.is_none() && !end.ack && end.queued.is_empty());
    // A failing dry run does not back the job off either.
    let end = store.run(&job("j"), Err("boom".into()), at(0), true);
    assert_eq!(end.report.outcome, RunOutcome::Failed);
    assert!(end.save.is_none());
    assert!(!end.job_failed, "no job.failed on a dry run");
}

/// A store that cannot tell whether a key was seen ends the run there.
#[test]
fn a_failing_seen_store_ends_the_run() {
    let out = items(&["k1", "k2"]);
    let run = match run_job(&job("j"), never_ran("j"), Ok(out), at(0), false) {
        RunNext::Ask(run, RunAsk::Seen(key)) if key == "k1" => run,
        other => panic!("{other:?}"),
    };
    let end = match run.step(RunEvent::Seen(Err("disk".into()))) {
        RunNext::End(end) => end,
        other => panic!("{other:?}"),
    };
    assert_eq!(end.report.outcome, RunOutcome::Failed);
    assert_eq!(end.report.error.as_deref(), Some("seen-store: disk"));
    assert!(end.save.is_none());
}

/// A run asks for each key once and for each task once, in order, and for none it may
/// not make.
#[test]
fn a_run_asks_the_store_in_order() {
    let mut j = job("j");
    j.max_tasks_per_run = 2;
    let keys = ["", "k1", "k1", "../evil", "old", "k2", "k3", "k2"];
    let asked = |dry: bool| {
        let mut said: Vec<String> = Vec::new();
        let mut next = run_job(&j, never_ran("j"), Ok(items(&keys)), at(0), dry);
        while let RunNext::Ask(run, ask) = next {
            next = run.step(match ask {
                RunAsk::Seen(key) => {
                    said.push(format!("seen {key}"));
                    RunEvent::Seen(Ok(key == "old"))
                }
                RunAsk::Insert(i) => {
                    said.push(format!("insert {i}"));
                    RunEvent::Inserted(Ok(i as i64))
                }
            });
        }
        said
    };
    assert_eq!(
        asked(false),
        vec![
            "seen k1",
            "insert 1",
            "seen ../evil",
            "seen old",
            "seen k2",
            "insert 5",
            "seen k3",
        ]
    );
    assert_eq!(
        asked(true),
        vec!["seen k1", "seen ../evil", "seen old", "seen k2", "seen k3"]
    );
    assert!(matches!(
        run_job(&j, never_ran("j"), Err("boom".into()), at(0), false),
        RunNext::End(_)
    ));
}

/// A dry run tells what the run that follows does.
#[test]
fn a_dry_run_tells_what_the_run_does() {
    let store = FakeStore::default();
    store.run(&job("j"), Ok(items(&["old"])), at(0), false);
    let mut j = job("j");
    j.max_tasks_per_run = 2;
    let out = || items(&["k1", "old", "../evil", "k1", "k2", "k3"]);
    let dry = store.run(&j, Ok(out()), at(1), true).report;
    let wet = store.run(&j, Ok(out()), at(1), false).report;
    assert_eq!((dry.outcome, wet.outcome), (RunOutcome::DryRun, RunOutcome::Ran));
    assert_eq!(dry.items, wet.items);
    assert_eq!((dry.skipped_seen, dry.deferred), (wet.skipped_seen, wet.deferred));
    assert_eq!(dry.error, wet.error);
    assert_eq!(dry.created, vec!["k1", "k2"]);
    let tasks = store.tasks.borrow();
    let made: Vec<&str> = tasks[1..].iter().map(|t| t.key.as_str()).collect();
    assert_eq!(made, dry.created);
    assert_eq!(wet.created, vec!["t-2", "t-3"]);
}

#[test]
fn a_job_whose_state_cannot_be_read_does_not_run() {
    let report = job_state(&job("j"), Err("locked".into())).unwrap_err();
    assert_eq!(report.outcome, RunOutcome::Failed);
    assert_eq!(report.error.as_deref(), Some("job state: locked"));
}

#[test]
fn backoff_doubles_from_a_minute_and_caps_at_an_hour() {
    assert_eq!(backoff_for(1), Duration::from_secs(60));
    assert_eq!(backoff_for(2), Duration::from_secs(120));
    assert_eq!(backoff_for(6), Duration::from_secs(1920));
    assert_eq!(backoff_for(7), Duration::from_secs(3600));
    assert_eq!(backoff_for(40), Duration::from_secs(3600));
    assert_eq!(
        backoff_for(0),
        Duration::from_secs(60),
        "defensive: never zero"
    );
}

#[test]
fn the_first_line_of_an_error_is_shown() {
    assert_eq!(first_line("one\ntwo"), "one");
    assert_eq!(first_line("one"), "one");
    assert_eq!(first_line(""), "");
}

#[test]
fn an_unsafe_value_is_named() {
    assert_eq!(path_value_problem("ok-1.2"), None);
    assert_eq!(path_value_problem("a/b"), Some("contains a path separator"));
    assert_eq!(path_value_problem("a..b"), Some("contains \"..\""));
    assert_eq!(path_value_problem("-x"), Some("starts with '-'"));
    assert_eq!(path_value_problem("a\tb"), Some("contains a control character"));
    let bad = Item {
        key: "k".into(),
        repo: None,
        branch: takes("item.x", "a/b"),
    };
    assert_eq!(
        check_item_paths(&bad),
        Err("branch: {{ item.x }} = \"a/b\" contains a path separator".to_string())
    );
}

// ---------------------------------------------------------------------------
// The scheduler's jobs

fn valid(name: &str) -> Loaded {
    Loaded::Valid(Job {
        schedule: Schedule::Every(Duration::from_secs(300)),
        ..job(name)
    })
}

fn invalid(name: &str) -> Loaded {
    Loaded::Invalid {
        name: name.into(),
        error: "expected `]`".into(),
    }
}

fn poll(_: &String, _: &String) -> Option<bool> {
    Some(false)
}

fn outcome(slot: &Slot) -> RunOutcome {
    match slot {
        Slot::Ready(r) => r.outcome,
        Slot::Run(_) => RunOutcome::Ran,
    }
}

#[test]
fn invalid_edit_keeps_previous_job_and_reports_error() {
    let mut s = Scheduler::new(false);
    let used = s.reload(vec![valid("a")], at(0));
    assert_eq!(used.len(), 1);
    let states: Vec<JobState> = vec![];
    let st = &s.statuses(&states, at(0))[0];
    assert_eq!(st.name, "a");
    assert!(st.error.is_none());
    assert_eq!(st.schedule.as_deref(), Some("every 5m"));

    // Break the file: the previous version keeps running, the error shows.
    s.reload(vec![invalid("a")], at(1));
    let st = &s.statuses(&states, at(1))[0];
    assert!(st.error.is_some(), "{st:?}");
    assert_eq!(
        st.schedule.as_deref(),
        Some("every 5m"),
        "previous version kept"
    );
    let slots = s.tick_start(&poll, Some("a"), &states, at(1), false).slots;
    assert!(matches!(&slots[0], Slot::Run(n) if n == "a"), "the kept version still runs");

    // A brand-new invalid file has nothing to keep.
    s.reload(vec![invalid("b"), invalid("a")], at(2));
    let sts = s.statuses(&states, at(2));
    assert_eq!(sts.len(), 2);
    assert!(sts[1].schedule.is_none() && sts[1].error.is_some());
    let slots = s.tick_start(&poll, Some("b"), &states, at(2), false).slots;
    assert_eq!(outcome(&slots[0]), RunOutcome::Invalid);

    // Removing a file removes the job.
    s.reload(vec![invalid("b")], at(3));
    assert_eq!(s.statuses(&states, at(3)).len(), 1);
}

#[test]
fn overdue_on_start_runs_once_and_missed_runs_are_not_replayed() {
    let mut s = Scheduler::new(false);
    s.reload(vec![valid("a")], at(0));
    let overdue = JobState {
        last_run_at: Some(at(-3 * 3600)),
        last_ok_at: Some(at(-3 * 3600)),
        ..never_ran("a")
    };
    let states = vec![overdue];
    let slots = s.tick_start(&poll, None, &states, at(0), false).slots;
    assert_eq!(outcome(&slots[0]), RunOutcome::Ran, "three hours overdue: runs once");
    let states = vec![JobState {
        last_run_at: Some(at(0)),
        ..never_ran("a")
    }];
    let slots = s.tick_start(&poll, None, &states, at(1), false).slots;
    assert_eq!(outcome(&slots[0]), RunOutcome::NotDue, "not 36 times");
    assert_eq!(s.statuses(&states, at(1))[0].next_due, Some(at(300)));
}

#[test]
fn a_new_every_job_runs_now_but_a_new_cron_job_waits() {
    let mut s = Scheduler::new(false);
    let cron = Loaded::Valid(Job {
        schedule: Schedule::Cron(CronExpr::parse("0 0 1 1 *").unwrap()),
        ..job("c")
    });
    s.reload(vec![valid("e"), cron], at(0));
    let states: Vec<JobState> = vec![];
    let slots = s.tick_start(&poll, None, &states, at(0), false).slots;
    assert_eq!(outcome(&slots[1]), RunOutcome::Ran);
    assert_eq!(outcome(&slots[0]), RunOutcome::NotDue);
    let sts = s.statuses(&states, at(0));
    assert_eq!(sts[0].name, "c", "in the order of the names");
    assert!(sts[0].next_due.unwrap() > at(0));
    assert_eq!(sts[0].schedule.as_deref(), Some("cron 0 0 1 1 *"));
}

#[test]
fn backoff_gates_a_due_job() {
    let mut s = Scheduler::new(false);
    s.reload(vec![valid("a")], at(0));
    let states = vec![JobState {
        failures: 1,
        backoff_until: Some(at(30)),
        ..never_ran("a")
    }];
    let first = |only: Option<&str>, now: Timestamp| {
        outcome(&s.tick_start(&poll, only, &states, now, false).slots[0])
    };
    assert_eq!(first(None, at(0)), RunOutcome::NotDue);
    assert_eq!(first(None, at(31)), RunOutcome::Ran);
    assert_eq!(first(Some("a"), at(0)), RunOutcome::Ran, "--job forces it regardless");
}

#[test]
fn an_elapsed_backoff_retries_before_the_next_interval() {
    let mut j = job("j");
    j.schedule = Schedule::Every(Duration::from_secs(3600));
    let failed = JobState {
        last_run_at: Some(at(0)),
        failures: 1,
        backoff_until: Some(at(60)),
        ..never_ran("j")
    };
    assert_eq!(due_of(&j, Some(&failed), None, at(30)), Due::At(at(60)));
    assert_eq!(
        due_of(&j, Some(&failed), None, at(120)),
        Due::Now,
        "the retry is due when the backoff ends, not an hour after the failure"
    );
    // Once a run succeeds (backoff cleared), the interval rules again.
    let ok = JobState {
        last_run_at: Some(at(0)),
        ..never_ran("j")
    };
    assert!(matches!(due_of(&j, Some(&ok), None, at(120)), Due::At(_)));
    j.enabled = false;
    assert_eq!(due_of(&j, Some(&ok), None, at(7200)), Due::Never);
    assert_eq!(Due::Now.at(at(5)), Some(at(5)));
    assert_eq!(Due::Never.at(at(5)), None);
}

#[test]
fn unknown_job_on_tick_is_reported() {
    let s = Scheduler::new(false);
    let slots = s.tick_start(&poll, Some("ghost"), &vec![], at(0), false).slots;
    assert_eq!(slots.len(), 1);
    match &slots[0] {
        Slot::Ready(r) => {
            assert_eq!(r.outcome, RunOutcome::Unknown);
            assert_eq!(r.error.as_deref(), Some("no job named \"ghost\""));
        }
        other => panic!("{other:?}"),
    }
}

/// A run that is still going is skipped, a disabled job does not run, and one
/// whose connector is not there is invalid; a name forces all but the last.
#[test]
fn what_keeps_a_job_from_running() {
    let mut s = Scheduler::new(false);
    let off = Loaded::Valid(Job {
        enabled: false,
        ..job("off")
    });
    s.reload(vec![valid("a"), off], at(0));
    s.run_started("a".into());
    let states: Vec<JobState> = vec![];
    let slots = s.tick_start(&poll, None, &states, at(0), false).slots;
    assert_eq!(outcome(&slots[0]), RunOutcome::Skipped);
    assert_eq!(outcome(&slots[1]), RunOutcome::Disabled);
    let forced = s.tick_start(&poll, Some("off"), &states, at(0), false).slots;
    assert_eq!(outcome(&forced[0]), RunOutcome::Ran);
    let gone = |_: &String, _: &String| -> Option<bool> { None };
    let slots = s.tick_start(&gone, Some("a"), &states, at(0), false).slots;
    assert_eq!(outcome(&slots[0]), RunOutcome::Invalid);

    let steps = s.pass(&states, at(0));
    assert_eq!(steps.len(), 1);
    assert!(matches!(&steps[0], PassStep::Skip(n) if n == "a"));
    assert!(s.statuses(&states, at(0))[0].running);

    let mut alone = Scheduler::new(true);
    alone.reload(vec![valid("a")], at(0));
    let stream = |_: &String, _: &String| -> Option<bool> { Some(true) };
    let slots = alone.tick_start(&stream, None, &states, at(0), false).slots;
    assert_eq!(outcome(&slots[0]), RunOutcome::Failed, "only under serve");
    let steps = alone.pass(&states, at(0));
    assert!(matches!(&steps[0], PassStep::Start(n) if n == "a"));
}

#[test]
fn a_job_is_fired_by_name() {
    let mut s = Scheduler::new(false);
    s.reload(vec![valid("a"), invalid("b")], at(0));
    let (said, j) = s.fire(&poll, "a").unwrap();
    assert_eq!(said, "started job a");
    assert_eq!(j.name, "a");
    assert_eq!(
        s.fire(&poll, "b").unwrap_err(),
        "no job named \"b\" (or its file has never parsed)"
    );
    let gone = |_: &String, _: &String| -> Option<bool> { None };
    assert_eq!(
        s.fire(&gone, "a").unwrap_err(),
        "connector \"scripted\" is not available"
    );
}

#[test]
fn a_run_without_a_report_panicked() {
    let r = collected("a", None);
    assert_eq!((r.outcome, r.error.as_deref()), (RunOutcome::Failed, Some("the run panicked")));
    let r = collected("a", Some(JobRunReport::new("a", RunOutcome::Ran)));
    assert_eq!(r.outcome.name(), "ran");
}

/// An unchanged directory is not read again; any edit of a job file, or being told to
/// forget, has it read.
#[test]
fn an_unchanged_directory_is_not_reloaded() {
    let mark = |name: &str, at: i128, len: u64| FileMark {
        name: name.into(),
        modified: Some(at),
        len,
    };
    let look = |b_at: i128| {
        vec![
            mark("b.toml", b_at, 5),
            mark("notes.md", 9, 9),
            mark(".toml", 1, 1),
            mark("a.toml", 1, 5),
        ]
    };
    let names: Vec<String> = fingerprint(look(1)).into_iter().map(|m| m.name).collect();
    assert_eq!(names, vec!["a.toml", "b.toml"]);
    let mut files = JobFiles::new();
    assert!(files.changed(look(1)), "first load counts as a change");
    assert!(!files.changed(look(1)));
    let turned: Vec<FileMark> = look(1).into_iter().rev().collect();
    assert!(!files.changed(turned), "listed in another order");
    assert!(!files.changed(vec![mark("a.toml", 1, 5), mark("b.toml", 1, 5)]), "notes removed");
    assert!(files.changed(look(2)), "written since");
    assert!(files.changed(vec![mark("a.toml", 1, 5)]), "removed");
    files.forget();
    assert!(files.changed(vec![mark("a.toml", 1, 5)]));
}

/// A second look with nothing changed on disk reads no file and changes no job, and one
/// that fails leaves the jobs as they are.
#[test]
fn a_second_reload_with_nothing_changed_does_nothing() {
    let mark = |name: &str, len: u64| FileMark {
        name: name.into(),
        modified: Some(1),
        len,
    };
    let mut s = Scheduler::new(false);
    let mut files = JobFiles::new();
    let reads = RefCell::new(0);
    let load = || {
        *reads.borrow_mut() += 1;
        Ok(vec![valid("a"), valid("b")])
    };
    let listing = vec![mark("a.toml", 5), mark("b.toml", 5)];
    match s.reload_changed(&mut files, listing, &load, at(0)) {
        Reread::Taken(used) => {
            let names: Vec<&str> = used.iter().map(|u| u.job.as_str()).collect();
            assert_eq!(names, vec!["a", "b"]);
        }
        other => panic!("{other:?}"),
    }
    let listing = vec![mark("b.toml", 5), mark("a.toml", 5)];
    let again = s.reload_changed(&mut files, listing, &load, at(60));
    assert!(matches!(again, Reread::Unchanged), "{again:?}");
    assert_eq!(*reads.borrow(), 1);
    let states: Vec<JobState> = vec![];
    assert_eq!(s.statuses(&states, at(60)).len(), 2);
    assert!(s.first_seen.iter().all(|f| f.at == at(0)));

    let fails = || Err("permission denied".to_string());
    let listing = vec![mark("a.toml", 6)];
    let got = s.reload_changed(&mut files, listing, &fails, at(90));
    assert!(matches!(&got, Reread::Failed(e) if e == "permission denied"), "{got:?}");
    assert_eq!(s.statuses(&states, at(90)).len(), 2, "the jobs stay as they are");
}

/// What a tick queued is placed once, after all its runs; a dry run places nothing.
#[test]
fn a_dry_tick_dispatches_nothing() {
    let mut s = Scheduler::new(false);
    s.reload(vec![valid("a")], at(0));
    let states: Vec<JobState> = vec![];
    let tick = s.tick_start(&poll, None, &states, at(0), false);
    assert!(tick.dispatch);
    let dry = s.tick_start(&poll, None, &states, at(0), true);
    assert!(!dry.dispatch);
    assert_eq!(dry.slots.len(), tick.slots.len());
    let none = s.tick_start(&poll, Some("ghost"), &states, at(0), false);
    assert!(none.dispatch, "whatever the runs came to");

    let mut report = JobRunReport::new("a", RunOutcome::Ran);
    assert!(!dispatch_follows(&report, false), "nothing was queued");
    report.created.push("t-1".into());
    assert!(dispatch_follows(&report, false));
    assert!(!dispatch_follows(&report, true));
}

/// A dry run counts no failure, however many there were.
#[test]
fn a_dry_run_counts_no_failure() {
    let store = FakeStore::default();
    *store.state.borrow_mut() = Some(JobState {
        failures: u32::MAX,
        ..never_ran("j")
    });
    let end = store.run(&job("j"), Err("boom".into()), at(0), true);
    assert_eq!(end.report.outcome, RunOutcome::Failed);
    assert_eq!(end.report.error.as_deref(), Some("boom"));
    assert!(end.save.is_none());
    assert_eq!(store.saved().failures, u32::MAX);
}

// ---------------------------------------------------------------------------
// Tasks queued for long

fn queued(id: i64, machine: Option<&str>) -> QueuedTask {
    QueuedTask {
        id,
        machine: machine.map(|m| m.to_string()),
        created_at: at(0),
    }
}

#[test]
fn queued_over_an_hour_is_warned_once() {
    let mut warned = HashSet::new();
    let tasks = vec![queued(4, None)];
    let machines: Vec<String> = vec![];
    assert_eq!(warn_long_queued(&mut warned, &tasks, &machines, at(0)), vec![]);
    assert!(warned.is_empty(), "fresh tasks are not warned about");
    let later = at(7200);
    let said = warn_long_queued(&mut warned, &tasks, &machines, later);
    assert_eq!(said, vec![(4, QueuedWhy::Long)]);
    assert_eq!(warn_long_queued(&mut warned, &tasks, &machines, later), vec![]);
    assert_eq!(warned.len(), 1);
    assert!(warned.contains(&4));
}

#[test]
fn warned_queued_forgets_tasks_that_left_the_queue() {
    let mut warned = HashSet::new();
    let later = at(7200);
    warn_long_queued(&mut warned, &vec![queued(4, None)], &vec![], later);
    assert!(warned.contains(&4));
    // Dispatched: claimed off the queue.
    warn_long_queued(&mut warned, &vec![], &vec![], later);
    assert!(warned.is_empty(), "{warned:?}");
}

/// No dispatch pass can place a task pinned to a machine the flock does not have,
/// so it is warned about on the next pass, once.
#[test]
fn a_task_pinned_to_a_missing_machine_is_warned_at_once() {
    let mut warned = HashSet::new();
    let tasks = vec![queued(4, Some("gone")), queued(5, Some("here"))];
    let machines = vec!["here".to_string()];
    let said = warn_long_queued(&mut warned, &tasks, &machines, at(0));
    assert_eq!(
        said,
        vec![(4, QueuedWhy::NoMachine)],
        "no hour's wait for a machine that is not there"
    );
    warn_long_queued(&mut warned, &tasks, &machines, at(0));
    assert_eq!(warned.len(), 1);
}
