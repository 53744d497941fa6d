//! What the commands decide and say.

use pastor::cli::attach;
use pastor::cli::attach_remote_command;
use pastor::cli::attach_target;
use pastor::cli::command_argv;
use pastor::cli::head_use;
use pastor::cli::herdr_failed;
use pastor::cli::herdr_note;
use pastor::cli::herdr_removal;
use pastor::cli::hostname;
use pastor::cli::list_empty_hint;
use pastor::cli::list_shown;
use pastor::cli::list_shows_orphans;
use pastor::cli::list_states;
use pastor::cli::machine_shown;
use pastor::cli::open;
use pastor::cli::probe_fields;
use pastor::cli::probe_head;
use pastor::cli::probe_machine;
use pastor::cli::reload_running_head;
use pastor::cli::request_failure;
use pastor::cli::run_spec;
use pastor::cli::saved_machine_id;
use pastor::cli::saved_machines_at;
use pastor::cli::toggled;
use pastor::cli::Asks;
use pastor::cli::Defaults;
use pastor::cli::FlockEdit;
use pastor::cli::Head;
use pastor::cli::HeadPing;
use pastor::cli::HerdrNote;
use pastor::cli::HerdrRemoval;
use pastor::cli::ListArgs;
use pastor::cli::ListShown;
use pastor::cli::Pong;
use pastor::cli::Reach;
use pastor::cli::RequestError;
use pastor::cli::RunArgs;
use pastor::machine::calls::Failure;
use pastor::machine::life::MIN_HERDR_PROTOCOL;
use pastor::task::AgentInfo;
use pastor::task::AgentStatus;
use pastor::task::DispatchSpec;
use pastor::task::Place;
use pastor::task::Task;
use pastor::task::TaskState;
use pastor::task::Words;
use pastor::time::Duration;
use pastor::time::Timestamp;

fn run_args() -> RunArgs {
    RunArgs {
        repo: None,
        machine: None,
        agent: None,
        agent_args: vec![],
        worktree: false,
        branch: None,
        tags: vec![],
        timeout: None,
    }
}

#[test]
fn run_agent_args_fall_back_to_defaults_only_when_none_are_given() {
    let defaults = Defaults {
        agent: "codex".into(),
        agent_args: vec!["--model".into(), "sonnet-5".into()],
        timeout: Duration::from_secs(3600),
    };
    let spec = run_spec(&run_args(), &defaults).unwrap();
    assert_eq!(spec.agent_args.list(), vec!["--model", "sonnet-5"]);
    let mut a = run_args();
    a.agent_args = vec!["--verbose".into()];
    let spec = run_spec(&a, &defaults).unwrap();
    assert_eq!(spec.agent_args.list(), vec!["--verbose"]);
}

/// What a flag gives is taken, and the rest comes from the defaults.
#[test]
fn a_run_takes_its_flags_before_the_defaults() {
    let defaults = Defaults {
        agent: "codex".into(),
        agent_args: vec![],
        timeout: Duration::from_secs(3600),
    };
    let spec = run_spec(&run_args(), &defaults).unwrap();
    assert_eq!((spec.agent.as_str(), spec.timeout_secs), ("codex", 3600));
    let mut a = run_args();
    a.agent = Some("other".into());
    a.timeout = Some("90s".into());
    a.worktree = true;
    a.repo = Some("~/x".into());
    let spec = run_spec(&a, &defaults).unwrap();
    assert_eq!((spec.agent.as_str(), spec.timeout_secs), ("other", 90));
    assert!(spec.worktree);
    assert_eq!(spec.repo.as_deref(), Some("~/x"));
    a.tags = vec!["gpu".into(), "big".into()];
    let spec = run_spec(&a, &defaults).unwrap();
    assert_eq!(spec.tags.list(), vec!["gpu", "big"]);
    assert!(spec.agent_args.list().is_empty());
    a.timeout = Some("soon".into());
    assert!(run_spec(&a, &defaults).is_err());
}

/// What a connection that failed this way says of the head.
fn connect_error(kind: std::io::ErrorKind) -> RequestError {
    match kind {
        std::io::ErrorKind::ConnectionRefused | std::io::ErrorKind::NotFound => RequestError::NoHead,
        _ => RequestError::Connect(std::io::Error::from(kind).to_string()),
    }
}

#[test]
fn a_busy_head_is_a_timeout_not_a_missing_daemon() {
    let (code, message) = request_failure(&RequestError::Timeout(Duration::from_secs(120)));
    assert_eq!(code, "timeout");
    assert!(message.contains("did not answer within 120s"), "{message}");
    assert!(message.contains("may still complete"), "{message}");
    assert!(message.contains("pastor task list"), "{message}");
    assert!(message.contains("pastor job list"), "{message}");
    assert!(!message.contains("retry"), "{message}");
    assert!(!message.contains("try again"), "{message}");
    assert!(!message.contains("not running"), "{message}");

    for kind in [
        std::io::ErrorKind::ConnectionRefused,
        std::io::ErrorKind::NotFound,
    ] {
        let (code, message) = request_failure(&connect_error(kind));
        assert_eq!(code, "runtime_error");
        assert!(message.contains("not running"), "{kind:?}: {message}");
        assert!(message.contains("start it with"), "{kind:?}: {message}");
    }
    let (code, message) = request_failure(&RequestError::Exchange("eof".into()));
    assert_eq!((code, message.as_str()), ("runtime_error", "eof"));
}

#[test]
fn a_connect_that_is_not_refused_does_not_say_the_head_is_down() {
    for kind in [
        std::io::ErrorKind::PermissionDenied,
        std::io::ErrorKind::Other,
    ] {
        let (code, message) = request_failure(&connect_error(kind));
        assert_eq!(code, "runtime_error");
        assert!(!message.contains("not running"), "{kind:?}: {message}");
        assert!(!message.contains("start it"), "{kind:?}: {message}");
        assert!(message.contains("could not connect"), "{kind:?}: {message}");
    }
}

fn list_args(argv: &[&str]) -> ListArgs {
    let mut a = ListArgs {
        job: None,
        flock: None,
        machine: None,
        blocked: false,
        done: false,
        all: false,
        json: false,
    };
    let mut words = argv.iter();
    while let Some(w) = words.next() {
        match *w {
            "--job" => a.job = words.next().map(|s| s.to_string()),
            "--machine" => a.machine = words.next().map(|s| s.to_string()),
            "--blocked" => a.blocked = true,
            "--done" => a.done = true,
            "--all" => a.all = true,
            "--json" => a.json = true,
            other => panic!("{other}"),
        }
    }
    a
}

#[test]
fn orphans_show_only_when_state_and_job_are_not_filtered() {
    for argv in [
        &[][..],
        &["--all"],
        &["--machine", "a"],
        &["--all", "--machine", "a"],
    ] {
        assert!(list_shows_orphans(&list_args(argv)), "{argv:?}");
    }
    for argv in [
        &["--blocked"][..],
        &["--done"],
        &["--job", "j"],
        &["--all", "--job", "j"],
    ] {
        assert!(!list_shows_orphans(&list_args(argv)), "{argv:?}");
    }
}

#[test]
fn default_list_shows_only_live_tasks() {
    let states = list_states(&list_args(&[])).expect("the default view filters");
    assert_eq!(
        states,
        vec![
            TaskState::Queued,
            TaskState::Starting,
            TaskState::Running,
            TaskState::Blocked,
        ]
    );
    for s in [
        TaskState::Done,
        TaskState::Failed,
        TaskState::Stale,
        TaskState::Closed,
    ] {
        assert!(!states.contains(&s), "{s:?} is finished, not live");
    }
    // `--job` and `--machine` narrow the live set; they do not widen it.
    let a = list_args(&["--job", "hourly", "--machine", "pi-3"]);
    assert_eq!(list_states(&a), Some(states));
    assert!(list_empty_hint(&a).is_some());
}

#[test]
fn list_all_shows_every_state() {
    assert_eq!(list_states(&list_args(&["--all"])), None);
    assert_eq!(list_states(&list_args(&["--all", "--job", "hourly"])), None);
    assert_eq!(list_empty_hint(&list_args(&["--all"])), None);
}

#[test]
fn list_blocked_and_done_stay_single_state_views() {
    let blocked = list_args(&["--blocked"]);
    assert_eq!(list_states(&blocked), Some(vec![TaskState::Blocked]));
    assert_eq!(list_empty_hint(&blocked), None);
    let done = list_args(&["--done"]);
    assert_eq!(list_states(&done), Some(vec![TaskState::Done]));
    assert_eq!(list_empty_hint(&done), None);
}

#[test]
fn empty_default_list_points_at_all() {
    assert_eq!(
        list_empty_hint(&list_args(&[])),
        Some("no live tasks; pastor task list --all shows finished ones")
    );
    assert_eq!(
        list_empty_hint(&list_args(&["--json"])),
        list_empty_hint(&list_args(&[]))
    );
}

fn pong() -> Pong {
    Pong {
        version: "0.9.1".into(),
        protocol: MIN_HERDR_PROTOCOL,
    }
}

fn api_error() -> Failure {
    Failure {
        code: Some("internal_error".into()),
        transport: false,
        message: "internal_error: boom".into(),
    }
}

#[test]
fn agent_list_failure_is_surfaced_not_hidden_as_zero_agents() {
    let f = probe_fields(Ok(pong()), Some(Err(api_error())));
    assert_eq!(f.channel, "probed", "herdr answered the ping");
    assert_eq!(f.herdr_version, Some("0.9.1".into()));
    assert_eq!(f.protocol, Some(MIN_HERDR_PROTOCOL));
    assert_eq!(f.agents, None, "agent count must show as absent, not zero");
    let error = f.error.expect("the agent.list error must be surfaced");
    assert!(error.contains("boom"), "{error}");
}

#[test]
fn agent_list_success_reads_as_probed() {
    let f = probe_fields(Ok(pong()), Some(Ok(3)));
    assert_eq!(f.channel, "probed");
    assert_eq!(f.agents, Some(3));
    assert_eq!(f.error, None);
}

#[test]
fn an_old_herdr_is_probed_with_the_protocol_as_its_error() {
    let old = Pong {
        version: "0.8.0".into(),
        protocol: MIN_HERDR_PROTOCOL - 1,
    };
    let f = probe_fields(Ok(old), Some(Ok(0)));
    assert_eq!(f.channel, "probed");
    assert!(f.error.unwrap().starts_with("protocol "));
}

#[test]
fn a_failed_ping_is_unreachable_with_the_reason() {
    let err = Failure {
        code: None,
        transport: true,
        message: "connection closed".into(),
    };
    let f = probe_fields(Err(err), None);
    assert_eq!(f.channel, "unreachable");
    assert_eq!(f.herdr_version, None);
    assert_eq!(f.protocol, None);
    assert_eq!(f.agents, None);
    assert!(f.error.is_some());
}

/// A `Local` endpoint's own connect error names its `herdr.sock`; that reads as
/// `server down`, not the generic `unreachable` a network failure gets.
#[test]
fn a_local_connect_failure_naming_its_socket_reads_as_server_down() {
    let err = Failure {
        code: None,
        transport: true,
        message: "connect /home/fake/.config/herdr/herdr.sock: connection refused".into(),
    };
    let f = probe_fields(Err(err), None);
    assert_eq!(f.channel, "server down");
    assert!(f.error.unwrap().contains("herdr.sock"));
}

/// A ping that fails without being a transport failure (herdr answered
/// with an API error rather than the connection dying) is `error`, not
/// `unreachable`.
#[test]
fn a_non_transport_ping_failure_reads_as_error() {
    let f = probe_fields(Err(api_error()), None);
    assert_eq!(f.channel, "error");
    assert!(f.error.unwrap().contains("boom"));
}

/// `--command` is one value, split at its white space.
#[test]
fn machine_add_command_is_one_value() {
    let command = Some("fake-herdr --connect /tmp/h.sock".to_string());
    assert_eq!(
        command.as_deref().map(command_argv),
        Some(vec![
            "fake-herdr".to_string(),
            "--connect".into(),
            "/tmp/h.sock".into()
        ])
    );
    assert_eq!(command_argv("  a\t b\u{a0}c \n"), vec!["a", "b", "c"]);
    assert!(command_argv(" \t").is_empty());
}

/// `herdr machine remove` wants the profile id; pastor knows the label.
/// `herdr machine list` prints `id<TAB>label<TAB>target<TAB>session<TAB>enabled`.
#[test]
fn saved_machine_id_matches_the_label_column() {
    let list = "id-1\tother\tx@y\tdefault\tenabled\nid-2\tpi-3\tfleet@pi-3\tdefault\tenabled\n";
    assert_eq!(saved_machine_id(list, "pi-3").as_deref(), Some("id-2"));
    assert_eq!(
        saved_machine_id(list, "fleet@pi-3"),
        None,
        "a target is not a label"
    );
    assert_eq!(
        saved_machine_id(list, "id-1"),
        None,
        "an id is not a label either"
    );
    assert_eq!(saved_machine_id("", "pi-3"), None);
    assert_eq!(saved_machine_id("No saved SSH machines.\n", "pi-3"), None);
}

/// When no label matches, the hint lists every saved machine that points at
/// the removed machine's SSH target, so the user can see what herdr calls it.
#[test]
fn saved_machines_at_target_lists_id_and_label() {
    let list = "id-1\tother\tx@y\tdefault\tenabled\nid-2\tpi-3\tfleet@pi-3\tdefault\tenabled\nid-3\tpi-3-alt\tfleet@pi-3\twork\tenabled\n";
    assert_eq!(
        saved_machines_at(list, "fleet@pi-3"),
        vec![
            ("id-2".to_string(), "pi-3".to_string()),
            ("id-3".to_string(), "pi-3-alt".to_string())
        ]
    );
    assert!(
        saved_machines_at(list, "pi-3").is_empty(),
        "a label is not a target"
    );
    assert!(saved_machines_at("No saved SSH machines.\n", "x@y").is_empty());
}

#[test]
fn attach_remote_command_quotes_session_and_agent() {
    assert_eq!(
        attach_remote_command("my session", "t-1"),
        "herdr --session 'my session' agent attach t-1"
    );
    assert_eq!(
        attach_remote_command("o'brien's box", "t-2"),
        "herdr --session 'o'\\''brien'\\''s box' agent attach t-2"
    );
    assert_eq!(
        attach_remote_command("default", "t-3"),
        "herdr --session default agent attach t-3"
    );
    // An empty session name must still quote to `''`, not to nothing, or the
    // remote shell would see `agent` where it expects the session argument.
    assert_eq!(
        attach_remote_command("", "t-1"),
        "herdr --session '' agent attach t-1"
    );
}

// ---------------------------------------------------------------------------
// The head

#[test]
fn a_head_that_does_not_answer_is_an_error() {
    let probe = |ping, flocks| probe_head(ping, flocks, 3, "/run/pastor.sock");
    let pong = |protocol| HeadPing::Pong {
        protocol,
        version: "0.2.0".into(),
    };
    assert_eq!(probe(HeadPing::NotRunning, true).unwrap(), Head::Absent);
    assert_eq!(probe(pong(3), true).unwrap(), Head::Live);
    assert_eq!(probe(pong(2), false).unwrap(), Head::Live);
    let old = probe(pong(2), true).unwrap_err();
    assert_eq!(old.code, "head_too_old");
    assert!(old.message.contains("(0.2.0) predates flocks"), "{}", old.message);
    let silent = probe(HeadPing::Unresponsive, false).unwrap_err();
    assert_eq!(silent.code, "head_unresponsive");
    assert!(silent.message.contains("/run/pastor.sock"), "{}", silent.message);
}

#[test]
fn which_commands_ask_the_head() {
    assert_eq!(head_use(Asks::TaskWithFlock { flock: true }), Some(true));
    assert_eq!(head_use(Asks::Task), Some(false));
    assert_eq!(head_use(Asks::MachineList { flock: false }), Some(false));
    assert_eq!(head_use(Asks::MachineEdit), Some(true));
    assert_eq!(head_use(Asks::FlockEdit), Some(true));
    assert_eq!(head_use(Asks::FlockList), Some(false));
    assert_eq!(head_use(Asks::PluginEdit), Some(false));
    assert_eq!(head_use(Asks::PluginLook), None);
    assert_eq!(head_use(Asks::Other), None);
}

#[test]
fn what_is_said_of_the_head() {
    assert_eq!(reload_running_head(Head::Absent, false), "start pastor serve to use it");
    assert_eq!(
        reload_running_head(Head::Live, true),
        "the running pastor serve picked it up"
    );
    assert!(reload_running_head(Head::Live, false).contains("pastor job reload"));
    assert_eq!(toggled("a", true, Head::Live), "enabled a");
    assert_eq!(
        toggled("a", false, Head::Absent),
        "disabled a; applies when pastor serve starts"
    );
}

// ---------------------------------------------------------------------------
// Machines

fn task(state: TaskState, agent: Option<&str>) -> Task {
    Task {
        id: 3,
        job: "run".into(),
        state,
        prompt: "hi".into(),
        prompt_pending: false,
        activity_seen: false,
        machine: Some("m".into()),
        pane_id: Some("p1".into()),
        workspace_id: None,
        agent_name: agent.map(|a| a.to_string()),
        last_completion_seq: None,
        error: None,
        started_at: None,
        finished_at: None,
        updated_at: Timestamp::at_secs(0),
        spec: DispatchSpec {
            agent: "codex".into(),
            agent_args: Words::End,
            repo: None,
            worktree: false,
            branch: None,
            machine: None,
            tags: Words::End,
            timeout_secs: 60,
            checkout: None,
            place: Place::Own,
        },
    }
}

#[test]
fn only_a_live_agent_is_attached_to() {
    let target = attach_target(&task(TaskState::Running, Some("t-3"))).unwrap();
    assert_eq!(target, ("m".to_string(), "t-3".to_string()));
    let none = attach_target(&task(TaskState::Queued, None)).unwrap_err();
    assert_eq!((none.code, none.message.as_str()), ("no_agent", "t-3 has no agent yet"));
    let over = attach_target(&task(TaskState::Closed, Some("t-3"))).unwrap_err();
    assert_eq!(over.message, "t-3 is closed; nothing to attach to");
}

#[test]
fn how_a_machine_is_attached_to_and_opened() {
    let ssh = Reach {
        ssh: Some("u@h".into()),
        local: false,
        session: "my box".into(),
    };
    let p = attach(&ssh, "t-1").unwrap();
    assert_eq!(p.program, "ssh");
    assert_eq!(p.args, ["-t", "u@h", "herdr --session 'my box' agent attach t-1"]);
    let p = open(&ssh).unwrap();
    assert_eq!(p.program, "herdr");
    assert_eq!(p.args, ["--remote", "u@h", "--session", "my box"]);
    let local = Reach {
        ssh: None,
        local: true,
        session: "default".into(),
    };
    assert_eq!(
        attach(&local, "t-1").unwrap().args,
        ["--session", "default", "agent", "attach", "t-1"]
    );
    assert_eq!(open(&local).unwrap().args, ["--session", "default"]);
    let command = Reach {
        ssh: None,
        local: false,
        session: "default".into(),
    };
    assert_eq!(attach(&command, "t-1").unwrap_err().code, "no_terminal");
    assert_eq!(open(&command).unwrap_err().code, "no_terminal");
}

#[test]
fn a_flock_narrows_the_machines() {
    assert!(machine_shown("default", None));
    assert!(machine_shown("a", Some("a")));
    assert!(!machine_shown("a", Some("b")));
}

#[test]
fn herdrs_own_list_follows_the_flock_file() {
    assert!(matches!(herdr_note("pi", None, "default", true), HerdrNote::Nothing));
    match herdr_note("pi", Some("u@h"), "default", true) {
        HerdrNote::Save { args } => assert_eq!(
            args,
            ["machine", "add", "u@h", "--label", "pi", "--remote-session", "default"]
        ),
        other => panic!("{other:?}"),
    }
    match herdr_note("pi", Some("u@h"), "default", false) {
        HerdrNote::Hint(s) => assert!(s.contains("herdr machine add u@h --label pi"), "{s}"),
        other => panic!("{other:?}"),
    }
    let list = "id-1\tpi\tu@h\tdefault\tenabled\nid-2\talt\tu@h\twork\tenabled\n";
    assert!(matches!(
        herdr_removal(list, "pi", Some("u@h")),
        HerdrRemoval::Remove(id) if id == "id-1"
    ));
    match herdr_removal(list, "gone", Some("u@h")) {
        HerdrRemoval::SameHost(v) => assert_eq!(v.len(), 2),
        other => panic!("{other:?}"),
    }
    assert!(matches!(
        herdr_removal(list, "gone", None),
        HerdrRemoval::SameHost(v) if v.is_empty()
    ));
}

#[test]
fn what_is_said_of_a_flock_edit() {
    let name = || "pi".to_string();
    let said = |e: FlockEdit| e.describe();
    assert_eq!(said(FlockEdit::Add { name: name(), default: false }), "added flock pi");
    assert_eq!(
        said(FlockEdit::Add { name: name(), default: true }),
        "added flock pi, now the default"
    );
    assert_eq!(said(FlockEdit::Remove { name: name() }), "removed flock pi");
    assert_eq!(
        said(FlockEdit::Default { name: name() }),
        "pi is the default flock; machines stay in their flocks"
    );
}

/// Orphans are the agents that no open task owns.
#[test]
fn a_probe_names_the_orphans() {
    let agent = |name: &str| AgentInfo {
        name: Some(name.into()),
        pane_id: format!("pane of {name}"),
        workspace_id: "w".into(),
        agent_status: AgentStatus::Idle,
        state_change_seq: 0,
        completion_seq: None,
        launch_pending: false,
    };
    let owned = vec![task(TaskState::Running, Some("t-3"))];
    let agents = vec![agent("t-3"), agent("t-9"), agent("someone")];
    let p = probe_machine(Ok(pong()), Some(Ok(agents)), &owned);
    assert_eq!(p.fields.agents, Some(3));
    assert_eq!(p.orphans, vec!["t-9"]);
    let p = probe_machine(Err(api_error()), None, &owned);
    assert_eq!(p.fields.channel, "error");
    assert!(p.orphans.is_empty());
}

#[test]
fn a_failing_herdr_speaks_for_itself() {
    let args = vec!["machine".to_string(), "list".to_string()];
    assert_eq!(herdr_failed(&args, " no such host\n", "exit status: 1"), "herdr machine list: no such host");
    assert_eq!(herdr_failed(&args, " \n", "exit status: 1"), "herdr machine list: exit status: 1");
}

#[test]
fn the_host_is_named_by_the_first_file_that_does() {
    let files = vec![None, Some(" \n".to_string()), Some("box\n".to_string())];
    assert_eq!(hostname(&files, Some("env".into())), "box");
    assert_eq!(hostname(&vec![None], Some("env".into())), "env");
    assert_eq!(hostname(&vec![None], Some(String::new())), "-");
    assert_eq!(hostname(&vec![], None), "-");
}

#[test]
fn an_empty_list_says_so_once() {
    assert_eq!(list_shown(&list_args(&[]), true), ListShown::Nothing);
    assert_eq!(list_shown(&list_args(&["--all"]), true), ListShown::NoTasks);
    assert_eq!(list_shown(&list_args(&[]), false), ListShown::Table);
}
