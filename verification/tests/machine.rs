//! A machine's actor: its rows, its observations and its life.

use std::cell::Cell;
use std::cell::RefCell;

use pastor::machine::calls::is_outage;
use pastor::machine::calls::Cause;
use pastor::machine::calls::Failure;
use pastor::machine::calls::Reply;
use pastor::machine::chores::close_next;
use pastor::machine::chores::to_close;
use pastor::machine::chores::ChoreNext;
use pastor::machine::chores::Closing;
use pastor::machine::chores::Trust;
use pastor::machine::chores::TrustAsk;
use pastor::machine::chores::TrustEvent;
use pastor::machine::chores::TrustNext;
use pastor::machine::close_text::worktree_kept_note;
use pastor::machine::command::claimed;
use pastor::machine::command::dispatched;
use pastor::machine::command::handle_command;
use pastor::machine::command::Served;
use pastor::machine::command::read_target;
use pastor::machine::command::refreshed_version;
use pastor::machine::command::run_dispatch;
use pastor::machine::command::subscriptions;
use pastor::machine::command::version_due;
use pastor::machine::command::DispatchFault;
use pastor::machine::command::Started;
use pastor::machine::command::Subscription;
use pastor::machine::life::Announce;
use pastor::machine::life::CommandOutcome;
use pastor::machine::life::Doing;
use pastor::machine::life::Life;
use pastor::machine::life::LifeEvent;
use pastor::machine::life::PollExit;
use pastor::machine::life::Problem;
use pastor::machine::life::MIN_HERDR_PROTOCOL;
use pastor::machine::memory::orphan_agents;
use pastor::machine::memory::Memory;
use pastor::machine::observe::is_overdue;
use pastor::machine::observe::PaneEvent;
use pastor::machine::poll::PollEnd;
use pastor::machine::poll::PollEvent;
use pastor::machine::poll::PollNext;
use pastor::machine::poll::Poller;
use pastor::machine::reconcile::event_task;
use pastor::machine::reconcile::reconcile_task;
use pastor::machine::reconcile::settle_task;
use pastor::machine::reconcile::stray_event;
use pastor::machine::reconcile::Now;
use pastor::machine::reconcile::SettleToDo;
use pastor::machine::reconcile::ToDo;
use pastor::machine::rows::apply;
use pastor::machine::rows::block_on_question;
use pastor::machine::rows::write_step;
use pastor::machine::rows::write_task;
use pastor::machine::rows::Applied;
use pastor::machine::rows::WriteAsk;
use pastor::machine::rows::WriteEnd;
use pastor::machine::rows::WriteEvent;
use pastor::machine::rows::WriteNext;
use pastor::machine::rows::WriteTry;
use pastor::machine::send::keys_detail;
use pastor::machine::send::question_detail;
use pastor::machine::send::run_send;
use pastor::machine::send::SendInput;
use pastor::machine::settle::prompt_written;
use pastor::machine::settle::Held;
use pastor::machine::settle::HeldAsk;
use pastor::machine::settle::HeldEvent;
use pastor::machine::settle::HeldNext;
use pastor::machine::settle::Settle;
use pastor::machine::settle::SettleAsk;
use pastor::machine::settle::SettleEvent;
use pastor::machine::settle::SettleNext;
use pastor::machine::status::machine_event;
use pastor::machine::status::shutdown_outcome;
use pastor::machine::status::ActorStopped;
use pastor::machine::status::AgentKeys;
use pastor::machine::status::Agents;
use pastor::machine::status::ChannelState;
use pastor::machine::status::MachineSettings;
use pastor::machine::status::OrphanClosed;
use pastor::machine::status::ShutdownOutcome;
use pastor::machine::sweep::Sweep;
use pastor::machine::sweep::SweepAsk;
use pastor::machine::sweep::SweepEvent;
use pastor::machine::sweep::SweepNext;
use pastor::task::task_id_of_agent;
use pastor::task::AgentInfo;
use pastor::task::AgentStatus;
use pastor::task::Checkout;
use pastor::task::DispatchSpec;
use pastor::task::Observed;
use pastor::task::Place;
use pastor::task::Task;
use pastor::task::TaskState;
use pastor::task::Words;
use pastor::time::Duration;
use pastor::time::Timestamp;

fn settings() -> MachineSettings {
    MachineSettings {
        settle: Duration::from_millis(100),
        reconcile_every: Duration::from_millis(200),
        initial_backoff: Duration::from_millis(50),
        max_backoff: Duration::from_millis(200),
        request_timeout: Duration::from_secs(5),
        agent_ready_timeout: Duration::from_millis(500),
        poll_every: Duration::from_millis(200),
        close_done_after: None,
        version_every: Duration::from_millis(200),
        agents: Default::default(),
    }
}

fn spec() -> DispatchSpec {
    DispatchSpec {
        agent: "codex".into(),
        agent_args: Words::End,
        repo: None,
        worktree: false,
        branch: None,
        machine: None,
        tags: Words::End,
        timeout_secs: 3600,
        checkout: None,
        place: Place::Own,
    }
}

fn new_task(id: i64) -> Task {
    Task {
        id,
        job: "run".into(),
        state: TaskState::Queued,
        prompt: "hi".into(),
        prompt_pending: false,
        activity_seen: false,
        machine: None,
        pane_id: None,
        workspace_id: None,
        agent_name: None,
        last_completion_seq: None,
        error: None,
        started_at: None,
        finished_at: None,
        updated_at: Timestamp::at_secs(0),
        spec: spec(),
    }
}

/// A task whose agent runs in pane `p1` of machine `m`.
fn running(id: i64) -> Task {
    Task {
        state: TaskState::Running,
        machine: Some("m".into()),
        pane_id: Some("p1".into()),
        workspace_id: Some("w1".into()),
        agent_name: Some(format!("t-{id}")),
        last_completion_seq: Some(3),
        started_at: Some(Timestamp::at_secs(1000)),
        ..new_task(id)
    }
}

fn agent(name: &str, pane: &str, status: AgentStatus, seq: u64) -> AgentInfo {
    AgentInfo {
        name: Some(name.into()),
        pane_id: pane.into(),
        workspace_id: "w1".into(),
        agent_status: status,
        state_change_seq: seq,
        completion_seq: None,
        launch_pending: false,
    }
}

fn now_at(secs: i64, tick: u64) -> Now {
    Now {
        at: Timestamp::at_secs(secs),
        tick: Duration::from_secs(tick),
        settle: Duration::from_secs(10),
    }
}

/// The rule of a task: idle is done, working runs, blocked blocks.
fn rule(_: &Task, o: &Observed) -> Option<TaskState> {
    match o {
        Observed::Status { status, .. } => match status {
            AgentStatus::Working => Some(TaskState::Running),
            AgentStatus::Blocked => Some(TaskState::Blocked),
            AgentStatus::Idle | AgentStatus::Done => Some(TaskState::Done),
            AgentStatus::Unknown => None,
        },
        Observed::PaneExited { agent_idle: true } => Some(TaskState::Done),
        _ => Some(TaskState::Failed),
    }
}

/// Rows with a version each, as the store keeps them.
struct FakeStore {
    rows: RefCell<Vec<(Task, u64)>>,
}

impl FakeStore {
    fn with(t: &Task) -> FakeStore {
        FakeStore {
            rows: RefCell::new(vec![(t.clone(), 0)]),
        }
    }

    fn read(&self, id: i64) -> Option<(Task, u64)> {
        self.rows.borrow().iter().find(|r| r.0.id == id).cloned()
    }

    fn update(&self, t: Task, version: u64) -> WriteEvent {
        let mut rows = self.rows.borrow_mut();
        let row = rows.iter_mut().find(|r| r.0.id == t.id).unwrap();
        if row.1 != version {
            return WriteEvent::Conflict;
        }
        *row = (t.clone(), version + 1);
        WriteEvent::Updated(t)
    }

    fn overwrite(&self, id: i64, change: impl Fn(&mut Task)) {
        let mut rows = self.rows.borrow_mut();
        let row = rows.iter_mut().find(|r| r.0.id == id).unwrap();
        change(&mut row.0);
        row.1 += 1;
    }

    /// Write `change` to the row that was read at `version`.
    fn write<C: Fn(Task) -> Option<Task>>(&self, task: Task, version: u64, change: &C) -> WriteEnd {
        let id = task.id;
        let mut version = version;
        let mut next = write_task(task, change);
        loop {
            let (attempt, ask) = match next {
                WriteNext::End(end) => return end,
                WriteNext::Ask(attempt, ask) => (attempt, ask),
            };
            let ev = match ask {
                WriteAsk::Update(row) => self.update(row, version),
                WriteAsk::Reread(id) => match self.read(id) {
                    Some((row, v)) => {
                        version = v;
                        WriteEvent::Row(Some(row))
                    }
                    None => WriteEvent::Row(None),
                },
            };
            next = write_step(id, attempt, ev, change);
        }
    }
}

/// A retry drops `spec.branch` and reopens the checkout of the task it
/// retries; the note must name that checkout's branch, where the work is.
#[test]
fn a_kept_worktree_note_names_the_checkout_branch() {
    let mut t = new_task(9);
    t.spec.branch = None;
    t.spec.checkout = Some(Checkout {
        branch: "pastor/t-4".into(),
        path: "/w/t-4".into(),
        already_open: false,
    });
    let note = worktree_kept_note(&t, "t-9", "commits on no remote");
    assert!(note.contains("on branch pastor/t-4"), "{note}");
}

/// `agent_ready_timeout` has to stay under `request_timeout`, which bounds a
/// whole dispatch: otherwise the readiness wait is cut short by the outer
/// timeout and reported as a wedged machine instead of an agent that never
/// came up. Pinned for the shipped defaults and for the test settings above.
#[test]
fn ready_timeout_stays_under_the_request_timeout() {
    for s in [MachineSettings::default(), settings()] {
        assert!(
            s.agent_ready_timeout < s.request_timeout,
            "{:?} >= {:?}",
            s.agent_ready_timeout,
            s.request_timeout
        );
    }
}

#[test]
fn settings_compare_by_value() {
    assert_eq!(MachineSettings::default(), MachineSettings::default());
    assert_ne!(settings(), MachineSettings::default());
}

/// Someone else wrote the row (task close, retry) between our read and
/// our write: the change is re-applied to the fresh row, keeping their
/// fields.
#[test]
fn write_task_retries_a_conflict_once_on_the_fresh_row() {
    let t = new_task(1);
    let store = FakeStore::with(&t);
    let stale = t.clone();
    store.overwrite(1, |t| t.error = Some("written by someone else".into()));

    let written = match store.write(stale, 0, &|t: Task| {
        Some(Task {
            state: TaskState::Stale,
            ..t
        })
    }) {
        WriteEnd::Written(t) => t,
        other => panic!("the fresh row still wanted the change: {other:?}"),
    };
    assert_eq!(written.state, TaskState::Stale);
    assert_eq!(written.error.as_deref(), Some("written by someone else"));
    assert_eq!(store.read(1).unwrap().0.state, TaskState::Stale);
}

/// A row that moved on to a state the change does not apply to is left
/// alone: a task closed meanwhile is never reopened.
#[test]
fn write_task_leaves_a_row_that_moved_on() {
    let t = new_task(1);
    let store = FakeStore::with(&t);
    let stale = t.clone();
    // What `pastor task close` does, outside the actor.
    store.overwrite(1, |t| {
        t.state = TaskState::Closed;
        t.finished_at = Some(Timestamp::at_secs(5));
    });
    let written = store.write(stale, 0, &|t: Task| {
        if t.state == TaskState::Closed {
            None
        } else {
            Some(Task {
                state: TaskState::Stale,
                ..t
            })
        }
    });
    assert!(matches!(written, WriteEnd::Nothing));
    assert_eq!(store.read(1).unwrap().0.state, TaskState::Closed);
}

/// The retried write carries what the change set on the fresh row,
/// `activity_seen` included, and stores it.
#[test]
fn write_task_stores_the_activity_flag_on_the_retry() {
    let mut t = new_task(1);
    t.prompt_pending = true;
    let store = FakeStore::with(&t);
    let stale = t.clone();
    store.overwrite(1, |t| t.error = Some("written by someone else".into()));

    let written = store.write(stale, 0, &|t: Task| {
        Some(Task {
            prompt_pending: false,
            activity_seen: true,
            ..t
        })
    });
    assert!(matches!(written, WriteEnd::Written(t) if t.activity_seen));
    let row = store.read(1).unwrap().0;
    assert!(!row.prompt_pending);
    assert!(row.activity_seen);
}

/// A second conflict is not retried again: it is returned to the caller.
#[test]
fn write_task_returns_a_second_conflict() {
    let t = new_task(1);
    let store = FakeStore::with(&t);
    let stale = t.clone();
    store.overwrite(1, |_| {});
    let calls = Cell::new(0);
    let end = store.write(stale, 0, &|t: Task| {
        calls.set(calls.get() + 1);
        if calls.get() == 2 {
            // Someone writes again between the re-read and the retry.
            store.overwrite(t.id, |_| {});
        }
        Some(Task {
            state: TaskState::Stale,
            ..t
        })
    });
    assert!(matches!(end, WriteEnd::Conflict));
    assert_eq!(calls.get(), 2);
}

/// A row that is gone ends the write, and so does a store that fails.
#[test]
fn a_row_that_is_gone_wants_no_change() {
    let change = |t: Task| Some(t);
    assert!(matches!(
        write_step(1, WriteTry::Reading, WriteEvent::Row(None), &change),
        WriteNext::End(WriteEnd::Nothing)
    ));
    assert!(matches!(
        write_step(1, WriteTry::First, WriteEvent::Failed("disk".into()), &change),
        WriteNext::End(WriteEnd::Failed(e)) if e == "disk"
    ));
}

#[test]
fn only_task_shaped_names_are_task_agents() {
    assert_eq!(task_id_of_agent("t-12"), Some(12));
    for name in ["12", "t-", "t-1a", "t-+1", "x-1", "t-1 "] {
        assert_eq!(task_id_of_agent(name), None, "{name:?}");
    }
}

/// `task close t-01` parses id 1 and looks for `t-1`, so an agent named
/// `t-01` reported as an orphan could never be closed. Only the names
/// `Task::agent_name_for` makes count.
#[test]
fn only_canonical_task_names_are_orphans() {
    for name in ["t-01", "t-007", "t-0", "t-00"] {
        assert_eq!(task_id_of_agent(name), None, "{name:?}");
    }
    let agents = [
        agent("t-01", "p1", AgentStatus::Idle, 0),
        agent("t-0", "p2", AgentStatus::Idle, 0),
        agent("t-3", "p3", AgentStatus::Idle, 0),
    ];
    assert_eq!(
        orphan_agents(&agents, &[]),
        vec![("t-3".to_string(), "p3".to_string())]
    );
    assert_eq!(orphan_agents(&agents, &[running(3)]), vec![]);
}

/// A name gives back the number it was made of.
#[test]
fn an_agent_name_reads_back() {
    for id in [1, 9, 10, 99, 1_000_000, i64::MAX] {
        assert_eq!(task_id_of_agent(&Task::agent_name_for(id)), Some(id));
    }
    assert_eq!(Task::agent_name_for(-4), "t--4");
    assert_eq!(task_id_of_agent("t--4"), None);
    assert_eq!(task_id_of_agent("t-9223372036854775808"), None);
}

#[test]
fn channel_states_that_accept_dispatch() {
    assert!(ChannelState::Connected.accepts_dispatch());
    assert!(ChannelState::Polling.accepts_dispatch());
    for s in [
        ChannelState::Connecting,
        ChannelState::Reconnecting,
        ChannelState::Incompatible,
    ] {
        assert!(!s.accepts_dispatch(), "{s:?}");
    }
    assert_eq!(ChannelState::Polling.name(), "polling");
}

// ---------------------------------------------------------------------------
// What is seen of an agent

/// Idle goes through the settle window: a reconcile opens it and marks nothing
/// done; the settle check does once the same sequence held for a window.
#[test]
fn an_idle_agent_is_done_after_a_window_at_one_sequence() {
    let mut memory = Memory::new();
    let agents = vec![agent("t-1", "p1", AgentStatus::Idle, 7)];
    let todo = reconcile_task(running(1), &agents, &mut memory, "m", now_at(2000, 100), &rule);
    assert!(matches!(todo, ToDo::Nothing), "{todo:?}");
    assert_eq!(memory.due_done(Duration::from_secs(109), Duration::from_secs(10)), Vec::<i64>::new());
    assert_eq!(memory.due_done(Duration::from_secs(110), Duration::from_secs(10)), vec![1]);

    // It worked in between: the window starts over at the new sequence.
    let moved = vec![agent("t-1", "p1", AgentStatus::Idle, 9)];
    let r = settle_task(1, Some(running(1)), &moved, &mut memory, now_at(2010, 110));
    assert!(matches!(r, SettleToDo::Nothing), "{r:?}");
    assert_eq!(memory.due_done(Duration::from_secs(119), Duration::from_secs(10)), Vec::<i64>::new());

    // The same sequence a window later: the status is taken.
    let r = settle_task(1, Some(running(1)), &moved, &mut memory, now_at(2020, 120));
    match r {
        SettleToDo::Check { row, observed, seen } => {
            assert_eq!(row.id, 1);
            assert_eq!(seen, Some(9));
            assert!(matches!(
                observed,
                Observed::Status {
                    status: AgentStatus::Idle,
                    state_change_seq: Some(9),
                    ..
                }
            ));
        }
        other => panic!("{other:?}"),
    }
    assert_eq!(memory.due_done(Duration::from_secs(999), Duration::from_secs(10)), Vec::<i64>::new());
}

/// A pending prompt opens no settle window: the agent has not worked yet. An idle
/// agent is given the prompt instead.
#[test]
fn an_idle_agent_with_a_pending_prompt_is_given_it() {
    let mut memory = Memory::new();
    let t = Task {
        prompt_pending: true,
        ..running(1)
    };
    let agents = vec![agent("t-1", "p1", AgentStatus::Idle, 7)];
    let todo = reconcile_task(t, &agents, &mut memory, "m", now_at(2000, 100), &rule);
    assert!(matches!(todo, ToDo::Deliver { .. }), "{todo:?}");
    assert_eq!(memory.due_done(Duration::from_secs(999), Duration::from_secs(10)), Vec::<i64>::new());
}

/// An agent that is gone ends its task, and one that ran too long goes stale.
#[test]
fn a_missing_agent_and_an_overdue_task() {
    let mut memory = Memory::new();
    let gone = reconcile_task(running(1), &vec![], &mut memory, "m", now_at(2000, 100), &rule);
    match gone {
        ToDo::Apply { row, .. } => {
            assert_eq!(row.error.as_deref(), Some("agent t-1 not found on machine m"));
        }
        other => panic!("{other:?}"),
    }
    let agents = vec![agent("t-1", "p1", AgentStatus::Working, 4)];
    let late = reconcile_task(running(1), &agents, &mut memory, "m", now_at(4601, 100), &rule);
    assert!(matches!(late, ToDo::Stale(_)), "{late:?}");
    let early = reconcile_task(running(1), &agents, &mut memory, "m", now_at(4599, 100), &rule);
    assert!(matches!(early, ToDo::Apply { then_trust: false, .. }), "{early:?}");
}

/// A task whose start lies ahead of the clock has not run too long, whatever its timeout.
#[test]
fn a_start_in_the_future_is_not_overdue() {
    let mut t = running(1);
    t.spec.timeout_secs = 0;
    assert!(is_overdue(&t, Timestamp::at_secs(1_000_000)));
    assert!(!is_overdue(&t, Timestamp::at_secs(0)));
    let mut memory = Memory::new();
    let agents = vec![agent("t-1", "p1", AgentStatus::Working, 4)];
    let todo = reconcile_task(t, &agents, &mut memory, "m", now_at(0, 100), &rule);
    assert!(!matches!(todo, ToDo::Stale(_)), "{todo:?}");
}

/// A dispatch that was cut short after it started its agent takes the agent up.
#[test]
fn a_cut_short_dispatch_takes_up_its_agent() {
    let mut memory = Memory::new();
    let t = Task {
        state: TaskState::Starting,
        pane_id: None,
        workspace_id: None,
        agent_name: None,
        last_completion_seq: None,
        ..running(4)
    };
    let agents = vec![agent("t-4", "p9", AgentStatus::Idle, 12)];
    match reconcile_task(t, &agents, &mut memory, "m", now_at(2000, 100), &rule) {
        ToDo::Adopt { row, idle_at, .. } => {
            assert_eq!(row.pane_id.as_deref(), Some("p9"));
            assert_eq!(row.agent_name.as_deref(), Some("t-4"));
            assert_eq!(row.last_completion_seq, Some(12));
            assert_eq!(idle_at, Some(12));
        }
        other => panic!("{other:?}"),
    }
}

/// What an exit means depends on what the agent was last seen at.
#[test]
fn an_exit_between_turns_finishes_the_task() {
    let mut memory = Memory::new();
    let first = event_task(
        running(1),
        PaneEvent::Status(AgentStatus::Idle),
        &mut memory,
        now_at(2000, 100),
    );
    assert!(matches!(first, ToDo::Nothing), "{first:?}");
    let exit = event_task(running(1), PaneEvent::Exited, &mut memory, now_at(2001, 101));
    assert!(
        matches!(
            exit,
            ToDo::Apply {
                observed: Observed::PaneExited { agent_idle: true },
                ..
            }
        ),
        "{exit:?}"
    );
    assert_eq!(
        memory.due_done(Duration::from_secs(999), Duration::from_secs(10)),
        Vec::<i64>::new(),
        "the window is closed"
    );
    let closed = event_task(running(1), PaneEvent::Closed, &mut memory, now_at(2001, 101));
    assert!(matches!(
        closed,
        ToDo::Apply {
            observed: Observed::PaneClosed,
            ..
        }
    ));
    let other = event_task(running(1), PaneEvent::Other, &mut memory, now_at(2001, 101));
    assert!(matches!(other, ToDo::Nothing));
}

/// The first sighting of work is written even when the state does not change; a
/// task that runs again is clean of the cycle it left.
#[test]
fn a_row_follows_its_agent() {
    let working = Observed::Status {
        status: AgentStatus::Working,
        state_change_seq: Some(5),
        completion_seq: None,
    };
    let same = |_: &Task, _: &Observed| -> Option<TaskState> { None };
    let now = Timestamp::at_secs(2000);
    assert!(matches!(
        apply(running(1), &working, &same, now),
        Applied::Activity(t) if t.activity_seen
    ));
    let seen = Task {
        activity_seen: true,
        ..running(1)
    };
    assert!(matches!(apply(seen, &working, &same, now), Applied::Unchanged));

    let blocked = Task {
        state: TaskState::Blocked,
        error: Some("agent asked: which?".into()),
        finished_at: Some(Timestamp::at_secs(1)),
        ..running(1)
    };
    match apply(blocked, &working, &rule, now) {
        Applied::Moved(t) => {
            assert_eq!(t.state, TaskState::Running);
            assert_eq!(t.error, None);
            assert_eq!(t.finished_at, None);
        }
        other => panic!("{other:?}"),
    }
    match apply(running(1), &Observed::PaneClosed, &rule, now) {
        Applied::Moved(t) => {
            assert_eq!(t.state, TaskState::Failed);
            assert!(t.error.is_some(), "a failure has a reason");
            assert_eq!(t.finished_at, Some(now));
        }
        other => panic!("{other:?}"),
    }
}

#[test]
fn an_idle_on_a_question_blocks() {
    let idle = Observed::Status {
        status: AgentStatus::Idle,
        state_change_seq: Some(8),
        completion_seq: None,
    };
    let t = block_on_question(running(1), &idle, "which one?");
    assert_eq!(t.state, TaskState::Blocked);
    assert_eq!(t.error.as_deref(), Some("agent asked: which one?"));
    assert_eq!(t.last_completion_seq, Some(8));
}

// ---------------------------------------------------------------------------
// Whole passes

/// Runs a reconcile over `rows`; what it asked for, and how it ended.
fn sweep(
    memory: &mut Memory,
    agents: fn() -> Vec<AgentInfo>,
    rows: fn() -> Vec<Task>,
    stored: fn(Task) -> Result<Task, String>,
    deliver: fn() -> SweepEvent,
) -> (Vec<String>, Result<bool, Problem>) {
    let (mut run, mut ask) = Sweep::start();
    let mut asked = Vec::new();
    loop {
        let (said, ev) = match ask {
            SweepAsk::Agents => ("agents".to_string(), SweepEvent::Agents(Ok(agents()))),
            SweepAsk::Rows => ("rows".to_string(), SweepEvent::Rows(Ok(rows()))),
            SweepAsk::Nothing => ("nothing".to_string(), SweepEvent::Worked),
            SweepAsk::Adopt(t) => (format!("adopt {}", t.id), SweepEvent::Stored(stored(t))),
            SweepAsk::Apply { row, .. } => (format!("apply {}", row.id), SweepEvent::Worked),
            SweepAsk::Deliver { row, .. } => (format!("deliver {}", row.id), deliver()),
            SweepAsk::Stale(t) => (format!("stale {}", t.id), SweepEvent::Worked),
            SweepAsk::Trust => ("trust".to_string(), SweepEvent::Worked),
        };
        asked.push(said);
        match run.step(ev, memory, "m", now_at(2000, 100), &rule) {
            SweepNext::End(end) => return (asked, end),
            SweepNext::Ask { sweep, ask: next, running } => {
                if let Some(id) = running {
                    asked.push(format!("running {id}"));
                }
                run = sweep;
                ask = next;
            }
        }
    }
}

fn cut_short(id: i64) -> Task {
    Task {
        state: TaskState::Starting,
        pane_id: None,
        workspace_id: None,
        agent_name: None,
        ..running(id)
    }
}

fn in_pane(id: i64, pane: &str) -> Task {
    Task {
        pane_id: Some(pane.into()),
        ..running(id)
    }
}

/// Every row is compared in turn, what goes wrong with one does not stop the others,
/// and the orphans come last.
#[test]
fn a_reconcile_goes_through_every_row() {
    let mut memory = Memory::new();
    let agents = || {
        vec![
            agent("t-1", "p1", AgentStatus::Idle, 7),
            agent("t-2", "p2", AgentStatus::Idle, 7),
            agent("t-3", "p3", AgentStatus::Working, 7),
            agent("t-9", "p9", AgentStatus::Idle, 7),
        ]
    };
    let rows = || vec![in_pane(1, "p1"), cut_short(2), in_pane(3, "p3"), cut_short(4)];
    let worked = || SweepEvent::Worked;
    let (asked, end) = sweep(&mut memory, agents, rows, Ok, worked);
    assert_eq!(
        asked,
        [
            "agents", "rows", "nothing", "adopt 2", "running 2", "apply 3", "apply 4", "rows",
            "trust"
        ]
    );
    assert!(end.unwrap(), "a pane was adopted");
    assert_eq!(memory.orphans, vec![("t-9".to_string(), "p9".to_string())]);
    let mut due = memory.due_done(Duration::from_secs(110), Duration::from_secs(10));
    due.sort();
    assert_eq!(due, vec![1, 2], "both idle agents wait for their windows");

    let broken = |_: Task| -> Result<Task, String> { Err("disk".into()) };
    let (asked, end) = sweep(&mut Memory::new(), agents, rows, broken, worked);
    assert!(asked.contains(&"apply 4".to_string()));
    assert!(!end.unwrap(), "nothing was adopted");
}

/// A prompt that does not get through because the machine is lost ends the pass.
#[test]
fn a_lost_machine_ends_a_reconcile() {
    let rows = || {
        let waits = Task {
            prompt_pending: true,
            ..running(1)
        };
        vec![waits, in_pane(3, "p3")]
    };
    let agents = || vec![agent("t-1", "p1", AgentStatus::Idle, 7)];
    let (asked, end) = sweep(&mut Memory::new(), agents, rows, Ok, || {
        SweepEvent::Failed(lost())
    });
    assert_eq!(asked, ["agents", "rows", "deliver 1"]);
    assert_eq!(end.unwrap_err().message, "broken pipe");
}

/// A task that would be done is looked at for a question first.
#[test]
fn the_settle_check_reads_for_a_question() {
    let due = || {
        let mut memory = Memory::new();
        memory.window_at(1, Some(7), Duration::from_secs(50));
        memory
    };
    let now = now_at(2000, 100);
    let to_question = |memory: &mut Memory| {
        let (s, ask) = match Settle::start(memory, now) {
            SettleNext::Ask(s, ask) => (s, ask),
            other => panic!("{other:?}"),
        };
        assert!(matches!(ask, SettleAsk::Agents));
        let agents = vec![agent("t-1", "p1", AgentStatus::Idle, 7)];
        let s = match s.step(SettleEvent::Agents(Ok(agents)), memory, now, &rule) {
            SettleNext::Ask(s, SettleAsk::Row(1)) => s,
            other => panic!("{other:?}"),
        };
        match s.step(SettleEvent::Row(Some(running(1))), memory, now, &rule) {
            SettleNext::Ask(s, SettleAsk::Question(_)) => s,
            other => panic!("{other:?}"),
        }
    };
    let mut memory = due();
    let s = to_question(&mut memory);
    let asked = SettleEvent::Question(Ok(Some("which?".into())));
    let s = match s.step(asked, &mut memory, now, &rule) {
        SettleNext::Ask(s, SettleAsk::Block { question, .. }) => {
            assert_eq!(question, "which?");
            s
        }
        other => panic!("{other:?}"),
    };
    assert!(matches!(
        s.step(SettleEvent::Worked, &mut memory, now, &rule),
        SettleNext::End(Ok(()))
    ));

    let mut memory = due();
    let s = to_question(&mut memory);
    assert!(matches!(
        s.step(SettleEvent::Question(Ok(None)), &mut memory, now, &rule),
        SettleNext::Ask(_, SettleAsk::Apply { .. })
    ));

    // Out of reach: the task waits for another window.
    let mut memory = due();
    let s = to_question(&mut memory);
    assert!(matches!(
        s.step(SettleEvent::Question(Err(lost())), &mut memory, now, &rule),
        SettleNext::End(Err(_))
    ));
    assert_eq!(memory.due_done(Duration::from_secs(110), Duration::from_secs(10)), vec![1]);
    assert!(matches!(Settle::start(&Memory::new(), now), SettleNext::End(Ok(()))));
}

/// A prompt held after a trust answer goes in once the agent has redrawn.
#[test]
fn a_held_prompt_is_delivered() {
    let mut memory = Memory::new();
    memory.answered_trust(1, Duration::from_secs(95));
    assert!(matches!(Held::start(&memory, now_at(2000, 100)), HeldNext::End(Ok(()))));
    let h = match Held::start(&memory, now_at(2000, 105)) {
        HeldNext::Ask(h, HeldAsk::Agents) => h,
        other => panic!("{other:?}"),
    };
    let agents = vec![agent("t-1", "p1", AgentStatus::Idle, 7)];
    let h = match h.step(HeldEvent::Agents(Ok(agents)), &mut memory) {
        HeldNext::Ask(h, HeldAsk::Row(1)) => h,
        other => panic!("{other:?}"),
    };
    assert_eq!(memory.trust_answered_at(1), None, "held no longer");
    let waits = Task {
        prompt_pending: true,
        ..running(1)
    };
    let h = match h.step(HeldEvent::Row(Some(waits)), &mut memory) {
        HeldNext::Ask(h, HeldAsk::Deliver { status: AgentStatus::Idle, .. }) => h,
        other => panic!("{other:?}"),
    };
    assert!(matches!(h.step(HeldEvent::Worked, &mut memory), HeldNext::End(Ok(()))));
}

#[test]
fn a_prompt_that_went_in_closes_the_window() {
    let mut memory = Memory::new();
    memory.saw_idle(1, Duration::from_secs(5));
    memory.note_status(1, AgentStatus::Idle);
    let event = prompt_written(&mut memory, 1, Some(AgentStatus::Working), &Some(running(1)));
    assert_eq!(event.as_deref(), Some("task.running"));
    assert!(!memory.agent_idle(1));
    assert_eq!(memory.due_done(Duration::from_secs(99), Duration::from_secs(0)), Vec::<i64>::new());
    assert_eq!(prompt_written(&mut memory, 1, None, &None), None);
}

/// An event about a pane that only an orphan had.
#[test]
fn an_orphan_goes_with_its_pane() {
    let mut memory = Memory::new();
    memory.found_orphans(vec![("t-9".into(), "p9".into())]);
    assert!(!stray_event(PaneEvent::Status(AgentStatus::Idle), "p9", &mut memory));
    assert!(!stray_event(PaneEvent::Closed, "p1", &mut memory));
    assert!(stray_event(PaneEvent::Exited, "p9", &mut memory));
    assert!(memory.orphans.is_empty());
}

/// Saved trust answers the startup prompt of a trusted repository, once.
#[test]
fn saved_trust_answers_a_startup_prompt() {
    let at_prompt = || {
        let mut t = Task {
            state: TaskState::Blocked,
            prompt_pending: true,
            ..running(1)
        };
        t.spec.repo = Some("~/api".into());
        t
    };
    let start = |memory: &mut Memory, rows: Vec<Task>| {
        let (t, ask) = Trust::start();
        assert!(matches!(ask, TrustAsk::Rows));
        t.step(TrustEvent::Rows(Ok(rows)), &trusting(), memory, Duration::from_secs(9))
    };
    let mut memory = Memory::new();
    assert!(matches!(
        start(&mut memory, vec![running(3)]),
        TrustNext::End { end: Ok(()), .. }
    ));
    let t = match start(&mut memory, vec![running(3), at_prompt()]) {
        TrustNext::Ask { trust, ask: TrustAsk::Known { id: 1, repo }, .. } => {
            assert_eq!(repo, "~/api");
            trust
        }
        other => panic!("{other:?}"),
    };
    let step = |t: Trust, ev: TrustEvent, memory: &mut Memory| {
        t.step(ev, &trusting(), memory, Duration::from_secs(9))
    };
    let t = match step(t, TrustEvent::Known(Ok((false, true))), &mut memory) {
        TrustNext::Ask { trust, ask: TrustAsk::Keys { pane, keys }, .. } => {
            assert_eq!((pane.as_str(), keys), ("p1", vec!["Down".to_string(), "Enter".into()]));
            trust
        }
        other => panic!("{other:?}"),
    };
    let t = match step(t, TrustEvent::Sent(Ok(())), &mut memory) {
        TrustNext::Ask { trust, ask: TrustAsk::Claim(1), .. } => trust,
        other => panic!("{other:?}"),
    };
    assert_eq!(memory.trust_answered_at(1), Some(Duration::from_secs(9)));
    match step(t, TrustEvent::Claimed(Ok(true)), &mut memory) {
        TrustNext::End { end: Ok(()), trusted: Some((1, keys)) } => {
            let expected: serde_json::Value =
                serde_json::from_str("{\"keys\": [\"Down\", \"Enter\"]}").unwrap();
            assert_eq!(keys_detail(keys), expected);
        }
        other => panic!("{other:?}"),
    }
    for known in [(true, true), (false, false)] {
        let t = match start(&mut memory, vec![at_prompt()]) {
            TrustNext::Ask { trust, .. } => trust,
            other => panic!("{other:?}"),
        };
        assert!(matches!(
            step(t, TrustEvent::Known(Ok(known)), &mut memory),
            TrustNext::End { end: Ok(()), trusted: None }
        ));
    }
}

#[test]
fn a_question_is_recorded() {
    let expected: serde_json::Value = serde_json::from_str("{\"question\": \"which?\"}").unwrap();
    assert_eq!(question_detail("which?".into()), expected);
}

/// Done tasks close on their own once their grace has passed; none where that is off.
#[test]
fn done_tasks_close_after_their_grace() {
    let done = |id: i64, at: i64| Task {
        state: TaskState::Done,
        finished_at: Some(Timestamp::at_secs(at)),
        ..running(id)
    };
    let mut tree = done(2, 100);
    tree.spec.worktree = true;
    let rows = vec![done(1, 950), tree, running(3)];
    let now = Timestamp::at_secs(1000);
    let due = to_close(&rows, now, Some(Duration::from_secs(60)));
    let second = Closing {
        id: 2,
        remove_worktree: true,
    };
    assert_eq!(due, vec![second]);
    assert_eq!(to_close(&rows, now, Some(Duration::from_secs(50))).len(), 2);
    assert!(to_close(&rows, now, None).is_empty());
    assert!(matches!(close_next(vec![], None), ChoreNext::End(Ok(()))));
    assert!(matches!(close_next(due, Some(lost())), ChoreNext::End(Err(_))));
    match close_next(vec![second], None) {
        ChoreNext::Close(c, rest) => assert_eq!((c, rest.len()), (second, 0)),
        other => panic!("{other:?}"),
    }
}

// ---------------------------------------------------------------------------
// Commands

fn down(message: &str, transport: bool) -> Failure {
    Failure {
        code: None,
        transport,
        message: message.into(),
    }
}

#[test]
fn a_dispatch_that_gets_no_answer_fails_its_task() {
    assert!(matches!(
        claimed(7, Ok(None)),
        Err(DispatchFault::NotQueued(7))
    ));
    let now = Timestamp::at_secs(50);
    let w = run_dispatch(running(7), Started::TimedOut, "60s", now);
    assert!(w.dead);
    assert_eq!(w.row.state, TaskState::Failed);
    assert_eq!(w.row.finished_at, Some(now));
    let row = w.row.clone();
    let (event, result) = dispatched(w, Ok(row));
    assert_eq!(event.as_deref(), Some("task.failed"));
    assert!(matches!(result, Err(DispatchFault::TimedOut(7))));

    let w = run_dispatch(running(7), Started::Done { row: running(7) }, "60s", now);
    assert!(!w.dead);
    let (event, result) = dispatched(w, Ok(running(7)));
    assert_eq!(event.as_deref(), Some("task.running"));
    assert_eq!(result.unwrap().id, 7);

    let started = Started::Failed {
        row: running(7),
        failure: down("ssh: gone", true),
    };
    let w = run_dispatch(running(7), started, "60s", now);
    assert!(w.dead, "a failure below herdr's interface loses the machine");
    let (event, result) = dispatched(w, Err("disk full".into()));
    assert_eq!(event, None);
    assert!(matches!(result, Err(DispatchFault::Store(e)) if e == "disk full"));
}

#[test]
fn a_command_reconnects_or_resubscribes() {
    let placed = Served::Dispatch { placed: true };
    let failed = Served::Dispatch { placed: false };
    assert_eq!(handle_command(placed, true), CommandOutcome::Reconnect);
    assert_eq!(handle_command(placed, false), CommandOutcome::Resubscribe);
    for command in [failed, Served::Close, Served::Send, Served::Read] {
        assert_eq!(handle_command(command, false), CommandOutcome::Nothing);
        assert_eq!(handle_command(command, true), CommandOutcome::Reconnect);
    }
}

#[test]
fn every_pane_is_subscribed_to() {
    let tasks = vec![running(1), new_task(2), running(3)];
    let subs = subscriptions(&tasks);
    assert_eq!(subs.len(), 4);
    assert!(matches!(&subs[0], Subscription::Lifecycle(k) if *k == "pane.closed"));
    assert!(matches!(&subs[1], Subscription::Lifecycle(k) if *k == "pane.exited"));
    assert!(matches!(&subs[2], Subscription::AgentStatus(p) if p == "p1"));
    assert!(matches!(&subs[3], Subscription::AgentStatus(p) if p == "p1"));
}

#[test]
fn only_a_live_pane_is_read() {
    assert_eq!(read_target(1, &Some(running(1)), "m").unwrap(), "t-1");
    assert!(read_target(1, &Some(running(1)), "other").is_err());
    assert!(read_target(1, &Some(new_task(1)), "m").is_err());
    assert!(read_target(1, &None, "m").is_err());
}

#[test]
fn the_version_is_asked_again_now_and_then() {
    let every = Duration::from_secs(600);
    let at = Duration::from_secs(100);
    assert!(!version_due(at, Duration::from_secs(699), every));
    assert!(version_due(at, Duration::from_secs(700), every));
    let known = Some("0.4.0".to_string());
    assert_eq!(refreshed_version(known.clone(), None), known);
    assert_eq!(
        refreshed_version(known, Some(Some("0.5.0".to_string()))),
        Some("0.5.0".to_string())
    );
}

// ---------------------------------------------------------------------------
// Sending

fn trusting() -> Agents {
    Agents {
        keys: vec![AgentKeys {
            agent: "codex".into(),
            trust_keys: vec!["Down".into(), "Enter".into()],
        }],
    }
}

/// The event records how long the text was and which keys went in, never the text.
#[test]
fn what_is_sent_is_recorded_without_its_text() {
    let input = SendInput {
        text: Some("sécret".into()),
        enter: true,
        keys: vec!["esc".into()],
        trust: false,
    };
    let plan = run_send(&Some(running(1)), 1, "m", &input, &trusting()).unwrap();
    assert_eq!(plan.pane, "p1");
    assert_eq!(plan.text.as_deref(), Some("sécret"));
    assert_eq!(plan.keys, vec!["Enter", "esc"]);
    let expected: serde_json::Value =
        serde_json::from_str("{\"text_len\": 6, \"keys\": [\"Enter\", \"esc\"]}").unwrap();
    assert_eq!(plan.detail, expected);
    assert!(!plan.detail.to_string().contains("sécret"));
}

/// `--trust` answers only the startup prompt, by the agent's own keys.
#[test]
fn trust_answers_only_the_startup_prompt() {
    let trust = SendInput {
        trust: true,
        ..Default::default()
    };
    let at_prompt = Task {
        state: TaskState::Blocked,
        prompt_pending: true,
        ..running(1)
    };
    let plan = run_send(&Some(at_prompt.clone()), 1, "m", &trust, &trusting()).unwrap();
    assert_eq!(plan.keys, vec!["Down", "Enter"]);
    assert_eq!(plan.text, None);
    let expected: serde_json::Value =
        serde_json::from_str("{\"keys\": [\"Down\", \"Enter\"], \"trust\": true}").unwrap();
    assert_eq!(plan.detail, expected);

    let none = run_send(&Some(at_prompt), 1, "m", &trust, &Agents::default()).unwrap_err();
    assert_eq!(none.code, "no_trust_keys");
    assert!(run_send(&Some(running(1)), 1, "m", &trust, &trusting()).is_err());
}

#[test]
fn nothing_goes_to_a_task_that_is_not_live_here() {
    let input = SendInput {
        text: Some("x".into()),
        ..Default::default()
    };
    assert!(run_send(&None, 1, "m", &input, &trusting()).is_err());
    assert!(run_send(&Some(new_task(1)), 1, "m", &input, &trusting()).is_err());
    assert!(run_send(&Some(running(1)), 1, "other", &input, &trusting()).is_err());
    assert!(
        run_send(&Some(running(1)), 1, "m", &SendInput::default(), &trusting()).is_err(),
        "nothing to send"
    );
}

// ---------------------------------------------------------------------------
// The actor's life

fn lost() -> Problem {
    Problem {
        chain: vec![Cause::Other, Cause::Call { transport: true }],
        message: "broken pipe".into(),
    }
}

/// From a new actor through its first connection.
fn connected() -> Life {
    let l = Life::start(Duration::from_secs(1), Duration::from_secs(60));
    assert_eq!(l.doing, Doing::Ping);
    let t = Duration::from_secs(5);
    let protocol = MIN_HERDR_PROTOCOL;
    let (l, _) = l.step(LifeEvent::Ponged { protocol }, t);
    let (l, _) = l.step(LifeEvent::VersionAsked, t);
    let (l, _) = l.step(LifeEvent::Reconciled { adopted: false }, t);
    assert_eq!(l.doing, Doing::Open);
    let (l, told) = l.step(LifeEvent::Worked, t);
    assert!(told.announce.is_none(), "the first connection is told nobody");
    assert!(told.refresh_live);
    assert_eq!(l.channel, ChannelState::Connected);
    assert_eq!(l.doing, Doing::Serve);
    l
}

/// A lost connection is told once, and so is the recovery; the wait doubles up to
/// its bound.
#[test]
fn a_loss_and_a_recovery_are_told_once_each() {
    let t = Duration::from_secs(6);
    let (l, told) = connected().step(LifeEvent::StreamEnded, t);
    assert!(matches!(told.announce, Some(Announce::Lost)));
    assert_eq!(l.channel, ChannelState::Reconnecting);
    assert!(!l.channel.accepts_dispatch());
    assert_eq!(
        l.doing,
        Doing::Drain {
            wait: Duration::from_secs(1)
        }
    );
    let (l, _) = l.step(LifeEvent::Drained, t);
    let (l, told) = l.step(LifeEvent::PingFailed("refused".into()), t);
    assert!(told.announce.is_none(), "the outage was told");
    assert_eq!(
        l.doing,
        Doing::Drain {
            wait: Duration::from_secs(2)
        }
    );
    let (l, _) = l.step(LifeEvent::Drained, t);
    let protocol = MIN_HERDR_PROTOCOL;
    let (l, _) = l.step(LifeEvent::Ponged { protocol }, t);
    let (l, _) = l.step(LifeEvent::VersionAsked, t);
    let (l, _) = l.step(LifeEvent::Reconciled { adopted: true }, t);
    let (_, told) = l.step(LifeEvent::Worked, t);
    assert!(matches!(told.announce, Some(Announce::Connected)));
}

/// One failed attempt before the first connection is told nobody; the second is.
#[test]
fn a_cold_start_is_told_at_the_second_failure() {
    let l = Life::start(Duration::from_secs(1), Duration::from_secs(60));
    let t = Duration::from_secs(1);
    let (l, told) = l.step(LifeEvent::PingTimedOut, t);
    assert!(told.announce.is_none());
    let (l, _) = l.step(LifeEvent::Drained, t);
    let (_, told) = l.step(LifeEvent::PingTimedOut, t);
    assert!(matches!(told.announce, Some(Announce::Lost)));
}

/// A herdr that is too old is left alone for the longest wait.
#[test]
fn an_old_protocol_is_incompatible() {
    let l = Life::start(Duration::from_secs(1), Duration::from_secs(60));
    let t = Duration::from_secs(1);
    let (l, _) = l.step(LifeEvent::Ponged { protocol: 20 }, t);
    let (l, told) = l.step(LifeEvent::VersionAsked, t);
    assert_eq!(l.channel, ChannelState::Incompatible);
    assert!(told.announce.is_none());
    assert_eq!(
        l.doing,
        Doing::Drain {
            wait: Duration::from_secs(60)
        }
    );
}

/// Events that do not open leave the machine polling, not lost.
#[test]
fn events_that_do_not_open_are_polled_for() {
    let l = Life::start(Duration::from_secs(1), Duration::from_secs(60));
    let t = Duration::from_secs(1);
    let protocol = MIN_HERDR_PROTOCOL;
    let (l, _) = l.step(LifeEvent::Ponged { protocol }, t);
    let (l, _) = l.step(LifeEvent::VersionAsked, t);
    let (l, _) = l.step(LifeEvent::Reconciled { adopted: false }, t);
    let (l, told) = l.step(LifeEvent::Failed(lost()), t);
    assert_eq!(l.channel, ChannelState::Polling);
    assert!(l.channel.accepts_dispatch());
    assert!(told.announce.is_none() && told.refresh_live);
    let (l, told) = l.step(LifeEvent::PollEnded(PollExit::Subscribed), t);
    assert_eq!(l.channel, ChannelState::Connected);
    assert!(told.announce.is_none() && told.refresh_live);
    let (l, _) = l.step(LifeEvent::ReconcileTick, t);
    assert_eq!(l.doing, Doing::Reconcile);
    let (l, _) = l.step(LifeEvent::Reconciled { adopted: false }, t);
    assert_eq!(l.doing, Doing::AutoClose);
    let (l, _) = l.step(LifeEvent::Worked, t);
    let (l, _) = l.step(LifeEvent::Worked, t);
    assert_eq!(l.doing, Doing::Serve);
    let (l, _) = l.step(LifeEvent::CommandsEnded, t);
    assert_eq!(l.doing, Doing::Stop);
}

/// A problem is an outage if any of its causes is one.
#[test]
fn an_outage_is_a_timeout_or_a_failure_below_the_interface() {
    assert!(is_outage(&lost().chain));
    assert!(is_outage(&vec![Cause::TimedOut]));
    assert!(!is_outage(&vec![Cause::Call { transport: false }, Cause::Other]));
    assert!(!is_outage(&vec![]));
}

fn go(next: PollNext) -> Poller {
    match next {
        PollNext::Go { poller, .. } => poller,
        PollNext::End(end) => panic!("{end:?}"),
    }
}

/// A subscribe attempt that was built before the panes changed is dropped for one
/// that covers them all.
#[test]
fn a_changed_pane_rebuilds_the_subscription() {
    let p = Poller::start(Duration::from_secs(1), Duration::from_secs(4));
    let p = go(p.step(PollEvent::RetryDue));
    let p = go(p.step(PollEvent::Prepared { built: true }));
    assert!(p.in_flight);
    let p = go(p.step(PollEvent::Commanded(CommandOutcome::Resubscribe)));
    let p = go(p.step(PollEvent::Prepared { built: true }));
    let p = match p.step(PollEvent::Subscribed { opened: false }) {
        PollNext::Go { poller, retry_in } => {
            assert_eq!(retry_in, Some(Duration::from_secs(2)));
            poller
        }
        other => panic!("{other:?}"),
    };
    let p = go(p.step(PollEvent::RetryDue));
    let p = go(p.step(PollEvent::Prepared { built: true }));
    assert!(matches!(
        p.step(PollEvent::Subscribed { opened: true }),
        PollNext::End(PollEnd::Subscribed)
    ));
}

#[test]
fn polling_ends_with_the_commands_or_the_machine() {
    let p = Poller::start(Duration::from_secs(1), Duration::from_secs(4));
    assert!(matches!(
        p.step(PollEvent::CommandsEnded),
        PollNext::End(PollEnd::Shutdown)
    ));
    let p = Poller::start(Duration::from_secs(1), Duration::from_secs(4));
    let p = go(p.step(PollEvent::PollTick));
    match p.step(PollEvent::Failed(lost())) {
        PollNext::End(end) => {
            assert!(matches!(end.exit(), PollExit::Reconnect(why) if why.contains("broken pipe")));
        }
        other => panic!("{other:?}"),
    }
}

// ---------------------------------------------------------------------------
// What is told

#[test]
fn a_stopped_actor_says_so() {
    assert_eq!(shutdown_outcome(true, false, true), ShutdownOutcome::Finished);
    assert_eq!(shutdown_outcome(true, false, false), ShutdownOutcome::StillRunning);
    assert_eq!(shutdown_outcome(false, false, false), ShutdownOutcome::Finished);
    let stopped = ActorStopped { machine: "m".into() };
    assert_eq!(stopped.message(), "machine m is shutting down; try again later");
    let closed = OrphanClosed {
        agent: "t-3".into(),
        machine: "m".into(),
    };
    assert_eq!(
        closed.message(),
        "closed orphaned agent t-3 on m; it had no task row"
    );
}

#[test]
fn an_event_carries_the_job_of_its_task() {
    let m = "m".to_string();
    let ev = machine_event(&m, "task.done", Some(1), Ok(Some(running(1))), None);
    assert_eq!(ev.job.as_deref(), Some("run"));
    assert_eq!(ev.machine.as_deref(), Some("m"));
    let ev = machine_event(&m, "task.done", Some(1), Err("store".into()), None);
    assert_eq!(ev.job, None);
    let ev = machine_event(&m, "machine.lost", None, Ok(None), None);
    assert_eq!((ev.kind.as_str(), ev.task_id), ("machine.lost", None));
}
