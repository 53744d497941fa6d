//! Work that waits on herdr and the store, step by step: a prompt on its way, input
//! for a pane, and the rows after a close.

use pastor::machine::calls::Cause;
use pastor::machine::calls::Failure;
use pastor::machine::calls::Reply;
use pastor::machine::close::CloseEnd;
use pastor::machine::close::CloseFault;
use pastor::machine::close::CloseNote;
use pastor::machine::close::KeptWhy;
use pastor::machine::finish::Finish;
use pastor::machine::finish::FinishAsk;
use pastor::machine::finish::FinishEvent;
use pastor::machine::finish::FinishNext;
use pastor::machine::finish::Finished;
use pastor::machine::memory::Memory;
use pastor::machine::prompt::DeliverAsk;
use pastor::machine::prompt::DeliverEvent;
use pastor::machine::prompt::DeliverNext;
use pastor::machine::prompt::Delivery;
use pastor::machine::rows::WriteAsk;
use pastor::machine::rows::WriteEvent;
use pastor::machine::send::SendInput;
use pastor::machine::sending::SendAsk;
use pastor::machine::sending::SendEnd;
use pastor::machine::sending::SendEvent;
use pastor::machine::sending::SendNext;
use pastor::machine::sending::Sending;
use pastor::machine::sending::Tell;
use pastor::machine::status::AgentKeys;
use pastor::machine::status::Agents;
use pastor::plugin::install::install_dir;
use pastor::task::AgentInfo;
use pastor::task::AgentStatus;
use pastor::task::DispatchSpec;
use pastor::task::Place;
use pastor::task::Task;
use pastor::task::TaskState;
use pastor::task::Words;
use pastor::time::Duration;
use pastor::time::Timestamp;

fn row(state: TaskState, prompt_pending: bool) -> Task {
    Task {
        id: 7,
        job: "run".into(),
        state,
        prompt: "fix it".into(),
        prompt_pending,
        activity_seen: false,
        machine: Some("m".into()),
        pane_id: Some("p1".into()),
        workspace_id: Some("w1".into()),
        agent_name: None,
        last_completion_seq: None,
        error: Some("agent blocked during startup".into()),
        started_at: None,
        finished_at: None,
        updated_at: Timestamp::at_secs(40),
        spec: DispatchSpec {
            agent: "codex".into(),
            agent_args: Words::End,
            repo: Some("~/work/api".into()),
            worktree: true,
            branch: None,
            machine: None,
            tags: Words::End,
            timeout_secs: 60,
            checkout: None,
            place: Place::Own,
        },
    }
}

fn took(status: AgentStatus, seq: u64) -> Reply<AgentInfo> {
    Reply::Answer(AgentInfo {
        name: Some("t-7".into()),
        pane_id: "p1".into(),
        workspace_id: "w1".into(),
        agent_status: status,
        state_change_seq: seq,
        completion_seq: None,
        launch_pending: false,
    })
}

fn failure(code: Option<&str>, transport: bool) -> Failure {
    Failure {
        code: code.map(str::to_string),
        transport,
        message: "no".into(),
    }
}

fn at() -> Timestamp {
    Timestamp::at_secs(99)
}

/// Hand the prompt over and take the reply.
fn delivered(reply: Reply<AgentInfo>, memory: &mut Memory) -> DeliverNext {
    match Delivery::start(row(TaskState::Blocked, true), AgentStatus::Idle) {
        DeliverNext::Ask(d, DeliverAsk::Prompt { agent, prompt }) => {
            assert_eq!((agent.as_str(), prompt.as_str()), ("t-7", "fix it"));
            d.step(DeliverEvent::Replied(reply), "60s", at(), memory)
        }
        other => panic!("{other:?}"),
    }
}

#[test]
fn a_taken_prompt_makes_the_task_run() {
    let mut memory = Memory::new();
    memory.saw_idle(7, Duration::from_secs(1));
    memory.note_status(7, AgentStatus::Idle);
    let (d, written) = match delivered(took(AgentStatus::Working, 12), &mut memory) {
        DeliverNext::Ask(d, DeliverAsk::Store(WriteAsk::Update(t))) => (d, t),
        other => panic!("{other:?}"),
    };
    assert_eq!(written.state, TaskState::Running);
    assert!(!written.prompt_pending && written.activity_seen);
    assert_eq!(written.last_completion_seq, Some(12));
    assert_eq!(written.error, None);
    match d.step(DeliverEvent::Stored(WriteEvent::Updated(written)), "60s", at(), &mut memory) {
        DeliverNext::End { end, event, refresh } => {
            assert!(end.is_ok() && refresh);
            assert_eq!(event.as_deref(), Some("task.running"));
        }
        other => panic!("{other:?}"),
    }
    assert!(!memory.agent_idle(7));
    assert!(memory.due_done(Duration::from_secs(100), Duration::from_secs(1)).is_empty());
}

#[test]
fn a_row_that_moved_on_keeps_its_state() {
    let mut memory = Memory::new();
    let d = match delivered(took(AgentStatus::Working, 12), &mut memory) {
        DeliverNext::Ask(d, DeliverAsk::Store(_)) => d,
        other => panic!("{other:?}"),
    };
    let d = match d.step(DeliverEvent::Stored(WriteEvent::Conflict), "60s", at(), &mut memory) {
        DeliverNext::Ask(d, DeliverAsk::Store(WriteAsk::Reread(7))) => d,
        other => panic!("{other:?}"),
    };
    let closed = WriteEvent::Row(Some(row(TaskState::Closed, true)));
    match d.step(DeliverEvent::Stored(closed), "60s", at(), &mut memory) {
        DeliverNext::End { end, event, refresh } => {
            assert!(end.is_ok() && event.is_none() && refresh);
        }
        other => panic!("{other:?}"),
    }
}

#[test]
fn a_prompt_that_cannot_go_in() {
    let mut memory = Memory::new();
    // A blocked agent takes none.
    match Delivery::start(row(TaskState::Blocked, true), AgentStatus::Blocked) {
        DeliverNext::End { end, event, refresh } => {
            assert!(end.is_ok() && event.is_none() && !refresh);
        }
        other => panic!("{other:?}"),
    }
    // Blocked again: a later status tries again.
    match delivered(Reply::Failed(failure(Some("agent_blocked"), false)), &mut memory) {
        DeliverNext::End { end, event, refresh } => {
            assert!(end.is_ok() && event.is_none() && !refresh);
        }
        other => panic!("{other:?}"),
    }
    // Out of reach.
    match delivered(Reply::Failed(failure(None, true)), &mut memory) {
        DeliverNext::End { end: Err(p), .. } => {
            assert_eq!(p.chain, vec![Cause::Call { transport: true }]);
            assert_eq!(p.message, "no");
        }
        other => panic!("{other:?}"),
    }
    match delivered(Reply::TimedOut, &mut memory) {
        DeliverNext::End { end: Err(p), .. } => {
            assert_eq!(p.chain, vec![Cause::TimedOut]);
            assert_eq!(p.message, "agent.prompt timed out after 60s");
        }
        other => panic!("{other:?}"),
    }
    // Refused: the task fails.
    match delivered(Reply::Failed(failure(Some("no_agent"), false)), &mut memory) {
        DeliverNext::Ask(d, DeliverAsk::Store(WriteAsk::Update(t))) => {
            assert_eq!(t.state, TaskState::Failed);
            assert_eq!(t.error.as_deref(), Some("could not send the pending prompt: no"));
            assert_eq!(t.finished_at, Some(at()));
            let failed = DeliverEvent::Stored(WriteEvent::Updated(t));
            match d.step(failed, "60s", at(), &mut memory) {
                DeliverNext::End { event, .. } => {
                    assert_eq!(event.as_deref(), Some("task.failed"));
                }
                other => panic!("{other:?}"),
            }
        }
        other => panic!("{other:?}"),
    }
}

fn agents() -> Agents {
    Agents {
        keys: vec![AgentKeys {
            agent: "codex".into(),
            trust_keys: vec!["Enter".into()],
        }],
    }
}

fn typed(text: &str) -> SendInput {
    SendInput {
        text: Some(text.into()),
        enter: true,
        keys: Vec::new(),
        trust: false,
    }
}

fn trust() -> SendInput {
    SendInput {
        text: None,
        enter: false,
        keys: Vec::new(),
        trust: true,
    }
}

fn sent(s: Sending, ev: SendEvent, memory: &mut Memory) -> SendNext {
    s.step(ev, "m", "60s", &agents(), Duration::from_secs(3), memory)
}

/// Read the row and begin to type.
fn typing(input: SendInput, t: Task, memory: &mut Memory) -> (Sending, SendAsk) {
    let (s, ask) = Sending::start(7, input);
    assert!(matches!(ask, SendAsk::Row(7)));
    match sent(s, SendEvent::Row(Ok(Some(t))), memory) {
        SendNext::Ask { sending, ask, tell: None } => (sending, ask),
        other => panic!("{other:?}"),
    }
}

#[test]
fn input_goes_into_the_pane_and_is_told() {
    let mut memory = Memory::new();
    let (s, ask) = typing(typed("yes"), row(TaskState::Running, false), &mut memory);
    match ask {
        SendAsk::Input { pane, text, keys } => {
            assert_eq!((pane.as_str(), text.as_deref()), ("p1", Some("yes")));
            assert_eq!(keys, vec!["Enter".to_string()]);
        }
        other => panic!("{other:?}"),
    }
    match sent(s, SendEvent::Typed(Reply::Answer(())), &mut memory) {
        SendNext::End {
            end: SendEnd::Sent(t),
            dead: false,
            tell: Some(Tell::Input { id: 7, detail }),
        } => {
            assert_eq!(t.state, TaskState::Running);
            let said: serde_json::Value =
                serde_json::from_str("{\"text_len\":3,\"keys\":[\"Enter\"]}").unwrap();
            assert_eq!(detail, said);
        }
        other => panic!("{other:?}"),
    }
}

#[test]
fn more_to_do_reopens_a_done_task() {
    let mut memory = Memory::new();
    let (s, _) = typing(typed("go on"), row(TaskState::Done, false), &mut memory);
    let (s, t) = match sent(s, SendEvent::Typed(Reply::Answer(())), &mut memory) {
        SendNext::Ask {
            sending,
            ask: SendAsk::Store(WriteAsk::Update(t)),
            tell: Some(Tell::Input { .. }),
        } => (sending, t),
        other => panic!("{other:?}"),
    };
    assert_eq!(t.state, TaskState::Running);
    match sent(s, SendEvent::Stored(WriteEvent::Updated(t)), &mut memory) {
        SendNext::End {
            end: SendEnd::Sent(_),
            tell: Some(Tell::Running(7)),
            ..
        } => {}
        other => panic!("{other:?}"),
    }
    // A row that was closed meanwhile is handed back as it is.
    let (s, _) = typing(typed("go on"), row(TaskState::Done, false), &mut memory);
    let s = match sent(s, SendEvent::Typed(Reply::Answer(())), &mut memory) {
        SendNext::Ask { sending, .. } => sending,
        other => panic!("{other:?}"),
    };
    let s = match sent(s, SendEvent::Stored(WriteEvent::Conflict), &mut memory) {
        SendNext::Ask { sending, .. } => sending,
        other => panic!("{other:?}"),
    };
    let closed = WriteEvent::Row(Some(row(TaskState::Closed, false)));
    let s = match sent(s, SendEvent::Stored(closed), &mut memory) {
        SendNext::Ask { sending, ask: SendAsk::Row(7), .. } => sending,
        other => panic!("{other:?}"),
    };
    match sent(s, SendEvent::Row(Ok(None)), &mut memory) {
        SendNext::End { end: SendEnd::Failed(m), .. } => assert_eq!(m, "t-7 not found"),
        other => panic!("{other:?}"),
    }
}

#[test]
fn a_trust_answer_is_claimed_and_saved() {
    let mut memory = Memory::new();
    let (s, ask) = typing(trust(), row(TaskState::Blocked, true), &mut memory);
    assert!(matches!(ask, SendAsk::Input { text: None, .. }));
    let s = match sent(s, SendEvent::Typed(Reply::Answer(())), &mut memory) {
        SendNext::Ask { sending, ask: SendAsk::Claim(7), tell: Some(_) } => sending,
        other => panic!("{other:?}"),
    };
    assert_eq!(memory.trust_answered_at(7), Some(Duration::from_secs(3)));
    let s = match sent(s, SendEvent::Claimed(Ok(true)), &mut memory) {
        SendNext::Ask { sending, ask: SendAsk::TrustRepo(repo), .. } => {
            assert_eq!(repo, "~/work/api");
            sending
        }
        other => panic!("{other:?}"),
    };
    match sent(s, SendEvent::Saved(Err("disk full".into())), &mut memory) {
        SendNext::End { end: SendEnd::Failed(m), dead: false, .. } => assert_eq!(m, "disk full"),
        other => panic!("{other:?}"),
    }
}

#[test]
fn a_send_that_is_refused_or_fails() {
    let mut memory = Memory::new();
    let (s, _) = Sending::start(7, typed("x"));
    match sent(s, SendEvent::Row(Ok(None)), &mut memory) {
        SendNext::End { end: SendEnd::Refused(r), dead: false, .. } => {
            assert_eq!(r.code, "task_not_found");
        }
        other => panic!("{other:?}"),
    }
    let (s, _) = typing(typed("x"), row(TaskState::Running, false), &mut memory);
    match sent(s, SendEvent::Typed(Reply::Failed(failure(Some("pane_not_found"), false))), &mut memory) {
        SendNext::End { end: SendEnd::Failed(m), dead: false, tell: None } => assert_eq!(m, "no"),
        other => panic!("{other:?}"),
    }
    let (s, _) = typing(typed("x"), row(TaskState::Running, false), &mut memory);
    match sent(s, SendEvent::Typed(Reply::TimedOut), &mut memory) {
        SendNext::End { end: SendEnd::Failed(m), dead: true, tell: None } => {
            assert_eq!(m, "pane input timed out after 60s");
        }
        other => panic!("{other:?}"),
    }
}

fn finish(end: CloseEnd, t: Option<Task>, memory: &mut Memory) -> FinishNext {
    Finish::start(end, t, 7, "m", "60s", at(), memory)
}

#[test]
fn the_rows_after_a_close() {
    let mut memory = Memory::new();
    memory.found_orphans(vec![("t-9".into(), "p1".into())]);
    let closed = CloseEnd::Closed {
        auto: false,
        clear_workspace: false,
        note: None,
        released: Some("p1".into()),
    };
    let f = match finish(closed, Some(row(TaskState::Running, false)), &mut memory) {
        FinishNext::Ask(f, FinishAsk::Close(7)) => f,
        other => panic!("{other:?}"),
    };
    assert!(memory.orphans.is_empty());
    match f.step(FinishEvent::Closed(Ok(row(TaskState::Closed, false)))) {
        FinishNext::End { end: Finished::Row(t), told: true, refresh: true } => {
            assert_eq!(t.state, TaskState::Closed);
        }
        other => panic!("{other:?}"),
    }
    // A row that was closed before is not announced again, and keeps the note.
    let kept = CloseEnd::Closed {
        auto: false,
        clear_workspace: false,
        note: Some(CloseNote::Kept(KeptWhy::Occupied("t-8".into()))),
        released: Some("p1".into()),
    };
    let f = match finish(kept, Some(row(TaskState::Closed, false)), &mut memory) {
        FinishNext::Ask(f, FinishAsk::Update(t)) => {
            assert!(t.error.unwrap().contains("t-8"));
            assert_eq!(t.workspace_id.as_deref(), Some("w1"));
            f
        }
        other => panic!("{other:?}"),
    };
    let f = match f.step(FinishEvent::Updated(Ok(row(TaskState::Closed, false)))) {
        FinishNext::Ask(f, FinishAsk::Close(7)) => f,
        other => panic!("{other:?}"),
    };
    match f.step(FinishEvent::Closed(Ok(row(TaskState::Closed, false)))) {
        FinishNext::End { told: false, refresh: true, .. } => {}
        other => panic!("{other:?}"),
    }
}

#[test]
fn the_row_after_an_auto_close() {
    let mut memory = Memory::new();
    let gone = CloseEnd::Closed {
        auto: true,
        clear_workspace: true,
        note: None,
        released: Some("p1".into()),
    };
    let (f, t) = match finish(gone, Some(row(TaskState::Done, false)), &mut memory) {
        FinishNext::Ask(f, FinishAsk::Update(t)) => (f, t),
        other => panic!("{other:?}"),
    };
    assert_eq!(t.state, TaskState::Closed);
    assert_eq!((t.workspace_id.as_deref(), t.finished_at), (None, Some(at())));
    match f.step(FinishEvent::Updated(Ok(t))) {
        FinishNext::End { end: Finished::Row(_), told: true, refresh: true } => {}
        other => panic!("{other:?}"),
    }
    match f.step(FinishEvent::Updated(Err("conflict".into()))) {
        FinishNext::End { end: Finished::Problem(p), told: false, .. } => {
            assert_eq!(p.message, "conflict");
        }
        other => panic!("{other:?}"),
    }
}

#[test]
fn a_row_without_a_baseline_takes_one() {
    let mut memory = Memory::new();
    let (f, t) = match finish(CloseEnd::Seed { seq: 5 }, Some(row(TaskState::Done, false)), &mut memory) {
        FinishNext::Ask(f, FinishAsk::Store(WriteAsk::Update(t))) => (f, t),
        other => panic!("{other:?}"),
    };
    assert_eq!(t.last_completion_seq, Some(5));
    match f.step(FinishEvent::Stored(WriteEvent::Updated(t))) {
        FinishNext::End { end: Finished::Problem(p), .. } => {
            assert_eq!(p.message, "the row had no completion baseline; recorded 5 from herdr");
        }
        other => panic!("{other:?}"),
    }
}

#[test]
fn a_close_without_a_row() {
    let mut memory = Memory::new();
    let orphan = CloseEnd::Orphan { released: "p1".into() };
    match finish(orphan, None, &mut memory) {
        FinishNext::End { end: Finished::Orphan(o), told: false, refresh: true } => {
            assert_eq!(
                o.message(),
                "closed orphaned agent t-7 on m; it had no task row"
            );
        }
        other => panic!("{other:?}"),
    }
    match finish(CloseEnd::Fault(CloseFault::NotFound), None, &mut memory) {
        FinishNext::End { end: Finished::Problem(p), told: false, refresh: false } => {
            assert_eq!(p.message, "task t-7 not found");
            assert_eq!(p.chain, vec![Cause::Other]);
        }
        other => panic!("{other:?}"),
    }
}

#[test]
fn a_subdir_stays_in_the_clone() {
    let sub = Some("plugins/echo".to_string());
    assert_eq!(
        install_dir(&None, "/c", Err("not asked".into())),
        Ok("/c".to_string())
    );
    assert_eq!(
        install_dir(&sub, "/c", Ok("/c/plugins/echo".into())),
        Ok("/c/plugins/echo".to_string())
    );
    assert_eq!(install_dir(&sub, "/c", Ok("/c".into())), Ok("/c".to_string()));
    assert_eq!(
        install_dir(&sub, "/c", Ok("/cc/echo".into())),
        Err(
            "subdir plugins/echo resolves to /cc/echo, outside the repository; refusing to install it"
                .to_string()
        )
    );
    assert_eq!(
        install_dir(&sub, "/c", Err("gone".into())),
        Err("subdir plugins/echo is not in the repository: gone".to_string())
    );
}
