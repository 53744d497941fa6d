//! Closing tasks, by command and on their own.

use pastor::machine::calls::Failure;
use pastor::machine::calls::Reply;
use pastor::machine::close::Asked;
use pastor::machine::close::CloseAsk;
use pastor::machine::close::CloseBy;
use pastor::machine::close::CloseEnd;
use pastor::machine::close::CloseEvent;
use pastor::machine::close::CloseFault;
use pastor::machine::close::CloseNext;
use pastor::machine::close::CloseNote;
use pastor::machine::close::CloseRun;
use pastor::machine::close::Created;
use pastor::machine::close::KeptWhy;
use pastor::machine::close_text::finish_auto_close;
use pastor::machine::close_text::manual_worktree_cleanup;
use pastor::machine::close_text::row_before_close;
use pastor::machine::close_text::row_changes;
use pastor::machine::close_text::seed_baseline;
use pastor::machine::occupant::checkout_path;
use pastor::machine::occupant::Around;
use pastor::machine::occupant::WorkspaceInfo;
use pastor::task::AgentInfo;
use pastor::task::AgentStatus;
use pastor::task::Checkout;
use pastor::task::DispatchSpec;
use pastor::task::Place;
use pastor::task::Task;
use pastor::task::TaskState;
use pastor::task::Words;
use pastor::time::Timestamp;

/// A done worktree task in pane `p1`, workspace `w1` of machine `m`.
fn done(place: Place) -> Task {
    Task {
        id: 1,
        job: "run".into(),
        state: TaskState::Done,
        prompt: "hi".into(),
        prompt_pending: false,
        activity_seen: false,
        machine: Some("m".into()),
        pane_id: Some("p1".into()),
        workspace_id: Some("w1".into()),
        agent_name: Some("t-1".into()),
        last_completion_seq: Some(5),
        error: None,
        started_at: None,
        finished_at: Some(Timestamp::at_secs(40)),
        updated_at: Timestamp::at_secs(40),
        spec: DispatchSpec {
            agent: "codex".into(),
            agent_args: Words::End,
            repo: Some("~/work/api".into()),
            worktree: true,
            branch: None,
            machine: None,
            tags: Words::End,
            timeout_secs: 60,
            checkout: Some(Checkout {
                branch: "pastor/t-1".into(),
                path: "/w/t-1".into(),
                already_open: false,
            }),
            place,
        },
    }
}

fn agent(name: &str, pane: &str, status: AgentStatus, seq: u64) -> AgentInfo {
    AgentInfo {
        name: Some(name.into()),
        pane_id: pane.into(),
        workspace_id: "w1".into(),
        agent_status: status,
        state_change_seq: seq,
        completion_seq: None,
        launch_pending: false,
    }
}

fn coded(code: &str) -> Failure {
    Failure {
        code: Some(code.into()),
        transport: false,
        message: format!("herdr: {code}"),
    }
}

/// What herdr answers.
struct Herdr {
    agents: fn() -> Vec<AgentInfo>,
    unpushed: Option<bool>,
    occupant: Option<&'static str>,
    open: Result<bool, &'static str>,
    remove: Option<&'static str>,
    pane: Option<&'static str>,
}

fn herdr() -> Herdr {
    Herdr {
        agents: || vec![agent("t-1", "p1", AgentStatus::Idle, 5)],
        unpushed: Some(false),
        occupant: None,
        open: Ok(false),
        remove: None,
        pane: None,
    }
}

impl Herdr {
    fn answer(&self, ask: &CloseAsk) -> CloseEvent {
        let reply = |code: Option<&str>| match code {
            None => Reply::Answer(()),
            Some(c) => Reply::Failed(coded(c)),
        };
        match ask {
            CloseAsk::Agents => CloseEvent::Agents(Reply::Answer((self.agents)())),
            CloseAsk::Unpushed { .. } => CloseEvent::Unpushed(Reply::Answer(self.unpushed)),
            CloseAsk::Occupant { .. } => {
                CloseEvent::Occupant(Reply::Answer(self.occupant.map(|o| o.to_string())))
            }
            CloseAsk::ClosePane { .. } => CloseEvent::PaneClosed(reply(self.pane)),
            CloseAsk::Open { .. } => CloseEvent::Opened(match self.open {
                Ok(already_open) => Reply::Answer(Created {
                    workspace_id: "w9".into(),
                    root_pane: "p9".into(),
                    already_open,
                }),
                Err(code) => Reply::Failed(coded(code)),
            }),
            CloseAsk::Remove { .. } => CloseEvent::Removed(reply(self.remove)),
            CloseAsk::CloseReopened { .. } => CloseEvent::ReopenedClosed,
        }
    }

    /// Close the task; what was asked, and how it ended.
    fn close(&self, row: Option<Task>, remove: bool, by: CloseBy) -> (Vec<String>, CloseEnd) {
        let mut asked = Vec::new();
        let mut next = CloseRun::start(row, 1, "m", remove, by);
        loop {
            match next {
                CloseNext::End(end) => return (asked, end),
                CloseNext::Ask(run, ask) => {
                    let ev = self.answer(&ask);
                    asked.push(match ask {
                        CloseAsk::Agents => "agents".to_string(),
                        CloseAsk::Unpushed { path } => format!("unpushed {path}"),
                        CloseAsk::Occupant { .. } => "occupant".to_string(),
                        CloseAsk::ClosePane { pane } => format!("close {pane}"),
                        CloseAsk::Open { repo, branch } => format!("open {repo} {branch}"),
                        CloseAsk::Remove { workspace } => format!("remove {workspace}"),
                        CloseAsk::CloseReopened { pane } => format!("close reopened {pane}"),
                    });
                    next = run.step(ev);
                }
            }
        }
    }
}

/// Without `--remove-worktree` only the pane goes.
#[test]
fn a_close_closes_the_pane() {
    let (asked, end) = herdr().close(Some(done(Place::Own)), false, CloseBy::Command);
    assert_eq!(asked, ["agents", "close p1"]);
    assert!(
        matches!(
            &end,
            CloseEnd::Closed {
                auto: false,
                clear_workspace: false,
                note: None,
                released: Some(p)
            } if p == "p1"
        ),
        "{end:?}"
    );
}

/// Removing the worktree removes the workspace, pane and all.
#[test]
fn a_worktree_goes_with_its_workspace() {
    let (asked, end) = herdr().close(Some(done(Place::Own)), true, CloseBy::Command);
    assert_eq!(asked, ["agents", "occupant", "remove w1"]);
    assert!(
        matches!(&end, CloseEnd::Closed { clear_workspace: true, note: None, .. }),
        "{end:?}"
    );
}

/// A task in a shared workspace has its checkout opened to be removed by; the
/// workspace made for that goes with it.
#[test]
fn a_shared_workspace_is_left_alone() {
    let (asked, end) = herdr().close(Some(done(Place::Pastor)), true, CloseBy::Command);
    assert_eq!(
        asked,
        [
            "agents",
            "occupant",
            "close p1",
            "open ~/work/api pastor/t-1",
            "remove w9"
        ]
    );
    assert!(matches!(&end, CloseEnd::Closed { clear_workspace: true, .. }), "{end:?}");

    // Refused: the workspace that was opened is closed again, nothing changes.
    let dirty = Herdr {
        remove: Some("dirty_worktree_requires_force"),
        ..herdr()
    };
    let (asked, end) = dirty.close(Some(done(Place::Pastor)), true, CloseBy::Command);
    assert_eq!(asked.last().unwrap(), "close reopened p9");
    assert!(
        matches!(&end, CloseEnd::Fault(CloseFault::Call(Asked::Remove, _))),
        "{end:?}"
    );

    // Shown by a workspace pastor did not open: it stays, and the row says so.
    let shown = Herdr {
        open: Ok(true),
        ..herdr()
    };
    let (_, end) = shown.close(Some(done(Place::Pastor)), true, CloseBy::Command);
    assert!(
        matches!(
            &end,
            CloseEnd::Closed {
                clear_workspace: false,
                note: Some(CloseNote::Kept(KeptWhy::ShownIn(w))),
                ..
            } if w == "w9"
        ),
        "{end:?}"
    );

    // Gone already: nothing is left to remove.
    let gone = Herdr {
        open: Err("worktree_not_found"),
        ..herdr()
    };
    let (_, end) = gone.close(Some(done(Place::Pastor)), true, CloseBy::Command);
    assert!(matches!(&end, CloseEnd::Closed { clear_workspace: true, .. }), "{end:?}");
}

/// Another agent in the checkout stops a close by command before anything closes.
#[test]
fn an_occupied_checkout_is_not_removed() {
    let busy = Herdr {
        occupant: Some("t-7"),
        ..herdr()
    };
    let (asked, end) = busy.close(Some(done(Place::Own)), true, CloseBy::Command);
    assert_eq!(asked, ["agents", "occupant"]);
    assert!(
        matches!(&end, CloseEnd::Fault(CloseFault::Occupied(who)) if who == "t-7"),
        "{end:?}"
    );
    // Auto-close keeps the checkout and closes the pane.
    let (asked, end) = busy.close(Some(done(Place::Own)), true, CloseBy::AutoClose);
    assert_eq!(asked, ["agents", "unpushed /w/t-1", "occupant", "close p1"]);
    assert!(
        matches!(
            &end,
            CloseEnd::Closed {
                auto: true,
                clear_workspace: false,
                note: Some(CloseNote::Kept(KeptWhy::Occupied(_))),
                ..
            }
        ),
        "{end:?}"
    );
}

/// Auto-close never loses work: commits no remote has and uncommitted changes
/// both keep the checkout.
#[test]
fn auto_close_keeps_unsaved_work() {
    let unpushed = Herdr {
        unpushed: Some(true),
        ..herdr()
    };
    let (asked, end) = unpushed.close(Some(done(Place::Own)), true, CloseBy::AutoClose);
    assert_eq!(asked, ["agents", "unpushed /w/t-1", "close p1"]);
    assert!(
        matches!(
            &end,
            CloseEnd::Closed {
                note: Some(CloseNote::Kept(KeptWhy::Unpushed)),
                ..
            }
        ),
        "{end:?}"
    );
    let dirty = Herdr {
        remove: Some("dirty_worktree_requires_force"),
        ..herdr()
    };
    let (asked, end) = dirty.close(Some(done(Place::Own)), true, CloseBy::AutoClose);
    assert_eq!(asked.last().unwrap(), "close p1");
    assert!(
        matches!(
            &end,
            CloseEnd::Closed {
                note: Some(CloseNote::Kept(KeptWhy::Dirty)),
                ..
            }
        ),
        "{end:?}"
    );
    let refused = Herdr {
        remove: Some("busy"),
        ..herdr()
    };
    let (_, end) = refused.close(Some(done(Place::Own)), true, CloseBy::AutoClose);
    assert!(
        matches!(
            &end,
            CloseEnd::Closed {
                note: Some(CloseNote::Kept(KeptWhy::Refused(m))),
                ..
            } if m == "herdr: busy"
        ),
        "{end:?}"
    );
}

/// Auto-close touches only settled work: an agent that works again, that moved on
/// since, or that is not the task's own is left alone.
#[test]
fn auto_close_leaves_unsettled_work_alone() {
    let auto = |agents: fn() -> Vec<AgentInfo>, row: Task| {
        Herdr { agents, ..herdr() }.close(Some(row), false, CloseBy::AutoClose)
    };
    let (asked, end) = auto(
        || vec![agent("t-1", "p1", AgentStatus::Working, 6)],
        done(Place::Own),
    );
    assert_eq!(asked, ["agents"]);
    assert!(
        matches!(end, CloseEnd::Fault(CloseFault::NotIdle(AgentStatus::Working))),
        "{end:?}"
    );
    let (_, end) = auto(
        || vec![agent("t-1", "p1", AgentStatus::Idle, 6)],
        done(Place::Own),
    );
    assert!(
        matches!(
            end,
            CloseEnd::Fault(CloseFault::SequenceMoved {
                state_change_seq: 6,
                completion_seq: None,
                baseline: 5
            })
        ),
        "{end:?}"
    );
    let (_, end) = auto(
        || vec![agent("someone", "p1", AgentStatus::Idle, 6)],
        done(Place::Own),
    );
    assert!(
        matches!(&end, CloseEnd::Fault(CloseFault::PaneReused { pane, .. }) if pane == "p1"),
        "{end:?}"
    );
    let no_baseline = Task {
        last_completion_seq: None,
        ..done(Place::Own)
    };
    let (_, end) = auto(|| vec![agent("t-1", "p1", AgentStatus::Idle, 6)], no_baseline);
    assert!(matches!(end, CloseEnd::Seed { seq: 6 }), "{end:?}");
    let moved_on = Task {
        state: TaskState::Running,
        ..done(Place::Own)
    };
    let (asked, end) = auto(|| vec![], moved_on);
    assert!(asked.is_empty());
    assert!(matches!(end, CloseEnd::Fault(CloseFault::NoLongerDone)), "{end:?}");
}

/// What ends a close before herdr is asked anything.
#[test]
fn what_a_close_refuses_at_once() {
    let close = |row: Task, remove: bool| herdr().close(Some(row), remove, CloseBy::Command);
    let mut plain = done(Place::Own);
    plain.spec.worktree = false;
    let (asked, end) = close(plain, true);
    assert!(asked.is_empty());
    assert!(matches!(end, CloseEnd::Fault(CloseFault::NoWorktree)), "{end:?}");
    let elsewhere = Task {
        machine: Some("other".into()),
        ..done(Place::Own)
    };
    let (_, end) = close(elsewhere, false);
    assert!(
        matches!(&end, CloseEnd::Fault(CloseFault::OnMachine(m)) if m == "other"),
        "{end:?}"
    );
    let never = Task {
        machine: None,
        ..done(Place::Own)
    };
    let (_, end) = close(never, false);
    assert!(matches!(end, CloseEnd::Closed { released: None, .. }), "{end:?}");
    let closed = Task {
        state: TaskState::Closed,
        workspace_id: None,
        ..done(Place::Own)
    };
    let (_, end) = close(closed, true);
    assert!(matches!(end, CloseEnd::Unchanged), "{end:?}");
}

/// An agent with no row is closed by its name; with neither there is nothing.
#[test]
fn an_orphan_is_closed_by_name() {
    let (asked, end) = herdr().close(None, false, CloseBy::Command);
    assert_eq!(asked, ["agents", "close p1"]);
    assert!(matches!(&end, CloseEnd::Orphan { released } if released == "p1"), "{end:?}");
    let nobody = Herdr {
        agents: || vec![],
        ..herdr()
    };
    let (_, end) = nobody.close(None, false, CloseBy::Command);
    assert!(matches!(end, CloseEnd::Fault(CloseFault::NotFound)), "{end:?}");
}

/// A pane that is gone already is what closing wanted; another failure is told.
#[test]
fn a_pane_that_is_gone_is_closed() {
    let gone = Herdr {
        pane: Some("pane_not_found"),
        ..herdr()
    };
    let (_, end) = gone.close(Some(done(Place::Own)), false, CloseBy::Command);
    assert!(matches!(end, CloseEnd::Closed { .. }), "{end:?}");
    let stuck = Herdr {
        pane: Some("busy"),
        ..herdr()
    };
    let (_, end) = stuck.close(Some(done(Place::Own)), false, CloseBy::Command);
    assert!(
        matches!(&end, CloseEnd::Fault(CloseFault::Call(Asked::ClosePane, _))),
        "{end:?}"
    );
}

/// A worktree without a workspace is left to the operator, by command; auto-close
/// takes it as gone.
#[test]
fn a_workspace_that_is_gone() {
    let gone = Herdr {
        remove: Some("workspace_not_found"),
        ..herdr()
    };
    let (_, end) = gone.close(Some(done(Place::Own)), true, CloseBy::Command);
    assert!(
        matches!(
            end,
            CloseEnd::Closed {
                clear_workspace: true,
                note: Some(CloseNote::ManualCleanup),
                ..
            }
        ),
        "{end:?}"
    );
    let (_, end) = gone.close(Some(done(Place::Own)), true, CloseBy::AutoClose);
    assert!(
        matches!(
            end,
            CloseEnd::Closed {
                auto: true,
                clear_workspace: true,
                note: None,
                ..
            }
        ),
        "{end:?}"
    );
}

#[test]
fn what_a_close_writes() {
    let note = Some(CloseNote::Kept(KeptWhy::Unpushed));
    assert!(row_changes(false, &note) && row_changes(true, &None) && !row_changes(false, &None));
    let t = finish_auto_close(done(Place::Own), false, note, Timestamp::at_secs(99));
    assert_eq!(t.state, TaskState::Closed);
    assert_eq!(t.finished_at, Some(Timestamp::at_secs(40)), "when the work finished");
    assert_eq!(
        t.error.as_deref(),
        Some(
            "worktree kept: commits on no remote on branch pastor/t-1 of ~/work/api; remove the \
             checkout with `git worktree remove` once it is saved"
        )
    );
    let t = row_before_close(done(Place::Own), true, Some(CloseNote::ManualCleanup));
    assert_eq!(t.workspace_id, None);
    assert_eq!(t.error.as_deref(), Some(manual_worktree_cleanup("t-1").as_str()));
    let fresh = Task {
        last_completion_seq: None,
        ..done(Place::Own)
    };
    assert_eq!(seed_baseline(fresh, 6).unwrap().last_completion_seq, Some(6));
    assert!(seed_baseline(done(Place::Own), 6).is_none(), "it has one");
}

/// Another agent at work in a checkout, wherever its pane is.
#[test]
fn a_checkout_is_occupied_by_who_works_in_it() {
    let workspaces = vec![
        WorkspaceInfo {
            workspace_id: "w1".into(),
            checkout_path: Some("/w/t-1".into()),
        },
        WorkspaceInfo {
            workspace_id: "w2".into(),
            checkout_path: None,
        },
    ];
    assert_eq!(checkout_path(None, Some("w1"), &workspaces).as_deref(), Some("/w/t-1"));
    assert_eq!(checkout_path(Some("/x"), Some("w1"), &workspaces).as_deref(), Some("/x"));
    assert_eq!(checkout_path(None, Some("w9"), &workspaces), None);

    let other = Task {
        id: 7,
        agent_name: Some("t-7".into()),
        ..done(Place::Pastor)
    };
    let others = vec![other];
    let around = |here: &Vec<bool>, agents: Vec<AgentInfo>| {
        Around {
            task_id: 1,
            pane: "p1",
            workspace: Some("w1"),
            workspaces: &workspaces,
            shows: &vec![true, false],
            others: &others,
            here,
        }
        .checkout_occupant(&agents)
    };
    let own = || agent("t-1", "p1", AgentStatus::Idle, 5);
    assert_eq!(around(&vec![false], vec![own()]), None, "the task's own agent");
    let beside = agent("someone", "p2", AgentStatus::Idle, 5);
    assert_eq!(around(&vec![false], vec![own(), beside]).as_deref(), Some("someone"));
    let far = || AgentInfo {
        workspace_id: "w2".into(),
        ..agent("t-7", "p3", AgentStatus::Idle, 5)
    };
    assert_eq!(around(&vec![true], vec![own(), far()]).as_deref(), Some("t-7"));
    assert_eq!(around(&vec![false], vec![own(), far()]), None);
}
