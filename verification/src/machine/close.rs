//! Closing a task: its pane, its worktree if asked, then its row.
//!
//! A close talks to herdr several times, and what it asks next depends on the
//! answers. [`CloseRun`] holds where a close stands; [`CloseRun::start`] and
//! [`CloseRun::step`] say what to ask herdr next, or how the close ends. herdr
//! comes first and the row second, so that a refusal leaves the task as it was.

use vstd::prelude::*;
use vstd::string::*;

use crate::machine::calls::Failure;
use crate::machine::calls::Reply;
use crate::task::AgentInfo;
use crate::task::AgentStatus;
use crate::task::Checkout;
use crate::task::Task;
use crate::task::TaskState;
use crate::task;
use crate::text;

verus! {

/// Who asked for a close. `pastor task close` refuses what herdr refuses;
/// auto-close of a done task closes the pane anyway when the worktree cannot
/// go without force, and writes the row only while it is still `Done`.
#[derive(Debug, Clone, Copy, PartialEq, Eq, Structural)]
pub enum CloseBy {
    Command,
    AutoClose,
}

/// A pane to close and the workspace it is in, where one is known.
#[derive(Debug)]
pub struct Target {
    pub pane: String,
    pub workspace: Option<String>,
}

/// A workspace herdr answered with when asked to open a checkout.
#[derive(Debug)]
pub struct Created {
    pub workspace_id: String,
    pub root_pane: String,
    /// herdr did not make it: it was there and showed the checkout.
    pub already_open: bool,
}

/// Why a worktree stays although its task closes.
#[derive(Debug)]
pub enum KeptWhy {
    /// It holds commits that no remote has.
    Unpushed,
    /// Another agent works in it.
    Occupied(String),
    /// A workspace already showed it when the task started.
    OpenBefore,
    /// A workspace pastor did not open shows it now.
    ShownIn(String),
    /// It has uncommitted changes.
    Dirty,
    /// herdr refused to remove it, for another reason.
    Refused(String),
}

/// What a close leaves on the row for the operator to read.
#[derive(Debug)]
pub enum CloseNote {
    Kept(KeptWhy),
    /// herdr has no workspace left to remove the checkout by.
    ManualCleanup,
}

/// Why a close did not happen.
#[derive(Debug)]
pub enum CloseFault {
    /// Auto-close: the row is not, or no longer, `Done` on this machine.
    NoLongerDone,
    /// There is no worktree to remove.
    NoWorktree,
    /// The task is on another machine.
    OnMachine(String),
    /// Auto-close: the recorded pane holds an agent under another name.
    PaneReused { pane: String, agent: Option<String> },
    /// Auto-close: the agent is at work again.
    NotIdle(AgentStatus),
    /// Auto-close: the agent finished a turn that has not settled yet.
    SequenceMoved { state_change_seq: u64, completion_seq: Option<u64>, baseline: u64 },
    /// The worktree has no workspace left to be removed by.
    ManualCleanup,
    /// There is neither a row nor an agent of that name.
    NotFound,
    /// Another agent works in the checkout.
    Occupied(String),
    /// The task recorded no workspace.
    NoWorkspace,
    /// A request failed.
    Call(Asked, Failure),
    /// A request got no answer in time.
    TimedOut(Asked),
}

/// The request a fault is about.
#[derive(Debug, Clone, Copy, PartialEq, Eq, Structural)]
pub enum Asked {
    Agents,
    Unpushed,
    Occupant,
    ClosePane,
    Open,
    Remove,
}

/// What a close asks of herdr.
#[allow(inconsistent_fields)]
#[derive(Debug)]
pub enum CloseAsk {
    /// `agent.list`.
    Agents,
    /// Whether the checkout has commits that no remote has.
    Unpushed { path: String },
    /// The agent, other than the one in `pane`, that works in the checkout or
    /// in the workspace.
    Occupant { pane: String, checkout: Option<String>, workspace: Option<String> },
    /// `pane.close` of the task's pane.
    ClosePane { pane: String },
    /// `worktree.open` of the branch's checkout.
    Open { repo: String, branch: String },
    /// `worktree.remove`, never forced.
    Remove { workspace: String },
    /// `pane.close` of the workspace that `worktree.open` made; a failure is
    /// let go.
    CloseReopened { pane: String },
}

/// What herdr answered.
#[derive(Debug)]
pub enum CloseEvent {
    Agents(Reply<Vec<AgentInfo>>),
    Unpushed(Reply<Option<bool>>),
    Occupant(Reply<Option<String>>),
    PaneClosed(Reply<()>),
    Opened(Reply<Created>),
    Removed(Reply<()>),
    ReopenedClosed,
}

/// How a close ends.
#[allow(inconsistent_fields)]
#[derive(Debug)]
pub enum CloseEnd {
    /// Nothing of the task changes.
    Fault(CloseFault),
    /// Auto-close: the row has no baseline to compare with. It takes this
    /// sequence as its baseline and is closed at a later pass.
    Seed { seq: u64 },
    /// The row is already as it should be.
    Unchanged,
    /// The row is closed. `released` is the pane that is no longer the task's.
    Closed {
        auto: bool,
        clear_workspace: bool,
        note: Option<CloseNote>,
        released: Option<String>,
    },
    /// There was no row; the agent of that name is gone.
    Orphan { released: String },
}

/// What comes next in a close.
#[derive(Debug)]
pub enum CloseNext {
    /// Ask herdr, and hand the answer to the run.
    Ask(CloseRun, CloseAsk),
    End(CloseEnd),
}

/// What a close waits for.
#[derive(Debug, Clone, Copy, PartialEq, Eq, Structural)]
pub enum Stage {
    Agents,
    Unpushed,
    Occupant,
    PaneFirst,
    Open,
    Remove,
    /// The reopened workspace is being closed; then the close ends with
    /// `failure`, or goes on if there is none.
    Reopened,
    PaneLast,
}

/// A close under way.
#[derive(Debug)]
pub struct CloseRun {
    pub row: Option<Task>,
    /// The name of the task and of its agent.
    pub name: String,
    pub machine: String,
    pub remove_worktree: bool,
    pub by: CloseBy,
    pub stage: Stage,
    /// The agents herdr listed.
    pub agents: Vec<AgentInfo>,
    /// The pane to close.
    pub pane: String,
    /// The workspace to remove the worktree by.
    pub workspace: Option<String>,
    pub note: Option<CloseNote>,
    pub close_pane: bool,
    pub worktree_gone: bool,
    pub keep_worktree: bool,
    /// herdr said that no other agent works in the checkout.
    pub unoccupied: bool,
    /// The root pane of the workspace opened to reach the checkout.
    pub reopened: Option<String>,
    /// Why `worktree.remove` failed, while the reopened workspace is closed.
    pub failure: Option<Failure>,
}

// ---------------------------------------------------------------------------
// What a close is about

/// The agents' index of the first one in the pane, or their number.
pub open spec fn in_pane(agents: Seq<AgentInfo>, pane: Seq<char>) -> int
    decreases agents.len(),
{
    if agents.len() == 0 {
        0
    } else if in_pane(agents.drop_last(), pane) < agents.len() - 1 {
        in_pane(agents.drop_last(), pane)
    } else if agents.last().pane_id@ == pane {
        agents.len() - 1
    } else {
        agents.len() as int
    }
}

/// The agents' index of the first one of that name, or their number.
pub open spec fn of_name(agents: Seq<AgentInfo>, name: Seq<char>) -> int
    decreases agents.len(),
{
    if agents.len() == 0 {
        0
    } else if of_name(agents.drop_last(), name) < agents.len() - 1 {
        of_name(agents.drop_last(), name)
    } else if text::opt_text(agents.last().name) == Some(name) {
        agents.len() - 1
    } else {
        agents.len() as int
    }
}

/// The first agent herdr lists in the pane.
pub open spec fn agent_in(agents: Seq<AgentInfo>, pane: Seq<char>) -> Option<AgentInfo> {
    if in_pane(agents, pane) < agents.len() {
        Some(agents[in_pane(agents, pane)])
    } else {
        None
    }
}

/// `in_pane` is the first agent in the pane.
pub proof fn lemma_in_pane(agents: Seq<AgentInfo>, pane: Seq<char>)
    ensures
        0 <= in_pane(agents, pane) <= agents.len(),
        in_pane(agents, pane) < agents.len() ==> agents[in_pane(agents, pane)].pane_id@ == pane,
        forall|k: int| 0 <= k < in_pane(agents, pane) ==> (#[trigger] agents[k]).pane_id@ != pane,
    decreases agents.len(),
{
    if agents.len() > 0 {
        lemma_in_pane(agents.drop_last(), pane);
        assert forall|k: int| 0 <= k < in_pane(agents, pane) implies (#[trigger] agents[k]).pane_id@
            != pane by {
            if k < agents.len() - 1 {
                assert(agents.drop_last()[k] == agents[k]);
            }
        }
    }
}

/// `of_name` is the first agent of the name.
pub proof fn lemma_of_name(agents: Seq<AgentInfo>, name: Seq<char>)
    ensures
        0 <= of_name(agents, name) <= agents.len(),
        of_name(agents, name) < agents.len() ==> text::opt_text(agents[of_name(agents, name)].name)
            == Some(name),
        forall|k: int|
            0 <= k < of_name(agents, name) ==> text::opt_text((#[trigger] agents[k]).name) != Some(
                name,
            ),
    decreases agents.len(),
{
    if agents.len() > 0 {
        lemma_of_name(agents.drop_last(), name);
        assert forall|k: int| 0 <= k < of_name(agents, name) implies text::opt_text(
            (#[trigger] agents[k]).name,
        ) != Some(name) by {
            if k < agents.len() - 1 {
                assert(agents.drop_last()[k] == agents[k]);
            }
        }
    }
}

/// Where the first agent in the pane stands in the list.
pub fn find_in_pane(agents: &Vec<AgentInfo>, pane: &str) -> (i: usize)
    ensures
        i == in_pane(agents@, pane@),
{
    let mut i: usize = 0;
    while i < agents.len() && !text::same_text(agents[i].pane_id.as_str(), pane)
        invariant
            i <= agents.len(),
            forall|k: int| 0 <= k < i ==> (#[trigger] agents@[k]).pane_id@ != pane@,
        decreases agents.len() - i,
    {
        i = i + 1;
    }
    proof {
        lemma_in_pane(agents@, pane@);
    }
    i
}

/// Whether the optional text is this one.
pub fn is_text(o: &Option<String>, s: &str) -> (b: bool)
    ensures
        b == (text::opt_text(*o) == Some(s@)),
{
    match o {
        Some(x) => text::same_text(x.as_str(), s),
        None => false,
    }
}

/// Where the first agent of the name stands in the list.
pub fn find_of_name(agents: &Vec<AgentInfo>, name: &str) -> (i: usize)
    ensures
        i == of_name(agents@, name@),
{
    let mut i: usize = 0;
    while i < agents.len() && !is_text(&agents[i].name, name)
        invariant
            i <= agents.len(),
            forall|k: int|
                0 <= k < i ==> text::opt_text((#[trigger] agents@[k]).name) != Some(name@),
        decreases agents.len() - i,
    {
        i = i + 1;
    }
    proof {
        lemma_of_name(agents@, name@);
    }
    i
}

// ---------------------------------------------------------------------------
// Before herdr is asked

/// The close ends before herdr is asked anything.
pub open spec fn gate(row: Option<Task>, remove_worktree: bool, by: CloseBy, machine: Seq<char>) -> Option<
    CloseEnd,
> {
    let auto_ok = row matches Some(t) && t.state is Done && t.on(machine);
    if by is AutoClose && !auto_ok {
        Some(CloseEnd::Fault(CloseFault::NoLongerDone))
    } else {
        match row {
            None => None,
            Some(t) => if remove_worktree && !t.spec.worktree {
                Some(CloseEnd::Fault(CloseFault::NoWorktree))
            } else {
                match t.machine {
                    // Never dispatched: nothing on any machine to close.
                    None => Some(
                        CloseEnd::Closed {
                            auto: false,
                            clear_workspace: false,
                            note: None,
                            released: None,
                        },
                    ),
                    Some(m) => if m@ != machine {
                        Some(CloseEnd::Fault(CloseFault::OnMachine(m)))
                    } else if remove_worktree && t.state is Closed && t.workspace_id is None {
                        // Its worktree was removed, or noted for removal by hand.
                        Some(CloseEnd::Unchanged)
                    } else {
                        None
                    },
                }
            },
        }
    }
}

fn gate_of(row: &Option<Task>, remove_worktree: bool, by: CloseBy, machine: &str) -> (r: Option<CloseEnd>)
    ensures
        r == gate(*row, remove_worktree, by, machine@),
{
    let auto_ok = match row {
        Some(t) => matches!(t.state, TaskState::Done) && t.is_on(machine),
        None => false,
    };
    if matches!(by, CloseBy::AutoClose) && !auto_ok {
        return Some(CloseEnd::Fault(CloseFault::NoLongerDone));
    }
    match row {
        None => None,
        Some(t) => {
            if remove_worktree && !t.spec.worktree {
                return Some(CloseEnd::Fault(CloseFault::NoWorktree));
            }
            match &t.machine {
                None => Some(
                    CloseEnd::Closed {
                        auto: false,
                        clear_workspace: false,
                        note: None,
                        released: None,
                    },
                ),
                Some(m) => if !text::same_text(m.as_str(), machine) {
                    Some(CloseEnd::Fault(CloseFault::OnMachine(m.clone())))
                } else if remove_worktree && matches!(t.state, TaskState::Closed)
                    && t.workspace_id.is_none() {
                    Some(CloseEnd::Unchanged)
                } else {
                    None
                },
            }
        },
    }
}

// ---------------------------------------------------------------------------
// What to close, once the agents are known

/// The pane the row records, whatever its state: a failed task can hold a pane
/// with no agent in it. A closed row's pane is not the task's any more, but
/// the workspace it records is still good for removing the worktree by.
pub open spec fn recorded(row: Option<Task>, remove_worktree: bool) -> Option<Target> {
    match row {
        Some(t) => match t.pane_id {
            Some(p) => if !(t.state is Closed) || remove_worktree {
                Some(Target { pane: p, workspace: t.workspace_id })
            } else {
                None
            },
            None => None,
        },
        None => None,
    }
}

/// The name the task's agent goes by.
pub open spec fn expected_name(row: Option<Task>, name: Seq<char>) -> Seq<char> {
    match row {
        Some(t) => match t.agent_name {
            Some(n) => n@,
            None => name,
        },
        None => name,
    }
}

/// The agent in the recorded pane, where it goes by another name: herdr handed
/// the pane out again, and it is someone else's.
pub open spec fn intruder(
    row: Option<Task>,
    name: Seq<char>,
    remove_worktree: bool,
    agents: Seq<AgentInfo>,
) -> Option<AgentInfo> {
    match recorded(row, remove_worktree) {
        Some(target) => match agent_in(agents, target.pane@) {
            Some(a) => if text::opt_text(a.name) != Some(expected_name(row, name)) {
                Some(a)
            } else {
                None
            },
            None => None,
        },
        None => None,
    }
}

/// What to close: the recorded pane, unless it holds someone else's agent; or
/// the pane of the agent that carries the task's name.
pub open spec fn target_of(
    row: Option<Task>,
    name: Seq<char>,
    remove_worktree: bool,
    agents: Seq<AgentInfo>,
) -> Option<Target> {
    if recorded(row, remove_worktree) is Some && intruder(row, name, remove_worktree, agents) is None {
        recorded(row, remove_worktree)
    } else if of_name(agents, name) < agents.len() {
        let a = agents[of_name(agents, name)];
        Some(Target { pane: a.pane_id, workspace: Some(a.workspace_id) })
    } else {
        None
    }
}

/// The sequence an agent's completions are counted by.
pub open spec fn completion_of(a: AgentInfo) -> u64 {
    match a.completion_seq {
        Some(s) => s,
        None => a.state_change_seq,
    }
}

/// Why auto-close leaves the agent in the target's pane alone, if it does: the
/// agent is at work again; the row has no baseline; or the agent finished a
/// turn since, which has not settled.
pub open spec fn unsettled(row: Option<Task>, agents: Seq<AgentInfo>, target: Target) -> Option<CloseEnd> {
    match agent_in(agents, target.pane@) {
        None => None,
        Some(a) => if !a.agent_status.idle() {
            Some(CloseEnd::Fault(CloseFault::NotIdle(a.agent_status)))
        } else {
            match row {
                None => None,
                Some(t) => match t.last_completion_seq {
                    None => Some(CloseEnd::Seed { seq: completion_of(a) }),
                    Some(baseline) => if completion_of(a) > baseline {
                        Some(
                            CloseEnd::Fault(
                                CloseFault::SequenceMoved {
                                    state_change_seq: a.state_change_seq,
                                    completion_seq: a.completion_seq,
                                    baseline,
                                },
                            ),
                        )
                    } else {
                        None
                    },
                },
            }
        },
    }
}

/// How a close ends that has nothing to close.
pub open spec fn nothing_to_close(row: Option<Task>, remove_worktree: bool, by: CloseBy) -> CloseEnd {
    match row {
        Some(_) => if remove_worktree {
            CloseEnd::Fault(CloseFault::ManualCleanup)
        } else {
            CloseEnd::Closed {
                auto: by is AutoClose,
                clear_workspace: false,
                note: None,
                released: None,
            }
        },
        None => CloseEnd::Fault(CloseFault::NotFound),
    }
}

/// What a close does once the agents are known: end, or go on with a target.
pub open spec fn settle_target(
    row: Option<Task>,
    name: Seq<char>,
    remove_worktree: bool,
    by: CloseBy,
    agents: Seq<AgentInfo>,
) -> Result<Target, CloseEnd> {
    let taken = intruder(row, name, remove_worktree, agents);
    let target = target_of(row, name, remove_worktree, agents);
    if by is AutoClose && taken is Some {
        Err(
            CloseEnd::Fault(
                CloseFault::PaneReused {
                    pane: recorded(row, remove_worktree)->0.pane,
                    agent: taken->0.name,
                },
            ),
        )
    } else {
        match target {
            None => Err(nothing_to_close(row, remove_worktree, by)),
            Some(t) => if by is AutoClose && unsettled(row, agents, t) is Some {
                Err(unsettled(row, agents, t)->0)
            } else {
                Ok(t)
            },
        }
    }
}

fn recorded_target(row: &Option<Task>, remove_worktree: bool) -> (r: Option<Target>)
    ensures
        r == recorded(*row, remove_worktree),
{
    match row {
        Some(t) => match &t.pane_id {
            Some(p) => if !matches!(t.state, TaskState::Closed) || remove_worktree {
                Some(Target { pane: p.clone(), workspace: t.workspace_id.clone() })
            } else {
                None
            },
            None => None,
        },
        None => None,
    }
}

fn goes_by(row: &Option<Task>, name: &str, agent: &AgentInfo) -> (b: bool)
    ensures
        b == (text::opt_text(agent.name) == Some(expected_name(*row, name@))),
{
    match row {
        Some(t) => match &t.agent_name {
            Some(n) => is_text(&agent.name, n.as_str()),
            None => is_text(&agent.name, name),
        },
        None => is_text(&agent.name, name),
    }
}

fn unsettled_end(row: &Option<Task>, agents: &Vec<AgentInfo>, target: &Target) -> (r: Option<CloseEnd>)
    ensures
        r == unsettled(*row, agents@, *target),
{
    let i = find_in_pane(agents, target.pane.as_str());
    if i >= agents.len() {
        return None;
    }
    let a = &agents[i];
    if !a.agent_status.is_idle() {
        return Some(CloseEnd::Fault(CloseFault::NotIdle(a.agent_status)));
    }
    let seq: u64 = match a.completion_seq {
        Some(s) => s,
        None => a.state_change_seq,
    };
    match row {
        None => None,
        Some(t) => match t.last_completion_seq {
            None => Some(CloseEnd::Seed { seq }),
            Some(baseline) => if seq > baseline {
                Some(
                    CloseEnd::Fault(
                        CloseFault::SequenceMoved {
                            state_change_seq: a.state_change_seq,
                            completion_seq: a.completion_seq,
                            baseline,
                        },
                    ),
                )
            } else {
                None
            },
        },
    }
}

fn settled_target(
    row: &Option<Task>,
    name: &str,
    remove_worktree: bool,
    by: CloseBy,
    agents: &Vec<AgentInfo>,
) -> (r: Result<Target, CloseEnd>)
    ensures
        r == settle_target(*row, name@, remove_worktree, by, agents@),
{
    let mut own = recorded_target(row, remove_worktree);
    let mut taken: Option<Option<String>> = None;
    if let Some(target) = &own {
        let i = find_in_pane(agents, target.pane.as_str());
        if i < agents.len() && !goes_by(row, name, &agents[i]) {
            if matches!(by, CloseBy::AutoClose) {
                return Err(
                    CloseEnd::Fault(
                        CloseFault::PaneReused {
                            pane: target.pane.clone(),
                            agent: agents[i].name.clone(),
                        },
                    ),
                );
            }
            taken = Some(agents[i].name.clone());
        }
    }
    if taken.is_some() {
        own = None;
    }
    let target = match own {
        Some(t) => Some(t),
        None => {
            let i = find_of_name(agents, name);
            if i < agents.len() {
                Some(
                    Target {
                        pane: agents[i].pane_id.clone(),
                        workspace: Some(agents[i].workspace_id.clone()),
                    },
                )
            } else {
                None
            }
        },
    };
    match target {
        None => Err(
            match row {
                Some(_) => if remove_worktree {
                    CloseEnd::Fault(CloseFault::ManualCleanup)
                } else {
                    CloseEnd::Closed {
                        auto: matches!(by, CloseBy::AutoClose),
                        clear_workspace: false,
                        note: None,
                        released: None,
                    }
                },
                None => CloseEnd::Fault(CloseFault::NotFound),
            },
        ),
        Some(t) => {
            if matches!(by, CloseBy::AutoClose) {
                if let Some(end) = unsettled_end(row, agents, &t) {
                    return Err(end);
                }
            }
            Ok(t)
        },
    }
}

// ---------------------------------------------------------------------------
// The close itself

impl CloseRun {
    /// The task works in a worktree from a workspace it did not make: the
    /// recorded workspace is never removed.
    pub open spec fn shared(self) -> bool {
        self.row matches Some(t) && t.spec.worktree && t.spec.place.shared()
    }

    /// The checkout the row records.
    pub open spec fn checkout(self) -> Option<Checkout> {
        match self.row {
            Some(t) => t.spec.checkout,
            None => None,
        }
    }

    /// The row is there and already closed.
    pub open spec fn row_closed(self) -> bool {
        self.row matches Some(t) && t.state is Closed
    }

    /// How the close ends once herdr has done its part.
    pub open spec fn finished(self) -> CloseEnd {
        match self.row {
            None => CloseEnd::Orphan { released: self.pane },
            Some(_) => if self.by is AutoClose {
                CloseEnd::Closed {
                    auto: true,
                    clear_workspace: self.worktree_gone,
                    note: self.note,
                    released: Some(self.pane),
                }
            } else if self.remove_worktree && self.keep_worktree {
                CloseEnd::Closed {
                    auto: false,
                    clear_workspace: false,
                    note: self.note,
                    released: Some(self.pane),
                }
            } else {
                CloseEnd::Closed {
                    auto: false,
                    clear_workspace: self.remove_worktree,
                    note: None,
                    released: Some(self.pane),
                }
            },
        }
    }

    /// The pane goes, unless it went before or went with its workspace.
    pub open spec fn pane_last(self) -> CloseNext {
        if self.close_pane {
            CloseNext::Ask(
                CloseRun { stage: Stage::PaneLast, ..self },
                CloseAsk::ClosePane { pane: self.pane },
            )
        } else {
            CloseNext::End(self.finished())
        }
    }

    /// The worktree goes, if it is to go and is not gone.
    pub open spec fn removal(self) -> CloseNext {
        if self.remove_worktree && !self.keep_worktree && !self.worktree_gone {
            match self.workspace {
                None => CloseNext::End(CloseEnd::Fault(CloseFault::NoWorkspace)),
                Some(ws) => CloseNext::Ask(
                    CloseRun { stage: Stage::Remove, ..self },
                    CloseAsk::Remove { workspace: ws },
                ),
            }
        } else {
            self.pane_last()
        }
    }

    /// The checkout of a task in a shared workspace is reached through a
    /// workspace herdr opens on it.
    pub open spec fn opening(self) -> CloseNext {
        match self.row {
            Some(t) => match (t.spec.checkout, t.spec.repo) {
                (Some(c), Some(repo)) => CloseNext::Ask(
                    CloseRun { stage: Stage::Open, ..self },
                    CloseAsk::Open { repo, branch: c.branch },
                ),
                _ => CloseNext::End(CloseEnd::Fault(CloseFault::ManualCleanup)),
            },
            None => CloseNext::End(CloseEnd::Fault(CloseFault::ManualCleanup)),
        }
    }

    /// For a task in a shared workspace its pane goes first (not a closed
    /// row's, which is not the task's any more), then its checkout is opened.
    pub open spec fn from_shared(self) -> CloseNext {
        if self.remove_worktree && !self.keep_worktree && self.shared() {
            let run = CloseRun { close_pane: false, ..self };
            if run.row_closed() {
                run.opening()
            } else {
                CloseNext::Ask(
                    CloseRun { stage: Stage::PaneFirst, ..run },
                    CloseAsk::ClosePane { pane: self.pane },
                )
            }
        } else {
            self.removal()
        }
    }

    /// A checkout that a workspace already showed when the task started stays:
    /// removing it would close that workspace, which is not pastor's.
    pub open spec fn unless_open_before(self) -> CloseNext {
        let before = self.checkout() matches Some(c) && c.already_open;
        if self.remove_worktree && !self.keep_worktree && before {
            (CloseRun {
                note: Some(CloseNote::Kept(KeptWhy::OpenBefore)),
                keep_worktree: true,
                close_pane: !self.row_closed(),
                ..self
            }).from_shared()
        } else {
            self.from_shared()
        }
    }

    /// A worktree goes only if no other agent works in it.
    pub open spec fn occupancy(self) -> CloseNext {
        if self.remove_worktree && !self.keep_worktree {
            CloseNext::Ask(
                CloseRun { stage: Stage::Occupant, ..self },
                CloseAsk::Occupant {
                    pane: self.pane,
                    checkout: match self.checkout() {
                        Some(c) => Some(c.path),
                        None => None,
                    },
                    workspace: if self.shared() {
                        None
                    } else {
                        self.workspace
                    },
                },
            )
        } else {
            self.unless_open_before()
        }
    }

    /// Auto-close keeps a checkout whose commits are on no remote.
    pub open spec fn pushed(self) -> CloseNext {
        match self.checkout() {
            Some(c) => if self.by is AutoClose && self.remove_worktree {
                CloseNext::Ask(
                    CloseRun { stage: Stage::Unpushed, ..self },
                    CloseAsk::Unpushed { path: c.path },
                )
            } else {
                self.occupancy()
            },
            None => self.occupancy(),
        }
    }

    /// The run whose agents are known and whose target is this.
    pub open spec fn aimed(self, agents: Vec<AgentInfo>, target: Target) -> CloseRun {
        CloseRun {
            agents,
            pane: target.pane,
            workspace: target.workspace,
            close_pane: !self.remove_worktree,
            ..self
        }
    }

    /// The checkout stays for this reason; the pane goes all the same.
    pub open spec fn keeping(self, why: KeptWhy) -> CloseRun {
        CloseRun {
            note: Some(CloseNote::Kept(why)),
            keep_worktree: true,
            close_pane: true,
            ..self
        }
    }

    /// The workspace opened to reach the checkout goes again, where there is one.
    pub open spec fn leave_reopened(self, failure: Option<Failure>) -> CloseNext {
        match self.reopened {
            Some(root) => CloseNext::Ask(
                CloseRun { stage: Stage::Reopened, failure, ..self },
                CloseAsk::CloseReopened { pane: root },
            ),
            None => match failure {
                Some(f) => CloseNext::End(CloseEnd::Fault(CloseFault::Call(Asked::Remove, f))),
                None => self.pane_last(),
            },
        }
    }

    /// What `worktree.remove` failing means.
    pub open spec fn removal_failed(self, f: Failure) -> CloseNext {
        if f.coded("workspace_not_found"@) {
            if self.by is AutoClose {
                // Already gone, pane and all.
                (CloseRun { worktree_gone: true, ..self }).pane_last()
            } else {
                // No pane is left to worry about either: the row closes, with
                // the advice a close without a target gives.
                CloseNext::End(
                    match self.row {
                        Some(_) => CloseEnd::Closed {
                            auto: false,
                            clear_workspace: true,
                            note: Some(CloseNote::ManualCleanup),
                            released: Some(self.pane),
                        },
                        None => CloseEnd::Orphan { released: self.pane },
                    },
                )
            }
        } else if self.by is AutoClose && f.code is Some {
            // Never forced: uncommitted work is worth more than a clean disk.
            let why = if f.coded("dirty_worktree_requires_force"@) {
                KeptWhy::Dirty
            } else {
                KeptWhy::Refused(f.message)
            };
            (CloseRun {
                note: Some(CloseNote::Kept(why)),
                close_pane: !self.shared(),
                ..self
            }).leave_reopened(None)
        } else {
            self.leave_reopened(Some(f))
        }
    }

    /// Whether the event answers what the run waits for.
    pub open spec fn awaits(self, ev: CloseEvent) -> bool {
        match self.stage {
            Stage::Agents => ev is Agents,
            Stage::Unpushed => ev is Unpushed,
            Stage::Occupant => ev is Occupant,
            Stage::PaneFirst => ev is PaneClosed,
            Stage::Open => ev is Opened,
            Stage::Remove => ev is Removed,
            Stage::Reopened => ev is ReopenedClosed,
            Stage::PaneLast => ev is PaneClosed,
        }
    }

    /// What a close does with herdr's answer.
    pub open spec fn after(self, ev: CloseEvent) -> CloseNext {
        match (self.stage, ev) {
            (Stage::Agents, CloseEvent::Agents(Reply::Answer(agents))) => match settle_target(
                self.row,
                self.name@,
                self.remove_worktree,
                self.by,
                agents@,
            ) {
                Err(end) => CloseNext::End(end),
                Ok(target) => self.aimed(agents, target).pushed(),
            },
            (Stage::Agents, CloseEvent::Agents(Reply::Failed(f))) => CloseNext::End(
                CloseEnd::Fault(CloseFault::Call(Asked::Agents, f)),
            ),
            (Stage::Agents, CloseEvent::Agents(Reply::TimedOut)) => CloseNext::End(
                CloseEnd::Fault(CloseFault::TimedOut(Asked::Agents)),
            ),
            (Stage::Unpushed, CloseEvent::Unpushed(Reply::Answer(unpushed))) => if unpushed == Some(true) {
                self.keeping(KeptWhy::Unpushed).occupancy()
            } else {
                self.occupancy()
            },
            (Stage::Unpushed, CloseEvent::Unpushed(Reply::Failed(f))) => CloseNext::End(
                CloseEnd::Fault(CloseFault::Call(Asked::Unpushed, f)),
            ),
            (Stage::Unpushed, CloseEvent::Unpushed(Reply::TimedOut)) => CloseNext::End(
                CloseEnd::Fault(CloseFault::TimedOut(Asked::Unpushed)),
            ),
            (Stage::Occupant, CloseEvent::Occupant(Reply::Answer(who))) => match who {
                None => (CloseRun { unoccupied: true, ..self }).unless_open_before(),
                Some(who) => if self.by is AutoClose {
                    self.keeping(KeptWhy::Occupied(who)).unless_open_before()
                } else {
                    CloseNext::End(CloseEnd::Fault(CloseFault::Occupied(who)))
                },
            },
            (Stage::Occupant, CloseEvent::Occupant(Reply::Failed(f))) => CloseNext::End(
                CloseEnd::Fault(CloseFault::Call(Asked::Occupant, f)),
            ),
            (Stage::Occupant, CloseEvent::Occupant(Reply::TimedOut)) => CloseNext::End(
                CloseEnd::Fault(CloseFault::TimedOut(Asked::Occupant)),
            ),
            (Stage::PaneFirst, CloseEvent::PaneClosed(reply)) => match pane_fault(reply) {
                Some(fault) => CloseNext::End(CloseEnd::Fault(fault)),
                None => self.opening(),
            },
            (Stage::Open, CloseEvent::Opened(Reply::Answer(created))) => if created.already_open {
                (CloseRun {
                    note: Some(CloseNote::Kept(KeptWhy::ShownIn(created.workspace_id))),
                    keep_worktree: true,
                    ..self
                }).removal()
            } else {
                (CloseRun {
                    workspace: Some(created.workspace_id),
                    reopened: Some(created.root_pane),
                    ..self
                }).removal()
            },
            (Stage::Open, CloseEvent::Opened(Reply::Failed(f))) => if f.coded("worktree_not_found"@) {
                // The checkout is gone already: nothing is left to remove.
                (CloseRun { worktree_gone: true, ..self }).removal()
            } else {
                CloseNext::End(CloseEnd::Fault(CloseFault::Call(Asked::Open, f)))
            },
            (Stage::Open, CloseEvent::Opened(Reply::TimedOut)) => CloseNext::End(
                CloseEnd::Fault(CloseFault::TimedOut(Asked::Open)),
            ),
            (Stage::Remove, CloseEvent::Removed(Reply::Answer(_))) => (CloseRun {
                worktree_gone: true,
                ..self
            }).pane_last(),
            (Stage::Remove, CloseEvent::Removed(Reply::Failed(f))) => self.removal_failed(f),
            (Stage::Remove, CloseEvent::Removed(Reply::TimedOut)) => CloseNext::End(
                CloseEnd::Fault(CloseFault::TimedOut(Asked::Remove)),
            ),
            (Stage::Reopened, CloseEvent::ReopenedClosed) => match self.failure {
                Some(f) => CloseNext::End(CloseEnd::Fault(CloseFault::Call(Asked::Remove, f))),
                None => self.pane_last(),
            },
            (Stage::PaneLast, CloseEvent::PaneClosed(reply)) => match pane_fault(reply) {
                Some(fault) => CloseNext::End(CloseEnd::Fault(fault)),
                None => CloseNext::End(self.finished()),
            },
            _ => arbitrary(),
        }
    }
}

/// What is wrong when a pane did not close; one already gone is what closing
/// wanted.
pub open spec fn pane_fault(reply: Reply<()>) -> Option<CloseFault> {
    match reply {
        Reply::Answer(_) => None,
        Reply::Failed(f) => if f.coded("pane_not_found"@) {
            None
        } else {
            Some(CloseFault::Call(Asked::ClosePane, f))
        },
        Reply::TimedOut => Some(CloseFault::TimedOut(Asked::ClosePane)),
    }
}

/// `pane.close` of a task's pane: whether the close may go on.
pub fn close_pane_of(reply: Reply<()>) -> (r: Option<CloseFault>)
    ensures
        r == pane_fault(reply),
{
    match reply {
        Reply::Answer(_) => None,
        Reply::Failed(f) => if f.has_code("pane_not_found") {
            None
        } else {
            Some(CloseFault::Call(Asked::ClosePane, f))
        },
        Reply::TimedOut => Some(CloseFault::TimedOut(Asked::ClosePane)),
    }
}

impl CloseRun {
    fn is_shared(&self) -> (b: bool)
        ensures
            b == self.shared(),
    {
        match &self.row {
            Some(t) => t.spec.worktree && t.spec.place.is_shared(),
            None => false,
        }
    }

    fn is_row_closed(&self) -> (b: bool)
        ensures
            b == self.row_closed(),
    {
        match &self.row {
            Some(t) => matches!(t.state, TaskState::Closed),
            None => false,
        }
    }

    fn go_finish(self) -> (r: CloseEnd)
        ensures
            r == self.finished(),
    {
        match self.row {
            None => CloseEnd::Orphan { released: self.pane },
            Some(_) => if matches!(self.by, CloseBy::AutoClose) {
                CloseEnd::Closed {
                    auto: true,
                    clear_workspace: self.worktree_gone,
                    note: self.note,
                    released: Some(self.pane),
                }
            } else if self.remove_worktree && self.keep_worktree {
                CloseEnd::Closed {
                    auto: false,
                    clear_workspace: false,
                    note: self.note,
                    released: Some(self.pane),
                }
            } else {
                CloseEnd::Closed {
                    auto: false,
                    clear_workspace: self.remove_worktree,
                    note: None,
                    released: Some(self.pane),
                }
            },
        }
    }

    fn go_pane_last(self) -> (r: CloseNext)
        ensures
            r == self.pane_last(),
    {
        if self.close_pane {
            let pane = self.pane.clone();
            CloseNext::Ask(CloseRun { stage: Stage::PaneLast, ..self }, CloseAsk::ClosePane { pane })
        } else {
            CloseNext::End(self.go_finish())
        }
    }

    fn go_removal(self) -> (r: CloseNext)
        ensures
            r == self.removal(),
    {
        if self.remove_worktree && !self.keep_worktree && !self.worktree_gone {
            match &self.workspace {
                None => CloseNext::End(CloseEnd::Fault(CloseFault::NoWorkspace)),
                Some(ws) => {
                    let workspace = ws.clone();
                    CloseNext::Ask(
                        CloseRun { stage: Stage::Remove, ..self },
                        CloseAsk::Remove { workspace },
                    )
                },
            }
        } else {
            self.go_pane_last()
        }
    }

    fn go_opening(self) -> (r: CloseNext)
        ensures
            r == self.opening(),
    {
        let found = match &self.row {
            Some(t) => match (&t.spec.checkout, &t.spec.repo) {
                (Some(c), Some(repo)) => Some((repo.clone(), c.branch.clone())),
                _ => None,
            },
            None => None,
        };
        match found {
            Some((repo, branch)) => CloseNext::Ask(
                CloseRun { stage: Stage::Open, ..self },
                CloseAsk::Open { repo, branch },
            ),
            None => CloseNext::End(CloseEnd::Fault(CloseFault::ManualCleanup)),
        }
    }

    fn go_from_shared(self) -> (r: CloseNext)
        ensures
            r == self.from_shared(),
    {
        if self.remove_worktree && !self.keep_worktree && self.is_shared() {
            let run = CloseRun { close_pane: false, ..self };
            if run.is_row_closed() {
                run.go_opening()
            } else {
                let pane = run.pane.clone();
                CloseNext::Ask(
                    CloseRun { stage: Stage::PaneFirst, ..run },
                    CloseAsk::ClosePane { pane },
                )
            }
        } else {
            self.go_removal()
        }
    }

    fn go_unless_open_before(self) -> (r: CloseNext)
        ensures
            r == self.unless_open_before(),
    {
        let before = match &self.row {
            Some(t) => match &t.spec.checkout {
                Some(c) => c.already_open,
                None => false,
            },
            None => false,
        };
        if self.remove_worktree && !self.keep_worktree && before {
            let close_pane = !self.is_row_closed();
            (CloseRun {
                note: Some(CloseNote::Kept(KeptWhy::OpenBefore)),
                keep_worktree: true,
                close_pane,
                ..self
            }).go_from_shared()
        } else {
            self.go_from_shared()
        }
    }

    fn go_occupancy(self) -> (r: CloseNext)
        ensures
            r == self.occupancy(),
    {
        if self.remove_worktree && !self.keep_worktree {
            let checkout = match &self.row {
                Some(t) => match &t.spec.checkout {
                    Some(c) => Some(c.path.clone()),
                    None => None,
                },
                None => None,
            };
            let workspace = if self.is_shared() {
                None
            } else {
                self.workspace.clone()
            };
            let pane = self.pane.clone();
            CloseNext::Ask(
                CloseRun { stage: Stage::Occupant, ..self },
                CloseAsk::Occupant { pane, checkout, workspace },
            )
        } else {
            self.go_unless_open_before()
        }
    }

    fn go_pushed(self) -> (r: CloseNext)
        ensures
            r == self.pushed(),
    {
        let path = match &self.row {
            Some(t) => match &t.spec.checkout {
                Some(c) => Some(c.path.clone()),
                None => None,
            },
            None => None,
        };
        match path {
            Some(path) => if matches!(self.by, CloseBy::AutoClose) && self.remove_worktree {
                CloseNext::Ask(
                    CloseRun { stage: Stage::Unpushed, ..self },
                    CloseAsk::Unpushed { path },
                )
            } else {
                self.go_occupancy()
            },
            None => self.go_occupancy(),
        }
    }

    fn keep(self, why: KeptWhy) -> (r: CloseRun)
        ensures
            r == self.keeping(why),
    {
        CloseRun {
            note: Some(CloseNote::Kept(why)),
            keep_worktree: true,
            close_pane: true,
            ..self
        }
    }

    fn go_leave_reopened(self, failure: Option<Failure>) -> (r: CloseNext)
        ensures
            r == self.leave_reopened(failure),
    {
        match &self.reopened {
            Some(root) => {
                let pane = root.clone();
                CloseNext::Ask(
                    CloseRun { stage: Stage::Reopened, failure, ..self },
                    CloseAsk::CloseReopened { pane },
                )
            },
            None => match failure {
                Some(f) => CloseNext::End(CloseEnd::Fault(CloseFault::Call(Asked::Remove, f))),
                None => self.go_pane_last(),
            },
        }
    }

    fn go_removal_failed(self, f: Failure) -> (r: CloseNext)
        ensures
            r == self.removal_failed(f),
    {
        if f.has_code("workspace_not_found") {
            if matches!(self.by, CloseBy::AutoClose) {
                (CloseRun { worktree_gone: true, ..self }).go_pane_last()
            } else {
                CloseNext::End(
                    match self.row {
                        Some(_) => CloseEnd::Closed {
                            auto: false,
                            clear_workspace: true,
                            note: Some(CloseNote::ManualCleanup),
                            released: Some(self.pane),
                        },
                        None => CloseEnd::Orphan { released: self.pane },
                    },
                )
            }
        } else if matches!(self.by, CloseBy::AutoClose) && f.code.is_some() {
            let why = if f.has_code("dirty_worktree_requires_force") {
                KeptWhy::Dirty
            } else {
                KeptWhy::Refused(f.message)
            };
            let close_pane = !self.is_shared();
            (CloseRun { note: Some(CloseNote::Kept(why)), close_pane, ..self }).go_leave_reopened(
                None,
            )
        } else {
            self.go_leave_reopened(Some(f))
        }
    }

    /// Begin a close of task `task_id`, whose row is `row`.
    pub fn start(
        row: Option<Task>,
        task_id: i64,
        machine: &str,
        remove_worktree: bool,
        by: CloseBy,
    ) -> (r: CloseNext)
        ensures
            (CloseOf { row, task_id: task_id as int, machine: machine@, remove_worktree, by }).begins(r),
    {
        if let Some(end) = gate_of(&row, remove_worktree, by, machine) {
            return CloseNext::End(end);
        }
        let run = CloseRun {
            row,
            name: Task::agent_name_for(task_id),
            machine: machine.to_owned(),
            remove_worktree,
            by,
            stage: Stage::Agents,
            agents: Vec::new(),
            pane: String::new(),
            workspace: None,
            note: None,
            close_pane: false,
            worktree_gone: false,
            keep_worktree: false,
            unoccupied: false,
            reopened: None,
            failure: None,
        };
        CloseNext::Ask(run, CloseAsk::Agents)
    }

    /// Nothing has come of the close yet.
    pub open spec fn fresh(self) -> bool {
        &&& self.note is None
        &&& !self.close_pane
        &&& !self.worktree_gone
        &&& !self.keep_worktree
        &&& !self.unoccupied
        &&& self.reopened is None
        &&& self.failure is None
    }

    /// Take herdr's answer and say what comes next.
    pub fn step(self, ev: CloseEvent) -> (r: CloseNext)
        requires
            self.awaits(ev),
        ensures
            r == self.after(ev),
    {
        match (self.stage, ev) {
            (Stage::Agents, CloseEvent::Agents(reply)) => match reply {
                Reply::Answer(agents) => match settled_target(
                    &self.row,
                    self.name.as_str(),
                    self.remove_worktree,
                    self.by,
                    &agents,
                ) {
                    Err(end) => CloseNext::End(end),
                    Ok(target) => (CloseRun {
                        agents,
                        pane: target.pane,
                        workspace: target.workspace,
                        close_pane: !self.remove_worktree,
                        ..self
                    }).go_pushed(),
                },
                Reply::Failed(f) => CloseNext::End(
                    CloseEnd::Fault(CloseFault::Call(Asked::Agents, f)),
                ),
                Reply::TimedOut => CloseNext::End(
                    CloseEnd::Fault(CloseFault::TimedOut(Asked::Agents)),
                ),
            },
            (Stage::Unpushed, CloseEvent::Unpushed(reply)) => match reply {
                Reply::Answer(unpushed) => match unpushed {
                    Some(true) => self.keep(KeptWhy::Unpushed).go_occupancy(),
                    _ => self.go_occupancy(),
                },
                Reply::Failed(f) => CloseNext::End(
                    CloseEnd::Fault(CloseFault::Call(Asked::Unpushed, f)),
                ),
                Reply::TimedOut => CloseNext::End(
                    CloseEnd::Fault(CloseFault::TimedOut(Asked::Unpushed)),
                ),
            },
            (Stage::Occupant, CloseEvent::Occupant(reply)) => match reply {
                Reply::Answer(None) => (CloseRun {
                    unoccupied: true,
                    ..self
                }).go_unless_open_before(),
                Reply::Answer(Some(who)) => if matches!(self.by, CloseBy::AutoClose) {
                    self.keep(KeptWhy::Occupied(who)).go_unless_open_before()
                } else {
                    CloseNext::End(CloseEnd::Fault(CloseFault::Occupied(who)))
                },
                Reply::Failed(f) => CloseNext::End(
                    CloseEnd::Fault(CloseFault::Call(Asked::Occupant, f)),
                ),
                Reply::TimedOut => CloseNext::End(
                    CloseEnd::Fault(CloseFault::TimedOut(Asked::Occupant)),
                ),
            },
            (Stage::PaneFirst, CloseEvent::PaneClosed(reply)) => match close_pane_of(reply) {
                Some(fault) => CloseNext::End(CloseEnd::Fault(fault)),
                None => self.go_opening(),
            },
            (Stage::Open, CloseEvent::Opened(reply)) => match reply {
                Reply::Answer(created) => if created.already_open {
                    (CloseRun {
                        note: Some(CloseNote::Kept(KeptWhy::ShownIn(created.workspace_id))),
                        keep_worktree: true,
                        ..self
                    }).go_removal()
                } else {
                    (CloseRun {
                        workspace: Some(created.workspace_id),
                        reopened: Some(created.root_pane),
                        ..self
                    }).go_removal()
                },
                Reply::Failed(f) => if f.has_code("worktree_not_found") {
                    (CloseRun { worktree_gone: true, ..self }).go_removal()
                } else {
                    CloseNext::End(CloseEnd::Fault(CloseFault::Call(Asked::Open, f)))
                },
                Reply::TimedOut => CloseNext::End(
                    CloseEnd::Fault(CloseFault::TimedOut(Asked::Open)),
                ),
            },
            (Stage::Remove, CloseEvent::Removed(reply)) => match reply {
                Reply::Answer(_) => (CloseRun { worktree_gone: true, ..self }).go_pane_last(),
                Reply::Failed(f) => self.go_removal_failed(f),
                Reply::TimedOut => CloseNext::End(
                    CloseEnd::Fault(CloseFault::TimedOut(Asked::Remove)),
                ),
            },
            (Stage::Reopened, CloseEvent::ReopenedClosed) => match self.failure {
                Some(f) => CloseNext::End(CloseEnd::Fault(CloseFault::Call(Asked::Remove, f))),
                None => self.go_pane_last(),
            },
            (Stage::PaneLast, CloseEvent::PaneClosed(reply)) => match close_pane_of(reply) {
                Some(fault) => CloseNext::End(CloseEnd::Fault(fault)),
                None => CloseNext::End(self.go_finish()),
            },
            _ => vstd::pervasive::unreached(),
        }
    }
}

// ---------------------------------------------------------------------------
// What holds of every close, whatever herdr answers

/// What a close was asked for.
pub struct CloseOf {
    pub row: Option<Task>,
    pub task_id: int,
    pub machine: Seq<char>,
    pub remove_worktree: bool,
    pub by: CloseBy,
}

/// The state of a close after herdr answered in this order, and no further than
/// its end.
pub open spec fn follow(next: CloseNext, events: Seq<CloseEvent>) -> CloseNext
    decreases events.len(),
{
    if events.len() == 0 {
        next
    } else {
        match follow(next, events.drop_last()) {
            CloseNext::End(end) => CloseNext::End(end),
            CloseNext::Ask(run, _) => run.after(events.last()),
        }
    }
}

/// Every event answers what the close waited for.
pub open spec fn answered(next: CloseNext, events: Seq<CloseEvent>) -> bool
    decreases events.len(),
{
    events.len() == 0 || (answered(next, events.drop_last()) && (follow(next, events.drop_last()) matches CloseNext::Ask(
        run,
        _,
    ) ==> run.awaits(events.last())))
}

impl CloseOf {
    /// The name of the task and of its agent.
    pub open spec fn name(self) -> Seq<char> {
        task::task_name(self.task_id)
    }

    /// How the close begins.
    pub open spec fn begins(self, next: CloseNext) -> bool {
        match gate(self.row, self.remove_worktree, self.by, self.machine) {
            Some(end) => next == CloseNext::End(end),
            None => next matches CloseNext::Ask(run, CloseAsk::Agents) && {
                &&& run.stage is Agents
                &&& self.is_of(run)
                &&& run.fresh()
            },
        }
    }

    /// The run is one of this close.
    pub open spec fn is_of(self, run: CloseRun) -> bool {
        &&& run.row == self.row
        &&& run.name@ == self.name()
        &&& run.machine@ == self.machine
        &&& run.remove_worktree == self.remove_worktree
        &&& run.by == self.by
        &&& gate(self.row, self.remove_worktree, self.by, self.machine) is None
    }

    /// What the run closes follows from the agents herdr listed.
    pub open spec fn aims(self, run: CloseRun) -> bool {
        settle_target(self.row, self.name(), self.remove_worktree, self.by, run.agents@) matches Ok(t)
            && t.pane == run.pane
    }

    /// The checkout may go: it is to go, no other agent works in it, and no
    /// workspace showed it before the task did.
    pub open spec fn may_remove(self, run: CloseRun) -> bool {
        &&& self.remove_worktree
        &&& !run.keep_worktree
        &&& run.unoccupied
        &&& !(run.checkout() matches Some(c) && c.already_open)
    }

    /// What holds at every point of the close.
    pub open spec fn lawful(self, next: CloseNext) -> bool {
        match next {
            CloseNext::Ask(run, ask) => {
                &&& self.is_of(run)
                &&& run.stage is Agents <==> ask is Agents
                &&& run.stage is Agents ==> run.fresh()
                &&& !(run.stage is Agents) ==> self.aims(run)
                &&& run.keep_worktree ==> run.note is Some && !run.worktree_gone
                &&& run.worktree_gone ==> self.remove_worktree
                &&& run.stage is Unpushed || run.stage is Occupant ==> !run.keep_worktree
                    && !run.worktree_gone && !run.close_pane && self.remove_worktree
                &&& !(run.stage is Reopened) ==> run.failure is None
                &&& run.stage is PaneFirst || run.stage is Open ==> self.may_remove(run) && run.shared()
                    && !run.worktree_gone && !run.close_pane
                &&& run.stage is Remove ==> self.may_remove(run) && !run.worktree_gone
                    && !run.close_pane && (run.shared() ==> run.reopened is Some)
                &&& run.stage is Reopened || run.stage is PaneLast ==> (!run.worktree_gone
                    && self.remove_worktree && run.failure is None ==> run.note is Some)
                &&& ask matches CloseAsk::Remove { workspace } ==> run.stage is Remove
                    && run.workspace == Some(workspace)
                &&& ask matches CloseAsk::ClosePane { pane } ==> pane == run.pane
                &&& ask matches CloseAsk::CloseReopened { pane } ==> run.reopened == Some(pane)
                &&& ask is Open ==> run.stage is Open
            },
            CloseNext::End(end) => self.ends(end),
        }
    }

    /// What holds of the end of a close.
    pub open spec fn ends(self, end: CloseEnd) -> bool {
        match end {
            CloseEnd::Closed { auto, clear_workspace, note, released } => {
                &&& self.row is Some
                &&& auto == (self.by is AutoClose)
                &&& clear_workspace ==> self.remove_worktree
                &&& released is Some && self.remove_worktree ==> clear_workspace || note is Some
            },
            CloseEnd::Seed { .. } => self.by is AutoClose && self.row is Some,
            CloseEnd::Unchanged => self.row is Some,
            CloseEnd::Orphan { .. } => self.row is None,
            CloseEnd::Fault(_) => true,
        }
    }
}

/// One more answer keeps what holds of a close.
proof fn lemma_step_lawful(c: CloseOf, run: CloseRun, ask: CloseAsk, ev: CloseEvent)
    requires
        c.lawful(CloseNext::Ask(run, ask)),
        run.awaits(ev),
    ensures
        c.lawful(run.after(ev)),
{
}

/// Every close that begins as it should keeps, whatever herdr answers, what
/// [`CloseOf::lawful`] says.
pub proof fn every_close_is_lawful(c: CloseOf, begun: CloseNext, events: Seq<CloseEvent>)
    requires
        c.begins(begun),
        answered(begun, events),
    ensures
        c.lawful(follow(begun, events)),
    decreases events.len(),
{
    if events.len() > 0 {
        every_close_is_lawful(c, begun, events.drop_last());
        if let CloseNext::Ask(run, ask) = follow(begun, events.drop_last()) {
            lemma_step_lawful(c, run, ask, events.last());
        }
    }
}

/// A worktree is removed only if that was asked, no other agent works in it, no
/// workspace showed it before the task did, and, for a task in a shared
/// workspace, only through a workspace this close had herdr open.
pub proof fn a_worktree_goes_only_when_it_is_free(
    c: CloseOf,
    begun: CloseNext,
    events: Seq<CloseEvent>,
    run: CloseRun,
    workspace: String,
)
    requires
        c.begins(begun),
        answered(begun, events),
        follow(begun, events) == CloseNext::Ask(run, CloseAsk::Remove { workspace }),
    ensures
        c.remove_worktree,
        run.unoccupied,
        !(run.checkout() matches Some(k) && k.already_open),
        run.shared() ==> run.reopened is Some,
        run.workspace == Some(workspace),
{
    every_close_is_lawful(c, begun, events);
}

/// Auto-close asks anything of herdr beyond the list of agents only for a row
/// that is `Done` on its machine, and only while the agent in the pane, if
/// there is one, is idle and has finished nothing past the row's baseline.
pub proof fn auto_close_touches_only_settled_work(
    c: CloseOf,
    begun: CloseNext,
    events: Seq<CloseEvent>,
    run: CloseRun,
    ask: CloseAsk,
)
    requires
        c.by is AutoClose,
        c.begins(begun),
        answered(begun, events),
        follow(begun, events) == CloseNext::Ask(run, ask),
        !(ask is Agents),
    ensures
        c.row matches Some(t) && t.state is Done && t.on(c.machine),
        agent_in(run.agents@, run.pane@) matches Some(a) ==> {
            &&& a.agent_status.idle()
            &&& c.row->0.last_completion_seq matches Some(baseline)
            &&& completion_of(a) <= baseline
        },
        intruder(c.row, c.name(), c.remove_worktree, run.agents@) is None,
{
    every_close_is_lawful(c, begun, events);
}

/// A close closes no pane but the one it settled on: the task's own recorded
/// pane, or the pane of the agent that carries the task's name.
pub proof fn a_close_closes_only_its_target(
    c: CloseOf,
    begun: CloseNext,
    events: Seq<CloseEvent>,
    run: CloseRun,
    pane: String,
)
    requires
        c.begins(begun),
        answered(begun, events),
        follow(begun, events) == CloseNext::Ask(run, CloseAsk::ClosePane { pane }),
    ensures
        target_of(c.row, c.name(), c.remove_worktree, run.agents@) matches Some(t) && t.pane == pane,
{
    every_close_is_lawful(c, begun, events);
}

/// A worktree that was to go and did not is accounted for: the row that closes
/// either records no workspace any more or carries a note.
pub proof fn a_worktree_that_stays_is_noted(
    c: CloseOf,
    begun: CloseNext,
    events: Seq<CloseEvent>,
    auto: bool,
    clear_workspace: bool,
    note: Option<CloseNote>,
    pane: String,
)
    requires
        c.remove_worktree,
        c.begins(begun),
        answered(begun, events),
        follow(begun, events) == CloseNext::End(
            CloseEnd::Closed { auto, clear_workspace, note, released: Some(pane) },
        ),
    ensures
        clear_workspace || note is Some,
        auto == (c.by is AutoClose),
{
    every_close_is_lawful(c, begun, events);
}

/// A removal that herdr refuses leaves a task closed by command as it was: the
/// close ends in a fault, at most after the workspace it opened is closed again.
pub proof fn a_refused_removal_changes_nothing(run: CloseRun, f: Failure)
    requires
        run.by is Command,
        run.stage is Remove,
        !f.coded("workspace_not_found"@),
    ensures
        match run.after(CloseEvent::Removed(Reply::Failed(f))) {
            CloseNext::End(end) => end == CloseEnd::Fault(CloseFault::Call(Asked::Remove, f)),
            CloseNext::Ask(then, ask) => {
                &&& ask is CloseReopened
                &&& then.after(CloseEvent::ReopenedClosed) == CloseNext::End(
                    CloseEnd::Fault(CloseFault::Call(Asked::Remove, f)),
                )
            },
        },
{
}

/// Auto-close never removes a checkout with commits that no remote has: the
/// pane closes, the checkout stays, and the row says why.
pub proof fn unpushed_commits_keep_the_worktree(c: CloseOf, run: CloseRun, ask: CloseAsk, done: Reply<()>)
    requires
        c.lawful(CloseNext::Ask(run, ask)),
        run.stage is Unpushed,
        c.by is AutoClose,
        pane_fault(done) is None,
    ensures
        match run.after(CloseEvent::Unpushed(Reply::Answer(Some(true)))) {
            CloseNext::Ask(then, CloseAsk::ClosePane { pane }) => {
                &&& pane == run.pane
                &&& then.after(CloseEvent::PaneClosed(done)) == CloseNext::End(
                    CloseEnd::Closed {
                        auto: true,
                        clear_workspace: false,
                        note: Some(CloseNote::Kept(KeptWhy::Unpushed)),
                        released: Some(run.pane),
                    },
                )
            },
            _ => false,
        },
{
}

/// Some question of the close so far asked to close the pane.
pub open spec fn asked_to_close(begun: CloseNext, events: Seq<CloseEvent>, pane: Seq<char>) -> bool {
    exists|k: int|
        0 <= k <= events.len() && (#[trigger] follow(begun, events.take(k)) matches CloseNext::Ask(
            _,
            CloseAsk::ClosePane { pane: p },
        ) && p@ == pane)
}

/// Some question of the close so far asked to remove the workspace.
pub open spec fn asked_to_remove(begun: CloseNext, events: Seq<CloseEvent>, workspace: Option<String>) -> bool {
    exists|k: int|
        0 <= k <= events.len() && (#[trigger] follow(begun, events.take(k)) matches CloseNext::Ask(
            _,
            CloseAsk::Remove { workspace: w },
        ) && workspace == Some(w))
}

/// What was asked stays asked.
proof fn lemma_asked_before(begun: CloseNext, events: Seq<CloseEvent>, pane: Seq<char>, workspace: Option<String>)
    requires
        events.len() > 0,
    ensures
        asked_to_close(begun, events.drop_last(), pane) ==> asked_to_close(begun, events, pane),
        asked_to_remove(begun, events.drop_last(), workspace) ==> asked_to_remove(
            begun,
            events,
            workspace,
        ),
        follow(begun, events) matches CloseNext::Ask(_, CloseAsk::ClosePane { pane: p }) && p@ == pane
            ==> asked_to_close(begun, events, pane),
        follow(begun, events) matches CloseNext::Ask(_, CloseAsk::Remove { workspace: w })
            && workspace == Some(w) ==> asked_to_remove(begun, events, workspace),
{
    let first = events.drop_last();
    assert(events.take(events.len() as int) =~= events);
    if asked_to_close(begun, first, pane) {
        let k = choose|k: int|
            0 <= k <= first.len() && (#[trigger] follow(begun, first.take(k)) matches CloseNext::Ask(
                _,
                CloseAsk::ClosePane { pane: p },
            ) && p@ == pane);
        assert(events.take(k) =~= first.take(k));
    }
    if asked_to_remove(begun, first, workspace) {
        let k = choose|k: int|
            0 <= k <= first.len() && (#[trigger] follow(begun, first.take(k)) matches CloseNext::Ask(
                _,
                CloseAsk::Remove { workspace: w },
            ) && workspace == Some(w));
        assert(events.take(k) =~= first.take(k));
    }
}

/// Where a close of a row that is not closed and holds its pane stands after any answers.
proof fn lemma_held_pane(c: CloseOf, t: Task, p: String, agents: Vec<AgentInfo>, begun: CloseNext, events: Seq<CloseEvent>)
    requires
        c.by is Command,
        c.row == Some(t),
        !(t.state is Closed),
        t.machine matches Some(m) && m@ == c.machine,
        c.remove_worktree ==> t.spec.worktree,
        t.pane_id == Some(p),
        c.begins(begun),
        answered(begun, events),
        events.len() > 0,
        events[0] == CloseEvent::Agents(Reply::Answer(agents)),
        forall|i: int|
            0 <= i < agents@.len() && (#[trigger] agents@[i]).pane_id@ == p@ ==> text::opt_text(
                agents@[i].name,
            ) == Some(
                if t.agent_name is Some {
                    t.agent_name->0@
                } else {
                    "t-"@ + crate::digits::signed_decimal(c.task_id)
                },
            ),
    ensures
        match follow(begun, events) {
            CloseNext::Ask(run, ask) => {
                &&& !(run.stage is Agents)
                &&& run.pane == p
                &&& run.reopened is None ==> run.workspace == t.workspace_id
                &&& !c.remove_worktree ==> asked_to_close(begun, events, p@)
                &&& run.stage is PaneLast || run.stage is PaneFirst || run.stage is Open
                    || run.stage is Reopened || run.reopened is Some ==> asked_to_close(
                    begun,
                    events,
                    p@,
                )
                &&& run.stage is Remove && run.reopened is None ==> asked_to_remove(
                    begun,
                    events,
                    t.workspace_id,
                )
            },
            CloseNext::End(CloseEnd::Closed { released, .. }) => released == Some(p) && (asked_to_close(
                begun,
                events,
                p@,
            ) || asked_to_remove(begun, events, t.workspace_id)),
            _ => true,
        },
    decreases events.len(),
{
    lemma_in_pane(agents@, p@);
    let first = events.drop_last();
    lemma_asked_before(begun, events, p@, t.workspace_id);
    every_close_is_lawful(c, begun, events);
    every_close_is_lawful(c, begun, first);
    if first.len() > 0 {
        lemma_held_pane(c, t, p, agents, begun, first);
    } else {
        assert(first =~= Seq::<CloseEvent>::empty());
        assert(follow(begun, first) == begun);
        assert(events.last() == events[0]);
    }
}

/// A close by command of a row on this machine, in any state but closed, that records a
/// pane which no agent of another name is in: however herdr answers from then on, the
/// row closes only after herdr was asked to close that very pane or to remove its
/// workspace, and the pane is released.
pub proof fn a_close_by_command_gives_up_the_recorded_pane(
    c: CloseOf,
    t: Task,
    p: String,
    agents: Vec<AgentInfo>,
    begun: CloseNext,
    events: Seq<CloseEvent>,
    end: CloseEnd,
)
    requires
        c.by is Command,
        c.row == Some(t),
        !(t.state is Closed),
        t.machine matches Some(m) && m@ == c.machine,
        t.pane_id == Some(p),
        c.begins(begun),
        answered(begun, events),
        events.len() > 0,
        events[0] == CloseEvent::Agents(Reply::Answer(agents)),
        forall|i: int|
            0 <= i < agents@.len() && (#[trigger] agents@[i]).pane_id@ == p@ ==> text::opt_text(
                agents@[i].name,
            ) == Some(
                if t.agent_name is Some {
                    t.agent_name->0@
                } else {
                    "t-"@ + crate::digits::signed_decimal(c.task_id)
                },
            ),
        follow(begun, events) == CloseNext::End(end),
    ensures
        end is Closed || end is Fault,
        end matches CloseEnd::Closed { auto, released, .. } ==> !auto && released == Some(p) && (
        asked_to_close(begun, events, p@) || asked_to_remove(begun, events, t.workspace_id)),
{
    every_close_is_lawful(c, begun, events);
    if c.remove_worktree && !t.spec.worktree {
        lemma_ended(begun, events);
    } else {
        lemma_held_pane(c, t, p, agents, begun, events);
        lemma_row_ends(c, t, begun, events);
    }
}

/// A close that has ended stays as it ended.
proof fn lemma_ended(begun: CloseNext, events: Seq<CloseEvent>)
    requires
        begun is End,
    ensures
        follow(begun, events) == begun,
    decreases events.len(),
{
    if events.len() > 0 {
        lemma_ended(begun, events.drop_last());
    }
}

/// A close by command of a row that is not closed ends with the row closed or with a
/// fault.
proof fn lemma_row_ends(c: CloseOf, t: Task, begun: CloseNext, events: Seq<CloseEvent>)
    requires
        c.by is Command,
        c.row == Some(t),
        !(t.state is Closed),
        c.begins(begun),
        answered(begun, events),
    ensures
        follow(begun, events) matches CloseNext::End(end) ==> end is Closed || end is Fault,
    decreases events.len(),
{
    if events.len() > 0 {
        lemma_row_ends(c, t, begun, events.drop_last());
        every_close_is_lawful(c, begun, events.drop_last());
    }
}

/// What a close comes to before herdr is asked: auto-close goes on only for a row that is
/// done on this machine; there has to be a worktree to remove; a task that no machine
/// holds closes at once; one on another machine is left to that one; and a closed task
/// whose workspace is gone already is as it should be. Any other close asks for the
/// agents first.
pub proof fn what_a_close_comes_to_at_first(
    row: Option<Task>,
    task_id: i64,
    machine: &str,
    remove_worktree: bool,
    by: CloseBy,
    r: CloseNext,
)
    requires
        call_ensures(CloseRun::start, (row, task_id, machine, remove_worktree, by), r),
    ensures
        by is AutoClose && (row is None || !(row->0.state is Done) || row->0.machine is None
            || row->0.machine->0@ != machine@) ==> r == CloseNext::End(
            CloseEnd::Fault(CloseFault::NoLongerDone),
        ),
        by is Command && row is Some && remove_worktree && !row->0.spec.worktree ==> r
            == CloseNext::End(CloseEnd::Fault(CloseFault::NoWorktree)),
        by is Command && row is Some && (remove_worktree ==> row->0.spec.worktree)
            && row->0.machine is None ==> r == CloseNext::End(
            CloseEnd::Closed { auto: false, clear_workspace: false, note: None, released: None },
        ),
        by is Command && row is Some && (remove_worktree ==> row->0.spec.worktree)
            && row->0.machine is Some && row->0.machine->0@ != machine@ ==> r == CloseNext::End(
            CloseEnd::Fault(CloseFault::OnMachine(row->0.machine->0)),
        ),
        by is Command && row is Some && (remove_worktree ==> row->0.spec.worktree)
            && row->0.machine is Some && row->0.machine->0@ == machine@ ==> if remove_worktree
            && row->0.state is Closed && row->0.workspace_id is None {
            r == CloseNext::End(CloseEnd::Unchanged)
        } else {
            r is Ask
        },
        by is Command && row is None ==> r is Ask,
        by is AutoClose && row is Some && row->0.state is Done && row->0.machine is Some
            && row->0.machine->0@ == machine@ ==> if remove_worktree && !row->0.spec.worktree {
            r == CloseNext::End(CloseEnd::Fault(CloseFault::NoWorktree))
        } else {
            r is Ask
        },
        r matches CloseNext::Ask(run, ask) ==> {
            &&& ask is Agents
            &&& run.stage is Agents
            &&& run.row == row
            &&& run.name@ == "t-"@ + crate::digits::signed_decimal(task_id as int)
            &&& run.remove_worktree == remove_worktree
            &&& run.by == by
        },
{
}

/// The agent at `i` is the first that herdr lists in the pane.
pub open spec fn is_first_in(agents: Seq<AgentInfo>, pane: Seq<char>, i: int) -> bool {
    &&& 0 <= i < agents.len()
    &&& agents[i].pane_id@ == pane
    &&& forall|k: int| 0 <= k < i ==> (#[trigger] agents[k]).pane_id@ != pane
}

/// The agent at `i` is the first that goes by the name.
pub open spec fn is_first_named(agents: Seq<AgentInfo>, name: Seq<char>, i: int) -> bool {
    &&& 0 <= i < agents.len()
    &&& text::opt_text(agents[i].name) == Some(name)
    &&& forall|k: int| 0 <= k < i ==> text::opt_text((#[trigger] agents[k]).name) != Some(name)
}

/// Auto-close of a done task, once the agents are listed: a pane that holds an agent of
/// another name is left; so is an agent at work, and one that finished a turn past the
/// row's baseline; a row without a baseline takes the agent's sequence as its own; and
/// else the close goes on with the recorded pane.
pub proof fn auto_close_leaves_what_is_not_settled(
    run: CloseRun,
    t: Task,
    p: String,
    agents: Vec<AgentInfo>,
    i: int,
    r: CloseNext,
)
    requires
        run.stage is Agents,
        run.fresh(),
        run.by is AutoClose,
        run.row == Some(t),
        t.state is Done,
        t.pane_id == Some(p),
        is_first_in(agents@, p@, i),
        call_ensures(CloseRun::step, (run, CloseEvent::Agents(Reply::Answer(agents))), r),
    ensures
        ({
            let a = agents@[i];
            let own = text::opt_text(a.name) == Some(
                if t.agent_name is Some {
                    t.agent_name->0@
                } else {
                    run.name@
                },
            );
            let seq = if a.completion_seq is Some {
                a.completion_seq->0
            } else {
                a.state_change_seq
            };
            let idle = a.agent_status is Idle || a.agent_status is Done;
            &&& !own ==> r == CloseNext::End(
                CloseEnd::Fault(CloseFault::PaneReused { pane: p, agent: a.name }),
            )
            &&& own && !idle ==> r == CloseNext::End(
                CloseEnd::Fault(CloseFault::NotIdle(a.agent_status)),
            )
            &&& own && idle && t.last_completion_seq is None ==> r == CloseNext::End(
                CloseEnd::Seed { seq },
            )
            &&& own && idle && t.last_completion_seq is Some && seq > t.last_completion_seq->0 ==> r
                == CloseNext::End(
                CloseEnd::Fault(
                    CloseFault::SequenceMoved {
                        state_change_seq: a.state_change_seq,
                        completion_seq: a.completion_seq,
                        baseline: t.last_completion_seq->0,
                    },
                ),
            )
            &&& own && idle && t.last_completion_seq is Some && seq <= t.last_completion_seq->0 ==> (
            r matches CloseNext::Ask(then, _) && then.pane == p)
        }),
{
    lemma_in_pane(agents@, p@);
}

/// A close by command whose recorded pane holds someone else's agent leaves that pane. It
/// goes on with the first agent that carries the task's own name; where there is none,
/// the row closes with nothing released, or, if the worktree is to go, nothing happens.
pub proof fn someone_elses_pane_is_left(
    run: CloseRun,
    t: Task,
    p: String,
    agents: Vec<AgentInfo>,
    i: int,
    n: int,
    r: CloseNext,
)
    requires
        run.stage is Agents,
        run.fresh(),
        run.by is Command,
        run.row == Some(t),
        t.pane_id == Some(p),
        is_first_in(agents@, p@, i),
        text::opt_text(agents@[i].name) != Some(
            if t.agent_name is Some {
                t.agent_name->0@
            } else {
                run.name@
            },
        ),
        is_first_named(agents@, run.name@, n) || (n == agents@.len() && forall|k: int|
            0 <= k < agents@.len() ==> text::opt_text((#[trigger] agents@[k]).name) != Some(
                run.name@,
            )),
        call_ensures(CloseRun::step, (run, CloseEvent::Agents(Reply::Answer(agents))), r),
    ensures
        n < agents@.len() ==> (r matches CloseNext::Ask(then, _) && then.pane == agents@[n].pane_id
            && then.workspace == Some(agents@[n].workspace_id)),
        n == agents@.len() && run.remove_worktree ==> r == CloseNext::End(
            CloseEnd::Fault(CloseFault::ManualCleanup),
        ),
        n == agents@.len() && !run.remove_worktree ==> r == CloseNext::End(
            CloseEnd::Closed { auto: false, clear_workspace: false, note: None, released: None },
        ),
{
    lemma_in_pane(agents@, p@);
    lemma_of_name(agents@, run.name@);
}

/// A close without a recorded pane to give up, because there is no row or the row has
/// none, goes on with the first agent that carries the task's name. Without such an
/// agent a row closes with nothing released, a worktree is left for removal by hand, and
/// a task that has no row either is not found.
pub proof fn a_close_without_a_pane_goes_by_name(
    run: CloseRun,
    agents: Vec<AgentInfo>,
    n: int,
    r: CloseNext,
)
    requires
        run.stage is Agents,
        run.fresh(),
        run.by is Command,
        run.row is None || run.row->0.pane_id is None || (run.row->0.state is Closed
            && !run.remove_worktree),
        is_first_named(agents@, run.name@, n) || (n == agents@.len() && forall|k: int|
            0 <= k < agents@.len() ==> text::opt_text((#[trigger] agents@[k]).name) != Some(
                run.name@,
            )),
        call_ensures(CloseRun::step, (run, CloseEvent::Agents(Reply::Answer(agents))), r),
    ensures
        n < agents@.len() ==> (r matches CloseNext::Ask(then, _) && then.pane == agents@[n].pane_id
            && then.workspace == Some(agents@[n].workspace_id)),
        n == agents@.len() && run.row is None ==> r == CloseNext::End(
            CloseEnd::Fault(CloseFault::NotFound),
        ),
        n == agents@.len() && run.row is Some && run.remove_worktree ==> r == CloseNext::End(
            CloseEnd::Fault(CloseFault::ManualCleanup),
        ),
        n == agents@.len() && run.row is Some && !run.remove_worktree ==> r == CloseNext::End(
            CloseEnd::Closed { auto: false, clear_workspace: false, note: None, released: None },
        ),
{
    lemma_of_name(agents@, run.name@);
}

/// What a close asks once it has its pane: without a worktree to remove, that the pane
/// closes; with one, whether another agent works in it, after whether auto-close would
/// lose commits that no remote has.
pub proof fn what_a_close_asks_for_its_pane(run: CloseRun, agents: Vec<AgentInfo>, then: CloseRun, ask: CloseAsk)
    requires
        run.stage is Agents,
        run.fresh(),
        call_ensures(
            CloseRun::step,
            (run, CloseEvent::Agents(Reply::Answer(agents))),
            CloseNext::Ask(then, ask),
        ),
    ensures
        !run.remove_worktree ==> ask == (CloseAsk::ClosePane { pane: then.pane }),
        run.remove_worktree && run.by is AutoClose && run.row is Some
            && run.row->0.spec.checkout is Some ==> ask == (CloseAsk::Unpushed {
            path: run.row->0.spec.checkout->0.path,
        }),
        run.remove_worktree && (run.by is Command || run.row is None
            || run.row->0.spec.checkout is None) ==> ask == (CloseAsk::Occupant {
            pane: then.pane,
            checkout: if run.row is Some && run.row->0.spec.checkout is Some {
                Some(run.row->0.spec.checkout->0.path)
            } else {
                None
            },
            workspace: if run.row is Some && run.row->0.spec.worktree && (
            run.row->0.spec.place is Pastor || run.row->0.spec.place is Pane) {
                None
            } else {
                then.workspace
            },
        }),
        then.row == run.row && then.by == run.by && then.remove_worktree == run.remove_worktree,
{
}

/// Commits that every remote may have, or that cannot be told, do not keep a worktree:
/// the close goes on and asks who works in it.
pub proof fn pushed_commits_do_not_keep_the_worktree(run: CloseRun, unpushed: Option<bool>, r: CloseNext)
    requires
        run.stage is Unpushed,
        run.remove_worktree,
        !run.keep_worktree,
        unpushed != Some(true),
        call_ensures(CloseRun::step, (run, CloseEvent::Unpushed(Reply::Answer(unpushed))), r),
    ensures
        r matches CloseNext::Ask(then, CloseAsk::Occupant { pane, .. }) && pane == run.pane
            && !then.keep_worktree,
{
}

/// A checkout that another agent works in stays: a command ends in a fault that names the
/// agent, and auto-close closes the pane and notes it.
pub proof fn an_occupied_worktree_stays(run: CloseRun, who: String, done: Reply<()>, r: CloseNext)
    requires
        run.stage is Occupant,
        run.remove_worktree,
        run.row is Some,
        done is Answer,
        call_ensures(CloseRun::step, (run, CloseEvent::Occupant(Reply::Answer(Some(who)))), r),
    ensures
        run.by is Command ==> r == CloseNext::End(CloseEnd::Fault(CloseFault::Occupied(who))),
        run.by is AutoClose && !run.worktree_gone ==> {
            &&& r matches CloseNext::Ask(then, ask)
            &&& ask == (CloseAsk::ClosePane { pane: run.pane })
            &&& forall|end: CloseNext| #[trigger]
                call_ensures(CloseRun::step, (then, CloseEvent::PaneClosed(done)), end) ==> end
                    == CloseNext::End(
                    CloseEnd::Closed {
                        auto: true,
                        clear_workspace: false,
                        note: Some(CloseNote::Kept(KeptWhy::Occupied(who))),
                        released: Some(run.pane),
                    },
                )
        },
{
}

/// A checkout that nobody else works in: one that a workspace showed before the task did
/// stays and its pane closes; one of a task in a shared workspace is reached after its
/// pane is closed; any other goes with its workspace, which has to be known.
pub proof fn a_free_worktree_goes(run: CloseRun, t: Task, r: CloseNext)
    requires
        run.stage is Occupant,
        run.remove_worktree,
        !run.keep_worktree,
        !run.worktree_gone,
        run.row == Some(t),
        !(t.state is Closed),
        t.spec.worktree,
        call_ensures(CloseRun::step, (run, CloseEvent::Occupant(Reply::Answer(None))), r),
    ensures
        t.spec.checkout is Some && t.spec.checkout->0.already_open ==> (
        r matches CloseNext::Ask(then, CloseAsk::ClosePane { pane }) && pane == run.pane
            && then.keep_worktree && then.note == Some(CloseNote::Kept(KeptWhy::OpenBefore))
            && then.stage is PaneLast),
        !(t.spec.checkout is Some && t.spec.checkout->0.already_open) && (t.spec.place is Pastor
            || t.spec.place is Pane) ==> (r matches CloseNext::Ask(
            then,
            CloseAsk::ClosePane { pane },
        ) && pane == run.pane && !then.keep_worktree && then.stage is PaneFirst),
        !(t.spec.checkout is Some && t.spec.checkout->0.already_open) && !(t.spec.place is Pastor
            || t.spec.place is Pane) && run.workspace is Some ==> (r matches CloseNext::Ask(
            _,
            CloseAsk::Remove { workspace },
        ) && Some(workspace) == run.workspace),
        !(t.spec.checkout is Some && t.spec.checkout->0.already_open) && !(t.spec.place is Pastor
            || t.spec.place is Pane) && run.workspace is None ==> r == CloseNext::End(
            CloseEnd::Fault(CloseFault::NoWorkspace),
        ),
{
}

/// What herdr says of a removal. Done: the row closes and records no workspace any more.
/// No such workspace: it is gone, which a command notes for cleaning up by hand. Any
/// other refusal is a fault to a command; auto-close keeps the worktree, notes why and
/// still closes the pane.
pub proof fn what_a_removal_comes_to(
    run: CloseRun,
    f: Failure,
    removed: CloseNext,
    refused: CloseNext,
)
    requires
        run.stage is Remove,
        run.row is Some,
        run.remove_worktree,
        !run.keep_worktree,
        !run.worktree_gone,
        !run.close_pane,
        run.reopened is None,
        !(run.row->0.spec.place is Pastor || run.row->0.spec.place is Pane),
        call_ensures(CloseRun::step, (run, CloseEvent::Removed(Reply::Answer(()))), removed),
        call_ensures(CloseRun::step, (run, CloseEvent::Removed(Reply::Failed(f))), refused),
    ensures
        removed == CloseNext::End(
            CloseEnd::Closed {
                auto: run.by is AutoClose,
                clear_workspace: true,
                note: if run.by is AutoClose {
                    run.note
                } else {
                    None
                },
                released: Some(run.pane),
            },
        ),
        run.by is Command && text::opt_text(f.code) == Some("workspace_not_found"@) ==> refused
            == CloseNext::End(
            CloseEnd::Closed {
                auto: false,
                clear_workspace: true,
                note: Some(CloseNote::ManualCleanup),
                released: Some(run.pane),
            },
        ),
        run.by is AutoClose && text::opt_text(f.code) == Some("workspace_not_found"@) ==> refused
            == removed,
        text::opt_text(f.code) != Some("workspace_not_found"@) && (run.by is Command
            || f.code is None) ==> refused == CloseNext::End(
            CloseEnd::Fault(CloseFault::Call(Asked::Remove, f)),
        ),
        text::opt_text(f.code) != Some("workspace_not_found"@) && run.by is AutoClose && f.code is Some
            ==> (refused matches CloseNext::Ask(then, CloseAsk::ClosePane { pane }) && pane == run.pane
            && then.note == Some(
            CloseNote::Kept(
                if text::opt_text(f.code) == Some("dirty_worktree_requires_force"@) {
                    KeptWhy::Dirty
                } else {
                    KeptWhy::Refused(f.message)
                },
            ),
        ) && !then.worktree_gone),
{
}

/// What reaching the checkout of a task in a shared workspace comes to: its pane closed,
/// herdr is asked to open the branch's checkout; a workspace made for that is the one to
/// remove, one that was there keeps the worktree, and a checkout already gone leaves
/// nothing to remove.
pub proof fn a_shared_checkout_is_reached_by_its_own_workspace(
    run: CloseRun,
    t: Task,
    repo: String,
    c: Checkout,
    created: Created,
    f: Failure,
    opening: CloseNext,
    opened: CloseNext,
    failed: CloseNext,
)
    requires
        run.row == Some(t),
        t.spec.checkout == Some(c),
        t.spec.repo == Some(repo),
        run.remove_worktree,
        !run.keep_worktree,
        !run.worktree_gone,
        !run.close_pane,
        call_ensures(
            CloseRun::step,
            (
                (CloseRun { stage: Stage::PaneFirst, ..run }),
                CloseEvent::PaneClosed(Reply::Answer(())),
            ),
            opening,
        ),
        call_ensures(
            CloseRun::step,
            ((CloseRun { stage: Stage::Open, ..run }), CloseEvent::Opened(Reply::Answer(created))),
            opened,
        ),
        call_ensures(
            CloseRun::step,
            ((CloseRun { stage: Stage::Open, ..run }), CloseEvent::Opened(Reply::Failed(f))),
            failed,
        ),
    ensures
        opening matches CloseNext::Ask(_, ask) && ask == (CloseAsk::Open { repo, branch: c.branch }),
        !created.already_open ==> (opened matches CloseNext::Ask(
            then,
            CloseAsk::Remove { workspace },
        ) && workspace == created.workspace_id && then.reopened == Some(created.root_pane)),
        created.already_open ==> (opened matches CloseNext::End(CloseEnd::Closed {
            clear_workspace,
            note,
            released,
            ..
        }) && !clear_workspace && note == Some(
            CloseNote::Kept(KeptWhy::ShownIn(created.workspace_id)),
        ) && released == Some(run.pane)),
        text::opt_text(f.code) == Some("worktree_not_found"@) ==> (failed matches CloseNext::End(
            CloseEnd::Closed { clear_workspace, released, .. },
        ) && clear_workspace && released == Some(run.pane)),
        text::opt_text(f.code) != Some("worktree_not_found"@) ==> failed == CloseNext::End(
            CloseEnd::Fault(CloseFault::Call(Asked::Open, f)),
        ),
{
}

/// A pane that closed, or that is not there any more, lets the close go on and end; any
/// other failure, and an answer that does not come, is a fault and leaves the row.
pub proof fn a_pane_has_to_be_gone(run: CloseRun, f: Failure, done: CloseNext, failed: CloseNext, late: CloseNext)
    requires
        run.stage is PaneLast,
        run.row is Some,
        call_ensures(CloseRun::step, (run, CloseEvent::PaneClosed(Reply::Answer(()))), done),
        call_ensures(CloseRun::step, (run, CloseEvent::PaneClosed(Reply::Failed(f))), failed),
        call_ensures(CloseRun::step, (run, CloseEvent::PaneClosed(Reply::TimedOut)), late),
    ensures
        done matches CloseNext::End(CloseEnd::Closed { auto, released, .. }) && released == Some(
            run.pane,
        ) && auto == (run.by is AutoClose),
        !run.remove_worktree && run.by is Command ==> done == CloseNext::End(
            CloseEnd::Closed {
                auto: false,
                clear_workspace: false,
                note: None,
                released: Some(run.pane),
            },
        ),
        text::opt_text(f.code) == Some("pane_not_found"@) ==> failed == done,
        text::opt_text(f.code) != Some("pane_not_found"@) ==> failed == CloseNext::End(
            CloseEnd::Fault(CloseFault::Call(Asked::ClosePane, f)),
        ),
        late == CloseNext::End(CloseEnd::Fault(CloseFault::TimedOut(Asked::ClosePane))),
{
}

} // verus!
