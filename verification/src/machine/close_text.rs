//! What a close says: the notes it leaves on a row and the faults it reports.

use vstd::prelude::*;
use vstd::string::*;

use crate::digits;
use crate::machine::calls::Cause;
use crate::machine::close::Asked;
use crate::machine::close::CloseFault;
use crate::machine::close::CloseNote;
use crate::machine::close::KeptWhy;
use crate::task;
use crate::task::AgentStatus;
use crate::task::Task;
use crate::task::TaskState;
use crate::text;
use crate::time::Timestamp;

verus! {

/// The advice given when `--remove-worktree` has no herdr workspace left to
/// remove the checkout by.
pub open spec fn manual_cleanup_text(display_id: Seq<char>) -> Seq<char> {
    "task "@ + display_id
        + " has no open workspace left to remove the worktree from; remove the checkout with `git worktree remove`"@
}

/// The advice given when `--remove-worktree` has no herdr workspace left to
/// remove the checkout by: the checkout itself may still be on disk, so
/// removing it is left to the operator.
pub fn manual_worktree_cleanup(display_id: &str) -> (r: String)
    ensures
        r@ == manual_cleanup_text(display_id@),
{
    let mut s = "task ".to_owned();
    s.append(display_id);
    s.append(
        " has no open workspace left to remove the worktree from; remove the checkout with `git worktree remove`",
    );
    s
}

/// The branch a task's work is on: the one its checkout was recorded on, or the
/// one it asked for, or the one dispatch makes for it.
pub open spec fn work_branch(t: Task, name: Seq<char>) -> Seq<char> {
    match t.spec.checkout {
        Some(c) => c.branch@,
        None => match t.spec.branch {
            Some(b) => b@,
            None => "pastor/"@ + name,
        },
    }
}

/// The note on a task whose worktree stays, and why.
pub open spec fn kept_text(t: Task, name: Seq<char>, why: Seq<char>) -> Seq<char> {
    "worktree kept: "@ + why + " on branch "@ + work_branch(t, name) + (match t.spec.repo {
        Some(r) => " of "@ + r@,
        None => Seq::empty(),
    }) + "; remove the checkout with `git worktree remove` once it is saved"@
}

/// The note on a task whose worktree auto-close kept, and why. The branch is
/// the one the checkout was recorded on: a retry reopens an older checkout
/// and drops `spec.branch`, so the requested one may not be where the work is.
pub fn worktree_kept_note(t: &Task, name: &str, why: &str) -> (r: String)
    ensures
        r@ == kept_text(*t, name@, why@),
{
    let mut s = "worktree kept: ".to_owned();
    s.append(why);
    s.append(" on branch ");
    match &t.spec.checkout {
        Some(c) => {
            s.append(c.branch.as_str());
        },
        None => match &t.spec.branch {
            Some(b) => {
                s.append(b.as_str());
            },
            None => {
                s.append("pastor/");
                s.append(name);
            },
        },
    }
    match &t.spec.repo {
        Some(r) => {
            s.append(" of ");
            s.append(r.as_str());
        },
        None => {},
    }
    s.append("; remove the checkout with `git worktree remove` once it is saved");
    assert(s@ =~= kept_text(*t, name@, why@));
    s
}

impl KeptWhy {
    /// The reason, as the note gives it.
    pub open spec fn text(self) -> Seq<char> {
        match self {
            KeptWhy::Unpushed => "commits on no remote"@,
            KeptWhy::Occupied(who) => who@ + " works in it"@,
            KeptWhy::OpenBefore => "a workspace pastor did not open showed it when the task started"@,
            KeptWhy::ShownIn(ws) => "workspace "@ + ws@ + " shows it and pastor did not open it"@,
            KeptWhy::Dirty => "uncommitted changes"@,
            KeptWhy::Refused(message) => "herdr refused to remove it: "@ + message@,
        }
    }

    /// The reason, as the note gives it.
    pub fn reason(&self) -> (r: String)
        ensures
            r@ == self.text(),
    {
        match self {
            KeptWhy::Unpushed => "commits on no remote".to_owned(),
            KeptWhy::Occupied(who) => {
                let mut s = who.clone();
                s.append(" works in it");
                s
            },
            KeptWhy::OpenBefore =>
                "a workspace pastor did not open showed it when the task started".to_owned(),
            KeptWhy::ShownIn(ws) => {
                let mut s = "workspace ".to_owned();
                s.append(ws.as_str());
                s.append(" shows it and pastor did not open it");
                s
            },
            KeptWhy::Dirty => "uncommitted changes".to_owned(),
            KeptWhy::Refused(message) => {
                let mut s = "herdr refused to remove it: ".to_owned();
                s.append(message.as_str());
                s
            },
        }
    }
}

impl CloseNote {
    /// The note as the row carries it.
    pub open spec fn text(self, t: Task) -> Seq<char> {
        match self {
            CloseNote::Kept(why) => kept_text(t, task::task_name(t.id as int), why.text()),
            CloseNote::ManualCleanup => manual_cleanup_text(task::task_name(t.id as int)),
        }
    }

    /// The note as the row carries it.
    pub fn render(&self, t: &Task) -> (r: String)
        ensures
            r@ == self.text(*t),
    {
        let name = t.display_id();
        match self {
            CloseNote::Kept(why) => {
                let why = why.reason();
                worktree_kept_note(t, name.as_str(), why.as_str())
            },
            CloseNote::ManualCleanup => manual_worktree_cleanup(name.as_str()),
        }
    }
}

/// What a close does to a row before the store closes it: the workspace that
/// is gone with the worktree is cleared, and the note is left.
pub open spec fn noted(before: Task, clear_workspace: bool, note: Option<CloseNote>, after: Task) -> bool {
    &&& text::opt_text(after.error) == match note {
        Some(n) => Some(n.text(before)),
        None => text::opt_text(before.error),
    }
    &&& after == (Task {
        workspace_id: if clear_workspace {
            None
        } else {
            before.workspace_id
        },
        error: after.error,
        ..before
    })
}

/// The row to write before `pastor task close` has the store close it.
pub fn row_before_close(t: Task, clear_workspace: bool, note: Option<CloseNote>) -> (r: Task)
    ensures
        noted(t, clear_workspace, note, r),
{
    let error = match &note {
        Some(n) => Some(n.render(&t)),
        None => t.error.clone(),
    };
    let workspace_id = if clear_workspace {
        None
    } else {
        t.workspace_id.clone()
    };
    Task { workspace_id, error, ..t }
}

/// Whether `row_before_close` changes the row, so that it has to be written.
pub fn row_changes(clear_workspace: bool, note: &Option<CloseNote>) -> (b: bool)
    ensures
        b == (clear_workspace || note is Some),
{
    clear_workspace || note.is_some()
}

/// The row half of an auto-close: `t` is the row read as `Done` before herdr
/// was asked, so the optimistic write lands only if nothing moved it since. The
/// finish time stays the one of the work.
pub fn finish_auto_close(t: Task, clear_workspace: bool, note: Option<CloseNote>, now: Timestamp) -> (r: Task)
    ensures
        noted(
            t,
            clear_workspace,
            note,
            (Task { state: t.state, finished_at: t.finished_at, ..r }),
        ),
        r.state is Closed,
        r.finished_at == (match t.finished_at {
            Some(at) => Some(at),
            None => Some(now),
        }),
{
    let finished_at = match t.finished_at {
        Some(at) => Some(at),
        None => Some(now),
    };
    let r = row_before_close(t, clear_workspace, note);
    Task { state: TaskState::Closed, finished_at, ..r }
}

/// The row of a done task that had no baseline takes one, unless it moved on.
pub fn seed_baseline(t: Task, seq: u64) -> (r: Option<Task>)
    ensures
        r == if t.state is Done && t.last_completion_seq is None {
            Some(Task { last_completion_seq: Some(seq), ..t })
        } else {
            None
        },
{
    if matches!(t.state, TaskState::Done) && t.last_completion_seq.is_none() {
        Some(Task { last_completion_seq: Some(seq), ..t })
    } else {
        None
    }
}

/// An agent status as `{:?}` shows it.
pub open spec fn status_text(s: AgentStatus) -> Seq<char> {
    match s {
        AgentStatus::Idle => "Idle"@,
        AgentStatus::Working => "Working"@,
        AgentStatus::Blocked => "Blocked"@,
        AgentStatus::Done => "Done"@,
        AgentStatus::Unknown => "Unknown"@,
    }
}

fn status_name(s: AgentStatus) -> (r: &'static str)
    ensures
        r@ == status_text(s),
{
    match s {
        AgentStatus::Idle => "Idle",
        AgentStatus::Working => "Working",
        AgentStatus::Blocked => "Blocked",
        AgentStatus::Done => "Done",
        AgentStatus::Unknown => "Unknown",
    }
}

/// An optional name as `{:?}` shows it.
pub open spec fn optional_name_text(o: Option<String>) -> Seq<char> {
    match o {
        Some(s) => "Some("@ + text::debug_text(s@) + ")"@,
        None => "None"@,
    }
}

/// An optional number as `{:?}` shows it.
pub open spec fn optional_number_text(o: Option<u64>) -> Seq<char> {
    match o {
        Some(n) => "Some("@ + digits::decimal(n as nat) + ")"@,
        None => "None"@,
    }
}

/// The method a request is named by when it does not answer.
pub open spec fn asked_text(a: Asked) -> Seq<char> {
    match a {
        Asked::Agents => "agent.list"@,
        Asked::Unpushed => "git rev-list"@,
        Asked::Occupant => "workspace.list"@,
        Asked::ClosePane => "pane.close"@,
        Asked::Open => "worktree.open"@,
        Asked::Remove => "worktree.remove"@,
    }
}

fn asked_name(a: Asked) -> (r: &'static str)
    ensures
        r@ == asked_text(a),
{
    match a {
        Asked::Agents => "agent.list",
        Asked::Unpushed => "git rev-list",
        Asked::Occupant => "workspace.list",
        Asked::ClosePane => "pane.close",
        Asked::Open => "worktree.open",
        Asked::Remove => "worktree.remove",
    }
}

/// What a failed request was for, where its error says so.
pub open spec fn purpose_text(a: Asked, name: Seq<char>) -> Option<Seq<char>> {
    match a {
        Asked::Agents => None,
        Asked::Unpushed => Some("look for unpushed commits in the worktree of "@ + name),
        Asked::Occupant => None,
        Asked::ClosePane => Some("close the pane of "@ + name),
        Asked::Open => Some("open the worktree of "@ + name + " to remove it"@),
        Asked::Remove => Some("remove the worktree of "@ + name),
    }
}

/// What a failed request was for, where its error says so.
pub fn purpose(a: Asked, name: &str) -> (r: Option<String>)
    ensures
        text::opt_text(r) == purpose_text(a, name@),
{
    match a {
        Asked::Agents => None,
        Asked::Occupant => None,
        Asked::Unpushed => {
            let mut s = "look for unpushed commits in the worktree of ".to_owned();
            s.append(name);
            Some(s)
        },
        Asked::ClosePane => {
            let mut s = "close the pane of ".to_owned();
            s.append(name);
            Some(s)
        },
        Asked::Open => {
            let mut s = "open the worktree of ".to_owned();
            s.append(name);
            s.append(" to remove it");
            Some(s)
        },
        Asked::Remove => {
            let mut s = "remove the worktree of ".to_owned();
            s.append(name);
            Some(s)
        },
    }
}

impl CloseFault {
    /// What the fault says. `name` is the task's, `expected` the name its agent
    /// goes by, `machine` the machine the close ran on and `limit` how long a
    /// request may take, in words.
    pub open spec fn text(
        self,
        name: Seq<char>,
        expected: Seq<char>,
        machine: Seq<char>,
        limit: Seq<char>,
    ) -> Seq<char> {
        match self {
            CloseFault::NoLongerDone => "task "@ + name + " is no longer done on "@ + machine,
            CloseFault::NoWorktree => "task "@ + name + " has no worktree to remove"@,
            CloseFault::OnMachine(m) => "task "@ + name + " is on machine "@ + m@ + ", not "@ + machine,
            CloseFault::PaneReused { pane, agent } => "pane "@ + pane@ + " now holds agent "@
                + optional_name_text(agent) + ", not "@ + expected,
            CloseFault::NotIdle(status) => "the agent is "@ + status_text(status) + ", not idle"@,
            CloseFault::SequenceMoved { state_change_seq, completion_seq, baseline } =>
                "the agent's sequence moved past the row's baseline "@ + digits::decimal(baseline as nat)
                + " (state_change_seq "@ + digits::decimal(state_change_seq as nat)
                + ", completion_seq "@ + optional_number_text(completion_seq) + ")"@,
            CloseFault::ManualCleanup => manual_cleanup_text(name),
            CloseFault::NotFound => "task "@ + name + " not found"@,
            CloseFault::Occupied(who) => "the worktree of "@ + name + " has another agent in it, "@ + who@
                + "; close that first"@,
            CloseFault::NoWorkspace => "task "@ + name + " recorded no workspace"@,
            CloseFault::Call(asked, f) => match purpose_text(asked, name) {
                Some(what) => what + ": "@ + f.message@,
                None => f.message@,
            },
            CloseFault::TimedOut(asked) => asked_text(asked) + " timed out after "@ + limit,
        }
    }

    /// What the fault says.
    pub fn message(&self, name: &str, expected: &str, machine: &str, limit: &str) -> (r: String)
        ensures
            r@ == self.text(name@, expected@, machine@, limit@),
    {
        let mut s = String::new();
        match self {
            CloseFault::NoLongerDone => {
                s.append("task ");
                s.append(name);
                s.append(" is no longer done on ");
                s.append(machine);
            },
            CloseFault::NoWorktree => {
                s.append("task ");
                s.append(name);
                s.append(" has no worktree to remove");
            },
            CloseFault::OnMachine(m) => {
                s.append("task ");
                s.append(name);
                s.append(" is on machine ");
                s.append(m.as_str());
                s.append(", not ");
                s.append(machine);
            },
            CloseFault::PaneReused { pane, agent } => {
                s.append("pane ");
                s.append(pane.as_str());
                s.append(" now holds agent ");
                match agent {
                    Some(a) => {
                        s.append("Some(");
                        let q = text::debug_quoted(a.as_str());
                        s.append(q.as_str());
                        s.append(")");
                    },
                    None => {
                        s.append("None");
                    },
                }
                s.append(", not ");
                s.append(expected);
            },
            CloseFault::NotIdle(status) => {
                s.append("the agent is ");
                s.append(status_name(*status));
                s.append(", not idle");
            },
            CloseFault::SequenceMoved { state_change_seq, completion_seq, baseline } => {
                s.append("the agent's sequence moved past the row's baseline ");
                let n = digits::print_number(*baseline);
                s.append(n.as_str());
                s.append(" (state_change_seq ");
                let n = digits::print_number(*state_change_seq);
                s.append(n.as_str());
                s.append(", completion_seq ");
                match completion_seq {
                    Some(seq) => {
                        s.append("Some(");
                        let n = digits::print_number(*seq);
                        s.append(n.as_str());
                        s.append(")");
                    },
                    None => {
                        s.append("None");
                    },
                }
                s.append(")");
            },
            CloseFault::ManualCleanup => {
                let t = manual_worktree_cleanup(name);
                s.append(t.as_str());
            },
            CloseFault::NotFound => {
                s.append("task ");
                s.append(name);
                s.append(" not found");
            },
            CloseFault::Occupied(who) => {
                s.append("the worktree of ");
                s.append(name);
                s.append(" has another agent in it, ");
                s.append(who.as_str());
                s.append("; close that first");
            },
            CloseFault::NoWorkspace => {
                s.append("task ");
                s.append(name);
                s.append(" recorded no workspace");
            },
            CloseFault::Call(asked, f) => {
                match purpose(*asked, name) {
                    Some(what) => {
                        s.append(what.as_str());
                        s.append(": ");
                    },
                    None => {},
                }
                s.append(f.message.as_str());
            },
            CloseFault::TimedOut(asked) => {
                s.append(asked_name(*asked));
                s.append(" timed out after ");
                s.append(limit);
            },
        }
        assert(s@ =~= self.text(name@, expected@, machine@, limit@));
        s
    }

    /// What the fault comes from.
    pub open spec fn from(self) -> Cause {
        match self {
            CloseFault::Call(_, f) => Cause::Call { transport: f.transport },
            CloseFault::TimedOut(_) => Cause::TimedOut,
            _ => Cause::Other,
        }
    }

    /// What the fault comes from, for `is_outage`.
    pub fn cause(&self) -> (c: Cause)
        ensures
            c == self.from(),
    {
        match self {
            CloseFault::Call(_, f) => Cause::Call { transport: f.transport },
            CloseFault::TimedOut(_) => Cause::TimedOut,
            _ => Cause::Other,
        }
    }
}

/// The row a close writes: closed, with the workspace gone if the worktree went, the
/// reason a worktree stayed if one did, and the time its work finished kept.
pub proof fn a_closed_row_says_what_stayed(
    t: Task,
    clear_workspace: bool,
    note: Option<CloseNote>,
    now: Timestamp,
    by_hand: Task,
    on_its_own: Task,
)
    requires
        call_ensures(row_before_close, (t, clear_workspace, note), by_hand),
        call_ensures(finish_auto_close, (t, clear_workspace, note, now), on_its_own),
    ensures
        by_hand.state == t.state && by_hand.finished_at == t.finished_at,
        on_its_own.state is Closed,
        on_its_own.finished_at == (if t.finished_at is Some {
            t.finished_at
        } else {
            Some(now)
        }),
        clear_workspace ==> by_hand.workspace_id is None && on_its_own.workspace_id is None,
        !clear_workspace ==> by_hand.workspace_id == t.workspace_id && on_its_own.workspace_id
            == t.workspace_id,
        note is None ==> text::opt_text(by_hand.error) == text::opt_text(t.error) && text::opt_text(
            on_its_own.error,
        ) == text::opt_text(t.error),
        note is Some ==> by_hand.error is Some && on_its_own.error is Some,
        by_hand.id == t.id && by_hand.pane_id == t.pane_id && by_hand.spec == t.spec,
        on_its_own.id == t.id && on_its_own.pane_id == t.pane_id && on_its_own.spec == t.spec,
{
}

/// A done row without a baseline takes the sequence; any other row is left.
pub proof fn only_a_done_row_without_a_baseline_takes_one(t: Task, seq: u64, r: Option<Task>)
    requires
        call_ensures(seed_baseline, (t, seq), r),
    ensures
        r is Some <==> t.state is Done && t.last_completion_seq is None,
        r matches Some(row) ==> row == (Task { last_completion_seq: Some(seq), ..t }),
{
}

} // verus!
