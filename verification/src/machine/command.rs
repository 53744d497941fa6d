//! Commands to a machine: dispatching a task and reading its pane, and what a
//! command leads to.

use vstd::prelude::*;
use vstd::string::*;

use crate::digits;
use crate::machine::calls::Failure;
use crate::machine::calls::Reply;
use crate::machine::life::CommandOutcome;
use crate::machine::memory;
use crate::task;
use crate::task::Task;
use crate::task::TaskState;
use crate::time::Duration;
use crate::time::Timestamp;

verus! {

/// Why a dispatch came to nothing.
#[derive(Debug)]
pub enum DispatchFault {
    NotQueued(i64),
    /// The store failed.
    Store(String),
    /// The machine did not answer in time.
    TimedOut(i64),
    /// The agent was not started, for this reason.
    Refused(i64, String),
}

impl DispatchFault {
    /// What it says. `limit` is the time a request may take.
    pub open spec fn text(self, limit: Seq<char>) -> Seq<char> {
        match self {
            DispatchFault::NotQueued(id) => "task "@ + task::task_name(id as int)
                + " is not queued (already claimed, finished, or unknown)"@,
            DispatchFault::Store(e) => e@,
            DispatchFault::TimedOut(id) => "dispatch "@ + task::task_name(id as int) + ": "@
                + timed_out_text(limit),
            DispatchFault::Refused(id, e) => "dispatch "@ + task::task_name(id as int) + ": "@ + e@,
        }
    }

    /// What it says. `limit` is the time a request may take.
    pub fn message(&self, limit: &str) -> (r: String)
        ensures
            r@ == self.text(limit@),
    {
        match self {
            DispatchFault::NotQueued(id) => {
                let mut s = "task ".to_owned();
                s.append(Task::agent_name_for(*id).as_str());
                s.append(" is not queued (already claimed, finished, or unknown)");
                s
            },
            DispatchFault::Store(e) => e.clone(),
            DispatchFault::TimedOut(id) => {
                let mut s = "dispatch ".to_owned();
                s.append(Task::agent_name_for(*id).as_str());
                s.append(": ");
                s.append(timed_out(limit).as_str());
                s
            },
            DispatchFault::Refused(id, e) => {
                let mut s = "dispatch ".to_owned();
                s.append(Task::agent_name_for(*id).as_str());
                s.append(": ");
                s.append(e.as_str());
                s
            },
        }
    }
}

/// What is said of a request that got no answer.
pub open spec fn timed_out_text(limit: Seq<char>) -> Seq<char> {
    "request timed out after "@ + limit
}

/// What is said of a request that got no answer.
pub fn timed_out(limit: &str) -> (r: String)
    ensures
        r@ == timed_out_text(limit@),
{
    let mut s = "request timed out after ".to_owned();
    s.append(limit);
    s
}

/// How starting an agent ended. `row` is the task as the attempt left it.
#[derive(Debug)]
pub enum Started {
    Done { row: Task },
    Failed { row: Task, failure: Failure },
    /// No answer in time: the attempt itself recorded nothing.
    TimedOut,
}

/// What the writing of the row will lead to.
#[derive(Debug)]
pub enum DispatchEnd {
    /// The task is on its way.
    Placed,
    Failed(DispatchFault),
}

/// A dispatch that is writing its row.
#[derive(Debug)]
pub struct DispatchWrite {
    /// The row to write.
    pub row: Task,
    /// The machine looks lost.
    pub dead: bool,
    pub end: DispatchEnd,
}

/// First, the claim. It is the `Queued` to `Starting` transition done as one
/// conditional write: a task another pass already took, or that finished
/// meanwhile, is simply not claimable.
pub fn claimed(task_id: i64, claim: Result<Option<Task>, String>) -> (r: Result<Task, DispatchFault>)
    ensures
        r == match claim {
            Ok(Some(t)) => Ok(t),
            Ok(None) => Err(DispatchFault::NotQueued(task_id)),
            Err(e) => Err(DispatchFault::Store(e)),
        },
{
    match claim {
        Ok(Some(t)) => Ok(t),
        Ok(None) => Err(DispatchFault::NotQueued(task_id)),
        Err(e) => Err(DispatchFault::Store(e)),
    }
}

/// What a dispatch writes, and where it ends once that is written: the row as
/// the attempt left it, or, where the attempt got no answer, the claimed row as
/// failed. A machine that stops answering is gone.
pub fn run_dispatch(claimed: Task, started: Started, limit: &str, now: Timestamp) -> (r: DispatchWrite)
    ensures
        match started {
            Started::Done { row } => r == (DispatchWrite {
                row,
                dead: false,
                end: DispatchEnd::Placed,
            }),
            Started::Failed { row, failure } => r == (DispatchWrite {
                row,
                dead: failure.transport,
                end: DispatchEnd::Failed(DispatchFault::Refused(row.id, failure.message)),
            }),
            Started::TimedOut => {
                &&& r.dead
                &&& r.end == DispatchEnd::Failed(DispatchFault::TimedOut(claimed.id))
                &&& r.row.error is Some
                &&& r.row.error->0@ == timed_out_text(limit@)
                &&& r.row == (Task {
                    state: TaskState::Failed,
                    error: r.row.error,
                    finished_at: Some(now),
                    ..claimed
                })
            },
        },
{
    match started {
        Started::Done { row } => DispatchWrite { row, dead: false, end: DispatchEnd::Placed },
        Started::Failed { row, failure } => {
            let id = row.id;
            DispatchWrite {
                row,
                dead: failure.transport,
                end: DispatchEnd::Failed(DispatchFault::Refused(id, failure.message)),
            }
        },
        Started::TimedOut => {
            let id = claimed.id;
            DispatchWrite {
                row: Task {
                    state: TaskState::Failed,
                    error: Some(timed_out(limit)),
                    finished_at: Some(now),
                    ..claimed
                },
                dead: true,
                end: DispatchEnd::Failed(DispatchFault::TimedOut(id)),
            }
        },
    }
}

/// The kind of event a dispatch emits once its row is written.
pub open spec fn dispatch_event(end: DispatchEnd, state: TaskState) -> Seq<char> {
    match end {
        DispatchEnd::Placed => "task."@ + state.text(),
        DispatchEnd::Failed(_) => "task.failed"@,
    }
}

/// What a dispatch comes to once the store took its row, or failed: the event it
/// emits if it took it, and the task or why there is none.
pub fn dispatched(w: DispatchWrite, stored: Result<Task, String>) -> (r: (
    Option<String>,
    Result<Task, DispatchFault>,
))
    ensures
        match stored {
            Err(e) => r == (None::<String>, Err::<Task, DispatchFault>(DispatchFault::Store(e))),
            Ok(t) => {
                &&& r.0 is Some
                &&& r.0->0@ == dispatch_event(w.end, t.state)
                &&& r.1 == match w.end {
                    DispatchEnd::Placed => Ok(t),
                    DispatchEnd::Failed(f) => Err(f),
                }
            },
        },
{
    match stored {
        Err(e) => (None, Err(DispatchFault::Store(e))),
        Ok(t) => match w.end {
            DispatchEnd::Placed => {
                let mut kind = "task.".to_owned();
                kind.append(t.state.name());
                (Some(kind), Ok(t))
            },
            DispatchEnd::Failed(f) => (Some("task.failed".to_owned()), Err(f)),
        },
    }
}

/// Whether a dispatch is followed by saved trust: the task came up blocked.
pub fn trust_follows(result: &Result<Task, DispatchFault>) -> (b: bool)
    ensures
        b == (*result matches Ok(t) && t.state is Blocked),
{
    match result {
        Ok(t) => matches!(t.state, TaskState::Blocked),
        Err(_) => false,
    }
}

/// A command that was served. Only a dispatch can change which panes there are to watch.
#[derive(Debug, Clone, Copy, PartialEq, Eq, Structural)]
pub enum Served {
    /// `placed`: the task is on its way.
    Dispatch { placed: bool },
    Close,
    Send,
    Read,
}

/// What a command leads to: a reconnect if a request failed below herdr's
/// interface; if not, a new subscription after a dispatch that worked, and only then.
pub fn handle_command(command: Served, dead: bool) -> (r: CommandOutcome)
    ensures
        r == if dead {
            CommandOutcome::Reconnect
        } else if command == (Served::Dispatch { placed: true }) {
            CommandOutcome::Resubscribe
        } else {
            CommandOutcome::Nothing
        },
{
    if dead {
        return CommandOutcome::Reconnect;
    }
    match command {
        Served::Dispatch { placed: true } => CommandOutcome::Resubscribe,
        _ => CommandOutcome::Nothing,
    }
}

/// Why a pane could not be read.
#[derive(Debug)]
pub enum ReadFault {
    NotLive(i64),
    /// herdr, or the way to it, failed.
    Failed(String),
    TimedOut,
}

impl ReadFault {
    /// What it says. `limit` is the time a request may take.
    pub open spec fn text(self, machine: Seq<char>, limit: Seq<char>) -> Seq<char> {
        match self {
            ReadFault::NotLive(id) => "task "@ + digits::signed_decimal(id as int)
                + " has no live agent on "@ + machine,
            ReadFault::Failed(e) => e@,
            ReadFault::TimedOut => timed_out_text(limit),
        }
    }

    /// What it says. `limit` is the time a request may take.
    pub fn message(&self, machine: &str, limit: &str) -> (r: String)
        ensures
            r@ == self.text(machine@, limit@),
    {
        match self {
            ReadFault::NotLive(id) => {
                let mut s = "task ".to_owned();
                s.append(digits::print_signed(*id).as_str());
                s.append(" has no live agent on ");
                s.append(machine);
                s
            },
            ReadFault::Failed(e) => e.clone(),
            ReadFault::TimedOut => timed_out(limit),
        }
    }
}

/// The name of the agent whose pane is read for a task, if the task has a pane
/// on the machine.
pub fn read_target(task_id: i64, row: &Option<Task>, machine: &str) -> (r: Result<String, ReadFault>)
    ensures
        match *row {
            Some(t) if t.on(machine@) && t.state.has_pane() => match r {
                Ok(name) => name@ == match t.agent_name {
                    Some(a) => a@,
                    None => ""@,
                },
                Err(_) => false,
            },
            _ => r == Err::<String, ReadFault>(ReadFault::NotLive(task_id)),
        },
{
    match row {
        Some(t) => if t.is_on(machine) && t.state.occupies_pane() {
            match &t.agent_name {
                Some(a) => Ok(a.clone()),
                None => Ok("".to_owned()),
            }
        } else {
            Err(ReadFault::NotLive(task_id))
        },
        None => Err(ReadFault::NotLive(task_id)),
    }
}

/// What a read comes to, and whether the machine looks lost.
pub fn read_done(reply: Reply<String>) -> (r: (Result<String, ReadFault>, bool))
    ensures
        r == match reply {
            Reply::Answer(text) => (Ok::<String, ReadFault>(text), false),
            Reply::Failed(f) => (Err(ReadFault::Failed(f.message)), f.transport),
            Reply::TimedOut => (Err(ReadFault::TimedOut), true),
        },
{
    match reply {
        Reply::Answer(text) => (Ok(text), false),
        Reply::Failed(f) => (Err(ReadFault::Failed(f.message)), f.transport),
        Reply::TimedOut => (Err(ReadFault::TimedOut), true),
    }
}

/// The answer to every command while the machine is down.
pub fn not_connected(machine: &str) -> (r: String)
    ensures
        r@ == "machine "@ + machine@ + " is not connected"@,
{
    let mut s = "machine ".to_owned();
    s.append(machine);
    s.append(" is not connected");
    s
}

/// Whether the pastor version is to be asked for again.
pub fn version_due(asked_at: Duration, now: Duration, every: Duration) -> (b: bool)
    ensures
        b == (memory::elapsed(asked_at, now) >= every.nanos),
{
    memory::has_passed(asked_at, now, every)
}

/// The version after it was asked for again. A question that got no answer keeps
/// the version last read.
pub fn refreshed_version(known: Option<String>, asked: Option<Option<String>>) -> (r: Option<String>)
    ensures
        r == match asked {
            Some(v) => v,
            None => known,
        },
{
    match asked {
        Some(v) => v,
        None => known,
    }
}

/// A pane whose agent's status is followed, or a change of any pane.
#[derive(Debug)]
pub enum Subscription {
    /// Every event of this kind.
    Lifecycle(&'static str),
    /// The status of the agent in this pane.
    AgentStatus(String),
}

/// The panes of the tasks, in order.
pub open spec fn panes_of(tasks: Seq<Task>) -> Seq<String>
    decreases tasks.len(),
{
    if tasks.len() == 0 {
        seq![]
    } else {
        match tasks.last().pane_id {
            Some(p) => panes_of(tasks.drop_last()).push(p),
            None => panes_of(tasks.drop_last()),
        }
    }
}

/// What is subscribed to: the closing and exiting of any pane, and the agent
/// status of each task's pane.
pub fn subscriptions(tasks: &Vec<Task>) -> (r: Vec<Subscription>)
    ensures
        r@.len() == 2 + panes_of(tasks@).len(),
        r@[0] matches Subscription::Lifecycle(k) && k@ == "pane.closed"@,
        r@[1] matches Subscription::Lifecycle(k) && k@ == "pane.exited"@,
        forall|i: int|
            0 <= i < panes_of(tasks@).len() ==> #[trigger] r@[i + 2] == Subscription::AgentStatus(
                panes_of(tasks@)[i],
            ),
{
    let mut r: Vec<Subscription> = Vec::new();
    r.push(Subscription::Lifecycle("pane.closed"));
    r.push(Subscription::Lifecycle("pane.exited"));
    let mut i: usize = 0;
    while i < tasks.len()
        invariant
            i <= tasks@.len(),
            r@.len() == 2 + panes_of(tasks@.take(i as int)).len(),
            r@[0] matches Subscription::Lifecycle(k) && k@ == "pane.closed"@,
            r@[1] matches Subscription::Lifecycle(k) && k@ == "pane.exited"@,
            forall|k: int|
                0 <= k < panes_of(tasks@.take(i as int)).len() ==> #[trigger] r@[k + 2]
                    == Subscription::AgentStatus(panes_of(tasks@.take(i as int))[k]),
        decreases tasks@.len() - i,
    {
        proof {
            assert(tasks@.take(i + 1).drop_last() =~= tasks@.take(i as int));
            assert(tasks@.take(i + 1).last() == tasks@[i as int]);
        }
        if let Some(p) = &tasks[i].pane_id {
            r.push(Subscription::AgentStatus(p.clone()));
        }
        i = i + 1;
    }
    assert(tasks@.take(i as int) =~= tasks@);
    r
}

/// A dispatch that got no answer in time fails its task, on a machine that is gone; one
/// that was refused keeps the row as the attempt left it, and the machine is gone only if
/// the failure lies below herdr; one that worked places the task.
pub proof fn what_a_dispatch_comes_to(
    claimed: Task,
    row: Task,
    failure: Failure,
    limit: &str,
    now: Timestamp,
    late: DispatchWrite,
    refused: DispatchWrite,
    placed: DispatchWrite,
)
    requires
        call_ensures(run_dispatch, (claimed, Started::TimedOut, limit, now), late),
        call_ensures(run_dispatch, (claimed, Started::Failed { row, failure }, limit, now), refused),
        call_ensures(run_dispatch, (claimed, Started::Done { row }, limit, now), placed),
    ensures
        late.dead && late.row.state is Failed && late.row.finished_at == Some(now) && late.row.id
            == claimed.id && late.row.error is Some,
        late.end == DispatchEnd::Failed(DispatchFault::TimedOut(claimed.id)),
        refused.row == row && refused.dead == failure.transport && refused.end
            == DispatchEnd::Failed(DispatchFault::Refused(row.id, failure.message)),
        placed.row == row && !placed.dead && placed.end is Placed,
{
}

/// Only a dispatch that worked has the events opened again, and a failure below herdr has
/// the machine connected anew, whatever the command.
pub proof fn what_a_command_leads_to(command: Served, dead: bool, r: CommandOutcome)
    requires
        call_ensures(handle_command, (command, dead), r),
    ensures
        r is Reconnect <==> dead,
        r is Resubscribe <==> !dead && command == (Served::Dispatch { placed: true }),
{
}

/// A task that is not queued any more is not dispatched.
pub proof fn only_a_claimed_task_is_dispatched(task_id: i64, claim: Result<Option<Task>, String>, r: Result<
    Task,
    DispatchFault,
>)
    requires
        call_ensures(claimed, (task_id, claim), r),
    ensures
        r is Ok <==> claim is Ok && claim->Ok_0 is Some,
        r matches Ok(t) ==> claim == Ok::<Option<Task>, String>(Some(t)),
        claim == Ok::<Option<Task>, String>(None) ==> r == Err::<Task, DispatchFault>(
            DispatchFault::NotQueued(task_id),
        ),
        claim matches Err(e) ==> r == Err::<Task, DispatchFault>(DispatchFault::Store(e)),
{
}

/// A pane is read only for a task that holds one on the machine.
pub proof fn only_a_live_task_is_read(
    task_id: i64,
    row: &Option<Task>,
    machine: &str,
    r: Result<String, ReadFault>,
)
    requires
        call_ensures(read_target, (task_id, row, machine), r),
    ensures
        r is Ok <==> row is Some && row->0.machine is Some && row->0.machine->0@ == machine@ && (
        row->0.state is Starting || row->0.state is Running || row->0.state is Blocked
            || row->0.state is Done || row->0.state is Stale),
        r is Ok && row->0.agent_name is Some ==> r->Ok_0@ == row->0.agent_name->0@,
        r is Err ==> r == Err::<String, ReadFault>(ReadFault::NotLive(task_id)),
{
}

} // verus!
