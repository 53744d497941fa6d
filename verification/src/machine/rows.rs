//! How a task's row follows what is seen of its agent, and how a row is
//! written when others may write it too.

use vstd::prelude::*;
use vstd::string::*;

use crate::task;
use crate::task::AgentStatus;
use crate::task::Observed;
use crate::task::Task;
use crate::task::TaskState;
use crate::text;
use crate::time::Timestamp;

verus! {

// ---------------------------------------------------------------------------
// Writing a row

/// What writing a row asks of the store.
#[derive(Debug)]
pub enum WriteAsk {
    /// Write the row, unless it was written since it was read.
    Update(Task),
    /// Read the row again.
    Reread(i64),
}

/// What the store answered.
#[derive(Debug)]
pub enum WriteEvent {
    /// The row as written.
    Updated(Task),
    /// The row was written since it was read.
    Conflict,
    /// The row as it is now, if it is still there.
    Row(Option<Task>),
    /// The store failed.
    Failed(String),
}

/// How writing a row ends.
#[derive(Debug)]
pub enum WriteEnd {
    /// The row as written.
    Written(Task),
    /// The row no longer wants the change, or is gone.
    Nothing,
    /// The row was written by someone else twice in a row.
    Conflict,
    /// The store failed.
    Failed(String),
}

/// A row being written: which try this is.
#[derive(Debug, Clone, Copy, PartialEq, Eq, Structural)]
pub enum WriteTry {
    First,
    Reading,
    Second,
}

/// What comes next in writing a row.
#[derive(Debug)]
pub enum WriteNext {
    Ask(WriteTry, WriteAsk),
    End(WriteEnd),
}

/// The change, or that there is none, applied to the row.
pub open spec fn change_of<C: Fn(Task) -> Option<Task>>(change: &C, row: Task, to: Option<Task>) -> bool {
    call_ensures(*change, (row,), to)
}

/// `update_task` with one retry. On a conflict (the row was written since it
/// was read, e.g. by `pastor task close` or `retry`) the row is read again and
/// `change` is applied to the fresh copy. `change` gives nothing when the row
/// no longer wants the change; then nothing is written. A second conflict, or
/// any other store error, ends the write.
///
/// The fresh copy is the row as it is now: `change` must set every field it
/// relies on rather than expect the old copy's values carried over.
pub fn write_task<C: Fn(Task) -> Option<Task>>(task: Task, change: &C) -> (r: WriteNext)
    requires
        forall|t: Task| call_requires(*change, (t,)),
    ensures
        match r {
            WriteNext::Ask(attempt, WriteAsk::Update(row)) => attempt is First && change_of(
                change,
                task,
                Some(row),
            ),
            WriteNext::End(WriteEnd::Nothing) => change_of(change, task, None),
            _ => false,
        },
{
    match change(task) {
        Some(row) => WriteNext::Ask(WriteTry::First, WriteAsk::Update(row)),
        None => WriteNext::End(WriteEnd::Nothing),
    }
}

/// Whether the store's answer fits what was asked.
pub open spec fn write_awaits(attempt: WriteTry, ev: WriteEvent) -> bool {
    match attempt {
        WriteTry::Reading => ev is Row || ev is Failed,
        _ => ev is Updated || ev is Conflict || ev is Failed,
    }
}

/// Take the store's answer and say what comes next in writing row `id`.
pub fn write_step<C: Fn(Task) -> Option<Task>>(id: i64, attempt: WriteTry, ev: WriteEvent, change: &C) -> (r:
    WriteNext)
    requires
        forall|t: Task| call_requires(*change, (t,)),
        write_awaits(attempt, ev),
    ensures
        match ev {
            WriteEvent::Updated(row) => r == WriteNext::End(WriteEnd::Written(row)),
            WriteEvent::Failed(e) => r == WriteNext::End(WriteEnd::Failed(e)),
            WriteEvent::Conflict => r == if attempt is First {
                WriteNext::Ask(WriteTry::Reading, WriteAsk::Reread(id))
            } else {
                WriteNext::End(WriteEnd::Conflict)
            },
            WriteEvent::Row(None) => r == WriteNext::End(WriteEnd::Nothing),
            WriteEvent::Row(Some(fresh)) => match r {
                WriteNext::Ask(next, WriteAsk::Update(row)) => next is Second && change_of(
                    change,
                    fresh,
                    Some(row),
                ),
                WriteNext::End(WriteEnd::Nothing) => change_of(change, fresh, None),
                _ => false,
            },
        },
{
    match ev {
        WriteEvent::Updated(row) => WriteNext::End(WriteEnd::Written(row)),
        WriteEvent::Failed(e) => WriteNext::End(WriteEnd::Failed(e)),
        WriteEvent::Conflict => match attempt {
            WriteTry::First => WriteNext::Ask(WriteTry::Reading, WriteAsk::Reread(id)),
            _ => WriteNext::End(WriteEnd::Conflict),
        },
        WriteEvent::Row(None) => WriteNext::End(WriteEnd::Nothing),
        WriteEvent::Row(Some(fresh)) => match change(fresh) {
            Some(row) => WriteNext::Ask(WriteTry::Second, WriteAsk::Update(row)),
            None => WriteNext::End(WriteEnd::Nothing),
        },
    }
}

// ---------------------------------------------------------------------------
// The changes

/// A done task that was just given more to do runs again. The baseline stays at
/// the idle it was done at, so the agent's next turn is what marks it done. A
/// row that moved on meanwhile is left as it is.
pub fn reopen(t: Task) -> (r: Option<Task>)
    ensures
        r == if t.state is Done {
            Some(Task { state: TaskState::Running, finished_at: None, ..t })
        } else {
            None
        },
{
    if matches!(t.state, TaskState::Done) {
        Some(Task { state: TaskState::Running, finished_at: None, ..t })
    } else {
        None
    }
}

/// A running or blocked task past its timeout goes stale.
pub fn mark_stale(t: Task) -> (r: Option<Task>)
    ensures
        r == if t.state is Running || t.state is Blocked {
            Some(Task { state: TaskState::Stale, ..t })
        } else {
            None
        },
{
    if matches!(t.state, TaskState::Running | TaskState::Blocked) {
        Some(Task { state: TaskState::Stale, ..t })
    } else {
        None
    }
}

/// The first work seen on a prompt is recorded on an open row that has it.
pub fn record_activity(t: Task) -> (r: Option<Task>)
    ensures
        r == if !t.prompt_pending && t.state.open() {
            Some(Task { activity_seen: true, ..t })
        } else {
            None
        },
{
    if !t.prompt_pending && t.state.is_open() {
        Some(Task { activity_seen: true, ..t })
    } else {
        None
    }
}

/// The row still waits for its prompt, on a live pane.
pub open spec fn still_pending(t: Task) -> bool {
    t.prompt_pending && t.state.has_pane()
}

/// The agent took the prompt: the task runs, and its work is counted from here.
/// State changes before the agent had the prompt are none of it.
pub fn prompt_taken(t: Task, seq: u64, status: AgentStatus) -> (r: Option<Task>)
    ensures
        r == if still_pending(t) {
            Some(
                Task {
                    prompt_pending: false,
                    state: TaskState::Running,
                    error: None,
                    finished_at: None,
                    last_completion_seq: Some(seq),
                    activity_seen: status.active(),
                    ..t
                },
            )
        } else {
            None
        },
{
    if t.prompt_pending && t.state.occupies_pane() {
        Some(
            Task {
                prompt_pending: false,
                state: TaskState::Running,
                error: None,
                finished_at: None,
                last_completion_seq: Some(seq),
                activity_seen: status.is_activity(),
                ..t
            },
        )
    } else {
        None
    }
}

/// The prompt cannot be sent: the task failed.
pub fn prompt_failed(t: Task, message: &String, now: Timestamp) -> (r: Option<Task>)
    ensures
        r == if still_pending(t) {
            Some(
                Task {
                    state: TaskState::Failed,
                    error: Some(*message),
                    finished_at: Some(now),
                    activity_seen: false,
                    ..t
                },
            )
        } else {
            None
        },
{
    if t.prompt_pending && t.state.occupies_pane() {
        Some(
            Task {
                state: TaskState::Failed,
                error: Some(message.clone()),
                finished_at: Some(now),
                activity_seen: false,
                ..t
            },
        )
    } else {
        None
    }
}

// ---------------------------------------------------------------------------
// Following the agent

/// The observation is the first work seen on the prompt. Before the prompt
/// reached the agent nothing counts.
pub open spec fn first_activity(t: Task, o: Observed) -> bool {
    o matches Observed::Status { status, .. } && status.active() && !t.prompt_pending
        && !t.activity_seen
}

/// The row with that work on it.
pub open spec fn with_activity(t: Task, o: Observed) -> Task {
    if first_activity(t, o) {
        Task { activity_seen: true, ..t }
    } else {
        t
    }
}

/// What an observation does to a task.
#[derive(Debug)]
pub enum Applied {
    /// Nothing.
    Unchanged,
    /// The state stays; the row is to record that work was seen.
    Activity(Task),
    /// The row moves to this state and is written as it stands here.
    Moved(Task),
}

/// The baseline of a task that moves to `to`: the next completion has to move
/// past this one.
pub open spec fn baseline_after(t: Task, o: Observed, to: TaskState) -> Option<u64> {
    match o {
        Observed::Status { state_change_seq, completion_seq, .. } => if to is Done {
            match completion_seq {
                Some(s) => Some(s),
                None => state_change_seq,
            }
        } else {
            t.last_completion_seq
        },
        _ => t.last_completion_seq,
    }
}

/// When a task that moves to `to` finished: `done -> closed` keeps the time the
/// work finished, and an open task has none.
pub open spec fn finished_after(t: Task, to: TaskState, now: Timestamp) -> Option<Timestamp> {
    if to is Closed {
        match t.finished_at {
            Some(at) => Some(at),
            None => Some(now),
        }
    } else if to is Done || to is Failed {
        Some(now)
    } else {
        None
    }
}

/// What a task that moves to `to` says is wrong: advice about a block it left
/// is dropped, and a failure always has a reason.
pub open spec fn error_after(t: Task, to: TaskState) -> Option<Seq<char>> {
    let kept = if t.state is Blocked && (to is Running || to is Done) {
        None
    } else {
        text::opt_text(t.error)
    };
    if to is Failed && kept is None {
        Some("agent process exited"@)
    } else {
        kept
    }
}

/// `r` is the row `t` moved to state `to` on observing `o`.
pub open spec fn moved_to(t: Task, o: Observed, to: TaskState, now: Timestamp, r: Task) -> bool {
    &&& text::opt_text(r.error) == error_after(t, to)
    &&& r == (Task {
        state: to,
        // The next completion needs activity of its own.
        activity_seen: if to is Done || !to.open() {
            false
        } else {
            t.activity_seen
        },
        last_completion_seq: baseline_after(t, o, to),
        finished_at: finished_after(t, to, now),
        error: r.error,
        ..t
    })
}

fn move_to(t: Task, o: &Observed, to: TaskState, now: Timestamp) -> (r: Task)
    ensures
        moved_to(t, *o, to, now, r),
{
    let activity_seen = if matches!(to, TaskState::Done) || !to.is_open() {
        false
    } else {
        t.activity_seen
    };
    let last_completion_seq = match o {
        Observed::Status { state_change_seq, completion_seq, .. } => if matches!(to, TaskState::Done) {
            match completion_seq {
                Some(s) => Some(*s),
                None => *state_change_seq,
            }
        } else {
            t.last_completion_seq
        },
        _ => t.last_completion_seq,
    };
    let finished_at = match to {
        TaskState::Closed => match t.finished_at {
            Some(at) => Some(at),
            None => Some(now),
        },
        TaskState::Done | TaskState::Failed => Some(now),
        _ => None,
    };
    let kept = if matches!(t.state, TaskState::Blocked) && matches!(
        to,
        TaskState::Running | TaskState::Done
    ) {
        None
    } else {
        t.error.clone()
    };
    let error = if matches!(to, TaskState::Failed) && kept.is_none() {
        Some("agent process exited".to_owned())
    } else {
        kept
    };
    Task { state: to, activity_seen, last_completion_seq, finished_at, error, ..t }
}

/// What an observation does to a task, `to` being the state the task's own rule
/// moves it to.
pub open spec fn applied(t: Task, o: Observed, to: Option<TaskState>, now: Timestamp, r: Applied) -> bool {
    let t2 = with_activity(t, o);
    match to {
        Some(to) => r matches Applied::Moved(row) && moved_to(t2, o, to, now, row),
        None => if first_activity(t, o) {
            r == Applied::Activity(t2)
        } else {
            r is Unchanged
        },
    }
}

/// Move a task on what was seen of its agent. `next` is the rule that gives the
/// state a row moves to on an observation, if it moves.
///
/// Any `working` or `blocked` after the prompt is activity, whether an event or
/// `agent.list` showed it; it is stored with the task, so the first sighting is
/// written even when the state does not change.
pub fn apply<N: Fn(&Task, &Observed) -> Option<TaskState>>(
    task: Task,
    observed: &Observed,
    next: &N,
    now: Timestamp,
) -> (r: Applied)
    requires
        forall|t: &Task, o: &Observed| call_requires(*next, (t, o)),
    ensures
        exists|to: Option<TaskState>|
            #![trigger call_ensures(*next, (&with_activity(task, *observed), observed), to)]
            call_ensures(*next, (&with_activity(task, *observed), observed), to) && applied(
                task,
                *observed,
                to,
                now,
                r,
            ),
{
    let first = match observed {
        Observed::Status { status, .. } => status.is_activity() && !task.prompt_pending
            && !task.activity_seen,
        _ => false,
    };
    let ghost before = task;
    let task = if first {
        Task { activity_seen: true, ..task }
    } else {
        task
    };
    assert(task == with_activity(before, *observed));
    let to = next(&task, observed);
    match to {
        Some(to) => Applied::Moved(move_to(task, observed, to, now)),
        None => if first {
            Applied::Activity(task)
        } else {
            Applied::Unchanged
        },
    }
}

/// Mark a task whose agent went idle on a question `blocked` instead of `done`,
/// so `task send` can answer it. The baseline moves to the idle it was found
/// at, as a completion would move it.
pub fn block_on_question(task: Task, observed: &Observed, question: &str) -> (r: Task)
    ensures
        text::opt_text(r.error) == Some("agent asked: "@ + question@),
        r == (Task {
            last_completion_seq: match *observed {
                Observed::Status { state_change_seq, completion_seq, .. } => match completion_seq {
                    Some(s) => Some(s),
                    None => state_change_seq,
                },
                _ => task.last_completion_seq,
            },
            activity_seen: false,
            state: TaskState::Blocked,
            finished_at: None,
            error: r.error,
            ..task
        }),
{
    let last_completion_seq = match observed {
        Observed::Status { state_change_seq, completion_seq, .. } => match completion_seq {
            Some(s) => Some(*s),
            None => *state_change_seq,
        },
        _ => task.last_completion_seq,
    };
    let mut e = "agent asked: ".to_owned();
    e.append(question);
    Task {
        last_completion_seq,
        activity_seen: false,
        state: TaskState::Blocked,
        finished_at: None,
        error: Some(e),
        ..task
    }
}

/// The kind of the event a row's new state is announced by: `task.` and the
/// state.
pub fn state_event(state: TaskState) -> (r: String)
    ensures
        r@ == "task."@ + state.text(),
{
    let mut s = "task.".to_owned();
    s.append(state.name());
    s
}

/// A task that is open again carries nothing of the cycle it left: no finish
/// time, and no advice about a block it is out of.
pub proof fn a_reopened_task_is_clean(t: Task, o: Observed, now: Timestamp, r: Task)
    requires
        moved_to(t, o, TaskState::Running, now, r),
    ensures
        r.finished_at is None,
        t.state is Blocked ==> r.error is None,
{
}

/// Closing a task that was done keeps when its work finished.
pub proof fn closing_keeps_the_finish_time(t: Task, o: Observed, now: Timestamp, r: Task)
    requires
        t.finished_at is Some,
        moved_to(t, o, TaskState::Closed, now, r),
    ensures
        r.finished_at == t.finished_at,
{
}

/// A failed task always says why.
pub proof fn a_failure_has_a_reason(t: Task, o: Observed, now: Timestamp, r: Task)
    requires
        moved_to(t, o, TaskState::Failed, now, r),
    ensures
        r.error is Some,
        r.finished_at == Some(now),
{
}

/// A task moves to the very state its rule gives. Done and failed work finishes now, a
/// task that closes keeps when it finished, and one that goes on has not finished. The
/// row stays the same task, on its machine and in its pane.
pub proof fn a_task_moves_where_its_rule_says<N: Fn(&Task, &Observed) -> Option<TaskState>>(
    task: Task,
    observed: &Observed,
    next: &N,
    now: Timestamp,
    to: TaskState,
    r: Applied,
)
    requires
        call_ensures(apply::<N>, (task, observed, next, now), r),
        forall|row: &Task, x: Option<TaskState>|
            *row == task || *row == (Task { activity_seen: true, ..task }) ==> (
            #[trigger] call_ensures(*next, (row, observed), x) ==> x == Some(to)),
    ensures
        r matches Applied::Moved(row) && {
            &&& row.state == to
            &&& to is Done || to is Failed ==> row.finished_at == Some(now)
            &&& to is Closed ==> row.finished_at == (if task.finished_at is Some {
                task.finished_at
            } else {
                Some(now)
            })
            &&& to is Queued || to is Starting || to is Running || to is Blocked || to is Stale
                ==> row.finished_at is None
            &&& to is Failed ==> row.error is Some
            &&& to is Done || to is Failed || to is Closed ==> !row.activity_seen
            &&& row.id == task.id && row.job == task.job && row.prompt == task.prompt
            &&& row.prompt_pending == task.prompt_pending
            &&& row.machine == task.machine && row.pane_id == task.pane_id
            &&& row.workspace_id == task.workspace_id && row.agent_name == task.agent_name
            &&& row.started_at == task.started_at && row.spec == task.spec
        },
{
}

/// The turn a task was done at is its baseline from then on: the agent's completion, or
/// its last state change where herdr counts no completions. No other move, and nothing
/// but a status, moves the baseline.
pub proof fn a_completion_is_the_next_baseline<N: Fn(&Task, &Observed) -> Option<TaskState>>(
    task: Task,
    observed: &Observed,
    next: &N,
    now: Timestamp,
    row: Task,
)
    requires
        call_ensures(apply::<N>, (task, observed, next, now), Applied::Moved(row)),
    ensures
        match *observed {
            Observed::Status { state_change_seq, completion_seq, .. } => {
                &&& row.state is Done && completion_seq is Some ==> row.last_completion_seq
                    == completion_seq
                &&& row.state is Done && completion_seq is None ==> row.last_completion_seq
                    == state_change_seq
                &&& !(row.state is Done) ==> row.last_completion_seq == task.last_completion_seq
            },
            _ => row.last_completion_seq == task.last_completion_seq,
        },
{
}

/// What a row said was wrong stays, but for two moves: a task that leaves a block and
/// runs or is done drops it, and one that fails without a reason is given one.
pub proof fn a_move_keeps_what_was_wrong<N: Fn(&Task, &Observed) -> Option<TaskState>>(
    task: Task,
    observed: &Observed,
    next: &N,
    now: Timestamp,
    row: Task,
)
    requires
        call_ensures(apply::<N>, (task, observed, next, now), Applied::Moved(row)),
    ensures
        task.state is Blocked && (row.state is Running || row.state is Done) ==> row.error is None,
        !(task.state is Blocked && (row.state is Running || row.state is Done)) && task.error is Some
            ==> row.error is Some && row.error->0@ == task.error->0@,
        task.error is None && !(row.state is Failed) ==> row.error is None,
        task.error is None && row.state is Failed ==> row.error is Some && row.error->0@
            == "agent process exited"@,
{
}

/// Work is recorded the first time it is seen: on a status of working or blocked, once
/// the agent has its prompt. A task that stays where it is changes in nothing else.
pub proof fn the_first_work_is_recorded<N: Fn(&Task, &Observed) -> Option<TaskState>>(
    task: Task,
    observed: &Observed,
    next: &N,
    now: Timestamp,
    r: Applied,
)
    requires
        call_ensures(apply::<N>, (task, observed, next, now), r),
        forall|row: &Task, x: Option<TaskState>| #[trigger]
            call_ensures(*next, (row, observed), x) ==> x is None,
    ensures
        match *observed {
            Observed::Status { status, .. } if status is Working || status is Blocked => if task.prompt_pending
                || task.activity_seen {
                r is Unchanged
            } else {
                r == Applied::Activity(Task { activity_seen: true, ..task })
            },
            _ => r is Unchanged,
        },
{
}

/// The rule judges the row with the work on it that this observation shows, and no other.
pub proof fn the_rule_sees_work_at_once<N: Fn(&Task, &Observed) -> Option<TaskState>>(
    task: Task,
    observed: &Observed,
    next: &N,
    now: Timestamp,
    row: Task,
)
    requires
        call_ensures(apply::<N>, (task, observed, next, now), Applied::Moved(row)),
    ensures
        exists|seen: Task| #[trigger]
            call_ensures(*next, (&seen, observed), Some(row.state)) && seen == (Task {
                activity_seen: task.activity_seen || (!task.prompt_pending && (
                observed matches Observed::Status { status, .. } && (status is Working
                    || status is Blocked))),
                ..task
            }),
        row.state is Queued || row.state is Starting || row.state is Running || row.state is Blocked
            || row.state is Stale ==> row.activity_seen == (task.activity_seen || (
        !task.prompt_pending && (observed matches Observed::Status { status, .. } && (
        status is Working || status is Blocked)))),
{
    assert(call_ensures(*next, (&with_activity(task, *observed), observed), Some(row.state)));
}

/// Only a done task is opened again, and only running and blocked ones go stale; both
/// keep the rest of the row. An agent that takes its prompt sets its task running.
pub proof fn rows_change_only_from_the_states_they_may(
    t: Task,
    reopened: Option<Task>,
    stale: Option<Task>,
    seq: u64,
    status: AgentStatus,
    taken: Option<Task>,
    active: Option<Task>,
)
    requires
        call_ensures(reopen, (t,), reopened),
        call_ensures(mark_stale, (t,), stale),
        call_ensures(prompt_taken, (t, seq, status), taken),
        call_ensures(record_activity, (t,), active),
    ensures
        reopened is Some <==> t.state is Done,
        reopened matches Some(r) ==> r.state is Running && r.finished_at is None && r.pane_id
            == t.pane_id && r.last_completion_seq == t.last_completion_seq && r.activity_seen
            == t.activity_seen,
        stale is Some <==> t.state is Running || t.state is Blocked,
        stale matches Some(r) ==> r == (Task { state: TaskState::Stale, ..t }),
        taken is Some <==> t.prompt_pending && (t.state is Starting || t.state is Running
            || t.state is Blocked || t.state is Done || t.state is Stale),
        taken matches Some(r) ==> r.state is Running && !r.prompt_pending && r.error is None
            && r.finished_at is None && r.last_completion_seq == Some(seq) && r.activity_seen == (
        status is Working || status is Blocked) && r.pane_id == t.pane_id,
        active is Some <==> !t.prompt_pending && !(t.state is Failed) && !(t.state is Closed),
        active matches Some(r) ==> r == (Task { activity_seen: true, ..t }),
{
}

/// A prompt that cannot be sent fails the task that still waits for it, with the reason;
/// a row that no longer waits is left.
pub proof fn an_unsent_prompt_fails_its_task(
    t: Task,
    message: &String,
    now: Timestamp,
    r: Option<Task>,
)
    requires
        call_ensures(prompt_failed, (t, message, now), r),
    ensures
        r is Some <==> t.prompt_pending && (t.state is Starting || t.state is Running
            || t.state is Blocked || t.state is Done || t.state is Stale),
        r matches Some(row) ==> row.state is Failed && row.finished_at == Some(now) && (
        row.error matches Some(e) && e@ == message@) && row.prompt_pending && row.id == t.id
            && row.pane_id == t.pane_id,
{
}

/// An agent that went idle on a question blocks its task: the row says what was asked,
/// is not finished, and takes the idle as its baseline, as being done would.
pub proof fn a_question_blocks_the_task(task: Task, observed: &Observed, question: &str, r: Task)
    requires
        call_ensures(block_on_question, (task, observed, question), r),
    ensures
        r.state is Blocked,
        r.finished_at is None,
        !r.activity_seen,
        r.error matches Some(e) && e@ == "agent asked: "@ + question@,
        r.id == task.id && r.pane_id == task.pane_id && r.machine == task.machine,
        *observed matches Observed::Status { completion_seq: Some(s), .. } ==> r.last_completion_seq
            == Some(s),
        *observed matches Observed::Status { state_change_seq, completion_seq: None, .. }
            ==> r.last_completion_seq == state_change_seq,
{
}

/// A row in conflict is read once more and the change made to it as it is then; a second
/// conflict ends the write without one.
pub proof fn a_row_is_tried_twice_at_most<C: Fn(Task) -> Option<Task>>(
    id: i64,
    attempt: WriteTry,
    change: &C,
    fresh: Task,
    row: Task,
    on_conflict: WriteNext,
    on_row: WriteNext,
    on_none: WriteNext,
    on_done: WriteNext,
)
    requires
        call_ensures(write_step::<C>, (id, attempt, WriteEvent::Conflict, change), on_conflict),
        call_ensures(write_step::<C>, (id, attempt, WriteEvent::Row(Some(fresh)), change), on_row),
        call_ensures(write_step::<C>, (id, attempt, WriteEvent::Row(None), change), on_none),
        call_ensures(write_step::<C>, (id, attempt, WriteEvent::Updated(row), change), on_done),
    ensures
        attempt is First ==> on_conflict == WriteNext::Ask(WriteTry::Reading, WriteAsk::Reread(id)),
        !(attempt is First) ==> on_conflict == WriteNext::End(WriteEnd::Conflict),
        on_row matches WriteNext::Ask(then, ask) ==> then is Second && (
        ask matches WriteAsk::Update(to) && call_ensures(*change, (fresh,), Some(to))),
        on_row is End ==> on_row == WriteNext::End(WriteEnd::Nothing) && call_ensures(
            *change,
            (fresh,),
            None,
        ),
        on_none == WriteNext::End(WriteEnd::Nothing),
        on_done == WriteNext::End(WriteEnd::Written(row)),
{
}

} // verus!
