//! One task at a time: what a reconcile, an event and the settle check do about
//! it, given what the actor remembers.

use vstd::prelude::*;
use vstd::string::*;

use crate::machine::close;
use crate::machine::memory;
use crate::machine::memory::Memory;
use crate::machine::memory::Pending;
use crate::machine::observe;
use crate::machine::observe::Look;
use crate::machine::observe::PaneEvent;
use crate::machine::observe::PromptStep;
use crate::machine::observe::Seen;
use crate::machine::observe::Settled;
use crate::task;
use crate::task::AgentInfo;
use crate::task::AgentStatus;
use crate::task::Observed;
use crate::task::Task;
use crate::task::TaskState;
use crate::text;
use crate::time::Duration;
use crate::time::Timestamp;

verus! {

/// What is to be done about a task now.
#[derive(Debug)]
pub enum ToDo {
    /// Nothing more.
    Nothing,
    /// Write the row, which took up an agent. If its agent is idle, announce
    /// `task.running` and open its settle window at the sequence; else apply
    /// `observed` to the row as written.
    Adopt { row: Task, idle_at: Option<u64>, observed: Observed },
    /// Apply the observation to the row. `then_trust`: answer trust prompts
    /// afterwards.
    Apply { row: Task, observed: Observed, then_trust: bool },
    /// Send the row's pending prompt.
    Deliver { row: Task, status: AgentStatus },
    /// Mark the row stale.
    Stale(Task),
}

/// The idle agents after a status was noted.
pub open spec fn idle_after(idle: Set<i64>, id: i64, status: AgentStatus) -> Set<i64> {
    if status.idle() {
        idle.insert(id)
    } else if status.active() {
        idle.remove(id)
    } else {
        idle
    }
}

/// When the task's trust keys went in.
pub open spec fn answered_at(m: Memory, id: i64) -> Option<Duration> {
    if m.trust_answered@.dom().contains(id) {
        Some(m.trust_answered@[id])
    } else {
        None
    }
}

/// The settle window of a task.
pub open spec fn window_of(m: Memory, id: i64) -> Option<Pending> {
    if m.pending_done@.dom().contains(id) {
        Some(m.pending_done@[id])
    } else {
        None
    }
}

/// The clocks, and how long the settle window is.
#[derive(Debug, Clone, Copy)]
pub struct Now {
    /// The time of day.
    pub at: Timestamp,
    /// A clock that only goes forward.
    pub tick: Duration,
    pub settle: Duration,
}

/// What is done about the pending prompt of a task whose agent has this status:
/// nothing that keeps the observation from being handled, or all that is done.
pub open spec fn prompt_first(t: Task, status: AgentStatus, m: Memory, now: Now) -> Option<ToDo> {
    if t.prompt_pending {
        match observe::prompt_is(status, answered_at(m, t.id), now.tick, now.settle) {
            PromptStep::NotNow => None,
            PromptStep::Held => Some(ToDo::Nothing),
            PromptStep::Send => Some(ToDo::Deliver { row: t, status }),
        }
    } else {
        None
    }
}

/// Sending a prompt ends the hold on it.
pub open spec fn answered_after(t: Task, status: AgentStatus, m: Memory, now: Now) -> Map<i64, Duration> {
    if prompt_first(t, status, m, now) matches Some(ToDo::Deliver { .. }) {
        m.trust_answered@.remove(t.id)
    } else {
        m.trust_answered@
    }
}

fn prompt_now(t: Task, status: AgentStatus, m: &mut Memory, now: Now) -> (r: Result<ToDo, Task>)
    ensures
        match prompt_first(t, status, *old(m), now) {
            Some(todo) => r == Ok::<ToDo, Task>(todo),
            None => r == Err::<ToDo, Task>(t),
        },
        final(m).trust_answered@ == answered_after(t, status, *old(m), now),
        final(m).pending_done == old(m).pending_done,
        final(m).idle_agents == old(m).idle_agents,
        final(m).orphans == old(m).orphans,
{
    if !t.prompt_pending {
        return Err(t);
    }
    match observe::prompt_step(status, m.trust_answered_at(t.id), now.tick, now.settle) {
        PromptStep::NotNow => Err(t),
        PromptStep::Held => Ok(ToDo::Nothing),
        PromptStep::Send => {
            m.release_prompt(t.id);
            Ok(ToDo::Deliver { row: t, status })
        },
    }
}

/// What reconcile does about a task whose agent is present, once its prompt is
/// dealt with.
pub open spec fn present_todo(t: Task, a: AgentInfo, now: Now) -> ToDo {
    match observe::seen_as(t, a.agent_status, now.at) {
        Seen::Stale => ToDo::Stale(t),
        Seen::Settle => ToDo::Nothing,
        Seen::Observe => ToDo::Apply {
            row: t,
            observed: Observed::Status {
                status: a.agent_status,
                state_change_seq: Some(a.state_change_seq),
                completion_seq: a.completion_seq,
            },
            then_trust: false,
        },
    }
}

/// What `reconcile_task` does about a task whose agent is present, and what is
/// remembered of it.
pub open spec fn reconciled_present(t: Task, a: AgentInfo, before: Memory, after: Memory, now: Now, r: ToDo) -> bool {
    &&& after.orphans == before.orphans
    &&& after.idle_agents@ == idle_after(before.idle_agents@, t.id, a.agent_status)
    &&& after.trust_answered@ == answered_after(t, a.agent_status, before, now)
    &&& match prompt_first(t, a.agent_status, before, now) {
        Some(todo) => r == todo && after.pending_done@ == before.pending_done@,
        None => {
            &&& r == present_todo(t, a, now)
            &&& after.pending_done@ == if observe::seen_as(t, a.agent_status, now.at) is Settle {
                before.pending_done@.insert(
                    t.id,
                    Memory::window_after(window_of(before, t.id), a.state_change_seq, now.tick),
                )
            } else {
                before.pending_done@
            }
        },
    }
}

/// Nothing remembered changes.
pub open spec fn unchanged(before: Memory, after: Memory) -> bool {
    &&& after.pending_done@ == before.pending_done@
    &&& after.trust_answered@ == before.trust_answered@
    &&& after.idle_agents@ == before.idle_agents@
    &&& after.orphans == before.orphans
}

/// A row with what is wrong with it.
pub open spec fn explained(t: Task, error: Seq<char>, row: Task) -> bool {
    text::opt_text(row.error) == Some(error) && row == (Task { error: row.error, ..t })
}

/// What reconcile does about a task whose agent is gone, `to` being where an
/// exit moves it.
pub open spec fn reconciled_gone(t: Task, agent_idle: bool, to: Option<TaskState>, machine: Seq<char>, r: ToDo) -> bool {
    r matches ToDo::Apply { row, observed, then_trust } && {
        &&& observed == (Observed::PaneExited { agent_idle })
        &&& !then_trust
        &&& if to == Some(TaskState::Failed) {
            explained(
                t,
                "agent "@ + (match t.agent_name {
                    Some(n) => n@,
                    None => task::task_name(t.id as int),
                }) + " not found on machine "@ + machine,
                row,
            )
        } else {
            row == t
        }
    }
}

/// What a reconcile does about one task, and what is remembered afterwards. `next`
/// is the rule that gives the state a row moves to.
pub open spec fn reconciled<N: Fn(&Task, &Observed) -> Option<TaskState>>(
    task: Task,
    agents: Seq<AgentInfo>,
    before: Memory,
    after: Memory,
    machine: Seq<char>,
    now: Now,
    next: &N,
    r: ToDo,
) -> bool {
    match observe::looked(task, agents) {
        Look::Adopt(i) => {
            let a = agents[i as int];
            &&& unchanged(before, after)
            &&& r matches ToDo::Adopt { row, idle_at, observed } && {
                &&& row.agent_name matches Some(n) && n@ == task::task_name(task.id as int)
                &&& row == (Task {
                    pane_id: Some(a.pane_id),
                    workspace_id: Some(a.workspace_id),
                    agent_name: row.agent_name,
                    last_completion_seq: Some(a.state_change_seq),
                    prompt_pending: task.prompt_pending || a.launch_pending,
                    state: if a.agent_status.idle() {
                        TaskState::Running
                    } else {
                        task.state
                    },
                    ..task
                })
                &&& idle_at == if a.agent_status.idle() {
                    Some(a.state_change_seq)
                } else {
                    None
                }
                &&& observed == (Observed::Status {
                    status: a.agent_status,
                    state_change_seq: Some(a.state_change_seq),
                    completion_seq: a.completion_seq,
                })
            }
        },
        Look::Interrupted => unchanged(before, after) && (r matches ToDo::Apply {
            row,
            observed,
            then_trust,
        } && observed == (Observed::PaneExited { agent_idle: false }) && !then_trust && explained(
            task,
            "dispatch of "@ + task::task_name(task.id as int)
                + " was interrupted before an agent started"@,
            row,
        )),
        Look::Gone => {
            let idle = before.idle_agents@.contains(task.id);
            &&& unchanged(before, after)
            &&& exists|to: Option<TaskState>|
                #![trigger call_ensures(*next, (&task, &Observed::PaneExited { agent_idle: idle }), to)]
                call_ensures(*next, (&task, &Observed::PaneExited { agent_idle: idle }), to)
                    && reconciled_gone(task, idle, to, machine, r)
        },
        Look::Present(i) => reconciled_present(
            task,
            agents[i as int],
            before,
            after,
            now,
            r,
        ),
    }
}

/// One task of a reconcile: compare it with the list of agents. A missing agent
/// means the task ended while nobody looked; a present agent's status is
/// applied like an event, except idle, which goes through the settle window. A
/// task that runs too long becomes stale.
pub fn reconcile_task<N: Fn(&Task, &Observed) -> Option<TaskState>>(
    task: Task,
    agents: &Vec<AgentInfo>,
    memory: &mut Memory,
    machine: &str,
    now: Now,
    next: &N,
) -> (r: ToDo)
    requires
        forall|t: &Task, o: &Observed| call_requires(*next, (t, o)),
        now.at.valid(),
        task.started_at matches Some(s) ==> s.valid(),
    ensures
        reconciled(task, agents@, *old(memory), *final(memory), machine@, now, next, r),
{
    match observe::look(&task, agents) {
        Look::Adopt(i) => {
            let a = &agents[i];
            let observed = task::observed_from(a);
            let idle_at = if a.agent_status.is_idle() {
                Some(a.state_change_seq)
            } else {
                None
            };
            let row = observe::adopt(task, a);
            ToDo::Adopt { row, idle_at, observed }
        },
        Look::Interrupted => ToDo::Apply {
            row: observe::interrupted(task),
            observed: Observed::PaneExited { agent_idle: false },
            then_trust: false,
        },
        Look::Gone => {
            let exited = Observed::PaneExited { agent_idle: memory.agent_idle(task.id) };
            let to = next(&task, &exited);
            let row = match to {
                Some(TaskState::Failed) => observe::missing(task, to, machine),
                _ => task,
            };
            ToDo::Apply { row, observed: exited, then_trust: false }
        },
        Look::Present(i) => {
            let a = &agents[i];
            memory.note_status(task.id, a.agent_status);
            let task = match prompt_now(task, a.agent_status, memory, now) {
                Ok(todo) => {
                    return todo;
                },
                Err(t) => t,
            };
            match observe::seen(&task, a.agent_status, now.at) {
                Seen::Stale => ToDo::Stale(task),
                Seen::Settle => {
                    memory.listed_idle(task.id, a.state_change_seq, now.tick);
                    ToDo::Nothing
                },
                Seen::Observe => {
                    let observed = task::observed_from(a);
                    ToDo::Apply { row: task, observed, then_trust: false }
                },
            }
        },
    }
}

/// What an event says of a task's agent.
pub open spec fn event_says(ev: PaneEvent, agent_idle: bool) -> Option<Observed> {
    match ev {
        PaneEvent::Closed => Some(Observed::PaneClosed),
        PaneEvent::Exited => Some(Observed::PaneExited { agent_idle }),
        PaneEvent::Status(status) => Some(
            Observed::Status { status, state_change_seq: None, completion_seq: None },
        ),
        PaneEvent::Other => None,
    }
}

/// What a status event does about a task: send or hold its prompt; else an idle
/// agent opens a fresh settle window, and any other status closes the window
/// and is applied at once.
pub open spec fn status_event(t: Task, status: AgentStatus, before: Memory, after: Memory, now: Now, r: ToDo) -> bool {
    &&& after.orphans == before.orphans
    &&& after.idle_agents@ == idle_after(before.idle_agents@, t.id, status)
    &&& after.trust_answered@ == answered_after(t, status, before, now)
    &&& match prompt_first(t, status, before, now) {
        Some(todo) => r == todo && after.pending_done@ == before.pending_done@,
        None => if status.idle() {
            &&& r is Nothing
            &&& after.pending_done@ == before.pending_done@.insert(
                t.id,
                (Pending { seq: None, at: now.tick }),
            )
        } else {
            &&& r == (ToDo::Apply {
                row: t,
                observed: Observed::Status { status, state_change_seq: None, completion_seq: None },
                then_trust: status is Blocked,
            })
            &&& after.pending_done@ == before.pending_done@.remove(t.id)
        },
    }
}

/// One event about the pane of a task.
pub fn event_task(task: Task, ev: PaneEvent, memory: &mut Memory, now: Now) -> (r: ToDo)
    ensures
        match ev {
            PaneEvent::Other => r is Nothing && unchanged(*old(memory), *final(memory)),
            PaneEvent::Status(status) => status_event(
                task,
                status,
                *old(memory),
                *final(memory),
                now,
                r,
            ),
            _ => {
                &&& final(memory).pending_done@ == old(memory).pending_done@.remove(task.id)
                &&& final(memory).trust_answered@ == old(memory).trust_answered@
                &&& final(memory).idle_agents@ == old(memory).idle_agents@
                &&& final(memory).orphans == old(memory).orphans
                &&& r == (ToDo::Apply {
                    row: task,
                    observed: event_says(ev, old(memory).idle_agents@.contains(task.id))->0,
                    then_trust: false,
                })
            },
        },
{
    let observed = match observe::observe_event(ev, memory.agent_idle(task.id)) {
        Some(o) => o,
        None => {
            return ToDo::Nothing;
        },
    };
    let mut task = task;
    if let PaneEvent::Status(status) = ev {
        memory.note_status(task.id, status);
        task = match prompt_now(task, status, memory, now) {
            Ok(todo) => {
                return todo;
            },
            Err(t) => t,
        };
    }
    match observe::handle_event(&observed) {
        observe::EventStep::Window => {
            memory.saw_idle(task.id, now.tick);
            ToDo::Nothing
        },
        observe::EventStep::Apply { then_trust } => {
            memory.forget_pending(task.id);
            ToDo::Apply { row: task, observed, then_trust }
        },
    }
}

/// An event about a pane that no task has: where the pane is gone and an orphan was in
/// it, the orphan is forgotten and the live agents are to be counted again.
pub fn stray_event(ev: PaneEvent, pane_id: &str, memory: &mut Memory) -> (refresh: bool)
    ensures
        if ev is Closed || ev is Exited {
            &&& memory::pair_texts(final(memory).orphans@) == memory::without_pane(
                memory::pair_texts(old(memory).orphans@),
                pane_id@,
            )
            &&& final(memory).pending_done == old(memory).pending_done
            &&& final(memory).trust_answered == old(memory).trust_answered
            &&& final(memory).idle_agents == old(memory).idle_agents
            &&& refresh == (exists|i: int|
                0 <= i < old(memory).orphans@.len() && (#[trigger] old(memory).orphans@[i]).1@
                    == pane_id@)
        } else {
            *final(memory) == *old(memory) && !refresh
        },
{
    if observe::ends_pane(ev) {
        memory.forget_orphan(pane_id)
    } else {
        false
    }
}

/// What the settle check does about a task whose window has passed.
#[derive(Debug)]
pub enum SettleToDo {
    /// Nothing: the task, its pane or its agent is gone, or its window starts
    /// over.
    Nothing,
    /// The agent's status held for a window. If the task's rule makes it `Done`,
    /// its pane is first read for a question; where the machine is out of reach
    /// for that, a new window opens at `seen`.
    Check { row: Task, observed: Observed, seen: Option<u64> },
}

/// What the settle check finds about a task, and what is remembered afterwards.
pub open spec fn settled(
    id: i64,
    row: Option<Task>,
    agents: Seq<AgentInfo>,
    before: Memory,
    after: Memory,
    now: Now,
    r: SettleToDo,
) -> bool {
    &&& after.trust_answered@ == before.trust_answered@
    &&& after.orphans == before.orphans
    &&& match (window_of(before, id), listed_agent(row, agents)) {
        (Some(window), Some(a)) => {
            &&& after.idle_agents@ == idle_after(before.idle_agents@, id, a.agent_status)
            &&& match observe::settled_as(window.seq, a) {
                Settled::Again(seq) => {
                    &&& r is Nothing
                    &&& after.pending_done@ == before.pending_done@.insert(
                        id,
                        (Pending { seq: Some(seq), at: now.tick }),
                    )
                },
                Settled::Holds => {
                    &&& r == (SettleToDo::Check {
                        row: row->0,
                        observed: Observed::Status {
                            status: a.agent_status,
                            state_change_seq: Some(a.state_change_seq),
                            completion_seq: a.completion_seq,
                        },
                        seen: window.seq,
                    })
                    &&& after.pending_done@ == before.pending_done@.remove(id)
                },
            }
        },
        _ => {
            &&& r is Nothing
            &&& after.idle_agents@ == before.idle_agents@
            &&& after.pending_done@ == before.pending_done@.remove(id)
        },
    }
}

/// The settle check of a task whose window has passed, with its row as it is
/// now.
pub fn settle_task(
    id: i64,
    row: Option<Task>,
    agents: &Vec<AgentInfo>,
    memory: &mut Memory,
    now: Now,
) -> (r: SettleToDo)
    requires
        row matches Some(t) ==> t.id == id,
    ensures
        settled(id, row, agents@, *old(memory), *final(memory), now, r),
{
    let window = match memory.forget_pending(id) {
        Some(w) => w,
        None => {
            return SettleToDo::Nothing;
        },
    };
    let task = match row {
        Some(t) => t,
        None => {
            return SettleToDo::Nothing;
        },
    };
    let i = match &task.pane_id {
        Some(pane) => close::find_in_pane(agents, pane.as_str()),
        None => agents.len(),
    };
    if i >= agents.len() {
        return SettleToDo::Nothing;
    }
    let a = &agents[i];
    memory.note_status(id, a.agent_status);
    match observe::confirm_pending_done(window.seq, a) {
        Settled::Again(seq) => {
            memory.window_at(id, Some(seq), now.tick);
            assert(final(memory).pending_done@ =~= old(memory).pending_done@.insert(
                id,
                (Pending { seq: Some(seq), at: now.tick }),
            ));
            SettleToDo::Nothing
        },
        Settled::Holds => {
            let observed = task::observed_from(a);
            SettleToDo::Check { row: task, observed, seen: window.seq }
        },
    }
}

/// The agent herdr lists in a row's pane.
pub open spec fn listed_agent(row: Option<Task>, agents: Seq<AgentInfo>) -> Option<AgentInfo> {
    match row {
        Some(t) => match t.pane_id {
            Some(pane) => close::agent_in(agents, pane@),
            None => None,
        },
        None => None,
    }
}

/// A task is checked for being done only if its agent, seen idle, is still idle
/// at the very sequence its window opened at, or is not idle at all: an idle
/// agent whose sequence moved, or was unknown, waits another window.
pub proof fn done_needs_a_window_at_one_sequence(window: Pending, a: AgentInfo)
    requires
        a.agent_status.idle(),
    ensures
        observe::settled_as(window.seq, a) is Holds <==> window.seq == Some(a.state_change_seq),
{
}

/// While an agent still has to get its prompt, nothing it does counts: neither
/// a reconcile nor an event opens a settle window for a task whose prompt is
/// pending, unless the agent is blocked or unknown, which opens none either.
pub proof fn a_pending_prompt_opens_no_window(t: Task, status: AgentStatus, before: Memory, after: Memory, now: Now, r: ToDo)
    requires
        t.prompt_pending,
        status_event(t, status, before, after, now, r),
    ensures
        after.pending_done@.dom().subset_of(before.pending_done@.dom()),
{
}

/// The agent at `i` is the first that herdr lists in the pane.
pub open spec fn first_in(agents: Seq<AgentInfo>, pane: Seq<char>, i: int) -> bool {
    &&& 0 <= i < agents.len() <= usize::MAX
    &&& agents[i].pane_id@ == pane
    &&& forall|k: int| 0 <= k < i ==> (#[trigger] agents[k]).pane_id@ != pane
}

/// A running or blocked task whose agent has its prompt and sits in its pane, and which
/// has run for more whole seconds than it may, goes stale, whatever its agent is doing.
pub proof fn an_overdue_task_goes_stale<N: Fn(&Task, &Observed) -> Option<TaskState>>(
    task: Task,
    agents: Seq<AgentInfo>,
    i: int,
    before: Memory,
    after: Memory,
    machine: Seq<char>,
    now: Now,
    next: &N,
    r: ToDo,
)
    requires
        reconciled(task, agents, before, after, machine, now, next, r),
        task.state is Running || task.state is Blocked,
        !task.prompt_pending,
        task.pane_id is Some,
        agents.len() <= usize::MAX,
        0 <= i < agents.len(),
        agents[i].pane_id@ == task.pane_id->0@,
        task.started_at is Some,
        (now.at.nanos - task.started_at->0.nanos) / 1_000_000_000 > task.spec.timeout_secs,
    ensures
        r == ToDo::Stale(task),
        after.pending_done@ == before.pending_done@,
{
    close::lemma_in_pane(agents, task.pane_id->0@);
}

/// A task goes stale in no other case: it runs or is blocked, has its prompt or an agent
/// that cannot take it yet, is in its pane, and has run for longer than it may.
pub proof fn only_overdue_tasks_go_stale<N: Fn(&Task, &Observed) -> Option<TaskState>>(
    task: Task,
    agents: Seq<AgentInfo>,
    before: Memory,
    after: Memory,
    machine: Seq<char>,
    now: Now,
    next: &N,
    row: Task,
)
    requires
        agents.len() <= usize::MAX,
        reconciled(task, agents, before, after, machine, now, next, ToDo::Stale(row)),
    ensures
        row == task,
        task.state is Running || task.state is Blocked,
        task.started_at matches Some(s) && now.at.nanos - s.nanos >= (task.spec.timeout_secs + 1)
            * 1_000_000_000,
        task.pane_id matches Some(p) && exists|k: int|
            0 <= k < agents.len() && (#[trigger] agents[k]).pane_id@ == p@,
{
    if let Some(p) = task.pane_id {
        close::lemma_in_pane(agents, p@);
        let k = close::in_pane(agents, p@);
        assert(agents[k].pane_id@ == p@);
    }
}

/// The agent of a task that has its prompt and time left: while it works, is blocked or
/// says nothing known, its status is applied with its sequences; once it is between
/// turns, nothing is written, and the task waits for the settle window: one that has a
/// sequence runs on, and else one opens now at the agent's.
pub proof fn a_present_agent_is_followed<N: Fn(&Task, &Observed) -> Option<TaskState>>(
    task: Task,
    agents: Seq<AgentInfo>,
    i: int,
    before: Memory,
    after: Memory,
    machine: Seq<char>,
    now: Now,
    next: &N,
    r: ToDo,
)
    requires
        reconciled(task, agents, before, after, machine, now, next, r),
        !task.prompt_pending,
        task.pane_id is Some,
        first_in(agents, task.pane_id->0@, i),
        !(task.state is Running || task.state is Blocked) || task.started_at is None || now.at.nanos
            - task.started_at->0.nanos < (task.spec.timeout_secs + 1) * 1_000_000_000,
    ensures
        agents[i].agent_status is Working || agents[i].agent_status is Blocked
            || agents[i].agent_status is Unknown ==> r == (ToDo::Apply {
            row: task,
            observed: Observed::Status {
                status: agents[i].agent_status,
                state_change_seq: Some(agents[i].state_change_seq),
                completion_seq: agents[i].completion_seq,
            },
            then_trust: false,
        }) && after.pending_done@ == before.pending_done@,
        agents[i].agent_status is Idle || agents[i].agent_status is Done ==> r is Nothing
            && after.pending_done@ == before.pending_done@.insert(
            task.id,
            if before.pending_done@.dom().contains(task.id) && before.pending_done@[task.id].seq is Some {
                before.pending_done@[task.id]
            } else {
                Pending { seq: Some(agents[i].state_change_seq), at: now.tick }
            },
        ),
        agents[i].agent_status is Idle || agents[i].agent_status is Done
            ==> after.idle_agents@.contains(task.id),
        agents[i].agent_status is Working || agents[i].agent_status is Blocked
            ==> !after.idle_agents@.contains(task.id),
        agents[i].agent_status is Unknown ==> after.idle_agents@ == before.idle_agents@,
        after.trust_answered@ == before.trust_answered@,
        after.orphans == before.orphans,
{
    close::lemma_in_pane(agents, task.pane_id->0@);
}

/// A prompt the agent has not seen is sent once the agent can take it: not while it is
/// blocked or unknown, and not for a settle window after its trust dialog was answered.
/// While the prompt is held nothing else is done about the task.
pub proof fn a_pending_prompt_comes_first<N: Fn(&Task, &Observed) -> Option<TaskState>>(
    task: Task,
    agents: Seq<AgentInfo>,
    i: int,
    before: Memory,
    after: Memory,
    machine: Seq<char>,
    now: Now,
    next: &N,
    r: ToDo,
)
    requires
        reconciled(task, agents, before, after, machine, now, next, r),
        task.prompt_pending,
        task.pane_id is Some,
        first_in(agents, task.pane_id->0@, i),
        agents[i].agent_status is Idle || agents[i].agent_status is Working
            || agents[i].agent_status is Done,
    ensures
        !before.trust_answered@.dom().contains(task.id) || now.tick.nanos
            - before.trust_answered@[task.id].nanos >= now.settle.nanos ==> r == (ToDo::Deliver {
            row: task,
            status: agents[i].agent_status,
        }) && after.trust_answered@ == before.trust_answered@.remove(task.id),
        before.trust_answered@.dom().contains(task.id) && now.settle.nanos > 0 && now.tick.nanos
            - before.trust_answered@[task.id].nanos < now.settle.nanos ==> r is Nothing
            && after.trust_answered@ == before.trust_answered@,
        after.pending_done@ == before.pending_done@,
{
    close::lemma_in_pane(agents, task.pane_id->0@);
}

/// A task with a pane that herdr lists no agent in has lost its agent: it is seen as a
/// pane that exited, at work unless the agent was last seen between turns. Nothing
/// remembered changes. Where that fails the task, its row says which agent is missing.
pub proof fn a_missing_agent_is_an_exit<N: Fn(&Task, &Observed) -> Option<TaskState>>(
    task: Task,
    agents: Seq<AgentInfo>,
    before: Memory,
    after: Memory,
    machine: Seq<char>,
    now: Now,
    next: &N,
    r: ToDo,
)
    requires
        reconciled(task, agents, before, after, machine, now, next, r),
        task.pane_id is Some,
        forall|k: int| 0 <= k < agents.len() ==> (#[trigger] agents[k]).pane_id@ != task.pane_id->0@,
    ensures
        r matches ToDo::Apply { row, observed, then_trust } && {
            &&& observed == (Observed::PaneExited {
                agent_idle: before.idle_agents@.contains(task.id),
            })
            &&& !then_trust
            &&& row == (Task { error: row.error, ..task })
            &&& (forall|x: Option<TaskState>| #[trigger]
                call_ensures(*next, (&task, &observed), x) ==> x == Some(TaskState::Failed)) ==> (
            row.error matches Some(e) && e@ == "agent "@ + (if task.agent_name is Some {
                task.agent_name->0@
            } else {
                "t-"@ + crate::digits::signed_decimal(task.id as int)
            }) + " not found on machine "@ + machine)
            &&& (forall|x: Option<TaskState>| #[trigger]
                call_ensures(*next, (&task, &observed), x) ==> x != Some(TaskState::Failed)) ==> row
                == task
        },
        after.pending_done@ == before.pending_done@,
        after.trust_answered@ == before.trust_answered@,
        after.idle_agents@ == before.idle_agents@,
        after.orphans == before.orphans,
{
    close::lemma_in_pane(agents, task.pane_id->0@);
}

/// A task without a pane takes up the first agent that carries its name, with that
/// agent's pane, workspace and sequence. An agent between turns lands it at running and
/// opens its window at the agent's sequence; it is never done by being found.
pub proof fn an_agent_of_the_tasks_name_is_adopted<N: Fn(&Task, &Observed) -> Option<TaskState>>(
    task: Task,
    agents: Seq<AgentInfo>,
    i: int,
    before: Memory,
    after: Memory,
    machine: Seq<char>,
    now: Now,
    next: &N,
    r: ToDo,
)
    requires
        reconciled(task, agents, before, after, machine, now, next, r),
        task.pane_id is None,
        0 <= i < agents.len() <= usize::MAX,
        text::opt_text(agents[i].name) == Some("t-"@ + crate::digits::signed_decimal(task.id as int)),
        forall|k: int|
            0 <= k < i ==> text::opt_text((#[trigger] agents[k]).name) != Some(
                "t-"@ + crate::digits::signed_decimal(task.id as int),
            ),
    ensures
        r matches ToDo::Adopt { row, idle_at, observed } && {
            &&& row.pane_id == Some(agents[i].pane_id)
            &&& row.workspace_id == Some(agents[i].workspace_id)
            &&& text::opt_text(row.agent_name) == text::opt_text(agents[i].name)
            &&& row.last_completion_seq == Some(agents[i].state_change_seq)
            &&& row.prompt_pending == (task.prompt_pending || agents[i].launch_pending)
            &&& row.id == task.id && row.machine == task.machine && row.spec == task.spec
            &&& row.error == task.error && row.finished_at == task.finished_at
            &&& agents[i].agent_status is Idle || agents[i].agent_status is Done ==> row.state is Running
                && idle_at == Some(agents[i].state_change_seq)
            &&& !(agents[i].agent_status is Idle || agents[i].agent_status is Done) ==> row.state
                == task.state && idle_at is None
            &&& observed == (Observed::Status {
                status: agents[i].agent_status,
                state_change_seq: Some(agents[i].state_change_seq),
                completion_seq: agents[i].completion_seq,
            })
        },
        unchanged(before, after),
{
    close::lemma_of_name(agents, task::task_name(task.id as int));
}

/// A task without a pane or an agent of its name was cut short: it is seen as a pane that
/// exited at work, and its row says so.
pub proof fn a_dispatch_cut_short_is_an_exit<N: Fn(&Task, &Observed) -> Option<TaskState>>(
    task: Task,
    agents: Seq<AgentInfo>,
    before: Memory,
    after: Memory,
    machine: Seq<char>,
    now: Now,
    next: &N,
    r: ToDo,
)
    requires
        reconciled(task, agents, before, after, machine, now, next, r),
        task.pane_id is None,
        forall|k: int|
            0 <= k < agents.len() ==> text::opt_text((#[trigger] agents[k]).name) != Some(
                "t-"@ + crate::digits::signed_decimal(task.id as int),
            ),
    ensures
        r matches ToDo::Apply { row, observed, then_trust } && {
            &&& observed == (Observed::PaneExited { agent_idle: false })
            &&& !then_trust
            &&& row == (Task { error: row.error, ..task })
            &&& row.error matches Some(e) && e@ == "dispatch of t-"@ + crate::digits::signed_decimal(
                task.id as int,
            ) + " was interrupted before an agent started"@
        },
        unchanged(before, after),
{
    reveal_strlit("dispatch of ");
    reveal_strlit("t-");
    reveal_strlit("dispatch of t-");
    close::lemma_of_name(agents, task::task_name(task.id as int));
    let n = crate::digits::signed_decimal(task.id as int);
    assert("dispatch of "@ + ("t-"@ + n) =~= "dispatch of t-"@ + n);
}

/// A settle window, once its task's agent is still listed in its pane: an agent between
/// turns at the sequence the window opened at is checked for being done; one whose
/// sequence moved, or was not known, waits another window from now at its sequence; one
/// that is not between turns is checked as it is.
pub proof fn a_window_settles_at_one_sequence(
    id: i64,
    task: Task,
    agents: Seq<AgentInfo>,
    i: int,
    before: Memory,
    after: Memory,
    now: Now,
    r: SettleToDo,
)
    requires
        settled(id, Some(task), agents, before, after, now, r),
        before.pending_done@.dom().contains(id),
        task.pane_id is Some,
        first_in(agents, task.pane_id->0@, i),
    ensures
        (agents[i].agent_status is Idle || agents[i].agent_status is Done)
            && before.pending_done@[id].seq != Some(agents[i].state_change_seq) ==> r is Nothing
            && after.pending_done@.dom().contains(id) && after.pending_done@[id].seq == Some(
            agents[i].state_change_seq,
        ) && after.pending_done@[id].at == now.tick,
        !(agents[i].agent_status is Idle || agents[i].agent_status is Done)
            || before.pending_done@[id].seq == Some(agents[i].state_change_seq) ==> {
            &&& r == (SettleToDo::Check {
                row: task,
                observed: Observed::Status {
                    status: agents[i].agent_status,
                    state_change_seq: Some(agents[i].state_change_seq),
                    completion_seq: agents[i].completion_seq,
                },
                seen: before.pending_done@[id].seq,
            })
            &&& !after.pending_done@.dom().contains(id)
        },
        after.trust_answered@ == before.trust_answered@,
        after.orphans == before.orphans,
{
    close::lemma_in_pane(agents, task.pane_id->0@);
}

/// A window whose task, pane or agent is gone is dropped, and nothing is done.
pub proof fn a_window_without_an_agent_is_dropped(
    id: i64,
    row: Option<Task>,
    agents: Seq<AgentInfo>,
    before: Memory,
    after: Memory,
    now: Now,
    r: SettleToDo,
)
    requires
        settled(id, row, agents, before, after, now, r),
        row matches Some(t) ==> (t.pane_id matches Some(p) ==> forall|k: int|
            0 <= k < agents.len() ==> (#[trigger] agents[k]).pane_id@ != p@),
    ensures
        r is Nothing,
        !after.pending_done@.dom().contains(id),
        after.idle_agents@ == before.idle_agents@,
{
    if let Some(t) = row {
        if let Some(p) = t.pane_id {
            close::lemma_in_pane(agents, p@);
        }
    }
}

/// An event that an agent went idle opens a window from now on, at no known sequence, and
/// writes nothing; any other status closes the window and is applied at once, and a
/// blocked agent has its trust prompts answered then.
pub proof fn a_status_event_is_followed(
    t: Task,
    status: AgentStatus,
    before: Memory,
    after: Memory,
    now: Now,
    r: ToDo,
)
    requires
        status_event(t, status, before, after, now, r),
        !t.prompt_pending || status is Blocked || status is Unknown,
    ensures
        status is Idle || status is Done ==> r is Nothing && after.pending_done@.dom().contains(t.id)
            && after.pending_done@[t.id] == (Pending { seq: None, at: now.tick }),
        status is Working || status is Blocked || status is Unknown ==> {
            &&& r == (ToDo::Apply {
                row: t,
                observed: Observed::Status { status, state_change_seq: None, completion_seq: None },
                then_trust: status is Blocked,
            })
            &&& !after.pending_done@.dom().contains(t.id)
        },
        status is Idle || status is Done ==> after.idle_agents@.contains(t.id),
        status is Working || status is Blocked ==> !after.idle_agents@.contains(t.id),
        after.trust_answered@ == before.trust_answered@,
{
}

} // verus!
