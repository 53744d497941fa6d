//! What the actor makes of an event, of the list of agents, and of the settle
//! window: which of a task's rows move, which wait, and which get their prompt.

use vstd::prelude::*;
use vstd::string::*;

use crate::machine::calls::Reply;
use crate::machine::close;
use crate::machine::memory;
use crate::task;
use crate::task::AgentInfo;
use crate::task::AgentStatus;
use crate::task::Observed;
use crate::task::Task;
use crate::task::TaskState;
use crate::text;
use crate::time;
use crate::time::Duration;
use crate::time::Timestamp;

verus! {

// ---------------------------------------------------------------------------
// Reconcile: the rows against the list of agents

/// What the list of agents holds for a task.
#[derive(Debug, Clone, Copy, PartialEq, Eq, Structural)]
pub enum Look {
    /// No pane is recorded, and the agent of that index carries the task's
    /// name: dispatch was cut short after it started.
    Adopt(usize),
    /// No pane is recorded and there is no such agent: dispatch was cut short
    /// before it started one.
    Interrupted,
    /// Nothing is in the task's pane.
    Gone,
    /// The agent of that index is in the task's pane.
    Present(usize),
}

/// What the list of agents holds for a task.
pub open spec fn looked(t: Task, agents: Seq<AgentInfo>) -> Look {
    match t.pane_id {
        None => {
            let i = close::of_name(agents, task::task_name(t.id as int));
            if i < agents.len() {
                Look::Adopt(i as usize)
            } else {
                Look::Interrupted
            }
        },
        Some(pane) => {
            let i = close::in_pane(agents, pane@);
            if i < agents.len() {
                Look::Present(i as usize)
            } else {
                Look::Gone
            }
        },
    }
}

/// What the list of agents holds for a task.
pub fn look(t: &Task, agents: &Vec<AgentInfo>) -> (r: Look)
    ensures
        r == looked(*t, agents@),
        r matches Look::Adopt(i) ==> i < agents@.len() && text::opt_text(agents@[i as int].name) == Some(
            task::task_name(t.id as int),
        ),
        r matches Look::Present(i) ==> i < agents@.len() && t.pane_id is Some && agents@[i as int].pane_id@
            == t.pane_id->0@,
{
    match &t.pane_id {
        None => {
            let name = t.display_id();
            let i = close::find_of_name(agents, name.as_str());
            proof {
                close::lemma_of_name(agents@, name@);
            }
            if i < agents.len() {
                Look::Adopt(i)
            } else {
                Look::Interrupted
            }
        },
        Some(pane) => {
            let i = close::find_in_pane(agents, pane.as_str());
            proof {
                close::lemma_in_pane(agents@, pane@);
            }
            if i < agents.len() {
                Look::Present(i)
            } else {
                Look::Gone
            }
        },
    }
}

/// The row of a starting task that takes up the agent found under its name.
/// Work is counted from now on: whether dispatch got as far as the prompt is
/// unknown. An agent still launching cannot have taken it. An idle agent lands
/// the task at `Running`, never at `Done`: the settle window decides that.
pub fn adopt(t: Task, agent: &AgentInfo) -> (r: Task)
    ensures
        r.agent_name matches Some(n) && n@ == task::task_name(t.id as int),
        r == (Task {
            pane_id: Some(agent.pane_id),
            workspace_id: Some(agent.workspace_id),
            agent_name: r.agent_name,
            last_completion_seq: Some(agent.state_change_seq),
            prompt_pending: t.prompt_pending || agent.launch_pending,
            state: if agent.agent_status.idle() {
                TaskState::Running
            } else {
                t.state
            },
            ..t
        }),
{
    let agent_name = Some(t.display_id());
    let prompt_pending = t.prompt_pending || agent.launch_pending;
    let state = if agent.agent_status.is_idle() {
        TaskState::Running
    } else {
        t.state
    };
    Task {
        pane_id: Some(agent.pane_id.clone()),
        workspace_id: Some(agent.workspace_id.clone()),
        agent_name,
        last_completion_seq: Some(agent.state_change_seq),
        prompt_pending,
        state,
        ..t
    }
}

/// The row of a task whose dispatch was cut short before an agent started; it
/// is then observed as a pane that exited at work.
pub fn interrupted(t: Task) -> (r: Task)
    ensures
        text::opt_text(r.error) == Some(
            "dispatch of "@ + task::task_name(t.id as int)
                + " was interrupted before an agent started"@,
        ),
        r == (Task { error: r.error, ..t }),
{
    let mut e = "dispatch of ".to_owned();
    let name = t.display_id();
    e.append(name.as_str());
    e.append(" was interrupted before an agent started");
    Task { error: Some(e), ..t }
}

/// The row of a task whose agent is not on the machine any more, `to` being the
/// state an exit moves it to: only a failure is explained, since a task that
/// was done has finished its work.
pub fn missing(t: Task, to: Option<TaskState>, machine: &str) -> (r: Task)
    ensures
        r == (Task { error: r.error, ..t }),
        text::opt_text(r.error) == if to == Some(TaskState::Failed) {
            Some(
                "agent "@ + (match t.agent_name {
                    Some(n) => n@,
                    None => task::task_name(t.id as int),
                }) + " not found on machine "@ + machine@,
            )
        } else {
            text::opt_text(t.error)
        },
{
    let failed = match to {
        Some(TaskState::Failed) => true,
        _ => false,
    };
    if failed {
        let mut e = "agent ".to_owned();
        match &t.agent_name {
            Some(n) => {
                e.append(n.as_str());
            },
            None => {
                let n = t.display_id();
                e.append(n.as_str());
            },
        }
        e.append(" not found on machine ");
        e.append(machine);
        Task { error: Some(e), ..t }
    } else {
        t
    }
}

/// The whole seconds from `from` to `to`, toward zero.
pub open spec fn seconds_between(from: Timestamp, to: Timestamp) -> int {
    if to.nanos >= from.nanos {
        (to.nanos - from.nanos) / 1_000_000_000
    } else {
        -((from.nanos - to.nanos) / 1_000_000_000)
    }
}

/// The task has run longer than it may. One whose start lies in the future has not run
/// yet.
pub open spec fn overdue(t: Task, now: Timestamp) -> bool {
    t.started_at matches Some(s) && seconds_between(s, now) > t.spec.timeout_secs
}

/// Whether the task has run longer than it may.
pub fn is_overdue(t: &Task, now: Timestamp) -> (b: bool)
    requires
        now.valid(),
        t.started_at matches Some(s) ==> s.valid(),
    ensures
        b == overdue(*t, now),
{
    match t.started_at {
        Some(s) => now.nanos >= s.nanos && (now.nanos - s.nanos) / 1_000_000_000
            > t.spec.timeout_secs as i128,
        None => false,
    }
}

/// What to do about a task whose agent is present and whose prompt went in.
#[derive(Debug, Clone, Copy, PartialEq, Eq, Structural)]
pub enum Seen {
    /// It has run too long: mark it stale.
    Stale,
    /// Its agent is idle: the settle window runs on, or starts.
    Settle,
    /// Observe the agent's status.
    Observe,
}

/// What reconcile does about a task whose agent is present.
pub open spec fn seen_as(t: Task, status: AgentStatus, now: Timestamp) -> Seen {
    if overdue(t, now) && (t.state is Running || t.state is Blocked) {
        Seen::Stale
    } else if status.idle() {
        Seen::Settle
    } else {
        Seen::Observe
    }
}

/// What reconcile does about a task whose agent is present.
pub fn seen(t: &Task, status: AgentStatus, now: Timestamp) -> (r: Seen)
    requires
        now.valid(),
        t.started_at matches Some(s) ==> s.valid(),
    ensures
        r == seen_as(*t, status, now),
{
    if is_overdue(t, now) && matches!(t.state, TaskState::Running | TaskState::Blocked) {
        Seen::Stale
    } else if status.is_idle() {
        Seen::Settle
    } else {
        Seen::Observe
    }
}

/// A reconcile never marks a task done: an idle agent's task waits for the
/// settle window, whether it is adopted or already known.
pub proof fn reconcile_leaves_done_to_the_settle_window(t: Task, status: AgentStatus, now: Timestamp)
    requires
        status.idle(),
    ensures
        !(seen_as(t, status, now) is Observe),
{
}

// ---------------------------------------------------------------------------
// The settle window

/// What the settle check finds.
#[derive(Debug, Clone, Copy, PartialEq, Eq, Structural)]
pub enum Settled {
    /// The agent may have worked again inside the window: it starts over at
    /// this sequence.
    Again(u64),
    /// The agent's status holds.
    Holds,
}

/// What the settle check makes of an agent last seen idle at `seen`.
pub open spec fn settled_as(seen: Option<u64>, agent: AgentInfo) -> Settled {
    if agent.agent_status.idle() && seen != Some(agent.state_change_seq) {
        Settled::Again(agent.state_change_seq)
    } else {
        Settled::Holds
    }
}

/// After the settle window: is the agent still idle at the sequence it had when
/// it was seen going idle? A newer sequence means it worked again in between,
/// unseen; so may an unknown one.
pub fn confirm_pending_done(seen: Option<u64>, agent: &AgentInfo) -> (r: Settled)
    ensures
        r == settled_as(seen, *agent),
{
    let same = match seen {
        Some(s) => s == agent.state_change_seq,
        None => false,
    };
    if agent.agent_status.is_idle() && !same {
        Settled::Again(agent.state_change_seq)
    } else {
        Settled::Holds
    }
}

/// An idle agent's task is settled only at the very sequence its window opened
/// at: without one, or at another, the window starts over.
pub proof fn an_idle_task_settles_at_one_sequence(seen: Option<u64>, agent: AgentInfo)
    requires
        agent.agent_status.idle(),
        settled_as(seen, agent) is Holds,
    ensures
        seen == Some(agent.state_change_seq),
{
}

/// What reading the agent's pane for a question tells.
#[derive(Debug)]
pub enum PaneRead {
    /// The text of the pane.
    Text(String),
    /// herdr could not read it: there is no question in it.
    Nothing,
    /// The machine is out of reach: the task is not settled on this.
    Outage,
}

/// The answer to reading the agent's pane for a question. A lost connection or
/// a read that never answers is an outage; any other failure is a pane without
/// a question.
pub fn question_in_pane(reply: Reply<String>) -> (r: PaneRead)
    ensures
        r == (match reply {
            Reply::Answer(text) => PaneRead::Text(text),
            Reply::Failed(f) => if f.transport {
                PaneRead::Outage
            } else {
                PaneRead::Nothing
            },
            Reply::TimedOut => PaneRead::Outage,
        }),
{
    match reply {
        Reply::Answer(text) => PaneRead::Text(text),
        Reply::Failed(f) => if f.transport {
            PaneRead::Outage
        } else {
            PaneRead::Nothing
        },
        Reply::TimedOut => PaneRead::Outage,
    }
}

// ---------------------------------------------------------------------------
// Events

/// What an event about a pane says.
#[derive(Debug, Clone, Copy, PartialEq, Eq, Structural)]
pub enum PaneEvent {
    Closed,
    Exited,
    Status(AgentStatus),
    Other,
}

/// What an event says of a task's agent, `agent_idle` being whether the agent
/// was last seen between turns. A status event carries no sequence.
pub fn observe_event(ev: PaneEvent, agent_idle: bool) -> (r: Option<Observed>)
    ensures
        r == (match ev {
            PaneEvent::Closed => Some(Observed::PaneClosed),
            PaneEvent::Exited => Some(Observed::PaneExited { agent_idle }),
            PaneEvent::Status(status) => Some(
                Observed::Status { status, state_change_seq: None, completion_seq: None },
            ),
            PaneEvent::Other => None,
        }),
{
    match ev {
        PaneEvent::Closed => Some(Observed::PaneClosed),
        PaneEvent::Exited => Some(Observed::PaneExited { agent_idle }),
        PaneEvent::Status(status) => Some(
            Observed::Status { status, state_change_seq: None, completion_seq: None },
        ),
        PaneEvent::Other => None,
    }
}

/// Whether the event means that an orphan's pane is gone.
pub fn ends_pane(ev: PaneEvent) -> (b: bool)
    ensures
        b == (ev is Closed || ev is Exited),
{
    matches!(ev, PaneEvent::Closed | PaneEvent::Exited)
}

/// What to do about an observation that came as an event.
#[derive(Debug, Clone, Copy, PartialEq, Eq, Structural)]
pub enum EventStep {
    /// Open a fresh settle window.
    Window,
    /// Close the settle window and apply the observation; then answer trust
    /// prompts if the agent is blocked.
    Apply { then_trust: bool },
}

/// What to do about an observation that came as an event: idle opens a fresh
/// settle window, anything else closes the window and is applied at once.
pub fn handle_event(o: &Observed) -> (r: EventStep)
    ensures
        r == (match *o {
            Observed::Status { status, .. } => if status.idle() {
                EventStep::Window
            } else {
                EventStep::Apply { then_trust: status is Blocked }
            },
            _ => EventStep::Apply { then_trust: false },
        }),
{
    match o {
        Observed::Status { status, .. } => if status.is_idle() {
            EventStep::Window
        } else {
            EventStep::Apply { then_trust: matches!(status, AgentStatus::Blocked) }
        },
        _ => EventStep::Apply { then_trust: false },
    }
}

// ---------------------------------------------------------------------------
// The prompt an agent has not seen yet

/// What to do about the prompt of a task whose agent has this status.
#[derive(Debug, Clone, Copy, PartialEq, Eq, Structural)]
pub enum PromptStep {
    /// The agent cannot take it: the observation is handled as usual.
    NotNow,
    /// The agent redraws after its trust dialog: the prompt is held.
    Held,
    /// Send it.
    Send,
}

/// Whether a pending prompt is sent, held, or left: `answered` is when the
/// task's trust keys went in, if they did.
pub open spec fn prompt_is(
    status: AgentStatus,
    answered: Option<Duration>,
    now: Duration,
    settle: Duration,
) -> PromptStep {
    if status is Blocked || status is Unknown {
        PromptStep::NotNow
    } else {
        match answered {
            Some(at) => if memory::elapsed(at, now) < settle.nanos {
                PromptStep::Held
            } else {
                PromptStep::Send
            },
            None => PromptStep::Send,
        }
    }
}

/// Whether a pending prompt is sent, held, or left.
pub fn prompt_step(
    status: AgentStatus,
    answered: Option<Duration>,
    now: Duration,
    settle: Duration,
) -> (r: PromptStep)
    ensures
        r == prompt_is(status, answered, now, settle),
{
    if matches!(status, AgentStatus::Blocked | AgentStatus::Unknown) {
        return PromptStep::NotNow;
    }
    match answered {
        Some(at) => if memory::has_passed(at, now, settle) {
            PromptStep::Send
        } else {
            PromptStep::Held
        },
        None => PromptStep::Send,
    }
}

/// The agent a pending prompt goes to.
pub fn prompt_target(t: &Task) -> (r: String)
    ensures
        r@ == (match t.agent_name {
            Some(n) => n@,
            None => task::task_name(t.id as int),
        }),
{
    match &t.agent_name {
        Some(n) => n.clone(),
        None => t.display_id(),
    }
}

/// What became of sending the prompt.
#[derive(Debug)]
pub enum PromptSent {
    /// The agent took it, at this sequence and status.
    Taken { seq: u64, status: AgentStatus },
    /// Blocked again, or between states: a later status tries again.
    Later,
    /// It cannot be sent: the task fails with this message.
    Failed(String),
    /// The machine is out of reach.
    Outage,
}

/// What became of sending the prompt.
pub open spec fn prompt_sent(reply: Reply<AgentInfo>, r: PromptSent) -> bool {
    match reply {
        Reply::Answer(a) => r == (PromptSent::Taken { seq: a.state_change_seq, status: a.agent_status }),
        Reply::TimedOut => r is Outage,
        Reply::Failed(f) => if f.coded("agent_blocked"@) || f.coded("agent_not_ready"@) {
            r is Later
        } else if f.transport {
            r is Outage
        } else {
            r matches PromptSent::Failed(m) && m@ == "could not send the pending prompt: "@ + f.message@
        },
    }
}

/// What became of sending the prompt.
pub fn deliver_pending_prompt(reply: Reply<AgentInfo>) -> (r: PromptSent)
    ensures
        prompt_sent(reply, r),
{
    match reply {
        Reply::Answer(a) => PromptSent::Taken { seq: a.state_change_seq, status: a.agent_status },
        Reply::TimedOut => PromptSent::Outage,
        Reply::Failed(f) => if f.has_code("agent_blocked") || f.has_code("agent_not_ready") {
            PromptSent::Later
        } else if f.transport {
            PromptSent::Outage
        } else {
            let mut m = "could not send the pending prompt: ".to_owned();
            m.append(f.message.as_str());
            PromptSent::Failed(m)
        },
    }
}

/// The status a held prompt is delivered on, if the task still waits for it on
/// a live pane that herdr lists an agent in.
pub fn deliver_held_prompt(t: &Task, agents: &Vec<AgentInfo>) -> (r: Option<AgentStatus>)
    ensures
        r == (match t.pane_id {
            Some(pane) => if t.prompt_pending && t.state.has_pane() {
                match close::agent_in(agents@, pane@) {
                    Some(a) => Some(a.agent_status),
                    None => None,
                }
            } else {
                None
            },
            None => None,
        }),
{
    match &t.pane_id {
        Some(pane) => {
            if !t.prompt_pending || !t.state.occupies_pane() {
                return None;
            }
            let i = close::find_in_pane(agents, pane.as_str());
            if i < agents.len() {
                Some(agents[i].agent_status)
            } else {
                None
            }
        },
        None => None,
    }
}

// ---------------------------------------------------------------------------
// Trust and auto-close

/// The task is blocked on its startup prompt: `Blocked`, with its own prompt
/// still pending.
pub open spec fn at_startup_prompt(t: Task) -> bool {
    t.state is Blocked && t.prompt_pending
}

/// Whether the task is blocked on its startup prompt.
pub fn is_at_startup_prompt(t: &Task) -> (b: bool)
    ensures
        b == at_startup_prompt(*t),
{
    matches!(t.state, TaskState::Blocked) && t.prompt_pending
}

/// A done task that finished `after` ago or more is closed on its own; no other
/// task is.
pub open spec fn auto_close_due(t: Task, now: Timestamp, after: Duration) -> bool {
    let since = match t.finished_at {
        Some(at) => at,
        None => t.updated_at,
    };
    let grace = if after.nanos <= time::MAX_DELTA_NANOS {
        after.nanos as int
    } else {
        time::MAX_DELTA_NANOS as int
    };
    t.state is Done && now.nanos - since.nanos >= grace
}

/// Whether a done task has kept its pane long enough.
pub fn auto_close_done(t: &Task, now: Timestamp, after: Duration) -> (b: bool)
    requires
        now.valid(),
        t.updated_at.valid(),
        t.finished_at matches Some(at) ==> at.valid(),
    ensures
        b == auto_close_due(*t, now, after),
{
    let since = match t.finished_at {
        Some(at) => at,
        None => t.updated_at,
    };
    let grace: u128 = if after.nanos <= time::MAX_DELTA_NANOS {
        after.nanos
    } else {
        time::MAX_DELTA_NANOS
    };
    matches!(t.state, TaskState::Done) && now.nanos - since.nanos >= grace as i128
}

/// A task is closed on its own once it is done for the time of grace, counted from when
/// it finished, or from its last change where that is not known.
pub proof fn a_done_task_closes_after_its_grace(t: &Task, now: Timestamp, after: Duration, b: bool)
    requires
        call_ensures(auto_close_done, (t, now, after), b),
        after.nanos <= time::MAX_DELTA_NANOS,
    ensures
        b <==> t.state is Done && now.nanos - (if t.finished_at is Some {
            t.finished_at->0.nanos
        } else {
            t.updated_at.nanos
        }) >= after.nanos,
{
}

/// Only running and blocked tasks can have run too long: for more whole seconds than
/// their time. Otherwise an agent between turns waits for its window, and any other is
/// observed.
pub proof fn a_present_task_is_stale_waits_or_is_observed(
    t: &Task,
    status: AgentStatus,
    now: Timestamp,
    r: Seen,
)
    requires
        call_ensures(seen, (t, status, now), r),
    ensures
        r is Stale <==> (t.state is Running || t.state is Blocked) && t.started_at is Some
            && now.nanos - t.started_at->0.nanos >= (t.spec.timeout_secs + 1) * 1_000_000_000,
        r is Settle ==> status is Idle || status is Done,
        r is Observe ==> status is Working || status is Blocked || status is Unknown,
{
}

/// The status a held prompt goes in on: that of the first agent in the pane of a task
/// that still waits for its prompt there.
pub proof fn a_held_prompt_goes_to_the_agent_in_the_pane(
    t: &Task,
    agents: &Vec<AgentInfo>,
    i: int,
    r: Option<AgentStatus>,
)
    requires
        call_ensures(deliver_held_prompt, (t, agents), r),
        t.pane_id is Some,
        0 <= i < agents@.len(),
        agents@[i].pane_id@ == t.pane_id->0@,
        forall|k: int| 0 <= k < i ==> (#[trigger] agents@[k]).pane_id@ != t.pane_id->0@,
    ensures
        t.prompt_pending && (t.state is Starting || t.state is Running || t.state is Blocked
            || t.state is Done || t.state is Stale) ==> r == Some(agents@[i].agent_status),
        !t.prompt_pending || t.state is Queued || t.state is Failed || t.state is Closed ==> r is None,
{
    close::lemma_in_pane(agents@, t.pane_id->0@);
}

/// What sending a prompt comes to: taken at the agent's sequence and status; left for
/// later while the agent is blocked or not ready; out of reach without an answer or
/// below herdr; and failed, with herdr's message, for any other refusal.
pub proof fn what_sending_a_prompt_comes_to(reply: Reply<AgentInfo>, r: PromptSent)
    requires
        call_ensures(deliver_pending_prompt, (reply,), r),
    ensures
        reply matches Reply::Answer(a) ==> r == (PromptSent::Taken {
            seq: a.state_change_seq,
            status: a.agent_status,
        }),
        reply is TimedOut ==> r is Outage,
        reply matches Reply::Failed(f) ==> {
            let later = text::opt_text(f.code) == Some("agent_blocked"@) || text::opt_text(f.code)
                == Some("agent_not_ready"@);
            &&& later ==> r is Later
            &&& !later && f.transport ==> r is Outage
            &&& !later && !f.transport ==> (r matches PromptSent::Failed(m) && m@
                == "could not send the pending prompt: "@ + f.message@)
        },
{
}

/// A pane read for a question: a machine out of reach is no pane without a question.
pub proof fn an_unread_pane_is_no_answer(reply: Reply<String>, r: PaneRead)
    requires
        call_ensures(question_in_pane, (reply,), r),
    ensures
        r is Outage <==> reply is TimedOut || (reply matches Reply::Failed(f) && f.transport),
        r is Nothing <==> (reply matches Reply::Failed(f) && !f.transport),
        reply matches Reply::Answer(text) ==> r == PaneRead::Text(text),
{
}

/// What an event says, and what is done about it.
pub proof fn what_an_event_says(ev: PaneEvent, agent_idle: bool, o: Observed, gone: bool, step: EventStep)
    requires
        call_ensures(observe_event, (ev, agent_idle), Some(o)),
        call_ensures(ends_pane, (ev,), gone),
        call_ensures(handle_event, (&o,), step),
    ensures
        gone <==> ev is Closed || ev is Exited,
        ev is Closed ==> o is PaneClosed && step == (EventStep::Apply { then_trust: false }),
        ev is Exited ==> o == (Observed::PaneExited { agent_idle }) && step == (EventStep::Apply {
            then_trust: false,
        }),
        ev matches PaneEvent::Status(s) ==> (o matches Observed::Status { status, .. } && status == s)
            && if s is Idle || s is Done {
            step is Window
        } else {
            step == (EventStep::Apply { then_trust: s is Blocked })
        },
        !(ev is Other),
{
}

/// An agent that is idle at another sequence than it was seen at, or at one while none
/// was seen, may have worked in between: its window starts over. Any other status holds.
pub proof fn an_unseen_turn_starts_the_window_over(seen: Option<u64>, agent: &AgentInfo, r: Settled)
    requires
        call_ensures(confirm_pending_done, (seen, agent), r),
    ensures
        agent.agent_status is Working || agent.agent_status is Blocked || agent.agent_status is Unknown
            ==> r is Holds,
        (agent.agent_status is Idle || agent.agent_status is Done) ==> (r is Holds <==> seen == Some(
            agent.state_change_seq,
        )),
        r matches Settled::Again(n) ==> n == agent.state_change_seq,
{
}

/// A pending prompt is sent unless the agent is blocked or unknown, or its trust dialog was
/// answered so short a time ago that it still redraws.
pub proof fn when_a_pending_prompt_is_sent(
    status: AgentStatus,
    answered: Option<Duration>,
    now: Duration,
    settle: Duration,
    r: PromptStep,
)
    requires
        call_ensures(prompt_step, (status, answered, now, settle), r),
    ensures
        r is NotNow <==> status is Blocked || status is Unknown,
        r is Held ==> (answered matches Some(at) && now.nanos - at.nanos < settle.nanos),
        r is Send ==> (answered matches Some(at) ==> now.nanos < at.nanos && settle.nanos == 0
            || now.nanos - at.nanos >= settle.nanos),
        (answered matches Some(at) && now.nanos - at.nanos < settle.nanos && settle.nanos > 0
            && status !is Blocked && status !is Unknown) ==> r is Held,
{
}

/// A task is overdue from the first whole second past its limit, counted from its start;
/// one that never started is not.
pub proof fn a_task_is_overdue_past_its_limit(t: &Task, now: Timestamp, b: bool)
    requires
        call_ensures(is_overdue, (t, now), b),
    ensures
        t.started_at is None ==> !b,
        t.started_at matches Some(s) ==> {
            &&& now.nanos - s.nanos >= (t.spec.timeout_secs + 1) * 1_000_000_000 ==> b
            &&& 0 <= now.nanos - s.nanos < (t.spec.timeout_secs + 1) * 1_000_000_000 ==> !b
        },
{
}

/// What the list holds for a task: with a recorded pane, the agent in that pane; without
/// one, the agent of the task's name.
pub proof fn a_task_is_looked_for_by_its_pane(t: &Task, agents: &Vec<AgentInfo>, r: Look)
    requires
        call_ensures(look, (t, agents), r),
        agents@.len() <= usize::MAX,
    ensures
        t.pane_id is None <==> r is Adopt || r is Interrupted,
        r matches Look::Present(i) ==> t.pane_id is Some && agents@[i as int].pane_id@ == t.pane_id->0@,
        r is Gone ==> forall|i: int|
            0 <= i < agents@.len() ==> (#[trigger] agents@[i]).pane_id@ != t.pane_id->0@,
        r matches Look::Adopt(i) ==> text::opt_text(agents@[i as int].name) == Some(
            task::task_name(t.id as int),
        ),
        r is Interrupted ==> forall|i: int|
            0 <= i < agents@.len() ==> text::opt_text((#[trigger] agents@[i]).name) != Some(
                task::task_name(t.id as int),
            ),
{
    close::lemma_of_name(agents@, task::task_name(t.id as int));
    if t.pane_id is Some {
        close::lemma_in_pane(agents@, t.pane_id->0@);
    }
}

} // verus!
