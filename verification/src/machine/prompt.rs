//! Delivering a prompt that the agent has not seen yet: the request, and the row that
//! takes the outcome.

use vstd::prelude::*;
use vstd::string::*;

use crate::machine::calls::Cause;
use crate::machine::calls::Reply;
use crate::machine::life::Problem;
use crate::machine::memory::Memory;
use crate::machine::observe;
use crate::machine::observe::PromptSent;
use crate::machine::reconcile;
use crate::machine::rows;
use crate::machine::rows::WriteAsk;
use crate::machine::rows::WriteEnd;
use crate::machine::rows::WriteEvent;
use crate::machine::rows::WriteNext;
use crate::machine::rows::WriteTry;
use crate::machine::settle;
use crate::task;
use crate::task::AgentInfo;
use crate::task::AgentStatus;
use crate::task::Task;
use crate::task::TaskState;
use crate::time::Timestamp;

verus! {

/// What sending a prompt does to the row that waited for it.
#[derive(Debug)]
pub enum PromptChange {
    /// The agent took it, at this sequence and status.
    Taken { seq: u64, status: AgentStatus },
    /// It cannot be sent.
    Failed { message: String, at: Timestamp },
}

impl PromptChange {
    /// The row as the outcome leaves it. Only a row still waiting for this prompt, on a
    /// live pane, takes it.
    pub open spec fn on(&self, t: Task) -> Option<Task> {
        if !rows::still_pending(t) {
            None
        } else {
            match *self {
                PromptChange::Taken { seq, status } => Some(
                    Task {
                        prompt_pending: false,
                        state: TaskState::Running,
                        error: None,
                        finished_at: None,
                        last_completion_seq: Some(seq),
                        activity_seen: status.active(),
                        ..t
                    },
                ),
                PromptChange::Failed { message, at } => Some(
                    Task {
                        state: TaskState::Failed,
                        error: Some(message),
                        finished_at: Some(at),
                        activity_seen: false,
                        ..t
                    },
                ),
            }
        }
    }

    /// The row as the outcome leaves it.
    pub fn applied(&self, t: Task) -> (r: Option<Task>)
        ensures
            r == self.on(t),
    {
        match self {
            PromptChange::Taken { seq, status } => rows::prompt_taken(t, *seq, *status),
            PromptChange::Failed { message, at } => rows::prompt_failed(t, message, *at),
        }
    }

    /// The status the agent took the prompt at.
    pub open spec fn took(self) -> Option<AgentStatus> {
        match self {
            PromptChange::Taken { status, .. } => Some(status),
            PromptChange::Failed { .. } => None,
        }
    }

    fn taken_at(&self) -> (r: Option<AgentStatus>)
        ensures
            r == self.took(),
    {
        match self {
            PromptChange::Taken { status, .. } => Some(*status),
            PromptChange::Failed { .. } => None,
        }
    }

    /// The first try at writing the row.
    pub open spec fn first_write(self, row: Task) -> WriteNext {
        match self.on(row) {
            Some(t) => WriteNext::Ask(WriteTry::First, WriteAsk::Update(t)),
            None => WriteNext::End(WriteEnd::Nothing),
        }
    }

    /// What comes after the store answered.
    pub open spec fn next_write(self, id: i64, attempt: WriteTry, ev: WriteEvent) -> WriteNext {
        match ev {
            WriteEvent::Updated(row) => WriteNext::End(WriteEnd::Written(row)),
            WriteEvent::Failed(e) => WriteNext::End(WriteEnd::Failed(e)),
            WriteEvent::Conflict => if attempt is First {
                WriteNext::Ask(WriteTry::Reading, WriteAsk::Reread(id))
            } else {
                WriteNext::End(WriteEnd::Conflict)
            },
            WriteEvent::Row(None) => WriteNext::End(WriteEnd::Nothing),
            WriteEvent::Row(Some(fresh)) => match self.on(fresh) {
                Some(t) => WriteNext::Ask(WriteTry::Second, WriteAsk::Update(t)),
                None => WriteNext::End(WriteEnd::Nothing),
            },
        }
    }
}

/// What the delivery needs done.
#[derive(Debug)]
pub enum DeliverAsk {
    /// Hand the prompt to the agent.
    Prompt { agent: String, prompt: String },
    Store(WriteAsk),
}

/// What came of it.
#[derive(Debug)]
pub enum DeliverEvent {
    Replied(Reply<AgentInfo>),
    Stored(WriteEvent),
}

/// Where a delivery stands.
#[derive(Debug)]
pub enum DeliverStage {
    Prompt(Task),
    Write { id: i64, change: PromptChange, attempt: WriteTry },
}

/// A prompt on its way.
#[derive(Debug)]
pub struct Delivery {
    pub stage: DeliverStage,
}

/// What comes next.
#[derive(Debug)]
pub enum DeliverNext {
    Ask(Delivery, DeliverAsk),
    /// `event` is the kind of event the task has. `refresh`: the live agents are to be
    /// counted again.
    End { end: Result<(), Problem>, event: Option<String>, refresh: bool },
}

/// It ends there, with nothing to tell.
pub open spec fn quietly(r: DeliverNext) -> bool {
    r matches DeliverNext::End { end, event, refresh } && end is Ok && event is None && !refresh
}

/// It ends there, for this reason.
pub open spec fn for_reason(r: DeliverNext, cause: Cause, message: Seq<char>) -> bool {
    r matches DeliverNext::End { end: Err(p), event, refresh } && p.chain@ == seq![cause]
        && p.message@ == message && event is None && !refresh
}

/// The row was written, or left as it was because it moved on: what is remembered, and
/// the event.
pub open spec fn recorded(
    id: i64,
    change: PromptChange,
    written: Option<Task>,
    before: Memory,
    after: Memory,
    r: DeliverNext,
) -> bool {
    &&& after.pending_done@ == before.pending_done@.remove(id)
    &&& after.idle_agents@ == match (change.took(), written) {
        (Some(status), Some(_)) => reconcile::idle_after(before.idle_agents@, id, status),
        _ => before.idle_agents@,
    }
    &&& after.trust_answered == before.trust_answered
    &&& after.orphans == before.orphans
    &&& r matches DeliverNext::End { end, event, refresh } && {
        &&& end is Ok
        &&& refresh
        &&& match written {
            Some(t) => event matches Some(e) && e@ == "task."@ + t.state.text(),
            None => event is None,
        }
    }
}

/// What follows a step of writing the row.
pub open spec fn writes(
    id: i64,
    change: PromptChange,
    next: WriteNext,
    before: Memory,
    after: Memory,
    r: DeliverNext,
) -> bool {
    match next {
        WriteNext::Ask(attempt, ask) => r == DeliverNext::Ask(
            Delivery { stage: DeliverStage::Write { id, change, attempt } },
            DeliverAsk::Store(ask),
        ) && after == before,
        WriteNext::End(WriteEnd::Written(t)) => recorded(id, change, Some(t), before, after, r),
        WriteNext::End(WriteEnd::Nothing) => recorded(id, change, None, before, after, r),
        WriteNext::End(WriteEnd::Conflict) => after == before && for_reason(
            r,
            Cause::Other,
            changed_text(id as int),
        ),
        WriteNext::End(WriteEnd::Failed(e)) => after == before && for_reason(r, Cause::Other, e@),
    }
}

/// What is said of a row that others keep writing.
pub open spec fn changed_text(id: int) -> Seq<char> {
    task::task_name(id) + " was changed by someone else"@
}

fn stopped(cause: Cause, message: String) -> (r: DeliverNext)
    ensures
        for_reason(r, cause, message@),
{
    let mut chain: Vec<Cause> = Vec::new();
    chain.push(cause);
    let p = Problem { chain, message };
    assert(p.chain@ =~= seq![cause]);
    DeliverNext::End { end: Err(p), event: None, refresh: false }
}

fn written(id: i64, change: PromptChange, next: WriteNext, memory: &mut Memory) -> (r: DeliverNext)
    ensures
        writes(id, change, next, *old(memory), *final(memory), r),
{
    match next {
        WriteNext::Ask(attempt, ask) => DeliverNext::Ask(
            Delivery { stage: DeliverStage::Write { id, change, attempt } },
            DeliverAsk::Store(ask),
        ),
        WriteNext::End(WriteEnd::Written(t)) => {
            let row = Some(t);
            let event = settle::prompt_written(memory, id, change.taken_at(), &row);
            DeliverNext::End { end: Ok(()), event, refresh: true }
        },
        WriteNext::End(WriteEnd::Nothing) => {
            let event = settle::prompt_written(memory, id, change.taken_at(), &None);
            DeliverNext::End { end: Ok(()), event, refresh: true }
        },
        WriteNext::End(WriteEnd::Conflict) => {
            let mut said = Task::agent_name_for(id);
            said.append(" was changed by someone else");
            stopped(Cause::Other, said)
        },
        WriteNext::End(WriteEnd::Failed(e)) => stopped(Cause::Other, e),
    }
}

fn write_first(row: Task, change: PromptChange, memory: &mut Memory) -> (r: DeliverNext)
    ensures
        writes(row.id, change, change.first_write(row), *old(memory), *final(memory), r),
{
    let id = row.id;
    let next = {
        let apply = |t: Task| -> (o: Option<Task>)
            ensures
                o == change.on(t),
            { change.applied(t) };
        rows::write_task(row, &apply)
    };
    assert(next == change.first_write(row));
    written(id, change, next, memory)
}

impl Delivery {
    /// The answer is one to what was asked.
    pub open spec fn awaits(self, ev: DeliverEvent) -> bool {
        match self.stage {
            DeliverStage::Prompt(_) => ev is Replied,
            DeliverStage::Write { attempt, .. } => ev matches DeliverEvent::Stored(e)
                && rows::write_awaits(attempt, e),
        }
    }

    /// Begin: an agent that is blocked or unknown cannot take a prompt, and any other is
    /// handed it.
    pub fn start(row: Task, status: AgentStatus) -> (r: DeliverNext)
        ensures
            if status is Blocked || status is Unknown {
                quietly(r)
            } else {
                r matches DeliverNext::Ask(d, DeliverAsk::Prompt { agent, prompt }) && {
                    &&& d.stage == DeliverStage::Prompt(row)
                    &&& agent@ == (match row.agent_name {
                        Some(n) => n@,
                        None => task::task_name(row.id as int),
                    })
                    &&& prompt@ == row.prompt@
                }
            },
    {
        if matches!(status, AgentStatus::Blocked | AgentStatus::Unknown) {
            return DeliverNext::End { end: Ok(()), event: None, refresh: false };
        }
        let agent = observe::prompt_target(&row);
        let prompt = row.prompt.clone();
        DeliverNext::Ask(
            Delivery { stage: DeliverStage::Prompt(row) },
            DeliverAsk::Prompt { agent, prompt },
        )
    }

    /// What follows the agent's answer.
    pub open spec fn replied(
        row: Task,
        reply: Reply<AgentInfo>,
        limit: Seq<char>,
        now: Timestamp,
        before: Memory,
        after: Memory,
        r: DeliverNext,
    ) -> bool {
        match reply {
            Reply::Answer(a) => {
                let change = PromptChange::Taken {
                    seq: a.state_change_seq,
                    status: a.agent_status,
                };
                writes(row.id, change, change.first_write(row), before, after, r)
            },
            Reply::TimedOut => after == before && for_reason(
                r,
                Cause::TimedOut,
                "agent.prompt timed out after "@ + limit,
            ),
            Reply::Failed(f) => if f.coded("agent_blocked"@) || f.coded("agent_not_ready"@) {
                after == before && quietly(r)
            } else if f.transport {
                after == before && for_reason(r, Cause::Call { transport: true }, f.message@)
            } else {
                exists|message: String|
                    {
                        let change = PromptChange::Failed { message, at: now };
                        &&& #[trigger] message@ == "could not send the pending prompt: "@ + f.message@
                        &&& writes(row.id, change, change.first_write(row), before, after, r)
                    }
            },
        }
    }

    /// Take an answer and say what comes next. `limit` is the time a request may take.
    pub fn step(self, ev: DeliverEvent, limit: &str, now: Timestamp, memory: &mut Memory) -> (r:
        DeliverNext)
        requires
            self.awaits(ev),
        ensures
            match (self.stage, ev) {
                (DeliverStage::Prompt(row), DeliverEvent::Replied(reply)) => Delivery::replied(
                    row,
                    reply,
                    limit@,
                    now,
                    *old(memory),
                    *final(memory),
                    r,
                ),
                (DeliverStage::Write { id, change, attempt }, DeliverEvent::Stored(e)) => writes(
                    id,
                    change,
                    change.next_write(id, attempt, e),
                    *old(memory),
                    *final(memory),
                    r,
                ),
                _ => true,
            },
    {
        match self.stage {
            DeliverStage::Prompt(row) => {
                let reply = match ev {
                    DeliverEvent::Replied(reply) => reply,
                    DeliverEvent::Stored(_) => vstd::pervasive::unreached(),
                };
                let lost = match &reply {
                    Reply::Failed(f) => f.message.clone(),
                    _ => {
                        let mut said = "agent.prompt timed out after ".to_owned();
                        said.append(limit);
                        said
                    },
                };
                let timed_out = matches!(reply, Reply::TimedOut);
                match observe::deliver_pending_prompt(reply) {
                    PromptSent::Taken { seq, status } => {
                        write_first(row, PromptChange::Taken { seq, status }, memory)
                    },
                    PromptSent::Later => {
                        DeliverNext::End { end: Ok(()), event: None, refresh: false }
                    },
                    PromptSent::Outage => {
                        if timed_out {
                            stopped(Cause::TimedOut, lost)
                        } else {
                            stopped(Cause::Call { transport: true }, lost)
                        }
                    },
                    PromptSent::Failed(message) => {
                        write_first(row, PromptChange::Failed { message, at: now }, memory)
                    },
                }
            },
            DeliverStage::Write { id, change, attempt } => {
                let e = match ev {
                    DeliverEvent::Stored(e) => e,
                    DeliverEvent::Replied(_) => vstd::pervasive::unreached(),
                };
                let next = {
                    let apply = |t: Task| -> (o: Option<Task>)
                        ensures
                            o == change.on(t),
                        { change.applied(t) };
                    rows::write_step(id, attempt, e, &apply)
                };
                assert(next == change.next_write(id, attempt, e));
                written(id, change, next, memory)
            },
        }
    }
}

/// A prompt is handed over once: a row that took it waits for it no longer, so neither
/// outcome changes it again.
pub proof fn a_prompt_taken_is_not_taken_again(first: PromptChange, second: PromptChange, t: Task)
    requires
        first.on(t) is Some,
    ensures
        first is Taken ==> second.on(first.on(t)->0) is None,
        first.on(t)->0.prompt == t.prompt,
        first.on(t)->0.id == t.id,
{
}

/// A row that was closed or failed while its prompt was on the way is left as it is,
/// whichever of its copies is looked at.
pub proof fn a_row_that_moved_on_is_left(
    change: PromptChange,
    id: i64,
    attempt: WriteTry,
    fresh: Task,
)
    requires
        !fresh.prompt_pending || !fresh.state.has_pane(),
    ensures
        change.first_write(fresh) == WriteNext::End(WriteEnd::Nothing),
        change.next_write(id, attempt, WriteEvent::Row(Some(fresh))) == WriteNext::End(
            WriteEnd::Nothing,
        ),
{
}

/// A prompt is handed to the task's own agent, word for word, unless that agent is
/// blocked or unknown.
pub proof fn the_prompt_goes_to_the_tasks_agent(row: Task, status: AgentStatus, r: DeliverNext)
    requires
        call_ensures(Delivery::start, (row, status), r),
    ensures
        status is Blocked || status is Unknown ==> (r matches DeliverNext::End {
            end,
            event,
            refresh,
        } && end is Ok && event is None && !refresh),
        status is Idle || status is Working || status is Done ==> (r matches DeliverNext::Ask(
            _,
            DeliverAsk::Prompt { agent, prompt },
        ) && prompt@ == row.prompt@ && agent@ == (if row.agent_name is Some {
            row.agent_name->0@
        } else {
            "t-"@ + crate::digits::signed_decimal(row.id as int)
        })),
{
}

/// An agent that took its prompt sets the task running, counting from the sequence it
/// took it at; a prompt that cannot be sent fails it with the reason. Only a row that
/// still waits for the prompt in a pane is changed.
pub proof fn what_became_of_a_prompt_is_written(change: PromptChange, t: Task, r: Option<Task>)
    requires
        call_ensures(PromptChange::applied, (&change, t), r),
    ensures
        r is Some <==> t.prompt_pending && (t.state is Starting || t.state is Running
            || t.state is Blocked || t.state is Done || t.state is Stale),
        r is Some && change is Taken ==> r->0.state is Running && !r->0.prompt_pending
            && r->0.error is None && r->0.finished_at is None && r->0.last_completion_seq == Some(
            change->seq,
        ) && r->0.activity_seen == (change->status is Working || change->status is Blocked),
        r is Some && change is Failed ==> r->0.state is Failed && r->0.prompt_pending
            && r->0.error == Some(change->message) && r->0.finished_at == Some(change->at),
        r is Some ==> r->0.id == t.id && r->0.pane_id == t.pane_id && r->0.prompt == t.prompt
            && r->0.spec == t.spec,
{
}

/// What the agent's answer to its prompt leads to: a row that waits is written; an agent
/// that is blocked or not ready changes nothing; and a machine out of reach breaks off.
pub proof fn what_follows_the_answer_to_a_prompt(
    row: Task,
    reply: Reply<AgentInfo>,
    limit: Seq<char>,
    now: Timestamp,
    before: Memory,
    after: Memory,
    r: DeliverNext,
)
    requires
        Delivery::replied(row, reply, limit, now, before, after, r),
        row.prompt_pending,
        row.state is Starting || row.state is Running || row.state is Blocked || row.state is Done
            || row.state is Stale,
    ensures
        reply matches Reply::Answer(a) ==> (r matches DeliverNext::Ask(
            _,
            DeliverAsk::Store(WriteAsk::Update(t)),
        ) && t.state is Running && !t.prompt_pending && t.id == row.id && t.last_completion_seq
            == Some(a.state_change_seq) && t.error is None),
        reply is TimedOut ==> (r matches DeliverNext::End { end: Err(p), .. } && p.chain@
            == seq![Cause::TimedOut]),
        reply matches Reply::Failed(f) ==> {
            let later = f.code is Some && (f.code->0@ == "agent_blocked"@ || f.code->0@
                == "agent_not_ready"@);
            &&& later ==> (r matches DeliverNext::End { end, event, .. } && end is Ok && event is None)
            &&& !later && f.transport ==> (r matches DeliverNext::End { end: Err(p), .. } && p.chain@
                == seq![Cause::Call { transport: true }])
            &&& !later && !f.transport ==> (r matches DeliverNext::Ask(
                _,
                DeliverAsk::Store(WriteAsk::Update(t)),
            ) && t.state is Failed && t.id == row.id && t.finished_at == Some(now) && (
            t.error matches Some(e) && e@ == "could not send the pending prompt: "@ + f.message@))
        },
        after == before,
{
}

/// A written outcome closes the task's settle window, is announced by the row's state, and
/// has the live agents counted again; a row that moved on has no event.
pub proof fn a_written_prompt_is_announced(
    id: i64,
    change: PromptChange,
    attempt: WriteTry,
    t: Task,
    before: Memory,
    after: Memory,
    r: DeliverNext,
)
    requires
        writes(id, change, change.next_write(id, attempt, WriteEvent::Updated(t)), before, after, r),
    ensures
        r matches DeliverNext::End { end, event: Some(e), refresh } && end is Ok && refresh && (
        t.state is Running ==> e@ == "task."@ + "running"@) && (t.state is Failed ==> e@ == "task."@
            + "failed"@),
        !after.pending_done@.dom().contains(id),
        change is Taken && (change->status is Idle || change->status is Done)
            ==> after.idle_agents@.contains(id),
        change is Taken && (change->status is Working || change->status is Blocked)
            ==> !after.idle_agents@.contains(id),
{
}

} // verus!
