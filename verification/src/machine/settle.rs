//! The settle check as a whole, and the delivery of prompts that were held after a
//! trust answer: both go through the tasks whose time has come.

use vstd::prelude::*;

use crate::machine::life::Problem;
use crate::machine::memory;
use crate::machine::memory::Memory;
use crate::machine::memory::Pending;
use crate::machine::observe;
use crate::machine::reconcile;
use crate::machine::reconcile::Now;
use crate::machine::reconcile::SettleToDo;
use crate::task::AgentInfo;
use crate::task::AgentStatus;
use crate::task::Observed;
use crate::task::Task;
use crate::task::TaskState;

verus! {

broadcast use {vstd::std_specs::hash::group_hash_axioms, vstd::set::group_set_axioms};

// ---------------------------------------------------------------------------
// The settle check

/// What the settle check asks for.
#[derive(Debug)]
pub enum SettleAsk {
    /// `agent.list`.
    Agents,
    /// The row of the task, as it is now.
    Row(i64),
    /// The question that the pane of the row's agent ends with, if any.
    Question(Task),
    /// Block the row on the question.
    Block { row: Task, observed: Observed, question: String },
    /// Apply the observation to the row.
    Apply { row: Task, observed: Observed },
}

/// What came of what was asked.
#[derive(Debug)]
pub enum SettleEvent {
    Agents(Result<Vec<AgentInfo>, Problem>),
    /// The row, if it is there and could be read.
    Row(Option<Task>),
    /// The question, or why the machine could not be asked.
    Question(Result<Option<String>, Problem>),
    Worked,
}

/// What the settle check waits for.
#[derive(Debug)]
pub enum SettleStage {
    Agents,
    Row(i64),
    Question { row: Task, observed: Observed, seen: Option<u64> },
    Write,
}

/// A settle check under way.
#[derive(Debug)]
pub struct Settle {
    /// The tasks still to be checked.
    pub due: Vec<i64>,
    pub agents: Vec<AgentInfo>,
    pub stage: SettleStage,
}

/// What comes next.
#[derive(Debug)]
pub enum SettleNext {
    Ask(Settle, SettleAsk),
    /// The check ends, or broke off.
    End(Result<(), Problem>),
}

/// The tasks whose settle window has passed, each once.
pub open spec fn windows_passed(m: Memory, now: Now, ids: Seq<i64>) -> bool {
    &&& ids.no_duplicates()
    &&& forall|id: i64| #[trigger]
        ids.contains(id) <==> m.pending_done@.dom().contains(id) && memory::elapsed(
            m.pending_done@[id].at,
            now.tick,
        ) >= now.settle.nanos
}

/// A window opens at `seq`.
pub open spec fn window_opens(before: Memory, after: Memory, id: i64, seq: Option<u64>, now: Now) -> bool {
    &&& after.pending_done@ == before.pending_done@.insert(id, (Pending { seq, at: now.tick }))
    &&& after.trust_answered == before.trust_answered
    &&& after.idle_agents == before.idle_agents
    &&& after.orphans == before.orphans
}

impl Settle {
    /// The next task is looked up; with none left the check ends.
    pub open spec fn goes_on(self, r: SettleNext) -> bool {
        if self.due@.len() == 0 {
            r == SettleNext::End(Ok(()))
        } else {
            r matches SettleNext::Ask(then, ask) && {
                &&& then.due@ == self.due@.skip(1)
                &&& then.agents == self.agents
                &&& then.stage == SettleStage::Row(self.due@[0])
                &&& ask == SettleAsk::Row(self.due@[0])
            }
        }
    }

    /// The row is written as the observation says.
    pub open spec fn applies(self, row: Task, observed: Observed) -> SettleNext {
        SettleNext::Ask(
            Settle { stage: SettleStage::Write, ..self },
            SettleAsk::Apply { row, observed },
        )
    }

    /// Whether the event answers what the check waits for.
    pub open spec fn awaits(self, ev: SettleEvent) -> bool {
        match self.stage {
            SettleStage::Agents => ev is Agents,
            SettleStage::Row(id) => ev matches SettleEvent::Row(row) && (row matches Some(t)
                ==> t.id == id),
            SettleStage::Question { .. } => ev is Question,
            SettleStage::Write => ev is Worked,
        }
    }

    /// What follows an event, and what is remembered afterwards. A task that would be
    /// done is first looked at for a question.
    pub open spec fn after<N: Fn(&Task, &Observed) -> Option<TaskState>>(
        self,
        ev: SettleEvent,
        before: Memory,
        after: Memory,
        now: Now,
        next: &N,
        r: SettleNext,
    ) -> bool {
        match (self.stage, ev) {
            (SettleStage::Agents, SettleEvent::Agents(Ok(agents))) => reconcile::unchanged(
                before,
                after,
            ) && (Settle { agents, ..self }).goes_on(r),
            (SettleStage::Agents, SettleEvent::Agents(Err(p))) => reconcile::unchanged(
                before,
                after,
            ) && r == SettleNext::End(Err(p)),
            (SettleStage::Row(id), SettleEvent::Row(row)) => exists|todo: SettleToDo| #[trigger]
                reconcile::settled(id, row, self.agents@, before, after, now, todo) && match todo {
                    SettleToDo::Nothing => self.goes_on(r),
                    SettleToDo::Check { row, observed, seen } => exists|to: Option<TaskState>|
                        #![trigger call_ensures(*next, (&row, &observed), to)]
                        call_ensures(*next, (&row, &observed), to) && r == if to == Some(
                            TaskState::Done,
                        ) && row.agent_name is Some {
                            SettleNext::Ask(
                                Settle {
                                    stage: SettleStage::Question { row, observed, seen },
                                    ..self
                                },
                                SettleAsk::Question(row),
                            )
                        } else {
                            self.applies(row, observed)
                        },
                },
            (SettleStage::Question { row, observed, seen }, SettleEvent::Question(asked)) => match asked {
                // Not done yet: the machine is out of reach, and the task waits on.
                Err(p) => window_opens(before, after, row.id, seen, now) && r == SettleNext::End(
                    Err(p),
                ),
                Ok(Some(question)) => reconcile::unchanged(before, after) && r == SettleNext::Ask(
                    Settle { stage: SettleStage::Write, ..self },
                    SettleAsk::Block { row, observed, question },
                ),
                Ok(None) => reconcile::unchanged(before, after) && r == self.applies(row, observed),
            },
            (SettleStage::Write, _) => reconcile::unchanged(before, after) && self.goes_on(r),
            _ => false,
        }
    }

    /// The settle check begins with the tasks whose window has passed; without any,
    /// herdr is not asked.
    pub fn start(memory: &Memory, now: Now) -> (r: SettleNext)
        ensures
            match r {
                SettleNext::Ask(then, ask) => {
                    &&& then.due@.len() > 0
                    &&& windows_passed(*memory, now, then.due@)
                    &&& then.stage is Agents
                    &&& ask is Agents
                },
                SettleNext::End(end) => end is Ok && windows_passed(*memory, now, seq![]),
            },
    {
        let due = memory.due_done(now.tick, now.settle);
        if due.len() == 0 {
            assert(due@ =~= seq![]);
            return SettleNext::End(Ok(()));
        }
        SettleNext::Ask(
            Settle { due, agents: Vec::new(), stage: SettleStage::Agents },
            SettleAsk::Agents,
        )
    }

    fn go_on(self) -> (r: SettleNext)
        ensures
            self.goes_on(r),
    {
        let Settle { due, agents, stage: _ } = self;
        let mut due = due;
        if due.len() == 0 {
            return SettleNext::End(Ok(()));
        }
        let ghost all = due@;
        let id = due.remove(0);
        assert(due@ =~= all.skip(1));
        SettleNext::Ask(Settle { due, agents, stage: SettleStage::Row(id) }, SettleAsk::Row(id))
    }

    fn apply(self, row: Task, observed: Observed) -> (r: SettleNext)
        ensures
            r == self.applies(row, observed),
    {
        SettleNext::Ask(
            Settle { stage: SettleStage::Write, ..self },
            SettleAsk::Apply { row, observed },
        )
    }

    /// Take what came of what was asked, and say what comes next.
    pub fn step<N: Fn(&Task, &Observed) -> Option<TaskState>>(
        self,
        ev: SettleEvent,
        memory: &mut Memory,
        now: Now,
        next: &N,
    ) -> (r: SettleNext)
        requires
            forall|t: &Task, o: &Observed| call_requires(*next, (t, o)),
            self.awaits(ev),
        ensures
            self.after(ev, *old(memory), *final(memory), now, next, r),
    {
        let Settle { due, agents, stage } = self;
        match (stage, ev) {
            (SettleStage::Agents, SettleEvent::Agents(Ok(agents))) => (Settle {
                due,
                agents,
                stage: SettleStage::Agents,
            }).go_on(),
            (SettleStage::Agents, SettleEvent::Agents(Err(p))) => SettleNext::End(Err(p)),
            (SettleStage::Row(id), SettleEvent::Row(row)) => {
                let todo = reconcile::settle_task(id, row, &agents, memory, now);
                assert(reconcile::settled(id, row, self.agents@, *old(memory), *memory, now, todo));
                let rest = Settle { due, agents, stage: SettleStage::Write };
                match todo {
                    SettleToDo::Nothing => rest.go_on(),
                    SettleToDo::Check { row, observed, seen } => {
                        let to = next(&row, &observed);
                        assert(call_ensures(*next, (&row, &observed), to));
                        let done = match to {
                            Some(TaskState::Done) => true,
                            _ => false,
                        };
                        if done && row.agent_name.is_some() {
                            let asked = row.clone();
                            SettleNext::Ask(
                                Settle {
                                    stage: SettleStage::Question { row, observed, seen },
                                    ..rest
                                },
                                SettleAsk::Question(asked),
                            )
                        } else {
                            rest.apply(row, observed)
                        }
                    },
                }
            },
            (SettleStage::Question { row, observed, seen }, SettleEvent::Question(asked)) => {
                let rest = Settle { due, agents, stage: SettleStage::Write };
                match asked {
                    Err(p) => {
                        memory.window_at(row.id, seen, now.tick);
                        SettleNext::End(Err(p))
                    },
                    Ok(Some(question)) => SettleNext::Ask(
                        rest,
                        SettleAsk::Block { row, observed, question },
                    ),
                    Ok(None) => rest.apply(row, observed),
                }
            },
            (SettleStage::Write, SettleEvent::Worked) => (Settle {
                due,
                agents,
                stage: SettleStage::Write,
            }).go_on(),
            _ => vstd::pervasive::unreached(),
        }
    }
}

/// An agent that waits on a question is never taken for done: where its pane ends
/// with one, the row is blocked on it.
pub proof fn a_question_is_not_done<N: Fn(&Task, &Observed) -> Option<TaskState>>(
    settle: Settle,
    question: String,
    before: Memory,
    after: Memory,
    now: Now,
    next: &N,
    r: SettleNext,
)
    requires
        settle.stage is Question,
        settle.after(SettleEvent::Question(Ok(Some(question))), before, after, now, next, r),
    ensures
        r matches SettleNext::Ask(_, SettleAsk::Block { question: q, .. }) && q == question,
{
}

/// A machine that goes out of reach during the check loses no task: the one being
/// looked at waits for another window at the sequence it had.
pub proof fn an_outage_keeps_the_task_waiting<N: Fn(&Task, &Observed) -> Option<TaskState>>(
    settle: Settle,
    p: Problem,
    before: Memory,
    after: Memory,
    now: Now,
    next: &N,
    r: SettleNext,
)
    requires
        settle.stage is Question,
        settle.after(SettleEvent::Question(Err(p)), before, after, now, next, r),
    ensures
        r == SettleNext::End(Err(p)),
        settle.stage matches SettleStage::Question { row, seen, .. } && reconcile::window_of(
            after,
            row.id,
        ) == Some(Pending { seq: seen, at: now.tick }),
{
}

// ---------------------------------------------------------------------------
// Held prompts

/// What the delivery of held prompts asks for.
#[derive(Debug)]
pub enum HeldAsk {
    /// `agent.list`.
    Agents,
    /// The row of the task, as it is now.
    Row(i64),
    /// Send the row's pending prompt.
    Deliver { row: Task, status: AgentStatus },
}

/// What came of what was asked.
#[derive(Debug)]
pub enum HeldEvent {
    Agents(Result<Vec<AgentInfo>, Problem>),
    /// The row, if it is there and could be read.
    Row(Option<Task>),
    Worked,
    Failed(Problem),
}

/// What the delivery waits for.
#[derive(Debug, Clone, Copy, PartialEq, Eq, Structural)]
pub enum HeldStage {
    Agents,
    Row,
    Prompt,
}

/// A delivery of held prompts under way.
#[derive(Debug)]
pub struct Held {
    /// The tasks whose prompts are still to be sent.
    pub due: Vec<i64>,
    pub agents: Vec<AgentInfo>,
    pub stage: HeldStage,
}

/// What comes next.
#[derive(Debug)]
pub enum HeldNext {
    Ask(Held, HeldAsk),
    /// The delivery ends, or broke off.
    End(Result<(), Problem>),
}

/// The tasks whose prompt has been held long enough, each once.
pub open spec fn holds_passed(m: Memory, now: Now, ids: Seq<i64>) -> bool {
    &&& ids.no_duplicates()
    &&& forall|id: i64| #[trigger]
        ids.contains(id) <==> m.trust_answered@.dom().contains(id) && memory::elapsed(
            m.trust_answered@[id],
            now.tick,
        ) >= now.settle.nanos
}

/// The status on which a held prompt goes in, if it does: the task waits for it on a
/// live pane, and its agent can take it.
pub open spec fn held_status(row: Option<Task>, agents: Seq<AgentInfo>) -> Option<AgentStatus> {
    match row {
        Some(t) => match t.pane_id {
            Some(pane) => match crate::machine::close::agent_in(agents, pane@) {
                Some(a) => if t.prompt_pending && t.state.has_pane() && !(a.agent_status is Blocked)
                    && !(a.agent_status is Unknown) {
                    Some(a.agent_status)
                } else {
                    None
                },
                None => None,
            },
            None => None,
        },
        None => None,
    }
}

impl Held {
    /// The hold on the next prompt ends and its task is looked up; with none left the
    /// delivery ends.
    pub open spec fn goes_on(self, before: Memory, after: Memory, r: HeldNext) -> bool {
        if self.due@.len() == 0 {
            reconcile::unchanged(before, after) && r == HeldNext::End(Ok(()))
        } else {
            &&& after.trust_answered@ == before.trust_answered@.remove(self.due@[0])
            &&& after.pending_done@ == before.pending_done@
            &&& after.idle_agents@ == before.idle_agents@
            &&& after.orphans == before.orphans
            &&& r matches HeldNext::Ask(then, ask) && {
                &&& then.due@ == self.due@.skip(1)
                &&& then.agents == self.agents
                &&& then.stage is Row
                &&& ask == HeldAsk::Row(self.due@[0])
            }
        }
    }

    /// Whether the event answers what the delivery waits for.
    pub open spec fn awaits(self, ev: HeldEvent) -> bool {
        match self.stage {
            HeldStage::Agents => ev is Agents,
            HeldStage::Row => ev is Row,
            HeldStage::Prompt => ev is Worked || ev is Failed,
        }
    }

    /// What follows an event, and what is remembered afterwards.
    pub open spec fn after(self, ev: HeldEvent, before: Memory, after: Memory, r: HeldNext) -> bool {
        match (self.stage, ev) {
            (HeldStage::Agents, HeldEvent::Agents(Ok(agents))) => (Held { agents, ..self }).goes_on(
                before,
                after,
                r,
            ),
            (HeldStage::Row, HeldEvent::Row(row)) => match held_status(row, self.agents@) {
                Some(status) => reconcile::unchanged(before, after) && r == HeldNext::Ask(
                    Held { stage: HeldStage::Prompt, ..self },
                    HeldAsk::Deliver { row: row->0, status },
                ),
                None => self.goes_on(before, after, r),
            },
            (HeldStage::Prompt, HeldEvent::Worked) => self.goes_on(before, after, r),
            (_, HeldEvent::Agents(Err(p))) | (_, HeldEvent::Failed(p)) => reconcile::unchanged(
                before,
                after,
            ) && r == HeldNext::End(Err(p)),
            _ => false,
        }
    }

    /// The delivery begins with the prompts that were held long enough; without any,
    /// herdr is not asked.
    pub fn start(memory: &Memory, now: Now) -> (r: HeldNext)
        ensures
            match r {
                HeldNext::Ask(then, ask) => {
                    &&& then.due@.len() > 0
                    &&& holds_passed(*memory, now, then.due@)
                    &&& then.stage is Agents
                    &&& ask is Agents
                },
                HeldNext::End(end) => end is Ok && holds_passed(*memory, now, seq![]),
            },
    {
        let due = memory.due_prompts(now.tick, now.settle);
        if due.len() == 0 {
            assert(due@ =~= seq![]);
            return HeldNext::End(Ok(()));
        }
        HeldNext::Ask(Held { due, agents: Vec::new(), stage: HeldStage::Agents }, HeldAsk::Agents)
    }

    fn go_on(self, memory: &mut Memory) -> (r: HeldNext)
        ensures
            self.goes_on(*old(memory), *final(memory), r),
    {
        let Held { due, agents, stage: _ } = self;
        let mut due = due;
        if due.len() == 0 {
            return HeldNext::End(Ok(()));
        }
        let ghost all = due@;
        let id = due.remove(0);
        assert(due@ =~= all.skip(1));
        memory.release_prompt(id);
        HeldNext::Ask(Held { due, agents, stage: HeldStage::Row }, HeldAsk::Row(id))
    }

    /// Take what came of what was asked, and say what comes next.
    pub fn step(self, ev: HeldEvent, memory: &mut Memory) -> (r: HeldNext)
        requires
            self.awaits(ev),
        ensures
            self.after(ev, *old(memory), *final(memory), r),
    {
        match (self.stage, ev) {
            (HeldStage::Agents, HeldEvent::Agents(Ok(agents))) => (Held { agents, ..self }).go_on(
                memory,
            ),
            (HeldStage::Row, HeldEvent::Row(row)) => {
                let status = match &row {
                    Some(t) => match observe::deliver_held_prompt(t, &self.agents) {
                        Some(AgentStatus::Blocked) | Some(AgentStatus::Unknown) => None,
                        other => other,
                    },
                    None => None,
                };
                match (row, status) {
                    (Some(row), Some(status)) => HeldNext::Ask(
                        Held { stage: HeldStage::Prompt, ..self },
                        HeldAsk::Deliver { row, status },
                    ),
                    _ => self.go_on(memory),
                }
            },
            (HeldStage::Prompt, HeldEvent::Worked) => self.go_on(memory),
            (_, HeldEvent::Agents(Err(p))) => HeldNext::End(Err(p)),
            (_, HeldEvent::Failed(p)) => HeldNext::End(Err(p)),
            _ => vstd::pervasive::unreached(),
        }
    }
}

// ---------------------------------------------------------------------------
// A prompt that was sent

/// What is remembered, and which event there is, once the outcome of a pending prompt
/// is written: `took` is the status the agent took it at, if it did. A row that moved
/// on meanwhile is left as it is and has no event.
pub fn prompt_written(memory: &mut Memory, id: i64, took: Option<AgentStatus>, written: &Option<Task>) -> (event:
    Option<String>)
    ensures
        final(memory).pending_done@ == old(memory).pending_done@.remove(id),
        final(memory).idle_agents@ == match (took, *written) {
            (Some(status), Some(_)) => reconcile::idle_after(old(memory).idle_agents@, id, status),
            _ => old(memory).idle_agents@,
        },
        final(memory).trust_answered == old(memory).trust_answered,
        final(memory).orphans == old(memory).orphans,
        match *written {
            Some(t) => event matches Some(e) && e@ == "task."@ + t.state.text(),
            None => event is None,
        },
{
    let event = match written {
        Some(t) => {
            if let Some(status) = took {
                memory.note_status(id, status);
            }
            Some(crate::machine::rows::state_event(t.state))
        },
        None => None,
    };
    memory.forget_pending(id);
    event
}

/// The check is due for exactly the tasks whose window opened at least a settle time ago;
/// without any of them herdr is not asked.
pub proof fn the_check_is_due_after_the_settle_time(memory: &Memory, now: Now, r: SettleNext, id: i64)
    requires
        call_ensures(Settle::start, (memory, now), r),
        now.settle.nanos > 0,
    ensures
        ({
            let due = memory.pending_done@.dom().contains(id) && now.tick.nanos
                - memory.pending_done@[id].at.nanos >= now.settle.nanos;
            match r {
                SettleNext::Ask(then, ask) => ask is Agents && (then.due@.contains(id) <==> due),
                SettleNext::End(end) => end is Ok && !due,
            }
        }),
{
    match r {
        SettleNext::Ask(then, _) => {
            assert(then.due@.contains(id) == then.due@.contains(id));
        },
        SettleNext::End(_) => {
            let none: Seq<i64> = seq![];
            assert(!none.contains(id));
        },
    }
}

/// A held prompt is due for exactly the tasks whose trust keys went in at least a settle
/// time ago.
pub proof fn a_hold_ends_after_the_settle_time(memory: &Memory, now: Now, r: HeldNext, id: i64)
    requires
        call_ensures(Held::start, (memory, now), r),
        now.settle.nanos > 0,
    ensures
        ({
            let due = memory.trust_answered@.dom().contains(id) && now.tick.nanos
                - memory.trust_answered@[id].nanos >= now.settle.nanos;
            match r {
                HeldNext::Ask(then, ask) => ask is Agents && (then.due@.contains(id) <==> due),
                HeldNext::End(end) => end is Ok && !due,
            }
        }),
{
    match r {
        HeldNext::Ask(then, _) => {
            assert(then.due@.contains(id) == then.due@.contains(id));
        },
        HeldNext::End(_) => {
            let none: Seq<i64> = seq![];
            assert(!none.contains(id));
        },
    }
}

/// A task whose agent settled and that its rule makes done is first looked at for a
/// question; any other is written as it was observed.
pub proof fn a_settled_task_is_asked_about_before_it_is_done<
    N: Fn(&Task, &Observed) -> Option<TaskState>,
>(
    settle: Settle,
    id: i64,
    row: Task,
    i: int,
    to: Option<TaskState>,
    before: Memory,
    after: Memory,
    now: Now,
    next: &N,
    r: SettleNext,
)
    requires
        settle.stage == SettleStage::Row(id),
        settle.after(SettleEvent::Row(Some(row)), before, after, now, next, r),
        row.pane_id is Some,
        reconcile::first_in(settle.agents@, row.pane_id->0@, i),
        before.pending_done@.dom().contains(id),
        before.pending_done@[id].seq == Some(settle.agents@[i].state_change_seq),
        forall|o: &Observed, x: Option<TaskState>| #[trigger]
            call_ensures(*next, (&row, o), x) ==> x == to,
    ensures
        to == Some(TaskState::Done) && row.agent_name is Some ==> (r matches SettleNext::Ask(
            _,
            SettleAsk::Question(t),
        ) && t == row),
        to != Some(TaskState::Done) || row.agent_name is None ==> (r matches SettleNext::Ask(
            _,
            SettleAsk::Apply { row: t, observed },
        ) && t == row && observed == (Observed::Status {
            status: settle.agents@[i].agent_status,
            state_change_seq: Some(settle.agents@[i].state_change_seq),
            completion_seq: settle.agents@[i].completion_seq,
        })),
{
    crate::machine::close::lemma_in_pane(settle.agents@, row.pane_id->0@);
}

/// A pane without a question leaves its task to be done as it was observed.
pub proof fn without_a_question_the_task_is_done<N: Fn(&Task, &Observed) -> Option<TaskState>>(
    settle: Settle,
    row: Task,
    observed: Observed,
    seen: Option<u64>,
    before: Memory,
    after: Memory,
    now: Now,
    next: &N,
    r: SettleNext,
)
    requires
        settle.stage == (SettleStage::Question { row, observed, seen }),
        settle.after(SettleEvent::Question(Ok(None)), before, after, now, next, r),
    ensures
        r matches SettleNext::Ask(then, ask) && ask == (SettleAsk::Apply { row, observed })
            && then.due == settle.due,
        after.pending_done@ == before.pending_done@,
{
}

/// A held prompt goes in once its task is looked up: to the agent in the pane of a task
/// that still waits for it, unless that agent is blocked or unknown.
pub proof fn a_held_prompt_is_sent_or_let_go(
    held: Held,
    row: Task,
    i: int,
    before: Memory,
    after: Memory,
    r: HeldNext,
)
    requires
        held.stage is Row,
        held.after(HeldEvent::Row(Some(row)), before, after, r),
        row.pane_id is Some,
        reconcile::first_in(held.agents@, row.pane_id->0@, i),
    ensures
        ({
            let a = held.agents@[i];
            let waits = row.prompt_pending && (row.state is Starting || row.state is Running
                || row.state is Blocked || row.state is Done || row.state is Stale);
            let able = a.agent_status is Idle || a.agent_status is Working || a.agent_status is Done;
            &&& waits && able ==> (r matches HeldNext::Ask(_, ask) && ask == (HeldAsk::Deliver {
                row,
                status: a.agent_status,
            }))
            &&& !(waits && able) && held.due@.len() == 0 ==> r == HeldNext::End(Ok(()))
            &&& !(waits && able) && held.due@.len() > 0 ==> (r matches HeldNext::Ask(_, ask) && ask
                == HeldAsk::Row(held.due@[0])) && !after.trust_answered@.dom().contains(held.due@[0])
        }),
{
    crate::machine::close::lemma_in_pane(held.agents@, row.pane_id->0@);
}

/// Every task that is due is looked up, in turn: none is passed over.
pub proof fn the_check_goes_through_all_its_tasks(settle: Settle, r: SettleNext)
    requires
        settle.goes_on(r),
    ensures
        settle.due@.len() == 0 ==> r == SettleNext::End(Ok(())),
        settle.due@.len() > 0 ==> (r matches SettleNext::Ask(then, ask) && ask == SettleAsk::Row(
            settle.due@[0],
        ) && seq![settle.due@[0]] + then.due@ == settle.due@),
{
    if settle.due@.len() > 0 {
        assert(seq![settle.due@[0]] + settle.due@.skip(1) =~= settle.due@);
    }
}

} // verus!
