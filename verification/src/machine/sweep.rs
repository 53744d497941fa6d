//! A reconcile as a whole: list the agents, compare every task of the machine with
//! them, then look for orphans and answer trust prompts.
//!
//! The sweep asks for one thing at a time. Whoever runs it does what is asked and
//! hands back what came of it.

use vstd::prelude::*;

use crate::machine::life::Problem;
use crate::machine::memory;
use crate::machine::memory::Memory;
use crate::machine::memory::Pending;
use crate::machine::reconcile;
use crate::machine::reconcile::Now;
use crate::machine::reconcile::ToDo;
use crate::task::AgentInfo;
use crate::task::AgentStatus;
use crate::task::Observed;
use crate::task::Task;
use crate::task::TaskState;

verus! {

broadcast use {vstd::std_specs::hash::group_hash_axioms, vstd::set::group_set_axioms};

/// What a sweep asks for.
#[derive(Debug)]
pub enum SweepAsk {
    /// `agent.list`.
    Agents,
    /// The rows of the tasks that hold a pane on the machine.
    Rows,
    /// Nothing about this row.
    Nothing,
    /// Write the row, which took up an agent.
    Adopt(Task),
    /// Apply the observation to the row.
    Apply { row: Task, observed: Observed },
    /// Send the row's pending prompt.
    Deliver { row: Task, status: AgentStatus },
    /// Mark the row stale.
    Stale(Task),
    /// Take the count of live agents again, then answer trust prompts.
    Trust,
}

/// What came of what was asked.
#[derive(Debug)]
pub enum SweepEvent {
    Agents(Result<Vec<AgentInfo>, Problem>),
    Rows(Result<Vec<Task>, Problem>),
    /// The adopted row as written, or why it was not.
    Stored(Result<Task, String>),
    Worked,
    Failed(Problem),
}

/// What a sweep waits for.
#[derive(Debug, Clone, Copy, PartialEq, Eq, Structural)]
pub enum SweepStage {
    Agents,
    Rows,
    /// A row that took up an agent is being written.
    Adopting { idle_at: Option<u64>, observed: Observed },
    /// A row is being dealt with, in a way that cannot fail the sweep.
    Row,
    /// A row's prompt is being sent.
    Prompt,
    /// The rows are being read again, to tell the orphans.
    Orphans,
    Trust,
}

/// A sweep under way.
#[derive(Debug)]
pub struct Sweep {
    pub agents: Vec<AgentInfo>,
    /// The rows still to be compared, in order.
    pub rest: Vec<Task>,
    /// A row took up an agent.
    pub adopted: bool,
    pub stage: SweepStage,
}

/// What comes next.
#[derive(Debug)]
pub enum SweepNext {
    /// `running` is the task whose `task.running` is announced first.
    Ask { sweep: Sweep, ask: SweepAsk, running: Option<i64> },
    /// The sweep ends; whether it adopted a pane, or why it broke off.
    End(Result<bool, Problem>),
}

/// The start of each task is a time of the calendar.
pub open spec fn startable(rows: Seq<Task>) -> bool {
    forall|i: int|
        0 <= i < rows.len() ==> ((#[trigger] rows[i]).started_at matches Some(s) ==> s.valid())
}

/// The stage at which something done about a row is waited for.
pub open spec fn stage_of(todo: ToDo) -> SweepStage {
    match todo {
        ToDo::Adopt { idle_at, observed, .. } => SweepStage::Adopting { idle_at, observed },
        ToDo::Deliver { .. } => SweepStage::Prompt,
        _ => SweepStage::Row,
    }
}

/// What is asked so that something is done about a row.
pub open spec fn ask_of(todo: ToDo) -> SweepAsk {
    match todo {
        ToDo::Nothing => SweepAsk::Nothing,
        ToDo::Adopt { row, .. } => SweepAsk::Adopt(row),
        ToDo::Apply { row, observed, .. } => SweepAsk::Apply { row, observed },
        ToDo::Deliver { row, status } => SweepAsk::Deliver { row, status },
        ToDo::Stale(row) => SweepAsk::Stale(row),
    }
}

/// An adopted idle agent has a window: the one it had, or one that starts now.
pub open spec fn opens_window(before: Memory, after: Memory, id: i64, seq: u64, at: crate::time::Duration) -> bool {
    &&& after.pending_done@ == if before.pending_done@.dom().contains(id) {
        before.pending_done@
    } else {
        before.pending_done@.insert(id, (Pending { seq: Some(seq), at }))
    }
    &&& after.trust_answered == before.trust_answered
    &&& after.idle_agents == before.idle_agents
    &&& after.orphans == before.orphans
}

impl Sweep {
    /// The rows still to be compared can be.
    pub open spec fn wf(self) -> bool {
        startable(self.rest@)
    }

    /// Whether the event answers what the sweep waits for, with rows that can be
    /// compared.
    pub open spec fn awaits(self, ev: SweepEvent) -> bool {
        match self.stage {
            SweepStage::Agents => ev is Agents,
            SweepStage::Rows => ev matches SweepEvent::Rows(r) && (r matches Ok(v) ==> startable(
                v@,
            )),
            SweepStage::Adopting { .. } => ev is Stored,
            SweepStage::Row => ev is Worked,
            SweepStage::Prompt => ev is Worked || ev is Failed,
            SweepStage::Orphans => ev is Rows,
            SweepStage::Trust => ev is Worked || ev is Failed,
        }
    }

    /// The next row is compared with the agents; or, with no row left, the rows are
    /// read again for the orphans.
    pub open spec fn looks<N: Fn(&Task, &Observed) -> Option<TaskState>>(
        self,
        before: Memory,
        after: Memory,
        machine: Seq<char>,
        now: Now,
        next: &N,
        running: Option<i64>,
        r: SweepNext,
    ) -> bool {
        r matches SweepNext::Ask { sweep, ask, running: told } && {
            &&& sweep.agents == self.agents
            &&& sweep.adopted == self.adopted
            &&& told == running
            &&& if self.rest@.len() == 0 {
                &&& reconcile::unchanged(before, after)
                &&& sweep.rest@.len() == 0
                &&& sweep.stage is Orphans
                &&& ask is Rows
            } else {
                &&& sweep.rest@ == self.rest@.skip(1)
                &&& exists|todo: ToDo| #[trigger]
                    reconcile::reconciled(
                        self.rest@[0],
                        self.agents@,
                        before,
                        after,
                        machine,
                        now,
                        next,
                        todo,
                    ) && sweep.stage == stage_of(todo) && ask == ask_of(todo)
            }
        }
    }

    /// What follows an event, and what is remembered afterwards.
    pub open spec fn after<N: Fn(&Task, &Observed) -> Option<TaskState>>(
        self,
        ev: SweepEvent,
        before: Memory,
        after: Memory,
        machine: Seq<char>,
        now: Now,
        next: &N,
        r: SweepNext,
    ) -> bool {
        match (self.stage, ev) {
            (SweepStage::Agents, SweepEvent::Agents(Ok(agents))) => {
                &&& reconcile::unchanged(before, after)
                &&& r == (SweepNext::Ask {
                    sweep: Sweep { agents, stage: SweepStage::Rows, ..self },
                    ask: SweepAsk::Rows,
                    running: None,
                })
            },
            (SweepStage::Rows, SweepEvent::Rows(Ok(rows))) => (Sweep { rest: rows, ..self }).looks(
                before,
                after,
                machine,
                now,
                next,
                None,
                r,
            ),
            (SweepStage::Adopting { idle_at, observed }, SweepEvent::Stored(stored)) => match (
                stored,
                idle_at,
            ) {
                // One row must not stop the rest of the pass.
                (Err(_), _) => self.looks(before, after, machine, now, next, None, r),
                (Ok(row), Some(seq)) => exists|mid: Memory| #[trigger]
                    opens_window(before, mid, row.id, seq, now.tick) && (Sweep {
                        adopted: true,
                        ..self
                    }).looks(mid, after, machine, now, next, Some(row.id), r),
                (Ok(row), None) => {
                    &&& reconcile::unchanged(before, after)
                    &&& r == (SweepNext::Ask {
                        sweep: Sweep { adopted: true, stage: SweepStage::Row, ..self },
                        ask: SweepAsk::Apply { row, observed },
                        running: None,
                    })
                },
            },
            (SweepStage::Row, _) => self.looks(before, after, machine, now, next, None, r),
            (SweepStage::Prompt, SweepEvent::Worked) => self.looks(
                before,
                after,
                machine,
                now,
                next,
                None,
                r,
            ),
            (SweepStage::Orphans, SweepEvent::Rows(Ok(rows))) => {
                &&& memory::pair_texts(after.orphans@) == memory::orphans_of(self.agents@, rows@)
                &&& after.pending_done == before.pending_done
                &&& after.trust_answered == before.trust_answered
                &&& after.idle_agents == before.idle_agents
                &&& r == (SweepNext::Ask {
                    sweep: Sweep { stage: SweepStage::Trust, ..self },
                    ask: SweepAsk::Trust,
                    running: None,
                })
            },
            (SweepStage::Trust, SweepEvent::Worked) => reconcile::unchanged(before, after) && r
                == SweepNext::End(Ok(self.adopted)),
            (_, SweepEvent::Agents(Err(p))) | (_, SweepEvent::Rows(Err(p))) | (
                _,
                SweepEvent::Failed(p),
            ) => reconcile::unchanged(before, after) && r == SweepNext::End(Err(p)),
            _ => false,
        }
    }

    /// A reconcile begins with the list of agents.
    pub fn start() -> (r: (Sweep, SweepAsk))
        ensures
            r.0.agents@.len() == 0,
            r.0.rest@.len() == 0,
            !r.0.adopted,
            r.0.stage is Agents,
            r.0.wf(),
            r.1 is Agents,
    {
        let sweep = Sweep {
            agents: Vec::new(),
            rest: Vec::new(),
            adopted: false,
            stage: SweepStage::Agents,
        };
        (sweep, SweepAsk::Agents)
    }

    fn look<N: Fn(&Task, &Observed) -> Option<TaskState>>(
        self,
        memory: &mut Memory,
        machine: &str,
        now: Now,
        next: &N,
        running: Option<i64>,
    ) -> (r: SweepNext)
        requires
            forall|t: &Task, o: &Observed| call_requires(*next, (t, o)),
            now.at.valid(),
            self.wf(),
        ensures
            self.looks(*old(memory), *final(memory), machine@, now, next, running, r),
            r matches SweepNext::Ask { sweep, .. } ==> sweep.wf(),
    {
        let Sweep { agents, rest, adopted, stage: _ } = self;
        let mut rest = rest;
        if rest.len() == 0 {
            let sweep = Sweep { agents, rest, adopted, stage: SweepStage::Orphans };
            return SweepNext::Ask { sweep, ask: SweepAsk::Rows, running };
        }
        let ghost all = rest@;
        let row = rest.remove(0);
        assert(rest@ =~= all.skip(1));
        assert(startable(rest@)) by {
            assert forall|i: int| 0 <= i < rest@.len() implies ((#[trigger] rest@[i]).started_at matches Some(
                s,
            ) ==> s.valid()) by {
                assert(rest@[i] == all[i + 1]);
            }
        }
        let todo = reconcile::reconcile_task(row, &agents, memory, machine, now, next);
        assert(reconcile::reconciled(
            all[0],
            self.agents@,
            *old(memory),
            *final(memory),
            machine@,
            now,
            next,
            todo,
        ));
        let (stage, ask) = match todo {
            ToDo::Nothing => (SweepStage::Row, SweepAsk::Nothing),
            ToDo::Adopt { row, idle_at, observed } => (
                SweepStage::Adopting { idle_at, observed },
                SweepAsk::Adopt(row),
            ),
            ToDo::Apply { row, observed, then_trust: _ } => (
                SweepStage::Row,
                SweepAsk::Apply { row, observed },
            ),
            ToDo::Deliver { row, status } => (SweepStage::Prompt, SweepAsk::Deliver { row, status }),
            ToDo::Stale(row) => (SweepStage::Row, SweepAsk::Stale(row)),
        };
        SweepNext::Ask { sweep: Sweep { agents, rest, adopted, stage }, ask, running }
    }

    /// Take what came of what was asked, and say what comes next.
    pub fn step<N: Fn(&Task, &Observed) -> Option<TaskState>>(
        self,
        ev: SweepEvent,
        memory: &mut Memory,
        machine: &str,
        now: Now,
        next: &N,
    ) -> (r: SweepNext)
        requires
            forall|t: &Task, o: &Observed| call_requires(*next, (t, o)),
            now.at.valid(),
            self.wf(),
            self.awaits(ev),
        ensures
            self.after(ev, *old(memory), *final(memory), machine@, now, next, r),
            r matches SweepNext::Ask { sweep, .. } ==> sweep.wf(),
    {
        match (self.stage, ev) {
            (SweepStage::Agents, SweepEvent::Agents(Ok(agents))) => SweepNext::Ask {
                sweep: Sweep { agents, stage: SweepStage::Rows, ..self },
                ask: SweepAsk::Rows,
                running: None,
            },
            (SweepStage::Rows, SweepEvent::Rows(Ok(rows))) => (Sweep { rest: rows, ..self }).look(
                memory,
                machine,
                now,
                next,
                None,
            ),
            (SweepStage::Adopting { idle_at, observed }, SweepEvent::Stored(stored)) => match stored {
                Err(_) => self.look(memory, machine, now, next, None),
                Ok(row) => match idle_at {
                    Some(seq) => {
                        let id = row.id;
                        memory.adopted_idle(id, seq, now.tick);
                        assert(opens_window(*old(memory), *memory, id, seq, now.tick));
                        (Sweep { adopted: true, ..self }).look(memory, machine, now, next, Some(id))
                    },
                    None => SweepNext::Ask {
                        sweep: Sweep { adopted: true, stage: SweepStage::Row, ..self },
                        ask: SweepAsk::Apply { row, observed },
                        running: None,
                    },
                },
            },
            (SweepStage::Row, SweepEvent::Worked) => self.look(memory, machine, now, next, None),
            (SweepStage::Prompt, SweepEvent::Worked) => self.look(memory, machine, now, next, None),
            (SweepStage::Orphans, SweepEvent::Rows(Ok(rows))) => {
                let found = memory::orphan_agents(self.agents.as_slice(), rows.as_slice());
                memory.found_orphans(found);
                SweepNext::Ask {
                    sweep: Sweep { stage: SweepStage::Trust, ..self },
                    ask: SweepAsk::Trust,
                    running: None,
                }
            },
            (SweepStage::Trust, SweepEvent::Worked) => SweepNext::End(Ok(self.adopted)),
            (_, SweepEvent::Agents(Err(p))) => SweepNext::End(Err(p)),
            (_, SweepEvent::Rows(Err(p))) => SweepNext::End(Err(p)),
            (_, SweepEvent::Failed(p)) => SweepNext::End(Err(p)),
            _ => vstd::pervasive::unreached(),
        }
    }
}

/// A sweep breaks off only where the agents or the rows could not be had, or where a
/// prompt or a trust answer did not get through; and it says why. Nothing that goes
/// wrong with one row keeps it from the others.
pub proof fn a_row_does_not_stop_a_reconcile<N: Fn(&Task, &Observed) -> Option<TaskState>>(
    sweep: Sweep,
    ev: SweepEvent,
    before: Memory,
    after: Memory,
    machine: Seq<char>,
    now: Now,
    next: &N,
    p: Problem,
)
    requires
        sweep.awaits(ev),
        sweep.after(ev, before, after, machine, now, next, SweepNext::End(Err(p))),
    ensures
        ev == SweepEvent::Agents(Err(p)) || ev == SweepEvent::Rows(Err(p)) || (ev
            == SweepEvent::Failed(p) && (sweep.stage is Prompt || sweep.stage is Trust)),
{
}

/// A sweep compares its rows one by one and in order: each step leaves the rows as
/// they were or takes the first of them, and the orphans are looked for only when
/// none is left.
pub proof fn every_row_is_compared_in_turn<N: Fn(&Task, &Observed) -> Option<TaskState>>(
    sweep: Sweep,
    ev: SweepEvent,
    before: Memory,
    after: Memory,
    machine: Seq<char>,
    now: Now,
    next: &N,
    then: Sweep,
    ask: SweepAsk,
    running: Option<i64>,
)
    requires
        sweep.awaits(ev),
        !(ev is Rows),
        sweep.after(
            ev,
            before,
            after,
            machine,
            now,
            next,
            SweepNext::Ask { sweep: then, ask, running },
        ),
    ensures
        then.rest@ == sweep.rest@ || (sweep.rest@.len() > 0 && then.rest@ == sweep.rest@.skip(1)),
        then.stage is Orphans ==> then.rest@.len() == 0,
{
}

/// A sweep tells of an adoption exactly if a row that took up an agent was written.
pub proof fn an_adoption_is_told<N: Fn(&Task, &Observed) -> Option<TaskState>>(
    sweep: Sweep,
    ev: SweepEvent,
    before: Memory,
    after: Memory,
    machine: Seq<char>,
    now: Now,
    next: &N,
    r: SweepNext,
)
    requires
        sweep.awaits(ev),
        sweep.after(ev, before, after, machine, now, next, r),
    ensures
        match r {
            SweepNext::Ask { sweep: then, .. } => then.adopted == (sweep.adopted || ev matches SweepEvent::Stored(
                Ok(_),
            )),
            SweepNext::End(Ok(adopted)) => adopted == sweep.adopted,
            SweepNext::End(Err(_)) => true,
        },
{
}

/// A row found to be stale, to be applied to, to adopt an agent or to get its prompt is
/// dealt with as it was found, and no other way.
pub proof fn a_row_is_dealt_with_as_it_was_found<N: Fn(&Task, &Observed) -> Option<TaskState>>(
    sweep: Sweep,
    before: Memory,
    after: Memory,
    machine: Seq<char>,
    now: Now,
    next: &N,
    then: Sweep,
    ask: SweepAsk,
    running: Option<i64>,
)
    requires
        sweep.rest@.len() > 0,
        sweep.stage is Row,
        sweep.after(
            SweepEvent::Worked,
            before,
            after,
            machine,
            now,
            next,
            SweepNext::Ask { sweep: then, ask, running },
        ),
    ensures
        seq![sweep.rest@[0]] + then.rest@ == sweep.rest@,
        running is None,
        exists|todo: ToDo| #[trigger]
            reconcile::reconciled(
                sweep.rest@[0],
                sweep.agents@,
                before,
                after,
                machine,
                now,
                next,
                todo,
            ) && match todo {
                ToDo::Nothing => ask is Nothing && then.stage is Row,
                ToDo::Stale(row) => ask == SweepAsk::Stale(row) && then.stage is Row,
                ToDo::Apply { row, observed, .. } => ask == (SweepAsk::Apply { row, observed })
                    && then.stage is Row,
                ToDo::Deliver { row, status } => ask == (SweepAsk::Deliver { row, status })
                    && then.stage is Prompt,
                ToDo::Adopt { row, idle_at, observed } => ask == SweepAsk::Adopt(row) && then.stage
                    == (SweepStage::Adopting { idle_at, observed }),
            },
{
    assert(seq![sweep.rest@[0]] + sweep.rest@.skip(1) =~= sweep.rest@);
}

/// An adopted row that was written: with an agent between turns its running is announced
/// and its window opens at the agent's sequence, unless it has one; with any other agent
/// the observation is applied to the row as written.
pub proof fn an_adopted_row_goes_on_by_its_agent<N: Fn(&Task, &Observed) -> Option<TaskState>>(
    sweep: Sweep,
    idle_at: Option<u64>,
    observed: Observed,
    row: Task,
    before: Memory,
    after: Memory,
    machine: Seq<char>,
    now: Now,
    next: &N,
    r: SweepNext,
)
    requires
        sweep.stage == (SweepStage::Adopting { idle_at, observed }),
        sweep.rest@.len() == 0,
        sweep.after(SweepEvent::Stored(Ok(row)), before, after, machine, now, next, r),
    ensures
        idle_at is None ==> (r matches SweepNext::Ask { sweep: then, ask, running } && ask == (
        SweepAsk::Apply { row, observed }) && running is None && then.adopted
            && after.pending_done@ == before.pending_done@),
        idle_at matches Some(seq) ==> (r matches SweepNext::Ask { sweep: then, running, .. } && running
            == Some(row.id) && then.adopted) && after.pending_done@ == (
        if before.pending_done@.dom().contains(row.id) {
            before.pending_done@
        } else {
            before.pending_done@.insert(row.id, (Pending { seq: Some(seq), at: now.tick }))
        }),
{
}

/// Once all rows are compared, the orphans are told and trust prompts are answered; then
/// the sweep says whether it adopted a pane.
pub proof fn a_sweep_ends_with_its_orphans_and_trust<N: Fn(&Task, &Observed) -> Option<TaskState>>(
    sweep: Sweep,
    rows: Vec<Task>,
    before: Memory,
    mid: Memory,
    after: Memory,
    machine: Seq<char>,
    now: Now,
    next: &N,
    told: SweepNext,
    end: SweepNext,
)
    requires
        (Sweep { stage: SweepStage::Orphans, ..sweep }).after(
            SweepEvent::Rows(Ok(rows)),
            before,
            mid,
            machine,
            now,
            next,
            told,
        ),
        (Sweep { stage: SweepStage::Trust, ..sweep }).after(
            SweepEvent::Worked,
            mid,
            after,
            machine,
            now,
            next,
            end,
        ),
    ensures
        told matches SweepNext::Ask { ask, .. } && ask is Trust,
        end == SweepNext::End(Ok(sweep.adopted)),
        memory::pair_texts(mid.orphans@) == memory::orphans_of(sweep.agents@, rows@),
{
}

} // verus!
