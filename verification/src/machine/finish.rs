//! The rows after a close: what is written once herdr did its part, and what is told
//! of it.

use vstd::prelude::*;
use vstd::string::*;

use crate::digits;
use crate::machine::calls::Cause;
use crate::machine::close::CloseEnd;
use crate::machine::close::CloseFault;
use crate::machine::close::CloseOf;
use crate::machine::close_text;
use crate::machine::life::Problem;
use crate::machine::memory;
use crate::machine::memory::Memory;
use crate::machine::prompt;
use crate::machine::rows;
use crate::machine::rows::WriteAsk;
use crate::machine::rows::WriteEnd;
use crate::machine::rows::WriteEvent;
use crate::machine::rows::WriteNext;
use crate::machine::rows::WriteTry;
use crate::machine::status::OrphanClosed;
use crate::task;
use crate::task::Task;
use crate::task::TaskState;
use crate::time::Timestamp;

verus! {

/// What the end of a close needs of the store.
#[derive(Debug)]
pub enum FinishAsk {
    /// A step in giving the row its baseline.
    Store(WriteAsk),
    /// Write the row as it is here.
    Update(Task),
    /// Close the row of that task.
    Close(i64),
}

/// What came of it.
#[derive(Debug)]
pub enum FinishEvent {
    Stored(WriteEvent),
    Updated(Result<Task, String>),
    Closed(Result<Task, String>),
}

/// Where the end of a close stands. `was` is the state the row had before.
#[derive(Debug, Clone, Copy, PartialEq, Eq, Structural)]
pub enum FinishStage {
    Seeding { seq: u64, attempt: WriteTry },
    AutoClosing,
    Noting { was: TaskState },
    Closing { was: TaskState },
}

/// The end of the close of a task.
#[derive(Debug, Clone, Copy, PartialEq, Eq, Structural)]
pub struct Finish {
    pub task_id: i64,
    pub stage: FinishStage,
}

/// What the close comes to.
#[derive(Debug)]
pub enum Finished {
    /// The row, closed, or closed before.
    Row(Task),
    /// There was no row; the orphaned agent is gone.
    Orphan(OrphanClosed),
    Problem(Problem),
}

/// What comes next.
#[derive(Debug)]
pub enum FinishNext {
    Ask(Finish, FinishAsk),
    /// `told`: `task.closed` is announced. `refresh`: the live agents are to be counted
    /// again.
    End { end: Finished, told: bool, refresh: bool },
}

/// The close comes to nothing, for this reason.
pub open spec fn stops(r: FinishNext, cause: Cause, message: Seq<char>) -> bool {
    r matches FinishNext::End { end: Finished::Problem(p), told, refresh } && p.chain@ == seq![cause]
        && p.message@ == message && !told && !refresh
}

/// The pane is no longer the task's: no orphan is in it, and no window is open.
pub open spec fn released_from(before: Memory, after: Memory, pane: Seq<char>, id: i64) -> bool {
    &&& after.pending_done@ == before.pending_done@.remove(id)
    &&& memory::pair_texts(after.orphans@) == memory::without_pane(
        memory::pair_texts(before.orphans@),
        pane,
    )
    &&& after.trust_answered == before.trust_answered
    &&& after.idle_agents == before.idle_agents
}

/// The name the task's agent goes by.
pub open spec fn agent_of(row: Option<Task>, task_id: int) -> Seq<char> {
    match row {
        Some(t) => match t.agent_name {
            Some(n) => n@,
            None => task::task_name(task_id),
        },
        None => task::task_name(task_id),
    }
}

/// What is said of a row that took a baseline.
pub open spec fn seeded_text(seq: nat) -> Seq<char> {
    "the row had no completion baseline; recorded "@ + digits::decimal(seq) + " from herdr"@
}

/// The row with the baseline, if it still wants one.
pub open spec fn seeded(t: Task, seq: u64) -> Option<Task> {
    if t.state is Done && t.last_completion_seq is None {
        Some(Task { last_completion_seq: Some(seq), ..t })
    } else {
        None
    }
}

/// What follows a step in giving the row its baseline: whether it took it or moved on,
/// the close waits for a later pass.
pub open spec fn seeds(id: i64, seq: u64, next: WriteNext, r: FinishNext) -> bool {
    match next {
        WriteNext::Ask(attempt, ask) => r == FinishNext::Ask(
            Finish { task_id: id, stage: FinishStage::Seeding { seq, attempt } },
            FinishAsk::Store(ask),
        ),
        WriteNext::End(WriteEnd::Conflict) => stops(
            r,
            Cause::Other,
            prompt::changed_text(id as int),
        ),
        WriteNext::End(WriteEnd::Failed(e)) => stops(r, Cause::Other, e@),
        WriteNext::End(_) => stops(r, Cause::Other, seeded_text(seq as nat)),
    }
}

fn stopped(cause: Cause, message: String) -> (r: FinishNext)
    ensures
        stops(r, cause, message@),
{
    let mut chain: Vec<Cause> = Vec::new();
    chain.push(cause);
    let p = Problem { chain, message };
    assert(p.chain@ =~= seq![cause]);
    FinishNext::End { end: Finished::Problem(p), told: false, refresh: false }
}

fn seeding(id: i64, seq: u64, next: WriteNext) -> (r: FinishNext)
    ensures
        seeds(id, seq, next, r),
{
    match next {
        WriteNext::Ask(attempt, ask) => FinishNext::Ask(
            Finish { task_id: id, stage: FinishStage::Seeding { seq, attempt } },
            FinishAsk::Store(ask),
        ),
        WriteNext::End(WriteEnd::Conflict) => {
            let mut said = Task::agent_name_for(id);
            said.append(" was changed by someone else");
            stopped(Cause::Other, said)
        },
        WriteNext::End(WriteEnd::Failed(e)) => stopped(Cause::Other, e),
        WriteNext::End(_) => {
            let mut said = "the row had no completion baseline; recorded ".to_owned();
            said.append(digits::print_number(seq).as_str());
            said.append(" from herdr");
            stopped(Cause::Other, said)
        },
    }
}

fn release(memory: &mut Memory, pane: &str, id: i64)
    ensures
        released_from(*old(memory), *final(memory), pane@, id),
{
    memory.forget_orphan(pane);
    memory.forget_pending(id);
}

impl Finish {
    /// The answer is one to what was asked.
    pub open spec fn awaits(self, ev: FinishEvent) -> bool {
        match self.stage {
            FinishStage::Seeding { attempt, .. } => ev matches FinishEvent::Stored(e)
                && rows::write_awaits(attempt, e),
            FinishStage::AutoClosing => ev is Updated,
            FinishStage::Noting { .. } => ev is Updated,
            FinishStage::Closing { .. } => ev is Closed,
        }
    }

    /// What a close that ended so comes to, or what it writes first.
    pub open spec fn begins(
        end: CloseEnd,
        row: Option<Task>,
        task_id: i64,
        machine: Seq<char>,
        limit: Seq<char>,
        now: Timestamp,
        before: Memory,
        after: Memory,
        r: FinishNext,
    ) -> bool {
        match end {
            CloseEnd::Fault(fault) => after == before && stops(
                r,
                fault.from(),
                fault.text(
                    task::task_name(task_id as int),
                    agent_of(row, task_id as int),
                    machine,
                    limit,
                ),
            ),
            CloseEnd::Seed { seq } => after == before && seeds(
                task_id,
                seq,
                match seeded(row->0, seq) {
                    Some(t) => WriteNext::Ask(WriteTry::First, WriteAsk::Update(t)),
                    None => WriteNext::End(WriteEnd::Nothing),
                },
                r,
            ),
            CloseEnd::Unchanged => after == before && r == (FinishNext::End {
                end: Finished::Row(row->0),
                told: false,
                refresh: false,
            }),
            CloseEnd::Orphan { released } => {
                &&& released_from(before, after, released@, task_id)
                &&& r matches FinishNext::End { end: Finished::Orphan(o), told, refresh } && !told
                    && refresh && o.agent@ == task::task_name(task_id as int) && o.machine@ == machine
            },
            CloseEnd::Closed { auto, clear_workspace, note, released } => {
                &&& match released {
                    Some(pane) => released_from(before, after, pane@, task_id),
                    None => after == before,
                }
                &&& if auto {
                    r matches FinishNext::Ask(f, FinishAsk::Update(t)) && {
                        &&& f == (Finish { task_id, stage: FinishStage::AutoClosing })
                        &&& close_text::noted(
                            row->0,
                            clear_workspace,
                            note,
                            (Task { state: row->0.state, finished_at: row->0.finished_at, ..t }),
                        )
                        &&& t.state is Closed
                        &&& t.finished_at == (match row->0.finished_at {
                            Some(at) => Some(at),
                            None => Some(now),
                        })
                    }
                } else if clear_workspace || note is Some {
                    r matches FinishNext::Ask(f, FinishAsk::Update(t)) && f == (Finish {
                        task_id,
                        stage: FinishStage::Noting { was: row->0.state },
                    }) && close_text::noted(row->0, clear_workspace, note, t)
                } else {
                    r == FinishNext::Ask(
                        Finish { task_id, stage: FinishStage::Closing { was: row->0.state } },
                        FinishAsk::Close(task_id),
                    )
                }
            },
        }
    }

    /// Begin with how the close ended. `row` is the task's row as the close began with
    /// it, and `limit` the time a request may take.
    pub fn start(
        end: CloseEnd,
        row: Option<Task>,
        task_id: i64,
        machine: &str,
        limit: &str,
        now: Timestamp,
        memory: &mut Memory,
    ) -> (r: FinishNext)
        requires
            end is Seed || end is Unchanged || end is Closed ==> row is Some,
        ensures
            Finish::begins(end, row, task_id, machine@, limit@, now, *old(memory), *final(memory), r),
    {
        let name = Task::agent_name_for(task_id);
        match end {
            CloseEnd::Fault(fault) => {
                let expected = match &row {
                    Some(t) => match &t.agent_name {
                        Some(n) => n.clone(),
                        None => name.clone(),
                    },
                    None => name.clone(),
                };
                let said = fault.message(name.as_str(), expected.as_str(), machine, limit);
                stopped(fault.cause(), said)
            },
            CloseEnd::Orphan { released } => {
                release(memory, released.as_str(), task_id);
                let o = OrphanClosed { agent: name, machine: machine.to_owned() };
                FinishNext::End { end: Finished::Orphan(o), told: false, refresh: true }
            },
            CloseEnd::Seed { seq } => {
                let t = match row {
                    Some(t) => t,
                    None => vstd::pervasive::unreached(),
                };
                let seed = |t: Task| -> (o: Option<Task>)
                    ensures
                        o == seeded(t, seq),
                    { close_text::seed_baseline(t, seq) };
                let next = rows::write_task(t, &seed);
                seeding(task_id, seq, next)
            },
            CloseEnd::Unchanged => {
                let t = match row {
                    Some(t) => t,
                    None => vstd::pervasive::unreached(),
                };
                FinishNext::End { end: Finished::Row(t), told: false, refresh: false }
            },
            CloseEnd::Closed { auto, clear_workspace, note, released } => {
                if let Some(pane) = &released {
                    release(memory, pane.as_str(), task_id);
                }
                let t = match row {
                    Some(t) => t,
                    None => vstd::pervasive::unreached(),
                };
                let was = t.state;
                if auto {
                    let t = close_text::finish_auto_close(t, clear_workspace, note, now);
                    FinishNext::Ask(
                        Finish { task_id, stage: FinishStage::AutoClosing },
                        FinishAsk::Update(t),
                    )
                } else if close_text::row_changes(clear_workspace, &note) {
                    let t = close_text::row_before_close(t, clear_workspace, note);
                    FinishNext::Ask(
                        Finish { task_id, stage: FinishStage::Noting { was } },
                        FinishAsk::Update(t),
                    )
                } else {
                    FinishNext::Ask(
                        Finish { task_id, stage: FinishStage::Closing { was } },
                        FinishAsk::Close(task_id),
                    )
                }
            },
        }
    }

    /// What an answer of the store leads to. `task.closed` is announced once: not for a
    /// row that was closed before.
    pub open spec fn after(self, ev: FinishEvent, r: FinishNext) -> bool {
        match (self.stage, ev) {
            (FinishStage::Seeding { seq, attempt }, FinishEvent::Stored(e)) => seeds(
                self.task_id,
                seq,
                match e {
                    WriteEvent::Updated(t) => WriteNext::End(WriteEnd::Written(t)),
                    WriteEvent::Failed(m) => WriteNext::End(WriteEnd::Failed(m)),
                    WriteEvent::Conflict => if attempt is First {
                        WriteNext::Ask(WriteTry::Reading, WriteAsk::Reread(self.task_id))
                    } else {
                        WriteNext::End(WriteEnd::Conflict)
                    },
                    WriteEvent::Row(None) => WriteNext::End(WriteEnd::Nothing),
                    WriteEvent::Row(Some(t)) => match seeded(t, seq) {
                        Some(t) => WriteNext::Ask(WriteTry::Second, WriteAsk::Update(t)),
                        None => WriteNext::End(WriteEnd::Nothing),
                    },
                },
                r,
            ),
            (FinishStage::AutoClosing, FinishEvent::Updated(Ok(t))) => r == (FinishNext::End {
                end: Finished::Row(t),
                told: true,
                refresh: true,
            }),
            (FinishStage::Noting { was }, FinishEvent::Updated(Ok(_))) => r == FinishNext::Ask(
                Finish { stage: FinishStage::Closing { was }, ..self },
                FinishAsk::Close(self.task_id),
            ),
            (FinishStage::Closing { was }, FinishEvent::Closed(Ok(t))) => r == (FinishNext::End {
                end: Finished::Row(t),
                told: !(was is Closed),
                refresh: true,
            }),
            (_, FinishEvent::Updated(Err(e))) => stops(r, Cause::Other, e@),
            (_, FinishEvent::Closed(Err(e))) => stops(r, Cause::Other, e@),
            _ => true,
        }
    }

    /// Take the store's answer and say what comes next.
    pub fn step(self, ev: FinishEvent) -> (r: FinishNext)
        requires
            self.awaits(ev),
        ensures
            self.after(ev, r),
    {
        match (self.stage, ev) {
            (FinishStage::Seeding { seq, attempt }, FinishEvent::Stored(e)) => {
                let seed = |t: Task| -> (o: Option<Task>)
                    ensures
                        o == seeded(t, seq),
                    { close_text::seed_baseline(t, seq) };
                let next = rows::write_step(self.task_id, attempt, e, &seed);
                seeding(self.task_id, seq, next)
            },
            (FinishStage::AutoClosing, FinishEvent::Updated(Ok(t))) => FinishNext::End {
                end: Finished::Row(t),
                told: true,
                refresh: true,
            },
            (FinishStage::Noting { was }, FinishEvent::Updated(Ok(_))) => FinishNext::Ask(
                Finish { task_id: self.task_id, stage: FinishStage::Closing { was } },
                FinishAsk::Close(self.task_id),
            ),
            (FinishStage::Closing { was }, FinishEvent::Closed(Ok(t))) => FinishNext::End {
                end: Finished::Row(t),
                told: !matches!(was, TaskState::Closed),
                refresh: true,
            },
            (_, FinishEvent::Updated(Err(e))) => stopped(Cause::Other, e),
            (_, FinishEvent::Closed(Err(e))) => stopped(Cause::Other, e),
            _ => vstd::pervasive::unreached(),
        }
    }
}

/// However a close goes, it ends where its rows can be finished: wherever a row is to
/// change there is one.
pub proof fn a_close_can_be_finished(c: CloseOf, end: CloseEnd)
    requires
        c.ends(end),
    ensures
        end is Seed || end is Unchanged || end is Closed ==> c.row is Some,
{
}

/// A close that herdr did not carry out writes nothing: the row stays as it was, so the
/// command can be repeated.
pub proof fn a_fault_leaves_the_row(
    fault: CloseFault,
    row: Option<Task>,
    task_id: i64,
    machine: Seq<char>,
    limit: Seq<char>,
    now: Timestamp,
    before: Memory,
    after: Memory,
    r: FinishNext,
)
    requires
        Finish::begins(CloseEnd::Fault(fault), row, task_id, machine, limit, now, before, after, r),
    ensures
        r matches FinishNext::End { end: Finished::Problem(_), told: false, .. },
        after == before,
{
}

/// A row that was closed already is not announced again.
pub proof fn a_close_is_told_once(task_id: i64, was: TaskState, closed: Task, r: FinishNext)
    requires
        (Finish { task_id, stage: FinishStage::Closing { was } }).after(
            FinishEvent::Closed(Ok(closed)),
            r,
        ),
    ensures
        r matches FinishNext::End { told, .. } && told == !(was is Closed),
{
}

/// A close that ended well closes the row: auto-close writes it closed, with the time its
/// work finished; a command first writes what the close left on it, if anything, and then
/// has the store close it. The released pane is forgotten.
pub proof fn a_close_that_ended_well_closes_the_row(
    auto: bool,
    clear_workspace: bool,
    note: Option<crate::machine::close::CloseNote>,
    pane: String,
    t: Task,
    task_id: i64,
    machine: Seq<char>,
    limit: Seq<char>,
    now: Timestamp,
    before: Memory,
    after: Memory,
    r: FinishNext,
)
    requires
        Finish::begins(
            CloseEnd::Closed { auto, clear_workspace, note, released: Some(pane) },
            Some(t),
            task_id,
            machine,
            limit,
            now,
            before,
            after,
            r,
        ),
    ensures
        auto ==> (r matches FinishNext::Ask(_, FinishAsk::Update(row)) && row.state is Closed
            && row.id == t.id && row.finished_at == (if t.finished_at is Some {
            t.finished_at
        } else {
            Some(now)
        }) && row.workspace_id == (if clear_workspace {
            None
        } else {
            t.workspace_id
        })),
        !auto && (clear_workspace || note is Some) ==> (r matches FinishNext::Ask(
            _,
            FinishAsk::Update(row),
        ) && row.state == t.state && row.id == t.id && row.workspace_id == (if clear_workspace {
            None
        } else {
            t.workspace_id
        })),
        !auto && !clear_workspace && note is None ==> (r matches FinishNext::Ask(_, ask) && ask
            == FinishAsk::Close(task_id)),
        !after.pending_done@.dom().contains(task_id),
{
}

/// A close that came to nothing writes nothing, tells nothing, and says why.
pub proof fn a_fault_writes_nothing(
    fault: CloseFault,
    row: Option<Task>,
    task_id: i64,
    machine: Seq<char>,
    limit: Seq<char>,
    now: Timestamp,
    before: Memory,
    after: Memory,
    r: FinishNext,
)
    requires
        Finish::begins(
            CloseEnd::Fault(fault),
            row,
            task_id,
            machine,
            limit,
            now,
            before,
            after,
            r,
        ),
    ensures
        r matches FinishNext::End { end, told, refresh } && end is Problem && !told && !refresh,
        after == before,
{
}

} // verus!
