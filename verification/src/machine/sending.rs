//! Typing into a task's pane, from the command to what follows it: the row, the input,
//! and the rows that change by it.

use vstd::prelude::*;
use vstd::string::*;

use crate::json;
use crate::machine::calls::Reply;
use crate::machine::memory::Memory;
use crate::machine::rows;
use crate::machine::rows::WriteAsk;
use crate::machine::rows::WriteEnd;
use crate::machine::rows::WriteEvent;
use crate::machine::rows::WriteNext;
use crate::machine::rows::WriteTry;
use crate::machine::prompt;
use crate::machine::send;
use crate::machine::send::AfterSend;
use crate::machine::send::SendInput;
use crate::machine::send::SendPlan;
use crate::machine::send::SendRefused;
use crate::machine::status::Agents;
use crate::task;
use crate::task::Task;
use crate::task::TaskState;
use crate::time::Duration;

verus! {

/// What the send needs done.
#[derive(Debug)]
pub enum SendAsk {
    /// Read the task's row.
    Row(i64),
    /// Type the text, if there is one, then press the keys.
    Input { pane: String, text: Option<String>, keys: Vec<String> },
    Store(WriteAsk),
    /// Record that the task's trust prompt is answered.
    Claim(i64),
    /// Save the repository as trusted on this machine.
    TrustRepo(String),
}

/// What came of it.
#[derive(Debug)]
pub enum SendEvent {
    Row(Result<Option<Task>, String>),
    Typed(Reply<()>),
    Stored(WriteEvent),
    Claimed(Result<bool, String>),
    Saved(Result<(), String>),
}

/// Where a send stands.
#[derive(Debug)]
pub enum SendStage {
    Row,
    /// Typing; `detail` is what is recorded of it.
    Typing { row: Task, detail: serde_json::Value },
    /// Writing that the done task runs again.
    Reopening { id: i64, attempt: WriteTry },
    /// Reading the row that moved on meanwhile.
    Rereading { id: i64 },
    Claiming(Task),
    Saving(Task),
}

/// A send on its way.
#[derive(Debug)]
pub struct Sending {
    pub task_id: i64,
    pub input: SendInput,
    pub stage: SendStage,
}

/// An event to tell.
#[derive(Debug)]
pub enum Tell {
    /// `task.input`, with its record.
    Input { id: i64, detail: serde_json::Value },
    /// `task.running`; the live agents are to be counted again.
    Running(i64),
}

/// How a send ends.
#[derive(Debug)]
pub enum SendEnd {
    /// The row as it was sent to, or as it runs again.
    Sent(Task),
    Refused(SendRefused),
    Failed(String),
}

/// What comes next. `tell` comes first.
#[derive(Debug)]
pub enum SendNext {
    Ask { sending: Sending, ask: SendAsk, tell: Option<Tell> },
    /// `dead`: the machine looks lost.
    End { end: SendEnd, dead: bool, tell: Option<Tell> },
}

/// The send failed, for this reason.
pub open spec fn fails(r: SendNext, message: Seq<char>, dead: bool) -> bool {
    r matches SendNext::End { end: SendEnd::Failed(m), dead: d, tell } && m@ == message && d == dead
        && tell is None
}

/// The send is done: this is the row.
pub open spec fn done(t: Task) -> SendNext {
    SendNext::End { end: SendEnd::Sent(t), dead: false, tell: None }
}

impl Sending {
    /// The answer is one to what was asked.
    pub open spec fn awaits(self, ev: SendEvent) -> bool {
        match self.stage {
            SendStage::Row => ev is Row,
            SendStage::Typing { .. } => ev is Typed,
            SendStage::Reopening { attempt, .. } => ev matches SendEvent::Stored(e)
                && rows::write_awaits(attempt, e),
            SendStage::Rereading { .. } => ev is Row,
            SendStage::Claiming(_) => ev is Claimed,
            SendStage::Saving(_) => ev is Saved,
        }
    }

    /// The send, further on.
    pub open spec fn at(self, stage: SendStage) -> Sending {
        Sending { stage, ..self }
    }

    /// Begin with the row.
    pub fn start(task_id: i64, input: SendInput) -> (r: (Sending, SendAsk))
        ensures
            r.0 == (Sending { task_id, input, stage: SendStage::Row }),
            r.1 == SendAsk::Row(task_id),
    {
        (Sending { task_id, input, stage: SendStage::Row }, SendAsk::Row(task_id))
    }

    /// The row is there: the send is refused, or the input goes in.
    pub open spec fn on_row(
        self,
        row: Result<Option<Task>, String>,
        machine: Seq<char>,
        agents: Agents,
        r: SendNext,
    ) -> bool {
        match row {
            Err(e) => fails(r, e@, false),
            Ok(row) => match send::send_refusal(
                row,
                self.task_id as int,
                machine,
                self.input,
                agents,
            ) {
                Some((code, message)) => r matches SendNext::End {
                    end: SendEnd::Refused(refused),
                    dead,
                    tell,
                } && send::refuses(refused, code, message) && !dead && tell is None,
                None => r matches SendNext::Ask {
                    sending,
                    ask: SendAsk::Input { pane, text, keys },
                    tell,
                } && {
                    &&& tell is None
                    &&& sending.stage matches SendStage::Typing { row: t, detail } && {
                        &&& row == Some(t)
                        &&& sending == self.at(SendStage::Typing { row: t, detail })
                        &&& send::sends(
                            t,
                            machine,
                            self.input,
                            agents,
                            SendPlan { pane, text, keys, detail },
                        )
                    }
                },
            },
        }
    }

    /// herdr took the input, or did not.
    pub open spec fn on_typed(
        self,
        row: Task,
        detail: serde_json::Value,
        reply: Reply<()>,
        limit: Seq<char>,
        now: Duration,
        before: Memory,
        after: Memory,
        r: SendNext,
    ) -> bool {
        let tell = Some(Tell::Input { id: row.id, detail });
        match reply {
            Reply::Failed(f) => after == before && fails(r, f.message@, f.transport),
            Reply::TimedOut => after == before && fails(
                r,
                "pane input timed out after "@ + limit,
                true,
            ),
            Reply::Answer(_) => if row.state is Done {
                &&& after == before
                &&& r == (SendNext::Ask {
                    sending: self.at(
                        SendStage::Reopening { id: row.id, attempt: WriteTry::First },
                    ),
                    ask: SendAsk::Store(
                        WriteAsk::Update(
                            Task { state: TaskState::Running, finished_at: None, ..row },
                        ),
                    ),
                    tell,
                })
            } else if self.input.trust {
                &&& after.trust_answered@ == before.trust_answered@.insert(row.id, now)
                &&& after.pending_done == before.pending_done
                &&& after.idle_agents == before.idle_agents
                &&& after.orphans == before.orphans
                &&& r == (SendNext::Ask {
                    sending: self.at(SendStage::Claiming(row)),
                    ask: SendAsk::Claim(row.id),
                    tell,
                })
            } else {
                &&& after == before
                &&& r == (SendNext::End { end: SendEnd::Sent(row), dead: false, tell })
            },
        }
    }

    /// The store took a step in writing that the task runs again.
    pub open spec fn on_stored(self, id: i64, attempt: WriteTry, ev: WriteEvent, r: SendNext) -> bool {
        let ask = |attempt: WriteTry, ask: WriteAsk| SendNext::Ask {
            sending: self.at(SendStage::Reopening { id, attempt }),
            ask: SendAsk::Store(ask),
            tell: None,
        };
        let look = SendNext::Ask {
            sending: self.at(SendStage::Rereading { id }),
            ask: SendAsk::Row(id),
            tell: None,
        };
        match ev {
            WriteEvent::Updated(t) => r == (SendNext::End {
                end: SendEnd::Sent(t),
                dead: false,
                tell: Some(Tell::Running(t.id)),
            }),
            WriteEvent::Failed(e) => fails(r, e@, false),
            WriteEvent::Conflict => if attempt is First {
                r == ask(WriteTry::Reading, WriteAsk::Reread(id))
            } else {
                fails(r, prompt::changed_text(id as int), false)
            },
            WriteEvent::Row(None) => r == look,
            WriteEvent::Row(Some(t)) => if t.state is Done {
                r == ask(
                    WriteTry::Second,
                    WriteAsk::Update(Task { state: TaskState::Running, finished_at: None, ..t }),
                )
            } else {
                r == look
            },
        }
    }

    /// What an answer leads to.
    pub open spec fn after(
        self,
        ev: SendEvent,
        machine: Seq<char>,
        limit: Seq<char>,
        agents: Agents,
        now: Duration,
        before: Memory,
        after: Memory,
        r: SendNext,
    ) -> bool {
        match (self.stage, ev) {
            (SendStage::Row, SendEvent::Row(row)) => after == before && self.on_row(
                row,
                machine,
                agents,
                r,
            ),
            (SendStage::Typing { row, detail }, SendEvent::Typed(reply)) => self.on_typed(
                row,
                detail,
                reply,
                limit,
                now,
                before,
                after,
                r,
            ),
            (SendStage::Reopening { id, attempt }, SendEvent::Stored(e)) => after == before
                && self.on_stored(id, attempt, e, r),
            (SendStage::Rereading { id }, SendEvent::Row(row)) => after == before && match row {
                Ok(Some(t)) => r == done(t),
                Ok(None) => fails(r, task::task_name(id as int) + " not found"@, false),
                Err(e) => fails(r, e@, false),
            },
            (SendStage::Claiming(row), SendEvent::Claimed(claim)) => after == before && match claim {
                Err(e) => fails(r, e@, false),
                Ok(_) => match row.spec.repo {
                    None => r == done(row),
                    Some(repo) => r == (SendNext::Ask {
                        sending: self.at(SendStage::Saving(row)),
                        ask: SendAsk::TrustRepo(repo),
                        tell: None,
                    }),
                },
            },
            (SendStage::Saving(row), SendEvent::Saved(saved)) => after == before && match saved {
                Err(e) => fails(r, e@, false),
                Ok(_) => r == done(row),
            },
            _ => true,
        }
    }

    fn move_to(self, stage: SendStage, ask: SendAsk, tell: Option<Tell>) -> (r: SendNext)
        ensures
            r == (SendNext::Ask { sending: self.at(stage), ask, tell }),
    {
        SendNext::Ask { sending: Sending { stage, ..self }, ask, tell }
    }

    fn written(self, id: i64, next: WriteNext) -> (r: SendNext)
        ensures
            match next {
                WriteNext::Ask(attempt, ask) => r == (SendNext::Ask {
                    sending: self.at(SendStage::Reopening { id, attempt }),
                    ask: SendAsk::Store(ask),
                    tell: None,
                }),
                WriteNext::End(WriteEnd::Written(t)) => r == (SendNext::End {
                    end: SendEnd::Sent(t),
                    dead: false,
                    tell: Some(Tell::Running(t.id)),
                }),
                WriteNext::End(WriteEnd::Nothing) => r == (SendNext::Ask {
                    sending: self.at(SendStage::Rereading { id }),
                    ask: SendAsk::Row(id),
                    tell: None,
                }),
                WriteNext::End(WriteEnd::Conflict) => fails(
                    r,
                    prompt::changed_text(id as int),
                    false,
                ),
                WriteNext::End(WriteEnd::Failed(e)) => fails(r, e@, false),
            },
    {
        match next {
            WriteNext::Ask(attempt, ask) => self.move_to(
                SendStage::Reopening { id, attempt },
                SendAsk::Store(ask),
                None,
            ),
            WriteNext::End(WriteEnd::Written(t)) => {
                let tell = Some(Tell::Running(t.id));
                SendNext::End { end: SendEnd::Sent(t), dead: false, tell }
            },
            WriteNext::End(WriteEnd::Nothing) => self.move_to(
                SendStage::Rereading { id },
                SendAsk::Row(id),
                None,
            ),
            WriteNext::End(WriteEnd::Conflict) => {
                let mut said = Task::agent_name_for(id);
                said.append(" was changed by someone else");
                failed(said, false)
            },
            WriteNext::End(WriteEnd::Failed(e)) => failed(e, false),
        }
    }

    /// Take an answer and say what comes next. `limit` is the time a request may take.
    pub fn step(
        self,
        ev: SendEvent,
        machine: &str,
        limit: &str,
        agents: &Agents,
        now: Duration,
        memory: &mut Memory,
    ) -> (r: SendNext)
        requires
            self.awaits(ev),
        ensures
            self.after(ev, machine@, limit@, *agents, now, *old(memory), *final(memory), r),
    {
        let Sending { task_id, input, stage } = self;
        match (stage, ev) {
            (SendStage::Row, SendEvent::Row(row)) => {
                let row = match row {
                    Ok(row) => row,
                    Err(e) => {
                        return failed(e, false);
                    },
                };
                let plan = match send::run_send(&row, task_id, machine, &input, agents) {
                    Ok(plan) => plan,
                    Err(refused) => {
                        return SendNext::End { end: SendEnd::Refused(refused), dead: false, tell: None };
                    },
                };
                let row = match row {
                    Some(t) => t,
                    None => vstd::pervasive::unreached(),
                };
                let SendPlan { pane, text, keys, detail } = plan;
                let ask = SendAsk::Input { pane, text, keys };
                let stage = SendStage::Typing { row, detail };
                SendNext::Ask { sending: Sending { task_id, input, stage }, ask, tell: None }
            },
            (SendStage::Typing { row, detail }, SendEvent::Typed(reply)) => {
                match reply {
                    Reply::Failed(f) => {
                        return failed(f.message, f.transport);
                    },
                    Reply::TimedOut => {
                        let mut said = "pane input timed out after ".to_owned();
                        said.append(limit);
                        return failed(said, true);
                    },
                    Reply::Answer(_) => {},
                }
                let id = row.id;
                let tell = Some(Tell::Input { id, detail });
                match send::after_send(&row, input.trust) {
                    AfterSend::Reopen => {
                        let next = rows::write_task(row, &rows::reopen);
                        match next {
                            WriteNext::Ask(attempt, ask) => {
                                let stage = SendStage::Reopening { id, attempt };
                                let sending = Sending { task_id, input, stage };
                                SendNext::Ask { sending, ask: SendAsk::Store(ask), tell }
                            },
                            WriteNext::End(_) => vstd::pervasive::unreached(),
                        }
                    },
                    AfterSend::Trusted { .. } => {
                        memory.answered_trust(id, now);
                        let stage = SendStage::Claiming(row);
                        let sending = Sending { task_id, input, stage };
                        SendNext::Ask { sending, ask: SendAsk::Claim(id), tell }
                    },
                    AfterSend::Nothing => SendNext::End {
                        end: SendEnd::Sent(row),
                        dead: false,
                        tell,
                    },
                }
            },
            (SendStage::Reopening { id, attempt }, SendEvent::Stored(e)) => {
                let next = rows::write_step(id, attempt, e, &rows::reopen);
                let stage = SendStage::Rereading { id };
                Sending { task_id, input, stage }.written(id, next)
            },
            (SendStage::Rereading { id }, SendEvent::Row(row)) => match row {
                Ok(Some(t)) => SendNext::End { end: SendEnd::Sent(t), dead: false, tell: None },
                Ok(None) => {
                    let mut said = Task::agent_name_for(id);
                    said.append(" not found");
                    failed(said, false)
                },
                Err(e) => failed(e, false),
            },
            (SendStage::Claiming(row), SendEvent::Claimed(claim)) => match claim {
                Err(e) => failed(e, false),
                Ok(_) => match row.spec.repo.clone() {
                    None => SendNext::End { end: SendEnd::Sent(row), dead: false, tell: None },
                    Some(repo) => {
                        let stage = SendStage::Saving(row);
                        let sending = Sending { task_id, input, stage };
                        SendNext::Ask { sending, ask: SendAsk::TrustRepo(repo), tell: None }
                    },
                },
            },
            (SendStage::Saving(row), SendEvent::Saved(saved)) => match saved {
                Err(e) => failed(e, false),
                Ok(_) => SendNext::End { end: SendEnd::Sent(row), dead: false, tell: None },
            },
            _ => vstd::pervasive::unreached(),
        }
    }
}

fn failed(message: String, dead: bool) -> (r: SendNext)
    ensures
        fails(r, message@, dead),
{
    SendNext::End { end: SendEnd::Failed(message), dead, tell: None }
}

/// Nothing is typed for a task that takes no input: whatever a send has typed went into
/// the recorded pane of a live task on its machine, and `--trust` keys only into one
/// that waits on its startup prompt.
pub proof fn input_goes_only_to_a_live_task(
    s: Sending,
    row: Result<Option<Task>, String>,
    machine: Seq<char>,
    agents: Agents,
    r: SendNext,
)
    requires
        s.on_row(row, machine, agents, r),
        r is Ask,
    ensures
        row matches Ok(Some(t)) && r->ask matches SendAsk::Input { pane, .. } && t.on(machine)
            && t.pane_id == Some(pane) && (s.input.trust ==> t.state is Blocked && t.prompt_pending),
{
}

/// What is told of an input never holds its text: only how long it was, and the keys.
pub proof fn a_told_input_hides_its_text(
    s: Sending,
    row: Result<Option<Task>, String>,
    machine: Seq<char>,
    agents: Agents,
    r: SendNext,
)
    requires
        s.on_row(row, machine, agents, r),
        r is Ask,
        !s.input.trust,
    ensures
        r->sending.stage matches SendStage::Typing { detail, .. } && json::json_value(detail)
            == send::recorded(send::text_len(s.input.text), s.input.pressed()),
{
}

/// What a send leads to once herdr took the input: a done task runs again, an answered
/// trust prompt is held and recorded, and any other send is over. An input that was not
/// taken changes nothing, and the machine is gone if the failure lies below herdr or no
/// answer came.
pub proof fn what_a_taken_input_leads_to(
    sending: Sending,
    row: Task,
    detail: serde_json::Value,
    f: crate::machine::calls::Failure,
    machine: Seq<char>,
    limit: Seq<char>,
    agents: Agents,
    now: Duration,
    before: Memory,
    after: Memory,
    taken: SendNext,
    refused: SendNext,
    late: SendNext,
)
    requires
        sending.stage == (SendStage::Typing { row, detail }),
        sending.after(SendEvent::Typed(Reply::Answer(())), machine, limit, agents, now, before, after, taken),
        sending.after(SendEvent::Typed(Reply::Failed(f)), machine, limit, agents, now, before, before, refused),
        sending.after(SendEvent::Typed(Reply::TimedOut), machine, limit, agents, now, before, before, late),
    ensures
        row.state is Done ==> (taken matches SendNext::Ask {
            ask: SendAsk::Store(WriteAsk::Update(t)),
            ..
        } && t.state is Running && t.finished_at is None && t.id == row.id && t.last_completion_seq
            == row.last_completion_seq),
        !(row.state is Done) && sending.input.trust ==> (taken matches SendNext::Ask { ask, .. } && ask
            == SendAsk::Claim(row.id)) && after.trust_answered@.dom().contains(row.id)
            && after.trust_answered@[row.id] == now,
        !(row.state is Done) && !sending.input.trust ==> (taken matches SendNext::End {
            end,
            dead,
            tell,
        } && end == SendEnd::Sent(row) && !dead && tell is Some),
        refused matches SendNext::End { end: SendEnd::Failed(m), dead, tell } && m@ == f.message@ && dead
            == f.transport && tell is None,
        late matches SendNext::End { end: SendEnd::Failed(_), dead, tell } && dead && tell is None,
{
}

/// A done task that was sent something is written as running, against the row as it then
/// is: where the row moved on it is read again, and only one that is still done is written
/// a second time, and no third. Any other is answered as it stands.
pub proof fn a_reopened_row_is_written_twice_at_most(
    sending: Sending,
    id: i64,
    attempt: WriteTry,
    row: Task,
    machine: Seq<char>,
    limit: Seq<char>,
    agents: Agents,
    now: Duration,
    before: Memory,
    written: SendNext,
    conflict: SendNext,
    reread: SendNext,
    gone: SendNext,
)
    requires
        sending.stage == (SendStage::Reopening { id, attempt }),
        sending.after(SendEvent::Stored(WriteEvent::Updated(row)), machine, limit, agents, now, before, before, written),
        sending.after(SendEvent::Stored(WriteEvent::Conflict), machine, limit, agents, now, before, before, conflict),
        sending.after(SendEvent::Stored(WriteEvent::Row(Some(row))), machine, limit, agents, now, before, before, reread),
        sending.after(SendEvent::Stored(WriteEvent::Row(None)), machine, limit, agents, now, before, before, gone),
    ensures
        written matches SendNext::End { end, dead, tell } && end == SendEnd::Sent(row) && !dead && tell
            == Some(Tell::Running(row.id)),
        attempt is First ==> (conflict matches SendNext::Ask { ask, .. } && ask == SendAsk::Store(
            WriteAsk::Reread(id),
        )),
        !(attempt is First) ==> (conflict matches SendNext::End { end, dead, .. } && end is Failed && !dead),
        row.state is Done ==> (reread matches SendNext::Ask {
            sending: s,
            ask: SendAsk::Store(WriteAsk::Update(t)),
            ..
        } && t.state is Running && t.finished_at is None && t.id == row.id && s.stage
            == (SendStage::Reopening { id, attempt: WriteTry::Second })),
        !(row.state is Done) ==> (reread matches SendNext::Ask { ask, .. } && ask == SendAsk::Row(id)),
        gone matches SendNext::Ask { ask, .. } && ask == SendAsk::Row(id),
{
}

/// An answered trust prompt is claimed, and then its repository is saved as trusted, where
/// the task has one; the answer is the row.
pub proof fn an_answered_trust_prompt_saves_its_repository(
    sending: Sending,
    row: Task,
    claimed: bool,
    machine: Seq<char>,
    limit: Seq<char>,
    agents: Agents,
    now: Duration,
    before: Memory,
    r: SendNext,
)
    requires
        sending.stage == SendStage::Claiming(row),
        sending.after(SendEvent::Claimed(Ok(claimed)), machine, limit, agents, now, before, before, r),
    ensures
        row.spec.repo is None ==> (r matches SendNext::End { end, dead, .. } && end == SendEnd::Sent(row)
            && !dead),
        row.spec.repo matches Some(repo) ==> (r matches SendNext::Ask { sending: s, ask, .. } && ask
            == SendAsk::TrustRepo(repo) && s.stage == SendStage::Saving(row)),
{
}

} // verus!
