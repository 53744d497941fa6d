//! What a machine's actor does on its own: answer the startup prompts of trusted
//! repositories, and close tasks that have been done for long enough.

use vstd::prelude::*;

use crate::machine::life::Problem;
use crate::machine::memory::Memory;
use crate::machine::observe;
use crate::machine::reconcile;
use crate::machine::status::Agents;
use crate::task::Task;
use crate::text;
use crate::time::Duration;
use crate::time::Timestamp;

verus! {

broadcast use {vstd::std_specs::hash::group_hash_axioms, vstd::set::group_set_axioms};

// ---------------------------------------------------------------------------
// Saved trust

/// A startup prompt that saved trust may answer.
#[derive(Debug)]
pub struct Waiting {
    pub id: i64,
    pub pane: String,
    pub repo: String,
    pub keys: Vec<String>,
}

/// The task waits on its startup prompt in a pane, for a repository, and its agent
/// has trust keys.
pub open spec fn answerable(t: Task, agents: Agents) -> bool {
    &&& observe::at_startup_prompt(t)
    &&& t.pane_id is Some
    &&& t.spec.repo is Some
    &&& agents.keys_of(t.spec.agent@) is Some
}

/// The prompt of that task.
pub open spec fn prompt_of(w: Waiting, t: Task, agents: Agents) -> bool {
    &&& answerable(t, agents)
    &&& w.id == t.id
    &&& Some(w.pane) == t.pane_id
    &&& Some(w.repo) == t.spec.repo
    &&& Some(text::texts(w.keys@)) == agents.keys_of(t.spec.agent@)
}

/// The tasks whose prompt may be answered, in order.
pub open spec fn waiting_rows(rows: Seq<Task>, agents: Agents) -> Seq<Task>
    decreases rows.len(),
{
    if rows.len() == 0 {
        rows
    } else if answerable(rows.last(), agents) {
        waiting_rows(rows.drop_last(), agents).push(rows.last())
    } else {
        waiting_rows(rows.drop_last(), agents)
    }
}

/// The prompts of the tasks that wait, one for each.
pub open spec fn prompts_of(v: Seq<Waiting>, rows: Seq<Task>, agents: Agents) -> bool {
    let waits = waiting_rows(rows, agents);
    v.len() == waits.len() && forall|i: int|
        0 <= i < v.len() ==> prompt_of(#[trigger] v[i], waits[i], agents)
}

fn waiting(rows: &Vec<Task>, agents: &Agents) -> (r: Vec<Waiting>)
    ensures
        prompts_of(r@, rows@, *agents),
{
    let mut r: Vec<Waiting> = Vec::new();
    let mut i: usize = 0;
    assert(waiting_rows(rows@.take(0), *agents) =~= seq![]);
    while i < rows.len()
        invariant
            i <= rows@.len(),
            prompts_of(r@, rows@.take(i as int), *agents),
        decreases rows@.len() - i,
    {
        let t = &rows[i];
        let ghost first = r@;
        proof {
            assert(rows@.take(i + 1).drop_last() =~= rows@.take(i as int));
            assert(rows@.take(i + 1).last() == *t);
        }
        if observe::is_at_startup_prompt(t) {
            if let (Some(pane), Some(repo)) = (&t.pane_id, &t.spec.repo) {
                if let Some(keys) = agents.trust_keys(t.spec.agent.as_str()) {
                    r.push(Waiting { id: t.id, pane: pane.clone(), repo: repo.clone(), keys });
                    assert(prompt_of(r@.last(), *t, *agents));
                    assert(prompts_of(r@, rows@.take(i + 1), *agents)) by {
                        let waits = waiting_rows(rows@.take(i + 1), *agents);
                        assert forall|k: int| 0 <= k < r@.len() implies prompt_of(
                            #[trigger] r@[k],
                            waits[k],
                            *agents,
                        ) by {
                            if k < first.len() {
                                assert(r@[k] == first[k]);
                            }
                        }
                    }
                }
            }
        }
        i = i + 1;
    }
    assert(rows@.take(i as int) =~= rows@);
    r
}

/// What answering trust prompts asks for.
#[derive(Debug)]
pub enum TrustAsk {
    /// The rows of the tasks that hold a pane on the machine.
    Rows,
    /// Whether saved trust answered for the task before, and whether the repository
    /// is trusted on the machine.
    Known { id: i64, repo: String },
    /// `pane.send_keys`.
    Keys { pane: String, keys: Vec<String> },
    /// Record that saved trust answered for the task.
    Claim(i64),
}

/// What came of what was asked.
#[derive(Debug)]
pub enum TrustEvent {
    Rows(Result<Vec<Task>, Problem>),
    Known(Result<(bool, bool), Problem>),
    /// The keys went in, or not.
    Sent(Result<(), Problem>),
    /// The record was made here, or was there already.
    Claimed(Result<bool, Problem>),
}

/// What answering waits for.
#[derive(Debug)]
pub enum TrustStage {
    Rows,
    Known(Waiting),
    Keys { id: i64, keys: Vec<String> },
    Claim { id: i64, keys: Vec<String> },
}

/// Trust prompts being answered.
#[derive(Debug)]
pub struct Trust {
    /// The prompts still to be answered, in order.
    pub rest: Vec<Waiting>,
    pub stage: TrustStage,
}

/// What comes next.
#[derive(Debug)]
pub enum TrustNext {
    /// `trusted` is the task whose `task.trusted` is announced first, and the keys
    /// that were sent.
    Ask { trust: Trust, ask: TrustAsk, trusted: Option<(i64, Vec<String>)> },
    /// It ends, after the same announcement; or broke off.
    End { end: Result<(), Problem>, trusted: Option<(i64, Vec<String>)> },
}

/// The announcement is of that task and those keys, or there is none.
pub open spec fn announces(told: Option<(i64, Vec<String>)>, of: Option<(i64, Seq<Seq<char>>)>) -> bool {
    match (told, of) {
        (Some((id, keys)), Some((i, k))) => id == i && text::texts(keys@) == k,
        (None, None) => true,
        _ => false,
    }
}

impl Trust {
    /// The next prompt's repository is asked about; with none left it ends.
    pub open spec fn goes_on(self, told: Option<(i64, Seq<Seq<char>>)>, r: TrustNext) -> bool {
        if self.rest@.len() == 0 {
            r matches TrustNext::End { end, trusted } && end is Ok && announces(trusted, told)
        } else {
            r matches TrustNext::Ask { trust, ask, trusted } && {
                &&& trust.rest@ == self.rest@.skip(1)
                &&& trust.stage == TrustStage::Known(self.rest@[0])
                &&& ask == (TrustAsk::Known { id: self.rest@[0].id, repo: self.rest@[0].repo })
                &&& announces(trusted, told)
            }
        }
    }

    /// It breaks off.
    pub open spec fn breaks_off(p: Problem) -> TrustNext {
        TrustNext::End { end: Err(p), trusted: None }
    }

    /// Whether the event answers what is waited for.
    pub open spec fn awaits(self, ev: TrustEvent) -> bool {
        match self.stage {
            TrustStage::Rows => ev is Rows,
            TrustStage::Known(_) => ev is Known,
            TrustStage::Keys { .. } => ev is Sent,
            TrustStage::Claim { .. } => ev is Claimed,
        }
    }

    /// What follows an event, and what is remembered afterwards. The keys go in once
    /// per task and only for a trusted repository; the prompt that waits behind them
    /// is held from then.
    pub open spec fn after(
        self,
        ev: TrustEvent,
        agents: Agents,
        before: Memory,
        after: Memory,
        now: Duration,
        r: TrustNext,
    ) -> bool {
        match (self.stage, ev) {
            (TrustStage::Rows, TrustEvent::Rows(Ok(rows))) => reconcile::unchanged(before, after)
                && exists|v: Vec<Waiting>| #[trigger] prompts_of(v@, rows@, agents) && (Trust {
                rest: v,
                ..self
            }).goes_on(None, r),
            (TrustStage::Known(w), TrustEvent::Known(Ok((sent, trusted)))) => {
                &&& reconcile::unchanged(before, after)
                &&& if !sent && trusted {
                    r matches TrustNext::Ask { trust, ask, trusted: told } && {
                        &&& trust.rest == self.rest
                        &&& trust.stage matches TrustStage::Keys { id, keys } && id == w.id
                            && text::texts(keys@) == text::texts(w.keys@)
                        &&& ask == (TrustAsk::Keys { pane: w.pane, keys: w.keys })
                        &&& told is None
                    }
                } else {
                    self.goes_on(None, r)
                }
            },
            (TrustStage::Keys { id, keys }, TrustEvent::Sent(Ok(_))) => {
                &&& after.trust_answered@ == before.trust_answered@.insert(id, now)
                &&& after.pending_done == before.pending_done
                &&& after.idle_agents == before.idle_agents
                &&& after.orphans == before.orphans
                &&& r == (TrustNext::Ask {
                    trust: Trust { stage: TrustStage::Claim { id, keys }, ..self },
                    ask: TrustAsk::Claim(id),
                    trusted: None,
                })
            },
            (TrustStage::Claim { id, keys }, TrustEvent::Claimed(Ok(made))) => {
                &&& reconcile::unchanged(before, after)
                &&& self.goes_on(
                    if made {
                        Some((id, text::texts(keys@)))
                    } else {
                        None
                    },
                    r,
                )
            },
            (_, TrustEvent::Rows(Err(p))) | (_, TrustEvent::Known(Err(p))) | (
                _,
                TrustEvent::Sent(Err(p)),
            ) | (_, TrustEvent::Claimed(Err(p))) => reconcile::unchanged(before, after) && r
                == Trust::breaks_off(p),
            _ => false,
        }
    }

    /// Answering begins with the machine's rows.
    pub fn start() -> (r: (Trust, TrustAsk))
        ensures
            r.0.rest@.len() == 0,
            r.0.stage is Rows,
            r.1 is Rows,
    {
        (Trust { rest: Vec::new(), stage: TrustStage::Rows }, TrustAsk::Rows)
    }

    fn go_on(self, trusted: Option<(i64, Vec<String>)>) -> (r: TrustNext)
        ensures
            forall|told: Option<(i64, Seq<Seq<char>>)>|
                announces(trusted, told) ==> #[trigger] self.goes_on(told, r),
    {
        let mut rest = self.rest;
        if rest.len() == 0 {
            return TrustNext::End { end: Ok(()), trusted };
        }
        let ghost all = rest@;
        let w = rest.remove(0);
        assert(rest@ =~= all.skip(1));
        let ask = TrustAsk::Known { id: w.id, repo: w.repo.clone() };
        TrustNext::Ask { trust: Trust { rest, stage: TrustStage::Known(w) }, ask, trusted }
    }

    /// Take what came of what was asked, and say what comes next. `now` is the time on
    /// a clock that only goes forward.
    pub fn step(self, ev: TrustEvent, agents: &Agents, memory: &mut Memory, now: Duration) -> (r:
        TrustNext)
        requires
            self.awaits(ev),
        ensures
            self.after(ev, *agents, *old(memory), *final(memory), now, r),
    {
        let Trust { rest, stage } = self;
        match (stage, ev) {
            (TrustStage::Rows, TrustEvent::Rows(Ok(rows))) => {
                let v = waiting(&rows, agents);
                assert(prompts_of(v@, rows@, *agents));
                let ghost v0 = v;
                let trust = Trust { rest: v, stage: TrustStage::Rows };
                let ghost t0 = trust;
                let r = trust.go_on(None);
                proof {
                    assert(announces(None, None));
                    assert(t0.goes_on(None, r));
                    assert((Trust { rest: v0, ..self }).goes_on(None, r));
                }
                r
            },
            (TrustStage::Known(w), TrustEvent::Known(Ok((sent, trusted)))) => {
                if !sent && trusted {
                    let keys = text::copy_texts(&w.keys);
                    TrustNext::Ask {
                        trust: Trust { rest, stage: TrustStage::Keys { id: w.id, keys } },
                        ask: TrustAsk::Keys { pane: w.pane, keys: w.keys },
                        trusted: None,
                    }
                } else {
                    let trust = Trust { rest, stage: TrustStage::Rows };
                    let ghost t0 = trust;
                    let r = trust.go_on(None);
                    proof {
                        assert(announces(None, None));
                        assert(t0.goes_on(None, r));
                        assert(self.goes_on(None, r));
                    }
                    r
                }
            },
            (TrustStage::Keys { id, keys }, TrustEvent::Sent(Ok(_))) => {
                memory.answered_trust(id, now);
                TrustNext::Ask {
                    trust: Trust { rest, stage: TrustStage::Claim { id, keys } },
                    ask: TrustAsk::Claim(id),
                    trusted: None,
                }
            },
            (TrustStage::Claim { id, keys }, TrustEvent::Claimed(Ok(made))) => {
                let ghost told: Option<(i64, Seq<Seq<char>>)> = if made {
                    Some((id, text::texts(keys@)))
                } else {
                    None
                };
                let trusted = if made {
                    Some((id, keys))
                } else {
                    None
                };
                let trust = Trust { rest, stage: TrustStage::Rows };
                let ghost t0 = trust;
                assert(announces(trusted, told));
                let r = trust.go_on(trusted);
                proof {
                    assert(t0.goes_on(told, r));
                    assert(self.goes_on(told, r));
                }
                r
            },
            (_, TrustEvent::Rows(Err(p))) => TrustNext::End { end: Err(p), trusted: None },
            (_, TrustEvent::Known(Err(p))) => TrustNext::End { end: Err(p), trusted: None },
            (_, TrustEvent::Sent(Err(p))) => TrustNext::End { end: Err(p), trusted: None },
            (_, TrustEvent::Claimed(Err(p))) => TrustNext::End { end: Err(p), trusted: None },
            _ => vstd::pervasive::unreached(),
        }
    }
}

/// Keys go into a pane on their own only for a trusted repository and only if they
/// did not go in before.
pub proof fn saved_trust_answers_once(
    trust: Trust,
    ev: TrustEvent,
    agents: Agents,
    before: Memory,
    after: Memory,
    now: Duration,
    then: Trust,
    pane: String,
    keys: Vec<String>,
    trusted: Option<(i64, Vec<String>)>,
)
    requires
        trust.awaits(ev),
        trust.after(
            ev,
            agents,
            before,
            after,
            now,
            TrustNext::Ask { trust: then, ask: TrustAsk::Keys { pane, keys }, trusted },
        ),
    ensures
        ev == TrustEvent::Known(Ok((false, true))),
        trust.stage matches TrustStage::Known(w) && w.pane == pane && w.keys == keys,
{
}

// ---------------------------------------------------------------------------
// Closing done tasks

/// A task to close on its own, and whether its worktree goes with it.
#[derive(Debug, Clone, Copy, PartialEq, Eq, Structural)]
pub struct Closing {
    pub id: i64,
    pub remove_worktree: bool,
}

/// The tasks done for long enough, in order.
pub open spec fn closings(rows: Seq<Task>, now: Timestamp, after: Duration) -> Seq<Closing>
    decreases rows.len(),
{
    if rows.len() == 0 {
        seq![]
    } else if observe::auto_close_due(rows.last(), now, after) {
        closings(rows.drop_last(), now, after).push(
            Closing { id: rows.last().id, remove_worktree: rows.last().spec.worktree },
        )
    } else {
        closings(rows.drop_last(), now, after)
    }
}

/// The times of the rows are times of the calendar.
pub open spec fn dated(rows: Seq<Task>) -> bool {
    forall|i: int|
        0 <= i < rows.len() ==> (#[trigger] rows[i]).updated_at.valid() && (rows[i].finished_at matches Some(
            at,
        ) ==> at.valid())
}

/// The tasks to close on their own: none where auto-close is off.
pub fn to_close(rows: &Vec<Task>, now: Timestamp, after: Option<Duration>) -> (r: Vec<Closing>)
    requires
        now.valid(),
        dated(rows@),
    ensures
        r@ == match after {
            Some(d) => closings(rows@, now, d),
            None => seq![],
        },
{
    let mut r: Vec<Closing> = Vec::new();
    let after = match after {
        Some(d) => d,
        None => {
            assert(r@ =~= seq![]);
            return r;
        },
    };
    let mut i: usize = 0;
    assert(r@ =~= closings(rows@.take(0), now, after));
    while i < rows.len()
        invariant
            i <= rows@.len(),
            now.valid(),
            dated(rows@),
            r@ == closings(rows@.take(i as int), now, after),
        decreases rows@.len() - i,
    {
        proof {
            assert(rows@.take(i + 1).drop_last() =~= rows@.take(i as int));
            assert(rows@.take(i + 1).last() == rows@[i as int]);
        }
        if observe::auto_close_done(&rows[i], now, after) {
            r.push(Closing { id: rows[i].id, remove_worktree: rows[i].spec.worktree });
        }
        i = i + 1;
    }
    assert(rows@.take(i as int) =~= rows@);
    r
}

/// What comes next in closing tasks on their own.
#[derive(Debug)]
pub enum ChoreNext {
    /// Close the task, if it is still settled; the others follow.
    Close(Closing, Vec<Closing>),
    /// It ends, or broke off because the machine is lost.
    End(Result<(), Problem>),
}

/// The next task is closed; with none left it ends.
pub open spec fn closes_next(rest: Seq<Closing>, r: ChoreNext) -> bool {
    if rest.len() == 0 {
        r == ChoreNext::End(Ok(()))
    } else {
        r matches ChoreNext::Close(c, others) && c == rest[0] && others@ == rest.skip(1)
    }
}

/// Which task is closed next, when one was closed or was not. Whatever kept one task
/// from closing is tried again at the next reconcile; only a machine that is lost
/// ends the pass, for the reason in `lost`.
pub fn close_next(rest: Vec<Closing>, lost: Option<Problem>) -> (r: ChoreNext)
    ensures
        match lost {
            Some(p) => r == ChoreNext::End(Err(p)),
            None => closes_next(rest@, r),
        },
{
    if let Some(p) = lost {
        return ChoreNext::End(Err(p));
    }
    let mut rest = rest;
    if rest.len() == 0 {
        return ChoreNext::End(Ok(()));
    }
    let ghost all = rest@;
    let c = rest.remove(0);
    assert(rest@ =~= all.skip(1));
    ChoreNext::Close(c, rest)
}

/// Only done tasks close on their own, each after its grace.
pub proof fn only_done_tasks_close_on_their_own(rows: Seq<Task>, now: Timestamp, after: Duration, i: int)
    requires
        0 <= i < closings(rows, now, after).len(),
    ensures
        exists|k: int|
            0 <= k < rows.len() && (#[trigger] rows[k]).state is Done && observe::auto_close_due(
                rows[k],
                now,
                after,
            ) && closings(rows, now, after)[i].id == rows[k].id,
    decreases rows.len(),
{
    let first = closings(rows.drop_last(), now, after);
    if i < first.len() {
        only_done_tasks_close_on_their_own(rows.drop_last(), now, after, i);
        let k = choose|k: int|
            0 <= k < rows.drop_last().len() && (#[trigger] rows.drop_last()[k]).state is Done
                && observe::auto_close_due(rows.drop_last()[k], now, after) && first[i].id
                == rows.drop_last()[k].id;
        assert(rows[k] == rows.drop_last()[k]);
    } else {
        assert(rows[rows.len() - 1] == rows.last());
    }
}

/// The tasks that close on their own are those done for the time of grace: every one of
/// them, each with its worktree if it has one, and none where auto-close is off.
pub proof fn every_task_done_for_long_enough_closes(
    rows: &Vec<Task>,
    now: Timestamp,
    after: Option<Duration>,
    r: Vec<Closing>,
    k: int,
)
    requires
        call_ensures(to_close, (rows, now, after), r),
        0 <= k < rows@.len(),
    ensures
        after is None ==> r@.len() == 0,
        after is Some && after->0.nanos <= crate::time::MAX_DELTA_NANOS && rows@[k].state is Done
            && now.nanos - (if rows@[k].finished_at is Some {
            rows@[k].finished_at->0.nanos
        } else {
            rows@[k].updated_at.nanos
        }) >= after->0.nanos ==> r@.contains(
            Closing { id: rows@[k].id, remove_worktree: rows@[k].spec.worktree },
        ),
{
    if let Some(d) = after {
        if observe::auto_close_due(rows@[k], now, d) {
            lemma_closes(rows@, now, d, k);
        }
    }
}

proof fn lemma_closes(rows: Seq<Task>, now: Timestamp, after: Duration, k: int)
    requires
        0 <= k < rows.len(),
        observe::auto_close_due(rows[k], now, after),
    ensures
        closings(rows, now, after).contains(
            Closing { id: rows[k].id, remove_worktree: rows[k].spec.worktree },
        ),
    decreases rows.len(),
{
    let c = Closing { id: rows[k].id, remove_worktree: rows[k].spec.worktree };
    let all = closings(rows, now, after);
    if k < rows.len() - 1 {
        let rest = rows.drop_last();
        assert(rest[k] == rows[k]);
        lemma_closes(rest, now, after, k);
        let first = closings(rest, now, after);
        let i = choose|i: int| 0 <= i < first.len() && first[i] == c;
        assert(all[i] == c);
    } else {
        assert(all[all.len() - 1] == c);
    }
}

/// The tasks to close are closed one after the other, in order; a lost machine ends the
/// pass.
pub proof fn tasks_close_in_turn(rest: Vec<Closing>, lost: Option<Problem>, r: ChoreNext)
    requires
        call_ensures(close_next, (rest, lost), r),
    ensures
        lost is Some ==> r == ChoreNext::End(Err(lost->0)),
        lost is None && rest@.len() == 0 ==> r == ChoreNext::End(Ok(())),
        lost is None && rest@.len() > 0 ==> (r matches ChoreNext::Close(c, others) && c == rest@[0]
            && others@ == rest@.subrange(1, rest@.len() as int)),
{
    if lost is None && rest@.len() > 0 {
        assert(rest@.skip(1) =~= rest@.subrange(1, rest@.len() as int));
    }
}

/// The prompts that may be answered are those of blocked tasks whose own prompt is
/// pending, that have a pane and a repository, and whose agent has trust keys.
pub proof fn a_startup_prompt_may_be_answered(rows: Seq<Task>, agents: Agents, k: int)
    requires
        0 <= k < rows.len(),
        rows[k].state is Blocked,
        rows[k].prompt_pending,
        rows[k].pane_id is Some,
        rows[k].spec.repo is Some,
        agents.keys_of(rows[k].spec.agent@) is Some,
    ensures
        waiting_rows(rows, agents).contains(rows[k]),
    decreases rows.len(),
{
    let all = waiting_rows(rows, agents);
    if k < rows.len() - 1 {
        let rest = rows.drop_last();
        assert(rest[k] == rows[k]);
        a_startup_prompt_may_be_answered(rest, agents, k);
        let first = waiting_rows(rest, agents);
        let i = choose|i: int| 0 <= i < first.len() && first[i] == rows[k];
        assert(all[i] == rows[k]);
    } else {
        assert(all[all.len() - 1] == rows[k]);
    }
}

/// No other task's prompt is answered.
pub proof fn only_startup_prompts_are_answered(rows: Seq<Task>, agents: Agents, i: int)
    requires
        0 <= i < waiting_rows(rows, agents).len(),
    ensures
        ({
            let t = waiting_rows(rows, agents)[i];
            &&& rows.contains(t)
            &&& t.state is Blocked
            &&& t.prompt_pending
            &&& t.pane_id is Some
            &&& t.spec.repo is Some
            &&& agents.keys_of(t.spec.agent@) is Some
        }),
    decreases rows.len(),
{
    let rest = rows.drop_last();
    let first = waiting_rows(rest, agents);
    if i < first.len() {
        only_startup_prompts_are_answered(rest, agents, i);
        let k = choose|k: int| 0 <= k < rest.len() && rest[k] == first[i];
        assert(rows[k] == first[i]);
    } else {
        assert(rows[rows.len() - 1] == rows.last());
    }
}

/// The keys of a trusted repository go into the task's own pane, the task is held from
/// then, and once that is recorded here it is announced; what was sent before, and what
/// is not trusted, is passed over.
pub proof fn a_trusted_prompt_is_answered_and_held(
    trust: Trust,
    w: Waiting,
    sent: bool,
    trusted: bool,
    agents: Agents,
    before: Memory,
    after: Memory,
    now: Duration,
    r: TrustNext,
)
    requires
        trust.stage == TrustStage::Known(w),
        trust.after(TrustEvent::Known(Ok((sent, trusted))), agents, before, after, now, r),
    ensures
        !sent && trusted ==> (r matches TrustNext::Ask {
            trust: then,
            ask: TrustAsk::Keys { pane, keys },
            trusted: told,
        } && pane == w.pane && keys == w.keys && told is None && then.rest == trust.rest),
        (sent || !trusted) && trust.rest@.len() == 0 ==> (r matches TrustNext::End { end, trusted: told }
            && end is Ok && told is None),
        (sent || !trusted) && trust.rest@.len() > 0 ==> (r matches TrustNext::Ask {
            trust: then,
            ask: TrustAsk::Known { id, repo },
            trusted: told,
        } && id == trust.rest@[0].id && repo == trust.rest@[0].repo && told is None
            && then.rest@.len() + 1 == trust.rest@.len()),
{
}

/// The announcement of an answered prompt follows the record of it, and only where the
/// record was made here; the hold starts when the keys went in.
pub proof fn an_answer_is_held_then_told(
    trust: Trust,
    id: i64,
    keys: Vec<String>,
    made: bool,
    agents: Agents,
    before: Memory,
    held: Memory,
    after: Memory,
    now: Duration,
    claim: TrustNext,
    r: TrustNext,
)
    requires
        (Trust { stage: TrustStage::Keys { id, keys }, ..trust }).after(
            TrustEvent::Sent(Ok(())),
            agents,
            before,
            held,
            now,
            claim,
        ),
        (Trust { stage: TrustStage::Claim { id, keys }, ..trust }).after(
            TrustEvent::Claimed(Ok(made)),
            agents,
            held,
            after,
            now,
            r,
        ),
    ensures
        held.trust_answered@.dom().contains(id) && held.trust_answered@[id] == now,
        claim matches TrustNext::Ask { ask, trusted, .. } && ask == TrustAsk::Claim(id)
            && trusted is None,
        ({
            let told = match r {
                TrustNext::Ask { trusted, .. } => trusted,
                TrustNext::End { trusted, .. } => trusted,
            };
            &&& told is Some <==> made
            &&& told matches Some((i, _)) ==> i == id
        }),
{
}

} // verus!
