//! What a machine's actor remembers between one look at its agents and the
//! next.

use std::collections::HashMap;
use std::collections::HashSet;

use vstd::prelude::*;
use vstd::string::*;

use crate::task;
use crate::task::AgentInfo;
use crate::task::AgentStatus;
use crate::task::Task;
use crate::text;
use crate::time::Duration;

verus! {

broadcast use {vstd::std_specs::hash::group_hash_axioms, vstd::set::group_set_axioms};

/// An agent seen idle whose task may be done: the sequence it was seen at, if
/// the observation carried one, and when.
#[derive(Debug, Clone, Copy, PartialEq, Eq, Structural)]
pub struct Pending {
    pub seq: Option<u64>,
    pub at: Duration,
}

/// How long ago `at` was at `now`, on a clock that only goes forward.
pub open spec fn elapsed(at: Duration, now: Duration) -> nat {
    if now.nanos >= at.nanos {
        (now.nanos - at.nanos) as nat
    } else {
        0
    }
}

/// Whether `wait` has passed since `at`.
pub fn has_passed(at: Duration, now: Duration, wait: Duration) -> (b: bool)
    ensures
        b == (elapsed(at, now) >= wait.nanos),
{
    if now.nanos >= at.nanos {
        now.nanos - at.nanos >= wait.nanos
    } else {
        wait.nanos == 0
    }
}

/// The actor's memory. All of it is lost when the actor ends; what must not be
/// is on the rows.
#[derive(Debug)]
pub struct Memory {
    /// Tasks whose agent was seen idle, waiting for the settle window.
    pub pending_done: HashMap<i64, Pending>,
    /// When the trust keys of a task went in. The agent redraws for a moment
    /// after its trust dialog and loses a prompt typed then; the pending prompt
    /// waits `settle` from here.
    pub trust_answered: HashMap<i64, Duration>,
    /// Tasks whose agent was last seen between turns. Decides what an exit
    /// means: an agent that ends between turns finished its task.
    pub idle_agents: HashSet<i64>,
    /// Orphaned agents from the last reconcile, as (agent name, pane id).
    pub orphans: Vec<(String, String)>,
}

impl Memory {
    /// Nothing remembered.
    pub fn new() -> (m: Memory)
        ensures
            m.pending_done@ == Map::<i64, Pending>::empty(),
            m.trust_answered@ == Map::<i64, Duration>::empty(),
            m.idle_agents@ == Set::<i64>::empty(),
            m.orphans@ == Seq::<(String, String)>::empty(),
    {
        Memory {
            pending_done: HashMap::new(),
            trust_answered: HashMap::new(),
            idle_agents: HashSet::new(),
            orphans: Vec::new(),
        }
    }

    /// Remember whether the agent of task `id` is between turns.
    pub fn note_status(&mut self, id: i64, status: AgentStatus)
        ensures
            final(self).idle_agents@ == if status.idle() {
                old(self).idle_agents@.insert(id)
            } else if status.active() {
                old(self).idle_agents@.remove(id)
            } else {
                old(self).idle_agents@
            },
            final(self).pending_done == old(self).pending_done,
            final(self).trust_answered == old(self).trust_answered,
            final(self).orphans == old(self).orphans,
    {
        match status {
            AgentStatus::Idle | AgentStatus::Done => {
                self.idle_agents.insert(id);
            },
            AgentStatus::Working | AgentStatus::Blocked => {
                self.idle_agents.remove(&id);
            },
            AgentStatus::Unknown => {},
        }
    }

    /// The tasks whose settle window has passed.
    pub fn due_done(&self, now: Duration, settle: Duration) -> (ids: Vec<i64>)
        ensures
            ids@.no_duplicates(),
            forall|id: i64| #[trigger]
                ids@.contains(id) <==> self.pending_done@.dom().contains(id) && elapsed(
                    self.pending_done@[id].at,
                    now,
                ) >= settle.nanos,
    {
        let mut ids: Vec<i64> = Vec::new();
        let ghost all = vstd::std_specs::iter::IteratorSpec::remaining(
            &vstd::std_specs::hash::spec_keys_iter(&self.pending_done),
        );
        let ghost due = |id: i64| elapsed(self.pending_done@[id].at, now) >= settle.nanos;
        let ghost mut from: Seq<int> = Seq::empty();
        for key in it: self.pending_done.keys()
            invariant
                it.seq() == all,
                all.no_duplicates(),
                all.unref().to_set() == self.pending_done@.dom(),
                due == (|id: i64| elapsed(self.pending_done@[id].at, now) >= settle.nanos),
                picked(all, it.index(), ids@, from, due),
        {
            let ghost k = it.index();
            assert(all.unref()[k] == *key);
            assert(all.unref().to_set().contains(*key));
            let is_due = match self.pending_done.get(key) {
                Some(p) => has_passed(p.at, now, settle),
                None => false,
            };
            assert(is_due == due(*key));
            proof {
                lemma_pick_next(all, k, ids@, from, due);
            }
            if is_due {
                ids.push(*key);
                proof {
                    from = from.push(k);
                }
            }
        }
        proof {
            lemma_picked(all, ids@, from, due, self.pending_done@.dom());
        }
        ids
    }

    /// The tasks whose prompt was held after a trust answer and is now due.
    pub fn due_prompts(&self, now: Duration, settle: Duration) -> (ids: Vec<i64>)
        ensures
            ids@.no_duplicates(),
            forall|id: i64| #[trigger]
                ids@.contains(id) <==> self.trust_answered@.dom().contains(id) && elapsed(
                    self.trust_answered@[id],
                    now,
                ) >= settle.nanos,
    {
        let mut ids: Vec<i64> = Vec::new();
        let ghost all = vstd::std_specs::iter::IteratorSpec::remaining(
            &vstd::std_specs::hash::spec_keys_iter(&self.trust_answered),
        );
        let ghost due = |id: i64| elapsed(self.trust_answered@[id], now) >= settle.nanos;
        let ghost mut from: Seq<int> = Seq::empty();
        for key in it: self.trust_answered.keys()
            invariant
                it.seq() == all,
                all.no_duplicates(),
                all.unref().to_set() == self.trust_answered@.dom(),
                due == (|id: i64| elapsed(self.trust_answered@[id], now) >= settle.nanos),
                picked(all, it.index(), ids@, from, due),
        {
            let ghost k = it.index();
            assert(all.unref()[k] == *key);
            assert(all.unref().to_set().contains(*key));
            let is_due = match self.trust_answered.get(key) {
                Some(at) => has_passed(*at, now, settle),
                None => false,
            };
            assert(is_due == due(*key));
            proof {
                lemma_pick_next(all, k, ids@, from, due);
            }
            if is_due {
                ids.push(*key);
                proof {
                    from = from.push(k);
                }
            }
        }
        proof {
            lemma_picked(all, ids@, from, due, self.trust_answered@.dom());
        }
        ids
    }

    /// An idle event opens a fresh settle window, without a sequence.
    pub fn saw_idle(&mut self, id: i64, now: Duration)
        ensures
            final(self).pending_done@ == old(self).pending_done@.insert(id, (Pending { seq: None, at: now })),
            final(self).trust_answered == old(self).trust_answered,
            final(self).idle_agents == old(self).idle_agents,
            final(self).orphans == old(self).orphans,
    {
        self.pending_done.insert(id, Pending { seq: None, at: now });
    }

    /// A settle window opens at a known sequence.
    pub fn window_at(&mut self, id: i64, seq: Option<u64>, now: Duration)
        ensures
            final(self).pending_done@ == old(self).pending_done@.insert(id, (Pending { seq, at: now })),
            final(self).trust_answered == old(self).trust_answered,
            final(self).idle_agents == old(self).idle_agents,
            final(self).orphans == old(self).orphans,
    {
        self.pending_done.insert(id, Pending { seq, at: now });
    }

    /// The task is not waiting to be found done any more.
    pub fn forget_pending(&mut self, id: i64) -> (was: Option<Pending>)
        ensures
            final(self).pending_done@ == old(self).pending_done@.remove(id),
            was == if old(self).pending_done@.dom().contains(id) {
                Some(old(self).pending_done@[id])
            } else {
                None
            },
            final(self).trust_answered == old(self).trust_answered,
            final(self).idle_agents == old(self).idle_agents,
            final(self).orphans == old(self).orphans,
    {
        self.pending_done.remove(&id)
    }

    /// The window a listed idle agent leaves its task with: the one it had, if
    /// that has a sequence; else one that starts now at the listed sequence.
    pub open spec fn window_after(had: Option<Pending>, seq: u64, now: Duration) -> Pending {
        match had {
            Some(p) => if p.seq is Some {
                p
            } else {
                Pending { seq: Some(seq), at: now }
            },
            None => Pending { seq: Some(seq), at: now },
        }
    }

    /// `agent.list` shows the agent idle: its settle window runs on, or starts.
    pub fn listed_idle(&mut self, id: i64, seq: u64, now: Duration)
        ensures
            final(self).pending_done@ == old(self).pending_done@.insert(
                id,
                Memory::window_after(
                    if old(self).pending_done@.dom().contains(id) {
                        Some(old(self).pending_done@[id])
                    } else {
                        None
                    },
                    seq,
                    now,
                ),
            ),
            final(self).trust_answered == old(self).trust_answered,
            final(self).idle_agents == old(self).idle_agents,
            final(self).orphans == old(self).orphans,
    {
        let had = match self.pending_done.get(&id) {
            Some(p) => Some(*p),
            None => None,
        };
        let window = match had {
            Some(p) => if p.seq.is_some() {
                p
            } else {
                Pending { seq: Some(seq), at: now }
            },
            None => Pending { seq: Some(seq), at: now },
        };
        self.pending_done.insert(id, window);
    }

    /// An adopted idle agent: a window starts, unless one runs already.
    pub fn adopted_idle(&mut self, id: i64, seq: u64, now: Duration)
        ensures
            final(self).pending_done@ == if old(self).pending_done@.dom().contains(id) {
                old(self).pending_done@
            } else {
                old(self).pending_done@.insert(id, (Pending { seq: Some(seq), at: now }))
            },
            final(self).trust_answered == old(self).trust_answered,
            final(self).idle_agents == old(self).idle_agents,
            final(self).orphans == old(self).orphans,
    {
        if !self.pending_done.contains_key(&id) {
            self.pending_done.insert(id, Pending { seq: Some(seq), at: now });
        }
    }

    /// The trust keys of a task went in.
    pub fn answered_trust(&mut self, id: i64, now: Duration)
        ensures
            final(self).trust_answered@ == old(self).trust_answered@.insert(id, now),
            final(self).pending_done == old(self).pending_done,
            final(self).idle_agents == old(self).idle_agents,
            final(self).orphans == old(self).orphans,
    {
        self.trust_answered.insert(id, now);
    }

    /// The held prompt of a task is held no longer.
    pub fn release_prompt(&mut self, id: i64)
        ensures
            final(self).trust_answered@ == old(self).trust_answered@.remove(id),
            final(self).pending_done == old(self).pending_done,
            final(self).idle_agents == old(self).idle_agents,
            final(self).orphans == old(self).orphans,
    {
        self.trust_answered.remove(&id);
    }

    /// When the trust keys of a task went in.
    pub fn trust_answered_at(&self, id: i64) -> (at: Option<Duration>)
        ensures
            at == if self.trust_answered@.dom().contains(id) {
                Some(self.trust_answered@[id])
            } else {
                None
            },
    {
        match self.trust_answered.get(&id) {
            Some(at) => Some(*at),
            None => None,
        }
    }

    /// Whether the agent of the task was last seen between turns.
    pub fn agent_idle(&self, id: i64) -> (b: bool)
        ensures
            b == self.idle_agents@.contains(id),
    {
        self.idle_agents.contains(&id)
    }

    /// The task has ended: what its agent did last does not matter any more.
    pub fn forget_agent(&mut self, id: i64)
        ensures
            final(self).idle_agents@ == old(self).idle_agents@.remove(id),
            final(self).pending_done == old(self).pending_done,
            final(self).trust_answered == old(self).trust_answered,
            final(self).orphans == old(self).orphans,
    {
        self.idle_agents.remove(&id);
    }

    /// Drop the orphan in `pane_id`, if there is one. Returns whether it did.
    pub fn forget_orphan(&mut self, pane_id: &str) -> (dropped: bool)
        ensures
            pair_texts(final(self).orphans@) == without_pane(pair_texts(old(self).orphans@), pane_id@),
            dropped == (exists|i: int|
                0 <= i < old(self).orphans@.len() && (#[trigger] old(self).orphans@[i]).1@ == pane_id@),
            final(self).pending_done == old(self).pending_done,
            final(self).trust_answered == old(self).trust_answered,
            final(self).idle_agents == old(self).idle_agents,
    {
        let ghost before = pair_texts(self.orphans@);
        let mut kept: Vec<(String, String)> = Vec::new();
        let mut dropped = false;
        let mut i: usize = 0;
        assert(pair_texts(kept@) =~= without_pane(before.take(0), pane_id@));
        while i < self.orphans.len()
            invariant
                i <= self.orphans@.len(),
                before == pair_texts(self.orphans@),
                pair_texts(kept@) == without_pane(before.take(i as int), pane_id@),
                dropped == (exists|k: int|
                    0 <= k < i && (#[trigger] self.orphans@[k]).1@ == pane_id@),
                self.orphans == old(self).orphans,
                self.pending_done == old(self).pending_done,
                self.trust_answered == old(self).trust_answered,
                self.idle_agents == old(self).idle_agents,
            decreases self.orphans@.len() - i,
        {
            assert(before.take(i + 1).drop_last() =~= before.take(i as int));
            assert(before.take(i + 1).last() == before[i as int]);
            let one = &self.orphans[i];
            if text::same_text(one.1.as_str(), pane_id) {
                dropped = true;
                assert(self.orphans@[i as int].1@ == pane_id@);
            } else {
                let ghost was = pair_texts(kept@);
                kept.push((one.0.clone(), one.1.clone()));
                assert(pair_texts(kept@) =~= was.push(before[i as int]));
            }
            i = i + 1;
        }
        assert(before.take(before.len() as int) =~= before);
        self.orphans = kept;
        dropped
    }

    /// The orphans of this reconcile take the place of the last one's.
    pub fn found_orphans(&mut self, found: Vec<(String, String)>)
        ensures
            final(self).orphans == found,
            final(self).pending_done == old(self).pending_done,
            final(self).trust_answered == old(self).trust_answered,
            final(self).idle_agents == old(self).idle_agents,
    {
        self.orphans = found;
    }
}

/// The texts of a list of pairs.
pub open spec fn pair_texts(v: Seq<(String, String)>) -> Seq<(Seq<char>, Seq<char>)> {
    Seq::new(v.len(), |i: int| (v[i].0@, v[i].1@))
}

/// The pairs whose second text is not `pane`, in order.
pub open spec fn without_pane(v: Seq<(Seq<char>, Seq<char>)>, pane: Seq<char>) -> Seq<
    (Seq<char>, Seq<char>),
>
    decreases v.len(),
{
    if v.len() == 0 {
        v
    } else if v.last().1 == pane {
        without_pane(v.drop_last(), pane)
    } else {
        without_pane(v.drop_last(), pane).push(v.last())
    }
}

/// The agent is named like a task (`t-<id>`) and no owned task has that id.
pub open spec fn is_orphan(a: AgentInfo, owned: Seq<Task>) -> bool {
    a.name matches Some(n) && exists|id: int|
        0 < id <= i64::MAX && n@ == #[trigger] task::task_name(id) && !owns(owned, id)
}

/// One of the tasks has the id.
pub open spec fn owns(owned: Seq<Task>, id: int) -> bool {
    exists|i: int| 0 <= i < owned.len() && (#[trigger] owned[i]).id == id
}

/// The orphans among the agents, as name and pane, in the agents' order.
pub open spec fn orphans_of(agents: Seq<AgentInfo>, owned: Seq<Task>) -> Seq<(Seq<char>, Seq<char>)>
    decreases agents.len(),
{
    if agents.len() == 0 {
        Seq::empty()
    } else if is_orphan(agents.last(), owned) {
        orphans_of(agents.drop_last(), owned).push(
            (agents.last().name->0@, agents.last().pane_id@),
        )
    } else {
        orphans_of(agents.drop_last(), owned)
    }
}

fn owns_id(owned: &[Task], id: i64) -> (b: bool)
    ensures
        b == owns(owned@, id as int),
{
    let mut i: usize = 0;
    while i < owned.len()
        invariant
            i <= owned@.len(),
            forall|k: int| 0 <= k < i ==> (#[trigger] owned@[k]).id != id,
        decreases owned@.len() - i,
    {
        if owned[i].id == id {
            assert(owned@[i as int].id == id);
            return true;
        }
        i = i + 1;
    }
    false
}

/// Agents named `t-<id>` that none of `owned` (the pane-owning tasks on the
/// machine) accounts for, as (agent name, pane id). Shared by the actor's
/// reconcile and the daemon-less `machine status`.
pub fn orphan_agents(agents: &[AgentInfo], owned: &[Task]) -> (r: Vec<(String, String)>)
    ensures
        pair_texts(r@) == orphans_of(agents@, owned@),
{
    let mut r: Vec<(String, String)> = Vec::new();
    let mut i: usize = 0;
    assert(pair_texts(r@) =~= orphans_of(agents@.take(0), owned@));
    while i < agents.len()
        invariant
            i <= agents@.len(),
            pair_texts(r@) == orphans_of(agents@.take(i as int), owned@),
        decreases agents@.len() - i,
    {
        let a = &agents[i];
        assert(agents@.take(i + 1).drop_last() =~= agents@.take(i as int));
        assert(agents@.take(i + 1).last() == *a);
        let ghost was = pair_texts(r@);
        let mut orphan = false;
        if let Some(name) = &a.name {
            if let Some(id) = task::task_id_of_agent(name.as_str()) {
                orphan = !owns_id(owned, id);
                proof {
                    assert(name@ == task::task_name(id as int));
                    if is_orphan(*a, owned@) {
                        let other = choose|o: int|
                            0 < o <= i64::MAX && name@ == #[trigger] task::task_name(o) && !owns(owned@, o);
                        task::task_names_are_distinct(other, id as int);
                    }
                }
            }
            assert(orphan == is_orphan(*a, owned@));
            if orphan {
                r.push((name.clone(), a.pane_id.clone()));
                assert(pair_texts(r@) =~= was.push((name@, a.pane_id@)));
            }
        }
        i = i + 1;
    }
    assert(agents@.take(agents@.len() as int) =~= agents@);
    r
}

/// `ids` are the first `n` keys that are due, `from` where each was found.
spec fn picked(all: Seq<&i64>, n: int, ids: Seq<i64>, from: Seq<int>, due: spec_fn(i64) -> bool) -> bool {
    &&& ids.len() == from.len()
    &&& forall|j: int|
        0 <= j < from.len() ==> 0 <= #[trigger] from[j] < n && n <= all.len() && ids[j] == *all[from[j]]
            && due(ids[j])
    &&& forall|i: int, j: int| 0 <= i < j < from.len() ==> #[trigger] from[i] < #[trigger] from[j]
    &&& forall|k: int| 0 <= k < n && due(*#[trigger] all[k]) ==> from.contains(k)
}

proof fn lemma_pick_next(
    all: Seq<&i64>,
    n: int,
    ids: Seq<i64>,
    from: Seq<int>,
    due: spec_fn(i64) -> bool,
)
    requires
        picked(all, n, ids, from, due),
        0 <= n < all.len(),
    ensures
        if due(*all[n]) {
            picked(all, n + 1, ids.push(*all[n]), from.push(n), due)
        } else {
            picked(all, n + 1, ids, from, due)
        },
{
    if due(*all[n]) {
        let from2 = from.push(n);
        assert(from2[from.len() as int] == n);
        assert forall|k: int| 0 <= k < n + 1 && due(*#[trigger] all[k]) implies from2.contains(k) by {
            if k < n {
                let j = choose|j: int| 0 <= j < from.len() && from[j] == k;
                assert(from2[j] == k);
            }
        }
    }
}

proof fn lemma_picked(
    all: Seq<&i64>,
    ids: Seq<i64>,
    from: Seq<int>,
    due: spec_fn(i64) -> bool,
    dom: Set<i64>,
)
    requires
        picked(all, all.len() as int, ids, from, due),
        all.no_duplicates(),
        all.unref().to_set() == dom,
    ensures
        ids.no_duplicates(),
        forall|id: i64| #[trigger] ids.contains(id) <==> dom.contains(id) && due(id),
{
    assert forall|i: int, j: int| 0 <= i < ids.len() && 0 <= j < ids.len() && i != j implies ids[i]
        != ids[j] by {
        assert(from[i] != from[j]);
        assert(all[from[i]] != all[from[j]]);
    }
    assert forall|id: i64| #[trigger] ids.contains(id) implies dom.contains(id) && due(id) by {
        let j = choose|j: int| 0 <= j < ids.len() && ids[j] == id;
        assert(all.unref()[from[j]] == id);
    }
    assert forall|id: i64| dom.contains(id) && due(id) implies #[trigger] ids.contains(id) by {
        assert(all.unref().contains(id));
        let k = choose|k: int| 0 <= k < all.unref().len() && all.unref()[k] == id;
        assert(*all[k] == id);
        assert(from.contains(k));
        let j = choose|j: int| 0 <= j < from.len() && from[j] == k;
        assert(ids[j] == id);
    }
}

/// The orphans are the agents that carry a task's name, `t-` and a number from 1 on, while
/// no task of the machine has that number.
pub proof fn an_agent_without_its_task_is_an_orphan(agents: Seq<AgentInfo>, owned: Seq<Task>, k: int, id: i64)
    requires
        0 <= k < agents.len(),
        0 < id,
        agents[k].name is Some,
        agents[k].name->0@ == "t-"@ + crate::digits::signed_decimal(id as int),
        forall|i: int| 0 <= i < owned.len() ==> (#[trigger] owned[i]).id != id,
    ensures
        orphans_of(agents, owned).contains((agents[k].name->0@, agents[k].pane_id@)),
    decreases agents.len(),
{
    let o = (agents[k].name->0@, agents[k].pane_id@);
    let all = orphans_of(agents, owned);
    assert(agents[k].name->0@ == task::task_name(id as int));
    assert(!owns(owned, id as int));
    assert(is_orphan(agents[k], owned));
    if k < agents.len() - 1 {
        let rest = agents.drop_last();
        assert(rest[k] == agents[k]);
        an_agent_without_its_task_is_an_orphan(rest, owned, k, id);
        let first = orphans_of(rest, owned);
        let i = choose|i: int| 0 <= i < first.len() && first[i] == o;
        assert(all[i] == o);
    } else {
        assert(all[all.len() - 1] == o);
    }
}

/// No other agent is one: not one whose task is there, nor one named in another way.
pub proof fn an_agent_with_its_task_is_no_orphan(agents: Seq<AgentInfo>, owned: Seq<Task>, i: int)
    requires
        0 <= i < orphans_of(agents, owned).len(),
    ensures
        exists|k: int, id: i64|
            #![trigger agents[k], task::task_name(id as int)]
            {
                &&& 0 <= k < agents.len()
                &&& agents[k].name is Some
                &&& orphans_of(agents, owned)[i] == (agents[k].name->0@, agents[k].pane_id@)
                &&& id > 0
                &&& agents[k].name->0@ == task::task_name(id as int)
                &&& forall|j: int| 0 <= j < owned.len() ==> (#[trigger] owned[j]).id != id
            },
    decreases agents.len(),
{
    let rest = agents.drop_last();
    let first = orphans_of(rest, owned);
    if i < first.len() {
        an_agent_with_its_task_is_no_orphan(rest, owned, i);
        let (k, id) = choose|k: int, id: i64|
            #![trigger rest[k], task::task_name(id as int)]
            {
                &&& 0 <= k < rest.len()
                &&& rest[k].name is Some
                &&& first[i] == (rest[k].name->0@, rest[k].pane_id@)
                &&& id > 0
                &&& rest[k].name->0@ == task::task_name(id as int)
                &&& forall|j: int| 0 <= j < owned.len() ==> (#[trigger] owned[j]).id != id
            };
        assert(agents[k] == rest[k]);
        assert(task::task_name(id as int) == agents[k].name->0@);
    } else {
        let k = agents.len() - 1;
        let n = agents[k].name->0;
        let id = choose|id: int|
            0 < id <= i64::MAX && n@ == #[trigger] task::task_name(id) && !owns(owned, id);
        let x = id as i64;
        assert(task::task_name(x as int) == n@);
        assert(agents[k] == agents.last());
        assert forall|j: int| 0 <= j < owned.len() implies (#[trigger] owned[j]).id != x by {
            assert(!owns(owned, id));
        }
    }
}

/// A settle window is due from the moment its time is over, counted from when the agent
/// was last seen, and each window is named once.
pub proof fn a_window_is_due_after_its_settle_time(
    m: &Memory,
    now: Duration,
    settle: Duration,
    ids: Vec<i64>,
    id: i64,
)
    requires
        call_ensures(Memory::due_done, (m, now, settle), ids),
    ensures
        !m.pending_done@.dom().contains(id) ==> !ids@.contains(id),
        m.pending_done@.dom().contains(id) ==> {
            let at = m.pending_done@[id].at.nanos;
            &&& now.nanos >= at + settle.nanos ==> ids@.contains(id)
            &&& at <= now.nanos < at + settle.nanos ==> !ids@.contains(id)
            &&& now.nanos < at && settle.nanos > 0 ==> !ids@.contains(id)
        },
        ids@.no_duplicates(),
{
}

/// A held prompt is due from the moment the settle time since its trust keys is over.
pub proof fn a_held_prompt_is_due_after_its_settle_time(
    m: &Memory,
    now: Duration,
    settle: Duration,
    ids: Vec<i64>,
    id: i64,
)
    requires
        call_ensures(Memory::due_prompts, (m, now, settle), ids),
    ensures
        !m.trust_answered@.dom().contains(id) ==> !ids@.contains(id),
        m.trust_answered@.dom().contains(id) ==> {
            let at = m.trust_answered@[id].nanos;
            &&& now.nanos >= at + settle.nanos ==> ids@.contains(id)
            &&& at <= now.nanos < at + settle.nanos ==> !ids@.contains(id)
            &&& now.nanos < at && settle.nanos > 0 ==> !ids@.contains(id)
        },
        ids@.no_duplicates(),
{
}

/// An agent is listed as orphaned until something is known of its pane: a pane that is
/// forgotten takes its agents with it and leaves the others, in order.
pub proof fn a_pane_takes_its_orphans_with_it(
    v: Seq<(Seq<char>, Seq<char>)>,
    pane: Seq<char>,
    x: (Seq<char>, Seq<char>),
)
    ensures
        without_pane(v, pane).contains(x) <==> v.contains(x) && x.1 != pane,
        without_pane(v, pane).len() <= v.len(),
        (forall|i: int| 0 <= i < v.len() ==> (#[trigger] v[i]).1 != pane) ==> without_pane(v, pane) == v,
    decreases v.len(),
{
    if v.len() > 0 {
        let first = v.drop_last();
        a_pane_takes_its_orphans_with_it(first, pane, x);
        assert(v =~= first.push(v.last()));
        let w = without_pane(first, pane);
        assert(v.contains(x) <==> first.contains(x) || x == v.last()) by {
            if v.contains(x) {
                let i = v.index_of(x);
                if i < first.len() {
                    assert(first[i] == x);
                }
            }
            if first.contains(x) {
                let i = first.index_of(x);
                assert(v[i] == x);
            }
            assert(v[v.len() - 1] == v.last());
        }
        assert(w.push(v.last()).contains(x) <==> w.contains(x) || x == v.last()) by {
            let p = w.push(v.last());
            assert(p[p.len() - 1] == v.last());
            if w.contains(x) {
                let i = w.index_of(x);
                assert(p[i] == x);
            }
            if p.contains(x) {
                let i = p.index_of(x);
                if i < w.len() {
                    assert(w[i] == x);
                }
            }
        }
        if forall|i: int| 0 <= i < v.len() ==> (#[trigger] v[i]).1 != pane {
            assert forall|i: int| 0 <= i < first.len() implies (#[trigger] first[i]).1 != pane by {
                assert(v[i] == first[i]);
            }
        }
    }
}

} // verus!
