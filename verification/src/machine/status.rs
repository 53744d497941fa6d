//! What is known and shown of a machine, and the settings its actor runs by.

use vstd::prelude::*;
use vstd::string::*;

use crate::task::Task;
use crate::text;
use crate::time::Duration;

verus! {

/// How a machine is reached at the moment.
#[derive(Debug, Clone, Copy, PartialEq, Eq, Structural)]
pub enum ChannelState {
    Connecting,
    Connected,
    Reconnecting,
    /// Requests answer but `events.subscribe` will not open: tasks are tracked
    /// by `agent.list` every `poll_every` until a subscribe succeeds.
    Polling,
    Incompatible,
}

impl ChannelState {
    /// The dispatcher may place a task here.
    pub open spec fn dispatchable(self) -> bool {
        self is Connected || self is Polling
    }

    /// May the dispatcher place a task here? Only states in which requests are
    /// known to answer.
    pub fn accepts_dispatch(&self) -> (b: bool)
        ensures
            b == self.dispatchable(),
    {
        matches!(self, ChannelState::Connected | ChannelState::Polling)
    }

    /// The state's name.
    pub open spec fn text(self) -> Seq<char> {
        match self {
            ChannelState::Connecting => "connecting"@,
            ChannelState::Connected => "connected"@,
            ChannelState::Reconnecting => "reconnecting"@,
            ChannelState::Polling => "polling"@,
            ChannelState::Incompatible => "incompatible"@,
        }
    }

    /// The state's name.
    pub fn name(&self) -> (r: &'static str)
        ensures
            r@ == self.text(),
    {
        match self {
            ChannelState::Connecting => "connecting",
            ChannelState::Connected => "connected",
            ChannelState::Reconnecting => "reconnecting",
            ChannelState::Polling => "polling",
            ChannelState::Incompatible => "incompatible",
        }
    }
}

/// What `pastor machine list` shows of a machine.
#[derive(Debug, Clone)]
pub struct MachineStatus {
    pub name: String,
    /// The host the machine is on.
    pub host: String,
    pub endpoint: String,
    pub channel: ChannelState,
    pub herdr_version: Option<String>,
    /// The machine's pastor version, asked at each connect and again every
    /// `MachineSettings::version_every` while connected or polling.
    pub pastor_version: Option<String>,
    pub protocol: Option<u32>,
    pub error: Option<String>,
    pub live: usize,
    pub max_agents: u32,
    pub tags: Vec<String>,
    /// Agents named like a task (`t-<id>`) that no open task on this machine
    /// owns. Counted in `live`, never closed unless `pastor task close` asks.
    pub orphans: Vec<String>,
    /// The flock the machine is in, where that is known.
    pub flock: Option<String>,
}

impl MachineStatus {
    /// The tasks on the machine and its orphans: an orphan holds a pane and an
    /// agent just like a task does, and leaving it out would let the picker
    /// over-dispatch.
    pub fn refresh_live(&mut self, tasks: usize, orphans: &Vec<(String, String)>)
        requires
            tasks + orphans@.len() <= usize::MAX,
        ensures
            final(self).live == tasks + orphans@.len(),
            text::texts(final(self).orphans@) == Seq::new(orphans@.len(), |i: int| orphans@[i].0@),
            *final(self) == (MachineStatus {
                live: final(self).live,
                orphans: final(self).orphans,
                ..*old(self)
            }),
    {
        let mut names: Vec<String> = Vec::new();
        let mut i: usize = 0;
        while i < orphans.len()
            invariant
                i <= orphans@.len(),
                names@.len() == i,
                forall|k: int| 0 <= k < i ==> (#[trigger] names@[k])@ == orphans@[k].0@,
            decreases orphans@.len() - i,
        {
            names.push(orphans[i].0.clone());
            i = i + 1;
        }
        assert(text::texts(names@) =~= Seq::new(orphans@.len(), |i: int| orphans@[i].0@));
        self.live = tasks + orphans.len();
        self.orphans = names;
    }

    /// Set how the machine is reached, and what is wrong with it.
    pub fn set_channel(&mut self, channel: ChannelState, error: Option<String>)
        ensures
            *final(self) == (MachineStatus { channel, error, ..*old(self) }),
    {
        self.channel = channel;
        self.error = error;
    }
}

/// The keys that answer an agent's folder-trust prompt.
#[derive(Debug, Clone, PartialEq, Eq)]
pub struct AgentKeys {
    pub agent: String,
    pub trust_keys: Vec<String>,
}

/// `[agents]` in `pastor.toml`: the keys that answer each agent's folder-trust
/// prompt. The first entry for an agent counts.
#[derive(Debug, Clone, PartialEq, Eq)]
pub struct Agents {
    pub keys: Vec<AgentKeys>,
}

/// The first of the entries for the agent, or their number.
pub open spec fn entry_of(keys: Seq<AgentKeys>, agent: Seq<char>) -> int
    decreases keys.len(),
{
    if keys.len() == 0 {
        0
    } else if entry_of(keys.drop_last(), agent) < keys.len() - 1 {
        entry_of(keys.drop_last(), agent)
    } else if keys.last().agent@ == agent {
        keys.len() - 1
    } else {
        keys.len() as int
    }
}

proof fn lemma_entry_of(keys: Seq<AgentKeys>, agent: Seq<char>)
    ensures
        0 <= entry_of(keys, agent) <= keys.len(),
        entry_of(keys, agent) < keys.len() ==> keys[entry_of(keys, agent)].agent@ == agent,
        forall|k: int| 0 <= k < entry_of(keys, agent) ==> (#[trigger] keys[k]).agent@ != agent,
    decreases keys.len(),
{
    if keys.len() > 0 {
        lemma_entry_of(keys.drop_last(), agent);
        assert forall|k: int| 0 <= k < entry_of(keys, agent) implies (#[trigger] keys[k]).agent@
            != agent by {
            if k < keys.len() - 1 {
                assert(keys.drop_last()[k] == keys[k]);
            }
        }
    }
}

impl Agents {
    /// The trust keys of an agent, if it has any.
    pub open spec fn keys_of(self, agent: Seq<char>) -> Option<Seq<Seq<char>>> {
        if entry_of(self.keys@, agent) < self.keys@.len() {
            Some(text::texts(self.keys@[entry_of(self.keys@, agent)].trust_keys@))
        } else {
            None
        }
    }

    /// The trust keys of an agent, if it has any.
    pub fn trust_keys(&self, agent: &str) -> (r: Option<Vec<String>>)
        ensures
            match (r, self.keys_of(agent@)) {
                (Some(k), Some(s)) => text::texts(k@) == s,
                (None, None) => true,
                _ => false,
            },
    {
        let mut i: usize = 0;
        while i < self.keys.len() && !text::same_text(self.keys[i].agent.as_str(), agent)
            invariant
                i <= self.keys@.len(),
                forall|k: int| 0 <= k < i ==> (#[trigger] self.keys@[k]).agent@ != agent@,
            decreases self.keys@.len() - i,
        {
            i = i + 1;
        }
        proof {
            lemma_entry_of(self.keys@, agent@);
        }
        if i < self.keys.len() {
            Some(text::copy_texts(&self.keys[i].trust_keys))
        } else {
            None
        }
    }
}

impl Default for Agents {
    /// No agent has keys until they are set.
    fn default() -> (a: Agents)
        ensures
            a.keys@.len() == 0,
            forall|agent: Seq<char>| #[trigger] a.keys_of(agent) is None,
    {
        Agents { keys: Vec::new() }
    }
}

/// What a machine's actor runs by.
#[derive(Debug, Clone, PartialEq)]
pub struct MachineSettings {
    /// How long an agent stays idle before its task is done.
    pub settle: Duration,
    pub reconcile_every: Duration,
    pub initial_backoff: Duration,
    pub max_backoff: Duration,
    /// Bound on any single herdr request, covering the connect as well as the
    /// reply. A machine that does not answer within this window is treated as
    /// lost: the request fails and the actor reconnects.
    pub request_timeout: Duration,
    /// How long a dispatch waits between `agent.start` and a prompt herdr
    /// accepts. Must stay below `request_timeout`, which bounds the dispatch as
    /// a whole.
    pub agent_ready_timeout: Duration,
    /// While `Polling`, how often `agent.list` reconciles.
    pub poll_every: Duration,
    /// How long a `done` task keeps its pane before reconcile closes it. `None`
    /// turns auto-close off.
    pub close_done_after: Option<Duration>,
    /// While connected or polling, how often the machine is asked for its
    /// pastor version again.
    pub version_every: Duration,
    /// The keys that answer each agent's folder-trust prompt.
    pub agents: Agents,
}

impl MachineSettings {
    /// The limits keep their order: a dispatch's own wait ends before the
    /// request's, and the backoff has room to grow.
    pub open spec fn ordered(self) -> bool {
        self.agent_ready_timeout.nanos < self.request_timeout.nanos && self.initial_backoff.nanos
            <= self.max_backoff.nanos
    }
}

impl Default for MachineSettings {
    fn default() -> (s: MachineSettings)
        ensures
            s.settle.secs() == 10,
            s.reconcile_every.secs() == 60,
            s.initial_backoff.secs() == 1,
            s.max_backoff.secs() == 60,
            s.request_timeout.secs() == 60,
            s.agent_ready_timeout.secs() == 30,
            s.poll_every.secs() == 10,
            s.close_done_after matches Some(d) && d.secs() == 15 * 60,
            s.version_every.secs() == 10 * 60,
            s.ordered(),
            call_ensures(Agents::default, (), s.agents),
    {
        MachineSettings {
            settle: Duration::from_secs(10),
            reconcile_every: Duration::from_secs(60),
            initial_backoff: Duration::from_secs(1),
            max_backoff: Duration::from_secs(60),
            request_timeout: Duration::from_secs(60),
            agent_ready_timeout: Duration::from_secs(30),
            poll_every: Duration::from_secs(10),
            close_done_after: Some(Duration::from_secs(15 * 60)),
            version_every: Duration::from_secs(10 * 60),
            agents: Agents::default(),
        }
    }
}

/// What happened, for hooks and `pastor events`.
#[derive(Debug)]
pub struct PastorEvent {
    pub kind: String,
    pub task_id: Option<i64>,
    pub machine: Option<String>,
    pub job: Option<String>,
    /// What the event carries beyond its ids: for `task.input`, the key
    /// names sent and the length of any text, never the text itself.
    pub detail: Option<serde_json::Value>,
}

/// An event of a machine. Task events carry the task's job, read from its row, so a
/// consumer that only filters by job needs no store lookup of its own. A row that
/// cannot be read leaves `job` empty rather than dropping the event.
pub fn machine_event(
    machine: &String,
    kind: &str,
    task_id: Option<i64>,
    row: Result<Option<Task>, String>,
    detail: Option<serde_json::Value>,
) -> (r: PastorEvent)
    ensures
        r.kind@ == kind@,
        r.task_id == task_id,
        r.machine == Some(*machine),
        r.job == match (task_id, row) {
            (Some(_), Ok(Some(t))) => Some(t.job),
            _ => None,
        },
        r.detail == detail,
{
    let job = match (task_id, row) {
        (Some(_), Ok(Some(t))) => Some(t.job),
        _ => None,
    };
    PastorEvent { kind: kind.to_owned(), task_id, machine: Some(machine.clone()), job, detail }
}

/// `Close` found no task row, only an orphaned agent by that name, and closed
/// it. There is no `Task` to reply with, so this is how success reads.
#[derive(Debug)]
pub struct OrphanClosed {
    pub agent: String,
    pub machine: String,
}

impl OrphanClosed {
    /// What it says.
    pub fn message(&self) -> (r: String)
        ensures
            r@ == "closed orphaned agent "@ + self.agent@ + " on "@ + self.machine@
                + "; it had no task row"@,
    {
        let mut s = "closed orphaned agent ".to_owned();
        s.append(self.agent.as_str());
        s.append(" on ");
        s.append(self.machine.as_str());
        s.append("; it had no task row");
        s
    }
}

/// The machine's actor was stopped (a flock reload removed or replaced the
/// machine) before it answered.
#[derive(Debug)]
pub struct ActorStopped {
    pub machine: String,
}

impl ActorStopped {
    /// What it says.
    pub fn message(&self) -> (r: String)
        ensures
            r@ == "machine "@ + self.machine@ + " is shutting down; try again later"@,
    {
        let mut s = "machine ".to_owned();
        s.append(self.machine.as_str());
        s.append(" is shutting down; try again later");
        s
    }
}

/// What stopping a machine's actor came to.
#[derive(Debug, Clone, Copy, PartialEq, Eq, Structural)]
pub enum ShutdownOutcome {
    /// The actor task has ended: it will not write another row.
    Finished,
    /// Aborted, but still inside a poll. It may still write rows until it ends,
    /// so nothing may take its place yet. Asking again waits again.
    StillRunning,
}

/// What stopping an actor came to, from whether there is an actor, whether its
/// end was already seen, and whether it ended within the wait.
pub fn shutdown_outcome(has_actor: bool, ended_before: bool, ended_in_time: bool) -> (r: ShutdownOutcome)
    ensures
        r == if !has_actor || ended_before || ended_in_time {
            ShutdownOutcome::Finished
        } else {
            ShutdownOutcome::StillRunning
        },
{
    if !has_actor || ended_before || ended_in_time {
        ShutdownOutcome::Finished
    } else {
        ShutdownOutcome::StillRunning
    }
}

/// Only machines whose requests answer take tasks: connected and polling ones.
pub proof fn only_answering_machines_take_tasks(channel: ChannelState, b: bool)
    requires
        call_ensures(ChannelState::accepts_dispatch, (&channel,), b),
    ensures
        b <==> channel is Connected || channel is Polling,
{
}

/// The keys of an agent are those of the first entry under its very name.
pub proof fn the_first_entry_of_an_agent_counts(agents: Agents, agent: Seq<char>, i: int)
    requires
        0 <= i < agents.keys@.len(),
        agents.keys@[i].agent@ == agent,
        forall|k: int| 0 <= k < i ==> (#[trigger] agents.keys@[k]).agent@ != agent,
    ensures
        agents.keys_of(agent) == Some(text::texts(agents.keys@[i].trust_keys@)),
{
    lemma_entry_of(agents.keys@, agent);
}

/// An agent without an entry has no keys.
pub proof fn an_agent_without_an_entry_has_no_keys(agents: Agents, agent: Seq<char>)
    requires
        forall|k: int|
            0 <= k < agents.keys@.len() ==> (#[trigger] agents.keys@[k]).agent@ != agent,
    ensures
        agents.keys_of(agent) is None,
{
    lemma_entry_of(agents.keys@, agent);
}

/// An actor has ended if there was none, or it ended before or in time.
pub proof fn an_actor_that_still_runs_has_not_ended(
    has_actor: bool,
    ended_before: bool,
    ended_in_time: bool,
    r: ShutdownOutcome,
)
    requires
        call_ensures(shutdown_outcome, (has_actor, ended_before, ended_in_time), r),
    ensures
        r is StillRunning <==> has_actor && !ended_before && !ended_in_time,
{
}

} // verus!
