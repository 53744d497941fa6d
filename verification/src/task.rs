//! Tasks and the agents that work on them, as far as the rules about them read
//! either.

use vstd::prelude::*;
use vstd::string::*;

use crate::digits;
use crate::text;
use crate::time::Timestamp;

verus! {

/// Where a task stands.
#[derive(Debug, Clone, Copy, PartialEq, Eq, Hash, Structural)]
pub enum TaskState {
    Queued,
    Starting,
    Running,
    Blocked,
    Done,
    Failed,
    Stale,
    Closed,
}

impl TaskState {
    /// The state's name.
    pub open spec fn text(self) -> Seq<char> {
        match self {
            TaskState::Queued => "queued"@,
            TaskState::Starting => "starting"@,
            TaskState::Running => "running"@,
            TaskState::Blocked => "blocked"@,
            TaskState::Done => "done"@,
            TaskState::Failed => "failed"@,
            TaskState::Stale => "stale"@,
            TaskState::Closed => "closed"@,
        }
    }

    /// The state's name.
    pub fn name(&self) -> (r: &'static str)
        ensures
            r@ == self.text(),
    {
        match self {
            TaskState::Queued => "queued",
            TaskState::Starting => "starting",
            TaskState::Running => "running",
            TaskState::Blocked => "blocked",
            TaskState::Done => "done",
            TaskState::Failed => "failed",
            TaskState::Stale => "stale",
            TaskState::Closed => "closed",
        }
    }

    /// The task holds a pane on its machine, or a place for one.
    pub open spec fn has_pane(self) -> bool {
        self is Starting || self is Running || self is Blocked || self is Done || self is Stale
    }

    /// Whether the task holds a pane on its machine, or a place for one.
    pub fn occupies_pane(&self) -> (b: bool)
        ensures
            b == self.has_pane(),
    {
        matches!(
            self,
            TaskState::Starting | TaskState::Running | TaskState::Blocked | TaskState::Done
                | TaskState::Stale
        )
    }

    /// The task has not ended.
    pub open spec fn open(self) -> bool {
        !(self is Failed) && !(self is Closed)
    }

    /// Whether the task has not ended.
    pub fn is_open(&self) -> (b: bool)
        ensures
            b == self.open(),
    {
        !matches!(self, TaskState::Failed | TaskState::Closed)
    }
}

/// What herdr says an agent is doing. `Done` is idle and not yet looked at.
#[derive(Debug, Clone, Copy, PartialEq, Eq, Hash, Structural)]
pub enum AgentStatus {
    Idle,
    Working,
    Blocked,
    Done,
    Unknown,
}

impl AgentStatus {
    /// The agent is between turns.
    pub open spec fn idle(self) -> bool {
        self is Idle || self is Done
    }

    /// Whether the agent is between turns.
    pub fn is_idle(&self) -> (b: bool)
        ensures
            b == self.idle(),
    {
        matches!(self, AgentStatus::Idle | AgentStatus::Done)
    }

    /// The status shows work on the prompt.
    pub open spec fn active(self) -> bool {
        self is Working || self is Blocked
    }

    /// Whether the status shows work on the prompt.
    pub fn is_activity(&self) -> (b: bool)
        ensures
            b == self.active(),
    {
        matches!(self, AgentStatus::Working | AgentStatus::Blocked)
    }
}

/// An agent as herdr lists it.
#[derive(Debug)]
pub struct AgentInfo {
    pub name: Option<String>,
    pub pane_id: String,
    pub workspace_id: String,
    pub agent_status: AgentStatus,
    pub state_change_seq: u64,
    pub completion_seq: Option<u64>,
    pub launch_pending: bool,
}

/// What was seen of a task's agent.
#[derive(Debug, Clone, Copy, PartialEq, Eq, Structural)]
pub enum Observed {
    Status { status: AgentStatus, state_change_seq: Option<u64>, completion_seq: Option<u64> },
    PaneClosed,
    PaneExited { agent_idle: bool },
}

/// What `agent.list` says about an agent, as an observation.
pub fn observed_from(agent: &AgentInfo) -> (o: Observed)
    ensures
        o == (Observed::Status {
            status: agent.agent_status,
            state_change_seq: Some(agent.state_change_seq),
            completion_seq: agent.completion_seq,
        }),
{
    Observed::Status {
        status: agent.agent_status,
        state_change_seq: Some(agent.state_change_seq),
        completion_seq: agent.completion_seq,
    }
}

/// The checkout a worktree task works in.
#[derive(Debug)]
pub struct Checkout {
    pub branch: String,
    pub path: String,
    /// A workspace already showed the checkout when the task started.
    pub already_open: bool,
}

impl Clone for Checkout {
    fn clone(&self) -> (r: Checkout)
        ensures
            r == *self,
    {
        Checkout {
            branch: self.branch.clone(),
            path: self.path.clone(),
            already_open: self.already_open,
        }
    }
}

/// Where a task's pane is put.
#[derive(Debug)]
pub enum Place {
    /// A workspace of the task's own.
    Own,
    /// The workspace that shows the repository.
    Repo,
    /// pastor's shared workspace.
    Pastor,
    /// A pane in the workspace with this label.
    Pane(String),
}

impl Clone for Place {
    fn clone(&self) -> (r: Place)
        ensures
            r == *self,
    {
        match self {
            Place::Own => Place::Own,
            Place::Repo => Place::Repo,
            Place::Pastor => Place::Pastor,
            Place::Pane(l) => Place::Pane(l.clone()),
        }
    }
}

impl Place {
    /// The place is a workspace that is there whether or not the task is.
    pub open spec fn shared(self) -> bool {
        self is Pastor || self is Pane
    }

    /// Whether the place is a workspace that is there whether or not the task is.
    pub fn is_shared(&self) -> (b: bool)
        ensures
            b == self.shared(),
    {
        matches!(self, Place::Pastor | Place::Pane(_))
    }
}

/// Words in order, such as the arguments of a command.
#[derive(Debug)]
pub enum Words {
    End,
    Then(String, Box<Words>),
}

impl Words {
    /// The words.
    pub open spec fn view(&self) -> Seq<Seq<char>>
        decreases self,
    {
        match self {
            Words::End => seq![],
            Words::Then(first, rest) => seq![first@] + rest.view(),
        }
    }

    /// The words of a list.
    pub fn of(list: Vec<String>) -> (r: Words)
        ensures
            r@ == text::texts(list@),
    {
        let ghost all = text::texts(list@);
        let mut rest = list;
        let mut r = Words::End;
        assert(r@ =~= all.skip(all.len() as int));
        while rest.len() > 0
            invariant
                rest@.len() <= all.len(),
                text::texts(rest@) == all.take(rest@.len() as int),
                r@ == all.skip(rest@.len() as int),
            decreases rest@.len(),
        {
            let ghost n = rest@.len() as int;
            let ghost before = rest@;
            let ghost tail = r@;
            let last = match rest.pop() {
                Some(s) => s,
                None => vstd::pervasive::unreached(),
            };
            assert(last@ == text::texts(before)[n - 1]);
            assert(text::texts(rest@) =~= all.take(n - 1));
            r = Words::Then(last, Box::new(r));
            assert(r@ =~= seq![last@] + tail);
            assert(r@ =~= all.skip(n - 1));
        }
        r
    }

    /// The words as a list.
    pub fn list(&self) -> (r: Vec<String>)
        ensures
            text::texts(r@) == self@,
    {
        let mut r: Vec<String> = Vec::new();
        self.put_behind(&mut r);
        assert(text::texts(r@) =~= self@);
        r
    }

    fn put_behind(&self, list: &mut Vec<String>)
        ensures
            text::texts(final(list)@) == text::texts(old(list)@) + self@,
        decreases self,
    {
        let ghost before = list@;
        match self {
            Words::End => {
                assert(text::texts(list@) =~= text::texts(before) + self@);
            },
            Words::Then(first, rest) => {
                list.push(first.clone());
                assert(text::texts(list@) =~= text::texts(before).push(first@));
                rest.put_behind(list);
                assert(text::texts(list@) =~= text::texts(before) + self@);
            },
        }
    }
}

impl Clone for Words {
    fn clone(&self) -> (r: Words)
        ensures
            r == *self,
        decreases self,
    {
        match self {
            Words::End => Words::End,
            Words::Then(first, rest) => Words::Then(first.clone(), Box::new((&**rest).clone())),
        }
    }
}

/// What a task was asked to do and where.
#[derive(Debug)]
pub struct DispatchSpec {
    pub agent: String,
    /// What the agent is started with besides.
    pub agent_args: Words,
    pub repo: Option<String>,
    pub worktree: bool,
    pub branch: Option<String>,
    pub machine: Option<String>,
    /// The tags a machine must have to take the task.
    pub tags: Words,
    pub timeout_secs: u64,
    pub checkout: Option<Checkout>,
    pub place: Place,
}

impl Clone for DispatchSpec {
    fn clone(&self) -> (r: DispatchSpec)
        ensures
            r == *self,
    {
        DispatchSpec {
            agent: self.agent.clone(),
            agent_args: self.agent_args.clone(),
            repo: self.repo.clone(),
            worktree: self.worktree,
            branch: self.branch.clone(),
            machine: self.machine.clone(),
            tags: self.tags.clone(),
            timeout_secs: self.timeout_secs,
            checkout: match &self.checkout {
                Some(c) => Some(c.clone()),
                None => None,
            },
            place: self.place.clone(),
        }
    }
}

/// A task's row, as far as the rules read it.
#[derive(Debug)]
pub struct Task {
    pub id: i64,
    pub job: String,
    pub state: TaskState,
    pub prompt: String,
    /// The agent has not been given its prompt yet.
    pub prompt_pending: bool,
    /// Work on the prompt was seen since the last completion.
    pub activity_seen: bool,
    pub machine: Option<String>,
    pub pane_id: Option<String>,
    pub workspace_id: Option<String>,
    pub agent_name: Option<String>,
    /// The sequence the agent's next completion has to move past.
    pub last_completion_seq: Option<u64>,
    pub error: Option<String>,
    pub started_at: Option<Timestamp>,
    pub finished_at: Option<Timestamp>,
    pub updated_at: Timestamp,
    pub spec: DispatchSpec,
}

impl Clone for Task {
    fn clone(&self) -> (r: Task)
        ensures
            r == *self,
    {
        Task {
            id: self.id,
            job: self.job.clone(),
            state: self.state,
            prompt: self.prompt.clone(),
            prompt_pending: self.prompt_pending,
            activity_seen: self.activity_seen,
            machine: self.machine.clone(),
            pane_id: self.pane_id.clone(),
            workspace_id: self.workspace_id.clone(),
            agent_name: self.agent_name.clone(),
            last_completion_seq: self.last_completion_seq,
            error: self.error.clone(),
            started_at: self.started_at,
            finished_at: self.finished_at,
            updated_at: self.updated_at,
            spec: self.spec.clone(),
        }
    }
}

/// The name of a task, and of its agent: `t-` and its number.
pub open spec fn task_name(id: int) -> Seq<char> {
    "t-"@ + digits::signed_decimal(id)
}

impl Task {
    /// The name dispatch gives the agent of a task.
    pub fn agent_name_for(id: i64) -> (r: String)
        ensures
            r@ == task_name(id as int),
    {
        let mut s = "t-".to_owned();
        let n = digits::print_signed(id);
        s.append(n.as_str());
        s
    }

    /// How the task is shown.
    pub fn display_id(&self) -> (r: String)
        ensures
            r@ == task_name(self.id as int),
    {
        Task::agent_name_for(self.id)
    }

    /// The task is on the machine of that name.
    pub open spec fn on(self, machine: Seq<char>) -> bool {
        self.machine matches Some(m) && m@ == machine
    }

    /// Whether the task is on the machine of that name.
    pub fn is_on(&self, machine: &str) -> (b: bool)
        ensures
            b == self.on(machine@),
    {
        match &self.machine {
            Some(m) => text::same_text(m.as_str(), machine),
            None => false,
        }
    }
}

/// The task id in an agent name pastor gives (`t-<id>`), and nothing looser: not
/// a bare number, which a human could name an agent, and not `t-01`, which
/// `task close` would look up as `t-1`. Only a name that `Task::agent_name_for`
/// gives back unchanged counts.
pub fn task_id_of_agent(name: &str) -> (r: Option<i64>)
    ensures
        match r {
            Some(n) => n > 0 && name@ == task_name(n as int),
            None => forall|id: int| 0 < id <= i64::MAX ==> name@ != #[trigger] task_name(id),
        },
{
    proof {
        reveal_strlit("t-");
        assert forall|id: int| 0 < id <= i64::MAX && name@ == #[trigger] task_name(id) implies {
            &&& name@.len() > 2
            &&& name@[0] == 't'
            &&& name@[1] == '-'
            &&& name@.skip(2) == digits::decimal(id as nat)
            &&& digits::all_digits(name@.skip(2))
            &&& digits::digits_value(name@.skip(2)) == id
        } by {
            digits::decimal_reads_back(id as nat);
            assert(name@.skip(2) =~= digits::decimal(id as nat));
        }
    }
    let v = text::chars_of(name);
    if v.len() < 3 || v[0] != 't' || v[1] != '-' {
        return None;
    }
    match digits::read_digits(&v, 2, 0x7fff_ffff_ffff_ffff) {
        None => None,
        Some(n) => {
            let id = n as i64;
            if id > 0 && text::same_text(Task::agent_name_for(id).as_str(), name) {
                Some(id)
            } else {
                None
            }
        },
    }
}

/// A task's name gives back the task: no other positive number has it.
pub proof fn task_names_are_distinct(a: int, b: int)
    requires
        a > 0,
        b > 0,
        task_name(a) == task_name(b),
    ensures
        a == b,
{
    reveal_strlit("t-");
    assert(task_name(a).skip(2) =~= digits::decimal(a as nat));
    assert(task_name(b).skip(2) =~= digits::decimal(b as nat));
    digits::decimal_is_injective(a as nat, b as nat);
}

/// A task that has ended has no pane, and of those that have not only a queued one has
/// none: it waits for a machine.
pub proof fn an_open_task_has_a_pane_unless_it_is_queued(s: &TaskState, pane: bool, open: bool)
    requires
        call_ensures(TaskState::occupies_pane, (s,), pane),
        call_ensures(TaskState::is_open, (s,), open),
    ensures
        pane <==> open && *s !is Queued,
        !open <==> *s is Failed || *s is Closed,
{
}

/// An agent works, or waits for an answer, or is between turns; of one that herdr does not
/// know neither is said.
pub proof fn an_agent_works_or_is_between_turns(s: &AgentStatus, idle: bool, active: bool)
    requires
        call_ensures(AgentStatus::is_idle, (s,), idle),
        call_ensures(AgentStatus::is_activity, (s,), active),
    ensures
        !(idle && active),
        !idle && !active <==> *s is Unknown,
        *s is Working || *s is Blocked ==> active,
{
}

/// The agent of a task is known by its name: reading the name that dispatch gives it
/// gives back the task, and no other name does.
pub proof fn an_agents_name_gives_back_its_task(id: i64, name: String, other: &str, r: Option<i64>)
    requires
        id > 0,
        call_ensures(Task::agent_name_for, (id,), name),
        call_ensures(task_id_of_agent, (other,), r),
    ensures
        r == Some(id) <==> other@ == name@,
        r matches Some(n) ==> n > 0,
        name@.len() > 2 && name@[0] == 't' && name@[1] == '-',
        digits::all_digits(name@.skip(2)) && digits::digits_value(name@.skip(2)) == id,
        name@[2] != '0',
{
    reveal_strlit("t-");
    digits::decimal_reads_back(id as nat);
    assert(name@.skip(2) =~= digits::decimal(id as nat));
    assert(name@[2] == digits::decimal(id as nat)[0]);
    assert(name@ == task_name(id as int));
    if let Some(n) = r {
        if other@ == name@ {
            task_names_are_distinct(n as int, id as int);
        }
    }
}

/// The words of a list are its texts, in order.
pub proof fn words_give_back_their_list(list: Vec<String>, w: Words, r: Vec<String>)
    requires
        call_ensures(Words::of, (list,), w),
        call_ensures(Words::list, (&w,), r),
    ensures
        r@.len() == list@.len(),
        forall|i: int| 0 <= i < r@.len() ==> (#[trigger] r@[i])@ == list@[i]@,
{
    assert(text::texts(r@) == text::texts(list@));
    assert(text::texts(r@).len() == r@.len());
    assert(text::texts(list@).len() == list@.len());
    assert forall|i: int| 0 <= i < r@.len() implies (#[trigger] r@[i])@ == list@[i]@ by {
        assert(text::texts(r@)[i] == r@[i]@);
        assert(text::texts(list@)[i] == list@[i]@);
    }
}

} // verus!
