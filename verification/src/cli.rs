//! The command line: what its commands decide before and after they talk to the head
//! or to a machine.

use vstd::prelude::*;
use vstd::string::*;

use crate::digits;
use crate::machine::calls::Failure;
use crate::machine::life;
use crate::machine::memory;
use crate::quoting;
use crate::task;
use crate::task::AgentInfo;
use crate::task::DispatchSpec;
use crate::task::Place;
use crate::task::Task;
use crate::task::TaskState;
use crate::task::Words;
use crate::text;
use crate::text::Trim;
use crate::time;
use crate::time::Duration;

verus! {

/// An error that the command line reports under its own code.
#[derive(Debug)]
pub struct CliError {
    pub code: &'static str,
    pub message: String,
}

/// An error with its code and its message.
pub open spec fn says(e: CliError, code: Seq<char>, message: Seq<char>) -> bool {
    e.code@ == code && e.message@ == message
}

// ---------------------------------------------------------------------------
// The head

/// A command, as far as it decides whether the head is asked.
#[derive(Debug, Clone, Copy, PartialEq, Eq, Structural)]
pub enum Asks {
    /// `task run` or `task list`, with `--flock` or without.
    TaskWithFlock { flock: bool },
    /// Another `task` command.
    Task,
    /// `machine list`, with `--flock` or without.
    MachineList { flock: bool },
    /// A command that edits the machines.
    MachineEdit,
    FlockList,
    /// A command that edits the flocks.
    FlockEdit,
    Tick,
    Job,
    /// `plugin list` or `plugin run`.
    PluginLook,
    /// A command that changes the plugins.
    PluginEdit,
    Other,
}

/// Whether a command talks to or reloads the head, and if so whether it
/// brings flocks into play on its own: it takes `--flock`, or it edits
/// flock.toml. `None` for a command that never talks to the head.
pub fn head_use(command: Asks) -> (r: Option<bool>)
    ensures
        r == match command {
            Asks::TaskWithFlock { flock } => Some(flock),
            Asks::Task => Some(false),
            Asks::MachineList { flock } => Some(flock),
            Asks::MachineEdit => Some(true),
            Asks::FlockList => Some(false),
            Asks::FlockEdit => Some(true),
            Asks::Tick | Asks::Job => Some(false),
            Asks::PluginEdit => Some(false),
            Asks::PluginLook | Asks::Other => None,
        },
{
    match command {
        Asks::TaskWithFlock { flock } => Some(flock),
        Asks::MachineList { flock } => Some(flock),
        Asks::MachineEdit | Asks::FlockEdit => Some(true),
        Asks::Task | Asks::FlockList | Asks::Tick | Asks::Job | Asks::PluginEdit => Some(false),
        Asks::PluginLook | Asks::Other => None,
    }
}

/// What came of pinging the head.
#[derive(Debug)]
pub enum HeadPing {
    NotRunning,
    /// It is listening but does not answer.
    Unresponsive,
    Pong { protocol: u32, version: String },
}

/// Whether there is a head to work with.
#[derive(Debug, Clone, Copy, PartialEq, Eq, Structural)]
pub enum Head {
    Absent,
    Live,
}

/// What a command makes of the head. One that is not running is left out and the
/// command works without it. One that is listening but does not answer is an error,
/// never taken for no head. With `flocks` in play a head from before flocks is
/// refused too: it would act on every flock. `since_flocks` is the first protocol
/// that knows them.
pub fn probe_head(ping: HeadPing, flocks: bool, since_flocks: u32, socket: &str) -> (r: Result<
    Head,
    CliError,
>)
    ensures
        match ping {
            HeadPing::NotRunning => r == Ok::<Head, CliError>(Head::Absent),
            HeadPing::Unresponsive => r matches Err(e) && says(
                e,
                "head_unresponsive"@,
                "pastor serve is listening on "@ + socket@
                    + " but not answering; nothing was done, run it again once it answers"@,
            ),
            HeadPing::Pong { protocol, version } => if !flocks || protocol >= since_flocks {
                r == Ok::<Head, CliError>(Head::Live)
            } else {
                r matches Err(e) && says(
                    e,
                    "head_too_old"@,
                    "the running pastor serve ("@ + version@
                        + ") predates flocks and would act on every flock; restart it, or stop it to work without a head"@,
                )
            },
        },
{
    match ping {
        HeadPing::NotRunning => Ok(Head::Absent),
        HeadPing::Unresponsive => {
            let mut m = "pastor serve is listening on ".to_owned();
            m.append(socket);
            m.append(" but not answering; nothing was done, run it again once it answers");
            Err(CliError { code: "head_unresponsive", message: m })
        },
        HeadPing::Pong { protocol, version } => {
            if !flocks || protocol >= since_flocks {
                return Ok(Head::Live);
            }
            let mut m = "the running pastor serve (".to_owned();
            m.append(version.as_str());
            m.append(
                ") predates flocks and would act on every flock; restart it, or stop it to work without a head",
            );
            Err(CliError { code: "head_too_old", message: m })
        },
    }
}

/// What is said of the head after the flock file was edited. `took_it` tells whether
/// a head that was asked to read it again did.
pub fn reload_running_head(head: Head, took_it: bool) -> (r: &'static str)
    ensures
        r@ == match head {
            Head::Absent => "start pastor serve to use it"@,
            Head::Live => if took_it {
                "the running pastor serve picked it up"@
            } else {
                "pastor serve did not take the reload; run `pastor job reload`"@
            },
        },
{
    match head {
        Head::Absent => "start pastor serve to use it",
        Head::Live => if took_it {
            "the running pastor serve picked it up"
        } else {
            "pastor serve did not take the reload; run `pastor job reload`"
        },
    }
}

// ---------------------------------------------------------------------------
// Asking the head

/// Why a request to the head got no answer.
#[derive(Debug)]
pub enum RequestError {
    /// It did not answer in this time.
    Timeout(Duration),
    /// Nothing listens where it should.
    NoHead,
    /// The connection failed in another way: something may be there.
    Connect(String),
    /// The exchange failed.
    Exchange(String),
}

/// What is said of a request that failed: a code, and a message. A head that is busy, or
/// that may be there, is never called down.
pub fn request_failure(e: &RequestError) -> (r: (&'static str, String))
    requires
        e matches RequestError::Timeout(d) ==> d.valid(),
    ensures
        match *e {
            RequestError::Timeout(d) => r.0@ == "timeout"@ && r.1@
                == "pastor serve did not answer within "@ + digits::decimal(d.secs())
                + "s; the request may still complete: see `pastor task list` and `pastor job list`"@,
            RequestError::NoHead => r.0@ == "runtime_error"@ && r.1@
                == "pastor serve is not running; start it with `pastor serve`"@,
            RequestError::Connect(why) => r.0@ == "runtime_error"@ && r.1@
                == "could not connect to pastor serve: "@ + why@,
            RequestError::Exchange(why) => r.0@ == "runtime_error"@ && r.1@ == why@,
        },
{
    match e {
        RequestError::Timeout(d) => {
            let mut m = "pastor serve did not answer within ".to_owned();
            m.append(digits::print_number(d.as_secs()).as_str());
            m.append(
                "s; the request may still complete: see `pastor task list` and `pastor job list`",
            );
            ("timeout", m)
        },
        RequestError::NoHead => (
            "runtime_error",
            "pastor serve is not running; start it with `pastor serve`".to_owned(),
        ),
        RequestError::Connect(why) => {
            let mut m = "could not connect to pastor serve: ".to_owned();
            m.append(why.as_str());
            ("runtime_error", m)
        },
        RequestError::Exchange(why) => ("runtime_error", why.clone()),
    }
}

// ---------------------------------------------------------------------------
// `pastor task run`

/// What `pastor task run`'s flags ask for.
#[derive(Debug)]
pub struct RunArgs {
    pub repo: Option<String>,
    pub machine: Option<String>,
    pub agent: Option<String>,
    pub agent_args: Vec<String>,
    pub worktree: bool,
    pub branch: Option<String>,
    pub tags: Vec<String>,
    pub timeout: Option<String>,
}

/// `[defaults]` in `pastor.toml`.
#[derive(Debug)]
pub struct Defaults {
    pub agent: String,
    pub agent_args: Vec<String>,
    pub timeout: Duration,
}

/// The seconds a task gets, or what is wrong with them.
pub open spec fn run_timeout(a: RunArgs, d: Defaults) -> Result<nat, Seq<char>> {
    match a.timeout {
        Some(t) => match time::duration_secs(t@) {
            Some(secs) => Ok(secs),
            None => Err(time::duration_error(t@)),
        },
        None => Ok(d.timeout.secs()),
    }
}

/// What `pastor task run`'s flags ask for, with `pastor.toml`'s `[defaults]` filling
/// in what they leave out. Arguments for the agent replace the default ones, all of
/// them.
pub fn run_spec(a: &RunArgs, d: &Defaults) -> (r: Result<DispatchSpec, String>)
    requires
        d.timeout.valid(),
    ensures
        match (r, run_timeout(*a, *d)) {
            (Err(e), Err(m)) => e@ == m,
            (Ok(s), Ok(secs)) => {
                &&& s.agent == match a.agent {
                    Some(x) => x,
                    None => d.agent,
                }
                &&& s.agent_args@ == if a.agent_args@.len() > 0 {
                    text::texts(a.agent_args@)
                } else {
                    text::texts(d.agent_args@)
                }
                &&& s.repo == a.repo
                &&& s.worktree == a.worktree
                &&& s.branch == a.branch
                &&& s.machine == a.machine
                &&& s.tags@ == text::texts(a.tags@)
                &&& s.timeout_secs == secs
                &&& s.checkout is None
                &&& s.place is Own
            },
            _ => false,
        },
{
    let timeout_secs = match &a.timeout {
        Some(t) => match time::parse_duration(t.as_str()) {
            Ok(dur) => {
                proof {
                    let secs = time::duration_secs(t@)->0;
                    assert(dur.nanos == secs * 1_000_000_000);
                    assert(dur.nanos as int / 1_000_000_000 == secs);
                }
                dur.as_secs()
            },
            Err(e) => {
                return Err(e);
            },
        },
        None => d.timeout.as_secs(),
    };
    let agent = match &a.agent {
        Some(x) => x.clone(),
        None => d.agent.clone(),
    };
    let agent_args = if a.agent_args.len() > 0 {
        text::copy_texts(&a.agent_args)
    } else {
        text::copy_texts(&d.agent_args)
    };
    Ok(
        DispatchSpec {
            agent,
            agent_args: Words::of(agent_args),
            repo: a.repo.clone(),
            worktree: a.worktree,
            branch: a.branch.clone(),
            machine: a.machine.clone(),
            tags: Words::of(text::copy_texts(&a.tags)),
            timeout_secs,
            checkout: None,
            place: Place::Own,
        },
    )
}

// ---------------------------------------------------------------------------
// `pastor task list`

/// What `pastor task list`'s flags ask for.
#[derive(Debug)]
pub struct ListArgs {
    pub job: Option<String>,
    pub flock: Option<String>,
    pub machine: Option<String>,
    pub blocked: bool,
    pub done: bool,
    pub all: bool,
    pub json: bool,
}

/// The states a task can be in while it still needs pastor or a human.
pub open spec fn live_states() -> Seq<TaskState> {
    seq![TaskState::Queued, TaskState::Starting, TaskState::Running, TaskState::Blocked]
}

/// The states `pastor task list` selects, `None` meaning all of them.
pub open spec fn states_shown(a: ListArgs) -> Option<Seq<TaskState>> {
    if a.blocked {
        Some(seq![TaskState::Blocked])
    } else if a.done {
        Some(seq![TaskState::Done])
    } else if a.all {
        None
    } else {
        Some(live_states())
    }
}

/// The states `pastor task list` selects, `None` meaning all of them. `--blocked`
/// and `--done` are single-state views, `--all` is everything, and no flag is
/// the live tasks. `--job` and `--machine` narrow whichever set this picks.
pub fn list_states(a: &ListArgs) -> (r: Option<Vec<TaskState>>)
    ensures
        match (r, states_shown(*a)) {
            (Some(v), Some(s)) => v@ == s,
            (None, None) => true,
            _ => false,
        },
{
    if a.all && !a.blocked && !a.done {
        return None;
    }
    let mut v: Vec<TaskState> = Vec::new();
    if a.blocked {
        v.push(TaskState::Blocked);
    } else if a.done {
        v.push(TaskState::Done);
    } else {
        v.push(TaskState::Queued);
        v.push(TaskState::Starting);
        v.push(TaskState::Running);
        v.push(TaskState::Blocked);
    }
    assert(v@ =~= states_shown(*a)->0);
    Some(v)
}

/// What to say on stderr when the list comes back empty: only the default
/// view hides anything a user might be looking for.
pub fn list_empty_hint(a: &ListArgs) -> (r: Option<&'static str>)
    ensures
        match r {
            Some(s) => states_shown(*a) == Some(live_states()) && s@
                == "no live tasks; pastor task list --all shows finished ones"@,
            None => states_shown(*a) != Some(live_states()),
        },
{
    if a.blocked || a.done || a.all {
        proof {
            assert(live_states().len() == 4);
        }
        None
    } else {
        Some("no live tasks; pastor task list --all shows finished ones")
    }
}

/// Whether `pastor task list` prints orphan lines. An orphan has no row, so
/// no state and no job: a view narrowed to a state (`--blocked`, `--done`)
/// or a job cannot select one. `--machine` still applies, to the orphans too.
pub fn list_shows_orphans(a: &ListArgs) -> (b: bool)
    ensures
        b == (!a.blocked && !a.done && a.job is None),
{
    !a.blocked && !a.done && a.job.is_none()
}

/// What `pastor task list` prints where it does not print JSON.
#[derive(Debug, Clone, Copy, PartialEq, Eq, Structural)]
pub enum ListShown {
    Table,
    /// `no tasks`
    NoTasks,
    /// Nothing: the hint on stderr says it.
    Nothing,
}

/// What `pastor task list` prints of the tasks: the table if there are any. Where the
/// view hides tasks and none is left, the hint stands in for `no tasks`.
pub fn list_shown(a: &ListArgs, empty: bool) -> (r: ListShown)
    ensures
        r == if !empty {
            ListShown::Table
        } else if states_shown(*a) == Some(live_states()) {
            ListShown::Nothing
        } else {
            ListShown::NoTasks
        },
{
    if !empty {
        return ListShown::Table;
    }
    match list_empty_hint(a) {
        Some(_) => ListShown::Nothing,
        None => ListShown::NoTasks,
    }
}

/// The default view shows a task exactly while it is unfinished: it hides done,
/// failed, stale and closed ones, and nothing else.
pub proof fn the_default_list_shows_live_tasks(a: ListArgs, s: TaskState)
    requires
        !a.blocked && !a.done && !a.all,
    ensures
        states_shown(a)->0.contains(s) <==> !(s is Done || s is Failed || s is Stale || s is Closed),
{
    assert(live_states()[0] == TaskState::Queued);
    assert(live_states()[1] == TaskState::Starting);
    assert(live_states()[2] == TaskState::Running);
    assert(live_states()[3] == TaskState::Blocked);
}

// ---------------------------------------------------------------------------
// Machines

/// `--command` as argv: one value split on whitespace.
pub fn command_argv(s: &str) -> (r: Vec<String>)
    ensures
        text::texts(r@) == text::words(s@),
{
    text::split_words(s)
}

/// What a machine said of itself.
#[derive(Debug)]
pub struct Pong {
    pub version: String,
    pub protocol: u32,
}

/// What a direct probe of a machine shows.
#[derive(Debug)]
pub struct ProbeFields {
    pub channel: &'static str,
    pub herdr_version: Option<String>,
    pub protocol: Option<u32>,
    pub agents: Option<usize>,
    pub error: Option<String>,
}

/// What is said of a herdr that is too old.
pub open spec fn old_protocol(protocol: u32) -> Option<Seq<char>> {
    if protocol < life::MIN_HERDR_PROTOCOL {
        Some(
            "protocol "@ + digits::decimal(protocol as nat) + " < "@ + digits::decimal(
                life::MIN_HERDR_PROTOCOL as nat,
            ),
        )
    } else {
        None
    }
}

/// What a probe shows.
pub open spec fn probe_shows(
    r: ProbeFields,
    ping: Result<Pong, Failure>,
    agent_count: Option<Result<usize, Failure>>,
) -> bool {
    match ping {
        Ok(p) => {
            &&& r.channel@ == "probed"@
            &&& r.herdr_version == Some(p.version)
            &&& r.protocol == Some(p.protocol)
            &&& match agent_count {
                Some(Ok(n)) => r.agents == Some(n) && text::opt_text(r.error) == old_protocol(
                    p.protocol,
                ),
                Some(Err(e)) => r.agents is None && text::opt_text(r.error) == Some(
                    "agent.list: "@ + e.message@,
                ),
                None => r.agents is None && text::opt_text(r.error) == Some(
                    "agent.list: not attempted"@,
                ),
            }
        },
        Err(e) => {
            &&& r.channel@ == if text::holds_text(e.message@, "herdr.sock"@) {
                "server down"@
            } else if e.transport {
                "unreachable"@
            } else {
                "error"@
            }
            &&& r.herdr_version is None
            &&& r.protocol is None
            &&& r.agents is None
            &&& r.error == Some(e.message)
        },
    }
}

/// Turn a direct probe (what `machine list` does with no head running) into a
/// row's channel, herdr version, protocol, agent count and error.
///
/// `agent_count` is `None` when `ping` itself failed (agent.list was never
/// called), `Some(Err(_))` when ping succeeded but agent.list failed, and
/// `Some(Ok(n))` for the normal case. A machine that answered the ping is
/// `probed`; anything wrong past that (old protocol, agent.list failing) goes
/// in the error, and a failed agent.list never reads as zero agents.
///
/// A failed ping is `server down` when the error's own message names `herdr.sock`
/// (a local endpoint with nothing listening), `unreachable` for any other transport
/// failure, and `error` otherwise.
pub fn probe_fields(ping: Result<Pong, Failure>, agent_count: Option<Result<usize, Failure>>) -> (r:
    ProbeFields)
    ensures
        probe_shows(r, ping, agent_count),
{
    match ping {
        Ok(p) => {
            let (agents, error) = match agent_count {
                Some(Ok(n)) => {
                    if p.protocol < life::MIN_HERDR_PROTOCOL {
                        let mut e = "protocol ".to_owned();
                        e.append(digits::print_number(p.protocol as u64).as_str());
                        e.append(" < ");
                        e.append(digits::print_number(life::MIN_HERDR_PROTOCOL as u64).as_str());
                        (Some(n), Some(e))
                    } else {
                        (Some(n), None)
                    }
                },
                Some(Err(f)) => {
                    let mut e = "agent.list: ".to_owned();
                    e.append(f.message.as_str());
                    (None, Some(e))
                },
                None => (None, Some("agent.list: not attempted".to_owned())),
            };
            ProbeFields {
                channel: "probed",
                herdr_version: Some(p.version),
                protocol: Some(p.protocol),
                agents,
                error,
            }
        },
        Err(e) => {
            let channel = if text::contains_text(e.message.as_str(), "herdr.sock") {
                "server down"
            } else if e.transport {
                "unreachable"
            } else {
                "error"
            };
            ProbeFields {
                channel,
                herdr_version: None,
                protocol: None,
                agents: None,
                error: Some(e.message),
            }
        },
    }
}

/// A probe that could not count the agents shows no count, and says why.
pub proof fn an_unknown_count_is_not_zero(
    r: ProbeFields,
    ping: Result<Pong, Failure>,
    agent_count: Option<Result<usize, Failure>>,
)
    requires
        probe_shows(r, ping, agent_count),
        !(ping is Ok && agent_count matches Some(Ok(_))),
    ensures
        r.agents is None,
        r.error is Some,
{
}

/// What a probe of a machine shows: its fields, and the agents that no open task owns.
#[derive(Debug)]
pub struct Probed {
    pub fields: ProbeFields,
    pub orphans: Vec<String>,
}

/// The number of agents that were listed, if they were asked for.
pub open spec fn count_of(agents: Option<Result<Vec<AgentInfo>, Failure>>) -> Option<
    Result<usize, Failure>,
> {
    match agents {
        Some(Ok(v)) => Some(Ok(v@.len() as usize)),
        Some(Err(e)) => Some(Err(e)),
        None => None,
    }
}

/// The names of the pairs.
pub open spec fn names_of(v: Seq<(Seq<char>, Seq<char>)>) -> Seq<Seq<char>> {
    Seq::new(v.len(), |i: int| v[i].0)
}

/// One machine's row from a probe made here, without the head. `agents` is there if
/// the machine answered the ping; `owned` are the tasks that hold a pane on it.
pub fn probe_machine(
    ping: Result<Pong, Failure>,
    agents: Option<Result<Vec<AgentInfo>, Failure>>,
    owned: &Vec<Task>,
) -> (r: Probed)
    ensures
        probe_shows(r.fields, ping, count_of(agents)),
        text::texts(r.orphans@) == match agents {
            Some(Ok(v)) => names_of(memory::orphans_of(v@, owned@)),
            _ => seq![],
        },
{
    let mut orphans: Vec<String> = Vec::new();
    assert(text::texts(orphans@) =~= seq![]);
    let count = match agents {
        Some(Ok(v)) => {
            let found = memory::orphan_agents(v.as_slice(), owned.as_slice());
            let ghost names = names_of(memory::orphans_of(v@, owned@));
            let mut i: usize = 0;
            assert(text::texts(orphans@) =~= names.take(0));
            while i < found.len()
                invariant
                    i <= found@.len(),
                    found@.len() == names.len(),
                    forall|k: int| 0 <= k < names.len() ==> (#[trigger] found@[k]).0@ == names[k],
                    text::texts(orphans@) == names.take(i as int),
                decreases found@.len() - i,
            {
                let ghost first = orphans@;
                orphans.push(found[i].0.clone());
                assert(text::texts(orphans@) =~= text::texts(first).push(found@[i as int].0@));
                assert(names.take(i + 1) =~= names.take(i as int).push(names[i as int]));
                i = i + 1;
            }
            assert(names.take(i as int) =~= names);
            Some(Ok(v.len()))
        },
        Some(Err(e)) => Some(Err(e)),
        None => None,
    };
    Probed { fields: probe_fields(ping, count), orphans }
}

/// What is said of a run of the `herdr` command that failed: in its own words, or by
/// its exit status where it has none.
pub fn herdr_failed(args: &Vec<String>, stderr: &str, status: &str) -> (r: String)
    ensures
        r@ == "herdr "@ + text::joined(text::texts(args@), " "@) + ": "@ + ({
            let said = text::trim_end(text::trim_start(stderr@, Trim::Space), Trim::Space);
            if said.len() == 0 {
                status@
            } else {
                said
            }
        }),
{
    let mut s = "herdr ".to_owned();
    s.append(text::join(args, " ").as_str());
    s.append(": ");
    let said = text::trimmed(stderr, Trim::Space);
    if said.as_str().unicode_len() == 0 {
        s.append(status);
    } else {
        s.append(said.as_str());
    }
    s
}

/// The first of the texts that holds more than white space, without the white space
/// at its ends.
pub open spec fn first_said(found: Seq<Option<String>>) -> Option<Seq<char>>
    decreases found.len(),
{
    if found.len() == 0 {
        None
    } else {
        match first_said(found.drop_last()) {
            Some(s) => Some(s),
            None => match found.last() {
                Some(t) => {
                    let said = text::trim_end(text::trim_start(t@, Trim::Space), Trim::Space);
                    if said.len() > 0 {
                        Some(said)
                    } else {
                        None
                    }
                },
                None => None,
            },
        }
    }
}

/// The first of some texts stays the first when more follow.
proof fn lemma_first_said_stays(found: Seq<Option<String>>, n: int)
    requires
        0 <= n <= found.len(),
        first_said(found.take(n)) is Some,
    ensures
        first_said(found) == first_said(found.take(n)),
    decreases found.len() - n,
{
    if n == found.len() {
        assert(found.take(n) =~= found);
    } else {
        assert(found.take(n + 1).drop_last() =~= found.take(n));
        lemma_first_said_stays(found, n + 1);
    }
}

/// The name of the host: from the first of the files that says one, else from the
/// environment, else `-`. A file that could not be read is none.
pub fn hostname(files: &Vec<Option<String>>, env: Option<String>) -> (r: String)
    ensures
        r@ == match first_said(files@) {
            Some(s) => s,
            None => match env {
                Some(e) => if e@.len() > 0 {
                    e@
                } else {
                    "-"@
                },
                None => "-"@,
            },
        },
{
    let mut i: usize = 0;
    while i < files.len()
        invariant
            i <= files@.len(),
            first_said(files@.take(i as int)) is None,
        decreases files@.len() - i,
    {
        proof {
            assert(files@.take(i + 1).drop_last() =~= files@.take(i as int));
            assert(files@.take(i + 1).last() == files@[i as int]);
        }
        if let Some(t) = &files[i] {
            let said = text::trimmed(t.as_str(), Trim::Space);
            if said.as_str().unicode_len() > 0 {
                proof {
                    lemma_first_said_stays(files@, i + 1);
                }
                return said;
            }
        }
        i = i + 1;
    }
    assert(files@.take(i as int) =~= files@);
    match env {
        Some(e) => if e.as_str().unicode_len() > 0 {
            e
        } else {
            "-".to_owned()
        },
        None => "-".to_owned(),
    }
}

/// The machines of the flock, or all of them: whether one is shown.
pub fn machine_shown(machine_flock: &str, flock: Option<&str>) -> (b: bool)
    ensures
        b == match flock {
            None => true,
            Some(f) => machine_flock@ == f@,
        },
{
    match flock {
        None => true,
        Some(f) => text::same_text(machine_flock, f),
    }
}

/// The columns of a line.
pub open spec fn columns(line: Seq<char>) -> Seq<Seq<char>> {
    text::pieces(line, '\t')
}

/// The first of the lines whose second column is the label, or their number.
pub open spec fn labelled_at(lines: Seq<Seq<char>>, label: Seq<char>) -> int
    decreases lines.len(),
{
    if lines.len() == 0 {
        0
    } else if labelled_at(lines.drop_last(), label) < lines.len() - 1 {
        labelled_at(lines.drop_last(), label)
    } else if columns(lines.last()).len() > 1 && columns(lines.last())[1] == label {
        lines.len() - 1
    } else {
        lines.len() as int
    }
}

proof fn lemma_labelled_stays(lines: Seq<Seq<char>>, n: int, label: Seq<char>)
    requires
        0 <= n <= lines.len(),
        labelled_at(lines.take(n), label) < n,
    ensures
        labelled_at(lines, label) == labelled_at(lines.take(n), label),
    decreases lines.len() - n,
{
    if n == lines.len() {
        assert(lines.take(n) =~= lines);
    } else {
        assert(lines.take(n + 1).drop_last() =~= lines.take(n));
        lemma_labelled_stays(lines, n + 1, label);
    }
}

/// The profile id of the saved herdr machine labelled `label`, from the output
/// of `herdr machine list` (`id<TAB>label<TAB>target<TAB>session<TAB>enabled`
/// per line). Only the label column is matched: an id or a target that happens
/// to equal the name is not the same machine.
pub fn saved_machine_id(list: &str, label: &str) -> (r: Option<String>)
    ensures
        text::opt_text(r) == ({
            let lines = text::lines(list@);
            let i = labelled_at(lines, label@);
            if i < lines.len() {
                Some(columns(lines[i])[0])
            } else {
                None
            }
        }),
{
    let lines = text::split_lines(list);
    let ghost all = text::lines(list@);
    let mut i: usize = 0;
    while i < lines.len()
        invariant
            i <= lines@.len(),
            all == text::texts(lines@),
            all == text::lines(list@),
            labelled_at(all.take(i as int), label@) == i,
        decreases lines@.len() - i,
    {
        let cols = text::split_at_char(lines[i].as_str(), '\t');
        let ghost cs = columns(all[i as int]);
        proof {
            assert(all.take(i + 1).drop_last() =~= all.take(i as int));
            assert(all.take(i + 1).last() == all[i as int]);
            assert(cs.len() == cols@.len());
        }
        if cols.len() > 1 {
            assert(cs[1] == cols@[1]@ && cs[0] == cols@[0]@);
            if text::same_text(cols[1].as_str(), label) {
                proof {
                    lemma_labelled_stays(all, i + 1, label@);
                }
                return Some(cols[0].clone());
            }
        }
        i = i + 1;
    }
    assert(all.take(i as int) =~= all);
    None
}

/// The ids and labels of the lines whose third column is the target, in order.
pub open spec fn targets(lines: Seq<Seq<char>>, target: Seq<char>) -> Seq<(Seq<char>, Seq<char>)>
    decreases lines.len(),
{
    if lines.len() == 0 {
        seq![]
    } else {
        let c = columns(lines.last());
        let first = targets(lines.drop_last(), target);
        if c.len() > 2 && c[2] == target {
            first.push((c[0], c[1]))
        } else {
            first
        }
    }
}

/// The texts of a list of pairs.
pub open spec fn pair_texts(v: Seq<(String, String)>) -> Seq<(Seq<char>, Seq<char>)> {
    Seq::new(v.len(), |i: int| (v[i].0@, v[i].1@))
}

/// Every saved herdr machine whose target column equals `target`, as
/// `(id, label)`, from the same `herdr machine list` output.
pub fn saved_machines_at(list: &str, target: &str) -> (r: Vec<(String, String)>)
    ensures
        pair_texts(r@) == targets(text::lines(list@), target@),
{
    let lines = text::split_lines(list);
    let ghost all = text::lines(list@);
    let mut out: Vec<(String, String)> = Vec::new();
    let mut i: usize = 0;
    assert(pair_texts(out@) =~= targets(all.take(0), target@));
    while i < lines.len()
        invariant
            i <= lines@.len(),
            all == text::texts(lines@),
            all == text::lines(list@),
            pair_texts(out@) == targets(all.take(i as int), target@),
        decreases lines@.len() - i,
    {
        let cols = text::split_at_char(lines[i].as_str(), '\t');
        let ghost cs = columns(all[i as int]);
        proof {
            assert(all.take(i + 1).drop_last() =~= all.take(i as int));
            assert(all.take(i + 1).last() == all[i as int]);
            assert(cs.len() == cols@.len());
        }
        if cols.len() > 2 {
            assert(cs[2] == cols@[2]@ && cs[1] == cols@[1]@ && cs[0] == cols@[0]@);
            if text::same_text(cols[2].as_str(), target) {
                let ghost before = out@;
                out.push((cols[0].clone(), cols[1].clone()));
                assert(pair_texts(out@) =~= pair_texts(before).push((cs[0], cs[1])));
            }
        }
        i = i + 1;
    }
    assert(all.take(i as int) =~= all);
    out
}

// ---------------------------------------------------------------------------
// Attaching

/// The command run on the remote host by `ssh -t target <this>`.
pub open spec fn remote_attach(session: Seq<char>, agent: Seq<char>) -> Seq<char> {
    "herdr --session "@ + quoting::shell_word(session) + " agent attach "@ + quoting::shell_word(
        agent,
    )
}

/// The command run on the remote host by `ssh -t target <this>`. `session` and
/// `agent` both come from data that others may shape (a flock session name, a
/// task's agent name) and are quoted so the remote shell can't be made to run
/// anything else.
pub fn attach_remote_command(session: &str, agent: &str) -> (r: String)
    ensures
        r@ == remote_attach(session@, agent@),
{
    let mut s = "herdr --session ".to_owned();
    s.append(quoting::shell_quote(session).as_str());
    s.append(" agent attach ");
    s.append(quoting::shell_quote(agent).as_str());
    s
}

/// How a machine is reached by hand.
#[derive(Debug)]
pub struct Reach {
    pub ssh: Option<String>,
    pub local: bool,
    pub session: String,
}

/// A program to run in place of pastor.
#[derive(Debug)]
pub struct Program {
    pub program: &'static str,
    pub args: Vec<String>,
}

/// The program with these arguments.
pub open spec fn runs(p: Program, program: Seq<char>, args: Seq<Seq<char>>) -> bool {
    p.program@ == program && text::texts(p.args@) == args
}

/// Which agent `pastor task attach` attaches to, as its machine and its name; or why
/// there is none.
pub fn attach_target(t: &Task) -> (r: Result<(String, String), CliError>)
    ensures
        match (t.machine, t.agent_name) {
            (Some(m), Some(a)) => if t.state.has_pane() {
                r == Ok::<(String, String), CliError>((m, a))
            } else {
                r matches Err(e) && says(
                    e,
                    "no_agent"@,
                    task::task_name(t.id as int) + " is "@ + t.state.text()
                        + "; nothing to attach to"@,
                )
            },
            _ => r matches Err(e) && says(
                e,
                "no_agent"@,
                task::task_name(t.id as int) + " has no agent yet"@,
            ),
        },
{
    match (&t.machine, &t.agent_name) {
        (Some(m), Some(a)) => {
            if t.state.occupies_pane() {
                return Ok((m.clone(), a.clone()));
            }
            let mut s = t.display_id();
            s.append(" is ");
            s.append(t.state.name());
            s.append("; nothing to attach to");
            Err(CliError { code: "no_agent", message: s })
        },
        _ => {
            let mut s = t.display_id();
            s.append(" has no agent yet");
            Err(CliError { code: "no_agent", message: s })
        },
    }
}

/// What `pastor task attach` runs for an agent on a machine.
pub fn attach(m: &Reach, agent: &str) -> (r: Result<Program, CliError>)
    ensures
        match m.ssh {
            Some(target) => r matches Ok(p) && runs(
                p,
                "ssh"@,
                seq!["-t"@, target@, remote_attach(m.session@, agent@)],
            ),
            None => if m.local {
                r matches Ok(p) && runs(
                    p,
                    "herdr"@,
                    seq!["--session"@, m.session@, "agent"@, "attach"@, agent@],
                )
            } else {
                r matches Err(e) && says(
                    e,
                    "no_terminal"@,
                    "command machines have no terminal to attach to"@,
                )
            },
        },
{
    let mut args: Vec<String> = Vec::new();
    if let Some(target) = &m.ssh {
        args.push("-t".to_owned());
        args.push(target.clone());
        args.push(attach_remote_command(m.session.as_str(), agent));
        assert(text::texts(args@) =~= seq![
            "-t"@,
            target@,
            remote_attach(m.session@, agent@),
        ]);
        return Ok(Program { program: "ssh", args });
    }
    if m.local {
        args.push("--session".to_owned());
        args.push(m.session.clone());
        args.push("agent".to_owned());
        args.push("attach".to_owned());
        args.push(agent.to_owned());
        assert(text::texts(args@) =~= seq![
            "--session"@,
            m.session@,
            "agent"@,
            "attach"@,
            agent@,
        ]);
        return Ok(Program { program: "herdr", args });
    }
    Err(
        CliError {
            code: "no_terminal",
            message: "command machines have no terminal to attach to".to_owned(),
        },
    )
}

/// What `pastor open` runs for a machine.
pub fn open(m: &Reach) -> (r: Result<Program, CliError>)
    ensures
        match m.ssh {
            Some(target) => r matches Ok(p) && runs(
                p,
                "herdr"@,
                seq!["--remote"@, target@, "--session"@, m.session@],
            ),
            None => if m.local {
                r matches Ok(p) && runs(p, "herdr"@, seq!["--session"@, m.session@])
            } else {
                r matches Err(e) && says(e, "no_terminal"@, "command machines have no UI to open"@)
            },
        },
{
    let mut args: Vec<String> = Vec::new();
    if let Some(target) = &m.ssh {
        args.push("--remote".to_owned());
        args.push(target.clone());
        args.push("--session".to_owned());
        args.push(m.session.clone());
        assert(text::texts(args@) =~= seq!["--remote"@, target@, "--session"@, m.session@]);
        return Ok(Program { program: "herdr", args });
    }
    if m.local {
        args.push("--session".to_owned());
        args.push(m.session.clone());
        assert(text::texts(args@) =~= seq!["--session"@, m.session@]);
        return Ok(Program { program: "herdr", args });
    }
    Err(
        CliError {
            code: "no_terminal",
            message: "command machines have no UI to open".to_owned(),
        },
    )
}

// ---------------------------------------------------------------------------
// Jobs

/// What is said of a job that was turned on or off.
pub fn toggled(name: &str, enabled: bool, head: Head) -> (r: String)
    ensures
        r@ == (if enabled {
            "enabled "@
        } else {
            "disabled "@
        }) + name@ + (match head {
            Head::Live => ""@,
            Head::Absent => "; applies when pastor serve starts"@,
        }),
{
    let mut s = if enabled {
        "enabled ".to_owned()
    } else {
        "disabled ".to_owned()
    };
    s.append(name);
    match head {
        Head::Live => {},
        Head::Absent => s.append("; applies when pastor serve starts"),
    }
    proof {
        reveal_strlit("");
        assert(s@ =~= (if enabled {
            "enabled "@
        } else {
            "disabled "@
        }) + name@ + (match head {
            Head::Live => ""@,
            Head::Absent => "; applies when pastor serve starts"@,
        }));
    }
    s
}

// ---------------------------------------------------------------------------
// Editing the flock file

/// What is said of a machine that was added, about herdr's own list of machines.
#[derive(Debug)]
pub enum HerdrNote {
    /// Save it there: herdr is run with these arguments.
    Save { args: Vec<String> },
    /// How to save it there by hand.
    Hint(String),
    /// It is not reached over ssh: there is nothing to save.
    Nothing,
}

/// What follows the adding of a machine, about herdr's own list of machines.
pub fn herdr_note(name: &str, target: Option<&str>, session: &str, herdr: bool) -> (r: HerdrNote)
    ensures
        match target {
            Some(t) => if herdr {
                r matches HerdrNote::Save { args } && text::texts(args@) == seq![
                    "machine"@,
                    "add"@,
                    t@,
                    "--label"@,
                    name@,
                    "--remote-session"@,
                    session@,
                ]
            } else {
                r matches HerdrNote::Hint(s) && s@
                    == "to see it in your laptop's herdr sidebar: herdr machine add "@ + t@
                    + " --label "@ + name@ + " (or pass --herdr)"@
            },
            None => r is Nothing,
        },
{
    let t = match target {
        Some(t) => t,
        None => {
            return HerdrNote::Nothing;
        },
    };
    if herdr {
        let mut args: Vec<String> = Vec::new();
        args.push("machine".to_owned());
        args.push("add".to_owned());
        args.push(t.to_owned());
        args.push("--label".to_owned());
        args.push(name.to_owned());
        args.push("--remote-session".to_owned());
        args.push(session.to_owned());
        assert(text::texts(args@) =~= seq![
            "machine"@,
            "add"@,
            t@,
            "--label"@,
            name@,
            "--remote-session"@,
            session@,
        ]);
        HerdrNote::Save { args }
    } else {
        let mut s = "to see it in your laptop's herdr sidebar: herdr machine add ".to_owned();
        s.append(t);
        s.append(" --label ");
        s.append(name);
        s.append(" (or pass --herdr)");
        HerdrNote::Hint(s)
    }
}

/// What is done about herdr's own list of machines when one is removed.
#[derive(Debug)]
pub enum HerdrRemoval {
    /// Remove the saved machine with this id.
    Remove(String),
    /// No saved machine has the label; these point at the same host, each by id and
    /// label. They are pointed at rather than removed: one host can be saved several
    /// times, for different sessions.
    SameHost(Vec<(String, String)>),
}

/// What is done about herdr's own list of machines when `name` is removed, whose ssh
/// target was `target`. `list` is what `herdr machine list` printed.
pub fn herdr_removal(list: &str, name: &str, target: Option<&str>) -> (r: HerdrRemoval)
    ensures
        ({
            let lines = text::lines(list@);
            let i = labelled_at(lines, name@);
            if i < lines.len() {
                r matches HerdrRemoval::Remove(id) && id@ == columns(lines[i])[0]
            } else {
                r matches HerdrRemoval::SameHost(v) && pair_texts(v@) == match target {
                    Some(t) => targets(lines, t@),
                    None => seq![],
                }
            }
        }),
{
    if let Some(id) = saved_machine_id(list, name) {
        return HerdrRemoval::Remove(id);
    }
    match target {
        Some(t) => HerdrRemoval::SameHost(saved_machines_at(list, t)),
        None => {
            let none: Vec<(String, String)> = Vec::new();
            assert(pair_texts(none@) =~= seq![]);
            HerdrRemoval::SameHost(none)
        },
    }
}

/// A command that edited the flocks.
#[derive(Debug)]
pub enum FlockEdit {
    Add { name: String, default: bool },
    Remove { name: String },
    Default { name: String },
}

impl FlockEdit {
    /// What is said of the edit.
    pub open spec fn text(self) -> Seq<char> {
        match self {
            FlockEdit::Add { name, default } => if default {
                "added flock "@ + name@ + ", now the default"@
            } else {
                "added flock "@ + name@
            },
            FlockEdit::Remove { name } => "removed flock "@ + name@,
            FlockEdit::Default { name } => name@
                + " is the default flock; machines stay in their flocks"@,
        }
    }

    /// What is said of the edit.
    pub fn describe(&self) -> (r: String)
        ensures
            r@ == self.text(),
    {
        match self {
            FlockEdit::Add { name, default } => {
                let mut s = "added flock ".to_owned();
                s.append(name.as_str());
                if *default {
                    s.append(", now the default");
                }
                s
            },
            FlockEdit::Remove { name } => {
                let mut s = "removed flock ".to_owned();
                s.append(name.as_str());
                s
            },
            FlockEdit::Default { name } => {
                let mut s = name.clone();
                s.append(" is the default flock; machines stay in their flocks");
                s
            },
        }
    }
}

/// A head that listens and does not answer is never taken for none, and with flocks in
/// play one that does not know them is refused; one that answers and knows what is asked
/// is worked with.
pub proof fn a_head_is_absent_live_or_in_the_way(
    ping: HeadPing,
    flocks: bool,
    since_flocks: u32,
    socket: &str,
    r: Result<Head, CliError>,
)
    requires
        call_ensures(probe_head, (ping, flocks, since_flocks, socket), r),
    ensures
        ping is NotRunning <==> r == Ok::<Head, CliError>(Head::Absent),
        ping is Unresponsive ==> (r matches Err(e) && e.code@ == "head_unresponsive"@),
        ping matches HeadPing::Pong { protocol, .. } ==> (r == Ok::<Head, CliError>(Head::Live)
            <==> !flocks || protocol >= since_flocks),
        (ping matches HeadPing::Pong { protocol, .. } && flocks && protocol < since_flocks) ==> (
        r matches Err(e) && e.code@ == "head_too_old"@),
{
}

/// What a command asks of the head: commands that edit the flocks or machines, or that
/// are given a flock, bring flocks into play; those that only look at plugins do not ask.
pub proof fn which_commands_ask_the_head(command: Asks, r: Option<bool>)
    requires
        call_ensures(head_use, (command,), r),
    ensures
        r is None <==> command is PluginLook || command is Other,
        r == Some(true) <==> command is MachineEdit || command is FlockEdit || command == (
        Asks::TaskWithFlock { flock: true }) || command == (Asks::MachineList { flock: true }),
{
}

/// A head that may be there is never said to be down: only where nothing listens.
pub proof fn only_an_absent_head_is_said_to_be_down(e: &RequestError, r: (&'static str, String))
    requires
        call_ensures(request_failure, (e,), r),
    ensures
        e is Timeout ==> r.0@ == "timeout"@,
        !(e is Timeout) ==> r.0@ == "runtime_error"@,
        e is NoHead ==> r.1@ == "pastor serve is not running; start it with `pastor serve`"@,
        e matches RequestError::Exchange(why) ==> r.1@ == why@,
{
}

/// What a task is run with: each flag that is given, and the defaults for the agent, its
/// arguments and the time where they are not.
pub proof fn flags_come_before_defaults(a: &RunArgs, d: &Defaults, r: Result<DispatchSpec, String>)
    requires
        call_ensures(run_spec, (a, d), r),
    ensures
        a.timeout is None ==> r is Ok,
        a.timeout matches Some(t) ==> (r is Ok <==> time::duration_secs(t@) is Some),
        r matches Ok(s) ==> {
            &&& a.agent matches Some(x) ==> s.agent == x
            &&& a.agent is None ==> s.agent == d.agent
            &&& a.agent_args@.len() > 0 ==> s.agent_args@ == text::texts(a.agent_args@)
            &&& a.agent_args@.len() == 0 ==> s.agent_args@ == text::texts(d.agent_args@)
            &&& a.timeout matches Some(t) ==> Some(s.timeout_secs as nat) == time::duration_secs(t@)
            &&& a.timeout is None ==> s.timeout_secs == d.timeout.nanos / 1_000_000_000
            &&& s.repo == a.repo && s.branch == a.branch && s.machine == a.machine && s.worktree
                == a.worktree && s.tags@ == text::texts(a.tags@) && s.checkout is None
        },
{
}

/// Which tasks a list shows: blocked or done ones alone where that is asked, all of them
/// with `--all`, and else those that are not over.
pub proof fn which_tasks_a_list_shows(a: &ListArgs, r: Option<Vec<TaskState>>, s: TaskState)
    requires
        call_ensures(list_states, (a,), r),
    ensures
        a.blocked ==> r is Some && (r->0@.contains(s) <==> s is Blocked),
        !a.blocked && a.done ==> r is Some && (r->0@.contains(s) <==> s is Done),
        !a.blocked && !a.done && a.all ==> r is None,
        !a.blocked && !a.done && !a.all ==> r is Some && (r->0@.contains(s) <==> s is Queued
            || s is Starting || s is Running || s is Blocked),
{
    if a.blocked {
        assert(r->0@[0] is Blocked);
    } else if a.done {
        assert(r->0@[0] is Done);
    } else if !a.all {
        the_default_list_shows_live_tasks(*a, s);
    }
}

/// Orphans are listed unless the list is narrowed to a state or a job; the hint about
/// finished tasks comes only where the default view hides them.
pub proof fn what_an_empty_list_says(
    a: &ListArgs,
    orphans: bool,
    hint: Option<&'static str>,
    empty: bool,
    shown: ListShown,
)
    requires
        call_ensures(list_shows_orphans, (a,), orphans),
        call_ensures(list_empty_hint, (a,), hint),
        call_ensures(list_shown, (a, empty), shown),
    ensures
        orphans <==> !a.blocked && !a.done && a.job is None,
        hint is Some <==> !a.blocked && !a.done && !a.all,
        shown is Table <==> !empty,
        empty ==> (shown is Nothing <==> !a.blocked && !a.done && !a.all),
{
    if a.blocked || a.done {
        assert(states_shown(*a)->0.len() == 1);
        assert(live_states().len() == 4);
    }
}

/// A list is narrowed to a flock by its name; without one every machine is shown.
pub proof fn a_flock_narrows_the_machines(machine_flock: &str, flock: Option<&str>, b: bool)
    requires
        call_ensures(machine_shown, (machine_flock, flock), b),
    ensures
        flock is None ==> b,
        flock matches Some(f) ==> (b <==> f@ == machine_flock@),
{
}

/// A probe that got no count of agents does not show one, and says why; one of a herdr
/// that is too old says so.
pub proof fn what_a_probe_shows(
    ping: Result<Pong, Failure>,
    agents: Option<Result<usize, Failure>>,
    r: ProbeFields,
)
    requires
        call_ensures(probe_fields, (ping, agents), r),
    ensures
        ping matches Ok(p) ==> r.channel@ == "probed"@ && r.herdr_version == Some(p.version)
            && r.protocol == Some(p.protocol),
        (ping is Ok && (agents matches Some(Ok(n)))) ==> r.agents == Some(agents->0->Ok_0),
        ping is Ok && (agents is None || agents->0 is Err) ==> r.agents is None && r.error is Some,
        (ping is Ok && (agents matches Some(Ok(_)))) ==> (r.error is None <==> ping->Ok_0.protocol
            >= 22),
        ping is Err ==> r.agents is None && r.error is Some,
{
}

/// Only a task that holds a pane on a machine, with an agent's name, is attached to.
pub proof fn only_a_live_agent_is_attached_to(t: &Task, r: Result<(String, String), CliError>)
    requires
        call_ensures(attach_target, (t,), r),
    ensures
        r is Ok <==> t.machine is Some && t.agent_name is Some && (t.state is Starting
            || t.state is Running || t.state is Blocked || t.state is Done || t.state is Stale),
        r matches Ok((m, a)) ==> Some(m) == t.machine && Some(a) == t.agent_name,
        r matches Err(e) ==> e.code@ == "no_agent"@,
{
}

/// A machine behind ssh is attached to and opened there, a local one here, and one behind
/// a command not at all.
pub proof fn how_a_machine_is_reached_by_hand(
    m: &Reach,
    agent: &str,
    attached: Result<Program, CliError>,
    opened: Result<Program, CliError>,
)
    requires
        call_ensures(attach, (m, agent), attached),
        call_ensures(open, (m,), opened),
    ensures
        attached is Ok <==> m.ssh is Some || m.local,
        opened is Ok <==> m.ssh is Some || m.local,
        m.ssh matches Some(target) ==> attached->Ok_0.program@ == "ssh"@ && text::texts(
            attached->Ok_0.args@,
        )[1] == target@ && opened->Ok_0.program@ == "herdr"@ && text::texts(opened->Ok_0.args@)[1]
            == target@ && text::texts(opened->Ok_0.args@)[3] == m.session@,
        m.ssh is None && m.local ==> attached->Ok_0.program@ == "herdr"@ && text::texts(
            attached->Ok_0.args@,
        )[1] == m.session@ && text::texts(attached->Ok_0.args@)[4] == agent@ && text::texts(
            opened->Ok_0.args@,
        )[1] == m.session@,
{
}

/// The saved machine of a label is the first line whose second column is the label, and
/// its id is the first column.
pub proof fn a_saved_machine_is_found_by_its_label(list: &str, label: &str, r: Option<String>, i: int)
    requires
        call_ensures(saved_machine_id, (list, label), r),
        0 <= i < text::lines(list@).len(),
        text::pieces(text::lines(list@)[i], '\t').len() > 1,
        text::pieces(text::lines(list@)[i], '\t')[1] == label@,
        forall|k: int|
            0 <= k < i ==> text::pieces(#[trigger] text::lines(list@)[k], '\t').len() < 2
                || text::pieces(text::lines(list@)[k], '\t')[1] != label@,
    ensures
        r matches Some(id) && id@ == text::pieces(text::lines(list@)[i], '\t')[0],
{
    lemma_labelled(text::lines(list@), label@, i);
}

proof fn lemma_labelled(lines: Seq<Seq<char>>, label: Seq<char>, i: int)
    requires
        0 <= i < lines.len(),
        columns(lines[i]).len() > 1,
        columns(lines[i])[1] == label,
        forall|k: int|
            0 <= k < i ==> text::pieces(#[trigger] lines[k], '\t').len() < 2 || text::pieces(
                lines[k],
                '\t',
            )[1] != label,
    ensures
        labelled_at(lines, label) == i,
    decreases lines.len(),
{
    let rest = lines.drop_last();
    if i < rest.len() {
        assert(rest[i] == lines[i]);
        assert forall|k: int| 0 <= k < i implies text::pieces(#[trigger] rest[k], '\t').len() < 2
            || text::pieces(rest[k], '\t')[1] != label by {
            assert(rest[k] == lines[k]);
        }
        lemma_labelled(rest, label, i);
    } else {
        assert forall|k: int| 0 <= k < rest.len() implies !(columns(#[trigger] rest[k]).len() > 1
            && columns(rest[k])[1] == label) by {
            assert(rest[k] == lines[k]);
            assert(text::pieces(lines[k], '\t').len() < 2 || text::pieces(lines[k], '\t')[1] != label);
        }
        lemma_none_labelled(rest, label);
    }
}

proof fn lemma_none_labelled(lines: Seq<Seq<char>>, label: Seq<char>)
    requires
        forall|k: int|
            0 <= k < lines.len() ==> !(columns(#[trigger] lines[k]).len() > 1 && columns(lines[k])[1]
                == label),
    ensures
        labelled_at(lines, label) == lines.len(),
    decreases lines.len(),
{
    if lines.len() > 0 {
        let rest = lines.drop_last();
        assert forall|k: int| 0 <= k < rest.len() implies !(columns(#[trigger] rest[k]).len() > 1
            && columns(rest[k])[1] == label) by {
            assert(rest[k] == lines[k]);
        }
        lemma_none_labelled(rest, label);
        assert(lines[lines.len() - 1] == lines.last());
    }
}

/// The host's name is what the first file says that says anything, without the white
/// space around it; only where none does the environment counts.
pub proof fn the_first_file_names_the_host(
    files: &Vec<Option<String>>,
    env: Option<String>,
    r: String,
    i: int,
)
    requires
        call_ensures(hostname, (files, env), r),
        0 <= i <= files@.len(),
        forall|k: int| 0 <= k < i ==> blank(#[trigger] files@[k]),
        i < files@.len() ==> !blank(files@[i]),
    ensures
        i < files@.len() ==> r@ == text::trim_end(
            text::trim_start(files@[i]->0@, Trim::Space),
            Trim::Space,
        ),
        i == files@.len() && (env matches Some(e) && e@.len() > 0) ==> Some(r@) == text::opt_text(env),
        i == files@.len() && (env is None || env->0@.len() == 0) ==> r@ == "-"@,
{
    lemma_none_said(files@.take(i));
    if i < files@.len() {
        assert(files@.take(i + 1).drop_last() =~= files@.take(i));
        assert(files@.take(i + 1).last() == files@[i]);
        lemma_first_said_stays(files@, i + 1);
    } else {
        assert(files@.take(i) =~= files@);
    }
}

/// The file is not there, or says nothing.
pub open spec fn blank(file: Option<String>) -> bool {
    file matches Some(t) ==> text::trim_end(text::trim_start(t@, Trim::Space), Trim::Space).len() == 0
}

proof fn lemma_none_said(found: Seq<Option<String>>)
    requires
        forall|k: int| 0 <= k < found.len() ==> blank(#[trigger] found[k]),
    ensures
        first_said(found) is None,
    decreases found.len(),
{
    if found.len() > 0 {
        let rest = found.drop_last();
        assert forall|k: int| 0 <= k < rest.len() implies blank(#[trigger] rest[k]) by {
            assert(rest[k] == found[k]);
        }
        lemma_none_said(rest);
        assert(blank(found[found.len() - 1]));
    }
}

/// A saved machine is at a target exactly if its line's third column says so; it is named
/// by the first two.
pub proof fn which_saved_machines_are_at_a_target(
    list: &str,
    target: &str,
    r: Vec<(String, String)>,
    id: Seq<char>,
    label: Seq<char>,
)
    requires
        call_ensures(saved_machines_at, (list, target), r),
    ensures
        pair_texts(r@).contains((id, label)) <==> exists|i: int|
            0 <= i < text::lines(list@).len() && {
                let c = text::pieces(#[trigger] text::lines(list@)[i], '\t');
                c.len() > 2 && c[0] == id && c[1] == label && c[2] == target@
            },
{
    lemma_targets(text::lines(list@), target@, (id, label));
}

proof fn lemma_targets(lines: Seq<Seq<char>>, target: Seq<char>, x: (Seq<char>, Seq<char>))
    ensures
        targets(lines, target).contains(x) <==> exists|i: int|
            0 <= i < lines.len() && {
                let c = text::pieces(#[trigger] lines[i], '\t');
                c.len() > 2 && c[0] == x.0 && c[1] == x.1 && c[2] == target
            },
    decreases lines.len(),
{
    let all = targets(lines, target);
    if lines.len() > 0 {
        let rest = lines.drop_last();
        let first = targets(rest, target);
        lemma_targets(rest, target, x);
        let n = lines.len() - 1;
        if all.contains(x) {
            let k = all.index_of(x);
            if k < first.len() {
                assert(first[k] == x);
                let i = choose|i: int|
                    0 <= i < rest.len() && {
                        let c = text::pieces(#[trigger] rest[i], '\t');
                        c.len() > 2 && c[0] == x.0 && c[1] == x.1 && c[2] == target
                    };
                assert(lines[i] == rest[i]);
            } else {
                assert(columns(lines[n]).len() > 2);
            }
        }
        if exists|i: int|
            0 <= i < lines.len() && {
                let c = text::pieces(#[trigger] lines[i], '\t');
                c.len() > 2 && c[0] == x.0 && c[1] == x.1 && c[2] == target
            } {
            let i = choose|i: int|
                0 <= i < lines.len() && {
                    let c = text::pieces(#[trigger] lines[i], '\t');
                    c.len() > 2 && c[0] == x.0 && c[1] == x.1 && c[2] == target
                };
            if i < n {
                assert(rest[i] == lines[i]);
                let k = first.index_of(x);
                assert(all[k] == x);
            } else {
                assert(columns(lines[n])[2] == target);
                assert(all[all.len() - 1] == x);
            }
        }
    }
}

} // verus!
