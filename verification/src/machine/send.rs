//! `pastor task send`: typing into the pane of a live task.

use vstd::prelude::*;
use vstd::string::*;

use crate::json;
use crate::json::Json;
use crate::machine::observe;
use crate::machine::status::Agents;
use crate::task;
use crate::task::Task;
use crate::task::TaskState;
use crate::text;

verus! {

/// What `pastor task send` types into a task's pane: `text` first, then
/// Enter if `enter`, then each of `keys` in order.
#[derive(Debug, Clone, PartialEq, Eq)]
pub struct SendInput {
    pub text: Option<String>,
    /// Press Enter after `text`. Ignored without text.
    pub enter: bool,
    /// Named keys (`Enter`, `Down`, `esc`, `ctrl+c`), pressed after the text.
    pub keys: Vec<String>,
    /// Send the agent's trust keys instead, and save the task's (machine, repo)
    /// as trusted. Never with text or keys.
    pub trust: bool,
}

impl Default for SendInput {
    fn default() -> (r: SendInput)
        ensures
            r.text is None,
            !r.enter,
            r.keys@.len() == 0,
            !r.trust,
    {
        SendInput { text: None, enter: false, keys: Vec::new(), trust: false }
    }
}

/// The key names, if there are any.
pub open spec fn with_keys(m: Map<Seq<char>, Json>, keys: Seq<Seq<char>>) -> Map<Seq<char>, Json> {
    if keys.len() == 0 {
        m
    } else {
        m.insert("keys"@, json::json_texts(keys))
    }
}

/// What is recorded of an input: the length of its text, if it has one, and the
/// keys pressed.
pub open spec fn recorded(text_len: Option<nat>, keys: Seq<Seq<char>>) -> Json {
    Json::Object(
        with_keys(
            match text_len {
                Some(n) => json::no_entries().insert("text_len"@, Json::Count(n)),
                None => json::no_entries(),
            },
            keys,
        ),
    )
}

/// What is recorded of an answer to the trust prompt.
pub open spec fn trust_recorded(keys: Seq<Seq<char>>) -> Json {
    Json::Object(
        json::no_entries().insert("keys"@, json::json_texts(keys)).insert(
            "trust"@,
            Json::Flag(true),
        ),
    )
}

fn trust_record(keys: Vec<String>) -> (r: serde_json::Value)
    ensures
        json::json_value(r) == trust_recorded(text::texts(keys@)),
{
    let mut m = json::object();
    json::insert(&mut m, "keys".to_owned(), json::strings(keys));
    json::insert(&mut m, "trust".to_owned(), json::flag(true));
    json::whole(m)
}

/// What an event records of keys that saved trust sent.
pub fn keys_detail(keys: Vec<String>) -> (r: serde_json::Value)
    ensures
        json::json_value(r) == Json::Object(
            json::no_entries().insert("keys"@, json::json_texts(text::texts(keys@))),
        ),
{
    let mut m = json::object();
    json::insert(&mut m, "keys".to_owned(), json::strings(keys));
    json::whole(m)
}

/// What an event records of the question an agent waits on.
pub fn question_detail(question: String) -> (r: serde_json::Value)
    ensures
        json::json_value(r) == Json::Object(
            json::no_entries().insert("question"@, Json::Text(question@)),
        ),
{
    let mut m = json::object();
    json::insert(&mut m, "question".to_owned(), json::string(question));
    json::whole(m)
}

/// The number of characters of the text, if there is one.
pub open spec fn text_len(text: Option<String>) -> Option<nat> {
    match text {
        Some(t) => Some(t@.len()),
        None => None,
    }
}

impl SendInput {
    /// The keys pressed, in order: Enter after text if asked, then `keys`.
    pub open spec fn pressed(self) -> Seq<Seq<char>> {
        (if self.text is Some && self.enter {
            seq!["Enter"@]
        } else {
            seq![]
        }) + text::texts(self.keys@)
    }

    /// The keys pressed, in order: Enter after text if asked, then `keys`.
    pub fn key_sequence(&self) -> (r: Vec<String>)
        ensures
            text::texts(r@) == self.pressed(),
    {
        let mut r: Vec<String> = Vec::new();
        if self.text.is_some() && self.enter {
            r.push("Enter".to_owned());
        }
        let ghost first = text::texts(r@);
        let n: usize = r.len();
        let mut i: usize = 0;
        while i < self.keys.len()
            invariant
                i <= self.keys@.len(),
                n == first.len(),
                r@.len() == n + i,
                forall|k: int| 0 <= k < n ==> (#[trigger] r@[k])@ == first[k],
                forall|k: int| n <= k < n + i ==> (#[trigger] r@[k])@ == self.keys@[k - n]@,
            decreases self.keys@.len() - i,
        {
            r.push(self.keys[i].clone());
            i = i + 1;
        }
        assert(first =~= if self.text is Some && self.enter {
            seq!["Enter"@]
        } else {
            seq![]
        });
        assert(text::texts(r@) =~= self.pressed());
        r
    }

    /// Whether there is nothing to send.
    pub fn is_empty(&self) -> (b: bool)
        ensures
            b == (self.text is None && self.keys@.len() == 0 && !self.trust),
    {
        self.text.is_none() && self.keys.len() == 0 && !self.trust
    }

    /// What `task.input` records: the key names and the length of the text,
    /// never the text, which may hold a secret.
    pub fn detail(&self) -> (r: serde_json::Value)
        ensures
            json::json_value(r) == recorded(text_len(self.text), self.pressed()),
    {
        let mut d = json::object();
        if let Some(t) = &self.text {
            json::insert(&mut d, "text_len".to_owned(), json::number(t.as_str().unicode_len()));
        }
        let keys = self.key_sequence();
        assert(text::texts(keys@).len() == keys@.len());
        if keys.len() > 0 {
            json::insert(&mut d, "keys".to_owned(), json::strings(keys));
        }
        json::whole(d)
    }
}

/// Two inputs that differ only in a text of the same length leave the same
/// record: what is recorded tells nothing else of the text.
pub proof fn the_record_hides_the_text(
    a: SendInput,
    b: SendInput,
    r: serde_json::Value,
    s: serde_json::Value,
)
    requires
        a.text is Some,
        b.text is Some,
        a.text->0@.len() == b.text->0@.len(),
        a.enter == b.enter,
        text::texts(a.keys@) == text::texts(b.keys@),
        json::json_value(r) == recorded(text_len(a.text), a.pressed()),
        json::json_value(s) == recorded(text_len(b.text), b.pressed()),
    ensures
        json::json_value(r) == json::json_value(s),
{
}

/// `Send` refused before it typed anything, for a reason the CLI reports
/// under its own code (`task_not_live`, ...).
#[derive(Debug)]
pub struct SendRefused {
    pub code: &'static str,
    pub message: String,
}

/// A refusal with its code and its message.
pub open spec fn refuses(r: SendRefused, code: Seq<char>, message: Seq<char>) -> bool {
    r.code@ == code && r.message@ == message
}

/// The pane of a task that takes input on a machine: starting with a pane
/// already, running, blocked, or done with its pane still open.
pub open spec fn live_on(t: Task, machine: Seq<char>) -> Option<String> {
    if t.on(machine) && (t.state is Starting || t.state is Running || t.state is Blocked
        || t.state is Done) {
        t.pane_id
    } else {
        None
    }
}

/// Why a task that is not live takes no input.
pub open spec fn not_live_text(t: Task) -> Seq<char> {
    task::task_name(t.id as int) + " is "@ + t.state.text()
        + "; only a starting, running, blocked or done task with a pane takes input"@
}

/// The pane of `task` if it is live on `machine`: starting with a pane
/// already, running, blocked, or done with its pane still open (an agent
/// marked done too early can be told to finish). Anything else has no agent
/// to type into.
pub fn live_pane(task: &Task, machine: &str) -> (r: Result<String, SendRefused>)
    ensures
        match (r, live_on(*task, machine@)) {
            (Ok(p), Some(pane)) => p == pane,
            (Err(e), None) => refuses(e, "task_not_live"@, not_live_text(*task)),
            _ => false,
        },
{
    let live = matches!(
        task.state,
        TaskState::Starting | TaskState::Running | TaskState::Blocked | TaskState::Done
    );
    if live && task.is_on(machine) {
        if let Some(p) = &task.pane_id {
            return Ok(p.clone());
        }
    }
    let mut m = task.display_id();
    m.append(" is ");
    m.append(task.state.name());
    m.append("; only a starting, running, blocked or done task with a pane takes input");
    Err(SendRefused { code: "task_not_live", message: m })
}

/// What a send types, and where.
#[derive(Debug)]
pub struct SendPlan {
    pub pane: String,
    pub text: Option<String>,
    pub keys: Vec<String>,
    /// What the `task.input` event records of it.
    pub detail: serde_json::Value,
}

/// Why a send is refused, as code and message, if it is.
pub open spec fn send_refusal(
    row: Option<Task>,
    task_id: int,
    machine: Seq<char>,
    input: SendInput,
    agents: Agents,
) -> Option<(Seq<char>, Seq<char>)> {
    match row {
        None => Some(("task_not_found"@, task::task_name(task_id) + " not found"@)),
        Some(t) => if live_on(t, machine) is None {
            Some(("task_not_live"@, not_live_text(t)))
        } else if input.text is None && input.keys@.len() == 0 && !input.trust {
            Some(("nothing_to_send"@, "give text, --key or --trust"@))
        } else if input.trust && !observe::at_startup_prompt(t) {
            Some(
                (
                    "not_at_trust_prompt"@,
                    task::task_name(t.id as int) + " is "@ + t.state.text()
                        + " and not waiting on its startup prompt; --trust answers only a task blocked while it starts"@,
                ),
            )
        } else if input.trust && agents.keys_of(t.spec.agent@) is None {
            Some(
                (
                    "no_trust_keys"@,
                    "agent "@ + t.spec.agent@ + " has no trust_keys; set [agents."@ + t.spec.agent@
                        + "] trust_keys in pastor.toml"@,
                ),
            )
        } else {
            None
        },
    }
}

/// What a send that is not refused types: the text and keys of the input, or
/// the agent's trust keys alone.
pub open spec fn sends(t: Task, machine: Seq<char>, input: SendInput, agents: Agents, plan: SendPlan) -> bool {
    &&& live_on(t, machine) == Some(plan.pane)
    &&& if input.trust {
        &&& plan.text is None
        &&& Some(text::texts(plan.keys@)) == agents.keys_of(t.spec.agent@)
        &&& json::json_value(plan.detail) == trust_recorded(text::texts(plan.keys@))
    } else {
        &&& text::opt_text(plan.text) == text::opt_text(input.text)
        &&& text::texts(plan.keys@) == input.pressed()
        &&& json::json_value(plan.detail) == recorded(text_len(input.text), input.pressed())
    }
}

/// What `MachineCommand::Send` does first: refuse, or say what goes into the
/// task's pane. `--trust` answers only the startup prompt: keys sent while the
/// agent starts can land before the dialog, and keys sent to a working agent go
/// into its own UI.
pub fn run_send(
    row: &Option<Task>,
    task_id: i64,
    machine: &str,
    input: &SendInput,
    agents: &Agents,
) -> (r: Result<SendPlan, SendRefused>)
    ensures
        match (r, send_refusal(*row, task_id as int, machine@, *input, *agents)) {
            (Ok(plan), None) => sends(row->0, machine@, *input, *agents, plan),
            (Err(e), Some((code, message))) => refuses(e, code, message),
            _ => false,
        },
{
    let task = match row {
        Some(t) => t,
        None => {
            let mut m = Task::agent_name_for(task_id);
            m.append(" not found");
            return Err(SendRefused { code: "task_not_found", message: m });
        },
    };
    let pane = match live_pane(task, machine) {
        Ok(p) => p,
        Err(e) => {
            return Err(e);
        },
    };
    if input.is_empty() {
        return Err(
            SendRefused {
                code: "nothing_to_send",
                message: "give text, --key or --trust".to_owned(),
            },
        );
    }
    if !input.trust {
        let text = input.text.clone();
        return Ok(SendPlan { pane, text, keys: input.key_sequence(), detail: input.detail() });
    }
    if !observe::is_at_startup_prompt(task) {
        let mut m = task.display_id();
        m.append(" is ");
        m.append(task.state.name());
        m.append(
            " and not waiting on its startup prompt; --trust answers only a task blocked while it starts",
        );
        return Err(SendRefused { code: "not_at_trust_prompt", message: m });
    }
    match agents.trust_keys(task.spec.agent.as_str()) {
        None => {
            let mut m = "agent ".to_owned();
            m.append(task.spec.agent.as_str());
            m.append(" has no trust_keys; set [agents.");
            m.append(task.spec.agent.as_str());
            m.append("] trust_keys in pastor.toml");
            Err(SendRefused { code: "no_trust_keys", message: m })
        },
        Some(keys) => {
            let detail = trust_record(text::copy_texts(&keys));
            Ok(SendPlan { pane, text: None, keys, detail })
        },
    }
}

/// What follows a send that herdr took.
#[derive(Debug)]
pub enum AfterSend {
    /// A done task was given more to do: it runs again.
    Reopen,
    /// The trust prompt is answered: saved trust must not answer it again, and
    /// the repository is saved as trusted, if there is one.
    Trusted { repo: Option<String> },
    /// Nothing.
    Nothing,
}

/// What follows a send that herdr took.
pub fn after_send(t: &Task, trust: bool) -> (r: AfterSend)
    ensures
        r == if t.state is Done {
            AfterSend::Reopen
        } else if trust {
            AfterSend::Trusted { repo: t.spec.repo }
        } else {
            AfterSend::Nothing
        },
{
    if matches!(t.state, TaskState::Done) {
        AfterSend::Reopen
    } else if trust {
        AfterSend::Trusted { repo: t.spec.repo.clone() }
    } else {
        AfterSend::Nothing
    }
}

/// Input goes only to a task with a pane on the machine that is starting, running,
/// blocked or done; there has to be something to send; and `--trust` answers only a task
/// blocked with its own prompt pending, whose agent has trust keys.
pub proof fn a_send_needs_a_live_task_and_something_to_send(
    row: &Option<Task>,
    task_id: i64,
    machine: &str,
    input: &SendInput,
    agents: &Agents,
    r: Result<SendPlan, SendRefused>,
)
    requires
        call_ensures(run_send, (row, task_id, machine, input, agents), r),
    ensures
        row is None ==> (r matches Err(e) && e.code@ == "task_not_found"@),
        row matches Some(t) ==> {
            let live = t.machine is Some && t.machine->0@ == machine@ && t.pane_id is Some && (
            t.state is Starting || t.state is Running || t.state is Blocked || t.state is Done);
            let empty = input.text is None && input.keys@.len() == 0 && !input.trust;
            let asked = t.state is Blocked && t.prompt_pending;
            &&& !live ==> (r matches Err(e) && e.code@ == "task_not_live"@)
            &&& live && empty ==> (r matches Err(e) && e.code@ == "nothing_to_send"@)
            &&& live && input.trust && !asked ==> (r matches Err(e) && e.code@
                == "not_at_trust_prompt"@)
            &&& live && input.trust && asked && agents.keys_of(t.spec.agent@) is None ==> (r matches Err(
                e,
            ) && e.code@ == "no_trust_keys"@)
            &&& live && input.trust && asked && agents.keys_of(t.spec.agent@) is Some ==> (r matches Ok(
                plan,
            ) && plan.pane == t.pane_id->0 && plan.text is None && text::texts(plan.keys@)
                == agents.keys_of(t.spec.agent@)->0)
            &&& live && !input.trust && !empty ==> (r matches Ok(plan) && plan.pane == t.pane_id->0
                && text::opt_text(plan.text) == text::opt_text(input.text) && text::texts(plan.keys@)
                == (if input.text is Some && input.enter {
                seq!["Enter"@] + text::texts(input.keys@)
            } else {
                text::texts(input.keys@)
            }))
        },
{
    let none: Seq<Seq<char>> = seq![];
    assert(none + text::texts(input.keys@) =~= text::texts(input.keys@));
}

/// Where a send leads: a done task runs again, and an answered trust prompt is recorded
/// with its repository.
pub proof fn what_follows_a_send(t: &Task, trust: bool, r: AfterSend)
    requires
        call_ensures(after_send, (t, trust), r),
    ensures
        r is Reopen <==> t.state is Done,
        !(t.state is Done) && trust ==> r == (AfterSend::Trusted { repo: t.spec.repo }),
        !(t.state is Done) && !trust ==> r is Nothing,
{
}

/// Enter is pressed only behind a text, and only if asked for; the named keys follow in
/// their order. A request with neither, and without trust, is empty.
pub proof fn which_keys_are_pressed(input: &SendInput, keys: Vec<String>, empty: bool)
    requires
        call_ensures(SendInput::key_sequence, (input,), keys),
        call_ensures(SendInput::is_empty, (input,), empty),
    ensures
        input.text is Some && input.enter ==> keys@.len() == input.keys@.len() + 1 && keys@[0]@ == "Enter"@
            && forall|i: int| 0 <= i < input.keys@.len() ==> #[trigger] keys@[i + 1]@ == input.keys@[i]@,
        input.text is None || !input.enter ==> keys@.len() == input.keys@.len() && forall|i: int|
            0 <= i < keys@.len() ==> (#[trigger] keys@[i])@ == input.keys@[i]@,
        empty ==> keys@.len() == 0 && input.text is None && !input.trust,
        !empty <==> input.text is Some || input.keys@.len() > 0 || input.trust,
{
    let t = text::texts(keys@);
    let own = text::texts(input.keys@);
    assert(t.len() == keys@.len());
    assert(own.len() == input.keys@.len());
    assert(forall|i: int| 0 <= i < t.len() ==> t[i] == (#[trigger] keys@[i])@);
    assert(forall|i: int| 0 <= i < own.len() ==> own[i] == (#[trigger] input.keys@[i])@);
    if input.text is Some && input.enter {
        assert forall|i: int| 0 <= i < input.keys@.len() implies #[trigger] keys@[i + 1]@
            == input.keys@[i]@ by {
            assert(t[i + 1] == own[i]);
        }
    }
}

/// Input goes to the pane of a task that is on this machine and has one, and has neither
/// ended nor gone stale nor is still queued.
pub proof fn only_a_live_task_takes_input(t: &Task, machine: &str, r: Result<String, SendRefused>)
    requires
        call_ensures(live_pane, (t, machine), r),
    ensures
        r is Ok <==> (t.machine matches Some(m) && m@ == machine@) && t.pane_id is Some
            && t.state !is Queued && t.state !is Stale && t.state !is Failed && t.state !is Closed,
        r matches Ok(p) ==> Some(p) == t.pane_id,
        r matches Err(e) ==> e.code@ == "task_not_live"@,
{
}

} // verus!
