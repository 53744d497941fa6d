//! One pass of one job: ask its connector, drop seen keys, queue a task per new
//! item, record the run.

use vstd::prelude::*;
use vstd::string::*;

use crate::digits;
use crate::schedule::Schedule;
use crate::scheduler::item;
use crate::scheduler::item::Item;
use crate::scheduler::report;
use crate::scheduler::report::JobRunReport;
use crate::scheduler::report::RunOutcome;
use crate::task;
use crate::task::DispatchSpec;
use crate::task::Task;
use crate::text;
use crate::time;
use crate::time::Duration;
use crate::time::Timestamp;

verus! {

/// A job, as its file says.
#[derive(Debug)]
pub struct Job {
    pub name: String,
    pub schedule: Schedule,
    pub enabled: bool,
    pub connector: String,
    /// The connector's own settings, as JSON.
    pub connector_config: String,
    pub prompt: String,
    pub max_tasks_per_run: u32,
    /// How far back the first run looks.
    pub backfill: Duration,
    pub spec: DispatchSpec,
}

impl Job {
    /// Two jobs that say the same.
    pub open spec fn same_as(self, other: Job) -> bool {
        &&& self.schedule.same_as(other.schedule)
        &&& self == (Job { schedule: self.schedule, ..other })
    }
}

impl Clone for Job {
    fn clone(&self) -> (r: Job)
        ensures
            r.same_as(*self),
    {
        Job {
            name: self.name.clone(),
            schedule: self.schedule.clone(),
            enabled: self.enabled,
            connector: self.connector.clone(),
            connector_config: self.connector_config.clone(),
            prompt: self.prompt.clone(),
            max_tasks_per_run: self.max_tasks_per_run,
            backfill: self.backfill,
            spec: self.spec.clone(),
        }
    }
}

/// What the store keeps of a job.
#[derive(Debug)]
pub struct JobState {
    pub name: String,
    /// Where the connector left off, in its own words.
    pub cursor: Option<String>,
    pub last_run_at: Option<Timestamp>,
    /// The last run that left nothing to ask for again.
    pub last_ok_at: Option<Timestamp>,
    pub last_result: Option<String>,
    pub last_error: Option<String>,
    /// Connector failures in a row.
    pub failures: u32,
    /// A retry time after a failure.
    pub backoff_until: Option<Timestamp>,
}

/// What the store keeps of a job, or that of a job that never ran; or the report
/// of a run that cannot start because the store failed.
pub fn job_state(job: &Job, read: Result<Option<JobState>, String>) -> (r: Result<
    JobState,
    JobRunReport,
>)
    ensures
        match read {
            Ok(Some(s)) => r == Ok::<JobState, JobRunReport>(s),
            Ok(None) => r == Ok::<JobState, JobRunReport>(
                (JobState {
                    name: job.name,
                    cursor: None,
                    last_run_at: None,
                    last_ok_at: None,
                    last_result: None,
                    last_error: None,
                    failures: 0,
                    backoff_until: None,
                }),
            ),
            Err(e) => r matches Err(rep) && rep.bare(job.name@, RunOutcome::Failed)
                && text::opt_text(rep.error) == Some("job state: "@ + e@),
        },
{
    match read {
        Ok(Some(s)) => Ok(s),
        Ok(None) => Ok(
            JobState {
                name: job.name.clone(),
                cursor: None,
                last_run_at: None,
                last_ok_at: None,
                last_result: None,
                last_error: None,
                failures: 0,
                backoff_until: None,
            },
        ),
        Err(e) => {
            let mut m = "job state: ".to_owned();
            m.append(e.as_str());
            Err(JobRunReport::with_error(job.name.as_str(), RunOutcome::Failed, Some(m)))
        },
    }
}

/// What a connector is asked.
#[derive(Debug)]
pub struct RunInput {
    pub config: String,
    pub cursor: Option<String>,
    pub since: Timestamp,
    pub now: Timestamp,
}

/// How far back a first run looks, in nanoseconds.
pub open spec fn look_back(backfill: Duration) -> int {
    if backfill.nanos <= time::MAX_DELTA_NANOS {
        backfill.nanos as int
    } else {
        0
    }
}

/// What the connector is asked: everything since the last run that left nothing
/// behind, or since `backfill` ago.
pub fn run_input(job: &Job, state: &JobState, now: Timestamp) -> (r: RunInput)
    requires
        now.valid(),
        state.last_ok_at is None ==> time::in_time(now.nanos - look_back(job.backfill)),
    ensures
        r.config == job.connector_config,
        r.cursor == state.cursor,
        r.now == now,
        r.since == match state.last_ok_at {
            Some(t) => t,
            None => Timestamp { nanos: (now.nanos - look_back(job.backfill)) as i128 },
        },
{
    let since = match state.last_ok_at {
        Some(t) => t,
        None => if job.backfill.nanos <= time::MAX_DELTA_NANOS {
            Timestamp { nanos: now.nanos - job.backfill.nanos as i128 }
        } else {
            now
        },
    };
    RunInput { config: job.connector_config.clone(), cursor: state.cursor.clone(), since, now }
}

/// What a connector handed out.
#[derive(Debug)]
pub struct RunOutput {
    pub items: Vec<Item>,
    pub cursor: Option<String>,
    /// What it had to say.
    pub logs: Vec<String>,
}

/// What a run leads to.
#[derive(Debug)]
pub struct RunEnd {
    pub report: JobRunReport,
    /// The job's state to save.
    pub save: Option<JobState>,
    /// The connector may forget what it handed out.
    pub ack: bool,
    /// The tasks queued, in order; a `task.queued` event for each.
    pub queued: Vec<i64>,
    /// A `job.failed` event.
    pub job_failed: bool,
}

// ---------------------------------------------------------------------------
// The items of a run

/// What the store answered about an item: whether its key was seen, and what
/// became of its task.
pub struct Answer {
    pub seen: Result<bool, String>,
    pub insert: Result<i64, String>,
}

/// What a run came to so far.
#[verifier::ext_equal]
pub struct Tally {
    pub created: Seq<Seq<char>>,
    pub queued: Seq<i64>,
    pub skipped_seen: nat,
    pub deferred: nat,
    pub problems: Seq<Seq<char>>,
    pub insert_failed: bool,
    /// The store could not tell whether a key was seen: the run ends there.
    pub halted: Option<Seq<char>>,
}

/// A run that has looked at no item.
pub open spec fn nothing_yet() -> Tally {
    Tally {
        created: seq![],
        queued: seq![],
        skipped_seen: 0,
        deferred: 0,
        problems: seq![],
        insert_failed: false,
        halted: None,
    }
}

/// The item has a key, and no item before it has the same.
pub open spec fn counts(items: Seq<Item>, i: int) -> bool {
    items[i].key@.len() > 0 && forall|j: int|
        0 <= j < i ==> (#[trigger] items[j]).key@ != items[i].key@
}

/// The item is new and would become a task: only now is the store asked to insert
/// it.
pub open spec fn wanted(t: Tally, items: Seq<Item>, i: int, a: Answer, max: int, dry_run: bool) -> bool {
    &&& t.halted is None
    &&& counts(items, i)
    &&& a.seen == Ok::<bool, String>(false)
    &&& item::item_problem(items[i]) is None
    &&& t.created.len() < max
    &&& !dry_run
}

/// What one more item, and what the store answered about it, adds.
pub open spec fn tally_one(t: Tally, items: Seq<Item>, i: int, a: Answer, max: int, dry_run: bool) -> Tally {
    let key = items[i].key@;
    if t.halted is Some || !counts(items, i) {
        t
    } else {
        match a.seen {
            Err(e) => Tally { halted: Some(e@), ..t },
            Ok(true) => Tally { skipped_seen: t.skipped_seen + 1, ..t },
            Ok(false) => match item::item_problem(items[i]) {
                Some(why) => Tally { problems: t.problems.push(key + ": rejected: "@ + why), ..t },
                None => if t.created.len() >= max {
                    Tally { deferred: t.deferred + 1, ..t }
                } else if dry_run {
                    Tally { created: t.created.push(key), ..t }
                } else {
                    match a.insert {
                        Ok(id) => Tally {
                            created: t.created.push(task::task_name(id as int)),
                            queued: t.queued.push(id),
                            ..t
                        },
                        Err(e) => Tally {
                            problems: t.problems.push(key + ": "@ + e@),
                            insert_failed: true,
                            ..t
                        },
                    }
                },
            },
        }
    }
}

/// The first item from `i` on that counts, or the number of them.
pub open spec fn next_item(items: Seq<Item>, i: int) -> int
    decreases items.len() - i,
{
    if i >= items.len() {
        items.len() as int
    } else if counts(items, i) {
        i
    } else {
        next_item(items, i + 1)
    }
}

/// What a run asks of the store.
#[derive(Debug)]
pub enum RunAsk {
    /// Whether the key was seen.
    Seen(String),
    /// Make a task of the item at this place, and mark its key as seen with it.
    Insert(usize),
}

/// What the store answered.
#[derive(Debug)]
pub enum RunEvent {
    Seen(Result<bool, String>),
    /// The task's id, or why there is none.
    Inserted(Result<i64, String>),
}

impl RunEvent {
    /// What is known of the item by the answer.
    pub open spec fn answer(self) -> Answer {
        match self {
            RunEvent::Seen(seen) => Answer { seen, insert: Ok(0) },
            RunEvent::Inserted(insert) => Answer { seen: Ok(false), insert },
        }
    }
}

/// Where a run stands: at which item, what it waits for, and what the items before
/// came to.
#[verifier::ext_equal]
pub struct RunView {
    pub items: Seq<Item>,
    pub max: int,
    pub dry_run: bool,
    pub at: int,
    /// A task is being made of the item; otherwise its key is looked up.
    pub inserting: bool,
    pub t: Tally,
}

/// Where a run goes next: on, or to its end with what the items came to.
pub enum ViewNext {
    Ask(RunView),
    End(Tally),
}

/// The item was not seen, and there is no more to be known of it yet.
pub open spec fn unseen() -> Answer {
    Answer { seen: Ok(false), insert: Ok(0) }
}

impl RunView {
    /// The event answers what was asked.
    pub open spec fn awaits(self, ev: RunEvent) -> bool {
        self.inserting == (ev is Inserted)
    }

    /// On to the next item, when those up to here came to this.
    pub open spec fn past(self, t: Tally) -> ViewNext {
        let j = next_item(self.items, self.at + 1);
        if j < self.items.len() {
            ViewNext::Ask(RunView { at: j, inserting: false, t, ..self })
        } else {
            ViewNext::End(t)
        }
    }

    /// What one more answer leads to. A key that is new is inserted only if nothing is
    /// wrong with its item, the run has not made all the tasks it may, and it is no dry
    /// run; a store that cannot tell whether a key was seen ends the run.
    pub open spec fn after(self, ev: RunEvent) -> ViewNext {
        let a = ev.answer();
        let t = tally_one(self.t, self.items, self.at, a, self.max, self.dry_run);
        if ev is Seen && wanted(self.t, self.items, self.at, a, self.max, self.dry_run) {
            ViewNext::Ask(RunView { inserting: true, ..self })
        } else if t.halted is Some {
            ViewNext::End(t)
        } else {
            self.past(t)
        }
    }
}

/// Where a run starts: at the first item that counts.
pub open spec fn run_start(items: Seq<Item>, max: int, dry_run: bool) -> ViewNext {
    let j = next_item(items, 0);
    if j < items.len() {
        ViewNext::Ask(RunView { items, max, dry_run, at: j, inserting: false, t: nothing_yet() })
    } else {
        ViewNext::End(nothing_yet())
    }
}

// ---------------------------------------------------------------------------
// The run

/// Everything new became a task: nothing has to be asked for again.
pub open spec fn complete(t: Tally) -> bool {
    t.deferred == 0 && !t.insert_failed
}

/// The error a run reports.
pub open spec fn problems_text(t: Tally) -> Option<Seq<char>> {
    if t.problems.len() == 0 {
        None
    } else {
        Some(text::joined(t.problems, "; "@))
    }
}

/// What `job list` shows of a run whose connector answered.
pub open spec fn result_text(items: nat, t: Tally) -> Seq<char> {
    let counted = digits::decimal(items) + " items, "@ + digits::decimal(t.created.len()) + " tasks"@;
    if t.insert_failed {
        "failed: "@ + counted + ": "@ + report::line_of(text::joined(t.problems, "; "@), 120)
    } else {
        "ok: "@ + counted
    }
}

/// The outcome of a run whose connector answered.
pub open spec fn outcome_of(t: Tally, dry_run: bool) -> RunOutcome {
    if t.halted is Some || t.insert_failed {
        RunOutcome::Failed
    } else if dry_run {
        RunOutcome::DryRun
    } else {
        RunOutcome::Ran
    }
}

/// The report of a run whose connector answered.
pub open spec fn reports(r: JobRunReport, name: String, items: nat, t: Tally, dry_run: bool) -> bool {
    &&& r.job == name
    &&& r.outcome == outcome_of(t, dry_run)
    &&& r.items == items
    &&& text::texts(r.created@) == t.created
    &&& r.skipped_seen == t.skipped_seen
    &&& r.deferred == t.deferred
    &&& text::opt_text(r.error) == match t.halted {
        Some(e) => Some("seen-store: "@ + e),
        None => problems_text(t),
    }
}

/// The state saved after a run whose connector answered. Its failure count and
/// backoff reset even when an insert failed: backoff is for a connector that
/// errors. The cursor and `last_ok_at` move past every item the connector
/// returned, so they only advance when every new item became a task.
pub open spec fn saves(
    s: JobState,
    old_state: JobState,
    cursor: Option<String>,
    items: nat,
    t: Tally,
    now: Timestamp,
) -> bool {
    &&& s.name == old_state.name
    &&& s.failures == 0
    &&& s.backoff_until is None
    &&& s.last_run_at == Some(now)
    &&& s.last_ok_at == if complete(t) {
        Some(now)
    } else {
        old_state.last_ok_at
    }
    &&& s.cursor == if complete(t) && cursor is Some {
        cursor
    } else {
        old_state.cursor
    }
    &&& text::opt_text(s.last_result) == Some(result_text(items, t))
    &&& text::opt_text(s.last_error) == problems_text(t)
}

/// What a run leads to whose connector answered.
pub open spec fn answered(
    r: RunEnd,
    name: String,
    state: JobState,
    output: RunOutput,
    t: Tally,
    now: Timestamp,
    dry_run: bool,
) -> bool {
    &&& reports(r.report, name, output.items@.len(), t, dry_run)
    &&& r.queued@ == t.queued
    &&& !r.job_failed
    &&& r.ack == (!dry_run && t.halted is None && complete(t))
    &&& match r.save {
        Some(s) => !dry_run && t.halted is None && saves(
            s,
            state,
            output.cursor,
            output.items@.len(),
            t,
            now,
        ),
        None => dry_run || t.halted is Some,
    }
}

/// What `job list` shows of a run whose connector failed.
pub open spec fn failure_text(failures: nat, error: Seq<char>) -> Seq<char> {
    "failed ("@ + digits::decimal(failures) + "x): "@ + report::line_of(error, 120)
}

/// What a run leads to whose connector failed: a report, and unless it is dry, a
/// later try and a `job.failed` event.
pub open spec fn failed(
    r: RunEnd,
    job: Job,
    state: JobState,
    error: String,
    now: Timestamp,
    dry_run: bool,
) -> bool {
    &&& r.report.bare(job.name@, RunOutcome::Failed)
    &&& r.report.error == Some(error)
    &&& !r.ack
    &&& r.queued@.len() == 0
    &&& r.job_failed == !dry_run
    &&& match r.save {
        Some(s) => {
            &&& !dry_run
            &&& s.failures == state.failures + 1
            &&& s.backoff_until matches Some(until) && until.nanos == now.nanos
                + report::backoff_secs((state.failures + 1) as nat) * time::NANOS_PER_SEC
            &&& text::opt_text(s.last_result) == Some(
                failure_text((state.failures + 1) as nat, error@),
            )
            &&& s == (JobState {
                failures: s.failures,
                backoff_until: s.backoff_until,
                last_result: s.last_result,
                last_run_at: Some(now),
                last_error: Some(error),
                ..state
            })
        },
        None => dry_run,
    }
}

fn connector_failed(job: &Job, state: JobState, error: String, now: Timestamp, dry_run: bool) -> (r:
    RunEnd)
    requires
        now.valid(),
        !dry_run ==> state.failures < u32::MAX,
    ensures
        failed(r, *job, state, error, now, dry_run),
{
    let rep = JobRunReport::with_error(job.name.as_str(), RunOutcome::Failed, Some(error.clone()));
    if dry_run {
        return RunEnd { report: rep, save: None, ack: false, queued: Vec::new(), job_failed: false };
    }
    let failures: u32 = state.failures + 1;
    let wait = report::backoff_for(failures);
    proof {
        report::backoff_grows_up_to_an_hour(failures as nat, failures as nat);
    }
    let mut m = "failed (".to_owned();
    m.append(digits::print_number(failures as u64).as_str());
    m.append("x): ");
    m.append(report::first_line(error.as_str()).as_str());
    let until = Timestamp { nanos: now.nanos + wait.nanos as i128 };
    let save = JobState {
        failures,
        backoff_until: Some(until),
        last_result: Some(m),
        last_run_at: Some(now),
        last_error: Some(error),
        ..state
    };
    RunEnd { report: rep, save: Some(save), ack: false, queued: Vec::new(), job_failed: true }
}

fn is_first(items: &Vec<Item>, i: usize) -> (b: bool)
    requires
        i < items@.len(),
    ensures
        b == counts(items@, i as int),
{
    if items[i].key.as_str().unicode_len() == 0 {
        return false;
    }
    let mut j: usize = 0;
    while j < i
        invariant
            j <= i < items@.len(),
            forall|k: int| 0 <= k < j ==> (#[trigger] items@[k]).key@ != items@[i as int].key@,
        decreases i - j,
    {
        if text::same_text(items[j].key.as_str(), items[i].key.as_str()) {
            return false;
        }
        j = j + 1;
    }
    true
}

fn first_from(items: &Vec<Item>, from: usize) -> (i: usize)
    requires
        from <= items@.len(),
    ensures
        i == next_item(items@, from as int),
        i <= items@.len(),
        i < items@.len() ==> i >= from && counts(items@, i as int),
{
    let mut i: usize = from;
    while i < items.len() && !is_first(items, i)
        invariant
            from <= i <= items@.len(),
            next_item(items@, from as int) == next_item(items@, i as int),
        decreases items@.len() - i,
    {
        i = i + 1;
    }
    i
}

/// What the items of a run came to so far.
#[derive(Debug)]
pub struct RunCount {
    pub created: Vec<String>,
    pub queued: Vec<i64>,
    pub skipped_seen: usize,
    pub deferred: usize,
    pub problems: Vec<String>,
    pub insert_failed: bool,
}

impl RunCount {
    /// What it says.
    pub open spec fn view(&self) -> Tally {
        Tally {
            created: text::texts(self.created@),
            queued: self.queued@,
            skipped_seen: self.skipped_seen as nat,
            deferred: self.deferred as nat,
            problems: text::texts(self.problems@),
            insert_failed: self.insert_failed,
            halted: None,
        }
    }
}

fn keyed(key: &String, between: &str, rest: &str) -> (s: String)
    ensures
        s@ == key@ + between@ + rest@,
{
    let mut s = key.clone();
    s.append(between);
    s.append(rest);
    s
}

fn push_text(v: &mut Vec<String>, s: String)
    ensures
        text::texts(final(v)@) == text::texts(old(v)@).push(s@),
        final(v)@.len() == old(v)@.len() + 1,
{
    let ghost before = v@;
    v.push(s);
    assert(text::texts(v@) =~= text::texts(before).push(s@));
}

/// A run of a job whose connector answered, waiting for the store.
#[derive(Debug)]
pub struct JobRun {
    pub name: String,
    pub max: u32,
    pub state: JobState,
    pub output: RunOutput,
    pub now: Timestamp,
    pub dry_run: bool,
    /// The item that is looked at.
    pub at: usize,
    /// A task is being made of it; otherwise its key is looked up.
    pub inserting: bool,
    pub count: RunCount,
}

/// What comes next: a request to the store, or the end.
#[derive(Debug)]
pub enum RunNext {
    Ask(JobRun, RunAsk),
    End(RunEnd),
}

impl JobRun {
    /// Where it stands.
    pub open spec fn view(&self) -> RunView {
        RunView {
            items: self.output.items@,
            max: self.max as int,
            dry_run: self.dry_run,
            at: self.at as int,
            inserting: self.inserting,
            t: self.count@,
        }
    }

    spec fn bounded(&self, n: int) -> bool {
        &&& self.count.skipped_seen <= n
        &&& self.count.deferred <= n
        &&& self.count.insert_failed ==> self.count.problems@.len() > 0
    }

    /// It looks at an item that counts, and makes a task only of one that is wanted.
    pub closed spec fn wf(&self) -> bool {
        &&& self.at < self.output.items@.len()
        &&& counts(self.output.items@, self.at as int)
        &&& self.bounded(self.at as int)
        &&& self.inserting ==> wanted(
            self.count@,
            self.output.items@,
            self.at as int,
            unseen(),
            self.max as int,
            self.dry_run,
        )
    }

    /// The other is the same run, perhaps at another item.
    pub open spec fn same_run(&self, other: JobRun) -> bool {
        &&& self.name == other.name
        &&& self.max == other.max
        &&& self.state == other.state
        &&& self.output == other.output
        &&& self.now == other.now
        &&& self.dry_run == other.dry_run
    }

    /// The run goes where the view says: it asks for that, or ends with that.
    pub open spec fn goes(&self, next: ViewNext, r: RunNext) -> bool {
        match (next, r) {
            (ViewNext::Ask(v), RunNext::Ask(run, ask)) => {
                &&& run@ == v
                &&& run.wf()
                &&& run.same_run(*self)
                &&& if v.inserting {
                    ask == RunAsk::Insert(run.at)
                } else {
                    ask == RunAsk::Seen(v.items[v.at].key)
                }
            },
            (ViewNext::End(t), RunNext::End(end)) => answered(
                end,
                self.name,
                self.state,
                self.output,
                t,
                self.now,
                self.dry_run,
            ),
            _ => false,
        }
    }

    fn look_from(self, from: usize) -> (r: RunNext)
        requires
            from <= self.output.items@.len(),
            self.bounded(from as int),
        ensures
            self.goes(
                ({
                    let j = next_item(self.output.items@, from as int);
                    if j < self.output.items@.len() {
                        ViewNext::Ask(RunView { at: j, inserting: false, ..self@ })
                    } else {
                        ViewNext::End(self.count@)
                    }
                }),
                r,
            ),
    {
        let i: usize = first_from(&self.output.items, from);
        if i < self.output.items.len() {
            let key = self.output.items[i].key.clone();
            RunNext::Ask(JobRun { at: i, inserting: false, ..self }, RunAsk::Seen(key))
        } else {
            RunNext::End(self.finish(None))
        }
    }

    fn finish(self, halted: Option<String>) -> (r: RunEnd)
        requires
            self.count.insert_failed ==> self.count.problems@.len() > 0,
        ensures
            answered(
                r,
                self.name,
                self.state,
                self.output,
                (Tally { halted: text::opt_text(halted), ..self.count@ }),
                self.now,
                self.dry_run,
            ),
    {
        let c = self.count;
        let state = self.state;
        let ghost t = Tally { halted: text::opt_text(halted), ..self.count@ };
        proof {
            assert(text::texts(c.problems@).len() == c.problems@.len());
            assert(text::texts(c.created@).len() == c.created@.len());
        }
        let items: usize = self.output.items.len();
        if let Some(e) = halted {
            let mut m = "seen-store: ".to_owned();
            m.append(e.as_str());
            let rep = JobRunReport {
                job: self.name,
                outcome: RunOutcome::Failed,
                items,
                created: c.created,
                skipped_seen: c.skipped_seen,
                deferred: c.deferred,
                error: Some(m),
            };
            return RunEnd {
                report: rep,
                save: None,
                ack: false,
                queued: c.queued,
                job_failed: false,
            };
        }
        let error = if c.problems.len() == 0 {
            None
        } else {
            Some(text::join(&c.problems, "; "))
        };
        assert(text::opt_text(error) == problems_text(t));
        let outcome = if c.insert_failed {
            RunOutcome::Failed
        } else if self.dry_run {
            RunOutcome::DryRun
        } else {
            RunOutcome::Ran
        };
        let made: usize = c.created.len();
        let all_done = c.deferred == 0 && !c.insert_failed;
        let last_error = error.clone();
        let last_result = counted_result(items, made, c.insert_failed, &error);
        proof {
            reveal_strlit("");
            assert(last_result@ =~= result_text(items as nat, t));
        }
        let rep = JobRunReport {
            job: self.name,
            outcome,
            items,
            created: c.created,
            skipped_seen: c.skipped_seen,
            deferred: c.deferred,
            error,
        };
        if self.dry_run {
            return RunEnd {
                report: rep,
                save: None,
                ack: false,
                queued: c.queued,
                job_failed: false,
            };
        }
        let cursor = match (all_done, self.output.cursor) {
            (true, Some(c)) => Some(c),
            _ => state.cursor,
        };
        let last_ok_at = if all_done {
            Some(self.now)
        } else {
            state.last_ok_at
        };
        let save = JobState {
            name: state.name,
            failures: 0,
            backoff_until: None,
            last_run_at: Some(self.now),
            last_ok_at,
            cursor,
            last_result: Some(last_result),
            last_error,
        };
        RunEnd {
            report: rep,
            save: Some(save),
            ack: all_done,
            queued: c.queued,
            job_failed: false,
        }
    }

    /// Take the store's answer, and say what comes next.
    pub fn step(self, ev: RunEvent) -> (r: RunNext)
        requires
            self.wf(),
            self@.awaits(ev),
        ensures
            self.goes(self@.after(ev), r),
    {
        let ghost v = self@;
        let ghost a = ev.answer();
        let mut run = self;
        let i: usize = run.at;
        let n: usize = run.output.items.len();
        assert(i < n);
        match ev {
            RunEvent::Seen(Err(e)) => {
                return RunNext::End(run.finish(Some(e)));
            },
            RunEvent::Seen(Ok(true)) => {
                run.count.skipped_seen = run.count.skipped_seen + 1;
            },
            RunEvent::Seen(Ok(false)) => {
                let checked = item::check_item_paths(&run.output.items[i]);
                assert(text::texts(run.count.created@).len() == run.count.created@.len());
                if let Err(why) = checked {
                    let line = keyed(&run.output.items[i].key, ": rejected: ", why.as_str());
                    push_text(&mut run.count.problems, line);
                } else if run.count.created.len() >= run.max as usize {
                    run.count.deferred = run.count.deferred + 1;
                } else if run.dry_run {
                    let key = run.output.items[i].key.clone();
                    push_text(&mut run.count.created, key);
                } else {
                    return RunNext::Ask(JobRun { inserting: true, ..run }, RunAsk::Insert(i));
                }
            },
            RunEvent::Inserted(Ok(id)) => {
                push_text(&mut run.count.created, Task::agent_name_for(id));
                run.count.queued.push(id);
            },
            RunEvent::Inserted(Err(e)) => {
                let line = keyed(&run.output.items[i].key, ": ", e.as_str());
                push_text(&mut run.count.problems, line);
                run.count.insert_failed = true;
            },
        }
        assert(run.count@ == tally_one(v.t, v.items, v.at, a, v.max, v.dry_run));
        run.look_from(i + 1)
    }
}

/// Start one pass of one job, once its connector has answered. Never without a report;
/// the report is what the log and `pastor tick` show. With `dry_run` nothing is
/// written: no tasks, no seen keys, no job state, no event. A connector that failed has
/// the store asked for nothing.
pub fn run_job(
    job: &Job,
    state: JobState,
    output: Result<RunOutput, String>,
    now: Timestamp,
    dry_run: bool,
) -> (r: RunNext)
    requires
        now.valid(),
        output is Err && !dry_run ==> state.failures < u32::MAX,
    ensures
        match output {
            Err(e) => r matches RunNext::End(end) && failed(end, *job, state, e, now, dry_run),
            Ok(out) => match (run_start(out.items@, job.max_tasks_per_run as int, dry_run), r) {
                (ViewNext::Ask(v), RunNext::Ask(run, ask)) => {
                    &&& run@ == v
                    &&& run.wf()
                    &&& run.name == job.name
                    &&& run.state == state
                    &&& run.output == out
                    &&& run.now == now
                    &&& ask == RunAsk::Seen(v.items[v.at].key)
                },
                (ViewNext::End(t), RunNext::End(end)) => answered(
                    end,
                    job.name,
                    state,
                    out,
                    t,
                    now,
                    dry_run,
                ),
                _ => false,
            },
        },
{
    let output = match output {
        Err(e) => {
            return RunNext::End(connector_failed(job, state, e, now, dry_run));
        },
        Ok(output) => output,
    };
    let count = RunCount {
        created: Vec::new(),
        queued: Vec::new(),
        skipped_seen: 0,
        deferred: 0,
        problems: Vec::new(),
        insert_failed: false,
    };
    assert(count@ =~= nothing_yet()) by {
        assert(count@.created =~= nothing_yet().created);
        assert(count@.problems =~= nothing_yet().problems);
        assert(count@.queued =~= nothing_yet().queued);
    }
    let run = JobRun {
        name: job.name.clone(),
        max: job.max_tasks_per_run,
        state,
        output,
        now,
        dry_run,
        at: 0,
        inserting: false,
        count,
    };
    run.look_from(0)
}

fn counted_result(items: usize, made: usize, insert_failed: bool, error: &Option<String>) -> (r: String)
    ensures
        r@ == (if insert_failed {
            "failed: "@
        } else {
            "ok: "@
        }) + digits::decimal(items as nat) + " items, "@ + digits::decimal(made as nat) + " tasks"@ + (
        if insert_failed {
            ": "@ + report::line_of(
                match *error {
                    Some(e) => e@,
                    None => ""@,
                },
                120,
            )
        } else {
            ""@
        }),
{
    let mut s = if insert_failed {
        "failed: ".to_owned()
    } else {
        "ok: ".to_owned()
    };
    s.append(digits::print_number(items as u64).as_str());
    s.append(" items, ");
    s.append(digits::print_number(made as u64).as_str());
    s.append(" tasks");
    if insert_failed {
        s.append(": ");
        match error {
            Some(e) => s.append(report::first_line(e.as_str()).as_str()),
            None => s.append(report::first_line("").as_str()),
        }
    }
    proof {
        reveal_strlit("");
    }
    s
}

/// The cursor moves past the items only when each new one became a task: one
/// deferred or failed item has them asked for again, and the store drops those
/// that did land. A rejected item does not hold them.
pub proof fn the_cursor_waits_for_every_item(
    r: RunEnd,
    name: String,
    state: JobState,
    output: RunOutput,
    t: Tally,
    now: Timestamp,
)
    requires
        answered(r, name, state, output, t, now, false),
        t.halted is None,
    ensures
        t.deferred > 0 || t.insert_failed ==> r.save is Some && r.save->0.cursor == state.cursor
            && r.save->0.last_ok_at == state.last_ok_at && !r.ack,
        t.deferred == 0 && !t.insert_failed ==> r.save is Some && r.save->0.last_ok_at == Some(now)
            && r.ack && (output.cursor is Some ==> r.save->0.cursor == output.cursor),
{
}

/// What the items came to, where a run goes next.
pub open spec fn tally_of(next: ViewNext) -> Tally {
    match next {
        ViewNext::Ask(v) => v.t,
        ViewNext::End(t) => t,
    }
}

/// What the store's word on a key leads to. A seen key is skipped; a new one is rejected
/// if something is wrong with its item, left for the next run once the run has made all
/// the tasks it may, told on a dry run, and else made a task of. Without the store's word
/// the run ends.
pub proof fn what_a_key_leads_to(v: RunView, e: String, seen: ViewNext, new: ViewNext, lost: ViewNext)
    requires
        v.t.halted is None,
        !v.inserting,
        0 <= v.at < v.items.len(),
        v.items[v.at].key@.len() > 0,
        forall|j: int| 0 <= j < v.at ==> (#[trigger] v.items[j]).key@ != v.items[v.at].key@,
        seen == v.after(RunEvent::Seen(Ok(true))),
        new == v.after(RunEvent::Seen(Ok(false))),
        lost == v.after(RunEvent::Seen(Err(e))),
    ensures
        tally_of(seen).skipped_seen == v.t.skipped_seen + 1,
        tally_of(seen) == (Tally { skipped_seen: tally_of(seen).skipped_seen, ..v.t }),
        !(seen matches ViewNext::Ask(w) && w.inserting),
        lost matches ViewNext::End(t) && t.halted == Some(e@) && t.created == v.t.created && t.queued
            == v.t.queued,
        ({
            let wrong = item::item_problem(v.items[v.at]);
            &&& wrong is Some ==> tally_of(new).problems == v.t.problems.push(
                v.items[v.at].key@ + ": rejected: "@ + wrong->0,
            ) && tally_of(new).created == v.t.created && tally_of(new).deferred == v.t.deferred
                && !(new matches ViewNext::Ask(w) && w.inserting)
            &&& wrong is None && v.t.created.len() >= v.max ==> tally_of(new).deferred
                == v.t.deferred + 1 && tally_of(new).created == v.t.created && !(
            new matches ViewNext::Ask(w) && w.inserting)
            &&& wrong is None && v.t.created.len() < v.max && v.dry_run ==> tally_of(new).created
                == v.t.created.push(v.items[v.at].key@) && tally_of(new).queued == v.t.queued && !(
            new matches ViewNext::Ask(w) && w.inserting)
            &&& wrong is None && v.t.created.len() < v.max && !v.dry_run ==> new == ViewNext::Ask(
                RunView { inserting: true, ..v },
            )
        }),
{
}

/// What the store's word on a task leads to: a task that was made is reported by its name
/// and queued; one that was not is a problem, and the run failed at it but goes on.
pub proof fn what_a_task_leads_to(v: RunView, id: i64, e: String, made: ViewNext, refused: ViewNext)
    requires
        v.t.halted is None,
        v.inserting,
        wanted(v.t, v.items, v.at, unseen(), v.max, v.dry_run),
        made == v.after(RunEvent::Inserted(Ok(id))),
        refused == v.after(RunEvent::Inserted(Err(e))),
    ensures
        tally_of(made).created == v.t.created.push(
            "t-"@ + digits::signed_decimal(id as int),
        ),
        tally_of(made).queued == v.t.queued.push(id),
        tally_of(made).problems == v.t.problems && tally_of(made).insert_failed == v.t.insert_failed,
        tally_of(made).deferred == v.t.deferred && tally_of(made).skipped_seen == v.t.skipped_seen,
        tally_of(refused).insert_failed,
        tally_of(refused).problems == v.t.problems.push(v.items[v.at].key@ + ": "@ + e@),
        tally_of(refused).created == v.t.created && tally_of(refused).queued == v.t.queued,
        tally_of(refused).halted is None,
{
}

/// How a run ends whose connector failed: nothing is made or forgotten; unless it is dry,
/// the failure is counted, told and saved, and the next try waits for the backoff of that
/// many failures.
pub proof fn how_a_failed_connector_ends_a_run(
    job: &Job,
    state: JobState,
    error: String,
    now: Timestamp,
    dry_run: bool,
    r: RunNext,
    wait: Duration,
)
    requires
        call_ensures(run_job, (job, state, Err(error), now, dry_run), r),
        state.failures < u32::MAX,
        call_ensures(report::backoff_for, ((state.failures + 1) as u32,), wait),
    ensures
        r matches RunNext::End(end) && {
            &&& end.report.outcome is Failed && end.report.job@ == job.name@
            &&& end.report.error == Some(error)
            &&& end.report.created@.len() == 0 && end.queued@.len() == 0 && !end.ack
            &&& dry_run ==> end.save is None && !end.job_failed
            &&& !dry_run ==> end.job_failed && (end.save matches Some(s) && {
                &&& s.failures == state.failures + 1
                &&& s.backoff_until matches Some(t) && t.nanos == now.nanos + wait.nanos
                &&& s.last_run_at == Some(now) && s.last_error == Some(error)
                &&& s.cursor == state.cursor && s.last_ok_at == state.last_ok_at
                &&& s.name == state.name
            })
        },
{
}

/// How a run ends whose connector answered: the report counts what the items came to; a
/// dry run saves nothing and has nothing forgotten, and so does a run the store ended.
/// What is saved counts no failure and no backoff.
pub proof fn how_an_answered_run_ends(
    run: JobRun,
    t: Tally,
    end: RunEnd,
)
    requires
        run.goes(ViewNext::End(t), RunNext::End(end)),
    ensures
        end.report.job == run.name && end.report.items == run.output.items@.len(),
        text::texts(end.report.created@) == t.created && end.queued@ == t.queued,
        end.report.skipped_seen == t.skipped_seen && end.report.deferred == t.deferred,
        end.report.outcome is Failed <==> t.halted is Some || t.insert_failed,
        t.halted is None && !t.insert_failed ==> (end.report.outcome is DryRun <==> run.dry_run) && (
        end.report.outcome is Ran <==> !run.dry_run),
        end.report.error is None <==> t.halted is None && t.problems.len() == 0,
        end.save is Some <==> !run.dry_run && t.halted is None,
        end.ack <==> !run.dry_run && t.halted is None && t.deferred == 0 && !t.insert_failed,
        !end.job_failed,
        end.save matches Some(s) ==> {
            &&& s.name == run.state.name && s.failures == 0 && s.backoff_until is None
            &&& s.last_run_at == Some(run.now)
            &&& t.deferred == 0 && !t.insert_failed ==> s.last_ok_at == Some(run.now) && s.cursor == (
            if run.output.cursor is Some {
                run.output.cursor
            } else {
                run.state.cursor
            })
            &&& t.deferred > 0 || t.insert_failed ==> s.last_ok_at == run.state.last_ok_at
                && s.cursor == run.state.cursor
        },
{
}

/// What a connector is asked: from where it left off, everything since the last run that
/// left nothing behind, or on a first run since the job's backfill ago.
pub proof fn what_a_connector_is_asked(job: &Job, state: &JobState, now: Timestamp, r: RunInput)
    requires
        call_ensures(run_input, (job, state, now), r),
        job.backfill.nanos <= time::MAX_DELTA_NANOS,
    ensures
        r.config == job.connector_config && r.cursor == state.cursor && r.now == now,
        state.last_ok_at is Some ==> r.since == state.last_ok_at->0,
        state.last_ok_at is None && i128::MIN <= now.nanos - job.backfill.nanos ==> r.since.nanos
            == now.nanos - job.backfill.nanos,
{
}

} // verus!
