//! What the scheduler does on a tick, and what it shows of its jobs.

use std::collections::HashSet;

use vstd::prelude::*;
use vstd::string::*;

use crate::schedule::Schedule;
use crate::scheduler::due;
use crate::scheduler::due::Due;
use crate::scheduler::jobs;
use crate::scheduler::jobs::Entry;
use crate::scheduler::jobs::Scheduler;
use crate::scheduler::report::JobRunReport;
use crate::scheduler::report::RunOutcome;
use crate::scheduler::run::Job;
use crate::scheduler::run::JobState;
use crate::text;
use crate::time;
use crate::time::Timestamp;

verus! {

broadcast use {vstd::std_specs::hash::group_hash_axioms, vstd::set::group_set_axioms};

/// What `pastor job list` shows for one job file.
#[derive(Debug)]
pub struct JobStatus {
    pub name: String,
    /// `None` when the file never parsed (nothing to describe).
    pub schedule: Option<String>,
    pub enabled: bool,
    pub connector: Option<String>,
    /// The current file's problem. With `schedule` also set, the previous
    /// good version is what runs.
    pub error: Option<String>,
    pub last_run_at: Option<Timestamp>,
    pub last_result: Option<String>,
    pub next_due: Option<Timestamp>,
    pub running: bool,
}

/// The time a due job is shown as due.
pub open spec fn shown_due(d: Due, now: Timestamp) -> Option<Timestamp> {
    match d {
        Due::Now => Some(now),
        Due::At(t) => Some(t),
        Due::Never => None,
    }
}

impl Scheduler {
    /// When the job of an entry runs next.
    pub open spec fn entry_due(self, e: Entry, states: Seq<JobState>, now: Timestamp, d: Due) -> bool {
        e.job matches Some(j) && due::due_is(
            j,
            jobs::state_of(states, e.name@),
            jobs::seen_at(self.first_seen@, e.name@),
            now,
            d,
        )
    }

    /// The schedule of every job can be asked when it runs next.
    pub open spec fn room_to_ask(self, states: Seq<JobState>, now: Timestamp) -> bool {
        forall|i: int|
            0 <= i < self.entries@.len() ==> ((#[trigger] self.entries@[i]).job matches Some(j)
                ==> due::room_to_ask(
                j,
                jobs::state_of(states, self.entries@[i].name@),
                jobs::seen_at(self.first_seen@, self.entries@[i].name@),
                now,
            ))
    }

    /// Every interval is a span whose seconds can be told.
    pub open spec fn describable(self) -> bool {
        forall|i: int|
            0 <= i < self.entries@.len() ==> ((#[trigger] self.entries@[i]).job matches Some(j) ==> (
            j.schedule matches Schedule::Every(d) ==> d.valid()))
    }

    /// What is shown of an entry.
    pub open spec fn shows(self, e: Entry, states: Seq<JobState>, now: Timestamp, s: JobStatus) -> bool {
        let state = jobs::state_of(states, e.name@);
        &&& s.name == e.name
        &&& text::opt_text(s.schedule) == match e.job {
            Some(j) => Some(j.schedule.described()),
            None => None,
        }
        &&& s.enabled == (e.job matches Some(j) && j.enabled)
        &&& s.connector == match e.job {
            Some(j) => Some(j.connector),
            None => None,
        }
        &&& s.error == e.error
        &&& s.last_run_at == match state {
            Some(st) => st.last_run_at,
            None => None,
        }
        &&& s.last_result == match state {
            Some(st) => st.last_result,
            None => None,
        }
        &&& s.running == jobs::named(self.running@, e.name@)
        &&& match e.job {
            None => s.next_due is None,
            Some(_) => exists|d: Due| #[trigger] self.entry_due(e, states, now, d) && s.next_due
                == shown_due(d, now),
        }
    }

    fn due_at_index(&self, i: usize, states: &Vec<JobState>, now: Timestamp) -> (r: Due)
        requires
            i < self.entries@.len(),
            self.entries@[i as int].job is Some,
            self.room_to_ask(states@, now),
        ensures
            self.entry_due(self.entries@[i as int], states@, now, r),
    {
        let e = &self.entries[i];
        let state = jobs::find_state(states, e.name.as_str());
        let first = jobs::find_seen(&self.first_seen, e.name.as_str());
        match &e.job {
            Some(j) => due::due_of(j, state, first, now),
            None => vstd::pervasive::unreached(),
        }
    }

    /// What `pastor job list` shows, in the order of the names.
    pub fn statuses(&self, states: &Vec<JobState>, now: Timestamp) -> (r: Vec<JobStatus>)
        requires
            self.wf(),
            self.room_to_ask(states@, now),
            self.describable(),
        ensures
            r@.len() == self.entries@.len(),
            forall|i: int|
                0 <= i < r@.len() ==> self.shows(
                    self.entries@[i],
                    states@,
                    now,
                    #[trigger] r@[i],
                ),
    {
        let mut out: Vec<JobStatus> = Vec::new();
        let mut i: usize = 0;
        while i < self.entries.len()
            invariant
                i <= self.entries@.len(),
                self.room_to_ask(states@, now),
                self.describable(),
                out@.len() == i,
                forall|k: int|
                    0 <= k < i ==> self.shows(
                        self.entries@[k],
                        states@,
                        now,
                        #[trigger] out@[k],
                    ),
            decreases self.entries@.len() - i,
        {
            let e = &self.entries[i];
            let state = jobs::find_state(states, e.name.as_str());
            let (schedule, enabled, connector, next_due) = match &e.job {
                Some(j) => {
                    let d = self.due_at_index(i, states, now);
                    (Some(j.schedule.describe()), j.enabled, Some(j.connector.clone()), d.at(now))
                },
                None => (None, false, None, None),
            };
            let (last_run_at, last_result) = match state {
                Some(s) => (s.last_run_at, s.last_result.clone()),
                None => (None, None),
            };
            out.push(
                JobStatus {
                    name: e.name.clone(),
                    schedule,
                    enabled,
                    connector,
                    error: e.error.clone(),
                    last_run_at,
                    last_result,
                    next_due,
                    running: jobs::is_named(&self.running, e.name.as_str()),
                },
            );
            i = i + 1;
        }
        out
    }
}

// ---------------------------------------------------------------------------
// A pass

/// What a pass does with a job that is due.
#[derive(Debug)]
pub enum PassStep {
    Start(String),
    /// Due, but the previous run is still going.
    Skip(String),
}

impl Scheduler {
    /// What a pass does, when the jobs are due as said: for each that is due now, in
    /// order, a run, or nothing while its previous run is still going.
    pub open spec fn pass_steps(self, entries: Seq<Entry>, dues: Seq<Due>) -> Seq<PassStep>
        decreases dues.len(),
    {
        if dues.len() == 0 {
            seq![]
        } else {
            let e = entries[dues.len() - 1];
            let first = self.pass_steps(entries, dues.drop_last());
            if e.job is None || !(dues.last() is Now) {
                first
            } else if jobs::named(self.running@, e.name@) {
                first.push(PassStep::Skip(e.name))
            } else {
                first.push(PassStep::Start(e.name))
            }
        }
    }

    /// One tick: which jobs to start.
    pub fn pass(&self, states: &Vec<JobState>, now: Timestamp) -> (r: Vec<PassStep>)
        requires
            self.room_to_ask(states@, now),
        ensures
            exists|dues: Seq<Due>|
                {
                    &&& dues.len() == self.entries@.len()
                    &&& forall|i: int|
                        0 <= i < dues.len() && self.entries@[i].job is Some ==> self.entry_due(
                            self.entries@[i],
                            states@,
                            now,
                            #[trigger] dues[i],
                        )
                    &&& r@ == #[trigger] self.pass_steps(self.entries@, dues)
                },
    {
        let mut out: Vec<PassStep> = Vec::new();
        let ghost mut dues: Seq<Due> = seq![];
        let mut i: usize = 0;
        assert(out@ =~= self.pass_steps(self.entries@, dues));
        while i < self.entries.len()
            invariant
                i <= self.entries@.len(),
                self.room_to_ask(states@, now),
                dues.len() == i,
                forall|k: int|
                    0 <= k < i && self.entries@[k].job is Some ==> self.entry_due(
                        self.entries@[k],
                        states@,
                        now,
                        #[trigger] dues[k],
                    ),
                out@ == self.pass_steps(self.entries@, dues),
            decreases self.entries@.len() - i,
        {
            let ghost sofar = dues;
            if self.entries[i].job.is_some() {
                let d = self.due_at_index(i, states, now);
                proof {
                    dues = sofar.push(d);
                    assert(dues.drop_last() =~= sofar);
                }
                if let Due::Now = d {
                    let name = self.entries[i].name.clone();
                    if jobs::is_named(&self.running, name.as_str()) {
                        out.push(PassStep::Skip(name));
                    } else {
                        out.push(PassStep::Start(name));
                    }
                }
            } else {
                proof {
                    dues = sofar.push(Due::Never);
                    assert(dues.drop_last() =~= sofar);
                }
            }
            i = i + 1;
        }
        out
    }
}

// ---------------------------------------------------------------------------
// `pastor job run` and `pastor tick`

/// What is said of a connector that is not there.
pub open spec fn no_connector(connector: Seq<char>) -> Seq<char> {
    "connector "@ + text::debug_text(connector) + " is not available"@
}

fn say_no_connector(connector: &str) -> (r: String)
    ensures
        r@ == no_connector(connector@),
{
    let mut s = "connector ".to_owned();
    s.append(text::debug_quoted(connector).as_str());
    s.append(" is not available");
    s
}

/// What is said of a stream connector where no run outlives the pass.
pub open spec fn only_under_serve(connector: Seq<char>) -> Seq<char> {
    "connector "@ + text::debug_text(connector)
        + " is a stream; its jobs run only under pastor serve"@
}

fn say_only_under_serve(connector: &str) -> (r: String)
    ensures
        r@ == only_under_serve(connector@),
{
    let mut s = "connector ".to_owned();
    s.append(text::debug_quoted(connector).as_str());
    s.append(" is a stream; its jobs run only under pastor serve");
    s
}

/// One job's place in what a tick reports.
#[derive(Debug)]
pub enum Slot {
    Ready(JobRunReport),
    /// The job runs; its report follows.
    Run(String),
}

/// What a tick starts.
#[derive(Debug)]
pub struct Tick {
    pub slots: Vec<Slot>,
    /// Once the runs are all done, the queued tasks are dispatched, however many the
    /// runs queued.
    pub dispatch: bool,
}

/// The slot holds a report with nothing but this outcome and error.
pub open spec fn ready(slot: Slot, job: Seq<char>, outcome: RunOutcome, error: Option<Seq<char>>) -> bool {
    slot matches Slot::Ready(r) && r.bare(job, outcome) && text::opt_text(r.error) == error
}

/// The source of the entry's job can be asked for.
pub open spec fn can_ask<F: Fn(&String, &String) -> Option<bool>>(source: &F, e: Entry) -> bool {
    e.job matches Some(job) ==> call_requires(*source, (&job.connector, &job.name))
}

impl Scheduler {
    /// What a run of the job comes to, with what is known of its source: none, or
    /// one that is long-lived or not.
    pub open spec fn runs_as(self, e: Entry, job: Job, source: Option<bool>, slot: Slot) -> bool {
        match source {
            None => ready(slot, e.name@, RunOutcome::Invalid, Some(no_connector(job.connector@))),
            Some(long_lived) => if self.standalone && long_lived {
                ready(slot, e.name@, RunOutcome::Failed, Some(only_under_serve(job.connector@)))
            } else {
                slot == Slot::Run(e.name)
            },
        }
    }

    /// What a tick makes of an entry.
    pub open spec fn slot_is<F: Fn(&String, &String) -> Option<bool>>(
        self,
        source: &F,
        e: Entry,
        states: Seq<JobState>,
        forced: bool,
        now: Timestamp,
        slot: Slot,
    ) -> bool {
        match e.job {
            None => ready(slot, e.name@, RunOutcome::Invalid, text::opt_text(e.error)),
            Some(job) => {
                ||| !forced && exists|d: Due|
                    {
                        &&& #[trigger] self.entry_due(e, states, now, d)
                        &&& !(d is Now)
                        &&& ready(
                            slot,
                            e.name@,
                            if d is Never && !job.enabled {
                                RunOutcome::Disabled
                            } else {
                                RunOutcome::NotDue
                            },
                            None,
                        )
                    }
                ||| !forced && self.entry_due(e, states, now, Due::Now) && jobs::named(
                    self.running@,
                    e.name@,
                ) && ready(slot, e.name@, RunOutcome::Skipped, None)
                ||| (forced || (self.entry_due(e, states, now, Due::Now) && !jobs::named(
                    self.running@,
                    e.name@,
                ))) && exists|s: Option<bool>| #[trigger]
                    call_ensures(*source, (&job.connector, &job.name), s) && self.runs_as(
                        e,
                        job,
                        s,
                        slot,
                    )
            },
        }
    }

    /// The entry's source is asked for: its job runs, unless the source keeps it from it.
    pub open spec fn asks(self, e: Entry, states: Seq<JobState>, forced: bool, now: Timestamp) -> bool {
        &&& e.job is Some
        &&& forced || (self.entry_due(e, states, now, Due::Now) && !jobs::named(
            self.running@,
            e.name@,
        ))
    }

    fn slot_of<F: Fn(&String, &String) -> Option<bool>>(
        &self,
        source: &F,
        i: usize,
        states: &Vec<JobState>,
        forced: bool,
        now: Timestamp,
    ) -> (r: Slot)
        requires
            i < self.entries@.len(),
            self.room_to_ask(states@, now),
            self.asks(self.entries@[i as int], states@, forced, now) ==> can_ask(
                source,
                self.entries@[i as int],
            ),
        ensures
            self.slot_is(source, self.entries@[i as int], states@, forced, now, r),
    {
        let e = &self.entries[i];
        let name = e.name.as_str();
        let job = match &e.job {
            Some(j) => j,
            None => {
                return Slot::Ready(
                    JobRunReport::with_error(name, RunOutcome::Invalid, e.error.clone()),
                );
            },
        };
        if !forced {
            let d = self.due_at_index(i, states, now);
            match d {
                Due::Now => {},
                Due::Never => {
                    let outcome = if job.enabled {
                        RunOutcome::NotDue
                    } else {
                        RunOutcome::Disabled
                    };
                    return Slot::Ready(JobRunReport::new(name, outcome));
                },
                Due::At(_) => {
                    return Slot::Ready(JobRunReport::new(name, RunOutcome::NotDue));
                },
            }
            if jobs::is_named(&self.running, name) {
                return Slot::Ready(JobRunReport::new(name, RunOutcome::Skipped));
            }
        }
        let found = source(&job.connector, &job.name);
        let slot = match found {
            None => Slot::Ready(
                JobRunReport::with_error(
                    name,
                    RunOutcome::Invalid,
                    Some(say_no_connector(job.connector.as_str())),
                ),
            ),
            Some(long_lived) => if self.standalone && long_lived {
                Slot::Ready(
                    JobRunReport::with_error(
                        name,
                        RunOutcome::Failed,
                        Some(say_only_under_serve(job.connector.as_str())),
                    ),
                )
            } else {
                Slot::Run(e.name.clone())
            },
        };
        assert(self.runs_as(*e, *job, found, slot));
        slot
    }

    /// `pastor tick`: which jobs to run, and the reports of those that do not, in
    /// the order of their names. With `only`, just that job, whatever its schedule
    /// says and though it is disabled or running. `source` finds the source a job
    /// uses, and says whether it is long-lived; it is asked only for jobs that would run.
    /// Unless it is a dry run, the queued tasks
    /// are dispatched once all the runs are done.
    pub fn tick_start<F: Fn(&String, &String) -> Option<bool>>(
        &self,
        source: &F,
        only: Option<&str>,
        states: &Vec<JobState>,
        now: Timestamp,
        dry_run: bool,
    ) -> (r: Tick)
        requires
            self.wf(),
            self.room_to_ask(states@, now),
            match only {
                None => forall|i: int|
                    0 <= i < self.entries@.len() && self.asks(
                        #[trigger] self.entries@[i],
                        states@,
                        false,
                        now,
                    ) ==> can_ask(source, self.entries@[i]),
                Some(o) => jobs::entry_of(self.entries@, o@) matches Some(e) ==> self.asks(
                    e,
                    states@,
                    true,
                    now,
                ) ==> can_ask(source, e),
            },
        ensures
            r.dispatch == !dry_run,
            match only {
                None => {
                    &&& r.slots@.len() == self.entries@.len()
                    &&& forall|i: int|
                        0 <= i < r.slots@.len() ==> self.slot_is(
                            source,
                            self.entries@[i],
                            states@,
                            false,
                            now,
                            #[trigger] r.slots@[i],
                        )
                },
                Some(o) => r.slots@.len() == 1 && match jobs::entry_of(self.entries@, o@) {
                    Some(e) => self.slot_is(source, e, states@, true, now, r.slots@[0]),
                    None => ready(
                        r.slots@[0],
                        o@,
                        RunOutcome::Unknown,
                        Some("no job named "@ + text::debug_text(o@)),
                    ),
                },
            },
    {
        let mut out: Vec<Slot> = Vec::new();
        if let Some(o) = only {
            let i = jobs::find_entry(&self.entries, o);
            if i < self.entries.len() {
                out.push(self.slot_of(source, i, states, true, now));
            } else {
                let mut m = "no job named ".to_owned();
                m.append(text::debug_quoted(o).as_str());
                out.push(
                    Slot::Ready(JobRunReport::with_error(o, RunOutcome::Unknown, Some(m))),
                );
            }
            return Tick { slots: out, dispatch: !dry_run };
        }
        let mut i: usize = 0;
        while i < self.entries.len()
            invariant
                i <= self.entries@.len(),
                self.room_to_ask(states@, now),
                forall|i: int|
                    0 <= i < self.entries@.len() && self.asks(
                        #[trigger] self.entries@[i],
                        states@,
                        false,
                        now,
                    ) ==> can_ask(source, self.entries@[i]),
                out@.len() == i,
                forall|k: int|
                    0 <= k < i ==> self.slot_is(
                        source,
                        self.entries@[k],
                        states@,
                        false,
                        now,
                        #[trigger] out@[k],
                    ),
            decreases self.entries@.len() - i,
        {
            out.push(self.slot_of(source, i, states, false, now));
            i = i + 1;
        }
        Tick { slots: out, dispatch: !dry_run }
    }

    /// `pastor job run`: now, regardless of schedule, overlap and `enabled`. Gives
    /// what is said of it, and the job to run.
    pub fn fire<F: Fn(&String, &String) -> Option<bool>>(&self, source: &F, name: &str) -> (r: Result<
        (String, Job),
        String,
    >)
        requires
            jobs::job_named(self.entries@, name@) matches Some(job) ==> call_requires(
                *source,
                (&job.connector, &job.name),
            ),
        ensures
            match jobs::job_named(self.entries@, name@) {
                None => r matches Err(e) && e@ == "no job named "@ + text::debug_text(name@)
                    + " (or its file has never parsed)"@,
                Some(job) => exists|s: Option<bool>| #[trigger]
                    call_ensures(*source, (&job.connector, &job.name), s) && match s {
                        None => r matches Err(e) && e@ == no_connector(job.connector@),
                        Some(_) => r matches Ok((m, j)) && m@ == "started job "@ + name@
                            && j.same_as(job),
                    },
            },
    {
        let i = jobs::find_entry(&self.entries, name);
        if i < self.entries.len() {
            if let Some(job) = &self.entries[i].job {
                let found = source(&job.connector, &job.name);
                assert(call_ensures(*source, (&job.connector, &job.name), found));
                if found.is_none() {
                    return Err(say_no_connector(job.connector.as_str()));
                }
                let mut m = "started job ".to_owned();
                m.append(name);
                return Ok((m, job.clone()));
            }
        }
        let mut m = "no job named ".to_owned();
        m.append(text::debug_quoted(name).as_str());
        m.append(" (or its file has never parsed)");
        Err(m)
    }

    /// A run of the job has begun.
    pub fn run_started(&mut self, name: String)
        ensures
            final(self).running@ == old(self).running@.push(name),
            final(self).entries == old(self).entries,
            final(self).first_seen == old(self).first_seen,
            final(self).standalone == old(self).standalone,
    {
        self.running.push(name);
    }
}

/// Whether a run that is no part of a tick is followed by a dispatch of the queued tasks:
/// what it queued does not wait for the next pass.
pub fn dispatch_follows(report: &JobRunReport, dry_run: bool) -> (b: bool)
    ensures
        b == (!dry_run && report.created@.len() > 0),
{
    !dry_run && report.created.len() > 0
}

/// The report of a run that was started, or that of one that ended without any.
pub fn collected(name: &str, report: Option<JobRunReport>) -> (r: JobRunReport)
    ensures
        match report {
            Some(rep) => r == rep,
            None => r.bare(name@, RunOutcome::Failed) && text::opt_text(r.error) == Some(
                "the run panicked"@,
            ),
        },
{
    match report {
        Some(rep) => rep,
        None => JobRunReport::with_error(
            name,
            RunOutcome::Failed,
            Some("the run panicked".to_owned()),
        ),
    }
}

/// A named job runs whatever its schedule says and though it is disabled: a tick
/// for it never reports it as disabled, not due or skipped.
pub proof fn a_named_job_is_forced<F: Fn(&String, &String) -> Option<bool>>(
    s: Scheduler,
    source: &F,
    e: Entry,
    states: Seq<JobState>,
    now: Timestamp,
    slot: Slot,
)
    requires
        s.slot_is(source, e, states, true, now, slot),
    ensures
        slot matches Slot::Ready(r) ==> !(r.outcome is Disabled) && !(r.outcome is NotDue) && !(
        r.outcome is Skipped),
{
}

/// Without a name, a job whose previous run is still going is not run again.
pub proof fn runs_of_a_tick_do_not_overlap<F: Fn(&String, &String) -> Option<bool>>(
    s: Scheduler,
    source: &F,
    e: Entry,
    states: Seq<JobState>,
    now: Timestamp,
    slot: Slot,
)
    requires
        s.slot_is(source, e, states, false, now, slot),
        jobs::named(s.running@, e.name@),
    ensures
        slot is Ready,
{
}

// ---------------------------------------------------------------------------
// Tasks queued for long

/// A task queued longer than this gets one warning in the log: no machine has
/// had capacity for an hour is worth a human's eye.
pub const QUEUED_WARN_SECS: u64 = 3600;

/// A queued task.
#[derive(Debug)]
pub struct QueuedTask {
    pub id: i64,
    /// The machine it must run on, if any.
    pub machine: Option<String>,
    pub created_at: Timestamp,
}

/// Why a queued task is worth a warning.
#[derive(Debug, Clone, Copy, PartialEq, Eq, Structural)]
pub enum QueuedWhy {
    /// Queued for a machine that is not in the flock.
    NoMachine,
    /// No machine has had capacity.
    Long,
}

/// Why a queued task is worth a warning, if it is. One whose machine is not in the
/// flock can be placed by no pass; waiting an hour to say so helps nobody.
pub open spec fn worth_warning(q: QueuedTask, machines: Seq<String>, now: Timestamp) -> Option<QueuedWhy> {
    if q.machine matches Some(m) && !jobs::named(machines, m@) {
        Some(QueuedWhy::NoMachine)
    } else if now.nanos - q.created_at.nanos >= QUEUED_WARN_SECS * time::NANOS_PER_SEC {
        Some(QueuedWhy::Long)
    } else {
        None
    }
}

/// The ids of the queued tasks.
pub open spec fn queued_ids(queued: Seq<QueuedTask>) -> Set<i64>
    decreases queued.len(),
{
    if queued.len() == 0 {
        Set::empty()
    } else {
        queued_ids(queued.drop_last()).insert(queued.last().id)
    }
}

/// The tasks warned about after the queue was looked at, and the warnings.
pub open spec fn warned_after(
    warned: Set<i64>,
    queued: Seq<QueuedTask>,
    machines: Seq<String>,
    now: Timestamp,
) -> (Set<i64>, Seq<(i64, QueuedWhy)>)
    decreases queued.len(),
{
    if queued.len() == 0 {
        (warned, seq![])
    } else {
        let (set, said) = warned_after(warned, queued.drop_last(), machines, now);
        let q = queued.last();
        match worth_warning(q, machines, now) {
            Some(why) if !set.contains(q.id) => (set.insert(q.id), said.push((q.id, why))),
            _ => (set, said),
        }
    }
}

/// The tasks worth a warning that had none, once each. Only tasks still queued stay
/// remembered: one that was dispatched, closed or pruned is never warned about again
/// anyway.
pub fn warn_long_queued(
    warned: &mut HashSet<i64>,
    queued: &Vec<QueuedTask>,
    machines: &Vec<String>,
    now: Timestamp,
) -> (r: Vec<(i64, QueuedWhy)>)
    requires
        now.valid(),
        forall|i: int| 0 <= i < queued@.len() ==> (#[trigger] queued@[i]).created_at.valid(),
    ensures
        (final(warned)@, r@) == warned_after(
            old(warned)@.intersect(queued_ids(queued@)),
            queued@,
            machines@,
            now,
        ),
{
    let ghost first = warned@;
    let mut kept: HashSet<i64> = HashSet::new();
    let mut i: usize = 0;
    assert(kept@ =~= first.intersect(queued_ids(queued@.take(0))));
    while i < queued.len()
        invariant
            i <= queued@.len(),
            warned@ == first,
            kept@ == first.intersect(queued_ids(queued@.take(i as int))),
        decreases queued@.len() - i,
    {
        proof {
            assert(queued@.take(i + 1).drop_last() =~= queued@.take(i as int));
            assert(queued@.take(i + 1).last() == queued@[i as int]);
        }
        let id = queued[i].id;
        if warned.contains(&id) {
            kept.insert(id);
        }
        proof {
            assert(kept@ =~= first.intersect(queued_ids(queued@.take(i + 1))));
        }
        i = i + 1;
    }
    assert(queued@.take(i as int) =~= queued@);
    let ghost start = kept@;
    let mut r: Vec<(i64, QueuedWhy)> = Vec::new();
    let mut n: usize = 0;
    assert((kept@, r@) == warned_after(start, queued@.take(0), machines@, now));
    while n < queued.len()
        invariant
            n <= queued@.len(),
            now.valid(),
            forall|i: int| 0 <= i < queued@.len() ==> (#[trigger] queued@[i]).created_at.valid(),
            (kept@, r@) == warned_after(start, queued@.take(n as int), machines@, now),
        decreases queued@.len() - n,
    {
        proof {
            assert(queued@.take(n + 1).drop_last() =~= queued@.take(n as int));
            assert(queued@.take(n + 1).last() == queued@[n as int]);
        }
        let q = &queued[n];
        let missing = match &q.machine {
            Some(m) => !jobs::is_named(machines, m.as_str()),
            None => false,
        };
        let why = if missing {
            Some(QueuedWhy::NoMachine)
        } else if now.nanos - q.created_at.nanos >= 3_600_000_000_000i128 {
            Some(QueuedWhy::Long)
        } else {
            None
        };
        assert(why == worth_warning(*q, machines@, now));
        if let Some(w) = why {
            if !kept.contains(&q.id) {
                kept.insert(q.id);
                r.push((q.id, w));
            }
        }
        n = n + 1;
    }
    assert(queued@.take(n as int) =~= queued@);
    *warned = kept;
    r
}

/// A task is warned about once for as long as it stays queued: looking again at a
/// queue with the same tasks says nothing of those that were warned about.
pub proof fn a_queued_task_is_warned_about_once(
    warned: Set<i64>,
    queued: Seq<QueuedTask>,
    machines: Seq<String>,
    now: Timestamp,
    i: int,
)
    requires
        0 <= i < warned_after(warned, queued, machines, now).1.len(),
    ensures
        !warned.contains(warned_after(warned, queued, machines, now).1[i].0),
        warned_after(warned, queued, machines, now).0.contains(
            warned_after(warned, queued, machines, now).1[i].0,
        ),
        warned.subset_of(warned_after(warned, queued, machines, now).0),
    decreases queued.len(),
{
    lemma_warned_grows(warned, queued, machines, now);
    if queued.len() > 0 {
        let (set, said) = warned_after(warned, queued.drop_last(), machines, now);
        lemma_warned_grows(warned, queued.drop_last(), machines, now);
        if i < said.len() {
            a_queued_task_is_warned_about_once(warned, queued.drop_last(), machines, now, i);
        }
    }
}

proof fn lemma_warned_grows(
    warned: Set<i64>,
    queued: Seq<QueuedTask>,
    machines: Seq<String>,
    now: Timestamp,
)
    ensures
        warned.subset_of(warned_after(warned, queued, machines, now).0),
    decreases queued.len(),
{
    if queued.len() > 0 {
        lemma_warned_grows(warned, queued.drop_last(), machines, now);
    }
}

// ---------------------------------------------------------------------------
// What a pass and a tick come to

proof fn lemma_pass(s: Scheduler, entries: Seq<Entry>, dues: Seq<Due>, x: PassStep)
    requires
        dues.len() <= entries.len(),
    ensures
        s.pass_steps(entries, dues).contains(x) <==> exists|i: int|
            0 <= i < dues.len() && (#[trigger] entries[i]).job is Some && dues[i] is Now && x == (
            if jobs::named(s.running@, entries[i].name@) {
                PassStep::Skip(entries[i].name)
            } else {
                PassStep::Start(entries[i].name)
            }),
        s.pass_steps(entries, dues).len() <= dues.len(),
    decreases dues.len(),
{
    let all = s.pass_steps(entries, dues);
    if dues.len() > 0 {
        let rest = dues.drop_last();
        let first = s.pass_steps(entries, rest);
        lemma_pass(s, entries, rest, x);
        let n = dues.len() - 1;
        if all.contains(x) {
            let k = choose|k: int| 0 <= k < all.len() && all[k] == x;
            if k < first.len() {
                assert(first[k] == x);
                assert(first.contains(x));
            } else {
                assert(entries[n].job is Some && dues[n] is Now);
            }
        }
        if first.contains(x) {
            let k = choose|k: int| 0 <= k < first.len() && first[k] == x;
            assert(all[k] == x);
        }
        if entries[n].job is Some && dues[n] is Now {
            assert(all[all.len() - 1] == if jobs::named(s.running@, entries[n].name@) {
                PassStep::Skip(entries[n].name)
            } else {
                PassStep::Start(entries[n].name)
            });
        }
    }
}

/// A pass starts a job that is due now, unless a run of it is still going: that one is
/// skipped. It starts and skips no other.
pub proof fn a_pass_starts_what_is_due(
    s: Scheduler,
    states: &Vec<JobState>,
    now: Timestamp,
    r: Vec<PassStep>,
    i: int,
    going: bool,
)
    requires
        call_ensures(Scheduler::pass, (&s, states, now), r),
        0 <= i < s.entries@.len(),
        s.entries@[i].job is Some,
        forall|d: Due| #[trigger] s.entry_due(s.entries@[i], states@, now, d) ==> d is Now,
        going == exists|k: int| 0 <= k < s.running@.len() && (#[trigger] s.running@[k])@ == s.entries@[i].name@,
    ensures
        going ==> r@.contains(PassStep::Skip(s.entries@[i].name)),
        !going ==> r@.contains(PassStep::Start(s.entries@[i].name)),
{
    let dues = choose|dues: Seq<Due>|
        {
            &&& dues.len() == s.entries@.len()
            &&& forall|i: int|
                0 <= i < dues.len() && s.entries@[i].job is Some ==> s.entry_due(
                    s.entries@[i],
                    states@,
                    now,
                    #[trigger] dues[i],
                )
            &&& r@ == #[trigger] s.pass_steps(s.entries@, dues)
        };
    assert(dues[i] is Now);
    lemma_pass(s, s.entries@, dues, PassStep::Skip(s.entries@[i].name));
    lemma_pass(s, s.entries@, dues, PassStep::Start(s.entries@[i].name));
}

/// A pass starts only jobs that may be due now and of which no run is going.
pub proof fn a_pass_starts_nothing_else(
    s: Scheduler,
    states: &Vec<JobState>,
    now: Timestamp,
    r: Vec<PassStep>,
    name: String,
)
    requires
        call_ensures(Scheduler::pass, (&s, states, now), r),
        r@.contains(PassStep::Start(name)),
    ensures
        exists|i: int|
            0 <= i < s.entries@.len() && (#[trigger] s.entries@[i]).name == name
                && s.entries@[i].job is Some && s.entry_due(s.entries@[i], states@, now, Due::Now),
        forall|k: int| 0 <= k < s.running@.len() ==> (#[trigger] s.running@[k])@ != name@,
{
    let dues = choose|dues: Seq<Due>|
        {
            &&& dues.len() == s.entries@.len()
            &&& forall|i: int|
                0 <= i < dues.len() && s.entries@[i].job is Some ==> s.entry_due(
                    s.entries@[i],
                    states@,
                    now,
                    #[trigger] dues[i],
                )
            &&& r@ == #[trigger] s.pass_steps(s.entries@, dues)
        };
    lemma_pass(s, s.entries@, dues, PassStep::Start(name));
    let i = choose|i: int|
        0 <= i < dues.len() && (#[trigger] s.entries@[i]).job is Some && dues[i] is Now
            && PassStep::Start(name) == (if jobs::named(s.running@, s.entries@[i].name@) {
            PassStep::Skip(s.entries@[i].name)
        } else {
            PassStep::Start(s.entries@[i].name)
        });
    assert(s.entry_due(s.entries@[i], states@, now, dues[i]));
}

/// A report with this outcome and nothing done.
pub open spec fn only_says(slot: Slot, job: Seq<char>, outcome: RunOutcome) -> bool {
    slot matches Slot::Ready(r) && r.job@ == job && r.outcome == outcome && r.items == 0
        && r.created@.len() == 0 && r.skipped_seen == 0 && r.deferred == 0
}

/// What a tick for all jobs makes of each, in their order. A job whose file never read
/// well is invalid, with the file's error; a disabled one is disabled; one that is not
/// due is not due; one that is due is skipped while a run of it is going; and else it
/// runs, if it has a source that may run here. Only a dry run dispatches nothing after.
pub proof fn what_a_tick_makes_of_a_job<F: Fn(&String, &String) -> Option<bool>>(
    s: Scheduler,
    source: &F,
    states: &Vec<JobState>,
    now: Timestamp,
    dry_run: bool,
    r: Tick,
    i: int,
)
    requires
        call_ensures(Scheduler::tick_start::<F>, (&s, source, None, states, now, dry_run), r),
        0 <= i < s.entries@.len(),
    ensures
        r.dispatch == !dry_run,
        r.slots@.len() == s.entries@.len(),
        ({
            let e = s.entries@[i];
            let slot = r.slots@[i];
            let going = exists|k: int| 0 <= k < s.running@.len() && (#[trigger] s.running@[k])@ == e.name@;
            &&& e.job is None ==> only_says(slot, e.name@, RunOutcome::Invalid) && text::opt_text(
                slot->Ready_0.error,
            ) == text::opt_text(e.error)
            &&& e.job is Some && !e.job->0.enabled ==> only_says(slot, e.name@, RunOutcome::Disabled)
            &&& e.job is Some && e.job->0.enabled && (forall|d: Due| #[trigger]
                s.entry_due(e, states@, now, d) ==> !(d is Now)) ==> only_says(
                slot,
                e.name@,
                RunOutcome::NotDue,
            )
            &&& e.job is Some && e.job->0.enabled && (forall|d: Due| #[trigger]
                s.entry_due(e, states@, now, d) ==> d is Now) && going ==> only_says(
                slot,
                e.name@,
                RunOutcome::Skipped,
            )
            &&& e.job is Some && e.job->0.enabled && (forall|d: Due| #[trigger]
                s.entry_due(e, states@, now, d) ==> d is Now) && !going ==> {
                let job = e.job->0;
                &&& (forall|x: Option<bool>| #[trigger]
                    call_ensures(*source, (&job.connector, &job.name), x) ==> x is Some && !(x->0
                        && s.standalone)) ==> slot == Slot::Run(e.name)
                &&& (forall|x: Option<bool>| #[trigger]
                    call_ensures(*source, (&job.connector, &job.name), x) ==> x is None)
                    ==> only_says(slot, e.name@, RunOutcome::Invalid)
                &&& s.standalone && (forall|x: Option<bool>| #[trigger]
                    call_ensures(*source, (&job.connector, &job.name), x) ==> x == Some(true))
                    ==> only_says(slot, e.name@, RunOutcome::Failed)
            }
        }),
{
    assert(s.slot_is(source, s.entries@[i], states@, false, now, r.slots@[i]));
}

/// A tick for one job runs it whatever its schedule says, disabled or still running, as
/// long as its file read well once and its source is there; one that no file has is
/// unknown.
pub proof fn what_a_tick_makes_of_a_named_job<F: Fn(&String, &String) -> Option<bool>>(
    s: Scheduler,
    source: &F,
    only: &str,
    states: &Vec<JobState>,
    now: Timestamp,
    dry_run: bool,
    r: Tick,
)
    requires
        call_ensures(Scheduler::tick_start::<F>, (&s, source, Some(only), states, now, dry_run), r),
    ensures
        r.dispatch == !dry_run,
        r.slots@.len() == 1,
        (forall|i: int| 0 <= i < s.entries@.len() ==> (#[trigger] s.entries@[i]).name@ != only@)
            ==> only_says(r.slots@[0], only@, RunOutcome::Unknown),
        forall|i: int|
            {
                &&& 0 <= i < s.entries@.len()
                &&& (#[trigger] s.entries@[i]).name@ == only@
                &&& forall|k: int| 0 <= k < i ==> (#[trigger] s.entries@[k]).name@ != only@
                &&& s.entries@[i].job is Some
                &&& forall|x: Option<bool>| #[trigger]
                    call_ensures(
                        *source,
                        (&s.entries@[i].job->0.connector, &s.entries@[i].job->0.name),
                        x,
                    ) ==> x == Some(false)
            } ==> r.slots@[0] == Slot::Run(s.entries@[i].name),
{
    jobs::lemma_entry_at(s.entries@, only@);
}

/// `pastor job run` starts the job of that name, whatever it is up to, if its file read
/// well once and its connector is there.
pub proof fn a_fired_job_starts<F: Fn(&String, &String) -> Option<bool>>(
    s: Scheduler,
    source: &F,
    name: &str,
    i: int,
    job: Job,
    r: Result<(String, Job), String>,
)
    requires
        call_ensures(Scheduler::fire::<F>, (&s, source, name), r),
        0 <= i < s.entries@.len(),
        s.entries@[i].name@ == name@,
        forall|k: int| 0 <= k < i ==> (#[trigger] s.entries@[k]).name@ != name@,
    ensures
        s.entries@[i].job is None ==> r is Err,
        s.entries@[i].job == Some(job) && (forall|x: Option<bool>| #[trigger]
            call_ensures(*source, (&job.connector, &job.name), x) ==> x is Some) ==> (r matches Ok(
            (said, j),
        ) && said@ == "started job "@ + name@ && j.same_as(job)),
        s.entries@[i].job == Some(job) && (forall|x: Option<bool>| #[trigger]
            call_ensures(*source, (&job.connector, &job.name), x) ==> x is None) ==> r is Err,
{
    jobs::lemma_entry_at(s.entries@, name@);
}

/// A queued task that was not warned about is warned about as soon as its machine is not
/// in the flock, and else once it is queued for an hour; no other is.
pub proof fn a_task_queued_for_long_is_warned_about(
    warned: Set<i64>,
    queued: Seq<QueuedTask>,
    machines: Seq<String>,
    now: Timestamp,
    i: int,
)
    requires
        0 <= i < queued.len(),
        forall|a: int, b: int|
            0 <= a < b < queued.len() ==> (#[trigger] queued[a]).id != (#[trigger] queued[b]).id,
        !warned.contains(queued[i].id),
    ensures
        ({
            let q = queued[i];
            let said = warned_after(warned, queued, machines, now).1;
            let lost = q.machine is Some && forall|k: int|
                0 <= k < machines.len() ==> (#[trigger] machines[k])@ != q.machine->0@;
            let long = now.nanos - q.created_at.nanos >= 3_600_000_000_000;
            &&& said.contains((q.id, QueuedWhy::NoMachine)) <==> lost
            &&& said.contains((q.id, QueuedWhy::Long)) <==> !lost && long
            &&& warned_after(warned, queued, machines, now).0.contains(q.id) <==> lost || long
        }),
    decreases queued.len(),
{
    let rest = queued.drop_last();
    let (set, said) = warned_after(warned, rest, machines, now);
    let all = warned_after(warned, queued, machines, now).1;
    let q = queued[i];
    assert forall|x: (i64, QueuedWhy)| #[trigger] all.contains(x) <==> said.contains(x) || (
    !set.contains(queued.last().id) && worth_warning(queued.last(), machines, now) == Some(x.1)
        && x.0 == queued.last().id) by {
        if all.contains(x) {
            let k = choose|k: int| 0 <= k < all.len() && all[k] == x;
            if k < said.len() {
                assert(said[k] == x);
            }
        }
        if said.contains(x) {
            let k = choose|k: int| 0 <= k < said.len() && said[k] == x;
            assert(all[k] == x);
        }
        if !set.contains(queued.last().id) && worth_warning(queued.last(), machines, now) == Some(
            x.1,
        ) && x.0 == queued.last().id {
            assert(all[all.len() - 1] == x);
        }
    }
    lemma_warned_are_queued(warned, rest, machines, now, q.id);
    if i < rest.len() {
        assert(rest[i] == q);
        assert forall|a: int, b: int| 0 <= a < b < rest.len() implies (#[trigger] rest[a]).id != (
        #[trigger] rest[b]).id by {
            assert(rest[a] == queued[a] && rest[b] == queued[b]);
        }
        assert(queued[i].id != queued[queued.len() - 1].id);
        a_task_queued_for_long_is_warned_about(warned, rest, machines, now, i);
    } else {
        assert forall|k: int| 0 <= k < rest.len() implies (#[trigger] rest[k]).id != q.id by {
            assert(rest[k] == queued[k]);
            assert(queued[k].id != queued[i].id);
        }
    }
}

/// Only what was warned about before, or is queued, is warned about.
proof fn lemma_warned_are_queued(
    warned: Set<i64>,
    queued: Seq<QueuedTask>,
    machines: Seq<String>,
    now: Timestamp,
    id: i64,
)
    ensures
        warned_after(warned, queued, machines, now).0.contains(id) ==> warned.contains(id) || exists|k: int|
            0 <= k < queued.len() && (#[trigger] queued[k]).id == id,
        forall|why: QueuedWhy| #[trigger]
            warned_after(warned, queued, machines, now).1.contains((id, why)) ==> exists|k: int|
                0 <= k < queued.len() && (#[trigger] queued[k]).id == id,
    decreases queued.len(),
{
    if queued.len() > 0 {
        let rest = queued.drop_last();
        lemma_warned_are_queued(warned, rest, machines, now, id);
        let (set, said) = warned_after(warned, rest, machines, now);
        let all = warned_after(warned, queued, machines, now).1;
        let n = queued.len() - 1;
        if exists|k: int| 0 <= k < rest.len() && (#[trigger] rest[k]).id == id {
            let k = choose|k: int| 0 <= k < rest.len() && (#[trigger] rest[k]).id == id;
            assert(queued[k] == rest[k]);
        }
        assert forall|why: QueuedWhy| #[trigger] all.contains((id, why)) implies exists|k: int|
            0 <= k < queued.len() && (#[trigger] queued[k]).id == id by {
            let k = choose|k: int| 0 <= k < all.len() && all[k] == (id, why);
            if k < said.len() {
                assert(said[k] == (id, why));
                assert(said.contains((id, why)));
            } else {
                assert(queued[n].id == id);
            }
        }
        if warned_after(warned, queued, machines, now).0.contains(id) && !set.contains(id) {
            assert(queued[n].id == id);
        }
    }
}

/// A task that is not queued any more is forgotten, so that it may be warned about anew.
pub proof fn only_queued_tasks_stay_warned(
    warned: Set<i64>,
    queued: Seq<QueuedTask>,
    machines: Seq<String>,
    now: Timestamp,
    id: i64,
)
    requires
        warned_after(warned.intersect(queued_ids(queued)), queued, machines, now).0.contains(id),
    ensures
        exists|k: int| 0 <= k < queued.len() && (#[trigger] queued[k]).id == id,
{
    lemma_warned_are_queued(warned.intersect(queued_ids(queued)), queued, machines, now, id);
    lemma_queued_ids(queued, id);
}

proof fn lemma_queued_ids(queued: Seq<QueuedTask>, id: i64)
    ensures
        queued_ids(queued).contains(id) <==> exists|k: int|
            0 <= k < queued.len() && (#[trigger] queued[k]).id == id,
    decreases queued.len(),
{
    if queued.len() > 0 {
        let rest = queued.drop_last();
        lemma_queued_ids(rest, id);
        if exists|k: int| 0 <= k < rest.len() && (#[trigger] rest[k]).id == id {
            let k = choose|k: int| 0 <= k < rest.len() && (#[trigger] rest[k]).id == id;
            assert(queued[k] == rest[k]);
        }
        if exists|k: int| 0 <= k < queued.len() && (#[trigger] queued[k]).id == id {
            let k = choose|k: int| 0 <= k < queued.len() && (#[trigger] queued[k]).id == id;
            if k < rest.len() {
                assert(rest[k] == queued[k]);
            }
        }
        if queued.last().id == id {
            assert(queued[queued.len() - 1].id == id);
        }
    }
}

/// The queued tasks are dispatched after a run outside of a tick exactly if it made some,
/// and a run that ended without a report failed.
pub proof fn a_run_that_made_tasks_is_followed_by_a_dispatch(
    report: &JobRunReport,
    dry_run: bool,
    b: bool,
    name: &str,
    lost: JobRunReport,
)
    requires
        call_ensures(dispatch_follows, (report, dry_run), b),
        call_ensures(collected, (name, None), lost),
    ensures
        b <==> !dry_run && report.created@.len() > 0,
        lost.outcome is Failed && lost.job@ == name@ && lost.created@.len() == 0 && (
        lost.error matches Some(e) && e@ == "the run panicked"@),
{
}

/// What is shown of a job: whether it runs and is enabled, why it cannot be read, and when
/// it last ran and how that ended, as its own state says.
pub proof fn what_is_shown_of_a_job(
    s: &Scheduler,
    states: &Vec<JobState>,
    now: Timestamp,
    r: Vec<JobStatus>,
    i: int,
    k: int,
)
    requires
        call_ensures(Scheduler::statuses, (s, states, now), r),
        0 <= i < s.entries@.len(),
        0 <= k <= states@.len(),
        forall|n: int|
            0 <= n < states@.len() && (#[trigger] states@[n]).name@ == s.entries@[i].name@ ==> n == k,
        k < states@.len() ==> states@[k].name@ == s.entries@[i].name@,
    ensures
        r@.len() == s.entries@.len(),
        r@[i].name == s.entries@[i].name && r@[i].error == s.entries@[i].error,
        k < states@.len() ==> r@[i].last_run_at == states@[k].last_run_at && r@[i].last_result
            == states@[k].last_result,
        k == states@.len() ==> r@[i].last_run_at is None && r@[i].last_result is None,
        r@[i].running <==> exists|n: int|
            0 <= n < s.running@.len() && (#[trigger] s.running@[n])@ == s.entries@[i].name@,
        r@[i].enabled <==> s.entries@[i].job is Some && s.entries@[i].job->0.enabled,
        s.entries@[i].job is None ==> r@[i].next_due is None && r@[i].schedule is None
            && r@[i].connector is None,
{
    assert(s.shows(s.entries@[i], states@, now, r@[i]));
    lemma_state_of(states@, s.entries@[i].name@, k);
}

proof fn lemma_state_of(states: Seq<JobState>, name: Seq<char>, k: int)
    requires
        0 <= k <= states.len(),
        forall|n: int| 0 <= n < states.len() && (#[trigger] states[n]).name@ == name ==> n == k,
        k < states.len() ==> states[k].name@ == name,
    ensures
        jobs::state_of(states, name) == if k < states.len() {
            Some(states[k])
        } else {
            None
        },
    decreases states.len(),
{
    if states.len() > 0 {
        let rest = states.drop_last();
        let last = states.len() - 1;
        if states[last].name@ == name {
            assert(k == last);
        } else {
            assert forall|n: int| 0 <= n < rest.len() && (#[trigger] rest[n]).name@ == name implies n
                == (if k < last { k } else { last }) by {
                assert(states[n] == rest[n]);
            }
            lemma_state_of(rest, name, if k < last { k } else { last });
        }
    }
}

} // verus!
