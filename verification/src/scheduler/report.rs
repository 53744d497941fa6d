//! What is reported of a job's run.

use vstd::prelude::*;
use vstd::string::*;

use crate::text;
use crate::time::Duration;

verus! {

/// What became of a run.
#[derive(Debug, Clone, Copy, PartialEq, Eq, Structural)]
pub enum RunOutcome {
    Ran,
    DryRun,
    Failed,
    /// Due, but the previous run was still going.
    Skipped,
    NotDue,
    Disabled,
    Invalid,
    Unknown,
}

impl RunOutcome {
    /// The outcome's name.
    pub open spec fn text(self) -> Seq<char> {
        match self {
            RunOutcome::Ran => "ran"@,
            RunOutcome::DryRun => "dry_run"@,
            RunOutcome::Failed => "failed"@,
            RunOutcome::Skipped => "skipped"@,
            RunOutcome::NotDue => "not_due"@,
            RunOutcome::Disabled => "disabled"@,
            RunOutcome::Invalid => "invalid"@,
            RunOutcome::Unknown => "unknown"@,
        }
    }

    /// The outcome's name.
    pub fn name(&self) -> (r: &'static str)
        ensures
            r@ == self.text(),
    {
        match self {
            RunOutcome::Ran => "ran",
            RunOutcome::DryRun => "dry_run",
            RunOutcome::Failed => "failed",
            RunOutcome::Skipped => "skipped",
            RunOutcome::NotDue => "not_due",
            RunOutcome::Disabled => "disabled",
            RunOutcome::Invalid => "invalid",
            RunOutcome::Unknown => "unknown",
        }
    }
}

/// What one run of a job did, for the log and for `pastor tick`.
#[derive(Debug)]
pub struct JobRunReport {
    pub job: String,
    pub outcome: RunOutcome,
    /// Items the connector emitted, before any filtering.
    pub items: usize,
    /// Task ids created (`t-3`); on a dry run, the item keys that would have.
    pub created: Vec<String>,
    pub skipped_seen: usize,
    /// New items beyond `max_tasks_per_run`, left unseen for the next run.
    pub deferred: usize,
    pub error: Option<String>,
}

impl JobRunReport {
    /// A report of nothing but the outcome.
    pub open spec fn bare(self, job: Seq<char>, outcome: RunOutcome) -> bool {
        &&& self.job@ == job
        &&& self.outcome == outcome
        &&& self.items == 0
        &&& self.created@.len() == 0
        &&& self.skipped_seen == 0
        &&& self.deferred == 0
    }

    /// A report of nothing but the outcome.
    pub fn new(job: &str, outcome: RunOutcome) -> (r: JobRunReport)
        ensures
            r.bare(job@, outcome),
            r.error is None,
    {
        JobRunReport {
            job: job.to_owned(),
            outcome,
            items: 0,
            created: Vec::new(),
            skipped_seen: 0,
            deferred: 0,
            error: None,
        }
    }

    /// A report of an outcome and an error.
    pub fn with_error(job: &str, outcome: RunOutcome, error: Option<String>) -> (r: JobRunReport)
        ensures
            r.bare(job@, outcome),
            r.error == error,
    {
        let r = JobRunReport::new(job, outcome);
        JobRunReport { error, ..r }
    }
}

/// The seconds to wait after so many failures in a row.
pub open spec fn backoff_secs(failures: nat) -> nat {
    if failures <= 1 {
        60
    } else if failures >= 7 {
        3600
    } else {
        60 * vstd::arithmetic::power2::pow2((failures - 1) as nat)
    }
}

/// Connector failures: a minute, doubling, capped at an hour. `failures` is the
/// count including this one.
pub fn backoff_for(failures: u32) -> (d: Duration)
    ensures
        d.secs() == backoff_secs(failures as nat),
        d.nanos == backoff_secs(failures as nat) * 1_000_000_000,
{
    let mut secs: u64 = 60;
    let mut i: u32 = 1;
    proof {
        vstd::arithmetic::power2::lemma2_to64();
        assert(vstd::arithmetic::power2::pow2(0) == 1);
    }
    while i < failures && i < 7
        invariant
            1 <= i <= 7,
            i <= failures || i == 1,
            secs == 60 * vstd::arithmetic::power2::pow2((i - 1) as nat),
            secs <= 3840,
        decreases 7 - i,
    {
        proof {
            vstd::arithmetic::power2::lemma2_to64();
        }
        secs = secs * 2;
        i = i + 1;
    }
    if secs > 3600 {
        secs = 3600;
    }
    proof {
        vstd::arithmetic::power2::lemma2_to64();
    }
    Duration::from_secs(secs)
}

/// The wait grows with each failure, and never beyond an hour.
pub proof fn backoff_grows_up_to_an_hour(fewer: nat, more: nat)
    requires
        fewer <= more,
    ensures
        60 <= backoff_secs(fewer) <= backoff_secs(more) <= 3600,
{
    vstd::arithmetic::power2::lemma2_to64();
}

/// The first line of a text, no longer than so many characters.
pub open spec fn line_of(s: Seq<char>, most: int) -> Seq<char> {
    let end = text::first_of(s, '\n');
    let line = if end == s.len() {
        s
    } else if end > 0 && s[end - 1] == '\r' {
        s.take(end - 1)
    } else {
        s.take(end)
    };
    if line.len() > most {
        line.take(most)
    } else {
        line
    }
}

/// The first line of a text, cut at 120 characters.
pub fn first_line(s: &str) -> (r: String)
    ensures
        r@ == line_of(s@, 120),
{
    let v = text::chars_of(s);
    proof {
        text::lemma_first_of(s@, '\n');
    }
    let end = text::position(&v, '\n');
    let mut stop: usize = end;
    if end < v.len() && end > 0 && v[end - 1] == '\r' {
        stop = end - 1;
    }
    if stop > 120 {
        stop = 120;
    }
    let r = text::slice_of(&v, 0, stop);
    assert(r@ =~= line_of(s@, 120));
    r
}

/// After the first failure the wait is a minute, it doubles with each of the next five,
/// and from the seventh on it is an hour.
pub proof fn the_wait_doubles_from_a_minute(n: u32, wait: Duration, more: Duration)
    requires
        n < u32::MAX,
        call_ensures(backoff_for, (n,), wait),
        call_ensures(backoff_for, ((n + 1) as u32,), more),
    ensures
        n <= 1 ==> wait.nanos == 60_000_000_000,
        1 <= n <= 5 ==> more.nanos == 2 * wait.nanos,
        n >= 7 ==> wait.nanos == 3_600_000_000_000,
        wait.nanos <= more.nanos,
{
    vstd::arithmetic::power2::lemma2_to64();
}

/// The first line is a start of the text without a line break, of 120 characters at most;
/// it stops short of that only where the text or its first line ends.
pub proof fn the_first_line_ends_at_the_break(s: &str, r: String)
    requires
        call_ensures(first_line, (s,), r),
    ensures
        r@.len() <= 120,
        r@.len() <= s@.len() && s@.take(r@.len() as int) == r@,
        !r@.contains('\n'),
        r@.len() < 120 ==> {
            let n = r@.len() as int;
            ||| n == s@.len()
            ||| s@[n] == '\n'
            ||| n + 1 < s@.len() && s@[n] == '\r' && s@[n + 1] == '\n'
        },
{
    text::lemma_first_of(s@, '\n');
    assert(s@.take(r@.len() as int) =~= r@);
    if r@.contains('\n') {
        let k = choose|k: int| 0 <= k < r@.len() && r@[k] == '\n';
        assert(s@[k] == '\n');
    }
}

} // verus!
