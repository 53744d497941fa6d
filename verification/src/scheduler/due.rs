//! When a job is due.

use vstd::prelude::*;
use vstd::string::*;

use crate::schedule::Schedule;
use crate::scheduler::run::Job;
use crate::scheduler::run::JobState;
use crate::time;
use crate::time::Timestamp;

verus! {

/// When a job runs next.
#[derive(Debug, Clone, Copy, PartialEq, Eq, Structural)]
pub enum Due {
    Now,
    At(Timestamp),
    Never,
}

impl Due {
    /// The time the job is next due.
    pub fn at(self, now: Timestamp) -> (r: Option<Timestamp>)
        ensures
            r == match self {
                Due::Now => Some(now),
                Due::At(t) => Some(t),
                Due::Never => None,
            },
    {
        match self {
            Due::Now => Some(now),
            Due::At(t) => Some(t),
            Due::Never => None,
        }
    }
}

/// What a next time means at `now`.
pub open spec fn due_when(next: Option<Timestamp>, now: Timestamp) -> Due {
    match next {
        Some(t) => if t.nanos <= now.nanos {
            Due::Now
        } else {
            Due::At(t)
        },
        None => Due::Never,
    }
}

/// What decides when a job runs next.
pub enum DueBy {
    /// It is decided already.
    Settled(Due),
    /// The first time after this that the schedule gives.
    After(Timestamp),
}

/// What decides when the job runs next. A backoff is a retry time, not only a
/// gate: the failed attempt set `last_run_at`, so falling through to the schedule
/// would wait a whole interval after the failure. A new interval job runs at once;
/// a new cron job waits for its first occurrence after it was first seen.
/// Overdue is simply due.
pub open spec fn due_by(
    job: Job,
    state: Option<JobState>,
    first_seen: Option<Timestamp>,
    now: Timestamp,
) -> DueBy {
    let backoff = match state {
        Some(s) => s.backoff_until,
        None => None,
    };
    let last = match state {
        Some(s) => s.last_run_at,
        None => None,
    };
    if !job.enabled {
        DueBy::Settled(Due::Never)
    } else if backoff is Some {
        DueBy::Settled(
            if now.nanos < backoff->0.nanos {
                Due::At(backoff->0)
            } else {
                Due::Now
            },
        )
    } else {
        match last {
            Some(t) => DueBy::After(t),
            None => if job.schedule is Every {
                DueBy::Settled(Due::Now)
            } else {
                DueBy::After(
                    match first_seen {
                        Some(t) => t,
                        None => now,
                    },
                )
            },
        }
    }
}

/// The schedule can be asked for what decides when the job runs next.
pub open spec fn room_to_ask(
    job: Job,
    state: Option<JobState>,
    first_seen: Option<Timestamp>,
    now: Timestamp,
) -> bool {
    match due_by(job, state, first_seen, now) {
        DueBy::Settled(_) => true,
        DueBy::After(from) => job.schedule.room_after(from),
    }
}

/// The job runs next as `due` says.
pub open spec fn due_is(
    job: Job,
    state: Option<JobState>,
    first_seen: Option<Timestamp>,
    now: Timestamp,
    due: Due,
) -> bool {
    match due_by(job, state, first_seen, now) {
        DueBy::Settled(d) => due == d,
        DueBy::After(from) => exists|next: Option<Timestamp>| #[trigger]
            job.schedule.next_after_is(from, next) && due == due_when(next, now),
    }
}

/// What a next time means at `now`: due once it is reached.
pub fn due_at(next: Option<Timestamp>, now: Timestamp) -> (r: Due)
    ensures
        r == due_when(next, now),
{
    match next {
        Some(t) => if t.nanos <= now.nanos {
            Due::Now
        } else {
            Due::At(t)
        },
        None => Due::Never,
    }
}

/// When the job runs next.
pub fn due_of(job: &Job, state: Option<&JobState>, first_seen: Option<Timestamp>, now: Timestamp) -> (r:
    Due)
    requires
        room_to_ask(
            *job,
            match state {
                Some(s) => Some(*s),
                None => None,
            },
            first_seen,
            now,
        ),
    ensures
        due_is(
            *job,
            match state {
                Some(s) => Some(*s),
                None => None,
            },
            first_seen,
            now,
            r,
        ),
{
    if !job.enabled {
        return Due::Never;
    }
    let backoff = match state {
        Some(s) => s.backoff_until,
        None => None,
    };
    if let Some(until) = backoff {
        return if now.nanos < until.nanos {
            Due::At(until)
        } else {
            Due::Now
        };
    }
    let last = match state {
        Some(s) => s.last_run_at,
        None => None,
    };
    let from = match last {
        Some(t) => t,
        None => match job.schedule {
            Schedule::Every(_) => {
                return Due::Now;
            },
            Schedule::Cron(_) => match first_seen {
                Some(t) => t,
                None => now,
            },
        },
    };
    let next = job.schedule.next_after(from);
    assert(job.schedule.next_after_is(from, next));
    due_at(next, now)
}

/// A job whose connector failed is due again when its backoff ends, whatever its
/// schedule says.
pub proof fn a_failed_job_is_retried_after_its_backoff(
    job: Job,
    saved: JobState,
    first_seen: Option<Timestamp>,
    now: Timestamp,
    due: Due,
)
    requires
        job.enabled,
        saved.backoff_until is Some,
        due_is(job, Some(saved), first_seen, now, due),
    ensures
        due is Now <==> now.nanos >= saved.backoff_until->0.nanos,
        !(due is Now) ==> due == Due::At(saved.backoff_until->0),
{
}

/// A job on an interval that ran is due one interval after it ran.
pub proof fn an_interval_job_is_due_an_interval_later(
    job: Job,
    saved: JobState,
    first_seen: Option<Timestamp>,
    now: Timestamp,
    due: Due,
)
    requires
        job.enabled,
        job.schedule matches Schedule::Every(d) && d.nanos <= time::MAX_DELTA_NANOS,
        saved.backoff_until is None,
        saved.last_run_at is Some,
        due_is(job, Some(saved), first_seen, now, due),
    ensures
        due is Now <==> now.nanos >= saved.last_run_at->0.nanos + job.schedule->Every_0.nanos,
{
}

/// A disabled job is never due.
pub proof fn a_disabled_job_is_never_due(
    job: Job,
    state: Option<JobState>,
    first_seen: Option<Timestamp>,
    now: Timestamp,
    due: Due,
)
    requires
        !job.enabled,
        due_is(job, state, first_seen, now, due),
    ensures
        due is Never,
{
}

/// A job that ran and is not backing off is due once the first time its schedule gives
/// after that run is reached, and until then at that very time. Overdue is simply due.
pub proof fn a_job_is_due_at_the_first_time_after_its_last_run(
    job: &Job,
    saved: &JobState,
    first_seen: Option<Timestamp>,
    now: Timestamp,
    due: Due,
)
    requires
        job.enabled,
        saved.backoff_until is None,
        saved.last_run_at is Some,
        call_ensures(due_of, (job, Some(saved), first_seen, now), due),
    ensures
        exists|at: Option<Timestamp>| #[trigger]
            job.schedule.next_after_is(saved.last_run_at->0, at) && match at {
                Some(t) => due == (if t.nanos <= now.nanos {
                    Due::Now
                } else {
                    Due::At(t)
                }),
                None => due is Never,
            },
{
}

/// When a job that ran is next due does not depend on when that is asked, nor on when the
/// job was first seen: asked later, the same time stands until it is reached.
pub proof fn the_next_time_does_not_move(
    job: &Job,
    saved: &JobState,
    seen: Option<Timestamp>,
    now: Timestamp,
    due: Due,
    seen_then: Option<Timestamp>,
    then: Timestamp,
    due_then: Due,
)
    requires
        job.enabled,
        saved.backoff_until is None,
        saved.last_run_at is Some,
        forall|a: Option<Timestamp>, b: Option<Timestamp>|
            #![trigger job.schedule.next_after_is(saved.last_run_at->0, a), job.schedule.next_after_is(saved.last_run_at->0, b)]
            job.schedule.next_after_is(saved.last_run_at->0, a) && job.schedule.next_after_is(
                saved.last_run_at->0,
                b,
            ) ==> a == b,
        call_ensures(due_of, (job, Some(saved), seen, now), due),
        call_ensures(due_of, (job, Some(saved), seen_then, then), due_then),
    ensures
        due matches Due::At(t) ==> now.nanos < t.nanos && due_then == (if t.nanos <= then.nanos {
            Due::Now
        } else {
            Due::At(t)
        }),
        due is Now && now.nanos <= then.nanos ==> due_then is Now,
        due is Never <==> due_then is Never,
{
}

/// A job that never ran: one on an interval is due at once; one on a cron expression is
/// due at its first time after it was first seen, or after now where that is not known.
pub proof fn a_new_job_starts_by_its_kind(
    job: &Job,
    state: Option<&JobState>,
    first_seen: Option<Timestamp>,
    from: Timestamp,
    now: Timestamp,
    due: Due,
)
    requires
        first_seen is Some ==> first_seen == Some(from),
        first_seen is None ==> from == now,
        job.enabled,
        state matches Some(s) ==> s.backoff_until is None && s.last_run_at is None,
        call_ensures(due_of, (job, state, first_seen, now), due),
    ensures
        job.schedule is Every ==> due is Now,
        job.schedule is Cron ==> exists|at: Option<Timestamp>| #[trigger]
            job.schedule.next_after_is(from, at) && match at {
                Some(t) => due == (if t.nanos <= now.nanos {
                    Due::Now
                } else {
                    Due::At(t)
                }),
                None => due is Never,
            },
{
}

/// A backoff decides alone, as long as the job is enabled: not the schedule, nor the last
/// run.
pub proof fn a_backoff_decides_alone(
    job: &Job,
    saved: &JobState,
    until: Timestamp,
    first_seen: Option<Timestamp>,
    now: Timestamp,
    due: Due,
    at: Option<Timestamp>,
)
    requires
        saved.backoff_until == Some(until),
        call_ensures(due_of, (job, Some(saved), first_seen, now), due),
        call_ensures(Due::at, (due, now), at),
    ensures
        !job.enabled ==> due is Never && at is None,
        job.enabled && now.nanos < until.nanos ==> due == Due::At(until) && at == Some(until),
        job.enabled && now.nanos >= until.nanos ==> due is Now && at == Some(now),
{
}

} // verus!
