//! The jobs the scheduler holds, and what it does with them on a tick.

use vstd::prelude::*;
use vstd::string::*;

use crate::scheduler::run::Job;
use crate::scheduler::run::JobState;
use crate::text;
use crate::time::Timestamp;

verus! {

/// A job as the scheduler holds it: the last good parse, plus the current
/// file's error if it stopped parsing. A file that never parsed has no `job`.
#[derive(Debug)]
pub struct Entry {
    pub name: String,
    pub job: Option<Job>,
    pub error: Option<String>,
}

/// A job file as it was read.
#[derive(Debug)]
pub enum Loaded {
    Valid(Job),
    Invalid { name: String, error: String },
}

impl Loaded {
    /// The job's name.
    pub open spec fn called(self) -> Seq<char> {
        match self {
            Loaded::Valid(job) => job.name@,
            Loaded::Invalid { name, .. } => name@,
        }
    }

    /// The job's name.
    pub fn name(&self) -> (r: String)
        ensures
            r@ == self.called(),
    {
        match self {
            Loaded::Valid(job) => job.name.clone(),
            Loaded::Invalid { name, .. } => name.clone(),
        }
    }
}

/// When a job was first loaded.
#[derive(Debug)]
pub struct FirstSeen {
    pub name: String,
    pub at: Timestamp,
}

/// The scheduler's jobs.
#[derive(Debug)]
pub struct Scheduler {
    /// In the order of their names.
    pub entries: Vec<Entry>,
    /// When each job was first loaded; a cron job that never ran is due at its
    /// first occurrence after this.
    pub first_seen: Vec<FirstSeen>,
    /// The jobs that have a run in progress.
    pub running: Vec<String>,
    /// The one-pass scheduler of the command line: it exits after the pass, so
    /// it cannot host a stream connector.
    pub standalone: bool,
}

// ---------------------------------------------------------------------------
// Finding by name

/// The entries are in the strict order of their names.
pub open spec fn in_order(entries: Seq<Entry>) -> bool {
    forall|i: int, j: int|
        0 <= i < j < entries.len() ==> text::before(
            (#[trigger] entries[i]).name@,
            (#[trigger] entries[j]).name@,
        )
}

/// Where the entry of that name stands, or the number of entries.
pub open spec fn entry_at(entries: Seq<Entry>, name: Seq<char>) -> int
    decreases entries.len(),
{
    if entries.len() == 0 {
        0
    } else if entry_at(entries.drop_last(), name) < entries.len() - 1 {
        entry_at(entries.drop_last(), name)
    } else if entries.last().name@ == name {
        entries.len() - 1
    } else {
        entries.len() as int
    }
}

/// `entry_at` is the first entry of that name.
pub proof fn lemma_entry_at(entries: Seq<Entry>, name: Seq<char>)
    ensures
        0 <= entry_at(entries, name) <= entries.len(),
        entry_at(entries, name) < entries.len() ==> entries[entry_at(entries, name)].name@ == name,
        forall|k: int| 0 <= k < entry_at(entries, name) ==> (#[trigger] entries[k]).name@ != name,
    decreases entries.len(),
{
    if entries.len() > 0 {
        lemma_entry_at(entries.drop_last(), name);
        assert forall|k: int| 0 <= k < entry_at(entries, name) implies (#[trigger] entries[k]).name@
            != name by {
            if k < entries.len() - 1 {
                assert(entries.drop_last()[k] == entries[k]);
            }
        }
    }
}

/// The entry of that name, if there is one.
pub open spec fn entry_of(entries: Seq<Entry>, name: Seq<char>) -> Option<Entry> {
    if entry_at(entries, name) < entries.len() {
        Some(entries[entry_at(entries, name)])
    } else {
        None
    }
}

pub(crate) fn find_entry(entries: &Vec<Entry>, name: &str) -> (i: usize)
    ensures
        i == entry_at(entries@, name@),
        i <= entries@.len(),
        i < entries@.len() ==> entries@[i as int].name@ == name@,
{
    let mut i: usize = 0;
    while i < entries.len() && !text::same_text(entries[i].name.as_str(), name)
        invariant
            i <= entries@.len(),
            forall|k: int| 0 <= k < i ==> (#[trigger] entries@[k]).name@ != name@,
        decreases entries@.len() - i,
    {
        i = i + 1;
    }
    proof {
        lemma_entry_at(entries@, name@);
    }
    i
}

/// The state of the job of that name: the last one listed.
pub open spec fn state_of(states: Seq<JobState>, name: Seq<char>) -> Option<JobState>
    decreases states.len(),
{
    if states.len() == 0 {
        None
    } else if states.last().name@ == name {
        Some(states.last())
    } else {
        state_of(states.drop_last(), name)
    }
}

pub(crate) fn find_state<'a>(states: &'a Vec<JobState>, name: &str) -> (r: Option<&'a JobState>)
    ensures
        match (r, state_of(states@, name@)) {
            (Some(a), Some(b)) => *a == b,
            (None, None) => true,
            _ => false,
        },
{
    let mut i: usize = states.len();
    assert(states@.take(i as int) =~= states@);
    while i > 0
        invariant
            i <= states@.len(),
            state_of(states@, name@) == state_of(states@.take(i as int), name@),
        decreases i,
    {
        assert(states@.take(i as int).drop_last() =~= states@.take(i - 1));
        assert(states@.take(i as int).last() == states@[i - 1]);
        i = i - 1;
        if text::same_text(states[i].name.as_str(), name) {
            return Some(&states[i]);
        }
    }
    None
}

/// When the job of that name was first loaded.
pub open spec fn seen_at(list: Seq<FirstSeen>, name: Seq<char>) -> Option<Timestamp>
    decreases list.len(),
{
    if list.len() == 0 {
        None
    } else if list.last().name@ == name {
        Some(list.last().at)
    } else {
        seen_at(list.drop_last(), name)
    }
}

pub(crate) fn find_seen(list: &Vec<FirstSeen>, name: &str) -> (r: Option<Timestamp>)
    ensures
        r == seen_at(list@, name@),
{
    let mut i: usize = list.len();
    assert(list@.take(i as int) =~= list@);
    while i > 0
        invariant
            i <= list@.len(),
            seen_at(list@, name@) == seen_at(list@.take(i as int), name@),
        decreases i,
    {
        assert(list@.take(i as int).drop_last() =~= list@.take(i - 1));
        assert(list@.take(i as int).last() == list@[i - 1]);
        i = i - 1;
        if text::same_text(list[i].name.as_str(), name) {
            return Some(list[i].at);
        }
    }
    None
}

/// The name is among the names.
pub open spec fn named(names: Seq<String>, name: Seq<char>) -> bool {
    exists|i: int| 0 <= i < names.len() && (#[trigger] names[i])@ == name
}

pub(crate) fn is_named(names: &Vec<String>, name: &str) -> (b: bool)
    ensures
        b == named(names@, name@),
{
    let mut i: usize = 0;
    while i < names.len()
        invariant
            i <= names@.len(),
            forall|k: int| 0 <= k < i ==> (#[trigger] names@[k])@ != name@,
        decreases names@.len() - i,
    {
        if text::same_text(names[i].as_str(), name) {
            assert(names@[i as int]@ == name@);
            return true;
        }
        i = i + 1;
    }
    false
}

// ---------------------------------------------------------------------------
// Reading the job files again

/// The last of the loaded files of that name, or the number of them.
pub open spec fn loaded_at(loaded: Seq<Loaded>, name: Seq<char>) -> int
    decreases loaded.len(),
{
    if loaded.len() == 0 {
        0
    } else if loaded.last().called() == name {
        loaded.len() - 1
    } else if loaded_at(loaded.drop_last(), name) < loaded.len() - 1 {
        loaded_at(loaded.drop_last(), name)
    } else {
        loaded.len() as int
    }
}

/// Two jobs that say the same, or none.
pub open spec fn same_job(a: Option<Job>, b: Option<Job>) -> bool {
    match (a, b) {
        (Some(x), Some(y)) => x.same_as(y),
        (None, None) => true,
        _ => false,
    }
}

/// The job of that name, if there is a good one.
pub open spec fn job_named(entries: Seq<Entry>, name: Seq<char>) -> Option<Job> {
    match entry_of(entries, name) {
        Some(e) => e.job,
        None => None,
    }
}

/// What a loaded file makes of its job. A file that stopped parsing keeps its last
/// good version and carries the error.
pub open spec fn entry_from(e: Entry, file: Loaded, old_entries: Seq<Entry>) -> bool {
    &&& e.name@ == file.called()
    &&& match file {
        Loaded::Valid(job) => e.job == Some(job) && e.error is None,
        Loaded::Invalid { name, error } => e.error == Some(error) && same_job(
            e.job,
            job_named(old_entries, name@),
        ),
    }
}

/// The entries are those of the loaded files, the last of a name counting; a
/// removed file removes the job.
pub open spec fn entries_from(entries: Seq<Entry>, loaded: Seq<Loaded>, old_entries: Seq<Entry>) -> bool {
    &&& in_order(entries)
    &&& forall|i: int| 0 <= i < entries.len() ==> loaded_at(loaded, (#[trigger] entries[i]).name@)
        < loaded.len() && entry_from(
        entries[i],
        loaded[loaded_at(loaded, entries[i].name@)],
        old_entries,
    )
    &&& forall|k: int| 0 <= k < loaded.len() ==> entry_of(entries, (#[trigger] loaded[k]).called())
        is Some
}

/// Where a name belongs in the order.
fn place_for(entries: &Vec<Entry>, name: &str) -> (i: usize)
    requires
        in_order(entries@),
    ensures
        i <= entries@.len(),
        forall|k: int| 0 <= k < i ==> text::before((#[trigger] entries@[k]).name@, name@),
        i < entries@.len() ==> !text::before(entries@[i as int].name@, name@),
{
    let mut i: usize = 0;
    while i < entries.len() && text::comes_before(entries[i].name.as_str(), name)
        invariant
            i <= entries@.len(),
            forall|k: int| 0 <= k < i ==> text::before((#[trigger] entries@[k]).name@, name@),
        decreases entries@.len() - i,
    {
        i = i + 1;
    }
    i
}

proof fn lemma_in_order_after_insert(entries: Seq<Entry>, i: int, e: Entry)
    requires
        in_order(entries),
        0 <= i <= entries.len(),
        forall|k: int| 0 <= k < i ==> text::before((#[trigger] entries[k]).name@, e.name@),
        i < entries.len() ==> !text::before(entries[i].name@, e.name@) && entries[i].name@ != e.name@,
    ensures
        in_order(entries.insert(i, e)),
{
    let new = entries.insert(i, e);
    assert forall|a: int, b: int| 0 <= a < b < new.len() implies text::before(
        (#[trigger] new[a]).name@,
        (#[trigger] new[b]).name@,
    ) by {
        if a == i {
            text::texts_are_ordered(entries[i].name@, e.name@);
            if b - 1 > i {
                assert(text::before(entries[i].name@, entries[b - 1].name@));
                text::the_order_of_texts_carries_over(
                    e.name@,
                    entries[i].name@,
                    entries[b - 1].name@,
                );
            }
        } else {
            let x = if a < i {
                a
            } else {
                a - 1
            };
            if b != i {
                let y = if b < i {
                    b
                } else {
                    b - 1
                };
                assert(text::before(entries[x].name@, entries[y].name@));
            }
        }
    }
}

proof fn lemma_loaded_at_skips(loaded: Seq<Loaded>, n: int, name: Seq<char>)
    requires
        0 <= n <= loaded.len(),
        forall|k: int| n <= k < loaded.len() ==> (#[trigger] loaded[k]).called() != name,
        n > 0 ==> loaded[n - 1].called() == name,
        n > 0,
    ensures
        loaded_at(loaded, name) == n - 1,
    decreases loaded.len(),
{
    if loaded.len() > n {
        assert(loaded.last() == loaded[loaded.len() - 1]);
        assert forall|k: int| n <= k < loaded.len() - 1 implies (#[trigger] loaded.drop_last()[k]).called()
            != name by {
            assert(loaded.drop_last()[k] == loaded[k]);
        }
        lemma_loaded_at_skips(loaded.drop_last(), n, name);
    }
}

/// Where the connector of a job that still runs is used: its id and the job's
/// name.
#[derive(Debug)]
pub struct SourceUse {
    pub connector: String,
    pub job: String,
}

/// The sources that enabled jobs use, in the order of the jobs.
pub open spec fn uses_of(entries: Seq<Entry>) -> Seq<(Seq<char>, Seq<char>)>
    decreases entries.len(),
{
    if entries.len() == 0 {
        seq![]
    } else {
        match entries.last().job {
            Some(j) if j.enabled => uses_of(entries.drop_last()).push((j.connector@, j.name@)),
            _ => uses_of(entries.drop_last()),
        }
    }
}

/// The uses as texts.
pub open spec fn use_texts(v: Seq<SourceUse>) -> Seq<(Seq<char>, Seq<char>)> {
    Seq::new(v.len(), |i: int| (v[i].connector@, v[i].job@))
}

fn uses(entries: &Vec<Entry>) -> (r: Vec<SourceUse>)
    ensures
        use_texts(r@) == uses_of(entries@),
{
    let mut r: Vec<SourceUse> = Vec::new();
    let mut i: usize = 0;
    assert(use_texts(r@) =~= uses_of(entries@.take(0)));
    while i < entries.len()
        invariant
            i <= entries@.len(),
            use_texts(r@) == uses_of(entries@.take(i as int)),
        decreases entries@.len() - i,
    {
        proof {
            assert(entries@.take(i + 1).drop_last() =~= entries@.take(i as int));
            assert(entries@.take(i + 1).last() == entries@[i as int]);
        }
        if let Some(j) = &entries[i].job {
            if j.enabled {
                let ghost first = r@;
                r.push(SourceUse { connector: j.connector.clone(), job: j.name.clone() });
                assert(use_texts(r@) =~= use_texts(first).push((j.connector@, j.name@)));
            }
        }
        i = i + 1;
    }
    assert(entries@.take(i as int) =~= entries@);
    r
}

impl Scheduler {
    /// No job yet.
    pub fn new(standalone: bool) -> (s: Scheduler)
        ensures
            s.entries@.len() == 0,
            s.first_seen@.len() == 0,
            s.running@.len() == 0,
            s.standalone == standalone,
            s.wf(),
    {
        Scheduler { entries: Vec::new(), first_seen: Vec::new(), running: Vec::new(), standalone }
    }

    /// The entries are in the strict order of their names.
    pub open spec fn wf(self) -> bool {
        in_order(self.entries@)
    }

    /// What taking in the job files leads to: `after` is what is held then, and `uses`
    /// are the sources still in use.
    pub open spec fn takes(
        self,
        loaded: Seq<Loaded>,
        now: Timestamp,
        after: Scheduler,
        uses: Seq<SourceUse>,
    ) -> bool {
        &&& after.wf()
        &&& entries_from(after.entries@, loaded, self.entries@)
        &&& use_texts(uses) == uses_of(after.entries@)
        &&& forall|name: Seq<char>| #[trigger]
            seen_at(after.first_seen@, name) == match seen_at(self.first_seen@, name) {
                Some(t) => Some(t),
                None => if loaded_at(loaded, name) < loaded.len() {
                    Some(now)
                } else {
                    None
                },
            }
        &&& after.running == self.running
        &&& after.standalone == self.standalone
    }

    /// Take in the job files as they were read. A file that stopped parsing keeps
    /// its last good version and carries the error; a removed file removes the
    /// job. Returns the sources still in use: a removed or disabled job, or one
    /// moved to another connector, no longer needs its source.
    pub fn reload(&mut self, loaded: Vec<Loaded>, now: Timestamp) -> (r: Vec<SourceUse>)
        requires
            old(self).wf(),
        ensures
            old(self).takes(loaded@, now, *final(self), r@),
    {
        let ghost all = loaded@;
        let ghost first = self.first_seen@;
        let ghost old_entries = self.entries@;
        let mut rest = loaded;
        let mut next: Vec<Entry> = Vec::new();
        while rest.len() > 0
            invariant
                rest@.len() <= all.len(),
                rest@ == all.take(rest@.len() as int),
                self.entries@ == old_entries,
                self.running == old(self).running,
                self.standalone == old(self).standalone,
                in_order(next@),
                forall|i: int|
                    0 <= i < next@.len() ==> loaded_at(all, (#[trigger] next@[i]).name@)
                        < all.len() && entry_from(
                        next@[i],
                        all[loaded_at(all, next@[i].name@)],
                        old_entries,
                    ),
                forall|i: int|
                    0 <= i < next@.len() ==> loaded_at(all, (#[trigger] next@[i]).name@)
                        >= rest@.len(),
                forall|k: int|
                    rest@.len() <= k < all.len() ==> entry_of(next@, (#[trigger] all[k]).called())
                        is Some,
                forall|name: Seq<char>| #[trigger]
                    seen_at(self.first_seen@, name) == match seen_at(first, name) {
                        Some(t) => Some(t),
                        None => if entry_of(next@, name) is Some {
                            Some(now)
                        } else {
                            None
                        },
                    },
            decreases rest@.len(),
        {
            let ghost n = rest@.len() as int;
            let ghost before = next@;
            let file = match rest.pop() {
                Some(f) => f,
                None => vstd::pervasive::unreached(),
            };
            assert(file == all[n - 1]);
            assert(rest@ =~= all.take(n - 1));
            let name = file.name();
            let at = find_entry(&next, name.as_str());
            if at < next.len() {
                // A later file of the same name is there already.
                assert(entry_of(next@, all[n - 1].called()) is Some);
                continue;
            }
            proof {
                lemma_entry_at(before, name@);
                assert forall|k: int| n <= k < all.len() implies (#[trigger] all[k]).called()
                    != name@ by {
                    if all[k].called() == name@ {
                        assert(entry_of(before, all[k].called()) is Some);
                    }
                }
                lemma_loaded_at_skips(all, n, name@);
            }
            let ghost list = self.first_seen@;
            if find_seen(&self.first_seen, name.as_str()).is_none() {
                self.first_seen.push(FirstSeen { name: name.clone(), at: now });
                proof {
                    assert(self.first_seen@.drop_last() =~= list);
                }
            }
            assert forall|other: Seq<char>| #[trigger]
                seen_at(self.first_seen@, other) == if other == name@ && seen_at(list, other) is None {
                    Some(now)
                } else {
                    seen_at(list, other)
                } by {};
            let entry = match file {
                Loaded::Valid(job) => Entry { name: name.clone(), job: Some(job), error: None },
                Loaded::Invalid { error, .. } => {
                    let i = find_entry(&self.entries, name.as_str());
                    let job = if i < self.entries.len() {
                        match &self.entries[i].job {
                            Some(j) => Some(j.clone()),
                            None => None,
                        }
                    } else {
                        None
                    };
                    Entry { name: name.clone(), job, error: Some(error) }
                },
            };
            assert(entry_from(entry, all[n - 1], old_entries));
            let place = place_for(&next, name.as_str());
            proof {
                lemma_in_order_after_insert(next@, place as int, entry);
            }
            next.insert(place, entry);
            proof {
                lemma_entry_after_insert(before, place as int, entry);
                assert forall|other: Seq<char>| #[trigger]
                    seen_at(self.first_seen@, other) == match seen_at(first, other) {
                        Some(t) => Some(t),
                        None => if entry_of(next@, other) is Some {
                            Some(now)
                        } else {
                            None
                        },
                    } by {
                    assert((entry_of(next@, other) is Some) == (other == entry.name@ || entry_of(
                        before,
                        other,
                    ) is Some));
                    assert(seen_at(list, other) == match seen_at(first, other) {
                        Some(t) => Some(t),
                        None => if entry_of(before, other) is Some {
                            Some(now)
                        } else {
                            None
                        },
                    });
                }
            }
        }
        proof {
            assert forall|name: Seq<char>| (#[trigger] entry_of(next@, name) is Some) == (loaded_at(
                all,
                name,
            ) < all.len()) by {
                lemma_entry_at(next@, name);
                lemma_loaded_at_finds(all, name);
                if loaded_at(all, name) < all.len() {
                    assert(entry_of(next@, all[loaded_at(all, name)].called()) is Some);
                }
            }
        }
        let r = uses(&next);
        self.entries = next;
        r
    }
}

proof fn lemma_loaded_at_finds(loaded: Seq<Loaded>, name: Seq<char>)
    ensures
        0 <= loaded_at(loaded, name) <= loaded.len(),
        loaded_at(loaded, name) < loaded.len() ==> loaded[loaded_at(loaded, name)].called() == name,
    decreases loaded.len(),
{
    if loaded.len() > 0 {
        lemma_loaded_at_finds(loaded.drop_last(), name);
    }
}

proof fn lemma_entry_after_insert(entries: Seq<Entry>, i: int, e: Entry)
    requires
        0 <= i <= entries.len(),
    ensures
        forall|name: Seq<char>|
            (#[trigger] entry_of(entries.insert(i, e), name) is Some) == (name == e.name@
                || entry_of(entries, name) is Some),
{
    let new = entries.insert(i, e);
    assert forall|name: Seq<char>| (#[trigger] entry_of(new, name) is Some) == (name == e.name@
        || entry_of(entries, name) is Some) by {
        lemma_entry_at(new, name);
        lemma_entry_at(entries, name);
        if entry_of(new, name) is Some {
            let k = entry_at(new, name);
            if k < i {
                assert(entries[k].name@ == name);
            } else if k > i {
                assert(entries[k - 1].name@ == name);
            }
        }
        if name == e.name@ {
            assert(new[i].name@ == name);
        } else if entry_of(entries, name) is Some {
            let k = entry_at(entries, name);
            if k < i {
                assert(new[k] == entries[k]);
            } else {
                assert(new[k + 1] == entries[k]);
            }
        }
    }
}

/// A job whose file stopped parsing keeps running as it last was and carries the error;
/// one whose file never parsed carries the error and does not run.
pub proof fn a_broken_file_keeps_its_job(
    entries: Seq<Entry>,
    loaded: Seq<Loaded>,
    old_entries: Seq<Entry>,
    name: Seq<char>,
)
    requires
        entries_from(entries, loaded, old_entries),
        loaded_at(loaded, name) < loaded.len(),
        loaded[loaded_at(loaded, name)] is Invalid,
        0 <= loaded_at(loaded, name),
    ensures
        same_job(job_named(entries, name), job_named(old_entries, name)),
        entry_of(entries, name) matches Some(e) && (loaded[loaded_at(loaded, name)]
            matches Loaded::Invalid { error, .. } && e.error == Some(error)),
{
    lemma_loaded_at_finds(loaded, name);
    assert(entry_of(entries, loaded[loaded_at(loaded, name)].called()) is Some);
    lemma_entry_at(entries, name);
}

/// A job whose file is gone is gone.
pub proof fn a_removed_file_removes_its_job(
    entries: Seq<Entry>,
    loaded: Seq<Loaded>,
    old_entries: Seq<Entry>,
    name: Seq<char>,
)
    requires
        entries_from(entries, loaded, old_entries),
        forall|k: int| 0 <= k < loaded.len() ==> (#[trigger] loaded[k]).called() != name,
    ensures
        entry_of(entries, name) is None,
{
    lemma_entry_at(entries, name);
    lemma_loaded_at_finds(loaded, name);
}

/// What is saved of a job is the last that was saved under its very name.
pub proof fn the_state_of_a_job_is_its_own(states: Seq<JobState>, name: Seq<char>)
    ensures
        match state_of(states, name) {
            Some(s) => exists|i: int|
                0 <= i < states.len() && (#[trigger] states[i]) == s && s.name@ == name && forall|k: int|
                    i < k < states.len() ==> (#[trigger] states[k]).name@ != name,
            None => forall|k: int| 0 <= k < states.len() ==> (#[trigger] states[k]).name@ != name,
        },
    decreases states.len(),
{
    if states.len() > 0 {
        let rest = states.drop_last();
        the_state_of_a_job_is_its_own(rest, name);
        if states.last().name@ == name {
            assert(states[states.len() - 1] == states.last());
        } else {
            if let Some(s) = state_of(rest, name) {
                let i = choose|i: int|
                    0 <= i < rest.len() && (#[trigger] rest[i]) == s && s.name@ == name && forall|k: int|
                        i < k < rest.len() ==> (#[trigger] rest[k]).name@ != name;
                assert(states[i] == s);
                assert forall|k: int| i < k < states.len() implies (#[trigger] states[k]).name@ != name by {
                    if k < rest.len() {
                        assert(rest[k] == states[k]);
                    }
                }
            } else {
                assert forall|k: int| 0 <= k < states.len() implies (#[trigger] states[k]).name@ != name by {
                    if k < rest.len() {
                        assert(rest[k] == states[k]);
                    }
                }
            }
        }
    }
}

/// When a job was first seen is what was noted under its very name.
pub proof fn a_job_is_first_seen_under_its_name(list: Seq<FirstSeen>, name: Seq<char>)
    ensures
        match seen_at(list, name) {
            Some(at) => exists|i: int|
                0 <= i < list.len() && (#[trigger] list[i]).name@ == name && list[i].at == at,
            None => forall|k: int| 0 <= k < list.len() ==> (#[trigger] list[k]).name@ != name,
        },
    decreases list.len(),
{
    if list.len() > 0 {
        let rest = list.drop_last();
        a_job_is_first_seen_under_its_name(rest, name);
        if list.last().name@ == name {
            assert(list[list.len() - 1] == list.last());
        } else {
            if let Some(at) = seen_at(rest, name) {
                let i = choose|i: int|
                    0 <= i < rest.len() && (#[trigger] rest[i]).name@ == name && rest[i].at == at;
                assert(list[i] == rest[i]);
            } else {
                assert forall|k: int| 0 <= k < list.len() implies (#[trigger] list[k]).name@ != name by {
                    if k < rest.len() {
                        assert(rest[k] == list[k]);
                    }
                }
            }
        }
    }
}

/// A file that reads well is its job from then on, without an error: the last of its
/// name.
pub proof fn a_good_file_is_its_job(
    before: Scheduler,
    loaded: Seq<Loaded>,
    now: Timestamp,
    after: Scheduler,
    uses: Seq<SourceUse>,
    k: int,
    job: Job,
)
    requires
        before.takes(loaded, now, after, uses),
        0 <= k < loaded.len(),
        loaded[k] == Loaded::Valid(job),
        forall|j: int| k < j < loaded.len() ==> (#[trigger] loaded[j]).called() != job.name@,
    ensures
        exists|i: int|
            0 <= i < after.entries@.len() && (#[trigger] after.entries@[i]).name@ == job.name@
                && after.entries@[i].job == Some(job) && after.entries@[i].error is None,
        seen_at(after.first_seen@, job.name@) == (if seen_at(before.first_seen@, job.name@) is Some {
            seen_at(before.first_seen@, job.name@)
        } else {
            Some(now)
        }),
{
    let name = job.name@;
    lemma_last_loaded(loaded, k, name);
    assert(entry_of(after.entries@, loaded[k].called()) is Some);
    lemma_entry_at(after.entries@, name);
    let i = entry_at(after.entries@, name);
    assert(after.entries@[i].name@ == name);
}

proof fn lemma_last_loaded(loaded: Seq<Loaded>, k: int, name: Seq<char>)
    requires
        0 <= k < loaded.len(),
        loaded[k].called() == name,
        forall|j: int| k < j < loaded.len() ==> (#[trigger] loaded[j]).called() != name,
    ensures
        loaded_at(loaded, name) == k,
    decreases loaded.len(),
{
    if k < loaded.len() - 1 {
        let rest = loaded.drop_last();
        assert(loaded[loaded.len() - 1].called() != name);
        assert(rest[k] == loaded[k]);
        assert forall|j: int| k < j < rest.len() implies (#[trigger] rest[j]).called() != name by {
            assert(rest[j] == loaded[j]);
        }
        lemma_last_loaded(rest, k, name);
    }
}

/// Taking in the files again leaves no job but those of the files, and the runs that are
/// going.
pub proof fn no_job_but_those_of_the_files(
    before: Scheduler,
    loaded: Seq<Loaded>,
    now: Timestamp,
    after: Scheduler,
    uses: Seq<SourceUse>,
    i: int,
)
    requires
        before.takes(loaded, now, after, uses),
        0 <= i < after.entries@.len(),
    ensures
        exists|k: int|
            0 <= k < loaded.len() && (match #[trigger] loaded[k] {
                Loaded::Valid(job) => job.name@,
                Loaded::Invalid { name, .. } => name@,
            }) == after.entries@[i].name@,
        after.running == before.running,
        after.standalone == before.standalone,
{
    let name = after.entries@[i].name@;
    lemma_loaded_at_finds(loaded, name);
    assert(loaded[loaded_at(loaded, name)].called() == name);
}

/// The sources in use are those of the enabled jobs, and no others.
pub proof fn the_uses_are_those_of_enabled_jobs(
    entries: Seq<Entry>,
    connector: Seq<char>,
    name: Seq<char>,
)
    ensures
        uses_of(entries).contains((connector, name)) <==> exists|i: int|
            0 <= i < entries.len() && ((#[trigger] entries[i]).job matches Some(j) && j.enabled
                && j.connector@ == connector && j.name@ == name),
    decreases entries.len(),
{
    let all = uses_of(entries);
    if entries.len() > 0 {
        let rest = entries.drop_last();
        let first = uses_of(rest);
        the_uses_are_those_of_enabled_jobs(rest, connector, name);
        let n = entries.len() - 1;
        if all.contains((connector, name)) {
            let k = choose|k: int| 0 <= k < all.len() && all[k] == (connector, name);
            if k < first.len() {
                assert(first[k] == all[k]);
                assert(first.contains((connector, name)));
                let i = choose|i: int|
                    0 <= i < rest.len() && ((#[trigger] rest[i]).job matches Some(j) && j.enabled
                        && j.connector@ == connector && j.name@ == name);
                assert(entries[i] == rest[i]);
            } else {
                assert(entries[n].job is Some);
            }
        }
        if exists|i: int|
            0 <= i < entries.len() && ((#[trigger] entries[i]).job matches Some(j) && j.enabled
                && j.connector@ == connector && j.name@ == name) {
            let i = choose|i: int|
                0 <= i < entries.len() && ((#[trigger] entries[i]).job matches Some(j) && j.enabled
                    && j.connector@ == connector && j.name@ == name);
            if i < n {
                assert(rest[i] == entries[i]);
                assert(first.contains((connector, name)));
                let k = choose|k: int| 0 <= k < first.len() && first[k] == (connector, name);
                assert(all[k] == first[k]);
            } else {
                assert(all[all.len() - 1] == (connector, name));
            }
        }
    }
}

} // verus!
