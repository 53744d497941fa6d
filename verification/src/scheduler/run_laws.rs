//! What holds of every run of a job, whatever the store answers: what it asks for, what
//! it writes, and what it comes to.

use vstd::prelude::*;

use crate::scheduler::item;
use crate::scheduler::item::Item;
use crate::scheduler::report::RunOutcome;
use crate::scheduler::run::answered;
use crate::scheduler::run::counts;
use crate::scheduler::run::next_item;
use crate::scheduler::run::nothing_yet;
use crate::scheduler::run::run_start;
use crate::scheduler::run::tally_one;
use crate::scheduler::run::unseen;
use crate::scheduler::run::wanted;
use crate::scheduler::run::JobState;
use crate::scheduler::run::RunEnd;
use crate::scheduler::run::RunEvent;
use crate::scheduler::run::RunOutput;
use crate::scheduler::run::RunView;
use crate::scheduler::run::Tally;
use crate::scheduler::run::ViewNext;
use crate::task;
use crate::text;
use crate::time::Timestamp;

verus! {

// ---------------------------------------------------------------------------
// Whole runs

/// Where a run stands after the store's answers.
pub open spec fn run_after(start: ViewNext, events: Seq<RunEvent>) -> ViewNext
    decreases events.len(),
{
    if events.len() == 0 {
        start
    } else {
        match run_after(start, events.drop_last()) {
            ViewNext::Ask(v) => v.after(events.last()),
            end => end,
        }
    }
}

/// Each answer is one to what was asked.
pub open spec fn fits(start: ViewNext, events: Seq<RunEvent>) -> bool
    decreases events.len(),
{
    events.len() == 0 || (fits(start, events.drop_last()) && match run_after(
        start,
        events.drop_last(),
    ) {
        ViewNext::Ask(v) => v.awaits(events.last()),
        ViewNext::End(_) => false,
    })
}

/// The places of the items that the store was asked to make tasks of, in order.
pub open spec fn inserts(start: ViewNext, events: Seq<RunEvent>) -> Seq<int>
    decreases events.len(),
{
    if events.len() == 0 {
        seq![]
    } else {
        let before = inserts(start, events.drop_last());
        match run_after(start, events) {
            ViewNext::Ask(v) => if v.inserting {
                before.push(v.at)
            } else {
                before
            },
            ViewNext::End(_) => before,
        }
    }
}

/// The ids of the tasks that were made, in order.
pub open spec fn made(events: Seq<RunEvent>) -> Seq<i64>
    decreases events.len(),
{
    if events.len() == 0 {
        seq![]
    } else {
        match events.last() {
            RunEvent::Inserted(Ok(id)) => made(events.drop_last()).push(id),
            _ => made(events.drop_last()),
        }
    }
}

/// The keys that are seen after the store's answers, if these were before: a task that
/// is made has its key marked.
pub open spec fn seen_after(start: ViewNext, events: Seq<RunEvent>, seen: Set<Seq<char>>) -> Set<
    Seq<char>,
>
    decreases events.len(),
{
    if events.len() == 0 {
        seen
    } else {
        let before = seen_after(start, events.drop_last(), seen);
        match (run_after(start, events.drop_last()), events.last()) {
            (ViewNext::Ask(v), RunEvent::Inserted(Ok(_))) => before.insert(v.items[v.at].key@),
            _ => before,
        }
    }
}

/// The store tells of each key whether it is seen at that time.
pub open spec fn honest(start: ViewNext, events: Seq<RunEvent>, seen: Set<Seq<char>>) -> bool
    decreases events.len(),
{
    events.len() == 0 || (honest(start, events.drop_last(), seen) && match (
        run_after(start, events.drop_last()),
        events.last(),
    ) {
        (ViewNext::Ask(v), RunEvent::Seen(Ok(b))) => b == seen_after(
            start,
            events.drop_last(),
            seen,
        ).contains(v.items[v.at].key@),
        _ => true,
    })
}

/// Nothing the store was asked for failed.
pub open spec fn smooth(events: Seq<RunEvent>) -> bool {
    forall|i: int|
        0 <= i < events.len() ==> match #[trigger] events[i] {
            RunEvent::Seen(r) => r is Ok,
            RunEvent::Inserted(r) => r is Ok,
        }
}

// ---------------------------------------------------------------------------
// Where a run can stand

/// The run is at one of its items, and makes a task only of one that is wanted.
spec fn sound(v: RunView, items: Seq<Item>, max: int, dry_run: bool) -> bool {
    &&& v.items == items
    &&& v.max == max
    &&& v.dry_run == dry_run
    &&& 0 <= v.at < items.len()
    &&& counts(items, v.at)
    &&& v.t.halted is None
    &&& v.t.created.len() <= max
    &&& v.inserting ==> wanted(v.t, items, v.at, unseen(), max, dry_run)
}

proof fn lemma_next_item(items: Seq<Item>, i: int)
    requires
        0 <= i <= items.len(),
    ensures
        i <= next_item(items, i) <= items.len(),
        next_item(items, i) < items.len() ==> counts(items, next_item(items, i)),
        forall|k: int| i <= k < next_item(items, i) ==> !#[trigger] counts(items, k),
    decreases items.len() - i,
{
    if i < items.len() && !counts(items, i) {
        lemma_next_item(items, i + 1);
    }
}

proof fn lemma_sound(items: Seq<Item>, max: int, dry_run: bool, events: Seq<RunEvent>)
    requires
        0 <= max,
        fits(run_start(items, max, dry_run), events),
    ensures
        match run_after(run_start(items, max, dry_run), events) {
            ViewNext::Ask(v) => sound(v, items, max, dry_run),
            ViewNext::End(t) => t.created.len() <= max,
        },
    decreases events.len(),
{
    if events.len() == 0 {
        lemma_next_item(items, 0);
    } else {
        lemma_sound(items, max, dry_run, events.drop_last());
        if let ViewNext::Ask(v) = run_after(run_start(items, max, dry_run), events.drop_last()) {
            lemma_next_item(items, v.at + 1);
        }
    }
}

/// A run makes no more tasks than the job allows, and asks for none once it has made
/// them all.
pub proof fn a_run_stays_within_its_limit(
    items: Seq<Item>,
    max: int,
    dry_run: bool,
    events: Seq<RunEvent>,
)
    requires
        0 <= max,
        fits(run_start(items, max, dry_run), events),
    ensures
        match run_after(run_start(items, max, dry_run), events) {
            ViewNext::Ask(v) => v.t.created.len() <= max && (v.inserting ==> v.t.created.len() < max),
            ViewNext::End(t) => t.created.len() <= max,
        },
{
    lemma_sound(items, max, dry_run, events);
}

/// A run ends: it asks at most twice for each item.
pub proof fn a_run_ends(items: Seq<Item>, max: int, dry_run: bool, events: Seq<RunEvent>)
    requires
        0 <= max,
        fits(run_start(items, max, dry_run), events),
    ensures
        events.len() <= match run_after(run_start(items, max, dry_run), events) {
            ViewNext::Ask(v) => 2 * v.at + if v.inserting {
                1int
            } else {
                0
            },
            ViewNext::End(_) => 2 * items.len() as int,
        },
    decreases events.len(),
{
    if events.len() > 0 {
        a_run_ends(items, max, dry_run, events.drop_last());
        lemma_sound(items, max, dry_run, events.drop_last());
        if let ViewNext::Ask(v) = run_after(run_start(items, max, dry_run), events.drop_last()) {
            lemma_next_item(items, v.at + 1);
        }
    } else {
        lemma_next_item(items, 0);
    }
}

// ---------------------------------------------------------------------------
// What a run asks the store to write

/// A run asks for each item's task at most once, in order, and only for an item that has
/// a key of its own and nothing wrong with it. A dry run asks for none.
pub proof fn each_item_is_inserted_at_most_once(
    items: Seq<Item>,
    max: int,
    dry_run: bool,
    events: Seq<RunEvent>,
)
    requires
        0 <= max,
        fits(run_start(items, max, dry_run), events),
    ensures
        ({
            let asked = inserts(run_start(items, max, dry_run), events);
            &&& forall|i: int, j: int|
                0 <= i < j < asked.len() ==> (#[trigger] asked[i]) < (#[trigger] asked[j])
            &&& forall|i: int|
                0 <= i < asked.len() ==> 0 <= (#[trigger] asked[i]) < items.len() && counts(
                    items,
                    asked[i],
                ) && item::item_problem(items[asked[i]]) is None
            &&& dry_run ==> asked.len() == 0
        }),
{
    lemma_inserts(items, max, dry_run, events);
}

proof fn lemma_inserts(items: Seq<Item>, max: int, dry_run: bool, events: Seq<RunEvent>)
    requires
        0 <= max,
        fits(run_start(items, max, dry_run), events),
    ensures
        ({
            let start = run_start(items, max, dry_run);
            let asked = inserts(start, events);
            &&& forall|i: int, j: int|
                0 <= i < j < asked.len() ==> (#[trigger] asked[i]) < (#[trigger] asked[j])
            &&& forall|i: int|
                0 <= i < asked.len() ==> 0 <= (#[trigger] asked[i]) < items.len() && counts(
                    items,
                    asked[i],
                ) && item::item_problem(items[asked[i]]) is None
            &&& dry_run ==> asked.len() == 0
            &&& match run_after(start, events) {
                ViewNext::Ask(v) => {
                    &&& forall|i: int|
                        0 <= i < asked.len() ==> (#[trigger] asked[i]) <= v.at
                    &&& !v.inserting ==> forall|i: int|
                        0 <= i < asked.len() ==> (#[trigger] asked[i]) < v.at
                    &&& v.inserting ==> asked.len() > 0 && asked.last() == v.at
                },
                ViewNext::End(_) => true,
            }
        }),
    decreases events.len(),
{
    lemma_sound(items, max, dry_run, events);
    if events.len() > 0 {
        let start = run_start(items, max, dry_run);
        lemma_sound(items, max, dry_run, events.drop_last());
        lemma_inserts(items, max, dry_run, events.drop_last());
        if let ViewNext::Ask(v) = run_after(start, events.drop_last()) {
            lemma_next_item(items, v.at + 1);
        }
    }
}

/// The tasks a run queued are those that the store made for it, in order, and a real run
/// reports them by their names. A dry run queues none.
pub proof fn what_is_queued_was_made(
    items: Seq<Item>,
    max: int,
    dry_run: bool,
    events: Seq<RunEvent>,
)
    requires
        0 <= max,
        fits(run_start(items, max, dry_run), events),
    ensures
        ({
            let t = match run_after(run_start(items, max, dry_run), events) {
                ViewNext::Ask(v) => v.t,
                ViewNext::End(t) => t,
            };
            &&& t.queued == made(events)
            &&& !dry_run ==> t.created == Seq::new(
                t.queued.len(),
                |i: int| task::task_name(t.queued[i] as int),
            )
            &&& dry_run ==> t.queued.len() == 0 && !t.insert_failed
        }),
    decreases events.len(),
{
    let start = run_start(items, max, dry_run);
    if events.len() == 0 {
        assert(nothing_yet().created =~= Seq::new(
            0,
            |i: int| task::task_name(nothing_yet().queued[i] as int),
        ));
    } else {
        what_is_queued_was_made(items, max, dry_run, events.drop_last());
        lemma_sound(items, max, dry_run, events.drop_last());
        if let ViewNext::Ask(v) = run_after(start, events.drop_last()) {
            let t = tally_one(v.t, items, v.at, events.last().answer(), max, dry_run);
            if let RunEvent::Inserted(Ok(id)) = events.last() {
                assert(t.created =~= Seq::new(
                    t.queued.len(),
                    |i: int| task::task_name(t.queued[i] as int),
                ));
            }
        }
    }
}

/// A dry run writes nothing: no task is asked for, no key is marked, no state is saved,
/// nothing is acknowledged, and no event is sent.
pub proof fn a_dry_run_writes_nothing(
    items: Seq<Item>,
    max: int,
    events: Seq<RunEvent>,
    seen: Set<Seq<char>>,
    t: Tally,
    r: RunEnd,
    name: String,
    state: JobState,
    output: RunOutput,
    now: Timestamp,
)
    requires
        0 <= max,
        fits(run_start(items, max, true), events),
        run_after(run_start(items, max, true), events) == ViewNext::End(t),
        answered(r, name, state, output, t, now, true),
    ensures
        inserts(run_start(items, max, true), events).len() == 0,
        seen_after(run_start(items, max, true), events, seen) == seen,
        r.save is None,
        !r.ack,
        r.queued@.len() == 0,
        !r.job_failed,
{
    lemma_inserts(items, max, true, events);
    lemma_dry_marks_nothing(items, max, events, seen);
    what_is_queued_was_made(items, max, true, events);
}

proof fn lemma_dry_marks_nothing(
    items: Seq<Item>,
    max: int,
    events: Seq<RunEvent>,
    seen: Set<Seq<char>>,
)
    requires
        0 <= max,
        fits(run_start(items, max, true), events),
    ensures
        seen_after(run_start(items, max, true), events, seen) == seen,
    decreases events.len(),
{
    if events.len() > 0 {
        lemma_dry_marks_nothing(items, max, events.drop_last(), seen);
        lemma_sound(items, max, true, events.drop_last());
    }
}

// ---------------------------------------------------------------------------
// The store

/// With a store that tells the truth, a task is made only of an item whose key it does
/// not know: each task brings one new key. A key that is seen afterwards was seen
/// before, or is that of an item whose task was asked for; what was deferred, rejected
/// or not asked for stays unseen.
pub proof fn each_task_brings_a_new_key(
    items: Seq<Item>,
    max: int,
    dry_run: bool,
    events: Seq<RunEvent>,
    seen: Set<Seq<char>>,
)
    requires
        0 <= max,
        fits(run_start(items, max, dry_run), events),
        honest(run_start(items, max, dry_run), events, seen),
        seen.finite(),
    ensures
        ({
            let start = run_start(items, max, dry_run);
            let after = seen_after(start, events, seen);
            let asked = inserts(start, events);
            &&& after.finite()
            &&& after.len() == seen.len() + made(events).len()
            &&& seen.subset_of(after)
            &&& forall|k: Seq<char>| #[trigger]
                after.contains(k) ==> seen.contains(k) || exists|i: int|
                    0 <= i < asked.len() && (#[trigger] items[asked[i]]).key@ == k
            &&& forall|i: int|
                0 <= i < asked.len() ==> !seen.contains((#[trigger] items[asked[i]]).key@)
        }),
{
    lemma_store(items, max, dry_run, events, seen);
}

proof fn lemma_store(
    items: Seq<Item>,
    max: int,
    dry_run: bool,
    events: Seq<RunEvent>,
    seen: Set<Seq<char>>,
)
    requires
        0 <= max,
        fits(run_start(items, max, dry_run), events),
        honest(run_start(items, max, dry_run), events, seen),
        seen.finite(),
    ensures
        ({
            let start = run_start(items, max, dry_run);
            let after = seen_after(start, events, seen);
            let asked = inserts(start, events);
            &&& after.finite()
            &&& after.len() == seen.len() + made(events).len()
            &&& seen.subset_of(after)
            &&& forall|k: Seq<char>| #[trigger]
                after.contains(k) ==> seen.contains(k) || exists|i: int|
                    0 <= i < asked.len() && (#[trigger] items[asked[i]]).key@ == k
            &&& forall|i: int|
                0 <= i < asked.len() ==> !seen.contains((#[trigger] items[asked[i]]).key@)
            &&& match run_after(start, events) {
                ViewNext::Ask(v) => v.inserting ==> !after.contains(items[v.at].key@),
                ViewNext::End(_) => true,
            }
        }),
    decreases events.len(),
{
    if events.len() > 0 {
        let start = run_start(items, max, dry_run);
        let rest = events.drop_last();
        lemma_store(items, max, dry_run, rest, seen);
        lemma_sound(items, max, dry_run, rest);
        lemma_inserts(items, max, dry_run, rest);
        let before = seen_after(start, rest, seen);
        let after = seen_after(start, events, seen);
        let was = inserts(start, rest);
        let asked = inserts(start, events);
        if let ViewNext::Ask(v) = run_after(start, rest) {
            assert forall|k: Seq<char>| #[trigger] after.contains(k) implies seen.contains(k)
                || exists|i: int| 0 <= i < asked.len() && (#[trigger] items[asked[i]]).key@ == k by {
                if before.contains(k) {
                    if !seen.contains(k) {
                        let i = choose|i: int|
                            0 <= i < was.len() && (#[trigger] items[was[i]]).key@ == k;
                        assert(asked[i] == was[i]);
                        assert(items[asked[i]].key@ == k);
                    }
                } else {
                    assert(k == items[v.at].key@);
                    assert(was[was.len() - 1] == v.at);
                    assert(asked[was.len() - 1] == v.at);
                    assert(items[asked[was.len() - 1]].key@ == k);
                }
            }
            assert forall|i: int| 0 <= i < asked.len() implies !seen.contains(
                (#[trigger] items[asked[i]]).key@,
            ) by {
                if i < was.len() {
                    assert(asked[i] == was[i]);
                    assert(items[was[i]].key@ == items[asked[i]].key@);
                } else {
                    assert(asked[i] == v.at);
                }
            }
        }
    }
}

// ---------------------------------------------------------------------------
// What a run comes to

/// What becomes of the items.
#[verifier::ext_equal]
pub struct Fates {
    pub skipped_seen: nat,
    pub deferred: nat,
    pub problems: Seq<Seq<char>>,
    /// The places of the items that become tasks.
    pub chosen: Seq<int>,
}

/// What becomes of the first `n` items, by the keys seen before the run.
pub open spec fn fates(items: Seq<Item>, seen: Set<Seq<char>>, max: int, n: int) -> Fates
    decreases n,
{
    if n <= 0 {
        Fates { skipped_seen: 0, deferred: 0, problems: seq![], chosen: seq![] }
    } else {
        let f = fates(items, seen, max, n - 1);
        let key = items[n - 1].key@;
        if !counts(items, n - 1) {
            f
        } else if seen.contains(key) {
            Fates { skipped_seen: f.skipped_seen + 1, ..f }
        } else {
            match item::item_problem(items[n - 1]) {
                Some(why) => Fates { problems: f.problems.push(key + ": rejected: "@ + why), ..f },
                None => if f.chosen.len() >= max {
                    Fates { deferred: f.deferred + 1, ..f }
                } else {
                    Fates { chosen: f.chosen.push(n - 1), ..f }
                },
            }
        }
    }
}

/// The keys of the items at these places.
pub open spec fn keys_at(items: Seq<Item>, places: Seq<int>) -> Seq<Seq<char>> {
    Seq::new(places.len(), |i: int| items[places[i]].key@)
}

/// The run so far came to what becomes of the items.
pub open spec fn comes_to(t: Tally, items: Seq<Item>, f: Fates, dry_run: bool) -> bool {
    &&& t.halted is None
    &&& !t.insert_failed
    &&& t.skipped_seen == f.skipped_seen
    &&& t.deferred == f.deferred
    &&& t.problems == f.problems
    &&& t.created.len() == f.chosen.len()
    &&& dry_run ==> t.created == keys_at(items, f.chosen)
}

proof fn lemma_fates_skip(items: Seq<Item>, seen: Set<Seq<char>>, max: int, i: int, j: int)
    requires
        0 <= i <= j,
        forall|k: int| i <= k < j ==> !#[trigger] counts(items, k),
    ensures
        fates(items, seen, max, j) == fates(items, seen, max, i),
    decreases j - i,
{
    if i < j {
        assert(!counts(items, j - 1));
        lemma_fates_skip(items, seen, max, i, j - 1);
    }
}

/// With a store that tells the truth and does not fail, what a run comes to is settled by
/// the keys seen before it.
proof fn lemma_fates(
    items: Seq<Item>,
    max: int,
    dry_run: bool,
    events: Seq<RunEvent>,
    seen: Set<Seq<char>>,
)
    requires
        0 <= max,
        fits(run_start(items, max, dry_run), events),
        honest(run_start(items, max, dry_run), events, seen),
        smooth(events),
        seen.finite(),
    ensures
        ({
            let start = run_start(items, max, dry_run);
            let asked = inserts(start, events);
            match run_after(start, events) {
                ViewNext::Ask(v) => {
                    let f = fates(items, seen, max, v.at);
                    &&& comes_to(v.t, items, f, dry_run)
                    &&& !dry_run ==> asked == if v.inserting {
                        f.chosen.push(v.at)
                    } else {
                        f.chosen
                    }
                },
                ViewNext::End(t) => {
                    let f = fates(items, seen, max, items.len() as int);
                    &&& comes_to(t, items, f, dry_run)
                    &&& !dry_run ==> asked == f.chosen
                },
            }
        }),
    decreases events.len(),
{
    let start = run_start(items, max, dry_run);
    let none = fates(items, seen, max, 0);
    if events.len() == 0 {
        lemma_next_item(items, 0);
        lemma_fates_skip(items, seen, max, 0, next_item(items, 0));
        assert(keys_at(items, none.chosen) =~= nothing_yet().created);
    } else {
        let rest = events.drop_last();
        assert forall|i: int| 0 <= i < rest.len() implies match #[trigger] rest[i] {
            RunEvent::Seen(r) => r is Ok,
            RunEvent::Inserted(r) => r is Ok,
        } by {
            assert(rest[i] == events[i]);
        }
        lemma_fates(items, max, dry_run, rest, seen);
        lemma_store(items, max, dry_run, rest, seen);
        lemma_sound(items, max, dry_run, rest);
        lemma_inserts(items, max, dry_run, rest);
        let last = events.last();
        assert(last == events[events.len() - 1]);
        if let ViewNext::Ask(v) = run_after(start, rest) {
            let f = fates(items, seen, max, v.at);
            let g = fates(items, seen, max, v.at + 1);
            let now = seen_after(start, rest, seen);
            let was = inserts(start, rest);
            let key = items[v.at].key@;
            lemma_next_item(items, v.at + 1);
            lemma_fates_skip(items, seen, max, v.at + 1, next_item(items, v.at + 1));
            // No item before has the key, so no task of this run has marked it.
            if !v.inserting && now.contains(key) && !seen.contains(key) {
                let i = choose|i: int| 0 <= i < was.len() && (#[trigger] items[was[i]]).key@ == key;
                assert(was[i] < v.at);
                assert(items[was[i]].key@ != items[v.at].key@);
            }
            if v.inserting {
                assert(was[was.len() - 1] == v.at);
                assert(items[was[was.len() - 1]].key@ == key);
                assert(!seen.contains(key));
                assert(g.chosen == f.chosen.push(v.at));
            } else {
                assert(now.contains(key) == seen.contains(key));
            }
            if dry_run && g.chosen != f.chosen {
                assert(keys_at(items, g.chosen) =~= keys_at(items, f.chosen).push(key));
            }
        }
    }
}

/// With a store that tells the truth and does not fail, a run reports exactly what
/// becomes of the items, and its tasks are made of exactly those chosen: the first of the
/// new ones with nothing wrong, as many as the job allows. The rest stay unseen.
pub proof fn a_run_makes_tasks_of_the_new_items(
    items: Seq<Item>,
    max: int,
    events: Seq<RunEvent>,
    seen: Set<Seq<char>>,
    t: Tally,
)
    requires
        0 <= max,
        fits(run_start(items, max, false), events),
        honest(run_start(items, max, false), events, seen),
        smooth(events),
        seen.finite(),
        run_after(run_start(items, max, false), events) == ViewNext::End(t),
    ensures
        comes_to(t, items, fates(items, seen, max, items.len() as int), false),
        inserts(run_start(items, max, false), events) == fates(
            items,
            seen,
            max,
            items.len() as int,
        ).chosen,
        t.queued == made(events),
        t.queued.len() == t.created.len(),
        seen_after(run_start(items, max, false), events, seen).len() == seen.len()
            + t.queued.len(),
{
    lemma_fates(items, max, false, events, seen);
    lemma_store(items, max, false, events, seen);
    what_is_queued_was_made(items, max, false, events);
}

/// A dry run tells what the run would do: on the same store, with nothing failing, both
/// report the same items, skips, deferrals and problems, and as many created; and what
/// the dry run names are the keys of the items that the other makes tasks of.
pub proof fn a_dry_run_tells_what_a_run_does(
    name: String,
    state: JobState,
    output: RunOutput,
    max: int,
    now: Timestamp,
    seen: Set<Seq<char>>,
    dry_events: Seq<RunEvent>,
    dry: Tally,
    told: RunEnd,
    events: Seq<RunEvent>,
    t: Tally,
    done: RunEnd,
)
    requires
        0 <= max,
        seen.finite(),
        fits(run_start(output.items@, max, true), dry_events),
        honest(run_start(output.items@, max, true), dry_events, seen),
        smooth(dry_events),
        run_after(run_start(output.items@, max, true), dry_events) == ViewNext::End(dry),
        answered(told, name, state, output, dry, now, true),
        fits(run_start(output.items@, max, false), events),
        honest(run_start(output.items@, max, false), events, seen),
        smooth(events),
        run_after(run_start(output.items@, max, false), events) == ViewNext::End(t),
        answered(done, name, state, output, t, now, false),
    ensures
        told.report.outcome == RunOutcome::DryRun,
        done.report.outcome == RunOutcome::Ran,
        told.report.items == done.report.items,
        told.report.skipped_seen == done.report.skipped_seen,
        told.report.deferred == done.report.deferred,
        text::opt_text(told.report.error) == text::opt_text(done.report.error),
        told.report.created@.len() == done.report.created@.len(),
        text::texts(told.report.created@) == keys_at(
            output.items@,
            inserts(run_start(output.items@, max, false), events),
        ),
        done.queued@ == made(events),
        text::texts(done.report.created@) == Seq::new(
            done.queued@.len(),
            |i: int| task::task_name(done.queued@[i] as int),
        ),
{
    lemma_fates(output.items@, max, true, dry_events, seen);
    lemma_fates(output.items@, max, false, events, seen);
    what_is_queued_was_made(output.items@, max, false, events);
    assert(text::texts(told.report.created@).len() == told.report.created@.len());
    assert(text::texts(done.report.created@).len() == done.report.created@.len());
}

/// How many of the first `n` items have a key that none before them has.
pub open spec fn distinct(items: Seq<Item>, n: int) -> nat
    decreases n,
{
    if n <= 0 {
        0
    } else {
        distinct(items, n - 1) + if counts(items, n - 1) {
            1nat
        } else {
            0
        }
    }
}

proof fn lemma_distinct_skip(items: Seq<Item>, i: int, j: int)
    requires
        0 <= i <= j,
        forall|k: int| i <= k < j ==> !#[trigger] counts(items, k),
    ensures
        distinct(items, j) == distinct(items, i),
    decreases j - i,
{
    if i < j {
        assert(!counts(items, j - 1));
        lemma_distinct_skip(items, i, j - 1);
    }
}

/// No item is lost: each key is seen, rejected, deferred, made a task, or failed
/// to be one, and only once.
pub proof fn every_item_has_one_fate(
    items: Seq<Item>,
    max: int,
    dry_run: bool,
    events: Seq<RunEvent>,
)
    requires
        0 <= max,
        fits(run_start(items, max, dry_run), events),
    ensures
        ({
            let (t, n) = match run_after(run_start(items, max, dry_run), events) {
                ViewNext::Ask(v) => (v.t, v.at),
                ViewNext::End(t) => (t, items.len() as int),
            };
            t.halted is None ==> t.created.len() + t.skipped_seen + t.deferred + t.problems.len()
                == distinct(items, n)
        }),
    decreases events.len(),
{
    let start = run_start(items, max, dry_run);
    if events.len() == 0 {
        lemma_next_item(items, 0);
        lemma_distinct_skip(items, 0, next_item(items, 0));
    } else {
        every_item_has_one_fate(items, max, dry_run, events.drop_last());
        lemma_sound(items, max, dry_run, events.drop_last());
        if let ViewNext::Ask(v) = run_after(start, events.drop_last()) {
            lemma_next_item(items, v.at + 1);
            lemma_distinct_skip(items, v.at + 1, next_item(items, v.at + 1));
        }
    }
}

/// A run looks at each item that has a key no earlier item has, in order: it begins with
/// the first of them, goes on to the next after each, and ends when none is left.
pub proof fn a_run_goes_from_key_to_key(v: RunView, t: Tally)
    requires
        0 <= v.at < v.items.len(),
    ensures
        match v.past(t) {
            ViewNext::Ask(w) => {
                &&& v.at < w.at < v.items.len()
                &&& !w.inserting && w.t == t && w.items == v.items && w.max == v.max && w.dry_run
                    == v.dry_run
                &&& v.items[w.at].key@.len() > 0
                &&& forall|j: int| 0 <= j < w.at ==> (#[trigger] v.items[j]).key@ != v.items[w.at].key@
                &&& forall|k: int|
                    v.at < k < w.at ==> (#[trigger] v.items[k]).key@.len() == 0 || exists|j: int|
                        0 <= j < k && (#[trigger] v.items[j]).key@ == v.items[k].key@
            },
            ViewNext::End(u) => u == t && forall|k: int|
                v.at < k < v.items.len() ==> (#[trigger] v.items[k]).key@.len() == 0 || exists|j: int|
                    0 <= j < k && (#[trigger] v.items[j]).key@ == v.items[k].key@,
        },
{
    lemma_next_item(v.items, v.at + 1);
    let n = next_item(v.items, v.at + 1);
    assert forall|k: int| v.at < k < n implies (#[trigger] v.items[k]).key@.len() == 0 || exists|j: int|
        0 <= j < k && (#[trigger] v.items[j]).key@ == v.items[k].key@ by {
        assert(!counts(v.items, k));
    }
}

/// The first item a run looks at is the first that has a key.
pub proof fn a_run_begins_at_the_first_key(items: Seq<Item>, max: int, dry_run: bool)
    ensures
        match run_start(items, max, dry_run) {
            ViewNext::Ask(v) => {
                &&& 0 <= v.at < items.len()
                &&& items[v.at].key@.len() > 0
                &&& forall|k: int| 0 <= k < v.at ==> (#[trigger] items[k]).key@.len() == 0
                &&& v.items == items && v.max == max && v.dry_run == dry_run && !v.inserting
                &&& v.t.created.len() == 0 && v.t.queued.len() == 0 && v.t.halted is None
                &&& v.t.skipped_seen == 0 && v.t.deferred == 0 && v.t.problems.len() == 0
            },
            ViewNext::End(t) => t.created.len() == 0 && forall|k: int|
                0 <= k < items.len() ==> (#[trigger] items[k]).key@.len() == 0,
        },
{
    lemma_next_item(items, 0);
    let n = next_item(items, 0);
    lemma_no_keys(items, n);
}

proof fn lemma_no_keys(items: Seq<Item>, n: int)
    requires
        0 <= n <= items.len(),
        forall|k: int| 0 <= k < n ==> !#[trigger] counts(items, k),
    ensures
        forall|k: int| 0 <= k < n ==> (#[trigger] items[k]).key@.len() == 0,
    decreases n,
{
    if n > 0 {
        lemma_no_keys(items, n - 1);
        assert(!counts(items, n - 1));
    }
}

} // verus!
