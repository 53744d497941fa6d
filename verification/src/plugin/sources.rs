//! The sources handed out so far. A stream connector must be one process however often
//! it is asked for, so each plugin and job has one source.

use vstd::prelude::*;
use vstd::string::*;

use crate::plugin::catalog;
use crate::plugin::catalog::retain_job;
use crate::plugin::catalog::PluginCatalog;
use crate::plugin::catalog::SourceFrom;
use crate::plugin::catalog::SourceKey;
use crate::plugin::manifest;
use crate::scheduler::jobs::SourceUse;
use crate::text;

verus! {

/// A source that was handed out, and for which plugin and job.
#[derive(Debug)]
pub struct Held<S> {
    pub key: SourceKey,
    pub source: S,
}

/// The sources handed out so far.
#[derive(Debug)]
pub struct Sources<S> {
    pub held: Vec<Held<S>>,
}

/// Where the source asked for is.
#[derive(Debug, Clone, Copy, PartialEq, Eq, Structural)]
pub enum Handed {
    /// The connector is built in.
    Builtin,
    /// Among the sources handed out, at this place.
    At(usize),
    /// There is none.
    Nowhere,
}

/// The key is that of the plugin and the job.
pub open spec fn is_key(key: SourceKey, id: Seq<char>, job: Option<Seq<char>>) -> bool {
    key.id@ == id && text::opt_text(key.job) == job
}

/// The keys are of one plugin and one job.
pub open spec fn same_key(a: SourceKey, b: SourceKey) -> bool {
    is_key(a, b.id@, text::opt_text(b.job))
}

/// No plugin and job has two sources.
pub open spec fn keys_differ<S>(held: Seq<Held<S>>) -> bool {
    forall|i: int, j: int|
        0 <= i < j < held.len() ==> !same_key((#[trigger] held[i]).key, (#[trigger] held[j]).key)
}

/// The sources still in use, in order.
pub open spec fn kept<S>(held: Seq<Held<S>>, keep: Seq<SourceUse>) -> Seq<Held<S>>
    decreases held.len(),
{
    if held.len() == 0 {
        held
    } else if catalog::in_use(held.last().key, keep) {
        kept(held.drop_last(), keep).push(held.last())
    } else {
        kept(held.drop_last(), keep)
    }
}

/// What is kept was there, still in use, and nothing in use is lost.
proof fn lemma_kept<S>(held: Seq<Held<S>>, keep: Seq<SourceUse>)
    ensures
        forall|h: Held<S>| #[trigger]
            kept(held, keep).contains(h) <==> held.contains(h) && catalog::in_use(h.key, keep),
    decreases held.len(),
{
    let all = kept(held, keep);
    if held.len() > 0 {
        let rest = held.drop_last();
        let first = kept(rest, keep);
        lemma_kept(rest, keep);
        assert forall|h: Held<S>| #[trigger] all.contains(h) <==> held.contains(h)
            && catalog::in_use(h.key, keep) by {
            if all.contains(h) {
                let i = choose|i: int| 0 <= i < all.len() && all[i] == h;
                if i < first.len() {
                    assert(first[i] == h);
                    assert(first.contains(h));
                    assert(rest.contains(h));
                    let k = choose|k: int| 0 <= k < rest.len() && rest[k] == h;
                    assert(held[k] == h);
                } else {
                    assert(held[held.len() - 1] == h);
                }
            }
            if held.contains(h) && catalog::in_use(h.key, keep) {
                let k = choose|k: int| 0 <= k < held.len() && held[k] == h;
                if k < rest.len() {
                    assert(rest[k] == h);
                    assert(first.contains(h));
                    let i = choose|i: int| 0 <= i < first.len() && first[i] == h;
                    assert(all[i] == h);
                } else {
                    assert(all[all.len() - 1] == h);
                }
            }
        }
    }
}

/// Dropping sources leaves no two of one plugin and job.
proof fn lemma_kept_differ<S>(held: Seq<Held<S>>, keep: Seq<SourceUse>)
    requires
        keys_differ(held),
    ensures
        keys_differ(kept(held, keep)),
    decreases held.len(),
{
    let all = kept(held, keep);
    if held.len() > 0 {
        let rest = held.drop_last();
        let first = kept(rest, keep);
        assert forall|i: int, j: int| 0 <= i < j < rest.len() implies !same_key(
            (#[trigger] rest[i]).key,
            (#[trigger] rest[j]).key,
        ) by {
            assert(rest[i] == held[i] && rest[j] == held[j]);
        }
        lemma_kept_differ(rest, keep);
        lemma_kept(rest, keep);
        assert forall|i: int, j: int| 0 <= i < j < all.len() implies !same_key(
            (#[trigger] all[i]).key,
            (#[trigger] all[j]).key,
        ) by {
            assert(all[i] == first[i]);
            if j < first.len() {
                assert(all[j] == first[j]);
            } else {
                assert(first.contains(first[i]));
                assert(rest.contains(first[i]));
                let k = choose|k: int| 0 <= k < rest.len() && rest[k] == first[i];
                assert(held[k] == first[i]);
                assert(held[held.len() - 1] == all[j]);
            }
        }
    }
}

fn key_is(key: &SourceKey, id: &str, job: Option<&str>) -> (b: bool)
    ensures
        b == is_key(*key, id@, text::opt_str(job)),
{
    if !text::same_text(key.id.as_str(), id) {
        return false;
    }
    match (&key.job, job) {
        (Some(a), Some(b)) => text::same_text(a.as_str(), b),
        (None, None) => true,
        _ => false,
    }
}

impl<S> Sources<S> {
    /// No plugin and job has two sources.
    pub open spec fn wf(&self) -> bool {
        keys_differ(self.held@)
    }

    /// The source of the plugin and the job is at the place.
    pub open spec fn holds_at(&self, n: int, id: Seq<char>, job: Option<Seq<char>>) -> bool {
        0 <= n < self.held@.len() && is_key(self.held@[n].key, id, job)
    }

    /// The plugin and the job have a source.
    pub open spec fn holds(&self, id: Seq<char>, job: Option<Seq<char>>) -> bool {
        exists|n: int| #[trigger] self.holds_at(n, id, job)
    }

    /// Every source is where it was; there may be more.
    pub open spec fn grown_to(&self, later: Sources<S>) -> bool {
        self.held@.is_prefix_of(later.held@)
    }

    /// The connector is a plugin's, and its source for the job is not here yet.
    pub open spec fn lacks(
        &self,
        catalog: PluginCatalog,
        id: Seq<char>,
        job: Option<Seq<char>>,
    ) -> bool {
        &&& !manifest::builtin(id)
        &&& catalog::plugin_of(catalog.plugins@, id) matches Some(p)
        &&& p.manifest.connector is Some
        &&& !self.holds(id, job)
    }

    /// What asking for a connector's source comes to.
    pub open spec fn hands_out<M: FnOnce(&str, Option<&str>) -> S>(
        &self,
        catalog: PluginCatalog,
        id: &str,
        job: Option<&str>,
        make: M,
        after: Sources<S>,
        r: Handed,
    ) -> bool {
        if manifest::builtin(id@) {
            r is Builtin && after.held@ == self.held@
        } else {
            match catalog::plugin_of(catalog.plugins@, id@) {
                Some(p) if p.manifest.connector is Some => {
                    &&& r matches Handed::At(n) && after.holds_at(
                        n as int,
                        id@,
                        text::opt_str(job),
                    ) && (if self.holds(id@, text::opt_str(job)) {
                        after.held@ == self.held@
                    } else {
                        &&& n == self.held@.len()
                        &&& after.held@.len() == n + 1
                        &&& self.grown_to(after)
                        &&& call_ensures(make, (id, job), after.held@[n as int].source)
                    })
                },
                _ => r is Nowhere && after.held@ == self.held@,
            }
        }
    }

    /// None was handed out yet.
    pub fn new() -> (r: Sources<S>)
        ensures
            r.held@.len() == 0,
            r.wf(),
    {
        Sources { held: Vec::new() }
    }

    fn find(&self, id: &str, job: Option<&str>) -> (r: Option<usize>)
        ensures
            match r {
                Some(n) => self.holds_at(n as int, id@, text::opt_str(job)),
                None => !self.holds(id@, text::opt_str(job)),
            },
    {
        let mut i: usize = 0;
        while i < self.held.len()
            invariant
                i <= self.held@.len(),
                forall|k: int|
                    0 <= k < i ==> !#[trigger] self.holds_at(k, id@, text::opt_str(job)),
            decreases self.held@.len() - i,
        {
            if key_is(&self.held[i].key, id, job) {
                return Some(i);
            }
            assert(!self.holds_at(i as int, id@, text::opt_str(job)));
            i = i + 1;
        }
        None
    }

    /// The source of a connector for a job, made once, the first time it is asked
    /// for.
    pub fn source<M: FnOnce(&str, Option<&str>) -> S>(
        &mut self,
        catalog: &PluginCatalog,
        id: &str,
        job: Option<&str>,
        make: M,
    ) -> (r: Handed)
        requires
            old(self).wf(),
            old(self).lacks(*catalog, id@, text::opt_str(job)) ==> call_requires(make, (id, job)),
        ensures
            final(self).wf(),
            old(self).hands_out(*catalog, id, job, make, *final(self), r),
    {
        let key = match catalog.source_keyed(id, job) {
            SourceFrom::Builtin => {
                return Handed::Builtin;
            },
            SourceFrom::Nowhere => {
                return Handed::Nowhere;
            },
            SourceFrom::Plugin { id, job } => SourceKey { id, job },
        };
        if let Some(n) = self.find(id, job) {
            return Handed::At(n);
        }
        let n: usize = self.held.len();
        let source = make(id, job);
        let ghost before = self.held@;
        self.held.push(Held { key, source });
        proof {
            assert(before.is_prefix_of(self.held@));
            assert forall|i: int| 0 <= i < n implies !same_key(
                (#[trigger] before[i]).key,
                key,
            ) by {
                assert(!old(self).holds_at(i, id@, text::opt_str(job)));
            }
        }
        Handed::At(n)
    }

    /// Drop the sources of jobs that no longer use them. One without a job stays.
    pub fn retain_jobs(&mut self, keep: &Vec<SourceUse>)
        requires
            old(self).wf(),
        ensures
            final(self).wf(),
            final(self).held@ == kept(old(self).held@, keep@),
    {
        let ghost all = self.held@;
        let mut out: Vec<Held<S>> = Vec::new();
        assert(all.take(0) =~= seq![]);
        assert(out@ =~= kept(all.take(0), keep@));
        while self.held.len() > 0
            invariant
                self.held@.len() <= all.len(),
                self.held@ == all.skip(all.len() - self.held@.len()),
                out@ == kept(all.take(all.len() - self.held@.len()), keep@),
            decreases self.held@.len(),
        {
            let ghost i = all.len() - self.held@.len();
            let h = self.held.remove(0);
            proof {
                assert(h == all[i]);
                assert(self.held@ =~= all.skip(i + 1));
                assert(all.take(i + 1).drop_last() =~= all.take(i));
                assert(all.take(i + 1).last() == all[i]);
            }
            if retain_job(&h.key, keep) {
                out.push(h);
            }
        }
        proof {
            assert(all.take(all.len() as int) =~= all);
            lemma_kept_differ(all, keep@);
        }
        self.held = out;
    }
}

/// One source for each plugin and job: as long as none is dropped in between, asking
/// again gives the source at the same place, and asking for another plugin or job gives
/// one at another place.
pub proof fn one_source_for_each_plugin_and_job<
    S,
    M: FnOnce(&str, Option<&str>) -> S,
    N: FnOnce(&str, Option<&str>) -> S,
>(
    catalog: PluginCatalog,
    make: M,
    other_make: N,
    before: Sources<S>,
    id: &str,
    job: Option<&str>,
    after: Sources<S>,
    first: usize,
    later: Sources<S>,
    other_id: &str,
    other_job: Option<&str>,
    last: Sources<S>,
    second: usize,
)
    requires
        before.hands_out(catalog, id, job, make, after, Handed::At(first)),
        after.grown_to(later),
        later.hands_out(catalog, other_id, other_job, other_make, last, Handed::At(second)),
        last.wf(),
    ensures
        second == first <==> other_id@ == id@ && text::opt_str(other_job) == text::opt_str(job),
        last.held@[first as int] == after.held@[first as int],
        later.grown_to(last),
{
    assert(later.held@.is_prefix_of(last.held@));
    assert(later.held@[first as int] == after.held@[first as int]);
    assert(last.held@[first as int] == later.held@[first as int]);
    assert(last.holds_at(first as int, id@, text::opt_str(job)));
    assert(last.holds_at(second as int, other_id@, text::opt_str(other_job)));
}

/// A source is dropped if and only if its job no longer uses it.
pub proof fn only_sources_in_use_are_kept<S>(held: Seq<Held<S>>, keep: Seq<SourceUse>, h: Held<S>)
    ensures
        kept(held, keep).contains(h) <==> held.contains(h) && catalog::in_use(h.key, keep),
{
    lemma_kept(held, keep);
}

} // verus!
