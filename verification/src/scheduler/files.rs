//! The job files as the scheduler last saw them: a directory that did not change is
//! not read again.

use vstd::prelude::*;
use vstd::string::*;

use crate::scheduler::jobs::Loaded;
use crate::scheduler::jobs::Scheduler;
use crate::scheduler::jobs::SourceUse;
use crate::text;
use crate::time::Timestamp;

verus! {

/// A file, as far as a change shows without reading it.
#[derive(Debug)]
pub struct FileMark {
    pub name: String,
    /// When it was last written, if that can be told.
    pub modified: Option<i128>,
    pub len: u64,
}

/// The name is that of a job's file: something stands before `.toml`.
pub open spec fn job_file(name: Seq<char>) -> bool {
    text::without_end(name, ".toml"@) matches Some(stem) && stem.len() > 0
}

fn is_job_file(name: &str) -> (b: bool)
    ensures
        b == job_file(name@),
{
    match text::strip_end(name, ".toml") {
        Some(stem) => stem.as_str().unicode_len() > 0,
        None => false,
    }
}

/// Where a file of that name goes: before the first whose name comes later.
pub open spec fn mark_place(v: Seq<FileMark>, name: Seq<char>) -> int
    decreases v.len(),
{
    if v.len() == 0 {
        0
    } else if mark_place(v.drop_last(), name) < v.len() - 1 {
        mark_place(v.drop_last(), name)
    } else if text::before(name, v.last().name@) {
        v.len() - 1
    } else {
        v.len() as int
    }
}

/// What the jobs directory looks like: its job files, in the order of their names.
pub open spec fn fingerprint_of(files: Seq<FileMark>) -> Seq<FileMark>
    decreases files.len(),
{
    if files.len() == 0 {
        files
    } else {
        let rest = fingerprint_of(files.drop_first());
        if job_file(files[0].name@) {
            rest.insert(mark_place(rest, files[0].name@), files[0])
        } else {
            rest
        }
    }
}

/// No file before the place comes later than the name, and the one at it does.
proof fn lemma_mark_place(v: Seq<FileMark>, name: Seq<char>)
    ensures
        0 <= mark_place(v, name) <= v.len(),
        mark_place(v, name) < v.len() ==> text::before(name, v[mark_place(v, name)].name@),
        forall|k: int|
            0 <= k < mark_place(v, name) ==> !text::before(name, (#[trigger] v[k]).name@),
    decreases v.len(),
{
    if v.len() > 0 {
        lemma_mark_place(v.drop_last(), name);
        assert forall|k: int| 0 <= k < mark_place(v, name) implies !text::before(
            name,
            (#[trigger] v[k]).name@,
        ) by {
            if k < v.len() - 1 {
                assert(v.drop_last()[k] == v[k]);
            }
        }
    }
}

/// What the jobs directory looks like: its job files, in the order of their names.
pub fn fingerprint(files: Vec<FileMark>) -> (r: Vec<FileMark>)
    ensures
        r@ == fingerprint_of(files@),
{
    let ghost all = files@;
    let mut rest = files;
    let mut out: Vec<FileMark> = Vec::new();
    assert(all.skip(all.len() as int) =~= Seq::<FileMark>::empty());
    while rest.len() > 0
        invariant
            rest@.len() <= all.len(),
            rest@ == all.take(rest@.len() as int),
            out@ == fingerprint_of(all.skip(rest@.len() as int)),
        decreases rest@.len(),
    {
        let ghost n = rest@.len() as int;
        let f = match rest.pop() {
            Some(f) => f,
            None => vstd::pervasive::unreached(),
        };
        proof {
            assert(rest@ =~= all.take(n - 1));
            assert(all.skip(n - 1).drop_first() =~= all.skip(n));
            assert(all.skip(n - 1)[0] == f);
        }
        if is_job_file(f.name.as_str()) {
            let mut i: usize = 0;
            while i < out.len() && !text::comes_before(f.name.as_str(), out[i].name.as_str())
                invariant
                    i <= out@.len(),
                    forall|k: int|
                        0 <= k < i ==> !text::before(f.name@, (#[trigger] out@[k]).name@),
                decreases out@.len() - i,
            {
                i = i + 1;
            }
            proof {
                lemma_mark_place(out@, f.name@);
            }
            out.insert(i, f);
        }
    }
    assert(all.skip(0) =~= all);
    out
}

/// No two of the files have one name, as in a directory.
pub open spec fn names_differ(files: Seq<FileMark>) -> bool {
    forall|i: int, j: int|
        0 <= i < j < files.len() ==> (#[trigger] files[i]).name@ != (#[trigger] files[j]).name@
}

/// The files stand in the strict order of their names.
pub open spec fn marks_in_order(v: Seq<FileMark>) -> bool {
    forall|i: int, j: int|
        0 <= i < j < v.len() ==> text::before((#[trigger] v[i]).name@, (#[trigger] v[j]).name@)
}

/// The fingerprint holds each job file as often as the listing does, and nothing else.
proof fn lemma_fingerprint_holds(files: Seq<FileMark>, f: FileMark)
    ensures
        fingerprint_of(files).to_multiset().count(f) == if job_file(f.name@) {
            files.to_multiset().count(f)
        } else {
            0
        },
    decreases files.len(),
{
    broadcast use {vstd::multiset::group_multiset_axioms, vstd::seq_lib::group_to_multiset_ensures};

    if files.len() > 0 {
        let rest = files.drop_first();
        lemma_fingerprint_holds(rest, f);
        text::lemma_insert_adds_one(rest, 0, files[0]);
        assert(rest.insert(0, files[0]) =~= files);
        let v = fingerprint_of(rest);
        if job_file(files[0].name@) {
            lemma_mark_place(v, files[0].name@);
            text::lemma_insert_adds_one(v, mark_place(v, files[0].name@), files[0]);
        }
    }
}

/// The fingerprint of a directory is in the strict order of the names.
proof fn lemma_fingerprint_in_order(files: Seq<FileMark>)
    requires
        names_differ(files),
    ensures
        marks_in_order(fingerprint_of(files)),
    decreases files.len(),
{
    broadcast use {vstd::multiset::group_multiset_axioms, vstd::seq_lib::group_to_multiset_ensures};

    if files.len() > 0 {
        let rest = files.drop_first();
        let f = files[0];
        assert forall|i: int, j: int| 0 <= i < j < rest.len() implies (#[trigger] rest[i]).name@ != (
        #[trigger] rest[j]).name@ by {
            assert(rest[i] == files[i + 1] && rest[j] == files[j + 1]);
        }
        lemma_fingerprint_in_order(rest);
        let v = fingerprint_of(rest);
        if job_file(f.name@) {
            let at = mark_place(v, f.name@);
            lemma_mark_place(v, f.name@);
            assert forall|k: int| 0 <= k < v.len() implies (#[trigger] v[k]).name@ != f.name@ by {
                lemma_fingerprint_holds(rest, v[k]);
                assert(v.contains(v[k]));
                assert(rest.contains(v[k]));
                let n = choose|n: int| 0 <= n < rest.len() && rest[n] == v[k];
                assert(rest[n] == files[n + 1]);
            }
            let w = v.insert(at, f);
            assert forall|i: int, j: int| 0 <= i < j < w.len() implies text::before(
                (#[trigger] w[i]).name@,
                (#[trigger] w[j]).name@,
            ) by {
                if i < at && j == at {
                    assert(w[i] == v[i]);
                    text::texts_are_ordered(v[i].name@, f.name@);
                } else if i == at && j > at {
                    assert(w[j] == v[j - 1]);
                    if j - 1 > at {
                        text::the_order_of_texts_carries_over(f.name@, v[at].name@, v[j - 1].name@);
                    }
                } else if j < at {
                    assert(w[i] == v[i] && w[j] == v[j]);
                } else if i < at {
                    assert(w[i] == v[i] && w[j] == v[j - 1]);
                } else {
                    assert(w[i] == v[i - 1] && w[j] == v[j - 1]);
                }
            }
        }
    }
}

/// Lists with the same members are of one length, and hold what the other holds.
proof fn lemma_same_members(a: Seq<FileMark>, b: Seq<FileMark>)
    requires
        a.to_multiset() == b.to_multiset(),
    ensures
        a.len() == b.len(),
        forall|f: FileMark| #[trigger] a.contains(f) == b.contains(f),
{
    vstd::seq_lib::to_multiset_len(a);
    vstd::seq_lib::to_multiset_len(b);
    assert forall|f: FileMark| #[trigger] a.contains(f) == b.contains(f) by {
        vstd::seq_lib::to_multiset_contains(a, f);
        vstd::seq_lib::to_multiset_contains(b, f);
    }
}

/// The order leaves no choice: lists in it with the same members are the same.
proof fn lemma_one_order(a: Seq<FileMark>, b: Seq<FileMark>)
    requires
        marks_in_order(a),
        marks_in_order(b),
        a.to_multiset() == b.to_multiset(),
    ensures
        a == b,
    decreases a.len(),
{
    broadcast use {vstd::multiset::group_multiset_axioms, vstd::seq_lib::group_to_multiset_ensures};

    lemma_same_members(a, b);
    if a.len() == 0 {
        assert(a =~= b);
    } else {
        let x = a.last();
        let y = b.last();
        assert(a.contains(x));
        assert(b.contains(x));
        assert(b.contains(y));
        assert(a.contains(y));
        let k = choose|k: int| 0 <= k < b.len() && b[k] == x;
        let j = choose|j: int| 0 <= j < a.len() && a[j] == y;
        text::texts_are_ordered(x.name@, y.name@);
        if k < b.len() - 1 {
            assert(text::before(x.name@, y.name@));
            if j < a.len() - 1 {
                assert(text::before(a[j].name@, x.name@));
            }
        }
        assert(x == y);
        assert(a.drop_last() =~= a.remove(a.len() - 1));
        assert(b.drop_last() =~= b.remove(b.len() - 1));
        assert(a.drop_last().to_multiset() =~= b.drop_last().to_multiset());
        lemma_one_order(a.drop_last(), b.drop_last());
        assert(a =~= a.drop_last().push(x));
        assert(b =~= b.drop_last().push(y));
    }
}

/// The order in which a directory lists its files does not matter.
pub proof fn the_order_of_a_listing_does_not_matter(a: Seq<FileMark>, b: Seq<FileMark>)
    requires
        names_differ(a),
        a.to_multiset() == b.to_multiset(),
    ensures
        fingerprint_of(a) == fingerprint_of(b),
{
    broadcast use {vstd::multiset::group_multiset_axioms, vstd::seq_lib::group_to_multiset_ensures};

    let va = fingerprint_of(a);
    let vb = fingerprint_of(b);
    assert forall|f: FileMark| va.to_multiset().count(f) == vb.to_multiset().count(f) by {
        lemma_fingerprint_holds(a, f);
        lemma_fingerprint_holds(b, f);
    }
    assert(va.to_multiset() =~= vb.to_multiset());
    lemma_names_differ_too(a, b);
    lemma_fingerprint_in_order(a);
    lemma_fingerprint_in_order(b);
    lemma_one_order(va, vb);
}

/// Another order of the files has no two of one name either.
proof fn lemma_names_differ_too(a: Seq<FileMark>, b: Seq<FileMark>)
    requires
        names_differ(a),
        a.to_multiset() == b.to_multiset(),
    ensures
        names_differ(b),
{
    broadcast use {vstd::multiset::group_multiset_axioms, vstd::seq_lib::group_to_multiset_ensures};

    lemma_same_members(a, b);
    assert forall|i: int, j: int| 0 <= i < j < b.len() implies (#[trigger] b[i]).name@ != (
    #[trigger] b[j]).name@ by {
        if b[i].name@ == b[j].name@ {
            assert(b.contains(b[i]) && b.contains(b[j]));
            assert(a.contains(b[i]) && a.contains(b[j]));
            let m = choose|m: int| 0 <= m < a.len() && a[m] == b[i];
            let n = choose|n: int| 0 <= n < a.len() && a[n] == b[j];
            assert(m == n);
            // One file twice in `b`, and so twice in `a`.
            let f = b[i];
            let once = b.remove(i);
            assert(once[j - 1] == f);
            assert(once.contains(f));
            assert(b.to_multiset().count(f) == once.to_multiset().count(f) + 1);
            let left = a.remove(m);
            assert(a.to_multiset().count(f) == left.to_multiset().count(f) + 1);
            assert(left.contains(f));
            let k = choose|k: int| 0 <= k < left.len() && left[k] == f;
            assert(left[k] == if k < m {
                a[k]
            } else {
                a[k + 1]
            });
        }
    }
}

/// What two marks say is the same.
pub open spec fn same_mark(a: FileMark, b: FileMark) -> bool {
    a.name@ == b.name@ && a.modified == b.modified && a.len == b.len
}

/// What the directory looked like is the same.
pub open spec fn same_marks(a: Seq<FileMark>, b: Seq<FileMark>) -> bool {
    a.len() == b.len() && forall|i: int|
        0 <= i < a.len() ==> same_mark(#[trigger] a[i], b[i])
}

fn are_same(a: &Vec<FileMark>, b: &Vec<FileMark>) -> (r: bool)
    ensures
        r == same_marks(a@, b@),
{
    if a.len() != b.len() {
        return false;
    }
    let mut i: usize = 0;
    while i < a.len()
        invariant
            i <= a@.len(),
            a@.len() == b@.len(),
            forall|k: int| 0 <= k < i ==> same_mark(#[trigger] a@[k], b@[k]),
        decreases a@.len() - i,
    {
        let same_time = match (a[i].modified, b[i].modified) {
            (Some(x), Some(y)) => x == y,
            (None, None) => true,
            _ => false,
        };
        if !same_time || a[i].len != b[i].len || !text::same_text(
            a[i].name.as_str(),
            b[i].name.as_str(),
        ) {
            assert(!same_mark(a@[i as int], b@[i as int]));
            return false;
        }
        i = i + 1;
    }
    true
}

/// What the jobs directory looked like when it was last read.
#[derive(Debug)]
pub struct JobFiles {
    pub marks: Option<Vec<FileMark>>,
}

impl JobFiles {
    /// Nothing was read yet.
    pub fn new() -> (r: JobFiles)
        ensures
            r.marks is None,
    {
        JobFiles { marks: None }
    }

    /// The directory as it is now differs from what was last read.
    pub open spec fn differs(self, now: Seq<FileMark>) -> bool {
        !(self.marks matches Some(m) && same_marks(m@, now))
    }

    /// Whether the job files are to be read: the first time, and whenever the
    /// directory changed since. `listing` is the directory as it is listed now.
    pub fn changed(&mut self, listing: Vec<FileMark>) -> (b: bool)
        ensures
            b == old(self).differs(fingerprint_of(listing@)),
            !b ==> *final(self) == *old(self),
            !final(self).differs(fingerprint_of(listing@)),
    {
        let now = fingerprint(listing);
        if let Some(m) = &self.marks {
            if are_same(m, &now) {
                return false;
            }
        }
        self.marks = Some(now);
        true
    }

    /// The job files are to be read the next time whether they changed or not.
    pub fn forget(&mut self)
        ensures
            final(self).marks is None,
    {
        self.marks = None;
    }
}

/// A directory that looks as it did is not read again; one whose files were forgotten
/// is.
pub proof fn an_unchanged_directory_is_not_read_again(files: JobFiles, now: Seq<FileMark>)
    ensures
        files.marks matches Some(m) && same_marks(m@, now) ==> !files.differs(now),
        files.marks is None ==> files.differs(now),
{
}

/// What a look at the job files came to.
#[derive(Debug)]
pub enum Reread {
    /// Nothing changed since they were last read.
    Unchanged,
    /// They changed and could not be read; the jobs stay as they are.
    Failed(String),
    /// They were taken in. These are the sources still in use.
    Taken(Vec<SourceUse>),
}

impl Scheduler {
    /// What a look at the job files leads to.
    pub open spec fn rereads<L: FnOnce() -> Result<Vec<Loaded>, String>>(
        self,
        files: JobFiles,
        listing: Seq<FileMark>,
        load: L,
        now: Timestamp,
        after: Scheduler,
        files_after: JobFiles,
        r: Reread,
    ) -> bool {
        &&& !files_after.differs(fingerprint_of(listing))
        &&& match r {
            Reread::Unchanged => !files.differs(fingerprint_of(listing)) && after == self
                && files_after == files,
            Reread::Failed(e) => files.differs(fingerprint_of(listing)) && after == self
                && call_ensures(load, (), Err::<Vec<Loaded>, String>(e)),
            Reread::Taken(uses) => files.differs(fingerprint_of(listing)) && exists|
                loaded: Vec<Loaded>,
            | #[trigger]
                call_ensures(load, (), Ok::<Vec<Loaded>, String>(loaded)) && self.takes(
                    loaded@,
                    now,
                    after,
                    uses@,
                ),
        }
    }

    /// Read the job files again if any was added, removed or touched since. `listing` is
    /// the directory as it is listed now, and `load` reads the files, at most once and
    /// only if something changed.
    pub fn reload_changed<L: FnOnce() -> Result<Vec<Loaded>, String>>(
        &mut self,
        files: &mut JobFiles,
        listing: Vec<FileMark>,
        load: L,
        now: Timestamp,
    ) -> (r: Reread)
        requires
            old(self).wf(),
            old(files).differs(fingerprint_of(listing@)) ==> call_requires(load, ()),
        ensures
            final(self).wf(),
            old(self).rereads(
                *old(files),
                listing@,
                load,
                now,
                *final(self),
                *final(files),
                r,
            ),
    {
        if !files.changed(listing) {
            return Reread::Unchanged;
        }
        match load() {
            Err(e) => Reread::Failed(e),
            Ok(loaded) => {
                assert(call_ensures(load, (), Ok::<Vec<Loaded>, String>(loaded)));
                Reread::Taken(self.reload(loaded, now))
            },
        }
    }
}

/// A second look with nothing changed on disk reads nothing and changes no job, in
/// whatever order the directory lists its files.
pub proof fn a_second_reload_changes_nothing<
    L: FnOnce() -> Result<Vec<Loaded>, String>,
    M: FnOnce() -> Result<Vec<Loaded>, String>,
>(
    s: Scheduler,
    files: JobFiles,
    listing: Seq<FileMark>,
    load: L,
    now: Timestamp,
    then: Scheduler,
    then_files: JobFiles,
    first: Reread,
    again: Seq<FileMark>,
    load_again: M,
    later: Timestamp,
    last: Scheduler,
    last_files: JobFiles,
    second: Reread,
)
    requires
        s.rereads(files, listing, load, now, then, then_files, first),
        names_differ(listing),
        again.to_multiset() == listing.to_multiset(),
        then.rereads(then_files, again, load_again, later, last, last_files, second),
    ensures
        second is Unchanged,
        last == then,
        last_files == then_files,
{
    the_order_of_a_listing_does_not_matter(listing, again);
}

/// The job files of a directory are those whose names end in `.toml` with something
/// before it; they come in the order of their names.
pub proof fn the_job_files_are_the_toml_files(files: Vec<FileMark>, r: Vec<FileMark>, f: FileMark)
    requires
        call_ensures(fingerprint, (files,), r),
    ensures
        r@.contains(f) <==> files@.contains(f) && f.name@.len() > 5 && f.name@.skip(
            f.name@.len() - 5,
        ) == ".toml"@,
        names_differ(files@) ==> forall|i: int, j: int|
            0 <= i < j < r@.len() ==> text::before(
                (#[trigger] r@[i]).name@,
                (#[trigger] r@[j]).name@,
            ),
{
    reveal_strlit(".toml");
    lemma_fingerprint_members(files@, f);
    if names_differ(files@) {
        lemma_fingerprint_in_order(files@);
    }
}

proof fn lemma_fingerprint_members(files: Seq<FileMark>, f: FileMark)
    ensures
        fingerprint_of(files).contains(f) <==> files.contains(f) && job_file(f.name@),
    decreases files.len(),
{
    if files.len() > 0 {
        let rest = fingerprint_of(files.drop_first());
        let first = files[0];
        lemma_fingerprint_members(files.drop_first(), f);
        let at = mark_place(rest, first.name@);
        lemma_mark_place(rest, first.name@);
        let all = rest.insert(at, first);
        if files.contains(f) {
            let i = choose|i: int| 0 <= i < files.len() && files[i] == f;
            if i > 0 {
                assert(files.drop_first()[i - 1] == f);
                assert(files.drop_first().contains(f));
            }
        }
        if files.drop_first().contains(f) {
            let i = choose|i: int| 0 <= i < files.drop_first().len() && files.drop_first()[i] == f;
            assert(files[i + 1] == f);
        }
        assert(files.contains(first));
        if job_file(first.name@) {
            assert(all[at] == first);
            if rest.contains(f) {
                let k = choose|k: int| 0 <= k < rest.len() && rest[k] == f;
                assert(all[if k < at {
                    k
                } else {
                    k + 1
                }] == f);
            }
            if all.contains(f) {
                let k = choose|k: int| 0 <= k < all.len() && all[k] == f;
                assert(all[k] == if k < at {
                    rest[k]
                } else if k == at {
                    first
                } else {
                    rest[k - 1]
                });
                if k < at {
                    assert(rest[k] == f);
                } else if k > at {
                    assert(rest[k - 1] == f);
                }
            }
        }
    }
}

/// The job files are read again exactly if none were read yet, one was added or removed,
/// or one has another name, length or time of writing than when they were last read.
pub proof fn a_touched_file_is_noticed(files: JobFiles, seen: Vec<FileMark>, now: Seq<FileMark>)
    requires
        files.marks is Some ==> files.marks == Some(seen),
    ensures
        files.differs(now) <==> files.marks is None || seen@.len() != now.len() || exists|i: int|
            0 <= i < now.len() && ((#[trigger] seen@[i]).name@ != now[i].name@ || seen@[i].len
                != now[i].len || seen@[i].modified != now[i].modified),
{
    if files.marks is Some && seen@.len() == now.len() {
        if forall|i: int|
            0 <= i < now.len() ==> (#[trigger] seen@[i]).name@ == now[i].name@ && seen@[i].len
                == now[i].len && seen@[i].modified == now[i].modified {
            assert(same_marks(seen@, now));
        }
    }
}

} // verus!
