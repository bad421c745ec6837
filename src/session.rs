//! The watch session: its timeout, which files it starts watchers for, and how
//! the set of tracked files shrinks as files disappear.
use vstd::prelude::*;
use crate::watcher::RETRY_BUDGET;

verus! {

/// The smallest timeout, in milliseconds; a smaller one is raised to it.
pub const MIN_TIMEOUT_MS: u32 = 630;

/// The number of slices the timeout is cut into; one slice is how long a
/// watcher waits for a notification, or sleeps between two polls.
pub const CHECKPOINTS: u32 = 7;

/// The files that were found present, in their order.
pub open spec fn present_only(paths: Seq<String>, present: Seq<bool>) -> Seq<String>
    decreases paths.len(),
{
    if paths.len() == 0 || present.len() == 0 {
        Seq::empty()
    } else {
        let rest = present_only(paths.drop_last(), present.drop_last());
        if present.last() {
            rest.push(paths.last())
        } else {
            rest
        }
    }
}

/// The tracked paths with every entry equal to `gone` taken out.
pub open spec fn without(paths: Seq<String>, gone: Seq<char>) -> Seq<String>
    decreases paths.len(),
{
    if paths.len() == 0 {
        Seq::empty()
    } else {
        let rest = without(paths.drop_last(), gone);
        if paths.last()@ == gone {
            rest
        } else {
            rest.push(paths.last())
        }
    }
}

/// No two tracked paths are the same path.
pub open spec fn distinct_paths(paths: Seq<String>) -> bool {
    forall|i: int, j: int| 0 <= i < paths.len() && 0 <= j < paths.len() && i != j ==> paths[i]@ != paths[j]@
}

/// The settings of a watch session.
#[derive(Clone, Copy, Debug)]
pub struct Watch {
    timeout_ms: u32,
}

impl Watch {
    /// The timeout, in milliseconds.
    pub closed spec fn timeout(&self) -> nat {
        self.timeout_ms as nat
    }

    /// The length of one wait or poll slice, in milliseconds.
    pub open spec fn poll_slice(&self) -> nat {
        self.timeout() / (CHECKPOINTS as nat)
    }

    /// The timeout is never below the floor.
    pub open spec fn wf(&self) -> bool {
        self.timeout() >= MIN_TIMEOUT_MS
    }

    /// A session with the smallest timeout.
    pub fn new() -> (r: Watch)
        ensures
            r.timeout() == MIN_TIMEOUT_MS,
            r.wf(),
    {
        Watch { timeout_ms: MIN_TIMEOUT_MS }
    }

    /// Sets the timeout, in milliseconds; one that is not above the floor is
    /// raised to the floor.
    pub fn set_timeout(self, millis: u32) -> (r: Watch)
        ensures
            r.timeout() == if millis > MIN_TIMEOUT_MS {
                millis as nat
            } else {
                MIN_TIMEOUT_MS as nat
            },
            r.wf(),
    {
        let mut w = self;
        if millis > MIN_TIMEOUT_MS {
            w.timeout_ms = millis;
        } else {
            w.timeout_ms = MIN_TIMEOUT_MS;
        }
        w
    }

    /// The timeout, in milliseconds.
    pub fn timeout_ms(&self) -> (r: u32)
        ensures
            r == self.timeout(),
    {
        self.timeout_ms
    }

    /// The length of one wait or poll slice, in milliseconds.
    pub fn poll_slice_ms(&self) -> (r: u32)
        ensures
            r == self.poll_slice(),
    {
        self.timeout_ms / CHECKPOINTS
    }

    /// Whether a watcher is started for a single file, given whether the file
    /// exists: a file that does not exist is not watched.
    pub fn single_file(&self, exists: bool) -> (watching: bool)
        ensures
            watching == exists,
    {
        exists
    }

    /// Narrows the files to watch down to those found present and tells
    /// whether any is left. When none is, nothing is watched and the list is
    /// left as it was; otherwise it keeps the present files, in order, and one
    /// watcher is started for each.
    pub fn multiple_files(&self, vec_files: &mut Vec<String>, present: &Vec<bool>) -> (watching:
        bool)
        requires
            old(vec_files)@.len() == present@.len(),
        ensures
            watching == exists|i: int| 0 <= i < present@.len() && present@[i],
            watching ==> final(vec_files)@ == present_only(old(vec_files)@, present@),
            !watching ==> final(vec_files)@ == old(vec_files)@,
    {
        let mut kept: Vec<String> = Vec::new();
        let mut i: usize = 0;
        while i < vec_files.len()
            invariant
                vec_files@.len() == present@.len(),
                i <= vec_files@.len(),
                kept@ == present_only(vec_files@.take(i as int), present@.take(i as int)),
                (kept@.len() > 0) == exists|j: int| 0 <= j < i && present@[j],
            decreases vec_files@.len() - i,
        {
            let ghost before = kept@;
            if present[i] {
                kept.push(vec_files[i].clone());
            }
            proof {
                let p = vec_files@.take(i + 1);
                let q = present@.take(i + 1);
                assert(p.drop_last() =~= vec_files@.take(i as int));
                assert(q.drop_last() =~= present@.take(i as int));
                assert(present_only(p, q) == if present@[i as int] {
                    before.push(vec_files@[i as int])
                } else {
                    before
                });
            }
            i += 1;
        }
        assert(vec_files@.take(vec_files@.len() as int) =~= vec_files@);
        assert(present@.take(present@.len() as int) =~= present@);
        if kept.len() > 0 {
            *vec_files = kept;
            true
        } else {
            false
        }
    }

    /// Takes a path reported not found out of the tracked paths and tells
    /// whether any path is still tracked.
    pub fn is_continue(vec_files: &mut Vec<String>, file: &String) -> (remain: bool)
        ensures
            final(vec_files)@ == without(old(vec_files)@, file@),
            remain == (final(vec_files)@.len() > 0),
    {
        let mut kept: Vec<String> = Vec::new();
        let mut i: usize = 0;
        while i < vec_files.len()
            invariant
                i <= vec_files@.len(),
                vec_files@ == old(vec_files)@,
                kept@ == without(vec_files@.take(i as int), file@),
            decreases vec_files@.len() - i,
        {
            let ghost before = kept@;
            if !(vec_files[i] == *file) {
                kept.push(vec_files[i].clone());
            }
            proof {
                let p = vec_files@.take(i + 1);
                assert(p.drop_last() =~= vec_files@.take(i as int));
            }
            i += 1;
        }
        assert(vec_files@.take(vec_files@.len() as int) =~= vec_files@);
        *vec_files = kept;
        vec_files.len() > 0
    }
}

/// The grace period, one poll slice for each failed poll that a watcher
/// tolerates and one for the poll that declares the file gone, is never
/// shorter than the timeout of a session.
pub proof fn lemma_grace_covers_timeout(w: Watch)
    requires
        w.wf(),
    ensures
        (RETRY_BUDGET + 1) * w.poll_slice() >= w.timeout(),
{
    let t = w.timeout();
    let q = t / 7;
    assert(t == 7 * q + t % 7);
    assert(q >= 90);
}

/// Without the one tracked path, nothing is tracked.
pub proof fn lemma_without_sole_path(p: String)
    ensures
        without(seq![p], p@).len() == 0,
{
    let one = seq![p];
    assert(one.drop_last() =~= Seq::<String>::empty());
    assert(one.last() == p);
    assert(without(Seq::<String>::empty(), p@) == Seq::<String>::empty());
}

/// Taking out a path that matches no tracked path leaves the paths as they are.
pub proof fn lemma_without_absent(paths: Seq<String>, gone: Seq<char>)
    requires
        forall|i: int| 0 <= i < paths.len() ==> paths[i]@ != gone,
    ensures
        without(paths, gone) == paths,
    decreases paths.len(),
{
    if paths.len() > 0 {
        lemma_without_absent(paths.drop_last(), gone);
        assert(paths.drop_last().push(paths.last()) =~= paths);
    }
}

/// Of several distinct tracked paths, taking out one of them removes that
/// entry alone, and some path is still tracked.
pub proof fn lemma_without_one_of_several(paths: Seq<String>, i: int)
    requires
        distinct_paths(paths),
        paths.len() > 1,
        0 <= i < paths.len(),
    ensures
        without(paths, paths[i]@) == paths.remove(i),
        without(paths, paths[i]@).len() > 0,
    decreases paths.len(),
{
    let gone = paths[i]@;
    let init = paths.drop_last();
    if i == paths.len() - 1 {
        assert forall|j: int| 0 <= j < init.len() implies init[j]@ != gone by {
            assert(init[j] == paths[j]);
        }
        lemma_without_absent(init, gone);
        assert(paths.remove(i) =~= init);
    } else {
        assert(paths.last()@ != gone);
        assert(init[i] == paths[i]);
        if init.len() > 1 {
            assert(distinct_paths(init)) by {
                assert forall|a: int, b: int|
                    0 <= a < init.len() && 0 <= b < init.len() && a != b implies init[a]@
                    != init[b]@ by {
                    assert(init[a] == paths[a] && init[b] == paths[b]);
                }
            }
            lemma_without_one_of_several(init, i);
        } else {
            assert(init.len() == 1 && i == 0);
            lemma_without_sole_path(init[0]);
            assert(init =~= seq![init[0]]);
            assert(without(init, gone).len() == 0);
            assert(without(init, gone) =~= init.remove(0));
        }
        assert(init.remove(i).push(paths.last()) =~= paths.remove(i));
    }
}

} // verus!
