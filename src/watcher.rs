//! The single-file watcher: a state machine fed with what was observed of its
//! file, answering with the event to report, if any.
//!
//! While the file is present the watcher waits for change notifications; once
//! it is missing it polls, and after more than `RETRY_BUDGET` failed polls in a
//! row the file is declared gone. The runtime that waits, polls and sends lives
//! outside this module: it hands each observation to `FileWatcher::step`.
use vstd::prelude::*;
use crate::event::Notice;
use crate::fingerprint::{is_change, Fingerprint};

verus! {

/// Failed polls in a row that are tolerated; one more declares the file gone.
pub const RETRY_BUDGET: u32 = 7;

/// Where a watcher stands.
#[derive(Clone, Copy, Debug, PartialEq, Eq, Structural)]
pub enum Phase {
    /// The file is present; the watcher waits for change notifications.
    Existing,
    /// The file could not be read; the number is the count of failed polls
    /// in a row since then. A poll that reads the file restarts the count.
    Missing(u32),
    /// The file is gone for good; nothing more is reported.
    Gone,
}

/// One observation of the watched file.
pub enum Observation {
    /// The wait for a change notification ran out, or the notification was
    /// not about content.
    Quiet,
    /// The file no longer exists.
    Vanished,
    /// The file was read, with this content.
    Read(Vec<u8>),
    /// The file could not be opened or read.
    ReadFailed,
}

/// A failed probe of the file: it is absent or cannot be read.
pub open spec fn is_failure(o: Observation) -> bool {
    o is Vanished || o is ReadFailed
}

/// The effect of one observation: the next phase, the next stored content, and
/// the notice to report.
pub open spec fn next(phase: Phase, stored: Seq<u8>, o: Observation) -> (Phase, Seq<u8>, Option<
    Notice,
>) {
    match phase {
        Phase::Gone => (Phase::Gone, stored, None),
        Phase::Existing => match o {
            Observation::Read(b) => if is_change(stored, b@) {
                (Phase::Existing, b@, Some(Notice::Changed))
            } else {
                (Phase::Existing, stored, None)
            },
            Observation::Quiet => (Phase::Existing, stored, None),
            _ => (Phase::Missing(0), stored, None),
        },
        Phase::Missing(n) => match o {
            Observation::Read(b) => if is_change(stored, b@) {
                (Phase::Existing, b@, Some(Notice::Changed))
            } else {
                (Phase::Missing(0), stored, None)
            },
            Observation::Quiet => (Phase::Missing(n), stored, None),
            _ => if n >= RETRY_BUDGET {
                (Phase::Gone, stored, Some(Notice::NotFound))
            } else {
                (Phase::Missing((n + 1) as u32), stored, None)
            },
        },
    }
}

/// The effect of a sequence of observations, fed in order: the final phase, the
/// final stored content, and the notices reported, in order.
pub open spec fn run(phase: Phase, stored: Seq<u8>, obs: Seq<Observation>) -> (Phase, Seq<u8>, Seq<
    Notice,
>)
    decreases obs.len(),
{
    if obs.len() == 0 {
        (phase, stored, Seq::empty())
    } else {
        let first = next(phase, stored, obs[0]);
        let rest = run(first.0, first.1, obs.drop_first());
        (
            rest.0,
            rest.1,
            match first.2 {
                Some(e) => seq![e] + rest.2,
                None => rest.2,
            },
        )
    }
}

/// A read that repeats the stored content, or an empty one; any other
/// observation qualifies as well.
pub open spec fn repeats(stored: Seq<u8>, o: Observation) -> bool {
    match o {
        Observation::Read(b) => b@ == stored || b@.len() == 0,
        _ => true,
    }
}
/// Feeding two sequences one after the other is feeding their concatenation.
pub proof fn lemma_run_append(phase: Phase, stored: Seq<u8>, x: Seq<Observation>, y: Seq<Observation>)
    ensures
        run(phase, stored, x + y) == (
            run(run(phase, stored, x).0, run(phase, stored, x).1, y).0,
            run(run(phase, stored, x).0, run(phase, stored, x).1, y).1,
            run(phase, stored, x).2 + run(run(phase, stored, x).0, run(phase, stored, x).1, y).2,
        ),
    decreases x.len(),
{
    if x.len() == 0 {
        assert(x + y =~= y);
        assert(Seq::<Notice>::empty() + run(phase, stored, y).2 =~= run(phase, stored, y).2);
    } else {
        let first = next(phase, stored, x[0]);
        assert((x + y).drop_first() =~= x.drop_first() + y);
        assert((x + y)[0] == x[0]);
        lemma_run_append(first.0, first.1, x.drop_first(), y);
        let tail = run(first.0, first.1, x.drop_first());
        let after = run(tail.0, tail.1, y);
        match first.2 {
            Some(e) => {
                assert(seq![e] + (tail.2 + after.2) =~= (seq![e] + tail.2) + after.2);
            },
            None => {},
        }
    }
}

/// Feeding one more observation extends the run by one step: the watcher's
/// state after a series of `FileWatcher::step` calls, and the notices they
/// returned, are those of `run` over the observations fed so far.
pub proof fn lemma_run_push(phase: Phase, stored: Seq<u8>, obs: Seq<Observation>, o: Observation)
    ensures
        run(phase, stored, obs.push(o)) == (
            next(run(phase, stored, obs).0, run(phase, stored, obs).1, o).0,
            next(run(phase, stored, obs).0, run(phase, stored, obs).1, o).1,
            match next(run(phase, stored, obs).0, run(phase, stored, obs).1, o).2 {
                Some(e) => run(phase, stored, obs).2.push(e),
                None => run(phase, stored, obs).2,
            },
        ),
{
    let one = seq![o];
    assert(obs.push(o) =~= obs + one);
    lemma_run_append(phase, stored, obs, one);
    let mid = run(phase, stored, obs);
    let last = next(mid.0, mid.1, o);
    assert(one.drop_first() =~= Seq::<Observation>::empty());
    assert(run(last.0, last.1, Seq::<Observation>::empty()) == (last.0, last.1, Seq::<Notice>::empty()));
    match last.2 {
        Some(e) => {
            assert(seq![e] + Seq::<Notice>::empty() =~= seq![e]);
            assert(mid.2 + seq![e] =~= mid.2.push(e));
        },
        None => {
            assert(mid.2 + Seq::<Notice>::empty() =~= mid.2);
        },
    }
}

/// A watcher that has stopped stays stopped and reports nothing more.
pub proof fn lemma_gone_is_silent(stored: Seq<u8>, obs: Seq<Observation>)
    ensures
        run(Phase::Gone, stored, obs) == (Phase::Gone, stored, Seq::<Notice>::empty()),
    decreases obs.len(),
{
    if obs.len() > 0 {
        lemma_gone_is_silent(stored, obs.drop_first());
    }
}

/// Failed polls of a missing file count up to the budget; the one past it
/// declares the file gone.
pub proof fn lemma_failed_polls(n: u32, stored: Seq<u8>, polls: Seq<Observation>)
    requires
        n <= RETRY_BUDGET,
        n + polls.len() <= RETRY_BUDGET + 1,
        forall|i: int| 0 <= i < polls.len() ==> is_failure(#[trigger] polls[i]),
    ensures
        n + polls.len() <= RETRY_BUDGET ==> run(Phase::Missing(n), stored, polls) == (
            Phase::Missing((n + polls.len()) as u32),
            stored,
            Seq::<Notice>::empty(),
        ),
        n + polls.len() == RETRY_BUDGET + 1 ==> run(Phase::Missing(n), stored, polls) == (
            Phase::Gone,
            stored,
            seq![Notice::NotFound],
        ),
    decreases polls.len(),
{
    if polls.len() > 0 {
        assert(is_failure(polls[0]));
        let tail = polls.drop_first();
        assert forall|i: int| 0 <= i < tail.len() implies is_failure(#[trigger] tail[i]) by {
            assert(tail[i] == polls[i + 1]);
        }
        if n >= RETRY_BUDGET {
            lemma_gone_is_silent(stored, tail);
            assert(seq![Notice::NotFound] + Seq::<Notice>::empty() =~= seq![Notice::NotFound]);
        } else {
            lemma_failed_polls((n + 1) as u32, stored, tail);
        }
    }
}

/// Re-writing a file, however often, with the content it already holds (or
/// with nothing, as a save in progress does) reports no change, and the stored
/// content stays as it was.
pub proof fn lemma_identical_rewrites_are_silent(
    phase: Phase,
    stored: Seq<u8>,
    obs: Seq<Observation>,
)
    requires
        forall|i: int| 0 <= i < obs.len() ==> repeats(stored, #[trigger] obs[i]),
    ensures
        run(phase, stored, obs).1 == stored,
        forall|i: int|
            0 <= i < run(phase, stored, obs).2.len() ==> run(phase, stored, obs).2[i]
                != Notice::Changed,
    decreases obs.len(),
{
    if obs.len() > 0 {
        assert(repeats(stored, obs[0]));
        let first = next(phase, stored, obs[0]);
        let tail = obs.drop_first();
        assert forall|i: int| 0 <= i < tail.len() implies repeats(stored, #[trigger] tail[i]) by {
            assert(tail[i] == obs[i + 1]);
        }
        lemma_identical_rewrites_are_silent(first.0, stored, tail);
        let rest = run(first.0, stored, tail);
        match first.2 {
            Some(e) => {
                let all = seq![e] + rest.2;
                assert forall|i: int| 0 <= i < all.len() implies all[i] != Notice::Changed by {
                    if i > 0 {
                        assert(all[i] == rest.2[i - 1]);
                    }
                }
            },
            None => {},
        }
    }
}

/// While the file is present, inserting a read that repeats the stored content
/// (or an empty read) anywhere in a series of observations changes neither the
/// notices reported nor where the watcher ends.
pub proof fn lemma_noop_rewrite_is_invisible(
    phase: Phase,
    stored: Seq<u8>,
    before: Seq<Observation>,
    rewrite: Observation,
    after: Seq<Observation>,
)
    requires
        run(phase, stored, before).0 is Existing,
        rewrite is Read,
        repeats(run(phase, stored, before).1, rewrite),
    ensures
        run(phase, stored, before.push(rewrite) + after) == run(phase, stored, before + after),
{
    let mid = run(phase, stored, before);
    lemma_run_push(phase, stored, before, rewrite);
    assert(next(mid.0, mid.1, rewrite) == (mid.0, mid.1, None::<Notice>));
    lemma_run_append(phase, stored, before.push(rewrite), after);
    lemma_run_append(phase, stored, before, after);
}

/// Two writes of non-empty contents, the first different from what was stored
/// and the second different from the first, are reported as two changes, one
/// per write, in the order of the writes; the stored content follows them.
pub proof fn lemma_distinct_writes_reported_in_order(
    phase: Phase,
    stored: Seq<u8>,
    a: Vec<u8>,
    b: Vec<u8>,
)
    requires
        !(phase is Gone),
        a@.len() > 0,
        b@.len() > 0,
        a@ != stored,
        b@ != a@,
    ensures
        run(phase, stored, seq![Observation::Read(a)]) == (
            Phase::Existing,
            a@,
            seq![Notice::Changed],
        ),
        run(phase, stored, seq![Observation::Read(a), Observation::Read(b)]) == (
            Phase::Existing,
            b@,
            seq![Notice::Changed, Notice::Changed],
        ),
{
    let one = seq![Observation::Read(a)];
    let two = seq![Observation::Read(a), Observation::Read(b)];
    let none = Seq::<Observation>::empty();
    assert(next(phase, stored, Observation::Read(a)) == (Phase::Existing, a@, Some(Notice::Changed)));
    assert(next(Phase::Existing, a@, Observation::Read(b)) == (Phase::Existing, b@, Some(Notice::Changed)));
    assert(run(Phase::Existing, a@, none) == (Phase::Existing, a@, Seq::<Notice>::empty()));
    assert(run(Phase::Existing, b@, none) == (Phase::Existing, b@, Seq::<Notice>::empty()));
    assert(seq![Notice::Changed] + Seq::<Notice>::empty() =~= seq![Notice::Changed]);
    assert(one.drop_first() =~= none);
    assert(two.drop_first() =~= seq![Observation::Read(b)]);
    assert(seq![Observation::Read(b)].drop_first() =~= none);
    assert(run(Phase::Existing, a@, seq![Observation::Read(b)]) == (Phase::Existing, b@, seq![Notice::Changed]));
    assert(seq![Notice::Changed] + seq![Notice::Changed] =~= seq![Notice::Changed, Notice::Changed]);
}

/// A present file that vanishes and stays unreadable through the whole grace
/// period is reported missing exactly once, and nothing is reported after
/// that, whatever is observed later.
pub proof fn lemma_vanished_file_reported_once(
    stored: Seq<u8>,
    polls: Seq<Observation>,
    later: Seq<Observation>,
)
    requires
        polls.len() == RETRY_BUDGET + 2,
        forall|i: int| 0 <= i < polls.len() ==> is_failure(#[trigger] polls[i]),
    ensures
        run(Phase::Existing, stored, polls + later) == (
            Phase::Gone,
            stored,
            seq![Notice::NotFound],
        ),
{
    assert(is_failure(polls[0]));
    let tail = polls.drop_first();
    assert forall|i: int| 0 <= i < tail.len() implies is_failure(#[trigger] tail[i]) by {
        assert(tail[i] == polls[i + 1]);
    }
    lemma_failed_polls(0, stored, tail);
    lemma_run_append(Phase::Existing, stored, polls, later);
    lemma_gone_is_silent(stored, later);
    assert(seq![Notice::NotFound] + Seq::<Notice>::empty() =~= seq![Notice::NotFound]);
}

/// A present file that vanishes and comes back with new, non-empty content
/// before the grace period runs out is reported changed once, and not missing.
pub proof fn lemma_recreated_file_recovers(
    stored: Seq<u8>,
    polls: Seq<Observation>,
    fresh: Vec<u8>,
)
    requires
        1 <= polls.len() <= RETRY_BUDGET + 1,
        forall|i: int| 0 <= i < polls.len() ==> is_failure(#[trigger] polls[i]),
        fresh@.len() > 0,
        fresh@ != stored,
    ensures
        run(Phase::Existing, stored, polls.push(Observation::Read(fresh))) == (
            Phase::Existing,
            fresh@,
            seq![Notice::Changed],
        ),
{
    assert(is_failure(polls[0]));
    let tail = polls.drop_first();
    assert forall|i: int| 0 <= i < tail.len() implies is_failure(#[trigger] tail[i]) by {
        assert(tail[i] == polls[i + 1]);
    }
    lemma_failed_polls(0, stored, tail);
    let back = seq![Observation::Read(fresh)];
    assert(polls.push(Observation::Read(fresh)) =~= polls + back);
    lemma_run_append(Phase::Existing, stored, polls, back);
    let none = Seq::<Observation>::empty();
    let n = (tail.len()) as u32;
    assert(run(Phase::Existing, stored, polls).0 == Phase::Missing(n));
    assert(next(Phase::Missing(n), stored, Observation::Read(fresh)) == (Phase::Existing, fresh@, Some(Notice::Changed)));
    assert(back.drop_first() =~= none);
    assert(run(Phase::Existing, fresh@, none) == (Phase::Existing, fresh@, Seq::<Notice>::empty()));
    assert(seq![Notice::Changed] + Seq::<Notice>::empty() =~= seq![Notice::Changed]);
    assert(run(Phase::Missing(n), stored, back) == (Phase::Existing, fresh@, seq![Notice::Changed]));
    assert(Seq::<Notice>::empty() + seq![Notice::Changed] =~= seq![Notice::Changed]);
}

/// The watcher of one file.
pub struct FileWatcher {
    phase: Phase,
    fingerprint: Fingerprint,
}

impl View for FileWatcher {
    type V = (Phase, Seq<u8>);

    closed spec fn view(&self) -> (Phase, Seq<u8>) {
        (self.phase, self.fingerprint@)
    }
}

impl FileWatcher {
    /// Starts a watcher from the first read of its file: present with that
    /// content, or missing when the read failed.
    pub fn new(first: Option<Vec<u8>>) -> (r: FileWatcher)
        ensures
            r@ == (match first {
                Some(b) => (Phase::Existing, b@),
                None => (Phase::Missing(0), Seq::<u8>::empty()),
            }),
    {
        match first {
            Some(b) => FileWatcher { phase: Phase::Existing, fingerprint: Fingerprint::new(b) },
            None => FileWatcher { phase: Phase::Missing(0), fingerprint: Fingerprint::new(Vec::new()) },
        }
    }

    /// The current phase.
    pub fn phase(&self) -> (r: Phase)
        ensures
            r == self@.0,
    {
        self.phase
    }

    /// Whether the watcher has stopped for good.
    pub fn is_gone(&self) -> (r: bool)
        ensures
            r == (self@.0 is Gone),
    {
        self.phase == Phase::Gone
    }

    /// Takes one observation of the file and returns the notice to report.
    pub fn step(&mut self, o: Observation) -> (r: Option<Notice>)
        ensures
            (final(self)@.0, final(self)@.1, r) == next(old(self)@.0, old(self)@.1, o),
    {
        match self.phase {
            Phase::Gone => None,
            Phase::Existing => match o {
                Observation::Read(b) => {
                    if self.fingerprint.observe(b) {
                        Some(Notice::Changed)
                    } else {
                        None
                    }
                },
                Observation::Quiet => None,
                _ => {
                    self.phase = Phase::Missing(0);
                    None
                },
            },
            Phase::Missing(n) => match o {
                Observation::Read(b) => {
                    if self.fingerprint.observe(b) {
                        self.phase = Phase::Existing;
                        Some(Notice::Changed)
                    } else {
                        self.phase = Phase::Missing(0);
                        None
                    }
                },
                Observation::Quiet => None,
                _ => {
                    if n >= RETRY_BUDGET {
                        self.phase = Phase::Gone;
                        Some(Notice::NotFound)
                    } else {
                        self.phase = Phase::Missing(n + 1);
                        None
                    }
                },
            },
        }
    }
}

} // verus!
