//! The decisions of the conversion pipeline: how each output format is
//! packaged, when the batch counts as complete, and the bookkeeping of the
//! KindleGen runs that are still going. The threads, channels and processes
//! that carry them out are the caller's.

use vstd::prelude::*;
use crate::settings::OutputFormat;

verus! {

/// How a processed comic is packaged.
#[derive(Debug, Clone, Copy, PartialEq, Eq, Structural)]
pub enum PackageStep {
    /// Write the CBZ; the comic is then done.
    Cbz,
    /// Write the EPUB; the comic is then done.
    Epub,
    /// Write the EPUB and hand it to KindleGen, which finishes the comic.
    EpubThenKindleGen,
}

/// The packaging step of each output format.
pub open spec fn step_for(format: OutputFormat) -> PackageStep {
    match format {
        OutputFormat::Cbz => PackageStep::Cbz,
        OutputFormat::Epub => PackageStep::Epub,
        OutputFormat::Mobi => PackageStep::EpubThenKindleGen,
    }
}

/// How comics of `format` are packaged.
pub fn package_step(format: OutputFormat) -> (r: PackageStep)
    ensures
        r == step_for(format),
{
    match format {
        OutputFormat::Cbz => PackageStep::Cbz,
        OutputFormat::Epub => PackageStep::Epub,
        OutputFormat::Mobi => PackageStep::EpubThenKindleGen,
    }
}

/// Whether the batch is complete once every comic has been packaged: true
/// for EPUB and CBZ; for MOBI completion waits for the last KindleGen run.
pub fn completes_with_batch(format: OutputFormat) -> (r: bool)
    ensures
        r == (step_for(format) != PackageStep::EpubThenKindleGen),
{
    match format {
        OutputFormat::Mobi => false,
        _ => true,
    }
}

/// What the queue of EPUBs waiting for KindleGen gave on one look.
#[derive(Debug, Clone, Copy, PartialEq, Eq, Structural)]
pub enum Incoming {
    /// The EPUB of comic `id` is ready; its KindleGen run has been started.
    Started(usize),
    /// Nothing waiting right now.
    Nothing,
    /// No more EPUBs will come.
    Closed,
}

/// What to do after a look at the queue.
#[derive(Debug, Clone, Copy, PartialEq, Eq, Structural)]
pub enum NextStep {
    /// Look at the queue again at once.
    LookAgain,
    /// Check which runs have ended, then wait a little and look again.
    CheckRuns,
    /// Every run has ended and no more will come: stop.
    Stop,
}

/// The KindleGen runs still going, by comic id, in the order they started.
pub struct KindleGenRuns {
    running: Vec<usize>,
}

impl View for KindleGenRuns {
    type V = Seq<usize>;

    closed spec fn view(&self) -> Seq<usize> {
        self.running@
    }
}

/// `ids` without the occurrences of `id`, in order.
pub open spec fn without(ids: Seq<usize>, id: usize) -> Seq<usize>
    decreases ids.len(),
{
    if ids.len() == 0 {
        ids
    } else {
        let rest = without(ids.drop_last(), id);
        if ids.last() != id {
            rest.push(ids.last())
        } else {
            rest
        }
    }
}

/// What to do after a look at the queue that gave `incoming`, with the
/// runs `running` going: look again after a start, check the runs when
/// nothing waits, and on a closed queue stop exactly when no run is going.
pub open spec fn step_after(running: Seq<usize>, incoming: Incoming) -> NextStep {
    match incoming {
        Incoming::Started(_) => NextStep::LookAgain,
        Incoming::Nothing => NextStep::CheckRuns,
        Incoming::Closed => if running.len() == 0 {
            NextStep::Stop
        } else {
            NextStep::CheckRuns
        },
    }
}

impl KindleGenRuns {
    /// No run going.
    pub fn new() -> (r: Self)
        ensures
            r@ == Seq::<usize>::empty(),
    {
        KindleGenRuns { running: Vec::new() }
    }

    /// Whether no run is going.
    pub fn is_idle(&self) -> (r: bool)
        ensures
            r == (self@.len() == 0),
    {
        self.running.len() == 0
    }

    /// Takes in one look at the queue: a started run is recorded and the
    /// queue looked at again; when nothing waits the runs are checked; when
    /// the queue is closed the loop stops if no run is going, else the runs
    /// are checked.
    pub fn on_incoming(&mut self, incoming: Incoming) -> (r: NextStep)
        ensures
            r == step_after(old(self)@, incoming),
            match incoming {
                Incoming::Started(id) => final(self)@ == old(self)@.push(id) && r
                    == NextStep::LookAgain,
                Incoming::Nothing => final(self)@ == old(self)@ && r == NextStep::CheckRuns,
                Incoming::Closed => final(self)@ == old(self)@ && r == (if old(self)@.len()
                    == 0 {
                    NextStep::Stop
                } else {
                    NextStep::CheckRuns
                }),
            },
    {
        match incoming {
            Incoming::Started(id) => {
                self.running.push(id);
                NextStep::LookAgain
            },
            Incoming::Nothing => NextStep::CheckRuns,
            Incoming::Closed => {
                if self.running.len() == 0 {
                    NextStep::Stop
                } else {
                    NextStep::CheckRuns
                }
            },
        }
    }

    /// Records that the run of comic `id` has ended (its process exited, or
    /// waiting on it failed): it is no longer going, the others stay in
    /// order. Returns whether it was going.
    pub fn on_ended(&mut self, id: usize) -> (r: bool)
        ensures
            final(self)@ == without(old(self)@, id),
            r == old(self)@.contains(id),
    {
        let mut kept: Vec<usize> = Vec::new();
        let mut found = false;
        let mut k: usize = 0;
        while k < self.running.len()
            invariant
                k <= self.running@.len(),
                kept@ == without(self.running@.take(k as int), id),
                found == self.running@.take(k as int).contains(id),
            decreases self.running@.len() - k,
        {
            let x = self.running[k];
            proof {
                let t = self.running@.take(k + 1);
                assert(t =~= self.running@.take(k as int).push(x));
                assert(t.drop_last() =~= self.running@.take(k as int));
                assert(t.contains(id) == (self.running@.take(k as int).contains(id) || x == id)) by {
                    if x == id {
                        assert(t[k as int] == id);
                    }
                    if self.running@.take(k as int).contains(id) {
                        let j = choose|j: int| 0 <= j < k && self.running@.take(k as int)[j] == id;
                        assert(t[j] == id);
                    }
                }
            }
            if x == id {
                found = true;
            } else {
                kept.push(x);
            }
            k += 1;
        }
        proof {
            assert(self.running@.take(k as int) =~= self.running@);
        }
        self.running = kept;
        found
    }
}

/// A run that starts and then ends leaves the other runs as they were, in
/// order (ids are unique while running).
pub proof fn ending_a_started_run_restores(running: Seq<usize>, id: usize)
    requires
        !running.contains(id),
    ensures
        without(running.push(id), id) == running,
{
    assert(running.push(id).drop_last() =~= running);
    lemma_without_absent(running, id);
}

/// Removing an id that does not occur changes nothing.
proof fn lemma_without_absent(ids: Seq<usize>, id: usize)
    requires
        !ids.contains(id),
    ensures
        without(ids, id) == ids,
    decreases ids.len(),
{
    if ids.len() > 0 {
        assert(!ids.drop_last().contains(id)) by {
            if ids.drop_last().contains(id) {
                let j = choose|j: int| 0 <= j < ids.drop_last().len() && ids.drop_last()[j] == id;
                assert(ids[j] == id);
            }
        }
        lemma_without_absent(ids.drop_last(), id);
        assert(ids[ids.len() - 1] != id);
        assert(ids.drop_last().push(ids.last()) =~= ids);
    }
}

/// One event of the KindleGen bookkeeping: a look at the queue, or the end
/// of the run of a comic.
#[derive(Debug, Clone, Copy, PartialEq, Eq, Structural)]
pub enum RunEvent {
    Look(Incoming),
    Ended(usize),
}

/// The runs going and the comics whose end was reported (those for which
/// `on_ended` returned true, so that their final status was sent), in
/// order, after `events` from no run: each look and end changes the runs as
/// `on_incoming` and `on_ended` say.
pub open spec fn replay(events: Seq<RunEvent>) -> (Seq<usize>, Seq<usize>)
    decreases events.len(),
{
    if events.len() == 0 {
        (Seq::empty(), Seq::empty())
    } else {
        let (running, reported) = replay(events.drop_last());
        match events.last() {
            RunEvent::Look(Incoming::Started(id)) => (running.push(id), reported),
            RunEvent::Look(_) => (running, reported),
            RunEvent::Ended(id) => if running.contains(id) {
                (without(running, id), reported.push(id))
            } else {
                (running, reported)
            },
        }
    }
}

/// The comics whose runs `events` start, in order.
pub open spec fn started_ids(events: Seq<RunEvent>) -> Seq<usize>
    decreases events.len(),
{
    if events.len() == 0 {
        Seq::empty()
    } else {
        let before = started_ids(events.drop_last());
        match events.last() {
            RunEvent::Look(Incoming::Started(id)) => before.push(id),
            _ => before,
        }
    }
}

/// A list with `a` pushed holds what it held, and `a`.
proof fn lemma_push_contains(s: Seq<usize>, a: usize)
    ensures
        forall|x: usize| #[trigger] s.push(a).contains(x) <==> (s.contains(x) || x == a),
        s.no_duplicates() && !s.contains(a) ==> s.push(a).no_duplicates(),
{
    assert forall|x: usize| #[trigger] s.push(a).contains(x) <==> (s.contains(x) || x == a) by {
        if s.push(a).contains(x) && x != a {
            let j = choose|j: int| 0 <= j < s.push(a).len() && s.push(a)[j] == x;
            assert(s[j] == x);
        }
        if s.contains(x) {
            let j = choose|j: int| 0 <= j < s.len() && s[j] == x;
            assert(s.push(a)[j] == x);
        }
        if x == a {
            assert(s.push(a)[s.len() as int] == x);
        }
    }
    if s.no_duplicates() && !s.contains(a) {
        let p = s.push(a);
        assert forall|i: int, j: int| 0 <= i < p.len() && 0 <= j < p.len() && i != j implies p[i]
            != p[j] by {
            if i == s.len() {
                assert(s.contains(p[j]));
            } else if j == s.len() {
                assert(s.contains(p[i]));
            }
        }
    }
}

/// What is left after removing `id` holds every other id it held, and no
/// `id`; removing keeps a list free of repeats.
proof fn lemma_without_contains(ids: Seq<usize>, id: usize)
    ensures
        forall|x: usize| #[trigger] without(ids, id).contains(x) <==> (ids.contains(x) && x != id),
        ids.no_duplicates() ==> without(ids, id).no_duplicates(),
    decreases ids.len(),
{
    if ids.len() > 0 {
        let init = ids.drop_last();
        let last = ids.last();
        let w0 = without(init, id);
        lemma_without_contains(init, id);
        assert(ids =~= init.push(last));
        lemma_push_contains(init, last);
        lemma_push_contains(w0, last);
        if ids.no_duplicates() {
            assert(init.no_duplicates()) by {
                assert forall|i: int, j: int| 0 <= i < init.len() && 0 <= j < init.len() && i != j
                    implies init[i] != init[j] by {
                    assert(init[i] == ids[i] && init[j] == ids[j]);
                }
            }
            assert(!init.contains(last)) by {
                if init.contains(last) {
                    let j = choose|j: int| 0 <= j < init.len() && init[j] == last;
                    assert(ids[j] == ids[ids.len() - 1]);
                }
            }
        }
        if last == id {
            assert(without(ids, id) == w0);
        } else {
            assert(without(ids, id) == w0.push(last));
        }
    }
}

/// What replaying events keeps: no repeats among the runs going or among
/// the reported ends, and each started comic in exactly one of them.
proof fn lemma_replay_invariant(events: Seq<RunEvent>)
    requires
        started_ids(events).no_duplicates(),
    ensures
        replay(events).0.no_duplicates(),
        replay(events).1.no_duplicates(),
        forall|id: usize|
            #[trigger] started_ids(events).contains(id) <==> (replay(events).0.contains(id)
                || replay(events).1.contains(id)),
        forall|id: usize|
            !(#[trigger] replay(events).0.contains(id) && replay(events).1.contains(id)),
    decreases events.len(),
{
    if events.len() > 0 {
        let init = events.drop_last();
        let s0 = started_ids(init);
        let (running, reported) = replay(init);
        assert(s0.no_duplicates()) by {
            let s = started_ids(events);
            if s.len() > s0.len() {
                assert(s == s0.push(s[s.len() - 1]));
                assert forall|i: int, j: int| 0 <= i < s0.len() && 0 <= j < s0.len() && i != j
                    implies s0[i] != s0[j] by {
                    assert(s[i] == s0[i] && s[j] == s0[j]);
                }
            }
        }
        lemma_replay_invariant(init);
        match events.last() {
            RunEvent::Look(Incoming::Started(id)) => {
                let s = started_ids(events);
                assert(s == s0.push(id));
                assert(!s0.contains(id)) by {
                    if s0.contains(id) {
                        let j = choose|j: int| 0 <= j < s0.len() && s0[j] == id;
                        assert(s[j] == s[s.len() - 1]);
                    }
                }
                lemma_push_contains(running, id);
                lemma_push_contains(s0, id);
            },
            RunEvent::Look(_) => {
                assert(started_ids(events) == s0);
            },
            RunEvent::Ended(id) => {
                assert(started_ids(events) == s0);
                if running.contains(id) {
                    lemma_without_contains(running, id);
                    lemma_push_contains(reported, id);
                    assert(!reported.contains(id));
                }
            },
        }
    }
}

/// The bookkeeping of KindleGen runs reports the end of every run exactly
/// once: as long as no comic is started twice, no end is reported twice, a
/// comic's run is either still going or reported ended exactly when it was
/// started, never both; so the loop stops (`on_incoming` answering a closed
/// queue with `Stop`) only once no run is going, and then every started
/// comic has had its end reported exactly once.
pub proof fn every_started_run_ends_once(events: Seq<RunEvent>)
    requires
        started_ids(events).no_duplicates(),
    ensures
        replay(events).0.no_duplicates(),
        replay(events).1.no_duplicates(),
        forall|id: usize|
            #[trigger] started_ids(events).contains(id) <==> (replay(events).0.contains(id)
                || replay(events).1.contains(id)),
        forall|id: usize|
            !(#[trigger] replay(events).0.contains(id) && replay(events).1.contains(id)),
        replay(events).0.len() == 0 ==> forall|id: usize|
            #[trigger] started_ids(events).contains(id) <==> replay(events).1.contains(id),
        forall|incoming: Incoming|
            #[trigger] step_after(replay(events).0, incoming) == NextStep::Stop ==> replay(
                events,
            ).0.len() == 0,
{
    lemma_replay_invariant(events);
    let fin = replay(events);
    if fin.0.len() == 0 {
        assert forall|id: usize| #[trigger] started_ids(events).contains(id) <==> fin.1.contains(
            id,
        ) by {
            assert(!fin.0.contains(id));
        }
    }
}

} // verus!
