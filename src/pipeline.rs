//! The ingestion run: every enabled source is collected, and each source is
//! indexed as soon as its own collection completes. A source's failure ends
//! that source's run only.
//!
//! A run always rebuilds: each collected source is indexed whether or not
//! its index already held documents. Runs go with a reindex, which empties
//! the indexes first, so nothing is written twice.
use crate::tpconfig::{kind_enabled, SourceConfig};
use vstd::prelude::*;

verus! {

/// Where a source stands in a run.
#[derive(Debug, Clone, Copy, PartialEq, Eq, Structural)]
pub enum Stage {
    /// Not part of the run (a disabled source).
    Idle,
    Collecting,
    Indexing,
    Indexed,
    CollectionFailed,
    IndexingFailed,
}

/// What the run learns of a source, in whatever order sources complete.
#[derive(Debug, Clone, Copy, PartialEq, Eq, Structural)]
pub enum PipelineEvent {
    /// The source's archive is ready.
    Collected(usize),
    /// The source's archive could not be had.
    CollectionFailed(usize),
    /// Indexing the source ended, successfully or not.
    IndexingFinished(usize, bool),
}

/// What the run asks for next.
#[derive(Debug, Clone, Copy, PartialEq, Eq, Structural)]
pub enum PipelineAction {
    /// Index the source from its collected archive.
    StartIndexing(usize),
    Nothing,
}

/// A run over the source table: each source's stage, by its place.
pub struct Pipeline {
    pub stages: Vec<Stage>,
}

/// The source an event is about.
pub open spec fn event_source(e: PipelineEvent) -> int {
    match e {
        PipelineEvent::Collected(i) => i as int,
        PipelineEvent::CollectionFailed(i) => i as int,
        PipelineEvent::IndexingFinished(i, _) => i as int,
    }
}

/// The stage a source moves to on an event about it; an event that does not
/// fit the source's stage changes nothing.
pub open spec fn next_stage(s: Stage, e: PipelineEvent) -> Stage {
    match (s, e) {
        (Stage::Collecting, PipelineEvent::Collected(_)) => Stage::Indexing,
        (Stage::Collecting, PipelineEvent::CollectionFailed(_)) => Stage::CollectionFailed,
        (Stage::Indexing, PipelineEvent::IndexingFinished(_, ok)) => if ok {
            Stage::Indexed
        } else {
            Stage::IndexingFailed
        },
        _ => s,
    }
}

/// The stages after an event: only the source it is about may move.
pub open spec fn next_stages(stages: Seq<Stage>, e: PipelineEvent) -> Seq<Stage> {
    let i = event_source(e);
    if 0 <= i < stages.len() {
        stages.update(i, next_stage(stages[i], e))
    } else {
        stages
    }
}

/// The action an event calls for: indexing starts when a source that was
/// being collected is collected.
pub open spec fn action_of(stages: Seq<Stage>, e: PipelineEvent) -> PipelineAction {
    match e {
        PipelineEvent::Collected(i) => if i < stages.len() && stages[i as int]
            == Stage::Collecting {
            PipelineAction::StartIndexing(i)
        } else {
            PipelineAction::Nothing
        },
        _ => PipelineAction::Nothing,
    }
}

/// How many sources stand at `stage`.
pub open spec fn count_at(stages: Seq<Stage>, stage: Stage) -> nat
    decreases stages.len(),
{
    if stages.len() == 0 {
        0
    } else {
        count_at(stages.drop_last(), stage) + if stages.last() == stage {
            1nat
        } else {
            0nat
        }
    }
}

/// Whether a stage is still waiting for an event.
pub open spec fn is_pending(s: Stage) -> bool {
    s == Stage::Collecting || s == Stage::Indexing
}

impl Pipeline {
    /// A run in which every enabled source is being collected.
    pub fn start(sources: &Vec<SourceConfig>) -> (r: Pipeline)
        ensures
            r.stages@.len() == sources@.len(),
            forall|i: int|
                0 <= i < sources@.len() ==> #[trigger] r.stages@[i] == if kind_enabled(
                    sources@[i].kind,
                ) {
                    Stage::Collecting
                } else {
                    Stage::Idle
                },
    {
        let mut stages: Vec<Stage> = Vec::new();
        let mut i: usize = 0;
        while i < sources.len()
            invariant
                i <= sources@.len(),
                stages@.len() == i,
                forall|k: int|
                    0 <= k < i ==> #[trigger] stages@[k] == if kind_enabled(sources@[k].kind) {
                        Stage::Collecting
                    } else {
                        Stage::Idle
                    },
            decreases sources@.len() - i,
        {
            if sources[i].kind.is_enabled() {
                stages.push(Stage::Collecting);
            } else {
                stages.push(Stage::Idle);
            }
            i = i + 1;
        }
        Pipeline { stages }
    }

    /// The sources being collected.
    pub fn to_collect(&self) -> (r: Vec<usize>)
        ensures
            forall|k: int| 0 <= k < r@.len() ==> (#[trigger] r@[k]) < self.stages@.len(),
            forall|i: int|
                0 <= i < self.stages@.len() ==> (r@.contains(i as usize) <==> #[trigger] self.stages@[i]
                    == Stage::Collecting),
    {
        let mut r: Vec<usize> = Vec::new();
        let mut i: usize = 0;
        while i < self.stages.len()
            invariant
                i <= self.stages@.len(),
                forall|k: int| 0 <= k < r@.len() ==> (#[trigger] r@[k]) < i,
                forall|j: int|
                    0 <= j < i ==> (r@.contains(j as usize) <==> #[trigger] self.stages@[j]
                        == Stage::Collecting),
            decreases self.stages@.len() - i,
        {
            let ghost before = r@;
            if self.stages[i] == Stage::Collecting {
                r.push(i);
            }
            proof {
                assert forall|j: int| 0 <= j <= i implies (r@.contains(j as usize)
                    <==> #[trigger] self.stages@[j] == Stage::Collecting) by {
                    if r@.contains(j as usize) {
                        let k = choose|k: int| 0 <= k < r@.len() && r@[k] == j as usize;
                        if k < before.len() {
                            assert(before.contains(j as usize));
                        }
                    }
                    if j < i && before.contains(j as usize) {
                        let k = choose|k: int| 0 <= k < before.len() && before[k] == j as usize;
                        assert(r@[k] == j as usize);
                    }
                    if j == i && self.stages@[j] == Stage::Collecting {
                        assert(r@[r@.len() - 1] == j as usize);
                    }
                }
            }
            i = i + 1;
        }
        r
    }

    /// Takes in what happened to one source and says what to do next.
    pub fn on_event(&mut self, e: PipelineEvent) -> (r: PipelineAction)
        ensures
            final(self).stages@ == next_stages(old(self).stages@, e),
            r == action_of(old(self).stages@, e),
    {
        let i = match e {
            PipelineEvent::Collected(i) => i,
            PipelineEvent::CollectionFailed(i) => i,
            PipelineEvent::IndexingFinished(i, _) => i,
        };
        if i >= self.stages.len() {
            return PipelineAction::Nothing;
        }
        let s = self.stages[i];
        let (next, action) = match (s, e) {
            (Stage::Collecting, PipelineEvent::Collected(_)) => (
                Stage::Indexing,
                PipelineAction::StartIndexing(i),
            ),
            (Stage::Collecting, PipelineEvent::CollectionFailed(_)) => (
                Stage::CollectionFailed,
                PipelineAction::Nothing,
            ),
            (Stage::Indexing, PipelineEvent::IndexingFinished(_, ok)) => (
                if ok {
                    Stage::Indexed
                } else {
                    Stage::IndexingFailed
                },
                PipelineAction::Nothing,
            ),
            _ => (s, PipelineAction::Nothing),
        };
        self.stages.set(i, next);
        action
    }

    /// How many sources stand at `stage`.
    pub fn count(&self, stage: Stage) -> (r: usize)
        ensures
            r == count_at(self.stages@, stage),
    {
        let mut n: usize = 0;
        let mut i: usize = 0;
        while i < self.stages.len()
            invariant
                i <= self.stages@.len(),
                n == count_at(self.stages@.subrange(0, i as int), stage),
                n <= i,
            decreases self.stages@.len() - i,
        {
            assert(self.stages@.subrange(0, i + 1).drop_last() =~= self.stages@.subrange(0, i as int));
            if self.stages[i] == stage {
                n = n + 1;
            }
            i = i + 1;
        }
        assert(self.stages@.subrange(0, i as int) =~= self.stages@);
        n
    }

    /// Whether every source of the run has finished, one way or the other.
    pub fn is_finished(&self) -> (r: bool)
        ensures
            r == forall|i: int| 0 <= i < self.stages@.len() ==> !is_pending(#[trigger] self.stages@[i]),
    {
        let mut i: usize = 0;
        while i < self.stages.len()
            invariant
                i <= self.stages@.len(),
                forall|k: int| 0 <= k < i ==> !is_pending(#[trigger] self.stages@[k]),
            decreases self.stages@.len() - i,
        {
            if self.stages[i] == Stage::Collecting || self.stages[i] == Stage::Indexing {
                return false;
            }
            i = i + 1;
        }
        true
    }
}

/// A source whose collection failed is never indexed, and stays failed,
/// whatever happens next.
pub proof fn lemma_failed_collection_never_indexed(stages: Seq<Stage>, e: PipelineEvent, j: usize)
    requires
        j < stages.len(),
        stages[j as int] == Stage::CollectionFailed,
    ensures
        action_of(stages, e) != PipelineAction::StartIndexing(j),
        next_stages(stages, e)[j as int] == Stage::CollectionFailed,
{
}

/// An event about one source leaves every other source's stage as it was.
pub proof fn lemma_events_are_isolated(stages: Seq<Stage>, e: PipelineEvent, i: int)
    requires
        0 <= i < stages.len(),
        i != event_source(e),
    ensures
        next_stages(stages, e)[i] == stages[i],
        next_stages(stages, e).len() == stages.len(),
{
}

/// The stages after a sequence of events, in order.
pub open spec fn run_stages(stages: Seq<Stage>, events: Seq<PipelineEvent>) -> Seq<Stage>
    decreases events.len(),
{
    if events.len() == 0 {
        stages
    } else {
        next_stages(run_stages(stages, events.drop_last()), events.last())
    }
}

/// The actions a sequence of events calls for, in order.
pub open spec fn run_actions(stages: Seq<Stage>, events: Seq<PipelineEvent>) -> Seq<
    PipelineAction,
>
    decreases events.len(),
{
    if events.len() == 0 {
        seq![]
    } else {
        run_actions(stages, events.drop_last()).push(
            action_of(run_stages(stages, events.drop_last()), events.last()),
        )
    }
}

/// Whether the source `i` is one that some event of `events` says was collected.
pub open spec fn reported_collected(events: Seq<PipelineEvent>, i: usize) -> bool {
    exists|k: int| 0 <= k < events.len() && events[k] == PipelineEvent::Collected(i)
}

/// Whether the source `i` is one that some event of `events` says failed collection.
pub open spec fn reported_failed(events: Seq<PipelineEvent>, i: usize) -> bool {
    exists|k: int| 0 <= k < events.len() && events[k] == PipelineEvent::CollectionFailed(i)
}

proof fn lemma_run_facts(stages: Seq<Stage>, events: Seq<PipelineEvent>, i: usize)
    requires
        i < stages.len(),
        stages[i as int] == Stage::Collecting,
    ensures
        run_stages(stages, events).len() == stages.len(),
        run_actions(stages, events).len() == events.len(),
        !reported_collected(events, i) ==> !run_actions(stages, events).contains(
            PipelineAction::StartIndexing(i),
        ),
        !reported_collected(events, i) && !reported_failed(events, i) ==> run_stages(
            stages,
            events,
        )[i as int] == Stage::Collecting,
        reported_collected(events, i) && !reported_failed(events, i) ==> run_actions(
            stages,
            events,
        ).contains(PipelineAction::StartIndexing(i)),
        reported_failed(events, i) && !reported_collected(events, i) ==> run_stages(
            stages,
            events,
        )[i as int] == Stage::CollectionFailed,
    decreases events.len(),
{
    if events.len() > 0 {
        let before = events.drop_last();
        let e = events.last();
        let n = (events.len() - 1) as int;
        lemma_run_facts(stages, before, i);
        let s = run_stages(stages, before);
        let acts = run_actions(stages, before);
        let last = action_of(s, e);
        let all = run_actions(stages, events);
        assert(all == acts.push(last));
        assert(run_stages(stages, events) == next_stages(s, e));
        let si = PipelineAction::StartIndexing(i);
        // what the earlier events report is reported by all of them
        if reported_collected(before, i) {
            let k = choose|k: int| 0 <= k < before.len() && before[k] == PipelineEvent::Collected(i);
            assert(events[k] == before[k]);
        }
        if reported_failed(before, i) {
            let k = choose|k: int|
                0 <= k < before.len() && before[k] == PipelineEvent::CollectionFailed(i);
            assert(events[k] == before[k]);
        }
        // what all of them report is reported by the earlier ones or the last
        if reported_collected(events, i) && e != PipelineEvent::Collected(i) {
            let k = choose|k: int| 0 <= k < events.len() && events[k] == PipelineEvent::Collected(i);
            assert(k < n);
            assert(before[k] == events[k]);
        }
        if reported_failed(events, i) && e != PipelineEvent::CollectionFailed(i) {
            let k = choose|k: int|
                0 <= k < events.len() && events[k] == PipelineEvent::CollectionFailed(i);
            assert(k < n);
            assert(before[k] == events[k]);
        }
        if e == PipelineEvent::Collected(i) {
            assert(events[n] == e);
        }
        if e == PipelineEvent::CollectionFailed(i) {
            assert(events[n] == e);
        }
        if acts.contains(si) {
            let k = choose|k: int| 0 <= k < acts.len() && acts[k] == si;
            assert(all[k] == si);
        }
        if last == si {
            assert(all[n] == si);
            if let PipelineEvent::Collected(j) = e {
                assert(j == i);
            }
        }
        if !reported_collected(events, i) {
            assert forall|k: int| 0 <= k < all.len() implies all[k] != si by {
                if k < acts.len() {
                    assert(all[k] == acts[k]);
                }
            }
        }
        if event_source(e) != i as int {
            assert(next_stages(s, e)[i as int] == s[i as int]);
        }
    }
}

/// However the sources' completions interleave, every source that was being
/// collected and whose collection succeeded is sent to indexing, while one
/// whose collection failed is never sent to indexing and ends failed, its
/// index untouched.
pub proof fn lemma_failure_is_isolated(stages: Seq<Stage>, events: Seq<PipelineEvent>, i: usize)
    requires
        i < stages.len(),
        stages[i as int] == Stage::Collecting,
    ensures
        reported_collected(events, i) && !reported_failed(events, i) ==> run_actions(
            stages,
            events,
        ).contains(PipelineAction::StartIndexing(i)),
        reported_failed(events, i) && !reported_collected(events, i) ==> !run_actions(
            stages,
            events,
        ).contains(PipelineAction::StartIndexing(i)) && run_stages(stages, events)[i as int]
            == Stage::CollectionFailed,
{
    lemma_run_facts(stages, events, i);
}

} // verus!
