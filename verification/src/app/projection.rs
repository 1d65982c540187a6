//! Handing an event on: to the store first, then to everyone else.

use vstd::prelude::*;
use vstd::string::*;

use crate::bus::fanout::ConsumerError;

verus! {

/// How often handing an event on has failed.
#[derive(Debug, Clone, Copy, PartialEq, Eq, Structural)]
pub struct ProjectionMetrics {
    failures: u64,
}

impl ProjectionMetrics {
    /// The count.
    pub closed spec fn count(&self) -> nat {
        self.failures as nat
    }

    /// Nothing has failed yet.
    pub fn new() -> (metrics: ProjectionMetrics)
        ensures
            metrics.count() == 0,
    {
        ProjectionMetrics { failures: 0 }
    }

    /// How often handing an event on has failed.
    pub fn failures(&self) -> (count: u64)
        ensures
            count == self.count(),
    {
        self.failures
    }

    /// It failed once more. The count starts over after the largest number.
    pub fn record_failure(&mut self)
        ensures
            final(self).count() == (if old(self).count() == u64::MAX {
                0
            } else {
                old(self).count() + 1
            }),
    {
        self.failures = self.failures.wrapping_add(1);
    }
}

impl Default for ProjectionMetrics {
    fn default() -> (metrics: ProjectionMetrics)
        ensures
            metrics.count() == 0,
    {
        ProjectionMetrics::new()
    }
}

/// Where an event is.
#[derive(Debug, Clone, Copy, PartialEq, Eq, Structural)]
pub enum ProjectionStage {
    /// The store has it.
    Persisting,
    /// The consumer with this number has it; some before it have failed or none has.
    Consuming { at: usize, failed: bool },
    /// Everyone had it.
    Done,
}

/// What to do next with an event.
#[derive(Debug, PartialEq, Eq)]
pub enum ProjectionAction {
    /// Hand it to the store.
    Persist,
    /// Hand it to the consumer with this number.
    Consume(usize),
    /// Report this.
    Report(Result<(), ConsumerError>),
}

/// The failure of one or more consumers.
pub open spec fn projections_failed(result: Result<(), ConsumerError>) -> bool {
    result matches Err(ConsumerError::Failed { reason }) && reason@
        == "one or more external projections failed"@
}

/// What follows once the consumers before `at` had the event.
pub open spec fn consume_next(
    siblings: nat,
    at: nat,
    failed: bool,
    after: ProjectionStage,
    action: ProjectionAction,
) -> bool {
    if at < siblings {
        after == (ProjectionStage::Consuming { at: at as usize, failed }) && action
            == ProjectionAction::Consume(at as usize)
    } else {
        &&& after is Done
        &&& action matches ProjectionAction::Report(result) && (if failed {
            projections_failed(result)
        } else {
            result is Ok
        })
    }
}

/// An event on its way to the store and the other consumers.
#[derive(Debug)]
pub struct PersistenceFirstProjection {
    siblings: usize,
    stage: ProjectionStage,
}

impl PersistenceFirstProjection {
    /// How many consumers there are besides the store.
    pub closed spec fn siblings(&self) -> nat {
        self.siblings as nat
    }

    /// Where the event is.
    pub closed spec fn stage(&self) -> ProjectionStage {
        self.stage
    }

    /// An event for the store and `siblings` other consumers.
    pub fn new(siblings: usize) -> (run: (PersistenceFirstProjection, ProjectionAction))
        ensures
            run.0.siblings() == siblings,
            run.0.stage() is Persisting,
            run.1 is Persist,
    {
        let run = PersistenceFirstProjection { siblings, stage: ProjectionStage::Persisting };
        (run, ProjectionAction::Persist)
    }

    /// Go on to the consumer `at`, or report.
    fn go_on(&mut self, at: usize, failed: bool) -> (action: ProjectionAction)
        ensures
            final(self).siblings() == old(self).siblings(),
            consume_next(old(self).siblings(), at as nat, failed, final(self).stage(), action),
    {
        if at < self.siblings {
            self.stage = ProjectionStage::Consuming { at, failed };
            ProjectionAction::Consume(at)
        } else {
            self.stage = ProjectionStage::Done;
            if failed {
                ProjectionAction::Report(
                    Err(
                        ConsumerError::Failed {
                            reason: "one or more external projections failed".to_owned(),
                        },
                    ),
                )
            } else {
                ProjectionAction::Report(Ok(()))
            }
        }
    }

    /// The store had the event. A failure of the store ends the event's way: nobody
    /// else gets what is not stored.
    pub fn persisted(&mut self, result: Result<(), ConsumerError>) -> (action: ProjectionAction)
        requires
            old(self).stage() is Persisting,
        ensures
            final(self).siblings() == old(self).siblings(),
            match result {
                Err(error) => final(self).stage() is Done && action == ProjectionAction::Report(
                    Err(error),
                ),
                Ok(_) => consume_next(
                    old(self).siblings(),
                    0,
                    false,
                    final(self).stage(),
                    action,
                ),
            },
    {
        match result {
            Err(error) => {
                self.stage = ProjectionStage::Done;
                ProjectionAction::Report(Err(error))
            },
            Ok(()) => self.go_on(0, false),
        }
    }

    /// A consumer had the event. A failure is counted, and the others still get it.
    pub fn consumed(&mut self, done: bool, metrics: &mut ProjectionMetrics) -> (action:
        ProjectionAction)
        requires
            old(self).stage() matches ProjectionStage::Consuming { at, failed: _ } && at < old(
                self,
            ).siblings(),
        ensures
            final(self).siblings() == old(self).siblings(),
            consume_next(
                old(self).siblings(),
                (old(self).stage()->at + 1) as nat,
                old(self).stage()->failed || !done,
                final(self).stage(),
                action,
            ),
            done ==> final(metrics).count() == old(metrics).count(),
            !done ==> final(metrics).count() == (if old(metrics).count() == u64::MAX {
                0
            } else {
                old(metrics).count() + 1
            }),
    {
        match self.stage {
            ProjectionStage::Consuming { at, failed } => {
                if !done {
                    metrics.record_failure();
                }
                self.go_on(at + 1, failed || !done)
            },
            _ => {
                assert(false);
                ProjectionAction::Persist
            },
        }
    }
}

/// Whether one of the first `upto` results is a failure.
pub open spec fn one_failed(results: Seq<bool>, upto: nat) -> bool {
    exists|i: int| 0 <= i < upto && !(#[trigger] results[i])
}

/// A way of a stored event: what came after each consumer, where the consumers did
/// or failed as `results` says.
pub open spec fn is_way(
    siblings: nat,
    results: Seq<bool>,
    steps: Seq<(ProjectionStage, ProjectionAction)>,
) -> bool {
    &&& results.len() == siblings
    &&& steps.len() == siblings + 1
    &&& consume_next(siblings, 0, false, steps[0].0, steps[0].1)
    &&& forall|k: int|
        0 < k <= siblings ==> consume_next(
            siblings,
            k as nat,
            steps[k - 1].0->failed || !results[k - 1],
            (#[trigger] steps[k]).0,
            steps[k].1,
        )
}

/// What every step of a way is.
proof fn lemma_way(
    siblings: nat,
    results: Seq<bool>,
    steps: Seq<(ProjectionStage, ProjectionAction)>,
    k: nat,
)
    requires
        is_way(siblings, results, steps),
        k <= siblings,
    ensures
        consume_next(
            siblings,
            k,
            one_failed(results, k),
            steps[k as int].0,
            steps[k as int].1,
        ),
    decreases k,
{
    if k == 0 {
        assert(!one_failed(results, 0));
    } else {
        let before = (k - 1) as nat;
        lemma_way(siblings, results, steps, before);
        assert(consume_next(
            siblings,
            k,
            steps[k - 1].0->failed || !results[k - 1],
            steps[k as int].0,
            steps[k as int].1,
        ));
        assert(one_failed(results, k) <==> one_failed(results, before) || !results[before as int])
            by {
            if one_failed(results, k) {
                let i = choose|i: int| 0 <= i < k && !(#[trigger] results[i]);
                assert(!results[i]);
            }
            if one_failed(results, before) {
                let i = choose|i: int| 0 <= i < before && !(#[trigger] results[i]);
                assert(!results[i]);
            }
        }
    }
}

/// Every consumer gets an event that is stored, in order and whatever the others do,
/// and the report is a failure exactly where one of them failed.
pub proof fn law_every_consumer_gets_the_event(
    siblings: nat,
    results: Seq<bool>,
    steps: Seq<(ProjectionStage, ProjectionAction)>,
)
    requires
        siblings <= usize::MAX,
        is_way(siblings, results, steps),
    ensures
        forall|k: int|
            0 <= k < siblings ==> (#[trigger] steps[k]).1 == ProjectionAction::Consume(k as usize),
        steps[siblings as int].1 matches ProjectionAction::Report(result) && (result is Ok
            <==> !one_failed(results, siblings)),
{
    assert forall|k: int| 0 <= k < siblings implies (#[trigger] steps[k]).1
        == ProjectionAction::Consume(k as usize) by {
        lemma_way(siblings, results, steps, k as nat);
    }
    lemma_way(siblings, results, steps, siblings);
}

/// What is reported where a consumer failed says so, and nothing of what the consumer said.
pub proof fn law_failed_consumers_are_reported(
    siblings: nat,
    at: nat,
    failed: bool,
    after: ProjectionStage,
    action: ProjectionAction,
)
    requires
        siblings <= usize::MAX,
        consume_next(siblings, at, failed, after, action),
    ensures
        at < siblings ==> action == ProjectionAction::Consume(at as usize) && after == (
        ProjectionStage::Consuming { at: at as usize, failed }),
        at >= siblings && failed ==> (action matches ProjectionAction::Report(
            Err(ConsumerError::Failed { reason }),
        ) && reason@ == "one or more external projections failed"@),
        at >= siblings && !failed ==> (action matches ProjectionAction::Report(result) && result
            is Ok),
        at >= siblings ==> after is Done,
{
}

} // verus!
