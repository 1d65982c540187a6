//! Keeping the content of exchanges that are over within its bounds.
//!
//! At startup, batches are cleaned until the retained content is at the low
//! watermark or nothing is left to clean. If it then still exceeds the ceiling,
//! someone has to look.

use vstd::prelude::*;
use vstd::string::*;

use crate::a2a::error::A2aError;
use crate::a2a::error::A2aErrorView;
use crate::time::max_signed_span;
use crate::time::min_instant;
use crate::time::Duration;
use crate::time::Timestamp;

verus! {

/// How content is kept.
#[derive(Debug, Clone, Copy, PartialEq, Eq, Structural)]
pub struct CleanupPolicy {
    /// How long content is kept after its exchange is over.
    pub terminal_ttl: Duration,
    /// Most content that is kept.
    pub byte_ceiling: i64,
    /// What startup gets it down to.
    pub low_watermark: i64,
    /// Most exchanges cleaned at once.
    pub batch: u32,
    /// How often it is looked after.
    pub interval: Duration,
}

/// The instant up to which content is cleaned: now under pressure, else the time to
/// live ago. `None` means that the time to live is out of range.
pub open spec fn cutoff_total(policy: CleanupPolicy, now: Timestamp, pressure: bool) -> Option<
    int,
> {
    if policy.terminal_ttl.total() > max_signed_span() {
        None
    } else if pressure {
        Some(now.total())
    } else {
        Some(now.total() - policy.terminal_ttl.total())
    }
}

/// The instant up to which content is cleaned.
pub fn cutoff(policy: &CleanupPolicy, now: Timestamp, pressure: bool) -> (before: Result<
    Timestamp,
    A2aError,
>)
    requires
        cutoff_total(*policy, now, pressure) matches Some(at) ==> at >= min_instant(),
    ensures
        match before {
            Ok(before) => cutoff_total(*policy, now, pressure) == Some(before.total()),
            Err(error) => cutoff_total(*policy, now, pressure) is None && error@
                == A2aErrorView::Config("cleanup TTL out of range"@),
        },
{
    if !policy.terminal_ttl.fits_signed() {
        return Err(A2aError::Config("cleanup TTL out of range"));
    }
    if pressure {
        return Ok(now);
    }
    match now.checked_sub(policy.terminal_ttl) {
        Some(before) => Ok(before),
        None => {
            assert(false);
            Err(A2aError::Config("cleanup TTL out of range"))
        },
    }
}

/// Whether so much is retained that content goes before its time.
pub fn under_pressure(policy: &CleanupPolicy, retained: i64) -> (pressure: bool)
    ensures
        pressure == (retained > policy.byte_ceiling),
{
    retained > policy.byte_ceiling
}

/// Where cleaning at startup is.
#[derive(Debug, Clone, Copy, PartialEq, Eq, Structural)]
pub enum StartupStage {
    /// The retained content is measured, to decide on another batch.
    Measuring,
    /// A batch is cleaned.
    Cleaning,
    /// The retained content is measured for the last time.
    Checking,
    /// Cleaning at startup is over.
    Done,
}

/// What came of an action.
pub enum StartupInput {
    /// How much content is retained.
    Retained(Result<i64, A2aError>),
    /// How many exchanges the batch claimed.
    Cleaned(Result<usize, A2aError>),
}

/// What to do next at startup.
pub enum StartupAction {
    /// Measure the retained content.
    Measure,
    /// Clean a batch under pressure.
    Clean,
    /// Start looking after the content.
    Start,
    /// Do not start.
    Failed(A2aError),
}

/// Whether `input` answers what is waited for.
pub open spec fn startup_expects(stage: StartupStage, input: StartupInput) -> bool {
    match stage {
        StartupStage::Measuring => input is Retained,
        StartupStage::Cleaning => input is Cleaned,
        StartupStage::Checking => input is Retained,
        StartupStage::Done => false,
    }
}

/// Whether `input` answers what is waited for.
pub fn startup_takes(stage: StartupStage, input: &StartupInput) -> (yes: bool)
    ensures
        yes == startup_expects(stage, *input),
{
    match (stage, input) {
        (StartupStage::Measuring, StartupInput::Retained(_)) => true,
        (StartupStage::Cleaning, StartupInput::Cleaned(_)) => true,
        (StartupStage::Checking, StartupInput::Retained(_)) => true,
        _ => false,
    }
}

/// How cleaning at startup goes on.
pub open spec fn startup_next(
    policy: CleanupPolicy,
    stage: StartupStage,
    input: StartupInput,
    after: StartupStage,
    action: StartupAction,
) -> bool {
    match (stage, input) {
        (_, StartupInput::Retained(Err(error))) => after is Done && action
            == StartupAction::Failed(error),
        (_, StartupInput::Cleaned(Err(error))) => after is Done && action == StartupAction::Failed(
            error,
        ),
        (StartupStage::Measuring, StartupInput::Retained(Ok(retained))) => if retained
            > policy.low_watermark {
            after is Cleaning && action is Clean
        } else {
            after is Checking && action is Measure
        },
        (StartupStage::Cleaning, StartupInput::Cleaned(Ok(count))) => if count == 0 {
            after is Checking && action is Measure
        } else {
            after is Measuring && action is Measure
        },
        (StartupStage::Checking, StartupInput::Retained(Ok(retained))) => {
            &&& after is Done
            &&& if retained > policy.byte_ceiling {
                action matches StartupAction::Failed(error) && error@
                    == A2aErrorView::RecoveryNeeded
            } else {
                action is Start
            }
        },
        _ => false,
    }
}

/// Go on with cleaning at startup, which begins in [`StartupStage::Measuring`].
pub fn startup_step(policy: &CleanupPolicy, stage: StartupStage, input: StartupInput) -> (next: (
    StartupStage,
    StartupAction,
))
    requires
        startup_expects(stage, input),
    ensures
        startup_next(*policy, stage, input, next.0, next.1),
{
    match (stage, input) {
        (_, StartupInput::Retained(Err(error))) => (
            StartupStage::Done,
            StartupAction::Failed(error),
        ),
        (_, StartupInput::Cleaned(Err(error))) => (
            StartupStage::Done,
            StartupAction::Failed(error),
        ),
        (StartupStage::Measuring, StartupInput::Retained(Ok(retained))) => if retained
            > policy.low_watermark {
            (StartupStage::Cleaning, StartupAction::Clean)
        } else {
            (StartupStage::Checking, StartupAction::Measure)
        },
        (_, StartupInput::Cleaned(Ok(count))) => if count == 0 {
            (StartupStage::Checking, StartupAction::Measure)
        } else {
            (StartupStage::Measuring, StartupAction::Measure)
        },
        (_, StartupInput::Retained(Ok(retained))) => if retained > policy.byte_ceiling {
            (StartupStage::Done, StartupAction::Failed(A2aError::RecoveryNeeded))
        } else {
            (StartupStage::Done, StartupAction::Start)
        },
    }
}

/// Nothing is served above the ceiling: cleaning at startup ends with a start only
/// where the last measure is within it.
pub proof fn law_startup_respects_the_ceiling(
    policy: CleanupPolicy,
    stage: StartupStage,
    input: StartupInput,
    after: StartupStage,
    action: StartupAction,
)
    requires
        startup_next(policy, stage, input, after, action),
        action is Start,
    ensures
        stage is Checking,
        input matches StartupInput::Retained(Ok(retained)) && retained <= policy.byte_ceiling,
{
}

/// One step of cleaning at startup: what came of the last action, and what to do next.
pub ghost struct StartupRun {
    pub stage: StartupStage,
    pub input: StartupInput,
    pub after: StartupStage,
    pub action: StartupAction,
}

/// Whether `steps` are those of cleaning at startup, after the first measure was asked for.
pub open spec fn starts_up(policy: CleanupPolicy, steps: Seq<StartupRun>) -> bool {
    &&& steps.len() > 0
    &&& steps[0].stage is Measuring
    &&& forall|i: int|
        0 <= i < steps.len() ==> {
            let step = #[trigger] steps[i];
            startup_expects(step.stage, step.input) && startup_next(
                policy,
                step.stage,
                step.input,
                step.after,
                step.action,
            )
        }
    &&& forall|i: int| 0 < i < steps.len() ==> (#[trigger] steps[i]).stage == steps[i - 1].after
}

/// How startup gets the retained content down. It is measured; while it is above the low
/// watermark a batch is cleaned and it is measured again; once it is not, or once a batch
/// found nothing to clean, it is measured a last time, and the cleanup starts where it is
/// within the ceiling. Whatever fails on the way is what startup fails with.
pub proof fn law_startup_goes_step_by_step(policy: CleanupPolicy, steps: Seq<StartupRun>, i: int)
    requires
        starts_up(policy, steps),
        0 <= i < steps.len(),
    ensures
        ({
            let action = steps[i].action;
            let last_measure = i > 0 && (match steps[i - 1].input {
                StartupInput::Cleaned(Ok(count)) => count == 0,
                StartupInput::Retained(_) => true,
                _ => false,
            });
            match steps[i].input {
                StartupInput::Retained(Err(error)) => action == StartupAction::Failed(error),
                StartupInput::Cleaned(Err(error)) => action == StartupAction::Failed(error),
                StartupInput::Cleaned(Ok(_)) => action is Measure,
                StartupInput::Retained(Ok(retained)) => if last_measure {
                    if retained > policy.byte_ceiling {
                        action matches StartupAction::Failed(error) && error@
                            == A2aErrorView::RecoveryNeeded
                    } else {
                        action is Start
                    }
                } else if retained > policy.low_watermark {
                    action is Clean
                } else {
                    action is Measure
                },
            }
        }),
        forall|next: StartupInput| #[trigger]
            startup_expects(steps[i].after, next) <==> (match steps[i].action {
                StartupAction::Measure => next is Retained,
                StartupAction::Clean => next is Cleaned,
                StartupAction::Start => false,
                StartupAction::Failed(_) => false,
            }),
        forall|next: StartupInput| #[trigger]
            startup_expects(steps[0].stage, next) <==> next is Retained,
{
    let step = steps[i];
    assert(startup_next(policy, step.stage, step.input, step.after, step.action));
    if i > 0 {
        let previous = steps[i - 1];
        assert(startup_next(
            policy,
            previous.stage,
            previous.input,
            previous.after,
            previous.action,
        ));
        assert(step.stage == previous.after);
        if i > 1 {
            let earlier = steps[i - 2];
            assert(startup_next(
                policy,
                earlier.stage,
                earlier.input,
                earlier.after,
                earlier.action,
            ));
            assert(previous.stage == earlier.after);
        }
    }
}

/// Content is kept for its time to live after its exchange is over, and no longer than to
/// this moment under pressure.
pub proof fn law_content_is_kept_for_its_time(policy: CleanupPolicy, now: Timestamp)
    ensures
        policy.terminal_ttl.total() <= max_signed_span() ==> {
            &&& cutoff_total(policy, now, true) == Some(now.total())
            &&& cutoff_total(policy, now, false) matches Some(before) && before
                + policy.terminal_ttl.total() == now.total()
        },
        policy.terminal_ttl.total() > max_signed_span() ==> forall|pressure: bool|
            (#[trigger] cutoff_total(policy, now, pressure)) is None,
{
}

} // verus!
