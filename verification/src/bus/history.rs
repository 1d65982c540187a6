//! What the events of one task look like, whatever happens to it.
//!
//! ```text
//! Queued(1)                                  written on submission
//! ( Dispatched(seq, attempt = k) [ Running(seq) ] )*     k = 1, 2, 3, ...
//! one of Completed, Failed, TimedOut, Cancelled (seq)
//! ```
//!
//! Sequence numbers run on from 2 without a gap; `Running` stands directly behind a
//! `Dispatched`, and `Completed` directly behind a `Running`; nothing follows a
//! terminal event.

use vstd::prelude::*;
use crate::bus::control::Recorded;
use crate::bus::error::BusError;
use crate::bus::transition::{
    answers, asked, begun, lemma_next_keeps_range, told_event, PayloadView, Purpose, Raced,
    RunAction, RunInput, RunSettings, RunView, StageView,
};
use crate::bus::worker::{
    DispatchError, DispatchOutcome, FinalizeResult, LifecycleResult, WorkerError,
};
use crate::ids::{DeliveryId, TaskId};
use crate::models::AgentTask;
use crate::time::Timestamp;

verus! {

/// One recorded event.
pub ghost struct LogEntry {
    pub seq: nat,
    pub payload: PayloadView,
}

/// What a run is given at one step: the cancellation it heeds, the time, the identity
/// drawn for an attempt that may start, and what came of its last action.
pub ghost struct StepInput {
    pub cancel: Option<Seq<char>>,
    pub now: Timestamp,
    pub drawn: DeliveryId,
    pub input: RunInput,
}

/// A run and what it recorded so far.
pub ghost struct Trace {
    pub run: RunView,
    pub log: Seq<LogEntry>,
}

/// The event that a step records: one that was announced, or one that the dispatcher
/// recorded in the run's place.
pub open spec fn recorded_event(run: RunView, input: RunInput) -> Option<LogEntry> {
    match (run.stage, input) {
        (StageView::Writing { payload, .. }, RunInput::Emitted(Ok(()))) => Some(
            LogEntry { seq: run.seq, payload },
        ),
        (StageView::ReportingFailure { payload }, RunInput::FailureReported(Ok(()))) => Some(
            LogEntry { seq: run.seq, payload },
        ),
        _ => None,
    }
}

impl Trace {
    /// The trace after one more step.
    pub open spec fn advanced(self, step: StepInput) -> Trace {
        Trace {
            run: self.run.next(step.cancel, step.now, step.drawn, step.input),
            log: match recorded_event(self.run, step.input) {
                Some(entry) => self.log.push(entry),
                None => self.log,
            },
        }
    }
}

/// The trace of a run from `start` on.
pub open spec fn trace(start: RunView, steps: Seq<StepInput>) -> Trace
    decreases steps.len(),
{
    if steps.len() == 0 {
        Trace { run: start, log: Seq::empty() }
    } else {
        trace(start, steps.drop_last()).advanced(steps.last())
    }
}

/// Whether every step answered what the run waited for.
pub open spec fn answered(start: RunView, steps: Seq<StepInput>) -> bool
    decreases steps.len(),
{
    steps.len() == 0 || (answered(start, steps.drop_last()) && answers(
        trace(start, steps.drop_last()).run.stage,
        steps.last().input,
    ))
}

/// Whether a run is at its start: nothing was written, and the first attempt is under
/// way or the task ends at once.
pub open spec fn starts(run: RunView) -> bool {
    &&& run.wf()
    &&& run.seq == 2
    &&& run.attempt == 1
    &&& match run.stage {
        StageView::Claiming => true,
        StageView::Writing { purpose, payload, .. } => purpose == Purpose::Dispatch || (purpose
            == Purpose::Terminal && !(payload is Completed)),
        _ => false,
    }
}

/// A run that may be dispatched starts, whether it claims its queue entry first or
/// attempts its delivery at once; and so does one that ends before it is dispatched.
pub proof fn law_every_run_starts(
    fresh: RunView,
    cancel: Option<Seq<char>>,
    now: Timestamp,
    drawn: DeliveryId,
    payload: PayloadView,
)
    requires
        fresh.seq == 2,
        fresh.attempt == 1,
        fresh.stage == StageView::Claiming,
        payload.terminal(),
        !(payload is Completed),
    ensures
        starts(fresh),
        starts(fresh.attempts(cancel, now, drawn)),
        starts(fresh.ends(payload)),
{
}

/// How many delivery attempts a log shows.
pub open spec fn attempts_in(log: Seq<LogEntry>) -> nat
    decreases log.len(),
{
    if log.len() == 0 {
        0
    } else if log.last().payload is Dispatched {
        attempts_in(log.drop_last()) + 1
    } else {
        attempts_in(log.drop_last())
    }
}

/// The grammar of a task's events.
pub open spec fn well_ordered(log: Seq<LogEntry>) -> bool
    decreases log.len(),
{
    log.len() == 0 || {
        let earlier = log.drop_last();
        let entry = log.last();
        &&& well_ordered(earlier)
        &&& entry.seq == log.len() + 1
        &&& earlier.len() > 0 ==> !earlier.last().payload.terminal()
        &&& match entry.payload {
            PayloadView::Queued => false,
            PayloadView::Dispatched { attempt, .. } => attempt == attempts_in(earlier) + 1,
            PayloadView::Running { .. } => earlier.len() > 0 && earlier.last().payload
                is Dispatched,
            PayloadView::Completed { .. } => earlier.len() > 0 && earlier.last().payload
                is Running,
            PayloadView::Failed { .. }
            | PayloadView::TimedOut { .. }
            | PayloadView::Cancelled { .. } => true,
        }
    }
}

/// What holds of a trace at every point.
spec fn consistent(t: Trace) -> bool {
    let log = t.log;
    let open = log.len() == 0 || !log.last().payload.terminal();
    &&& t.run.wf()
    &&& well_ordered(log)
    &&& attempts_in(log) <= t.run.attempt
    &&& match t.run.stage {
        StageView::Done { result } => result is Ok ==> log.len() > 0 && !open,
        _ => open && t.run.seq == log.len() + 2,
    }
    &&& match t.run.stage {
        StageView::Claiming => attempts_in(log) + 1 == t.run.attempt,
        StageView::Writing { purpose, payload, .. } => match purpose {
            Purpose::Dispatch => attempts_in(log) + 1 == t.run.attempt,
            Purpose::Start => log.len() > 0 && log.last().payload is Dispatched
                && attempts_in(log) == t.run.attempt,
            Purpose::Terminal | Purpose::Finalized => payload is Completed ==> log.len() > 0
                && log.last().payload is Running,
        },
        StageView::Marking
        | StageView::Renewing
        | StageView::Delivering => log.len() > 0 && log.last().payload is Dispatched
            && attempts_in(log) == t.run.attempt,
        StageView::ReportingFailure { payload } => payload is Failed,
        StageView::Executing => log.len() > 0 && log.last().payload is Running && attempts_in(log)
            == t.run.attempt,
        StageView::BackingOff => attempts_in(log) == t.run.attempt,
        StageView::Releasing { payload } => !(payload is Completed),
        StageView::Finalizing { payload } => payload is Completed ==> log.len() > 0
            && log.last().payload is Running,
        StageView::Done { .. } => true,
    }
}

proof fn lemma_advanced_is_consistent(t: Trace, step: StepInput)
    requires
        consistent(t),
        answers(t.run.stage, step.input),
    ensures
        consistent(t.advanced(step)),
{
    lemma_next_keeps_range(t.run, step.cancel, step.now, step.drawn, step.input);
    let after = t.advanced(step);
    match recorded_event(t.run, step.input) {
        Some(entry) => {
            assert(after.log.drop_last() =~= t.log);
            assert(after.log.last() == entry);
        },
        None => {},
    }
}

proof fn lemma_trace_is_consistent(start: RunView, steps: Seq<StepInput>)
    requires
        starts(start),
        answered(start, steps),
    ensures
        consistent(trace(start, steps)),
    decreases steps.len(),
{
    if steps.len() > 0 {
        lemma_trace_is_consistent(start, steps.drop_last());
        lemma_advanced_is_consistent(trace(start, steps.drop_last()), steps.last());
    }
}

/// Whatever happens to a task, the events recorded of it follow the grammar: numbered
/// from 2 without a gap, attempts counted from 1, `Running` only behind `Dispatched`,
/// `Completed` only behind `Running`, nothing behind a terminal event.
pub proof fn law_events_follow_the_grammar(start: RunView, steps: Seq<StepInput>)
    requires
        starts(start),
        answered(start, steps),
    ensures
        well_ordered(trace(start, steps).log),
{
    lemma_trace_is_consistent(start, steps);
}

/// A run that ends well has recorded exactly one terminal event, as its last one.
pub proof fn law_a_finished_run_ends_with_a_terminal_event(
    start: RunView,
    steps: Seq<StepInput>,
)
    requires
        starts(start),
        answered(start, steps),
        trace(start, steps).run.stage == (StageView::Done { result: Ok(()) }),
    ensures
        ({
            let log = trace(start, steps).log;
            &&& log.len() > 0
            &&& log.last().payload.terminal()
            &&& forall|i: int|
                0 <= i < log.len() - 1 ==> !(#[trigger] log[i]).payload.terminal()
        }),
{
    lemma_trace_is_consistent(start, steps);
    lemma_only_the_last_is_terminal(trace(start, steps).log);
}

/// Spelled out over the whole log: the grammar entry by entry.
pub proof fn lemma_only_the_last_is_terminal(log: Seq<LogEntry>)
    requires
        well_ordered(log),
    ensures
        forall|i: int| 0 <= i < log.len() - 1 ==> !(#[trigger] log[i]).payload.terminal(),
        forall|i: int| 0 <= i < log.len() ==> (#[trigger] log[i]).seq == i + 2,
        forall|i: int|
            0 <= i < log.len() ==> ((#[trigger] log[i]).payload is Running ==> i > 0 && log[i
                - 1].payload is Dispatched),
        forall|i: int|
            0 <= i < log.len() ==> ((#[trigger] log[i]).payload is Completed ==> i > 0 && log[i
                - 1].payload is Running),
    decreases log.len(),
{
    if log.len() > 0 {
        let earlier = log.drop_last();
        lemma_only_the_last_is_terminal(earlier);
        assert(forall|i: int| 0 <= i < earlier.len() ==> earlier[i] == log[i]);
        assert(log[log.len() - 1] == log.last());
        if earlier.len() > 0 {
            assert(earlier.last() == log[log.len() - 2]);
        }
    }
}

/// No task records more delivery attempts than its policy allows; a policy that allows
/// none counts as one that allows one.
pub proof fn law_attempts_are_bounded(start: RunView, steps: Seq<StepInput>)
    requires
        starts(start),
        answered(start, steps),
    ensures
        attempts_in(trace(start, steps).log) <= if start.settings.retry.max_attempts < 1 {
            1
        } else {
            start.settings.retry.max_attempts
        },
    decreases steps.len(),
{
    lemma_trace_is_consistent(start, steps);
    lemma_settings_stay(start, steps);
}

proof fn lemma_settings_stay(start: RunView, steps: Seq<StepInput>)
    ensures
        trace(start, steps).run.settings == start.settings,
        trace(start, steps).run.task_id == start.task_id,
        trace(start, steps).run.deadline == start.deadline,
    decreases steps.len(),
{
    if steps.len() > 0 {
        lemma_settings_stay(start, steps.drop_last());
    }
}

/// A task that is blocked before it is dispatched records one event at most, the
/// terminal one, at sequence number 2.
pub proof fn law_a_blocked_task_is_never_dispatched(start: RunView, steps: Seq<StepInput>)
    requires
        starts(start),
        start.stage matches StageView::Writing { purpose, .. } && purpose == Purpose::Terminal,
        answered(start, steps),
    ensures
        attempts_in(trace(start, steps).log) == 0,
        trace(start, steps).log.len() <= 1,
        trace(start, steps).log.len() == 1 ==> trace(start, steps).log[0] == (LogEntry {
            seq: 2,
            payload: start.stage->Writing_payload,
        }),
    decreases steps.len(),
{
    lemma_blocked(start, steps);
}

proof fn lemma_blocked(start: RunView, steps: Seq<StepInput>)
    requires
        starts(start),
        start.stage matches StageView::Writing { purpose, .. } && purpose == Purpose::Terminal,
        answered(start, steps),
    ensures
        ({
            let t = trace(start, steps);
            &&& attempts_in(t.log) == 0
            &&& match t.run.stage {
                StageView::Writing { purpose, payload, .. } => t.log.len() == 0 && purpose
                    == Purpose::Terminal && payload == start.stage->Writing_payload && t.run.seq
                    == 2,
                StageView::Done { .. } => t.log.len() == 0 || (t.log.len() == 1 && t.log[0] == (
                LogEntry { seq: 2, payload: start.stage->Writing_payload })),
                _ => false,
            }
        }),
    decreases steps.len(),
{
    if steps.len() > 0 {
        lemma_blocked(start, steps.drop_last());
        let t = trace(start, steps.drop_last());
        match recorded_event(t.run, steps.last().input) {
            Some(entry) => {
                assert(t.log.push(entry).drop_last() =~= t.log);
            },
            None => {},
        }
    }
}

/// The identities of the delivery attempts that a log shows, in order.
pub open spec fn deliveries_in(log: Seq<LogEntry>) -> Seq<DeliveryId>
    decreases log.len(),
{
    if log.len() == 0 {
        Seq::empty()
    } else {
        match log.last().payload {
            PayloadView::Dispatched { delivery, .. } => deliveries_in(log.drop_last()).push(
                delivery,
            ),
            _ => deliveries_in(log.drop_last()),
        }
    }
}

/// The identities that were drawn for a run: at its start, and at every step.
pub open spec fn drawn_for(start: RunView, steps: Seq<StepInput>) -> Seq<DeliveryId> {
    seq![start.delivery] + steps.map_values(|step: StepInput| step.drawn)
}

/// What holds of the identities in a trace, where no two of those drawn are the same.
spec fn told_apart(t: Trace, drawn: Seq<DeliveryId>) -> bool {
    let told = deliveries_in(t.log);
    &&& told.no_duplicates()
    &&& drawn.contains(t.run.delivery)
    &&& forall|i: int| 0 <= i < told.len() ==> drawn.contains(#[trigger] told[i])
    &&& t.run.stage matches StageView::Writing { purpose, .. } ==> (purpose == Purpose::Dispatch
        ==> !told.contains(t.run.delivery))
}

proof fn lemma_told_apart(start: RunView, steps: Seq<StepInput>)
    requires
        starts(start),
        answered(start, steps),
        drawn_for(start, steps).no_duplicates(),
    ensures
        told_apart(trace(start, steps), drawn_for(start, steps)),
    decreases steps.len(),
{
    let drawn = drawn_for(start, steps);
    if steps.len() == 0 {
        assert(drawn[0] == start.delivery);
    } else {
        let earlier = steps.drop_last();
        let before = drawn_for(start, earlier);
        assert(drawn =~= before.push(steps.last().drawn));
        assert(before.no_duplicates()) by {
            assert forall|i: int, j: int| 0 <= i < before.len() && 0 <= j < before.len() && i
                != j implies before[i] != before[j] by {
                assert(drawn[i] == before[i] && drawn[j] == before[j]);
            }
        }
        lemma_told_apart(start, earlier);
        lemma_trace_is_consistent(start, earlier);
        let t = trace(start, earlier);
        let after = trace(start, steps);
        let told = deliveries_in(t.log);
        assert(drawn[before.len() as int] == steps.last().drawn);
        assert(!before.contains(steps.last().drawn)) by {
            if before.contains(steps.last().drawn) {
                let k = choose|k: int| 0 <= k < before.len() && before[k] == steps.last().drawn;
                assert(drawn[k] == before[k]);
            }
        }
        assert forall|id: DeliveryId| before.contains(id) implies drawn.contains(id) by {
            let k = choose|k: int| 0 <= k < before.len() && before[k] == id;
            assert(drawn[k] == id);
        }
        match recorded_event(t.run, steps.last().input) {
            Some(entry) => {
                assert(after.log.drop_last() =~= t.log);
                assert(after.log.last() == entry);
            },
            None => {},
        }
        let now_told = deliveries_in(after.log);
        assert(now_told == told || now_told == told.push(t.run.delivery));
        assert forall|i: int| 0 <= i < now_told.len() implies drawn.contains(
            #[trigger] now_told[i],
        ) by {
            if i < told.len() {
                assert(before.contains(told[i]));
            }
        }
        assert(!told.contains(steps.last().drawn)) by {
            if told.contains(steps.last().drawn) {
                let k = choose|k: int| 0 <= k < told.len() && told[k] == steps.last().drawn;
                assert(before.contains(told[k]));
            }
        }
    }
}

/// Every delivery attempt of a task carries an identity that was drawn for it, and
/// where no two of the identities drawn are the same, no two attempts share one.
pub proof fn law_attempts_carry_their_own_identities(start: RunView, steps: Seq<StepInput>)
    requires
        starts(start),
        answered(start, steps),
        drawn_for(start, steps).no_duplicates(),
    ensures
        deliveries_in(trace(start, steps).log).no_duplicates(),
        deliveries_in(trace(start, steps).log).len() == attempts_in(trace(start, steps).log),
        forall|i: int|
            0 <= i < deliveries_in(trace(start, steps).log).len() ==> drawn_for(
                start,
                steps,
            ).contains(#[trigger] deliveries_in(trace(start, steps).log)[i]),
{
    lemma_told_apart(start, steps);
    lemma_deliveries_are_attempts(trace(start, steps).log);
}

proof fn lemma_deliveries_are_attempts(log: Seq<LogEntry>)
    ensures
        deliveries_in(log).len() == attempts_in(log),
    decreases log.len(),
{
    if log.len() > 0 {
        lemma_deliveries_are_attempts(log.drop_last());
    }
}

/// Whether a run recorded nothing beyond `base` but at most `payload`, as the last event,
/// and has recorded that where it ended well.
pub open spec fn ends_with(base: Seq<LogEntry>, t: Trace, payload: PayloadView) -> bool {
    let whole = base.push(LogEntry { seq: base.len() + 2, payload });
    &&& t.log == base || t.log == whole
    &&& t.run.stage == (StageView::Done { result: Ok(()) }) ==> t.log == whole
}

/// What holds of a trace once the end of its task is decided.
spec fn decided(base: Seq<LogEntry>, t: Trace, payload: PayloadView) -> bool {
    match t.run.stage {
        StageView::Writing { purpose, payload: own, .. } => own == payload && t.log == base && (
        purpose == Purpose::Terminal || purpose == Purpose::Finalized),
        StageView::Releasing { payload: own } => own == payload && t.log == base,
        StageView::Finalizing { payload: own } => own == payload && t.log == base,
        StageView::ReportingFailure { payload: own } => own == payload && t.log == base,
        StageView::Done { .. } => ends_with(base, t, payload),
        _ => false,
    }
}

proof fn lemma_decided_stays(
    start: RunView,
    steps: Seq<StepInput>,
    k: int,
    base: Seq<LogEntry>,
    payload: PayloadView,
)
    requires
        starts(start),
        answered(start, steps),
        0 <= k <= steps.len(),
        decided(base, trace(start, steps.take(k)), payload),
    ensures
        decided(base, trace(start, steps), payload),
    decreases steps.len(),
{
    if k == steps.len() {
        assert(steps.take(k) =~= steps);
    } else {
        let earlier = steps.drop_last();
        assert(earlier.take(k) =~= steps.take(k));
        lemma_decided_stays(start, earlier, k, base, payload);
        lemma_trace_is_consistent(start, earlier);
    }
}

proof fn lemma_answered_before(start: RunView, steps: Seq<StepInput>, k: int)
    requires
        answered(start, steps),
        0 <= k <= steps.len(),
    ensures
        answered(start, steps.take(k)),
    decreases steps.len(),
{
    if k == steps.len() {
        assert(steps.take(k) =~= steps);
    } else {
        assert(steps.drop_last().take(k) =~= steps.take(k));
        lemma_answered_before(start, steps.drop_last(), k);
    }
}

/// Whether a deadline has passed at `now`.
pub open spec fn overdue(deadline: Option<Timestamp>, now: Timestamp) -> bool {
    deadline matches Some(due) && due.total() <= now.total()
}

/// What a stage came to is what its task ends with. An execution that completed ends the
/// task as completed, with its output; one that failed ends it as failed, with its error;
/// a cancellation or a deadline that came first ends it as such; and a failure that is not
/// tried again ends it as failed. Nothing else is recorded of the task after that.
pub proof fn law_what_came_of_a_stage_ends_the_task(
    start: RunView,
    steps: Seq<StepInput>,
    k: int,
)
    requires
        starts(start),
        answered(start, steps),
        0 <= k < steps.len(),
    ensures
        ({
            let base = trace(start, steps.take(k)).log;
            let t = trace(start, steps);
            let ceiling = if start.settings.retry.max_attempts < 1 {
                1
            } else {
                start.settings.retry.max_attempts as int
            };
            let last_chance = start.settings.prepared || attempts_in(base) >= ceiling || overdue(
                start.deadline,
                steps[k].now,
            );
            match steps[k].input {
                RunInput::Claimed(Err(error)) => ends_with(
                    base,
                    t,
                    PayloadView::Failed { error: error.rendered() },
                ),
                RunInput::SendMarked(Err(error)) => ends_with(
                    base,
                    t,
                    PayloadView::Failed { error: error.rendered() },
                ),
                RunInput::Renewed(Err(error)) => ends_with(
                    base,
                    t,
                    PayloadView::Failed { error: error.rendered() },
                ),
                RunInput::Delivered(Raced::Done(Err(error))) => last_chance || !(error
                    is NotAccepted || error is ExecutionFailed) ==> ends_with(
                    base,
                    t,
                    PayloadView::Failed { error: error.rendered() },
                ),
                RunInput::Delivered(Raced::Cancelled(reason)) => ends_with(
                    base,
                    t,
                    PayloadView::Cancelled { reason: reason@ },
                ),
                RunInput::Delivered(Raced::TimedOut(deadline)) => ends_with(
                    base,
                    t,
                    PayloadView::TimedOut { deadline },
                ),
                RunInput::Executed(Raced::Done(Ok(DispatchOutcome::Completed { output }))) =>
                    ends_with(base, t, PayloadView::Completed { output: output@ }),
                RunInput::Executed(Raced::Done(Ok(DispatchOutcome::Failed { error }))) => ends_with(
                    base,
                    t,
                    PayloadView::Failed { error: error@ },
                ),
                RunInput::Executed(Raced::Done(Err(error))) => last_chance || !(error
                    is NotAccepted || error is ExecutionFailed) ==> ends_with(
                    base,
                    t,
                    PayloadView::Failed { error: error.rendered() },
                ),
                RunInput::Executed(Raced::Cancelled(reason)) => ends_with(
                    base,
                    t,
                    PayloadView::Cancelled { reason: reason@ },
                ),
                RunInput::Executed(Raced::TimedOut(deadline)) => ends_with(
                    base,
                    t,
                    PayloadView::TimedOut { deadline },
                ),
                RunInput::Waited(Raced::Cancelled(reason)) => ends_with(
                    base,
                    t,
                    PayloadView::Cancelled { reason: reason@ },
                ),
                RunInput::Waited(Raced::TimedOut(deadline)) => ends_with(
                    base,
                    t,
                    PayloadView::TimedOut { deadline },
                ),
                _ => true,
            }
        }),
{
    let earlier = steps.take(k);
    let upto = steps.take(k + 1);
    let step = steps[k];
    let base = trace(start, earlier).log;
    assert(upto.drop_last() =~= earlier);
    lemma_answered_before(start, steps, k);
    lemma_answered_before(start, steps, k + 1);
    lemma_trace_is_consistent(start, earlier);
    lemma_settings_stay(start, earlier);
    let t = trace(start, upto);
    let payload = match t.run.stage {
        StageView::Writing { payload, .. } => payload,
        StageView::Releasing { payload } => payload,
        StageView::Finalizing { payload } => payload,
        StageView::ReportingFailure { payload } => payload,
        _ => PayloadView::Queued,
    };
    if decided(base, t, payload) {
        lemma_decided_stays(start, steps, k + 1, base, payload);
        lemma_trace_is_consistent(start, steps);
    }
}

/// What a run holds on to: the attempt under way is the one that was announced last, and a
/// lease is the one that came with the claim.
spec fn linked(start: RunView, steps: Seq<StepInput>) -> bool {
    let t = trace(start, steps);
    let log = t.log;
    let own = PayloadView::Dispatched { delivery: t.run.delivery, attempt: t.run.attempt };
    &&& t.run.leased <==> (steps.len() > 0 && (steps[0].input matches RunInput::Claimed(Ok(lease))
        && lease is Some))
    &&& t.run.stage is Claiming ==> steps.len() == 0
    &&& match t.run.stage {
        StageView::Writing { purpose, .. } => purpose == Purpose::Start ==> log.last().payload
            == own,
        StageView::Marking | StageView::Renewing | StageView::Delivering => log.last().payload
            == own,
        StageView::Executing => log.len() >= 2 && log[log.len() - 2].payload == own,
        _ => true,
    }
}

proof fn lemma_linked(start: RunView, steps: Seq<StepInput>)
    requires
        starts(start),
        !start.leased,
        answered(start, steps),
    ensures
        linked(start, steps),
    decreases steps.len(),
{
    if steps.len() > 0 {
        let earlier = steps.drop_last();
        lemma_linked(start, earlier);
        lemma_trace_is_consistent(start, earlier);
        let t = trace(start, earlier);
        if earlier.len() > 0 {
            assert(earlier[0] == steps[0]);
        }
        match recorded_event(t.run, steps.last().input) {
            Some(entry) => {
                let log = trace(start, steps).log;
                assert(log == t.log.push(entry));
                if t.log.len() > 0 {
                    assert(log[log.len() - 2] == t.log.last());
                }
            },
            None => {},
        }
    }
}

/// Whether `action` announces the event of a log that comes next, with this payload: it is
/// recorded first where the run is durable.
pub open spec fn announced(
    action: RunAction,
    durable: bool,
    log: Seq<LogEntry>,
    payload: PayloadView,
) -> bool {
    match action {
        RunAction::Record(event) => durable && event.seq == log.len() + 2 && event.payload@
            == payload,
        RunAction::Emit(event) => !durable && event.seq == log.len() + 2 && event.payload@
            == payload,
        _ => false,
    }
}

/// Whether `action` stops the worker because the event of a log that comes next could not
/// be confirmed.
pub open spec fn stops_unconfirmed(
    action: RunAction,
    task_id: TaskId,
    log: Seq<LogEntry>,
) -> bool {
    action matches RunAction::Return(Err(WorkerError::EventWrite { task_id: own, seq, error }))
        && own == task_id && seq == log.len() + 2 && error == BusError::TaskChannelClosed
}

/// How a task goes on after each thing that came of an action, told by what was recorded
/// of it and by its settings. An attempt begins with its announcement, unless the task was
/// cancelled or is overdue; what was announced is delivered, and what was delivered is
/// announced as running and executed; what was executed is told or handed to the
/// authority that owns the end.
pub proof fn law_a_task_goes_step_by_step(
    start: RunView,
    steps: Seq<StepInput>,
    action: RunAction,
)
    requires
        starts(start),
        !start.leased,
        answered(start, steps),
        steps.len() > 0,
        asked(trace(start, steps).run, steps.last().now, action),
    ensures
        ({
            let log = trace(start, steps).log;
            let step = steps.last();
            let durable = start.settings.lifecycle;
            let prepared = start.settings.prepared;
            let leased = steps[0].input matches RunInput::Claimed(Ok(lease)) && lease is Some;
            match step.input {
                RunInput::Claimed(Ok(_)) => match step.cancel {
                    Some(reason) => announced(
                        action,
                        durable,
                        log,
                        PayloadView::Cancelled { reason },
                    ),
                    None => if overdue(start.deadline, step.now) {
                        announced(
                            action,
                            durable,
                            log,
                            PayloadView::TimedOut { deadline: start.deadline->0 },
                        )
                    } else {
                        announced(
                            action,
                            durable,
                            log,
                            PayloadView::Dispatched { delivery: step.drawn, attempt: 1 },
                        )
                    },
                },
                RunInput::Waited(Raced::Done(_)) => match step.cancel {
                    Some(reason) => announced(
                        action,
                        durable,
                        log,
                        PayloadView::Cancelled { reason },
                    ),
                    None => if overdue(start.deadline, step.now) {
                        announced(
                            action,
                            durable,
                            log,
                            PayloadView::TimedOut { deadline: start.deadline->0 },
                        )
                    } else {
                        announced(
                            action,
                            durable,
                            log,
                            PayloadView::Dispatched {
                                delivery: step.drawn,
                                attempt: attempts_in(log) + 1,
                            },
                        )
                    },
                },
                RunInput::Recorded(Ok(LifecycleResult::Stale)) => stops_unconfirmed(
                    action,
                    start.task_id,
                    log,
                ),
                RunInput::Recorded(Err(_)) => stops_unconfirmed(action, start.task_id, log),
                RunInput::Recorded(Ok(_)) => action is Emit,
                RunInput::Emitted(Err(error)) => action matches RunAction::Return(Err(stop))
                    && stop == (match error {
                    BusError::EventSinkClosed => WorkerError::EventStreamClosed {
                        task_id: start.task_id,
                        seq: (log.len() + 2) as u64,
                    },
                    BusError::EventBufferFull => WorkerError::EventBackpressure {
                        task_id: start.task_id,
                        seq: (log.len() + 2) as u64,
                    },
                    _ => WorkerError::EventWrite {
                        task_id: start.task_id,
                        seq: (log.len() + 2) as u64,
                        error,
                    },
                }),
                RunInput::Emitted(Ok(_)) => log.len() > 0 && match log.last().payload {
                    PayloadView::Dispatched { delivery, attempt } => if leased {
                        action is MarkSendStarted
                    } else {
                        action matches RunAction::Deliver { delivery_id, attempt: number }
                            && delivery_id == delivery && number == attempt
                    },
                    PayloadView::Running { .. } => log.len() >= 2 && (log[log.len() - 2].payload
                        matches PayloadView::Dispatched { delivery, attempt } && (action matches
                        RunAction::Execute { delivery_id, attempt: number } && delivery_id
                        == delivery && number == attempt)),
                    _ => log.last().payload.terminal() && action == RunAction::Return(Ok(())),
                },
                RunInput::SendMarked(Ok(_)) => action is RenewLease,
                RunInput::Renewed(Ok(_)) => log.len() > 0 && (log.last().payload matches
                    PayloadView::Dispatched { delivery, attempt } && (action matches
                    RunAction::Deliver { delivery_id, attempt: number } && delivery_id == delivery
                    && number == attempt)),
                RunInput::Delivered(Raced::Done(Ok(_))) => match step.cancel {
                    Some(reason) => if prepared {
                        action matches RunAction::ReleasePrepared { reason: own } && own@ == reason
                    } else {
                        announced(action, durable, log, PayloadView::Cancelled { reason })
                    },
                    None => if overdue(start.deadline, step.now) {
                        if prepared {
                            action matches RunAction::ReleasePrepared { reason } && reason@
                                == "task deadline elapsed"@
                        } else {
                            announced(
                                action,
                                durable,
                                log,
                                PayloadView::TimedOut { deadline: start.deadline->0 },
                            )
                        }
                    } else {
                        announced(
                            action,
                            durable,
                            log,
                            PayloadView::Running { started_at: step.now },
                        )
                    },
                },
                RunInput::Delivered(Raced::Done(Err(error))) => prepared ==> (action matches
                    RunAction::ReportFailure(event) && event.seq == log.len() + 2
                    && event.payload@ == (PayloadView::Failed { error: error.rendered() })),
                RunInput::FailureReported(Ok(_)) => action == RunAction::Return(Ok(())),
                RunInput::FailureReported(Err(_)) => stops_unconfirmed(
                    action,
                    start.task_id,
                    log,
                ),
                RunInput::Executed(Raced::Done(Ok(outcome))) => {
                    let payload = match outcome {
                        DispatchOutcome::Completed { output } => PayloadView::Completed {
                            output: output@,
                        },
                        DispatchOutcome::Failed { error } => PayloadView::Failed { error: error@ },
                    };
                    if prepared {
                        action matches RunAction::Finalize(event) && event.seq == log.len() + 2
                            && event.payload@ == payload
                    } else {
                        announced(action, durable, log, payload)
                    }
                },
                RunInput::Executed(Raced::Cancelled(reason)) => if prepared {
                    action matches RunAction::ReleasePrepared { reason: own } && own@ == reason@
                } else {
                    announced(action, durable, log, PayloadView::Cancelled { reason: reason@ })
                },
                RunInput::Executed(Raced::TimedOut(deadline)) => if prepared {
                    action matches RunAction::ReleasePrepared { reason } && reason@
                        == "task deadline elapsed"@
                } else {
                    announced(action, durable, log, PayloadView::TimedOut { deadline })
                },
                RunInput::Released(true) => action is Finalize,
                RunInput::Released(false) => stops_unconfirmed(action, start.task_id, log),
                RunInput::Finalized(Some(FinalizeResult::Committed)) => if durable {
                    action is Record
                } else {
                    action is Emit
                },
                RunInput::Finalized(Some(FinalizeResult::AlreadyTerminal)) => if durable {
                    action is Record
                } else {
                    action is Emit
                },
                RunInput::Finalized(_) => stops_unconfirmed(action, start.task_id, log),
                _ => true,
            }
        }),
{
    let earlier = steps.drop_last();
    let t = trace(start, earlier);
    lemma_trace_is_consistent(start, earlier);
    lemma_trace_is_consistent(start, steps);
    lemma_settings_stay(start, earlier);
    lemma_settings_stay(start, steps);
    lemma_linked(start, earlier);
    lemma_linked(start, steps);
    if earlier.len() > 0 {
        assert(earlier[0] == steps[0]);
    }
    match recorded_event(t.run, steps.last().input) {
        Some(entry) => {
            let log = trace(start, steps).log;
            assert(log == t.log.push(entry));
            if t.log.len() > 0 {
                assert(log[log.len() - 2] == t.log.last());
            }
        },
        None => {},
    }
}

/// A delivery or an execution that failed for the moment is tried again: while an attempt
/// is left and the task is not overdue, the next attempt is announced at once, under the
/// identity drawn for it and with the next number, where nothing is waited for; otherwise
/// the backoff is waited for first.
pub proof fn law_a_failed_attempt_is_tried_again(
    start: RunView,
    steps: Seq<StepInput>,
    action: RunAction,
    error: DispatchError,
)
    requires
        starts(start),
        answered(start, steps),
        steps.len() > 0,
        asked(trace(start, steps).run, steps.last().now, action),
        steps.last().input == RunInput::Delivered(Raced::Done(Err(error)))
            || steps.last().input == RunInput::Executed(Raced::Done(Err(error))),
        error is NotAccepted || error is ExecutionFailed,
        !start.settings.prepared,
        attempts_in(trace(start, steps).log) < start.settings.retry.max_attempts,
        !overdue(start.deadline, steps.last().now),
    ensures
        ({
            let log = trace(start, steps).log;
            let step = steps.last();
            let durable = start.settings.lifecycle;
            let delay = start.settings.retry.backoff.delay(attempts_in(log) as u32);
            if delay == 0 || !start.settings.timer {
                match step.cancel {
                    Some(reason) => announced(
                        action,
                        durable,
                        log,
                        PayloadView::Cancelled { reason },
                    ),
                    None => announced(
                        action,
                        durable,
                        log,
                        PayloadView::Dispatched {
                            delivery: step.drawn,
                            attempt: attempts_in(log) + 1,
                        },
                    ),
                }
            } else {
                action matches RunAction::WaitUntil(until) && until.total() == (if step.now.total()
                    + delay <= crate::time::max_instant() {
                    step.now.total() + delay
                } else {
                    crate::time::max_instant()
                })
            }
        }),
{
    let earlier = steps.drop_last();
    lemma_trace_is_consistent(start, earlier);
    lemma_trace_is_consistent(start, steps);
    lemma_settings_stay(start, earlier);
    lemma_settings_stay(start, steps);
}

/// What an authority confirmed or recorded is what is told: an event that was recorded, or
/// whose end was finalized or is to be finalized, is the one that was asked for before.
pub proof fn law_a_confirmed_event_is_told_as_it_is(
    start: RunView,
    steps: Seq<StepInput>,
    before: RunAction,
    asked_at: Timestamp,
    action: RunAction,
)
    requires
        starts(start),
        answered(start, steps),
        steps.len() > 0,
        asked(trace(start, steps.drop_last()).run, asked_at, before),
        asked(trace(start, steps).run, steps.last().now, action),
    ensures
        steps.last().input is Recorded ==> (told_event(action) matches Some(event) ==> (before
            matches RunAction::Record(own) && event.payload@ == own.payload@ && event.seq
            == own.seq && event.task_id == own.task_id)),
        steps.last().input is Finalized ==> (told_event(action) matches Some(event) ==> (before
            matches RunAction::Finalize(own) && event.payload@ == own.payload@ && event.seq
            == own.seq && event.task_id == own.task_id)),
        steps.last().input is Released ==> (told_event(action) matches Some(event) ==> (before
            matches RunAction::ReleasePrepared { reason } && match event.payload@ {
            PayloadView::Cancelled { reason: own } => own == reason@,
            PayloadView::TimedOut { .. } => reason@ == "task deadline elapsed"@,
            _ => false,
        })),
{
    let earlier = steps.drop_last();
    lemma_trace_is_consistent(start, earlier);
    lemma_trace_is_consistent(start, steps);
    lemma_released_ends(start, earlier);
}

proof fn lemma_released_ends(start: RunView, steps: Seq<StepInput>)
    requires
        starts(start),
        answered(start, steps),
    ensures
        trace(start, steps).run.stage matches StageView::Releasing { payload } ==> payload
            is Cancelled || payload is TimedOut,
    decreases steps.len(),
{
    if steps.len() > 0 {
        lemma_released_ends(start, steps.drop_last());
    }
}

/// A run waits for what answers its last action, and for nothing once it is over.
pub proof fn law_a_run_waits_for_what_it_asked(
    run: RunView,
    now: Timestamp,
    action: RunAction,
    next: RunInput,
)
    requires
        asked(run, now, action),
    ensures
        answers(run.stage, next) <==> (match action {
            RunAction::ClaimQueue => next is Claimed,
            RunAction::Record(_) => next is Recorded,
            RunAction::Emit(_) => next is Emitted,
            RunAction::MarkSendStarted => next is SendMarked,
            RunAction::RenewLease => next is Renewed,
            RunAction::Deliver { .. } => next is Delivered,
            RunAction::ReportFailure(_) => next is FailureReported,
            RunAction::Execute { .. } => next is Executed,
            RunAction::WaitUntil(_) => next is Waited,
            RunAction::ReleasePrepared { .. } => next is Released,
            RunAction::Finalize(_) => next is Finalized,
            RunAction::Return(_) => false,
        }),
{
}

/// A task is recorded as completed only where an execution of it completed, with the
/// output that was recorded.
pub proof fn law_only_a_completed_execution_completes_a_task(
    start: RunView,
    steps: Seq<StepInput>,
    i: int,
    output: Seq<char>,
)
    requires
        starts(start),
        answered(start, steps),
        0 <= i < trace(start, steps).log.len(),
        trace(start, steps).log[i].payload == (PayloadView::Completed { output }),
    ensures
        completed_in(steps, output),
{
    lemma_completions(start, steps);
}

/// Whether one of `steps` tells of an execution that completed with this output.
pub open spec fn completed_in(steps: Seq<StepInput>, output: Seq<char>) -> bool {
    exists|k: int|
        0 <= k < steps.len() && ((#[trigger] steps[k]).input matches RunInput::Executed(
            Raced::Done(Ok(DispatchOutcome::Completed { output: own })),
        ) && own@ == output)
}

proof fn lemma_completions(start: RunView, steps: Seq<StepInput>)
    requires
        starts(start),
        answered(start, steps),
    ensures
        ({
            let t = trace(start, steps);
            &&& forall|i: int|
                0 <= i < t.log.len() ==> ((#[trigger] t.log[i]).payload matches
                    PayloadView::Completed { output } ==> completed_in(steps, output))
            &&& match t.run.stage {
                StageView::Writing { payload, .. } => payload matches PayloadView::Completed {
                    output,
                } ==> completed_in(steps, output),
                StageView::Finalizing { payload } => payload matches PayloadView::Completed {
                    output,
                } ==> completed_in(steps, output),
                StageView::Releasing { payload } => payload matches PayloadView::Completed {
                    output,
                } ==> completed_in(steps, output),
                StageView::ReportingFailure { payload } => payload matches PayloadView::Completed {
                    output,
                } ==> completed_in(steps, output),
                _ => true,
            }
        }),
    decreases steps.len(),
{
    if steps.len() > 0 {
        let earlier = steps.drop_last();
        lemma_completions(start, earlier);
        lemma_trace_is_consistent(start, earlier);
        assert forall|output: Seq<char>| completed_in(earlier, output) implies completed_in(
            steps,
            output,
        ) by {
            let k = choose|k: int|
                0 <= k < earlier.len() && ((#[trigger] earlier[k]).input matches RunInput::Executed(
                    Raced::Done(Ok(DispatchOutcome::Completed { output: own })),
                ) && own@ == output);
            assert(steps[k] == earlier[k]);
        }
        assert(steps[steps.len() - 1] == steps.last());
        let t = trace(start, earlier);
        let after = trace(start, steps);
        assert forall|i: int| 0 <= i < after.log.len() implies ((#[trigger] after.log[i]).payload
            matches PayloadView::Completed { output } ==> completed_in(steps, output)) by {
            if i < t.log.len() {
                assert(after.log[i] == t.log[i]);
            }
        }
    }
}

/// How a task that may be dispatched begins: a durable one is claimed first; any other is
/// announced as dispatched, under the identity drawn for it, unless it was cancelled or is
/// overdue.
pub proof fn law_a_run_begins_with_a_claim_or_an_attempt(
    task: AgentTask,
    settings: RunSettings,
    cancel: Option<Seq<char>>,
    now: Timestamp,
    drawn: DeliveryId,
    action: RunAction,
)
    requires
        asked(begun(task, settings, cancel, now, drawn), now, action),
    ensures
        starts(begun(task, settings, cancel, now, drawn)),
        !begun(task, settings, cancel, now, drawn).leased,
        begun(task, settings, cancel, now, drawn).task_id == task.task_id,
        begun(task, settings, cancel, now, drawn).deadline == task.deadline,
        begun(task, settings, cancel, now, drawn).settings == settings,
        if settings.lifecycle {
            action is ClaimQueue
        } else {
            match cancel {
                Some(reason) => announced(
                    action,
                    false,
                    Seq::empty(),
                    PayloadView::Cancelled { reason },
                ),
                None => if overdue(task.deadline, now) {
                    announced(
                        action,
                        false,
                        Seq::empty(),
                        PayloadView::TimedOut { deadline: task.deadline->0 },
                    )
                } else {
                    announced(
                        action,
                        false,
                        Seq::empty(),
                        PayloadView::Dispatched { delivery: drawn, attempt: 1 },
                    )
                },
            }
        },
{
}

/// The reasons recorded for a task are given up once the task is over, and not before.
pub proof fn law_a_task_that_is_over_is_given_up(
    start: RunView,
    steps: Seq<StepInput>,
    recorded: Recorded,
)
    requires
        starts(start),
        answered(start, steps),
        steps.len() > 0,
        start.settings.cancellation,
    ensures
        ({
            let before = trace(start, steps.drop_last()).run;
            let left = before.left_recorded(recorded, steps.last().input);
            match trace(start, steps).run.stage {
                StageView::Done { result: Ok(_) } => left == recorded.finished(start.task_id),
                StageView::Done { result: Err(_) } => left == recorded || left
                    == recorded.finished(start.task_id),
                _ => left == recorded,
            }
        }),
{
    lemma_settings_stay(start, steps.drop_last());
    lemma_trace_is_consistent(start, steps.drop_last());
}

} // verus!
